use cfg_ir::cfg::{Assign, BasicBlock, Cfg, RefCount, Statement, Terminator, Value};

fn dup(place: usize, count: usize) -> Statement {
    Statement::Dup(RefCount { place, count })
}

fn release(place: usize, count: usize) -> Statement {
    Statement::Drop(RefCount { place, count })
}

fn allocate(place: usize) -> Statement {
    Statement::Assign(Assign { place, value: Value::Place(0), allocate: true })
}

fn ret(stmnts: Vec<Statement>) -> BasicBlock {
    BasicBlock { phi: vec![], stmnts, terminator: Some(Terminator::Return(0)) }
}

fn branch(stmnts: Vec<Statement>, iff: BasicBlock, elsee: BasicBlock) -> BasicBlock {
    BasicBlock {
        phi: vec![],
        stmnts,
        terminator: Some(Terminator::IfElse { cond: 9, iff: Box::new(iff), elsee: Box::new(elsee) }),
    }
}

#[test]
fn symmetric_dup_drop_is_balanced() {
    let b = branch(
        vec![allocate(1), dup(1, 2)],
        ret(vec![release(1, 3)]),
        ret(vec![release(1, 1), dup(1, 4), release(1, 6)]),
    );
    assert_eq!(b.is_balanced(1), Some(true));
}

#[test]
fn one_unbalanced_arm_is_caught() {
    let b = branch(vec![allocate(1), dup(1, 2)], ret(vec![release(1, 3)]), ret(vec![release(1, 2)]));
    assert_eq!(b.is_balanced(1), Some(false));
}

#[test]
fn deallocation_accounts_for_the_rest() {
    let b = branch(vec![allocate(1)], ret(vec![release(1, 1)]), ret(vec![Statement::Deallocate(1)]));
    assert_eq!(b.is_balanced(1), Some(true));
    assert_eq!(ret(vec![allocate(2), Statement::Deallocate(3)]).is_balanced(2), Some(false));
}

#[test]
fn other_registers_do_not_count() {
    let b = ret(vec![allocate(1), dup(2, 5), release(1, 1)]);
    assert_eq!(b.is_balanced(1), Some(true));
    assert_eq!(b.is_balanced(2), Some(false));
}

#[test]
fn blocks_without_return_are_balanced() {
    let dead = BasicBlock { phi: vec![], stmnts: vec![allocate(1)], terminator: None };
    assert_eq!(dead.is_balanced(1), Some(true));
    let jump = BasicBlock { phi: vec![], stmnts: vec![dup(1, 1)], terminator: Some(Terminator::Goto(2)) };
    assert_eq!(jump.is_balanced(1), Some(true));
}

#[test]
fn largest_counts_cancel() {
    let b = ret(vec![dup(1, usize::MAX), dup(1, usize::MAX), release(1, usize::MAX), release(1, usize::MAX)]);
    assert_eq!(b.is_balanced(1), Some(true));
}

fn goto(stmnts: Vec<Statement>, target: usize) -> BasicBlock {
    BasicBlock { phi: vec![], stmnts, terminator: Some(Terminator::Goto(target)) }
}

fn graph(blocks: Vec<BasicBlock>) -> Cfg {
    Cfg { arg_count: 0, place_tys: vec![], basic_blocks: blocks }
}

#[test]
fn graph_paths_follow_jumps() {
    let ok = graph(vec![
        branch(vec![allocate(1)], goto(vec![dup(1, 1)], 1), goto(vec![], 2)),
        goto(vec![release(1, 1)], 2),
        ret(vec![release(1, 1)]),
    ]);
    assert_eq!(ok.is_balanced(1), Some(true));
    let bad = graph(vec![
        branch(vec![allocate(1)], goto(vec![dup(1, 1)], 1), goto(vec![], 1)),
        goto(vec![release(1, 1)], 2),
        ret(vec![release(1, 1)]),
    ]);
    assert_eq!(bad.is_balanced(1), Some(false));
}

#[test]
fn graph_cycles_and_empty_graphs_terminate() {
    let looping = graph(vec![goto(vec![dup(1, 1)], 1), goto(vec![release(1, 1)], 0)]);
    assert_eq!(looping.is_balanced(1), Some(true));
    assert_eq!(graph(vec![]).is_balanced(1), Some(true));
    let outside = graph(vec![goto(vec![dup(1, 1)], 5)]);
    assert_eq!(outside.is_balanced(1), Some(true));
}
