//! Reference-count balance: along every path from a block to a `return`,
//! the increments and decrements of a register's count cancel out, unless
//! the path deallocates the register.
use vstd::prelude::*;

use super::{BasicBlock, Cfg, RefCount, Statement, Terminator};

verus! {

/// The change that one statement makes to the count of register `p`: an
/// allocating assignment counts one, `dup+n` adds n, `drop-n` takes n.
pub open spec fn delta(s: Statement, p: usize) -> int {
    match s {
        Statement::Assign(a) => if a.place == p && a.allocate {
            1
        } else {
            0
        },
        Statement::Dup(r) => if r.place == p {
            r.count as int
        } else {
            0
        },
        Statement::Drop(r) => if r.place == p {
            -(r.count as int)
        } else {
            0
        },
        _ => 0,
    }
}

/// The net change that a statement sequence makes to the count of `p`.
pub open spec fn net(stmnts: Seq<Statement>, p: usize) -> int
    decreases stmnts.len(),
{
    if stmnts.len() == 0 {
        0
    } else {
        net(stmnts.drop_last(), p) + delta(stmnts.last(), p)
    }
}

/// Whether a statement sequence deallocates `p`.
pub open spec fn frees(stmnts: Seq<Statement>, p: usize) -> bool
    decreases stmnts.len(),
{
    if stmnts.len() == 0 {
        false
    } else {
        frees(stmnts.drop_last(), p) || stmnts.last() == Statement::Deallocate(p)
    }
}

/// Every path from the start of `b` to a `return`, entered with count
/// change `acc` and with `gone` telling whether `p` was deallocated,
/// ends with no change left or with `p` deallocated. A path enters both
/// arms of a branch and follows a `goto` into `blocks` at most `jumps`
/// times; a path that reaches a dead end, jumps outside `blocks` or has no
/// jump left is not constrained.
pub open spec fn balanced_from(
    blocks: Seq<BasicBlock>,
    b: BasicBlock,
    p: usize,
    acc: int,
    gone: bool,
    jumps: nat,
) -> bool
    decreases jumps, b,
{
    let acc2 = acc + net(b.stmnts@, p);
    let gone2 = gone || frees(b.stmnts@, p);
    match b.terminator {
        Some(Terminator::Return(_)) => acc2 == 0 || gone2,
        Some(Terminator::IfElse { iff, elsee, .. }) => balanced_from(
            blocks,
            *iff,
            p,
            acc2,
            gone2,
            jumps,
        ) && balanced_from(blocks, *elsee, p, acc2, gone2, jumps),
        Some(Terminator::Goto(t)) => if t < blocks.len() && jumps > 0 {
            balanced_from(blocks, blocks[t as int], p, acc2, gone2, (jumps - 1) as nat)
        } else {
            true
        },
        None => true,
    }
}

/// Every path from `b` to a `return` within `b` and its nested arms leaves
/// the count of `p` balanced.
pub open spec fn balanced(b: BasicBlock, p: usize) -> bool {
    balanced_from(Seq::empty(), b, p, 0, false, 0)
}

/// Every path from the entry block to a `return` that passes through at
/// most as many jumps as the graph has blocks (enough for every path that
/// visits no block twice) leaves the count of `p` balanced.
pub open spec fn cfg_balanced(c: Cfg, p: usize) -> bool {
    c.basic_blocks@.len() > 0 ==> balanced_from(
        c.basic_blocks@,
        c.basic_blocks@[0],
        p,
        0,
        false,
        c.basic_blocks@.len(),
    )
}

/// Count changes and deallocations of two statement runs add up.
pub proof fn lemma_net_concat(s: Seq<Statement>, t: Seq<Statement>, p: usize)
    ensures
        net(s + t, p) == net(s, p) + net(t, p),
        frees(s + t, p) == (frees(s, p) || frees(t, p)),
    decreases t.len(),
{
    if t.len() == 0 {
        assert(s + t =~= s);
    } else {
        assert((s + t).drop_last() =~= s + t.drop_last());
        lemma_net_concat(s, t.drop_last(), p);
    }
}

/// Inserting `dup+n _p` directly followed by `drop-n _p` anywhere in a
/// block's statements leaves the block exactly as balanced as before.
pub proof fn lemma_dup_drop_pair_keeps_balance(
    b: BasicBlock,
    b2: BasicBlock,
    p: usize,
    at: int,
    n: usize,
    acc: int,
    gone: bool,
    blocks: Seq<BasicBlock>,
    jumps: nat,
)
    requires
        0 <= at <= b.stmnts@.len(),
        b2.terminator == b.terminator,
        b2.stmnts@ == b.stmnts@.take(at) + seq![
            Statement::Dup(RefCount { place: p, count: n }),
            Statement::Drop(RefCount { place: p, count: n }),
        ] + b.stmnts@.skip(at),
    ensures
        balanced_from(blocks, b2, p, acc, gone, jumps) == balanced_from(blocks, b, p, acc, gone, jumps),
{
    let s = b.stmnts@;
    let pair = seq![
        Statement::Dup(RefCount { place: p, count: n }),
        Statement::Drop(RefCount { place: p, count: n }),
    ];
    assert(s =~= s.take(at) + s.skip(at));
    lemma_net_concat(s.take(at), s.skip(at), p);
    lemma_net_concat(s.take(at), pair, p);
    lemma_net_concat(s.take(at) + pair, s.skip(at), p);
    assert(pair.drop_last() =~= seq![Statement::Dup(RefCount { place: p, count: n })]);
    assert(pair.drop_last().drop_last() =~= Seq::<Statement>::empty());
    assert(net(pair.drop_last().drop_last(), p) == 0);
    assert(!frees(pair.drop_last().drop_last(), p));
    assert(net(pair.drop_last(), p) == n);
    assert(!frees(pair.drop_last(), p));
    assert(net(pair, p) == 0);
    assert(!frees(pair, p));
}

proof fn lemma_same_after_statements(
    a: BasicBlock,
    a2: BasicBlock,
    p: usize,
    acc: int,
    acc2: int,
    gone: bool,
    blocks: Seq<BasicBlock>,
    jumps: nat,
)
    requires
        a2.terminator == a.terminator,
        acc2 + net(a2.stmnts@, p) == acc + net(a.stmnts@, p),
        frees(a2.stmnts@, p) == frees(a.stmnts@, p),
    ensures
        balanced_from(blocks, a2, p, acc2, gone, jumps) == balanced_from(blocks, a, p, acc, gone, jumps),
{
}

/// Adding `dup+n _p` at the end of a block that branches, together with
/// `drop-n _p` at the start of both arms, leaves the block exactly as
/// balanced as before.
pub proof fn lemma_dup_before_branch_keeps_balance(
    b: BasicBlock,
    b2: BasicBlock,
    cond: usize,
    iff: BasicBlock,
    elsee: BasicBlock,
    iff2: BasicBlock,
    elsee2: BasicBlock,
    p: usize,
    n: usize,
    acc: int,
    gone: bool,
    blocks: Seq<BasicBlock>,
    jumps: nat,
)
    requires
        b.terminator == Some(
            Terminator::IfElse { cond, iff: Box::new(iff), elsee: Box::new(elsee) },
        ),
        b2.terminator == Some(
            Terminator::IfElse { cond, iff: Box::new(iff2), elsee: Box::new(elsee2) },
        ),
        b2.stmnts@ == b.stmnts@.push(Statement::Dup(RefCount { place: p, count: n })),
        iff2.terminator == iff.terminator,
        iff2.stmnts@ == seq![Statement::Drop(RefCount { place: p, count: n })] + iff.stmnts@,
        elsee2.terminator == elsee.terminator,
        elsee2.stmnts@ == seq![Statement::Drop(RefCount { place: p, count: n })] + elsee.stmnts@,
    ensures
        balanced_from(blocks, b2, p, acc, gone, jumps) == balanced_from(blocks, b, p, acc, gone, jumps),
{
    let drop = seq![Statement::Drop(RefCount { place: p, count: n })];
    assert(b2.stmnts@.drop_last() =~= b.stmnts@);
    assert(drop.drop_last() =~= Seq::<Statement>::empty());
    assert(net(drop.drop_last(), p) == 0);
    assert(!frees(drop.drop_last(), p));
    assert(drop.last() == Statement::Drop(RefCount { place: p, count: n }));
    assert(net(drop, p) == -(n as int));
    assert(!frees(drop, p));
    lemma_net_concat(drop, iff.stmnts@, p);
    lemma_net_concat(drop, elsee.stmnts@, p);
    let acc1 = acc + net(b.stmnts@, p);
    let gone1 = gone || frees(b.stmnts@, p);
    lemma_same_after_statements(iff, iff2, p, acc1, acc1 + n, gone1, blocks, jumps);
    lemma_same_after_statements(elsee, elsee2, p, acc1, acc1 + n, gone1, blocks, jumps);
}

/// Walking from any block over `blocks2` gives what walking over `blocks`
/// gives, when each block of `blocks2` walks as the block in its place does.
proof fn lemma_replaced_blocks(
    blocks: Seq<BasicBlock>,
    blocks2: Seq<BasicBlock>,
    x: BasicBlock,
    p: usize,
    acc: int,
    gone: bool,
    jumps: nat,
)
    requires
        blocks2.len() == blocks.len(),
        forall|i: int, a: int, g: bool, j: nat|
            0 <= i < blocks.len() ==> #[trigger] balanced_from(blocks, blocks2[i], p, a, g, j)
                == balanced_from(blocks, blocks[i], p, a, g, j),
    ensures
        balanced_from(blocks2, x, p, acc, gone, jumps) == balanced_from(blocks, x, p, acc, gone, jumps),
    decreases jumps, x,
{
    let acc2 = acc + net(x.stmnts@, p);
    let gone2 = gone || frees(x.stmnts@, p);
    match x.terminator {
        Some(Terminator::IfElse { iff, elsee, .. }) => {
            lemma_replaced_blocks(blocks, blocks2, *iff, p, acc2, gone2, jumps);
            lemma_replaced_blocks(blocks, blocks2, *elsee, p, acc2, gone2, jumps);
        },
        Some(Terminator::Goto(t)) => {
            if t < blocks.len() && jumps > 0 {
                lemma_replaced_blocks(
                    blocks,
                    blocks2,
                    blocks2[t as int],
                    p,
                    acc2,
                    gone2,
                    (jumps - 1) as nat,
                );
                assert(balanced_from(blocks, blocks2[t as int], p, acc2, gone2, (jumps - 1) as nat)
                    == balanced_from(blocks, blocks[t as int], p, acc2, gone2, (jumps - 1) as nat));
            }
        },
        _ => {},
    }
}

/// A graph built from a balanced one by inserting `dup+n _p` directly
/// followed by `drop-n _p` into the statements of any block is balanced
/// exactly when the original is: on every path from the entry the pair
/// adds nothing to the count of `p`.
pub proof fn lemma_dup_drop_pair_keeps_graph_balance(
    c: Cfg,
    c2: Cfg,
    k: int,
    at: int,
    n: usize,
    p: usize,
)
    requires
        0 <= k < c.basic_blocks@.len(),
        0 <= at <= c.basic_blocks@[k].stmnts@.len(),
        c2.basic_blocks@.len() == c.basic_blocks@.len(),
        forall|i: int| 0 <= i < c.basic_blocks@.len() && i != k ==> c2.basic_blocks@[i] == c.basic_blocks@[i],
        c2.basic_blocks@[k].terminator == c.basic_blocks@[k].terminator,
        c2.basic_blocks@[k].stmnts@ == c.basic_blocks@[k].stmnts@.take(at) + seq![
            Statement::Dup(RefCount { place: p, count: n }),
            Statement::Drop(RefCount { place: p, count: n }),
        ] + c.basic_blocks@[k].stmnts@.skip(at),
    ensures
        cfg_balanced(c2, p) == cfg_balanced(c, p),
{
    let blocks = c.basic_blocks@;
    let blocks2 = c2.basic_blocks@;
    assert forall|i: int, a: int, g: bool, j: nat|
        0 <= i < blocks.len() implies #[trigger] balanced_from(blocks, blocks2[i], p, a, g, j)
        == balanced_from(blocks, blocks[i], p, a, g, j) by {
        if i == k {
            lemma_dup_drop_pair_keeps_balance(blocks[k], blocks2[k], p, at, n, a, g, blocks, j);
        }
    }
    lemma_replaced_blocks(blocks, blocks2, blocks2[0], p, 0, false, blocks.len());
}

/// A graph built from a balanced one by adding `dup+n _p` at the end of a
/// branching block and `drop-n _p` at the start of both of its arms is
/// balanced exactly when the original is.
pub proof fn lemma_dup_before_branch_keeps_graph_balance(
    c: Cfg,
    c2: Cfg,
    k: int,
    cond: usize,
    iff: BasicBlock,
    elsee: BasicBlock,
    iff2: BasicBlock,
    elsee2: BasicBlock,
    n: usize,
    p: usize,
)
    requires
        0 <= k < c.basic_blocks@.len(),
        c2.basic_blocks@.len() == c.basic_blocks@.len(),
        forall|i: int| 0 <= i < c.basic_blocks@.len() && i != k ==> c2.basic_blocks@[i] == c.basic_blocks@[i],
        c.basic_blocks@[k].terminator == Some(
            Terminator::IfElse { cond, iff: Box::new(iff), elsee: Box::new(elsee) },
        ),
        c2.basic_blocks@[k].terminator == Some(
            Terminator::IfElse { cond, iff: Box::new(iff2), elsee: Box::new(elsee2) },
        ),
        c2.basic_blocks@[k].stmnts@ == c.basic_blocks@[k].stmnts@.push(
            Statement::Dup(RefCount { place: p, count: n }),
        ),
        iff2.terminator == iff.terminator,
        iff2.stmnts@ == seq![Statement::Drop(RefCount { place: p, count: n })] + iff.stmnts@,
        elsee2.terminator == elsee.terminator,
        elsee2.stmnts@ == seq![Statement::Drop(RefCount { place: p, count: n })] + elsee.stmnts@,
    ensures
        cfg_balanced(c2, p) == cfg_balanced(c, p),
{
    let blocks = c.basic_blocks@;
    let blocks2 = c2.basic_blocks@;
    assert forall|i: int, a: int, g: bool, j: nat|
        0 <= i < blocks.len() implies #[trigger] balanced_from(blocks, blocks2[i], p, a, g, j)
        == balanced_from(blocks, blocks[i], p, a, g, j) by {
        if i == k {
            lemma_dup_before_branch_keeps_balance(
                blocks[k],
                blocks2[k],
                cond,
                iff,
                elsee,
                iff2,
                elsee2,
                p,
                n,
                a,
                g,
                blocks,
                j,
            );
        }
    }
    lemma_replaced_blocks(blocks, blocks2, blocks2[0], p, 0, false, blocks.len());
}

/// Whether `x` is representable as an `i128`.
pub open spec fn in_i128(x: int) -> bool {
    i128::MIN <= x <= i128::MAX
}

/// Every running count along the statements, started at `acc`, fits an
/// `i128`.
pub open spec fn sums_fit(stmnts: Seq<Statement>, p: usize, acc: int) -> bool {
    forall|i: int|
        #![trigger net(stmnts.take(i), p)]
        0 <= i <= stmnts.len() ==> in_i128(acc + net(stmnts.take(i), p))
}

/// Every running count along every path that `balanced_from` walks from
/// `b`, started at `acc`, fits an `i128`.
pub open spec fn fits_from(blocks: Seq<BasicBlock>, b: BasicBlock, p: usize, acc: int, jumps: nat) -> bool
    decreases jumps, b,
{
    let acc2 = acc + net(b.stmnts@, p);
    sums_fit(b.stmnts@, p, acc) && match b.terminator {
        Some(Terminator::IfElse { iff, elsee, .. }) => fits_from(blocks, *iff, p, acc2, jumps)
            && fits_from(blocks, *elsee, p, acc2, jumps),
        Some(Terminator::Goto(t)) => t < blocks.len() && jumps > 0 ==> fits_from(
            blocks,
            blocks[t as int],
            p,
            acc2,
            (jumps - 1) as nat,
        ),
        _ => true,
    }
}

fn statement_delta(s: &Statement, p: usize) -> (r: i128)
    ensures
        r == delta(*s, p),
{
    match s {
        Statement::Assign(a) => if a.place == p && a.allocate {
            1
        } else {
            0
        },
        Statement::Dup(r) => if r.place == p {
            r.count as i128
        } else {
            0
        },
        Statement::Drop(r) => if r.place == p {
            -(r.count as i128)
        } else {
            0
        },
        _ => 0,
    }
}

fn deallocates(s: &Statement, p: usize) -> (r: bool)
    ensures
        r == (*s == Statement::Deallocate(p)),
{
    match s {
        Statement::Deallocate(q) => *q == p,
        _ => false,
    }
}

fn balanced_from_exec(
    blocks: &Vec<BasicBlock>,
    b: &BasicBlock,
    p: usize,
    acc: i128,
    gone: bool,
    jumps: usize,
) -> (r: Option<bool>)
    ensures
        r matches Some(v) ==> v == balanced_from(blocks@, *b, p, acc as int, gone, jumps as nat),
        fits_from(blocks@, *b, p, acc as int, jumps as nat) ==> r is Some,
    decreases jumps, b,
{
    let ghost s = b.stmnts@;
    let mut cur: i128 = acc;
    let mut freed: bool = gone;
    let mut i: usize = 0;
    assert(s.take(0) =~= Seq::<Statement>::empty());
    while i < b.stmnts.len()
        invariant
            s == b.stmnts@,
            i <= s.len(),
            cur as int == acc as int + net(s.take(i as int), p),
            freed == (gone || frees(s.take(i as int), p)),
        decreases s.len() - i,
    {
        let d = statement_delta(&b.stmnts[i], p);
        assert(s.take(i + 1).drop_last() =~= s.take(i as int));
        assert(s.take(i + 1).last() == s[i as int]);
        proof {
            if fits_from(blocks@, *b, p, acc as int, jumps as nat) {
                assert(in_i128(acc as int + net(s.take(i + 1), p)));
            }
        }
        match cur.checked_add(d) {
            Some(n) => cur = n,
            None => return None,
        }
        freed = freed || deallocates(&b.stmnts[i], p);
        i = i + 1;
    }
    assert(s.take(s.len() as int) =~= s);
    match &b.terminator {
        Some(Terminator::Return(_)) => Some(cur == 0 || freed),
        Some(Terminator::IfElse { iff, elsee, .. }) => match balanced_from_exec(
            blocks,
            iff,
            p,
            cur,
            freed,
            jumps,
        ) {
            None => None,
            Some(false) => Some(false),
            Some(true) => balanced_from_exec(blocks, elsee, p, cur, freed, jumps),
        },
        Some(Terminator::Goto(t)) => {
            if *t < blocks.len() && jumps > 0 {
                balanced_from_exec(blocks, &blocks[*t], p, cur, freed, jumps - 1)
            } else {
                Some(true)
            }
        },
        None => Some(true),
    }
}

impl BasicBlock {
    /// Whether every path from this block to a `return` leaves the count of
    /// `place` balanced, or deallocates it. `None` only when a running count
    /// on some path leaves the range of `i128`.
    pub fn is_balanced(&self, place: usize) -> (r: Option<bool>)
        ensures
            r matches Some(v) ==> v == balanced(*self, place),
            fits_from(Seq::empty(), *self, place, 0, 0) ==> r is Some,
    {
        let none: Vec<BasicBlock> = Vec::new();
        balanced_from_exec(&none, self, place, 0, false, 0)
    }
}

impl Cfg {
    /// Whether every path from the entry block to a `return`, with at most
    /// as many jumps as there are blocks, leaves the count of `place`
    /// balanced or deallocates it. `None` only when a running count on
    /// some such path leaves the range of `i128`.
    pub fn is_balanced(&self, place: usize) -> (r: Option<bool>)
        ensures
            r matches Some(v) ==> v == cfg_balanced(*self, place),
            self.basic_blocks@.len() > 0 && fits_from(
                self.basic_blocks@,
                self.basic_blocks@[0],
                place,
                0,
                self.basic_blocks@.len(),
            ) ==> r is Some,
    {
        if self.basic_blocks.len() == 0 {
            return Some(true);
        }
        balanced_from_exec(
            &self.basic_blocks,
            &self.basic_blocks[0],
            place,
            0,
            false,
            self.basic_blocks.len(),
        )
    }
}

} // verus!
