//! The control-flow graph: registers, values, statements with explicit
//! reference counting, phi nodes, terminators, basic blocks and the
//! whole-function container.
use vstd::prelude::*;

use crate::ast::Ident;
use crate::types::Type;

pub mod balance;
pub mod render;

verus! {

/// An operand: a read of a register, or a call of a named function on
/// registers.
pub enum Value {
    Place(usize),
    Call { func: Ident, args: Vec<usize> },
}

/// Binds the value to the register; `allocate` marks an assignment that
/// also creates fresh heap-managed storage.
pub struct Assign {
    pub place: usize,
    pub value: Value,
    pub allocate: bool,
}

/// A change of the reference count of a register's referent by `count`.
pub struct RefCount {
    pub place: usize,
    pub count: usize,
}

pub enum Statement {
    Assign(Assign),
    Nop,
    Deallocate(usize),
    Dup(RefCount),
    Drop(RefCount),
}

/// At block entry `place` takes the register paired with the predecessor
/// that control came from; the pairs keep their order.
pub struct PhiNode {
    pub place: usize,
    pub opts: Vec<(String, usize)>,
}

/// How a block ends. A branch owns its two arms as nested blocks.
pub enum Terminator {
    Goto(usize),
    Return(usize),
    IfElse { cond: usize, iff: Box<BasicBlock>, elsee: Box<BasicBlock> },
}

/// A block without a terminator is a dead end.
pub struct BasicBlock {
    pub phi: Vec<PhiNode>,
    pub stmnts: Vec<Statement>,
    pub terminator: Option<Terminator>,
}

/// One function: registers `1..=arg_count` are its arguments, `place_tys`
/// gives the type of every register, and block 0 is the entry.
pub struct Cfg {
    pub arg_count: usize,
    pub place_tys: Vec<Type>,
    pub basic_blocks: Vec<BasicBlock>,
}

} // verus!
