//! The canonical text of a graph and of each of its parts. The text is a
//! function of the value alone: every mapping in the graph is an ordered
//! sequence.
use vstd::prelude::*;

use super::{BasicBlock, Cfg, PhiNode, Statement, Terminator, Value};
use crate::text::{
    concat, decimal, lemma_concat_all, lemma_concat_step, place_text, push_decimal,
    push_separator, separator,
};
use crate::types::type_text;

verus! {

/// `(_a, _b, ...)`.
pub open spec fn arglist_text(args: Seq<usize>) -> Seq<char> {
    "("@ + concat(Seq::new(args.len(), |i: int| separator(i) + place_text(args[i] as nat))) + ")"@
}

/// What `{:?}` writes for a string with these characters: the string in
/// double quotes, escaped as Rust's `Debug` for `str` escapes it.
pub uninterp spec fn debug_quoted(s: Seq<char>) -> Seq<char>;

/// Relies on `Debug` for `str` (through `format!("{:?}")`): its text
/// depends on the characters of the string alone.
#[verifier::external_body]
fn debug_str(s: &String) -> (r: String)
    ensures
        r@ == debug_quoted(s@),
{
    format!("{:?}", s.as_str())
}

/// `(a: _1, b: _2, ...)` for labels already written out.
pub open spec fn labelled_arglist_text(args: Seq<(Seq<char>, usize)>) -> Seq<char> {
    "("@ + concat(
        Seq::new(
            args.len(),
            |i: int| separator(i) + args[i].0 + ": "@ + place_text(args[i].1 as nat),
        ),
    ) + ")"@
}

/// The labels of `args` as `{:?}` writes them.
pub open spec fn debug_labels(args: Seq<(String, usize)>) -> Seq<(Seq<char>, usize)> {
    args.map_values(|e: (String, usize)| (debug_quoted(e.0@), e.1))
}

/// The labels of `args` as they stand.
pub open spec fn plain_labels(args: Seq<(String, usize)>) -> Seq<(Seq<char>, usize)> {
    args.map_values(|e: (String, usize)| (e.0@, e.1))
}

/// `("a": _1, "b": _2, ...)`: each label quoted as `{:?}` quotes a string.
pub open spec fn named_arglist_text(args: Seq<(String, usize)>) -> Seq<char> {
    labelled_arglist_text(debug_labels(args))
}

pub open spec fn value_text(v: Value) -> Seq<char> {
    match v {
        Value::Place(p) => place_text(p as nat),
        Value::Call { func, args } => func.0@ + arglist_text(args@),
    }
}

pub open spec fn statement_body_text(s: Statement) -> Seq<char> {
    match s {
        Statement::Assign(a) => "let "@ + place_text(a.place as nat) + " = "@ + (if a.allocate {
            "allocate "@
        } else {
            Seq::empty()
        }) + value_text(a.value),
        Statement::Nop => "nop"@,
        Statement::Deallocate(p) => "deallocate "@ + place_text(p as nat),
        Statement::Dup(r) => "dup+"@ + decimal(r.count as nat) + " "@ + place_text(r.place as nat),
        Statement::Drop(r) => "drop-"@ + decimal(r.count as nat) + " "@ + place_text(r.place as nat),
    }
}

/// One statement line of a block.
pub open spec fn statement_text(s: Statement) -> Seq<char> {
    "\t"@ + statement_body_text(s) + ";\n"@
}

/// One phi line of a block.
pub open spec fn phi_text(p: PhiNode) -> Seq<char> {
    "\tlet "@ + place_text(p.place as nat) + " = ϕ"@ + named_arglist_text(p.opts@) + ";\n"@
}

pub open spec fn terminator_text(t: Terminator) -> Seq<char>
    decreases t,
{
    match t {
        Terminator::Goto(bb) => "goto -> "@ + decimal(bb as nat),
        Terminator::Return(p) => "return "@ + place_text(p as nat),
        Terminator::IfElse { cond, iff, elsee } => "goto -> if "@ + place_text(cond as nat)
            + " { "@ + block_text(*iff) + " } else { "@ + block_text(*elsee) + " }"@,
    }
}

/// The last line of a block's body: its terminator, or `deadend`.
pub open spec fn ending_text(b: BasicBlock) -> Seq<char>
    decreases b, 0nat,
{
    match b.terminator {
        Some(t) => terminator_text(t),
        None => "deadend"@,
    }
}

pub open spec fn block_text(b: BasicBlock) -> Seq<char>
    decreases b, 1nat,
{
    "{\n"@ + concat(Seq::new(b.phi.len() as nat, |i: int| phi_text(b.phi@[i]))) + concat(
        Seq::new(b.stmnts.len() as nat, |i: int| statement_text(b.stmnts@[i])),
    ) + "\t"@ + ending_text(b) + "\n}"@
}

/// Appends `(_a, _b, ...)` for the registers in `args`.
pub fn fmt_arglist(out: &mut String, args: &Vec<usize>)
    ensures
        final(out)@ == old(out)@ + arglist_text(args@),
{
    let ghost start = out@;
    let ghost parts = Seq::new(args@.len(), |i: int| separator(i) + place_text(args@[i] as nat));
    out.append("(");
    let mut i: usize = 0;
    while i < args.len()
        invariant
            i <= args.len(),
            parts.len() == args@.len(),
            parts == Seq::new(args@.len(), |i: int| separator(i) + place_text(args@[i] as nat)),
            out@ == start + "("@ + concat(parts.subrange(0, i as int)),
        decreases args.len() - i,
    {
        push_separator(out, i);
        out.append("_");
        push_decimal(out, args[i]);
        proof {
            lemma_concat_step(parts, i as int);
        }
        assert(out@ =~= start + "("@ + concat(parts.subrange(0, i + 1)));
        i = i + 1;
    }
    out.append(")");
    proof {
        lemma_concat_all(parts);
    }
    assert(out@ =~= start + arglist_text(args@));
}

/// Appends `(a: _1, b: _2, ...)`, writing each label as it stands.
pub fn fmt_labelled_arglist(out: &mut String, args: &Vec<(String, usize)>)
    ensures
        final(out)@ == old(out)@ + labelled_arglist_text(plain_labels(args@)),
{
    let ghost start = out@;
    let ghost labels = plain_labels(args@);
    let ghost parts = Seq::new(
        labels.len(),
        |i: int| separator(i) + labels[i].0 + ": "@ + place_text(labels[i].1 as nat),
    );
    out.append("(");
    let mut i: usize = 0;
    while i < args.len()
        invariant
            i <= args.len(),
            labels == plain_labels(args@),
            parts == Seq::new(
                labels.len(),
                |i: int| separator(i) + labels[i].0 + ": "@ + place_text(labels[i].1 as nat),
            ),
            out@ == start + "("@ + concat(parts.subrange(0, i as int)),
        decreases args.len() - i,
    {
        push_separator(out, i);
        out.append(args[i].0.as_str());
        out.append(": ");
        out.append("_");
        push_decimal(out, args[i].1);
        proof {
            lemma_concat_step(parts, i as int);
        }
        assert(out@ =~= start + "("@ + concat(parts.subrange(0, i + 1)));
        i = i + 1;
    }
    out.append(")");
    proof {
        lemma_concat_all(parts);
    }
    assert(out@ =~= start + labelled_arglist_text(labels));
}

/// Appends `("a": _1, "b": _2, ...)` for the labelled registers in `args`.
pub fn fmt_named_arglist(out: &mut String, args: &Vec<(String, usize)>)
    ensures
        final(out)@ == old(out)@ + named_arglist_text(args@),
{
    let mut quoted: Vec<(String, usize)> = Vec::new();
    let mut i: usize = 0;
    while i < args.len()
        invariant
            i <= args.len(),
            quoted.len() == i,
            forall|j: int|
                0 <= j < i ==> #[trigger] quoted@[j].0@ == debug_quoted(args@[j].0@)
                    && quoted@[j].1 == args@[j].1,
        decreases args.len() - i,
    {
        let label = debug_str(&args[i].0);
        quoted.push((label, args[i].1));
        i = i + 1;
    }
    assert(plain_labels(quoted@) =~= debug_labels(args@));
    fmt_labelled_arglist(out, &quoted);
}

/// The registers `1..=n`, the arguments of a function with `n` of them.
pub open spec fn arg_places(n: nat) -> Seq<usize> {
    Seq::new(n, |i: int| (i + 1) as usize)
}

/// One entry of the register-type line: `_i: T, `.
pub open spec fn place_ty_text(c: Cfg, i: int) -> Seq<char> {
    place_text(i as nat) + ": "@ + type_text(c.place_tys@[i]@) + ", "@
}

/// One block of the graph, after a line break unless it is the first.
pub open spec fn numbered_block_text(c: Cfg, i: int) -> Seq<char> {
    (if i == 0 {
        Seq::empty()
    } else {
        "\n"@
    }) + decimal(i as nat) + ": "@ + block_text(c.basic_blocks@[i])
}

/// The canonical text of a whole graph.
pub open spec fn cfg_text(c: Cfg) -> Seq<char> {
    "Cfg"@ + arglist_text(arg_places(c.arg_count as nat)) + ":\n"@ + concat(
        Seq::new(c.place_tys.len() as nat, |i: int| place_ty_text(c, i)),
    ) + "\n"@ + concat(Seq::new(c.basic_blocks.len() as nat, |i: int| numbered_block_text(c, i)))
}

impl Value {
    /// Appends the value's canonical text.
    pub fn push_text(&self, out: &mut String)
        ensures
            final(out)@ == old(out)@ + value_text(*self),
    {
        match self {
            Value::Place(p) => {
                out.append("_");
                push_decimal(out, *p);
            },
            Value::Call { func, args } => {
                out.append(func.0.as_str());
                fmt_arglist(out, args);
            },
        }
        assert(out@ =~= old(out)@ + value_text(*self));
    }

    /// The value's canonical text.
    pub fn render(&self) -> (r: String)
        ensures
            r@ == value_text(*self),
    {
        let mut r = String::new();
        self.push_text(&mut r);
        assert(r@ =~= value_text(*self));
        r
    }
}

impl Statement {
    /// Appends the statement's line.
    pub fn push_text(&self, out: &mut String)
        ensures
            final(out)@ == old(out)@ + statement_text(*self),
    {
        let ghost start = out@;
        out.append("\t");
        match self {
            Statement::Assign(a) => {
                out.append("let ");
                out.append("_");
                push_decimal(out, a.place);
                out.append(" = ");
                if a.allocate {
                    out.append("allocate ");
                }
                a.value.push_text(out);
            },
            Statement::Nop => out.append("nop"),
            Statement::Deallocate(p) => {
                out.append("deallocate ");
                out.append("_");
                push_decimal(out, *p);
            },
            Statement::Dup(r) => {
                out.append("dup+");
                push_decimal(out, r.count);
                out.append(" ");
                out.append("_");
                push_decimal(out, r.place);
            },
            Statement::Drop(r) => {
                out.append("drop-");
                push_decimal(out, r.count);
                out.append(" ");
                out.append("_");
                push_decimal(out, r.place);
            },
        }
        assert(out@ =~= start + "\t"@ + statement_body_text(*self));
        out.append(";\n");
        assert(out@ =~= start + statement_text(*self));
    }

    /// The statement's line.
    pub fn render(&self) -> (r: String)
        ensures
            r@ == statement_text(*self),
    {
        let mut r = String::new();
        self.push_text(&mut r);
        assert(r@ =~= statement_text(*self));
        r
    }
}

impl PhiNode {
    /// Appends the phi node's line.
    pub fn push_text(&self, out: &mut String)
        ensures
            final(out)@ == old(out)@ + phi_text(*self),
    {
        let ghost start = out@;
        out.append("\tlet ");
        out.append("_");
        push_decimal(out, self.place);
        out.append(" = ϕ");
        fmt_named_arglist(out, &self.opts);
        out.append(";\n");
        assert(out@ =~= start + phi_text(*self));
    }

    /// The phi node's line.
    pub fn render(&self) -> (r: String)
        ensures
            r@ == phi_text(*self),
    {
        let mut r = String::new();
        self.push_text(&mut r);
        assert(r@ =~= phi_text(*self));
        r
    }
}

impl Terminator {
    /// Appends the terminator's canonical text.
    pub fn push_text(&self, out: &mut String)
        ensures
            final(out)@ == old(out)@ + terminator_text(*self),
        decreases self,
    {
        let ghost start = out@;
        match self {
            Terminator::Goto(bb) => {
                out.append("goto -> ");
                push_decimal(out, *bb);
            },
            Terminator::Return(p) => {
                out.append("return ");
                out.append("_");
                push_decimal(out, *p);
            },
            Terminator::IfElse { cond, iff, elsee } => {
                out.append("goto -> if ");
                out.append("_");
                push_decimal(out, *cond);
                out.append(" { ");
                iff.push_text(out);
                out.append(" } else { ");
                elsee.push_text(out);
                out.append(" }");
            },
        }
        assert(out@ =~= start + terminator_text(*self));
    }

    /// The terminator's canonical text.
    pub fn render(&self) -> (r: String)
        ensures
            r@ == terminator_text(*self),
    {
        let mut r = String::new();
        self.push_text(&mut r);
        assert(r@ =~= terminator_text(*self));
        r
    }
}

impl BasicBlock {
    /// Appends the phi lines.
    fn push_phis(&self, out: &mut String)
        ensures
            final(out)@ == old(out)@ + concat(
                Seq::new(self.phi.len() as nat, |i: int| phi_text(self.phi@[i])),
            ),
    {
        let ghost phis = Seq::new(self.phi.len() as nat, |i: int| phi_text(self.phi@[i]));
        let ghost start = out@;
        let mut i: usize = 0;
        while i < self.phi.len()
            invariant
                i <= self.phi.len(),
                phis == Seq::new(self.phi.len() as nat, |i: int| phi_text(self.phi@[i])),
                out@ == start + concat(phis.subrange(0, i as int)),
            decreases self.phi.len() - i,
        {
            self.phi[i].push_text(out);
            proof {
                lemma_concat_step(phis, i as int);
            }
            assert(out@ =~= start + concat(phis.subrange(0, i + 1)));
            i = i + 1;
        }
        proof {
            lemma_concat_all(phis);
        }
    }

    /// Appends the statement lines.
    fn push_stmnts(&self, out: &mut String)
        ensures
            final(out)@ == old(out)@ + concat(
                Seq::new(self.stmnts.len() as nat, |i: int| statement_text(self.stmnts@[i])),
            ),
    {
        let ghost stmnts = Seq::new(
            self.stmnts.len() as nat,
            |i: int| statement_text(self.stmnts@[i]),
        );
        let ghost mid = out@;
        let mut j: usize = 0;
        while j < self.stmnts.len()
            invariant
                j <= self.stmnts.len(),
                stmnts == Seq::new(
                    self.stmnts.len() as nat,
                    |i: int| statement_text(self.stmnts@[i]),
                ),
                out@ == mid + concat(stmnts.subrange(0, j as int)),
            decreases self.stmnts.len() - j,
        {
            self.stmnts[j].push_text(out);
            proof {
                lemma_concat_step(stmnts, j as int);
            }
            assert(out@ =~= mid + concat(stmnts.subrange(0, j + 1)));
            j = j + 1;
        }
        proof {
            lemma_concat_all(stmnts);
        }
    }

    /// Appends the block's canonical text.
    pub fn push_text(&self, out: &mut String)
        ensures
            final(out)@ == old(out)@ + block_text(*self),
        decreases self,
    {
        let ghost start = out@;
        out.append("{\n");
        self.push_phis(out);
        self.push_stmnts(out);
        out.append("\t");
        match &self.terminator {
            Some(t) => t.push_text(out),
            None => out.append("deadend"),
        }
        out.append("\n}");
        assert(out@ =~= start + block_text(*self));
    }

    /// The block's canonical text.
    pub fn render(&self) -> (r: String)
        ensures
            r@ == block_text(*self),
    {
        let mut r = String::new();
        self.push_text(&mut r);
        assert(r@ =~= block_text(*self));
        r
    }
}

impl Cfg {
    /// Appends `_i: T, ` for every register.
    fn push_place_tys(&self, out: &mut String)
        ensures
            final(out)@ == old(out)@ + concat(
                Seq::new(self.place_tys.len() as nat, |i: int| place_ty_text(*self, i)),
            ),
    {
        let ghost tys = Seq::new(self.place_tys.len() as nat, |i: int| place_ty_text(*self, i));
        let ghost head = out@;
        let mut i: usize = 0;
        while i < self.place_tys.len()
            invariant
                i <= self.place_tys.len(),
                tys == Seq::new(self.place_tys.len() as nat, |i: int| place_ty_text(*self, i)),
                out@ == head + concat(tys.subrange(0, i as int)),
            decreases self.place_tys.len() - i,
        {
            out.append("_");
            push_decimal(out, i);
            out.append(": ");
            self.place_tys[i].push_text(out);
            out.append(", ");
            proof {
                lemma_concat_step(tys, i as int);
            }
            assert(out@ =~= head + concat(tys.subrange(0, i + 1)));
            i = i + 1;
        }
        proof {
            lemma_concat_all(tys);
        }
    }

    /// Appends the numbered blocks.
    fn push_blocks(&self, out: &mut String)
        ensures
            final(out)@ == old(out)@ + concat(
                Seq::new(self.basic_blocks.len() as nat, |i: int| numbered_block_text(*self, i)),
            ),
    {
        let ghost blocks = Seq::new(
            self.basic_blocks.len() as nat,
            |i: int| numbered_block_text(*self, i),
        );
        let ghost body = out@;
        let mut b: usize = 0;
        while b < self.basic_blocks.len()
            invariant
                b <= self.basic_blocks.len(),
                blocks == Seq::new(
                    self.basic_blocks.len() as nat,
                    |i: int| numbered_block_text(*self, i),
                ),
                out@ == body + concat(blocks.subrange(0, b as int)),
            decreases self.basic_blocks.len() - b,
        {
            if b != 0 {
                out.append("\n");
            }
            push_decimal(out, b);
            out.append(": ");
            self.basic_blocks[b].push_text(out);
            proof {
                lemma_concat_step(blocks, b as int);
            }
            assert(out@ =~= body + concat(blocks.subrange(0, b + 1)));
            b = b + 1;
        }
        proof {
            lemma_concat_all(blocks);
        }
    }

    /// Appends the graph's canonical text.
    pub fn push_text(&self, out: &mut String)
        ensures
            final(out)@ == old(out)@ + cfg_text(*self),
    {
        let ghost start = out@;
        out.append("Cfg");
        let mut args: Vec<usize> = Vec::new();
        let mut k: usize = 0;
        while k < self.arg_count
            invariant
                k <= self.arg_count,
                args@ =~= arg_places(k as nat),
            decreases self.arg_count - k,
        {
            args.push(k + 1);
            k = k + 1;
        }
        fmt_arglist(out, &args);
        out.append(":\n");
        self.push_place_tys(out);
        out.append("\n");
        self.push_blocks(out);
        assert(out@ =~= start + cfg_text(*self));
    }

    /// The graph's canonical text.
    pub fn render(&self) -> (r: String)
        ensures
            r@ == cfg_text(*self),
    {
        let mut r = String::new();
        self.push_text(&mut r);
        assert(r@ =~= cfg_text(*self));
        r
    }
}

/// Rendering depends on the graph's value alone: equal graphs render to the
/// same text, every time.
pub proof fn lemma_render_deterministic(a: Cfg, b: Cfg)
    requires
        a == b,
    ensures
        cfg_text(a) == cfg_text(b),
{
}

} // verus!
