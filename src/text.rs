//! Building blocks for rendering: decimal numbers, separated lists and the
//! concatenation of text pieces.
use vstd::prelude::*;

verus! {

/// The concatenation of all pieces, in order.
pub open spec fn concat(parts: Seq<Seq<char>>) -> Seq<char>
    decreases parts.len(),
{
    if parts.len() == 0 {
        Seq::empty()
    } else {
        concat(parts.drop_last()) + parts.last()
    }
}

/// Concatenating one more piece appends it.
pub proof fn lemma_concat_step(parts: Seq<Seq<char>>, i: int)
    requires
        0 <= i < parts.len(),
    ensures
        concat(parts.subrange(0, i + 1)) == concat(parts.subrange(0, i)) + parts[i],
{
    assert(parts.subrange(0, i + 1).drop_last() =~= parts.subrange(0, i));
}

/// The prefix of all pieces is the whole sequence.
pub proof fn lemma_concat_all(parts: Seq<Seq<char>>)
    ensures
        parts.subrange(0, parts.len() as int) == parts,
{
    assert(parts.subrange(0, parts.len() as int) =~= parts);
}

/// The decimal digit for `d < 10`.
pub open spec fn digit_char(d: nat) -> char {
    "0123456789"@[d as int]
}

/// The decimal notation of `n`, without leading zeros.
pub open spec fn decimal(n: nat) -> Seq<char>
    decreases n,
{
    if n < 10 {
        seq![digit_char(n)]
    } else {
        decimal(n / 10).push(digit_char(n % 10))
    }
}

/// The name of a register: `_` followed by its number.
pub open spec fn place_text(p: nat) -> Seq<char> {
    "_"@ + decimal(p)
}

/// The separator written before the item at position `i` of a list.
pub open spec fn separator(i: int) -> Seq<char> {
    if i == 0 {
        Seq::empty()
    } else {
        ", "@
    }
}

/// Appends the decimal notation of `n`.
pub fn push_decimal(out: &mut String, n: usize)
    ensures
        final(out)@ == old(out)@ + decimal(n as nat),
    decreases n,
{
    if n >= 10 {
        push_decimal(out, n / 10);
    }
    let d: usize = n % 10;
    proof {
        reveal_strlit("0123456789");
    }
    let digit = "0123456789".substring_char(d, d + 1);
    assert(digit@ =~= seq![digit_char(d as nat)]);
    out.append(digit);
    assert(out@ =~= old(out)@ + decimal(n as nat));
}

/// Appends the separator for the list item at position `i`.
pub fn push_separator(out: &mut String, i: usize)
    ensures
        final(out)@ == old(out)@ + separator(i as int),
{
    if i != 0 {
        out.append(", ");
    } else {
        assert(out@ =~= old(out)@ + separator(i as int));
    }
}

} // verus!
