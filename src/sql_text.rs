//! Building blocks for rendering SQL text: separator-joined lists,
//! concatenations and decimal placeholders (`$1`, `$2`, ...).
use vstd::prelude::*;

verus! {

/// `parts` joined with `sep` between consecutive elements.
pub open spec fn join_sep(parts: Seq<Seq<char>>, sep: Seq<char>) -> Seq<char>
    decreases parts.len(),
{
    if parts.len() == 0 {
        Seq::empty()
    } else if parts.len() == 1 {
        parts[0]
    } else {
        join_sep(parts.drop_last(), sep) + sep + parts.last()
    }
}

/// `parts` written one after the other.
pub open spec fn concat<A>(parts: Seq<Seq<A>>) -> Seq<A>
    decreases parts.len(),
{
    if parts.len() == 0 {
        Seq::empty()
    } else {
        concat(parts.drop_last()) + parts.last()
    }
}

/// The text of a single decimal digit.
pub open spec fn digit_text(d: nat) -> Seq<char> {
    if d == 0 {
        "0"@
    } else if d == 1 {
        "1"@
    } else if d == 2 {
        "2"@
    } else if d == 3 {
        "3"@
    } else if d == 4 {
        "4"@
    } else if d == 5 {
        "5"@
    } else if d == 6 {
        "6"@
    } else if d == 7 {
        "7"@
    } else if d == 8 {
        "8"@
    } else {
        "9"@
    }
}

/// The decimal notation of `n`, without leading zeros.
pub open spec fn decimal(n: nat) -> Seq<char>
    decreases n,
{
    if n < 10 {
        digit_text(n)
    } else {
        decimal(n / 10) + digit_text(n % 10)
    }
}

/// The positional placeholder `$n`.
pub open spec fn placeholder(n: nat) -> Seq<char> {
    "$"@ + decimal(n)
}

/// Joining one more element appends the separator and the element.
pub proof fn lemma_join_sep_take(parts: Seq<Seq<char>>, sep: Seq<char>, i: int)
    requires
        0 <= i < parts.len(),
    ensures
        i == 0 ==> join_sep(parts.take(i + 1), sep) == parts[0],
        i > 0 ==> join_sep(parts.take(i + 1), sep) == join_sep(parts.take(i), sep) + sep
            + parts[i],
{
    assert(parts.take(i + 1).drop_last() =~= parts.take(i));
}

/// Concatenating one more element appends it.
pub proof fn lemma_concat_take<A>(parts: Seq<Seq<A>>, i: int)
    requires
        0 <= i < parts.len(),
    ensures
        concat(parts.take(i + 1)) == concat(parts.take(i)) + parts[i],
{
    assert(parts.take(i + 1).drop_last() =~= parts.take(i));
}

/// Concatenating `k` parts of `f` elements each gives `k * f` elements,
/// element `j` of part `i` at `i * f + j`.
pub proof fn lemma_concat_uniform<A>(parts: Seq<Seq<A>>, f: int)
    requires
        f >= 0,
        forall|i: int| 0 <= i < parts.len() ==> (#[trigger] parts[i]).len() == f,
    ensures
        concat(parts).len() == parts.len() * f,
        forall|i: int, j: int|
            0 <= i < parts.len() && 0 <= j < f ==> concat(parts)[i * f + j] == #[trigger] parts[i][j],
    decreases parts.len(),
{
    if parts.len() > 0 {
        let rest = parts.drop_last();
        let k = parts.len() - 1;
        lemma_concat_uniform(rest, f);
        assert(concat(parts) == concat(rest) + parts.last());
        assert(rest.len() * f + f == parts.len() * f) by (nonlinear_arith)
            requires
                rest.len() == parts.len() - 1,
        ;
        assert forall|i: int, j: int| 0 <= i < parts.len() && 0 <= j < f implies concat(parts)[i
            * f + j] == #[trigger] parts[i][j] by {
            if i < k {
                assert(i * f + j < k * f) by (nonlinear_arith)
                    requires
                        i < k,
                        0 <= j < f,
                ;
                assert(rest[i] == parts[i]);
            } else {
                assert(i * f + j - k * f == j) by (nonlinear_arith)
                    requires
                        i == k,
                ;
                assert(k * f == rest.len() * f);
            }
        }
    }
}

/// Appends the text of the digit `d`.
pub(crate) fn push_digit(out: &mut String, d: u64)
    requires
        d < 10,
    ensures
        final(out)@ == old(out)@ + digit_text(d as nat),
{
    if d == 0 {
        out.append("0");
    } else if d == 1 {
        out.append("1");
    } else if d == 2 {
        out.append("2");
    } else if d == 3 {
        out.append("3");
    } else if d == 4 {
        out.append("4");
    } else if d == 5 {
        out.append("5");
    } else if d == 6 {
        out.append("6");
    } else if d == 7 {
        out.append("7");
    } else if d == 8 {
        out.append("8");
    } else {
        out.append("9");
    }
}

/// Appends the decimal notation of `n`.
pub(crate) fn push_decimal(out: &mut String, n: u64)
    ensures
        final(out)@ == old(out)@ + decimal(n as nat),
    decreases n,
{
    if n < 10 {
        push_digit(out, n);
    } else {
        let ghost start = out@;
        push_decimal(out, n / 10);
        push_digit(out, n % 10);
        assert(out@ =~= start + decimal(n as nat));
    }
}

/// Appends the positional placeholder `$n`.
pub(crate) fn push_placeholder(out: &mut String, n: usize)
    ensures
        final(out)@ == old(out)@ + placeholder(n as nat),
{
    let ghost start = out@;
    out.append("$");
    push_decimal(out, n as u64);
    assert(out@ =~= start + placeholder(n as nat));
}

} // verus!
