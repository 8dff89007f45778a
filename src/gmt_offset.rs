//! A time-zone offset in seconds, written `[-]hh:mm:ss`.
use vstd::prelude::*;

use crate::sql_text::{decimal, digit_text, push_decimal};
use crate::text::{split, split_on};

verus! {

/// Why an offset text was refused.
#[derive(Clone, Copy, Debug, PartialEq, Eq, Structural)]
pub enum OffsetError {
    /// Not three `:`-separated parts.
    Format,
    Hours,
    Minutes,
    Seconds,
    /// The offset does not fit in an `i64`.
    OutOfRange,
}

impl OffsetError {
    /// A description of the error.
    pub fn message(&self) -> &'static str {
        match self {
            OffsetError::Format => "Invalid time format, expected -hh:mm:ss",
            OffsetError::Hours => "Invalid hours",
            OffsetError::Minutes => "Invalid minutes",
            OffsetError::Seconds => "Invalid seconds",
            OffsetError::OutOfRange => "Offset out of range",
        }
    }
}

pub open spec fn abs(x: int) -> nat {
    if x < 0 {
        (-x) as nat
    } else {
        x as nat
    }
}

/// `n` in decimal, at least two digits wide.
pub open spec fn pad2(n: nat) -> Seq<char> {
    if n < 10 {
        "0"@ + decimal(n)
    } else {
        decimal(n)
    }
}

/// `[-]hh:mm:ss` for an offset of `seconds`.
pub open spec fn offset_text(seconds: int) -> Seq<char> {
    let a = abs(seconds);
    (if seconds < 0 {
        "-"@
    } else {
        Seq::empty()
    }) + pad2(a / 3600) + ":"@ + pad2((a % 3600) / 60) + ":"@ + pad2(a % 60)
}

fn push_pad2(out: &mut String, n: u64)
    ensures
        final(out)@ == old(out)@ + pad2(n as nat),
{
    let ghost start = out@;
    if n < 10 {
        out.append("0");
    }
    push_decimal(out, n);
    assert(out@ =~= start + pad2(n as nat));
}

/// The offset written `[-]hh:mm:ss`, each part at least two digits wide.
pub fn serialize(seconds: &i64) -> (r: String)
    ensures
        r@ == offset_text(*seconds as int),
{
    let s = *seconds;
    let a: u64 = if s < 0 {
        ((-(s + 1)) as u64) + 1
    } else {
        s as u64
    };
    assert(a as int == abs(s as int));
    let mut out = String::new();
    if s < 0 {
        out.append("-");
    }
    push_pad2(&mut out, a / 3600);
    out.append(":");
    push_pad2(&mut out, (a % 3600) / 60);
    out.append(":");
    push_pad2(&mut out, a % 60);
    assert(out@ =~= offset_text(s as int));
    out
}

// ---------------------------------------------------------------------------
// Reading an offset.
pub open spec fn is_digit(c: char) -> bool {
    '0' <= c <= '9'
}

/// The value of a string of decimal digits.
pub open spec fn digits_value(d: Seq<char>) -> nat
    decreases d.len(),
{
    if d.len() == 0 {
        0
    } else {
        digits_value(d.drop_last()) * 10 + (d.last() as nat - '0' as nat) as nat
    }
}

/// `s` without its sign, if it has one.
pub open spec fn unsigned_part(s: Seq<char>) -> Seq<char> {
    if s.len() > 0 && (s[0] == '-' || s[0] == '+') {
        s.drop_first()
    } else {
        s
    }
}

pub open spec fn all_digits(d: Seq<char>) -> bool {
    forall|i: int| 0 <= i < d.len() ==> is_digit(#[trigger] d[i])
}

/// An integer as `i64`'s `FromStr` reads it: an optional `+` or `-`, then
/// at least one decimal digit, the value within `i64`.
pub open spec fn parse_int(s: Seq<char>) -> Option<int> {
    let d = unsigned_part(s);
    if d.len() == 0 || !all_digits(d) {
        None
    } else {
        let v: int = if s[0] == '-' {
            -digits_value(d)
        } else {
            digits_value(d) as int
        };
        if i64::MIN <= v <= i64::MAX {
            Some(v)
        } else {
            None
        }
    }
}

/// `s` without its leading `-` characters.
pub open spec fn trim_dashes(s: Seq<char>) -> Seq<char>
    decreases s.len(),
{
    if s.len() > 0 && s[0] == '-' {
        trim_dashes(s.drop_first())
    } else {
        s
    }
}

/// What reading `s` as an offset gives: a leading `-` negates, further
/// leading `-` are dropped, and the rest is `hours:minutes:seconds`.
pub open spec fn parse_offset(s: Seq<char>) -> Result<int, OffsetError> {
    let sign: int = if s.len() > 0 && s[0] == '-' {
        -1
    } else {
        1
    };
    let parts = split_on(trim_dashes(s), ':');
    if parts.len() != 3 {
        Err(OffsetError::Format)
    } else if parse_int(parts[0]) is None {
        Err(OffsetError::Hours)
    } else if parse_int(parts[1]) is None {
        Err(OffsetError::Minutes)
    } else if parse_int(parts[2]) is None {
        Err(OffsetError::Seconds)
    } else {
        let total = sign * (parse_int(parts[0]).unwrap() * 3600 + parse_int(parts[1]).unwrap() * 60
            + parse_int(parts[2]).unwrap());
        if i64::MIN <= total <= i64::MAX {
            Ok(total)
        } else {
            Err(OffsetError::OutOfRange)
        }
    }
}

/// A prefix of a digit string is worth no more than the whole string.
proof fn lemma_digits_prefix(d: Seq<char>, k: int)
    requires
        0 <= k <= d.len(),
    ensures
        digits_value(d.take(k)) <= digits_value(d),
    decreases d.len() - k,
{
    if k < d.len() {
        lemma_digits_prefix(d, k + 1);
        assert(d.take(k + 1).drop_last() =~= d.take(k));
    } else {
        assert(d.take(k) =~= d);
    }
}

const MAGNITUDE_LIMIT: u64 = 9223372036854775808;

/// Reads an integer as `i64`'s `FromStr` does.
pub fn parse_i64(s: &str) -> (r: Option<i64>)
    ensures
        r matches Some(v) ==> parse_int(s@) == Some(v as int),
        r is None ==> parse_int(s@) is None,
{
    let n = s.unicode_len();
    let mut i: usize = 0;
    let mut neg = false;
    if n > 0 {
        let c = s.get_char(0);
        if c == '-' || c == '+' {
            neg = c == '-';
            i = 1;
        }
    }
    if i == n {
        return None;
    }
    let ghost d = s@.subrange(i as int, n as int);
    assert(d =~= unsigned_part(s@));
    assert(neg == (s@[0] == '-'));
    let start = i;
    let mut acc: u64 = 0;
    while i < n
        invariant
            n == s@.len(),
            start <= i <= n,
            d == s@.subrange(start as int, n as int),
            d == unsigned_part(s@),
            s@.len() > 0,
            neg == (s@[0] == '-'),
            acc as nat == digits_value(d.take(i - start)),
            acc <= MAGNITUDE_LIMIT,
            forall|k: int| 0 <= k < i - start ==> is_digit(#[trigger] d[k]),
        decreases n - i,
    {
        let c = s.get_char(i);
        assert(d[i - start] == c);
        if !('0' <= c && c <= '9') {
            assert(!is_digit(d[i - start]));
            return None;
        }
        let digit = (c as u32 - '0' as u32) as u64;
        assert(d.take(i - start + 1).drop_last() =~= d.take(i - start));
        assert(d.take(i - start + 1).last() == c);
        assert(digits_value(d.take(i - start + 1)) == acc * 10 + digit);
        if acc > (MAGNITUDE_LIMIT - digit) / 10 {
            proof {
                lemma_digits_prefix(d, i - start + 1);
                assert(acc * 10 + digit > MAGNITUDE_LIMIT) by (nonlinear_arith)
                    requires
                        acc > (MAGNITUDE_LIMIT - digit) / 10,
                        digit <= 9,
                ;
            }
            return None;
        }
        assert(acc * 10 + digit <= MAGNITUDE_LIMIT) by (nonlinear_arith)
            requires
                acc <= (MAGNITUDE_LIMIT - digit) / 10,
                digit <= 9,
        ;
        acc = acc * 10 + digit;
        i = i + 1;
    }
    assert(d.take(n - start) =~= d);
    if neg {
        if acc == MAGNITUDE_LIMIT {
            Some(i64::MIN)
        } else {
            Some(-(acc as i64))
        }
    } else if acc == MAGNITUDE_LIMIT {
        None
    } else {
        Some(acc as i64)
    }
}

/// `s` without its leading `-` characters, as a slice of it.
fn trim_leading_dashes(s: &str) -> (r: &str)
    ensures
        r@ == trim_dashes(s@),
{
    let n = s.unicode_len();
    let mut i: usize = 0;
    assert(s@.subrange(0, n as int) =~= s@);
    while i < n && s.get_char(i) == '-'
        invariant
            n == s@.len(),
            i <= n,
            trim_dashes(s@) == trim_dashes(s@.subrange(i as int, n as int)),
        decreases n - i,
    {
        assert(s@.subrange(i as int, n as int).drop_first() =~= s@.subrange(i + 1, n as int));
        i = i + 1;
    }
    s.substring_char(i, n)
}

/// Reads an offset written `[-]hh:mm:ss` into seconds.
pub fn deserialize(s: &str) -> (r: Result<i64, OffsetError>)
    ensures
        r matches Ok(v) ==> parse_offset(s@) == Ok::<int, OffsetError>(v as int),
        r matches Err(e) ==> parse_offset(s@) == Err::<int, OffsetError>(e),
{
    let neg = s.unicode_len() > 0 && s.get_char(0) == '-';
    let body = trim_leading_dashes(s);
    let parts = split(body, ':');
    assert(parts@.map_values(|p: &str| p@) == split_on(trim_dashes(s@), ':'));
    if parts.len() != 3 {
        return Err(OffsetError::Format);
    }
    assert(parts@[0]@ == split_on(trim_dashes(s@), ':')[0]);
    assert(parts@[1]@ == split_on(trim_dashes(s@), ':')[1]);
    assert(parts@[2]@ == split_on(trim_dashes(s@), ':')[2]);
    let hours = match parse_i64(parts[0]) {
        Some(v) => v,
        None => return Err(OffsetError::Hours),
    };
    let minutes = match parse_i64(parts[1]) {
        Some(v) => v,
        None => return Err(OffsetError::Minutes),
    };
    let seconds = match parse_i64(parts[2]) {
        Some(v) => v,
        None => return Err(OffsetError::Seconds),
    };
    let ghost sign: int = if s@.len() > 0 && s@[0] == '-' {
        -1
    } else {
        1
    };
    assert(neg == (sign == -1));
    let magnitude: i128 = (hours as i128) * 3600 + (minutes as i128) * 60 + (seconds as i128);
    let total: i128 = if neg {
        -magnitude
    } else {
        magnitude
    };
    assert(total == sign * (hours * 3600 + minutes * 60 + seconds));
    if total < i64::MIN as i128 || total > i64::MAX as i128 {
        return Err(OffsetError::OutOfRange);
    }
    Ok(total as i64)
}

// ---------------------------------------------------------------------------
// Reading back what was written.
proof fn lemma_digit_text(d: nat)
    requires
        d < 10,
    ensures
        digit_text(d).len() == 1,
        is_digit(digit_text(d)[0]),
        digit_text(d)[0] as nat - '0' as nat == d,
{
    reveal_strlit("0");
    reveal_strlit("1");
    reveal_strlit("2");
    reveal_strlit("3");
    reveal_strlit("4");
    reveal_strlit("5");
    reveal_strlit("6");
    reveal_strlit("7");
    reveal_strlit("8");
    reveal_strlit("9");
}

/// Appending a digit multiplies the value by ten and adds the digit.
proof fn lemma_digits_push(p: Seq<char>, c: char)
    ensures
        digits_value(p.push(c)) == digits_value(p) * 10 + (c as nat - '0' as nat) as nat,
{
    assert(p.push(c).drop_last() =~= p);
}

/// The decimal notation of `n` is a non-empty string of digits worth `n`.
proof fn lemma_decimal(n: nat)
    ensures
        decimal(n).len() > 0,
        all_digits(decimal(n)),
        digits_value(decimal(n)) == n,
    decreases n,
{
    if n < 10 {
        lemma_digit_text(n);
        let c = digit_text(n)[0];
        assert(decimal(n) =~= Seq::<char>::empty().push(c));
        lemma_digits_push(Seq::<char>::empty(), c);
        assert(digits_value(Seq::<char>::empty()) == 0);
    } else {
        lemma_decimal(n / 10);
        lemma_digit_text(n % 10);
        let c = digit_text(n % 10)[0];
        let front = decimal(n / 10);
        assert(decimal(n) =~= front.push(c));
        lemma_digits_push(front, c);
        assert(n == (n / 10) * 10 + n % 10);
        assert forall|i: int| 0 <= i < decimal(n).len() implies is_digit(#[trigger] decimal(n)[i]) by {
            if i < front.len() {
                assert(decimal(n)[i] == front[i]);
            }
        }
    }
}

/// `pad2(n)` is a non-empty string of digits worth `n`.
proof fn lemma_pad2(n: nat)
    ensures
        pad2(n).len() > 0,
        all_digits(pad2(n)),
        digits_value(pad2(n)) == n,
{
    lemma_decimal(n);
    if n < 10 {
        reveal_strlit("0");
        lemma_digit_text(n);
        let c = digit_text(n)[0];
        let zero = Seq::<char>::empty().push('0');
        assert(pad2(n) =~= zero.push(c));
        lemma_digits_push(Seq::<char>::empty(), '0');
        assert(digits_value(Seq::<char>::empty()) == 0);
        lemma_digits_push(zero, c);
        assert forall|i: int| 0 <= i < pad2(n).len() implies is_digit(#[trigger] pad2(n)[i]) by {}
    }
}

/// A non-empty string of digits reads as its value, within `i64`.
proof fn lemma_parse_digits(p: Seq<char>)
    requires
        p.len() > 0,
        all_digits(p),
        digits_value(p) <= i64::MAX,
    ensures
        parse_int(p) == Some(digits_value(p) as int),
{
    assert(is_digit(p[0]));
}

/// Appending text without `sep` extends the last piece.
proof fn lemma_split_extend(x: Seq<char>, y: Seq<char>, sep: char)
    requires
        forall|i: int| 0 <= i < y.len() ==> y[i] != sep,
    ensures
        split_on(x + y, sep) == split_on(x, sep).update(
            split_on(x, sep).len() - 1,
            split_on(x, sep).last() + y,
        ),
    decreases y.len(),
{
    crate::text::lemma_split_on_nonempty(x, sep);
    let q = split_on(x, sep);
    if y.len() == 0 {
        assert(x + y =~= x);
        assert(q.update(q.len() - 1, q.last() + y) =~= q);
    } else {
        let z = y.drop_last();
        lemma_split_extend(x, z, sep);
        let p = split_on(x + z, sep);
        assert(y[y.len() - 1] != sep);
        assert((x + y).drop_last() =~= x + z);
        assert((x + y).last() == y.last());
        assert(split_on(x + y, sep) == p.update(p.len() - 1, p.last().push(y.last())));
        assert(p.last() == q.last() + z);
        assert((q.last() + z).push(y.last()) =~= q.last() + y);
        assert(p.update(p.len() - 1, p.last().push(y.last())) =~= q.update(
            q.len() - 1,
            q.last() + y,
        ));
    }
}

/// Three pieces without `sep`, joined by `sep`, split back into themselves.
proof fn lemma_split_three(a: Seq<char>, b: Seq<char>, c: Seq<char>, sep: char)
    requires
        forall|i: int| 0 <= i < a.len() ==> a[i] != sep,
        forall|i: int| 0 <= i < b.len() ==> b[i] != sep,
        forall|i: int| 0 <= i < c.len() ==> c[i] != sep,
    ensures
        split_on(a + seq![sep] + b + seq![sep] + c, sep) == seq![a, b, c],
{
    let e = Seq::<char>::empty();
    lemma_split_extend(e, a, sep);
    assert(e + a =~= a);
    assert(split_on(e, sep) == seq![e]);
    assert(split_on(a, sep) =~= seq![a]);
    let a1 = a + seq![sep];
    assert(a1.drop_last() =~= a);
    assert(split_on(a1, sep) =~= seq![a, e]);
    lemma_split_extend(a1, b, sep);
    assert(split_on(a1 + b, sep) =~= seq![a, b]);
    let b1 = a1 + b + seq![sep];
    assert(b1.drop_last() =~= a1 + b);
    assert(split_on(b1, sep) =~= seq![a, b, e]);
    lemma_split_extend(b1, c, sep);
    assert(split_on(b1 + c, sep) =~= seq![a, b, c]);
}

/// The parts of a written offset: its sign, and three digit strings.
proof fn lemma_offset_parts(x: int)
    requires
        i64::MIN <= x <= i64::MAX,
    ensures
        ({
            let a = abs(x);
            let t = offset_text(x);
            &&& (t.len() > 0 && t[0] == '-') == (x < 0)
            &&& split_on(trim_dashes(t), ':') == seq![pad2(a / 3600), pad2((a % 3600) / 60), pad2(a % 60)]
        }),
{
    let a = abs(x);
    let (ph, pm, ps) = (pad2(a / 3600), pad2((a % 3600) / 60), pad2(a % 60));
    lemma_pad2(a / 3600);
    lemma_pad2((a % 3600) / 60);
    lemma_pad2(a % 60);
    reveal_strlit(":");
    reveal_strlit("-");
    let body = ph + ":"@ + pm + ":"@ + ps;
    assert(body =~= ph + seq![':'] + pm + seq![':'] + ps);
    assert(body[0] == ph[0]);
    assert(is_digit(ph[0]));
    assert(trim_dashes(body) == body);
    let t = offset_text(x);
    if x < 0 {
        assert(t =~= seq!['-'] + body);
        assert(t.drop_first() =~= body);
    } else {
        assert(t =~= body);
    }
    assert forall|i: int| 0 <= i < ph.len() implies ph[i] != ':' by {
        assert(is_digit(ph[i]));
    }
    assert forall|i: int| 0 <= i < pm.len() implies pm[i] != ':' by {
        assert(is_digit(pm[i]));
    }
    assert forall|i: int| 0 <= i < ps.len() implies ps[i] != ':' by {
        assert(is_digit(ps[i]));
    }
    lemma_split_three(ph, pm, ps, ':');
}

/// Reading back what `serialize` writes gives the same offset, for every
/// `i64`.
pub proof fn lemma_offset_round_trip(seconds: i64)
    ensures
        parse_offset(offset_text(seconds as int)) == Ok::<int, OffsetError>(seconds as int),
{
    let x = seconds as int;
    let a = abs(x);
    let h = a / 3600;
    let m = (a % 3600) / 60;
    let s = a % 60;
    lemma_offset_parts(x);
    lemma_pad2(h);
    lemma_pad2(m);
    lemma_pad2(s);
    assert(h * 3600 + m * 60 + s == a && h <= a && m < 60 && s < 60) by (nonlinear_arith)
        requires
            h == a / 3600,
            m == (a % 3600) / 60,
            s == a % 60,
            a >= 0,
    ;
    lemma_parse_digits(pad2(h));
    lemma_parse_digits(pad2(m));
    lemma_parse_digits(pad2(s));
    let t = offset_text(x);
    let parts = split_on(trim_dashes(t), ':');
    assert(parts.len() == 3);
    assert(parts[0] == pad2(h) && parts[1] == pad2(m) && parts[2] == pad2(s));
    assert(parse_int(parts[0]) == Some(h as int));
    assert(parse_int(parts[1]) == Some(m as int));
    assert(parse_int(parts[2]) == Some(s as int));
    if x < 0 {
        assert(-1 * (h * 3600 + m * 60 + s) == x);
    } else {
        assert(1 * (h * 3600 + m * 60 + s) == x);
    }
}

} // verus!
