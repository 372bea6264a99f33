//! Integer and fixed-point decimal text: parsing ASCII digits and writing
//! integers in decimal.
use vstd::prelude::*;
use vstd::string::{StrSliceExecFns, StringExecFns};

verus! {

broadcast use vstd::string::group_string_axioms;

/// Fixed-point amounts carry this many units per whole unit (six decimals).
pub const SCALE: i64 = 1_000_000;

pub open spec fn is_digit(c: char) -> bool {
    '0' <= c && c <= '9'
}

pub open spec fn digit_of(c: char) -> int {
    c as int - '0' as int
}

pub open spec fn digit_char(d: int) -> char {
    (d + '0' as int) as char
}

pub open spec fn all_digits(s: Seq<char>) -> bool {
    forall|i: int| 0 <= i < s.len() ==> is_digit(#[trigger] s[i])
}

/// The number that a string of decimal digits denotes.
pub open spec fn digits_value(s: Seq<char>) -> int
    decreases s.len(),
{
    if s.len() == 0 {
        0
    } else {
        digits_value(s.drop_last()) * 10 + digit_of(s.last())
    }
}

/// The decimal digits of a natural number, without leading zeros.
pub open spec fn nat_text(n: nat) -> Seq<char>
    decreases n,
{
    if n < 10 {
        seq![digit_char(n as int)]
    } else {
        nat_text(n / 10).push(digit_char((n % 10) as int))
    }
}

/// An integer in decimal, with a leading `-` when it is negative.
pub open spec fn int_text(n: int) -> Seq<char> {
    if n < 0 {
        seq!['-'] + nat_text((-n) as nat)
    } else {
        nat_text(n as nat)
    }
}

/// A natural number in decimal, left-padded with zeros to `width` digits.
pub open spec fn padded_text(n: nat, width: nat) -> Seq<char> {
    let t = nat_text(n);
    if t.len() >= width {
        t
    } else {
        Seq::new((width - t.len()) as nat, |i: int| '0') + t
    }
}

/// What `str::parse::<i32>` accepts: an optional sign, then one or more
/// ASCII digits, denoting a value in the range of `i32`.
pub open spec fn i32_text_value(s: Seq<char>) -> Option<int> {
    let neg = s.len() > 0 && s[0] == '-';
    let signed = s.len() > 0 && (s[0] == '-' || s[0] == '+');
    let body = if signed { s.drop_first() } else { s };
    let v = if neg { -digits_value(body) } else { digits_value(body) };
    if body.len() > 0 && all_digits(body) && i32::MIN <= v <= i32::MAX {
        Some(v)
    } else {
        None
    }
}

/// The position of the first `.` in `s`, where there is one.
pub open spec fn first_dot(s: Seq<char>) -> Option<int> {
    if exists|p: int| 0 <= p < s.len() && s[p] == '.' && forall|j: int| 0 <= j < p ==> s[j] != '.' {
        Some(choose|p: int| 0 <= p < s.len() && s[p] == '.' && forall|j: int| 0 <= j < p ==> s[j] != '.')
    } else {
        None
    }
}

/// The magnitude, in millionths, of an unsigned decimal: one or more
/// digits, then optionally a point and one to six digits.
pub open spec fn unsigned_decimal_value(body: Seq<char>) -> Option<int> {
    match first_dot(body) {
        Some(p) => {
            let whole = body.take(p);
            let frac = body.skip(p + 1);
            if whole.len() > 0 && all_digits(whole) && 0 < frac.len() <= 6 && all_digits(frac) {
                Some(digits_value(whole) * SCALE + digits_value(frac) * pow10((6 - frac.len()) as nat))
            } else {
                None
            }
        },
        None => if body.len() > 0 && all_digits(body) {
            Some(digits_value(body) * SCALE)
        } else {
            None
        },
    }
}

/// A decimal quantity as text: an optional sign, then an unsigned decimal.
/// Its value is counted in millionths and must fit in an `i64`.
pub open spec fn decimal_text_value(s: Seq<char>) -> Option<int> {
    let neg = s.len() > 0 && s[0] == '-';
    let signed = s.len() > 0 && (s[0] == '-' || s[0] == '+');
    let body = if signed { s.drop_first() } else { s };
    match unsigned_decimal_value(body) {
        Some(m) => {
            let v = if neg { -m } else { m };
            if i64::MIN <= v <= i64::MAX { Some(v) } else { None }
        },
        None => None,
    }
}

pub open spec fn pow10(n: nat) -> int
    decreases n,
{
    if n == 0 {
        1
    } else {
        10 * pow10((n - 1) as nat)
    }
}

proof fn lemma_digits_value_nonneg(s: Seq<char>)
    requires
        all_digits(s),
    ensures
        digits_value(s) >= 0,
    decreases s.len(),
{
    if s.len() > 0 {
        lemma_digits_value_nonneg(s.drop_last());
    }
}

/// A longer run of digits is worth at least as much as its prefix.
proof fn lemma_digits_value_prefix(s: Seq<char>, k: int)
    requires
        all_digits(s),
        0 <= k <= s.len(),
    ensures
        digits_value(s) >= digits_value(s.take(k)),
    decreases s.len(),
{
    if k < s.len() {
        assert(s.drop_last().take(k) =~= s.take(k));
        lemma_digits_value_prefix(s.drop_last(), k);
        lemma_digits_value_nonneg(s.drop_last());
        lemma_digits_value_nonneg(s.take(k));
    } else {
        assert(s.take(k) =~= s);
    }
}

proof fn lemma_first_dot_is(s: Seq<char>, p: int)
    requires
        0 <= p < s.len(),
        s[p] == '.',
        forall|j: int| 0 <= j < p ==> s[j] != '.',
    ensures
        first_dot(s) == Some(p),
{
    let q = choose|q: int| 0 <= q < s.len() && s[q] == '.' && forall|j: int| 0 <= j < q ==> s[j] != '.';
    if q < p {
        assert(s[q] != '.');
    }
    if q > p {
        assert(s[p] != '.');
    }
}

/// A run of `k` digits is worth less than ten to the `k`.
proof fn lemma_frac_bound(s: Seq<char>)
    requires
        all_digits(s),
    ensures
        0 <= digits_value(s) < pow10(s.len()),
        s.len() <= 6 ==> pow10(s.len()) * pow10((6 - s.len()) as nat) == 1000000,
    decreases s.len(),
{
    if s.len() > 0 {
        lemma_frac_bound(s.drop_last());
    }
    if s.len() <= 6 {
        lemma_pow10_split(s.len());
    }
}

proof fn lemma_pow10_split(k: nat)
    requires
        k <= 6,
    ensures
        pow10(k) * pow10((6 - k) as nat) == 1000000,
{
    reveal_with_fuel(pow10, 7);
    assert(pow10(0) == 1);
    assert(pow10(1) == 10);
    assert(pow10(2) == 100);
    assert(pow10(3) == 1000);
    assert(pow10(4) == 10000);
    assert(pow10(5) == 100000);
    assert(pow10(6) == 1000000);
    if k == 0 {
        assert((6 - k) as nat == 6);
    } else if k == 1 {
        assert((6 - k) as nat == 5);
    } else if k == 2 {
        assert((6 - k) as nat == 4);
    } else if k == 3 {
        assert((6 - k) as nat == 3);
    } else if k == 4 {
        assert((6 - k) as nat == 2);
    } else if k == 5 {
        assert((6 - k) as nat == 1);
    } else {
        assert((6 - k) as nat == 0);
    }
}

proof fn lemma_pow10_pos(k: nat)
    ensures
        pow10(k) >= 1,
    decreases k,
{
    if k > 0 {
        lemma_pow10_pos((k - 1) as nat);
    }
}

/// A quantity whose whole part is not a run of digits at most `limit` is
/// rejected or exceeds `limit` millions.
proof fn lemma_whole_too_large(body: Seq<char>, limit: int)
    requires
        match first_dot(body) {
            Some(p) => !all_digits(body.take(p)) || digits_value(body.take(p)) > limit,
            None => !all_digits(body) || digits_value(body) > limit,
        },
    ensures
        unsigned_decimal_value(body) matches Some(m) ==> m >= (limit + 1) * SCALE,
{
    match first_dot(body) {
        Some(p) => {
            let whole = body.take(p);
            if all_digits(whole) {
                assert(digits_value(whole) * SCALE >= (limit + 1) * SCALE) by (nonlinear_arith)
                    requires digits_value(whole) >= limit + 1;
            }
            let frac = body.skip(p + 1);
            if all_digits(frac) && frac.len() <= 6 {
                lemma_digits_value_nonneg(frac);
                lemma_frac_bound(frac);
                lemma_pow10_pos((6 - frac.len()) as nat);
                assert(digits_value(frac) * pow10((6 - frac.len()) as nat) >= 0) by (nonlinear_arith)
                    requires digits_value(frac) >= 0, pow10((6 - frac.len()) as nat) >= 0;
            }
        },
        None => {
            if all_digits(body) {
                assert(digits_value(body) * SCALE >= (limit + 1) * SCALE) by (nonlinear_arith)
                    requires digits_value(body) >= limit + 1;
            }
        },
    }
}

/// A character outside ASCII is never part of a decimal quantity.
proof fn lemma_non_ascii_rejected(body: Seq<char>, k: int)
    requires
        0 <= k < body.len(),
        !('\0' <= body[k] <= '\u{7f}'),
    ensures
        unsigned_decimal_value(body) is None,
{
    match first_dot(body) {
        Some(p) => {
            if k < p {
                assert(body.take(p)[k] == body[k]);
            } else if k > p {
                assert(body.skip(p + 1)[k - p - 1] == body[k]);
            }
        },
        None => {},
    }
}

/// The characters of an ASCII string as bytes.
fn ascii_bytes(s: &str) -> (r: Option<&[u8]>)
    ensures
        r is None <==> !vstd::string::is_ascii(s),
        r matches Some(b) ==> b@.len() == s@.len() && forall|i: int|
            0 <= i < s@.len() ==> #[trigger] b@[i] as char == s@[i],
{
    if s.is_ascii() {
        let b = s.as_bytes();
        proof {
            vstd::string::is_ascii_spec_bytes(s);
            assert forall|i: int| 0 <= i < s@.len() implies #[trigger] b@[i] as char == s@[i] by {
                assert(s@[i] <= '\u{7f}');
            }
        }
        Some(b)
    } else {
        None
    }
}

/// The value of the digits `b[lo..hi]`, where they are all digits and
/// their value is at most `limit`; `None` otherwise.
fn digits_up_to(b: &[u8], lo: usize, hi: usize, limit: u64, Ghost(s): Ghost<Seq<char>>) -> (r: Option<u64>)
    requires
        lo <= hi <= b@.len(),
        b@.len() == s.len(),
        forall|i: int| 0 <= i < s.len() ==> #[trigger] b@[i] as char == s[i],
        limit <= 0x1000_0000_0000_0000,
    ensures
        r matches Some(v) ==> all_digits(s.subrange(lo as int, hi as int))
            && v == digits_value(s.subrange(lo as int, hi as int)) && v <= limit,
        r is None ==> !all_digits(s.subrange(lo as int, hi as int))
            || digits_value(s.subrange(lo as int, hi as int)) > limit,
{
    let mut v: u64 = 0;
    let mut i: usize = lo;
    while i < hi
        invariant
            lo <= i <= hi <= b@.len(),
            b@.len() == s.len(),
            forall|j: int| 0 <= j < s.len() ==> #[trigger] b@[j] as char == s[j],
            limit <= 0x1000_0000_0000_0000,
            all_digits(s.subrange(lo as int, i as int)),
            v == digits_value(s.subrange(lo as int, i as int)),
            v <= limit,
        decreases hi - i,
    {
        let c = b[i];
        let ghost whole = s.subrange(lo as int, hi as int);
        let ghost next = s.subrange(lo as int, i + 1);
        assert(next.drop_last() =~= s.subrange(lo as int, i as int));
        assert(next.last() == s[i as int]);
        if c < 48 || c > 57 {
            assert(whole[i - lo] == s[i as int]);
            return None;
        }
        let w = v * 10 + (c - 48) as u64;
        assert(next =~= whole.take(i + 1 - lo));
        assert forall|j: int| 0 <= j < next.len() implies is_digit(#[trigger] next[j]) by {
            if j < next.len() - 1 {
                assert(next[j] == s.subrange(lo as int, i as int)[j]);
            }
        }
        if w > limit {
            proof {
                if all_digits(whole) {
                    lemma_digits_value_prefix(whole, i + 1 - lo);
                }
            }
            return None;
        }
        v = w;
        i = i + 1;
    }
    Some(v)
}

/// Parses an integer as `str::parse::<i32>` does.
pub fn parse_i32(s: &str) -> (r: Option<i32>)
    ensures
        r matches Some(v) ==> i32_text_value(s@) == Some(v as int),
        r is None ==> i32_text_value(s@) is None,
{
    let b = match ascii_bytes(s) {
        Some(b) => b,
        None => {
            proof {
                let i = choose|i: int| 0 <= i < s@.len() && !('\0' <= #[trigger] s@[i] <= '\u{7f}');
                let neg = s@.len() > 0 && s@[0] == '-';
                let signed = s@.len() > 0 && (s@[0] == '-' || s@[0] == '+');
                let body = if signed { s@.drop_first() } else { s@ };
                if body.len() > 0 && all_digits(body) {
                    if signed {
                        assert(i != 0);
                        assert(body[i - 1] == s@[i]);
                    } else {
                        assert(body[i] == s@[i]);
                    }
                }
            }
            return None;
        },
    };
    let ghost t = s@;
    let n = b.len();
    let neg = n > 0 && b[0] == 45;
    let signed = n > 0 && (b[0] == 45 || b[0] == 43);
    let start: usize = if signed { 1 } else { 0 };
    let ghost body = if signed { t.drop_first() } else { t };
    assert(body =~= t.subrange(start as int, n as int));
    if start == n {
        return None;
    }
    let limit: u64 = if neg { 0x8000_0000 } else { 0x7fff_ffff };
    match digits_up_to(b, start, n, limit, Ghost(t)) {
        None => None,
        Some(v) => {
            if neg {
                Some((-(v as i64)) as i32)
            } else {
                Some(v as i32)
            }
        },
    }
}

/// Ten to the power `n`, for `n` at most six.
fn pow10_small(n: usize) -> (r: u64)
    requires
        n <= 6,
    ensures
        r == pow10(n as nat),
{
    reveal_with_fuel(pow10, 7);
    match n {
        0 => 1,
        1 => 10,
        2 => 100,
        3 => 1000,
        4 => 10000,
        5 => 100000,
        _ => 1000000,
    }
}

/// The magnitude of the unsigned decimal `t[start..n]`, in millionths,
/// where it is well formed and at most `0x8000_0000_0000_0000`.
fn unsigned_decimal(b: &[u8], start: usize, n: usize, Ghost(t): Ghost<Seq<char>>) -> (r: Option<u64>)
    requires
        start < n == b@.len() == t.len(),
        forall|j: int| 0 <= j < t.len() ==> #[trigger] b@[j] as char == t[j],
    ensures
        r matches Some(m) ==> unsigned_decimal_value(t.subrange(start as int, n as int)) == Some(m as int),
        r is None ==> (unsigned_decimal_value(t.subrange(start as int, n as int)) matches Some(m)
            ==> m > 0x8000_0000_0000_0000),
{
    let ghost body = t.subrange(start as int, n as int);
    let mut p: usize = start;
    while p < n && b[p] != 46
        invariant
            start <= p <= n == b@.len() == t.len(),
            forall|j: int| 0 <= j < t.len() ==> #[trigger] b@[j] as char == t[j],
            forall|j: int| start <= j < p ==> t[j] != '.',
        decreases n - p,
    {
        p = p + 1;
    }
    let whole_limit: u64 = 9223372036854;
    if p == n {
        proof {
            assert forall|q: int| 0 <= q < body.len() implies body[q] != '.' by {
                assert(body[q] == t[q + start]);
            }
            assert(first_dot(body) is None);
        }
        match digits_up_to(b, start, n, whole_limit, Ghost(t)) {
            None => {
                proof { lemma_whole_too_large(body, whole_limit as int); }
                None
            },
            Some(w) => Some(w * 1000000),
        }
    } else {
        let ghost pb = p - start;
        proof {
            assert(body[pb] == '.');
            assert forall|j: int| 0 <= j < pb implies body[j] != '.' by {
                assert(body[j] == t[j + start]);
            }
            lemma_first_dot_is(body, pb);
            assert(body.take(pb) =~= t.subrange(start as int, p as int));
            assert(body.skip(pb + 1) =~= t.subrange(p + 1, n as int));
        }
        if p == start {
            return None;
        }
        let w = match digits_up_to(b, start, p, whole_limit, Ghost(t)) {
            None => {
                proof { lemma_whole_too_large(body, whole_limit as int); }
                return None;
            },
            Some(w) => w,
        };
        let flen = n - p - 1;
        if flen == 0 || flen > 6 {
            return None;
        }
        let ghost fr = t.subrange(p + 1, n as int);
        let f = match digits_up_to(b, p + 1, n, 999999, Ghost(t)) {
            None => {
                proof {
                    if all_digits(fr) {
                        lemma_frac_bound(fr);
                        lemma_pow10_pos((6 - fr.len()) as nat);
                        assert(pow10(fr.len()) <= 1000000) by (nonlinear_arith)
                            requires pow10(fr.len()) * pow10((6 - fr.len()) as nat) == 1000000,
                                pow10((6 - fr.len()) as nat) >= 1, pow10(fr.len()) >= 0;
                    }
                }
                return None;
            },
            Some(f) => f,
        };
        let scale = pow10_small(6 - flen);
        proof {
            lemma_frac_bound(fr);
            lemma_pow10_pos((6 - flen) as nat);
            assert(f * scale <= 999999) by (nonlinear_arith)
                requires f == digits_value(fr), f < pow10(flen as nat),
                    scale == pow10((6 - flen) as nat), pow10(flen as nat) * pow10((6 - flen) as nat) == 1000000,
                    f >= 0, scale >= 1;
        }
        Some(w * 1000000 + f * scale)
    }
}

/// Parses a decimal quantity into millionths: an optional sign, digits,
/// and optionally a point followed by one to six digits.
pub fn parse_decimal(s: &str) -> (r: Option<i64>)
    ensures
        r matches Some(v) ==> decimal_text_value(s@) == Some(v as int),
        r is None ==> decimal_text_value(s@) is None,
{
    let ghost t = s@;
    let ghost signed0 = t.len() > 0 && (t[0] == '-' || t[0] == '+');
    let ghost body = if signed0 { t.drop_first() } else { t };
    let b = match ascii_bytes(s) {
        Some(b) => b,
        None => {
            proof {
                let i = choose|i: int| 0 <= i < t.len() && !('\0' <= #[trigger] t[i] <= '\u{7f}');
                let k = if signed0 { i - 1 } else { i };
                assert(body[k] == t[i]);
                lemma_non_ascii_rejected(body, k);
            }
            return None;
        },
    };
    let n = b.len();
    let neg = n > 0 && b[0] == 45;
    let signed = n > 0 && (b[0] == 45 || b[0] == 43);
    let start: usize = if signed { 1 } else { 0 };
    assert(body =~= t.subrange(start as int, n as int));
    if start == n {
        return None;
    }
    let m = match unsigned_decimal(b, start, n, Ghost(t)) {
        None => return None,
        Some(m) => m,
    };
    if neg {
        if m > 0x8000_0000_0000_0000 {
            return None;
        }
        Some((-(m as i128)) as i64)
    } else {
        if m > 0x7fff_ffff_ffff_ffff {
            return None;
        }
        Some(m as i64)
    }
}

/// The decimal digit `d` as a string of one character.
fn digit_str(d: u64) -> (r: &'static str)
    requires
        d < 10,
    ensures
        r@ == seq![digit_char(d as int)],
{
    match d {
        0 => { proof { reveal_strlit("0"); } "0" },
        1 => { proof { reveal_strlit("1"); } "1" },
        2 => { proof { reveal_strlit("2"); } "2" },
        3 => { proof { reveal_strlit("3"); } "3" },
        4 => { proof { reveal_strlit("4"); } "4" },
        5 => { proof { reveal_strlit("5"); } "5" },
        6 => { proof { reveal_strlit("6"); } "6" },
        7 => { proof { reveal_strlit("7"); } "7" },
        8 => { proof { reveal_strlit("8"); } "8" },
        _ => { proof { reveal_strlit("9"); } "9" },
    }
}

/// Appends the decimal digits of `n` to `out`.
pub fn push_nat_text(out: &mut String, n: u64)
    ensures
        final(out)@ == old(out)@ + nat_text(n as nat),
    decreases n,
{
    if n >= 10 {
        push_nat_text(out, n / 10);
    }
    out.append(digit_str(n % 10));
    assert(final(out)@ =~= old(out)@ + nat_text(n as nat));
}

/// Appends `n` in decimal to `out`, with a `-` where it is negative.
pub fn push_int_text(out: &mut String, n: i64)
    ensures
        final(out)@ == old(out)@ + int_text(n as int),
{
    if n < 0 {
        proof { reveal_strlit("-"); }
        out.append("-");
        let m: u64 = (-(n as i128)) as u64;
        push_nat_text(out, m);
        assert(final(out)@ =~= old(out)@ + int_text(n as int));
    } else {
        push_nat_text(out, n as u64);
    }
}

/// Appends `n` in decimal, left-padded with zeros to `width` digits.
pub fn push_padded(out: &mut String, n: u64, width: u64)
    ensures
        final(out)@ == old(out)@ + padded_text(n as nat, width as nat),
{
    let mut probe = String::new();
    push_nat_text(&mut probe, n);
    let len = probe.as_str().unicode_len();
    let mut k: u64 = len as u64;
    let ghost start = out@;
    while k < width
        invariant
            len == nat_text(n as nat).len(),
            len <= k <= if width > len { width } else { len as u64 },
            out@ == start + Seq::new((k - len) as nat, |i: int| '0'),
        decreases width - k,
    {
        proof { reveal_strlit("0"); }
        out.append("0");
        assert(out@ =~= start + Seq::new((k + 1 - len) as nat, |i: int| '0'));
        k = k + 1;
    }
    push_nat_text(out, n);
    assert(final(out)@ =~= old(out)@ + padded_text(n as nat, width as nat));
}

} // verus!
