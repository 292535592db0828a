//! ASCII numerals and space-separated fields, as device payloads write them.
use vstd::prelude::*;
use crate::buffer::append_bytes;
use vstd::slice::slice_subrange;

verus! {

pub const PLUS: u8 = 0x2B;

pub const MINUS: u8 = 0x2D;

pub const DOT: u8 = 0x2E;

pub const SPACE: u8 = 0x20;

/// Every byte is ASCII.
pub open spec fn is_ascii(s: Seq<u8>) -> bool {
    forall|i: int| 0 <= i < s.len() ==> #[trigger] s[i] < 0x80
}

/// Whether bytes are valid UTF-8.
pub uninterp spec fn utf8_valid(s: Seq<u8>) -> bool;

/// Relies on `std::str::from_utf8`: it succeeds exactly on valid UTF-8, a
/// property of the bytes alone.
#[verifier::external_body]
fn is_utf8(s: &[u8]) -> (r: bool)
    ensures
        r == utf8_valid(s@),
{
    std::str::from_utf8(s).is_ok()
}

/// Whether `s` is well-encoded text: ASCII is, and otherwise UTF-8 decides.
pub open spec fn text_ok(s: Seq<u8>) -> bool {
    is_ascii(s) || utf8_valid(s)
}

/// Whether `s` is well-encoded text.
pub fn check_text(s: &[u8]) -> (r: bool)
    ensures
        r == text_ok(s@),
{
    let mut i: usize = 0;
    while i < s.len()
        invariant
            i <= s@.len(),
            forall|j: int| 0 <= j < i ==> #[trigger] s@[j] < 0x80,
        decreases s@.len() - i,
    {
        if s[i] >= 0x80 {
            return is_utf8(s);
        }
        i = i + 1;
    }
    true
}

/// The value of the digit `b` in base `radix` (10, or 16 with either case).
pub open spec fn digit_value(b: u8, radix: nat) -> Option<nat> {
    if 0x30 <= b <= 0x39 {
        Some((b - 0x30) as nat)
    } else if radix == 16 && 0x41 <= b <= 0x46 {
        Some((b - 0x41 + 10) as nat)
    } else if radix == 16 && 0x61 <= b <= 0x66 {
        Some((b - 0x61 + 10) as nat)
    } else {
        None
    }
}

/// One or more digits of base `radix`.
pub open spec fn is_numeral(s: Seq<u8>, radix: nat) -> bool {
    &&& s.len() > 0
    &&& forall|i: int| 0 <= i < s.len() ==> (#[trigger] digit_value(s[i], radix)) is Some
}

/// The value of a string of digits, most significant first.
pub open spec fn numeral_value(s: Seq<u8>, radix: nat) -> nat
    decreases s.len(),
{
    if s.len() == 0 {
        0
    } else {
        let d = match digit_value(s.last(), radix) {
            Some(v) => v,
            None => 0,
        };
        numeral_value(s.drop_last(), radix) * radix + d
    }
}

/// The numeral `s` in base `radix`, where it is one and fits in a `u64`.
pub open spec fn numeral_of(s: Seq<u8>, radix: nat) -> Option<u64> {
    if is_numeral(s, radix) && numeral_value(s, radix) <= u64::MAX {
        Some(numeral_value(s, radix) as u64)
    } else {
        None
    }
}

/// `s` without one leading `+`.
pub open spec fn without_plus(s: Seq<u8>) -> Seq<u8> {
    if s.len() > 0 && s[0] == PLUS {
        s.drop_first()
    } else {
        s
    }
}

/// An unsigned integer: an optional `+`, then digits of base `radix`.
pub open spec fn u64_of(s: Seq<u8>, radix: nat) -> Option<u64> {
    numeral_of(without_plus(s), radix)
}

/// A decimal `usize`.
pub open spec fn usize_of(s: Seq<u8>) -> Option<usize> {
    match u64_of(s, 10) {
        Some(v) => if v <= usize::MAX {
            Some(v as usize)
        } else {
            None
        },
        None => None,
    }
}

/// A decimal `i32`: an optional sign, then decimal digits.
pub open spec fn i32_of(s: Seq<u8>) -> Option<i32> {
    let signed = s.len() > 0 && (s[0] == PLUS || s[0] == MINUS);
    let negative = s.len() > 0 && s[0] == MINUS;
    let d = if signed {
        s.drop_first()
    } else {
        s
    };
    if !is_numeral(d, 10) {
        None
    } else if negative && numeral_value(d, 10) <= 0x8000_0000 {
        Some((-numeral_value(d, 10)) as i32)
    } else if !negative && numeral_value(d, 10) <= 0x7fff_ffff {
        Some(numeral_value(d, 10) as i32)
    } else {
        None
    }
}

/// A non-negative fixed-point number: `mantissa / 10^scale`.
#[derive(Debug, Clone, Copy, PartialEq, Eq, Structural)]
pub struct Decimal {
    pub mantissa: u64,
    pub scale: usize,
}

/// A decimal with an optional fraction: an optional `+`, digits, and
/// optionally a `.` followed by digits.
pub open spec fn decimal_of(s: Seq<u8>) -> Option<Decimal> {
    let d = without_plus(s);
    match d.index_of_first(DOT) {
        None => match numeral_of(d, 10) {
            Some(m) => Some(Decimal { mantissa: m, scale: 0 }),
            None => None,
        },
        Some(p) => {
            let whole = d.subrange(0, p);
            let frac = d.subrange(p + 1, d.len() as int);
            if is_numeral(whole, 10) && is_numeral(frac, 10) {
                match numeral_of(whole + frac, 10) {
                    Some(m) => Some(Decimal { mantissa: m, scale: frac.len() as usize }),
                    None => None,
                }
            } else {
                None
            }
        },
    }
}

/// The digit that writes `d` (upper case beyond 9).
pub open spec fn digit_char(d: nat) -> u8 {
    if d < 10 {
        (0x30 + d) as u8
    } else {
        (0x41 + d - 10) as u8
    }
}

/// `n` written in base `radix`, most significant digit first, without
/// leading zeros.
pub open spec fn numeral_text(n: nat, radix: nat) -> Seq<u8>
    decreases n,
    via numeral_text_decreases
{
    if n < radix || radix < 2 {
        seq![digit_char(n)]
    } else {
        numeral_text(n / radix, radix).push(digit_char(n % radix))
    }
}

#[via_fn]
proof fn numeral_text_decreases(n: nat, radix: nat) {
    if !(n < radix || radix < 2) {
        assert(n / radix < n) by (nonlinear_arith)
            requires
                n >= radix,
                radix >= 2,
        ;
    }
}

/// Writing `n` and reading it back gives `n`; the text is digits only.
pub proof fn lemma_numeral_text(n: nat, radix: nat)
    requires
        radix == 10 || radix == 16,
    ensures
        is_numeral(numeral_text(n, radix), radix),
        numeral_value(numeral_text(n, radix), radix) == n,
        forall|i: int|
            0 <= i < numeral_text(n, radix).len() ==> {
                let b = #[trigger] numeral_text(n, radix)[i];
                (0x30 <= b <= 0x39) || (0x41 <= b <= 0x46)
            },
    decreases n,
{
    let t = numeral_text(n, radix);
    if n < radix {
        assert(t.drop_last() =~= Seq::<u8>::empty());
        assert(digit_value(digit_char(n), radix) == Some(n));
        assert(numeral_value(t.drop_last(), radix) == 0);
        assert(numeral_value(t, radix) == numeral_value(t.drop_last(), radix) * radix + n);
    } else {
        let q = n / radix;
        let m = n % radix;
        assert(q < n) by (nonlinear_arith)
            requires
                n >= radix,
                radix >= 2,
                q == n / radix,
        ;
        lemma_numeral_text(q, radix);
        assert(m < radix) by (nonlinear_arith)
            requires
                radix >= 2,
                m == n % radix,
        ;
        assert(digit_value(digit_char(m), radix) == Some(m));
        assert(t.drop_last() == numeral_text(q, radix));
        assert(n == q * radix + m) by (nonlinear_arith)
            requires
                radix >= 2,
                q == n / radix,
                m == n % radix,
        ;
        let prev = numeral_text(q, radix);
        assert(t.last() == digit_char(m));
        assert(numeral_value(t, radix) == numeral_value(prev, radix) * radix + m);
        assert forall|i: int| 0 <= i < t.len() implies (#[trigger] digit_value(t[i], radix)) is Some by {
            if i < prev.len() {
                assert(t[i] == prev[i]);
            }
        }
        assert forall|i: int| 0 <= i < t.len() implies {
            let b = #[trigger] t[i];
            (0x30 <= b <= 0x39) || (0x41 <= b <= 0x46)
        } by {
            if i < prev.len() {
                assert(t[i] == prev[i]);
            }
        }
    }
}

/// The text of a number reads back as that number, holds no sign, dot,
/// space or carriage return, and does not start with `+`.
pub proof fn lemma_numeral_text_reads_back(n: nat, radix: nat)
    requires
        radix == 10 || radix == 16,
        n <= u64::MAX,
    ensures
        u64_of(numeral_text(n, radix), radix) == Some(n as u64),
        is_ascii(numeral_text(n, radix)),
        !numeral_text(n, radix).contains(0x0Du8),
        !numeral_text(n, radix).contains(DOT),
        !numeral_text(n, radix).contains(SPACE),
{
    lemma_numeral_text(n, radix);
    let t = numeral_text(n, radix);
    assert(t[0] != PLUS);
    assert(without_plus(t) == t);
}

/// Whether `s` begins with `prefix`.
pub open spec fn has_prefix(s: Seq<u8>, prefix: Seq<u8>) -> bool {
    prefix.len() <= s.len() && s.subrange(0, prefix.len() as int) == prefix
}

/// Whether `s` begins with `prefix`.
pub fn starts_with(s: &[u8], prefix: &[u8]) -> (r: bool)
    ensures
        r == has_prefix(s@, prefix@),
{
    if prefix.len() > s.len() {
        return false;
    }
    let mut i: usize = 0;
    while i < prefix.len()
        invariant
            i <= prefix@.len() <= s@.len(),
            forall|j: int| 0 <= j < i ==> s@[j] == prefix@[j],
        decreases prefix@.len() - i,
    {
        if s[i] != prefix[i] {
            assert(s@.subrange(0, prefix@.len() as int)[i as int] != prefix@[i as int]);
            return false;
        }
        i = i + 1;
    }
    assert(s@.subrange(0, prefix@.len() as int) =~= prefix@);
    true
}

/// The position of the first `b` in `s`, or `s.len()` where there is none.
pub fn find_byte(s: &[u8], b: u8) -> (r: usize)
    ensures
        r <= s@.len(),
        r < s@.len() ==> s@.index_of_first(b) == Some(r as int),
        r == s@.len() ==> s@.index_of_first(b) == None::<int>,
{
    let mut i: usize = 0;
    while i < s.len() && s[i] != b
        invariant
            i <= s@.len(),
            forall|j: int| 0 <= j < i ==> s@[j] != b,
        decreases s@.len() - i,
    {
        i = i + 1;
    }
    proof {
        s@.index_of_first_ensures(b);
        if i == s@.len() {
            assert(!s@.contains(b));
        }
    }
    i
}

fn digit_of(b: u8, radix: u64) -> (r: Option<u64>)
    requires
        radix == 10 || radix == 16,
    ensures
        match digit_value(b, radix as nat) {
            Some(v) => r == Some(v as u64),
            None => r is None,
        },
        r matches Some(v) ==> v < radix,
{
    if 0x30 <= b && b <= 0x39 {
        Some((b - 0x30) as u64)
    } else if radix == 16 && 0x41 <= b && b <= 0x46 {
        Some((b - 0x41 + 10) as u64)
    } else if radix == 16 && 0x61 <= b && b <= 0x66 {
        Some((b - 0x61 + 10) as u64)
    } else {
        None
    }
}

proof fn lemma_numeral_prefix_grows(s: Seq<u8>, radix: nat, j: int)
    requires
        radix >= 1,
        0 <= j <= s.len(),
    ensures
        numeral_value(s.subrange(0, j), radix) <= numeral_value(s, radix),
    decreases s.len() - j,
{
    if j < s.len() {
        lemma_numeral_prefix_grows(s, radix, j + 1);
        assert(s.subrange(0, j + 1).drop_last() == s.subrange(0, j));
        let a = numeral_value(s.subrange(0, j), radix);
        assert(a * radix >= a) by (nonlinear_arith)
            requires
                radix >= 1,
        ;
    } else {
        assert(s.subrange(0, j) == s);
    }
}

/// The numeral `s` in base `radix`: digits only, no sign.
pub fn parse_numeral(s: &[u8], radix: u64) -> (r: Option<u64>)
    requires
        radix == 10 || radix == 16,
    ensures
        r == numeral_of(s@, radix as nat),
{
    if s.len() == 0 {
        return None;
    }
    let mut acc: u64 = 0;
    let mut i: usize = 0;
    while i < s.len()
        invariant
            i <= s@.len(),
            radix == 10 || radix == 16,
            acc as nat == numeral_value(s@.subrange(0, i as int), radix as nat),
            forall|j: int| 0 <= j < i ==> (#[trigger] digit_value(s@[j], radix as nat)) is Some,
        decreases s@.len() - i,
    {
        let d = match digit_of(s[i], radix) {
            Some(d) => d,
            None => {
                return None;
            },
        };
        assert(s@.subrange(0, i + 1).drop_last() == s@.subrange(0, i as int));
        let wide = acc as u128 * radix as u128 + d as u128;
        assert(acc as u128 * radix as u128 <= 0xffff_ffff_ffff_ffffu128 * 16) by (nonlinear_arith)
            requires
                acc <= 0xffff_ffff_ffff_ffffu64,
                radix <= 16,
        ;
        if wide > u64::MAX as u128 {
            proof {
                lemma_numeral_prefix_grows(s@, radix as nat, i + 1);
            }
            return None;
        }
        acc = wide as u64;
        i = i + 1;
    }
    assert(s@.subrange(0, s@.len() as int) == s@);
    Some(acc)
}

/// An unsigned integer: an optional `+`, then digits of base `radix`.
pub fn parse_u64(s: &[u8], radix: u64) -> (r: Option<u64>)
    requires
        radix == 10 || radix == 16,
    ensures
        r == u64_of(s@, radix as nat),
{
    if s.len() > 0 && s[0] == PLUS {
        parse_numeral(slice_subrange(s, 1, s.len()), radix)
    } else {
        parse_numeral(s, radix)
    }
}

/// A decimal `usize`.
pub fn parse_usize(s: &[u8]) -> (r: Option<usize>)
    ensures
        r == usize_of(s@),
{
    match parse_u64(s, 10) {
        Some(v) => if v <= usize::MAX as u64 {
            Some(v as usize)
        } else {
            None
        },
        None => None,
    }
}

/// A decimal `i32`: an optional sign, then decimal digits.
pub fn parse_i32(s: &[u8]) -> (r: Option<i32>)
    ensures
        r == i32_of(s@),
{
    let signed = s.len() > 0 && (s[0] == PLUS || s[0] == MINUS);
    let negative = s.len() > 0 && s[0] == MINUS;
    let d = if signed {
        slice_subrange(s, 1, s.len())
    } else {
        s
    };
    match parse_numeral(d, 10) {
        None => {
            proof {
                if is_numeral(d@, 10) {
                    assert(numeral_value(d@, 10) > u64::MAX);
                }
            }
            None
        },
        Some(v) => if negative && v <= 0x8000_0000 {
            Some((0 - v as i64) as i32)
        } else if !negative && v <= 0x7fff_ffff {
            Some(v as i32)
        } else {
            None
        },
    }
}

/// A non-negative decimal with an optional fraction.
pub fn parse_decimal(s: &[u8]) -> (r: Option<Decimal>)
    ensures
        r == decimal_of(s@),
{
    let d = if s.len() > 0 && s[0] == PLUS {
        slice_subrange(s, 1, s.len())
    } else {
        s
    };
    let p = find_byte(d, DOT);
    if p == d.len() {
        return match parse_numeral(d, 10) {
            Some(m) => Some(Decimal { mantissa: m, scale: 0 }),
            None => None,
        };
    }
    let whole = slice_subrange(d, 0, p);
    let frac = slice_subrange(d, p + 1, d.len());
    let mut digits: Vec<u8> = Vec::new();
    append_bytes(&mut digits, whole);
    append_bytes(&mut digits, frac);
    if whole.len() == 0 || frac.len() == 0 {
        return None;
    }
    let m = parse_numeral(digits.as_slice(), 10);
    proof {
        let w = whole@;
        let f = frac@;
        assert(digits@ == w + f);
        if is_numeral(w + f, 10) {
            assert forall|i: int| 0 <= i < w.len() implies (#[trigger] digit_value(w[i], 10)) is Some by {
                assert((w + f)[i] == w[i]);
            }
            assert forall|i: int| 0 <= i < f.len() implies (#[trigger] digit_value(f[i], 10)) is Some by {
                assert((w + f)[w.len() + i] == f[i]);
            }
        }
        if is_numeral(w, 10) && is_numeral(f, 10) {
            assert forall|i: int| 0 <= i < (w + f).len() implies (#[trigger] digit_value((w + f)[i], 10)) is Some by {
                if i < w.len() {
                    assert((w + f)[i] == w[i]);
                } else {
                    assert((w + f)[i] == f[i - w.len()]);
                }
            }
        }
    }
    match m {
        Some(m) => Some(Decimal { mantissa: m, scale: frac.len() }),
        None => None,
    }
}

/// The fields of `s` between single spaces: `n` spaces make `n + 1` fields,
/// empty ones included.
pub open spec fn fields_of(s: Seq<u8>) -> Seq<Seq<u8>>
    decreases s.len(),
{
    if s.len() == 0 {
        seq![Seq::empty()]
    } else {
        let f = fields_of(s.drop_last());
        if s.last() == SPACE {
            f.push(Seq::empty())
        } else {
            f.update(f.len() - 1, f.last().push(s.last()))
        }
    }
}

proof fn lemma_fields_nonempty(s: Seq<u8>)
    ensures
        fields_of(s).len() >= 1,
    decreases s.len(),
{
    if s.len() > 0 {
        lemma_fields_nonempty(s.drop_last());
    }
}

/// The views of a list of byte vectors.
pub open spec fn views(v: Seq<Vec<u8>>) -> Seq<Seq<u8>> {
    v.map_values(|x: Vec<u8>| x@)
}

/// Splits `s` at every space.
pub fn split_fields(s: &[u8]) -> (r: Vec<Vec<u8>>)
    ensures
        views(r@) == fields_of(s@),
{
    let mut done: Vec<Vec<u8>> = Vec::new();
    let mut cur: Vec<u8> = Vec::new();
    let mut i: usize = 0;
    while i < s.len()
        invariant
            i <= s@.len(),
            views(done@).push(cur@) == fields_of(s@.subrange(0, i as int)),
        decreases s@.len() - i,
    {
        let ghost before = s@.subrange(0, i as int);
        assert(s@.subrange(0, i + 1).drop_last() == before);
        proof {
            lemma_fields_nonempty(before);
        }
        if s[i] == SPACE {
            let finished = cur;
            done.push(finished);
            cur = Vec::new();
            assert(views(done@) == views(done@).drop_last().push(finished@));
            assert(views(done@).push(cur@) =~= fields_of(s@.subrange(0, i + 1)));
        } else {
            cur.push(s[i]);
            assert(views(done@).push(cur@) =~= fields_of(s@.subrange(0, i + 1)));
        }
        i = i + 1;
    }
    assert(s@.subrange(0, s@.len() as int) == s@);
    done.push(cur);
    assert(views(done@) =~= fields_of(s@));
    done
}

proof fn lemma_zeros_value(z: Seq<u8>, t: Seq<u8>)
    requires
        forall|i: int| 0 <= i < z.len() ==> z[i] == 0x30u8,
    ensures
        numeral_value(z + t, 10) == numeral_value(t, 10),
    decreases z.len() + t.len(),
{
    if t.len() == 0 {
        assert(z + t =~= z);
        if z.len() > 0 {
            lemma_zeros_value(z.drop_last(), t);
            assert(z.drop_last() + t =~= z.drop_last());
            assert(digit_value(z.last(), 10) == Some(0nat));
        }
    } else {
        lemma_zeros_value(z, t.drop_last());
        assert((z + t).drop_last() =~= z + t.drop_last());
        assert((z + t).last() == t.last());
    }
}

/// `n` in decimal, with leading zeros up to at least `width` digits.
pub open spec fn padded_text(n: nat, width: nat) -> Seq<u8> {
    let t = numeral_text(n, 10);
    if t.len() >= width {
        t
    } else {
        Seq::new((width - t.len()) as nat, |i: int| 0x30u8) + t
    }
}

proof fn lemma_padded_text(n: nat, width: nat)
    ensures
        is_numeral(padded_text(n, width), 10),
        numeral_value(padded_text(n, width), 10) == n,
        padded_text(n, width).len() >= width,
        forall|i: int|
            0 <= i < padded_text(n, width).len() ==> 0x30 <= #[trigger] padded_text(n, width)[i]
                <= 0x39,
{
    let t = numeral_text(n, 10);
    lemma_numeral_text(n, 10);
    assert forall|i: int| 0 <= i < t.len() implies 0x30 <= #[trigger] t[i] <= 0x39 by {
        assert(digit_value(t[i], 10) is Some);
    }
    if t.len() < width {
        let z = Seq::new((width - t.len()) as nat, |i: int| 0x30u8);
        lemma_zeros_value(z, t);
        let p = z + t;
        assert forall|i: int| 0 <= i < p.len() implies 0x30 <= #[trigger] p[i] <= 0x39 by {
            if i >= z.len() {
                assert(p[i] == t[i - z.len()]);
            }
        }
        assert forall|i: int| 0 <= i < p.len() implies (#[trigger] digit_value(p[i], 10)) is Some by {
            assert(0x30 <= p[i] <= 0x39);
        }
    }
}

/// A fixed-point value as a device writes it: the digits of the mantissa,
/// zero-padded so that at least one digit precedes the dot, with `scale`
/// digits after it.
pub open spec fn decimal_text(d: Decimal) -> Seq<u8> {
    if d.scale == 0 {
        numeral_text(d.mantissa as nat, 10)
    } else {
        let t = padded_text(d.mantissa as nat, d.scale as nat + 1);
        let cut = t.len() - d.scale;
        t.subrange(0, cut) + seq![DOT] + t.subrange(cut, t.len() as int)
    }
}

/// A written fixed-point value reads back, and holds no space or carriage
/// return.
pub proof fn lemma_decimal_text(d: Decimal)
    ensures
        decimal_of(decimal_text(d)) == Some(d),
        is_ascii(decimal_text(d)),
        !decimal_text(d).contains(SPACE),
        !decimal_text(d).contains(0x0Du8),
{
    let w = decimal_text(d);
    if d.scale == 0 {
        lemma_numeral_text_reads_back(d.mantissa as nat, 10);
        lemma_numeral_text(d.mantissa as nat, 10);
        assert(w[0] != PLUS);
        assert(without_plus(w) == w);
        w.index_of_first_ensures(DOT);
    } else {
        let t = padded_text(d.mantissa as nat, d.scale as nat + 1);
        lemma_padded_text(d.mantissa as nat, d.scale as nat + 1);
        let cut = t.len() - d.scale;
        let whole = t.subrange(0, cut);
        let frac = t.subrange(cut, t.len() as int);
        assert(w[0] == t[0]);
        assert(without_plus(w) == w);
        assert forall|i: int| 0 <= i < whole.len() implies w[i] != DOT by {
            assert(w[i] == t[i]);
        }
        assert(w[whole.len() as int] == DOT);
        w.index_of_first_ensures(DOT);
        assert(w.contains(DOT));
        assert(w.subrange(0, cut) =~= whole);
        assert(w.subrange(cut + 1, w.len() as int) =~= frac);
        assert(whole + frac =~= t);
        assert forall|i: int| 0 <= i < whole.len() implies (#[trigger] digit_value(whole[i], 10)) is Some by {
            assert(whole[i] == t[i]);
        }
        assert forall|i: int| 0 <= i < frac.len() implies (#[trigger] digit_value(frac[i], 10)) is Some by {
            assert(frac[i] == t[cut + i]);
        }
        assert forall|i: int| 0 <= i < w.len() implies w[i] != SPACE && w[i] != 0x0Du8 && w[i]
            < 0x80 by {
            if i < cut {
                assert(w[i] == t[i]);
            } else if i > cut {
                assert(w[i] == t[i - 1]);
            }
        }
    }
}

/// A decimal `i32` as written: a `-` before negative values.
pub open spec fn i32_text(v: i32) -> Seq<u8> {
    if v < 0 {
        seq![MINUS] + numeral_text((-v) as nat, 10)
    } else {
        numeral_text(v as nat, 10)
    }
}

/// A written `i32` reads back, and holds no space or carriage return.
pub proof fn lemma_i32_text(v: i32)
    ensures
        i32_of(i32_text(v)) == Some(v),
        is_ascii(i32_text(v)),
        !i32_text(v).contains(SPACE),
        !i32_text(v).contains(0x0Du8),
{
    let a: nat = if v < 0 { (-v) as nat } else { v as nat };
    let t = numeral_text(a, 10);
    lemma_numeral_text(a, 10);
    lemma_numeral_text_reads_back(a, 10);
    let w = i32_text(v);
    if v < 0 {
        assert(w.drop_first() =~= t);
        assert forall|i: int| 0 <= i < w.len() implies w[i] != SPACE && w[i] != 0x0Du8 && w[i]
            < 0x80 by {
            if i > 0 {
                assert(w[i] == t[i - 1]);
            }
        }
    } else {
        assert(t[0] != PLUS && t[0] != MINUS);
    }
}

/// A written `usize` reads back, and holds no space or carriage return.
pub proof fn lemma_usize_text(n: usize)
    ensures
        usize_of(numeral_text(n as nat, 10)) == Some(n),
        is_ascii(numeral_text(n as nat, 10)),
        !numeral_text(n as nat, 10).contains(SPACE),
        !numeral_text(n as nat, 10).contains(0x0Du8),
{
    lemma_numeral_text_reads_back(n as nat, 10);
}

/// Fields joined by single spaces.
pub open spec fn join_fields(fs: Seq<Seq<u8>>) -> Seq<u8>
    decreases fs.len(),
{
    if fs.len() == 0 {
        Seq::empty()
    } else if fs.len() == 1 {
        fs[0]
    } else {
        join_fields(fs.drop_last()) + seq![SPACE] + fs.last()
    }
}

proof fn lemma_fields_append(s: Seq<u8>, t: Seq<u8>)
    requires
        !t.contains(SPACE),
    ensures
        fields_of(s + t) == fields_of(s).update(
            fields_of(s).len() - 1,
            fields_of(s).last() + t,
        ),
    decreases t.len(),
{
    lemma_fields_nonempty(s);
    if t.len() == 0 {
        assert(s + t =~= s);
        assert(fields_of(s).last() + t =~= fields_of(s).last());
        assert(fields_of(s).update(fields_of(s).len() - 1, fields_of(s).last()) =~= fields_of(s));
    } else {
        let u = s + t;
        assert(!t.drop_last().contains(SPACE)) by {
            assert forall|i: int| 0 <= i < t.drop_last().len() implies t.drop_last()[i] != SPACE by {
                assert(t.drop_last()[i] == t[i]);
            }
        }
        lemma_fields_append(s, t.drop_last());
        assert(u.drop_last() =~= s + t.drop_last());
        assert(u.last() == t.last());
        assert(t.last() != SPACE);
        let g = fields_of(s);
        let f = fields_of(u.drop_last());
        assert(f == g.update(g.len() - 1, g.last() + t.drop_last()));
        assert(f.len() == g.len());
        assert(f.last() == g.last() + t.drop_last());
        assert(fields_of(u) == f.update(f.len() - 1, f.last().push(u.last())));
        assert((g.last() + t.drop_last()).push(t.last()) =~= g.last() + t);
        assert(fields_of(u) =~= g.update(g.len() - 1, g.last() + t));
    }
}

/// Splitting fields that hold no space, after joining them, gives them back.
pub proof fn lemma_join_fields(fs: Seq<Seq<u8>>)
    requires
        fs.len() >= 1,
        forall|i: int| 0 <= i < fs.len() ==> !(#[trigger] fs[i]).contains(SPACE),
    ensures
        fields_of(join_fields(fs)) == fs,
    decreases fs.len(),
{
    if fs.len() == 1 {
        let e = Seq::<u8>::empty();
        lemma_fields_append(e, fs[0]);
        assert(e + fs[0] =~= fs[0]);
        assert(seq![e] + Seq::<Seq<u8>>::empty() == seq![e]);
        assert(fields_of(e) == seq![e]);
        assert(e + fs[0] =~= fs[0]);
        assert(seq![e].update(0, fs[0]) =~= fs);
    } else {
        let init = fs.drop_last();
        lemma_join_fields(init);
        let j = join_fields(init) + seq![SPACE];
        assert(j.drop_last() =~= join_fields(init));
        assert(fields_of(j) == init.push(Seq::empty()));
        lemma_fields_append(j, fs.last());
        assert(Seq::<u8>::empty() + fs.last() =~= fs.last());
        assert(init.push(Seq::empty()).update(init.len() as int, fs.last()) =~= fs);
    }
}

/// Joining fields free of a byte other than the space gives text free of it.
pub proof fn lemma_join_avoids(fs: Seq<Seq<u8>>, b: u8)
    requires
        b != SPACE,
        forall|i: int| 0 <= i < fs.len() ==> !(#[trigger] fs[i]).contains(b),
    ensures
        !join_fields(fs).contains(b),
    decreases fs.len(),
{
    if fs.len() > 1 {
        lemma_join_avoids(fs.drop_last(), b);
        let a = join_fields(fs.drop_last());
        let l = fs.last();
        assert(!l.contains(b));
        assert forall|i: int| 0 <= i < join_fields(fs).len() implies join_fields(fs)[i] != b by {
            if i < a.len() {
                assert(join_fields(fs)[i] == a[i]);
            } else if i > a.len() {
                assert(join_fields(fs)[i] == l[i - a.len() - 1]);
            }
        }
    } else if fs.len() == 1 {
        assert(!fs[0].contains(b));
    }
}

} // verus!
