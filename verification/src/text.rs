//! Character-level helpers: decimal numbers read in thousandths,
//! searching a text for a character, and writing integers in decimal.
use vstd::prelude::*;
use vstd::string::*;

verus! {

/// Number of milli-units in one unit: prices are held in thousandths of a
/// yuan and volumes in thousandths of a share.
pub const MILLI: u64 = 1000;

pub open spec fn is_digit(c: char) -> bool {
    '0' <= c && c <= '9'
}

pub open spec fn digit_value(c: char) -> nat {
    (c as int - '0' as int) as nat
}

pub open spec fn all_digits(s: Seq<char>) -> bool {
    forall|i: int| 0 <= i < s.len() ==> is_digit(#[trigger] s[i])
}

/// The value of a string of decimal digits, most significant first.
pub open spec fn digits_value(s: Seq<char>) -> nat
    decreases s.len(),
{
    if s.len() == 0 {
        0
    } else {
        digits_value(s.drop_last()) * 10 + digit_value(s.last())
    }
}

pub open spec fn pow10(n: nat) -> nat
    decreases n,
{
    if n == 0 {
        1
    } else {
        10 * pow10((n - 1) as nat)
    }
}

/// Position of the first occurrence of `c` in `s`, or `s.len()` when `c`
/// does not occur.
pub open spec fn index_of(s: Seq<char>, c: char) -> int
    decreases s.len(),
{
    if s.len() == 0 {
        0
    } else if s[0] == c {
        0
    } else {
        1 + index_of(s.drop_first(), c)
    }
}

/// A number's text without its leading `+`, if it has one.
pub open spec fn unsigned_text(s: Seq<char>) -> Seq<char> {
    if s.len() > 0 && s[0] == '+' {
        s.drop_first()
    } else {
        s
    }
}

/// A fraction's digits (those after the `.`) in thousandths, rounded half
/// up: the first three digits (padded with zeros), plus one when the
/// fourth is 5 or more.
pub open spec fn frac_milli(frac: Seq<char>) -> nat {
    if frac.len() <= 3 {
        digits_value(frac) * pow10((3 - frac.len()) as nat)
    } else {
        digits_value(frac.take(3)) + if digit_value(frac[3]) >= 5 {
            1nat
        } else {
            0nat
        }
    }
}

/// The integer and fraction digits of a plain decimal number: digits and
/// at most one `.` followed by digits, with at least one digit in all
/// (`16.37`, `52`, `.5`, `5.`).
pub open spec fn plain_parts(m: Seq<char>) -> Option<(Seq<char>, Seq<char>)> {
    let k = index_of(m, '.');
    let int_part = m.take(k);
    let frac = if k < m.len() {
        m.skip(k + 1)
    } else {
        Seq::<char>::empty()
    };
    if all_digits(int_part) && all_digits(frac) && int_part.len() + frac.len() > 0 {
        Some((int_part, frac))
    } else {
        None
    }
}

/// The value, in thousandths rounded half up, of a plain decimal number
/// (see `plain_parts`).
pub open spec fn plain_value(m: Seq<char>) -> Option<nat> {
    match plain_parts(m) {
        Some((int_part, frac)) => Some(digits_value(int_part) * 1000 + frac_milli(frac)),
        None => None,
    }
}

/// `plain_value` where it fits in a `u64`.
pub open spec fn plain_value_u64(m: Seq<char>) -> Option<u64> {
    match plain_value(m) {
        Some(v) => if v <= u64::MAX {
            Some(v as u64)
        } else {
            None
        },
        None => None,
    }
}

/// `n` zeros.
pub open spec fn zeros(n: nat) -> Seq<char> {
    Seq::new(n, |i: int| '0')
}

/// The integer and fraction digits of the number whose digits are
/// `digits`, with the point after the first `point` of them; a point
/// before the first digit or after the last pads with zeros.
pub open spec fn split_at_point(digits: Seq<char>, point: int) -> (Seq<char>, Seq<char>) {
    if point <= 0 {
        (Seq::empty(), zeros((-point) as nat) + digits)
    } else if point <= digits.len() {
        (digits.take(point), digits.skip(point))
    } else {
        (digits + zeros((point - digits.len()) as nat), Seq::empty())
    }
}

/// Position of the exponent mark (`e` or `E`), or the text's length.
pub open spec fn exp_index(t: Seq<char>) -> int {
    let a = index_of(t, 'e');
    let b = index_of(t, 'E');
    if a <= b {
        a
    } else {
        b
    }
}

/// The value of an exponent: an optional `+` or `-`, then digits.
pub open spec fn exponent_value(x: Seq<char>) -> Option<int> {
    let neg = x.len() > 0 && x[0] == '-';
    let d = if x.len() > 0 && (x[0] == '-' || x[0] == '+') {
        x.drop_first()
    } else {
        x
    };
    if d.len() > 0 && all_digits(d) {
        Some(
            if neg {
                -digits_value(d)
            } else {
                digits_value(d) as int
            },
        )
    } else {
        None
    }
}

/// The value, in thousandths rounded half up, of a decimal number written
/// as an optional `+`, a plain decimal number (see `plain_parts`, any
/// number of fraction digits), and an optional exponent (`e` or `E`, an
/// optional sign, digits): `16.37`, `+52`, `.5`, `16.3745`, `1.5e3`,
/// `25E-1`. Anything else (a `-` before the number, an empty text, `inf`,
/// `NaN`) has no value.
pub open spec fn milli_value(s: Seq<char>) -> Option<nat> {
    let t = unsigned_text(s);
    let ei = exp_index(t);
    let e = if ei < t.len() {
        exponent_value(t.skip(ei + 1))
    } else {
        Some(0int)
    };
    match (plain_parts(t.take(ei)), e) {
        (Some((int_part, frac)), Some(e)) => {
            let (i2, f2) = split_at_point(int_part + frac, int_part.len() + e);
            Some(digits_value(i2) * 1000 + frac_milli(f2))
        },
        _ => None,
    }
}

/// `milli_value` where it fits in a `u64`.
pub open spec fn milli_value_u64(s: Seq<char>) -> Option<u64> {
    match milli_value(s) {
        Some(v) => if v <= u64::MAX {
            Some(v as u64)
        } else {
            None
        },
        None => None,
    }
}

pub open spec fn digit_char(d: nat) -> char {
    if d == 0 {
        '0'
    } else if d == 1 {
        '1'
    } else if d == 2 {
        '2'
    } else if d == 3 {
        '3'
    } else if d == 4 {
        '4'
    } else if d == 5 {
        '5'
    } else if d == 6 {
        '6'
    } else if d == 7 {
        '7'
    } else if d == 8 {
        '8'
    } else {
        '9'
    }
}

/// The decimal writing of `n`, without leading zeros.
pub open spec fn decimal_digits(n: nat) -> Seq<char>
    decreases n,
{
    if n < 10 {
        seq![digit_char(n)]
    } else {
        decimal_digits(n / 10).push(digit_char(n % 10))
    }
}

/// The decimal writing of a signed integer.
pub open spec fn int_text(n: int) -> Seq<char> {
    if n < 0 {
        seq!['-'] + decimal_digits((-n) as nat)
    } else {
        decimal_digits(n as nat)
    }
}

/// `n` with exactly `width` digits, padded with leading zeros
/// (`n < pow10(width)`).
pub open spec fn padded_digits(n: nat, width: nat) -> Seq<char>
    decreases width,
{
    if width == 0 {
        seq![]
    } else {
        padded_digits(n / 10, (width - 1) as nat).push(digit_char(n % 10))
    }
}

pub proof fn lemma_index_of(s: Seq<char>, c: char)
    ensures
        0 <= index_of(s, c) <= s.len(),
        forall|j: int| 0 <= j < index_of(s, c) ==> s[j] != c,
        index_of(s, c) < s.len() ==> s[index_of(s, c)] == c,
    decreases s.len(),
{
    if s.len() > 0 && s[0] != c {
        lemma_index_of(s.drop_first(), c);
        assert forall|j: int| 0 <= j < index_of(s, c) implies s[j] != c by {
            if j > 0 {
                assert(s[j] == s.drop_first()[j - 1]);
            }
        }
    }
}

/// The characterisation of `index_of` pins it down.
pub proof fn lemma_index_of_unique(s: Seq<char>, c: char, i: int)
    requires
        0 <= i <= s.len(),
        forall|j: int| 0 <= j < i ==> s[j] != c,
        i < s.len() ==> s[i] == c,
    ensures
        index_of(s, c) == i,
{
    lemma_index_of(s, c);
    let k = index_of(s, c);
    if k < i {
        assert(s[k] != c);
    }
    if i < k {
        assert(s[i] != c);
    }
}

pub proof fn lemma_digits_value_prefix(s: Seq<char>, i: int)
    requires
        0 <= i <= s.len(),
    ensures
        digits_value(s.take(i)) <= digits_value(s),
    decreases s.len(),
{
    if i < s.len() {
        assert(s.drop_last().take(i) =~= s.take(i));
        lemma_digits_value_prefix(s.drop_last(), i);
    } else {
        assert(s.take(i) =~= s);
    }
}

pub proof fn lemma_pow10_pos(n: nat)
    ensures
        pow10(n) >= 1,
    decreases n,
{
    if n > 0 {
        lemma_pow10_pos((n - 1) as nat);
    }
}

/// Reads the characters `[from, to)` of `s` as decimal digits; `None` when
/// one of them is not a digit or the value does not fit in a `u64`.
fn digits_in(s: &str, from: usize, to: usize) -> (r: Option<u64>)
    requires
        from <= to <= s@.len(),
    ensures
        all_digits(s@.subrange(from as int, to as int)) && digits_value(
            s@.subrange(from as int, to as int),
        ) <= u64::MAX ==> r == Some(digits_value(s@.subrange(from as int, to as int)) as u64),
        !all_digits(s@.subrange(from as int, to as int)) ==> r is None,
        r matches Some(v) ==> v == digits_value(s@.subrange(from as int, to as int)),
{
    let ghost t = s@.subrange(from as int, to as int);
    let mut value: u64 = 0;
    let mut i: usize = from;
    while i < to
        invariant
            from <= i <= to <= s@.len(),
            t == s@.subrange(from as int, to as int),
            all_digits(t.take(i - from)),
            value == digits_value(t.take(i - from)),
        decreases to - i,
    {
        let c = s.get_char(i);
        if !('0' <= c && c <= '9') {
            assert(t[i - from] == c);
            return None;
        }
        let d = (c as u32 - '0' as u32) as u64;
        assert(t.take(i + 1 - from).drop_last() =~= t.take(i - from));
        assert(t.take(i + 1 - from).last() == c);
        match value.checked_mul(10) {
            Some(v10) => match v10.checked_add(d) {
                Some(v) => {
                    value = v;
                },
                None => {
                    proof {
                        if all_digits(t) {
                            lemma_digits_value_prefix(t, i + 1 - from);
                        }
                    }
                    return None;
                },
            },
            None => {
                proof {
                    if all_digits(t) {
                        lemma_digits_value_prefix(t, i + 1 - from);
                    }
                }
                return None;
            },
        }
        i = i + 1;
    }
    assert(t.take(i - from) =~= t);
    Some(value)
}

/// Position of the first `c` in `s` at or after `from`, or `s.len()`.
pub fn find_char(s: &str, c: char, from: usize) -> (r: usize)
    requires
        from <= s@.len(),
    ensures
        r == from + index_of(s@.skip(from as int), c),
{
    let n = s.unicode_len();
    let mut i: usize = from;
    while i < n
        invariant
            from <= i <= n == s@.len(),
            forall|j: int| from <= j < i ==> s@[j] != c,
        ensures
            from <= i <= n,
            forall|j: int| from <= j < i ==> s@[j] != c,
            i < n ==> s@[i as int] == c,
        decreases n - i,
    {
        if s.get_char(i) == c {
            break;
        }
        i = i + 1;
    }
    proof {
        let t = s@.skip(from as int);
        assert forall|j: int| 0 <= j < i - from implies t[j] != c by {
            assert(t[j] == s@[j + from]);
        }
        if i < n {
            assert(t[i - from] == s@[i as int]);
        }
        lemma_index_of_unique(t, c, i - from);
    }
    i
}

pub proof fn lemma_digits_value_bound(s: Seq<char>)
    requires
        all_digits(s),
    ensures
        digits_value(s) < pow10(s.len()),
    decreases s.len(),
{
    if s.len() > 0 {
        let t = s.drop_last();
        assert(all_digits(t)) by {
            assert forall|i: int| 0 <= i < t.len() implies is_digit(#[trigger] t[i]) by {
                assert(t[i] == s[i]);
            }
        }
        lemma_digits_value_bound(t);
        assert(is_digit(s[s.len() - 1]));
    }
}

/// Whether the characters `[from, to)` of `s` are all decimal digits.
fn all_digits_in(s: &str, from: usize, to: usize) -> (r: bool)
    requires
        from <= to <= s@.len(),
    ensures
        r == all_digits(s@.subrange(from as int, to as int)),
{
    let ghost t = s@.subrange(from as int, to as int);
    let mut i: usize = from;
    while i < to
        invariant
            from <= i <= to <= s@.len(),
            t == s@.subrange(from as int, to as int),
            forall|j: int| 0 <= j < i - from ==> is_digit(#[trigger] t[j]),
        decreases to - i,
    {
        let c = s.get_char(i);
        if !('0' <= c && c <= '9') {
            assert(t[i - from] == c);
            return false;
        }
        assert(t[i - from] == c);
        i = i + 1;
    }
    true
}

/// `frac_milli` of the characters of `s` from `fstart` on, all digits.
fn frac_part_milli(s: &str, fstart: usize) -> (r: u64)
    requires
        fstart <= s@.len(),
        all_digits(s@.subrange(fstart as int, s@.len() as int)),
    ensures
        r == frac_milli(s@.subrange(fstart as int, s@.len() as int)),
        r <= 1000,
{
    let n = s.unicode_len();
    let ghost frac = s@.subrange(fstart as int, n as int);
    let flen = n - fstart;
    if flen <= 3 {
        let scale: u64 = if flen == 0 {
            1000
        } else if flen == 1 {
            100
        } else if flen == 2 {
            10
        } else {
            1
        };
        assert(scale == pow10((3 - flen) as nat)) by {
            reveal_with_fuel(pow10, 4);
        }
        proof {
            lemma_digits_value_bound(frac);
            reveal_with_fuel(pow10, 4);
        }
        let b = match digits_in(s, fstart, n) {
            Some(b) => b,
            None => {
                return 0;
            },
        };
        assert(b * scale <= 1000) by (nonlinear_arith)
            requires
                b < pow10(flen as nat),
                scale == pow10((3 - flen) as nat),
                flen <= 3,
                pow10(0) == 1,
                pow10(1) == 10,
                pow10(2) == 100,
                pow10(3) == 1000,
        ;
        b * scale
    } else {
        let ghost first = frac.take(3);
        assert(first =~= s@.subrange(fstart as int, fstart + 3));
        assert(all_digits(first)) by {
            assert forall|i: int| 0 <= i < first.len() implies is_digit(#[trigger] first[i]) by {
                assert(first[i] == frac[i]);
            }
        }
        proof {
            lemma_digits_value_bound(first);
            reveal_with_fuel(pow10, 4);
        }
        let b = match digits_in(s, fstart, fstart + 3) {
            Some(b) => b,
            None => {
                return 0;
            },
        };
        let d4 = s.get_char(fstart + 3);
        assert(d4 == frac[3]);
        if d4 >= '5' {
            b + 1
        } else {
            b
        }
    }
}

/// Parses a plain decimal number into thousandths (see `plain_value`).
fn parse_plain(s: &str) -> (r: Option<u64>)
    ensures
        r == plain_value_u64(s@),
{
    let n = s.unicode_len();
    let start: usize = 0;
    let ghost t = s@;
    assert(t =~= s@.skip(start as int));
    let k = find_char(s, '.', start);
    proof {
        lemma_index_of(t, '.');
    }
    let fstart: usize = if k < n {
        k + 1
    } else {
        n
    };
    let ghost int_part = t.take(k - start);
    let ghost frac = if k - start < t.len() {
        t.skip(k - start + 1)
    } else {
        Seq::<char>::empty()
    };
    assert(int_part =~= s@.subrange(start as int, k as int));
    assert(frac =~= s@.subrange(fstart as int, n as int));
    let flen = n - fstart;
    if (k - start) + flen == 0 {
        return None;
    }
    if !all_digits_in(s, start, k) || !all_digits_in(s, fstart, n) {
        return None;
    }
    let ip = digits_in(s, start, k);
    let a = match ip {
        Some(a) => a,
        None => {
            return None;
        },
    };
    let fm = frac_part_milli(s, fstart);
    assert(fm == frac_milli(frac));
    match a.checked_mul(1000) {
        Some(a1000) => match a1000.checked_add(fm) {
            Some(v) => Some(v),
            None => None,
        },
        None => None,
    }
}

pub proof fn lemma_digits_value_concat(a: Seq<char>, b: Seq<char>)
    ensures
        digits_value(a + b) == digits_value(a) * pow10(b.len()) + digits_value(b),
    decreases b.len(),
{
    if b.len() == 0 {
        assert(a + b =~= a);
    } else {
        let b1 = b.drop_last();
        assert((a + b).drop_last() =~= a + b1);
        assert((a + b).last() == b.last());
        lemma_digits_value_concat(a, b1);
        let x = digits_value(a);
        let y = pow10(b1.len());
        let z = digits_value(b1);
        let d = digit_value(b.last());
        assert(digits_value(a + b) == digits_value(a + b1) * 10 + d);
        assert(digits_value(b) == z * 10 + d);
        assert(pow10(b.len()) == 10 * y);
        assert((x * y + z) * 10 == x * (10 * y) + z * 10) by (nonlinear_arith);
    }
}

pub proof fn lemma_zeros(n: nat)
    ensures
        all_digits(zeros(n)),
        digits_value(zeros(n)) == 0,
    decreases n,
{
    if n > 0 {
        lemma_zeros((n - 1) as nat);
        assert(zeros(n).drop_last() =~= zeros((n - 1) as nat));
    }
}

pub proof fn lemma_pow10_monotone(a: nat, b: nat)
    requires
        a <= b,
    ensures
        pow10(a) <= pow10(b),
    decreases b,
{
    if a < b {
        lemma_pow10_monotone(a, (b - 1) as nat);
    }
}

/// A digit string with a digit other than `0` has a value of at least 1.
pub proof fn lemma_digits_value_nonzero(s: Seq<char>, i: int)
    requires
        all_digits(s),
        0 <= i < s.len(),
        s[i] != '0',
    ensures
        digits_value(s) >= 1,
    decreases s.len(),
{
    if i < s.len() - 1 {
        let t = s.drop_last();
        assert(all_digits(t)) by {
            assert forall|j: int| 0 <= j < t.len() implies is_digit(#[trigger] t[j]) by {
                assert(t[j] == s[j]);
            }
        }
        assert(t[i] == s[i]);
        lemma_digits_value_nonzero(t, i);
    } else {
        assert(is_digit(s[i]));
    }
}

/// A digit string of zeros only has the value 0.
pub proof fn lemma_digits_value_zero(s: Seq<char>)
    requires
        forall|j: int| 0 <= j < s.len() ==> s[j] == '0',
    ensures
        digits_value(s) == 0,
{
    assert(s =~= zeros(s.len()));
    lemma_zeros(s.len());
}

/// The plain value of `i + "." + f`, for digit strings `i` and `f`.
pub proof fn lemma_plain_value_of(i: Seq<char>, f: Seq<char>)
    requires
        all_digits(i),
        all_digits(f),
        i.len() + f.len() > 0,
    ensures
        plain_value(i + seq!['.'] + f) == Some(digits_value(i) * 1000 + frac_milli(f)),
{
    let m = i + seq!['.'] + f;
    assert forall|j: int| 0 <= j < i.len() implies m[j] != '.' by {
        assert(m[j] == i[j]);
        assert(is_digit(i[j]));
    }
    assert(m[i.len() as int] == '.');
    lemma_index_of_unique(m, '.', i.len() as int);
    assert(m.take(i.len() as int) =~= i);
    assert(m.skip(i.len() as int + 1) =~= f);
}

/// Reads the characters `[from, to)` of `s` as decimal digits into a
/// `u128`; `None` when one of them is not a digit or the value does not
/// fit.
fn digits_in_wide(s: &str, from: usize, to: usize) -> (r: Option<u128>)
    requires
        from <= to <= s@.len(),
    ensures
        all_digits(s@.subrange(from as int, to as int)) && digits_value(
            s@.subrange(from as int, to as int),
        ) <= u128::MAX ==> r == Some(digits_value(s@.subrange(from as int, to as int)) as u128),
        !all_digits(s@.subrange(from as int, to as int)) ==> r is None,
        r matches Some(v) ==> v == digits_value(s@.subrange(from as int, to as int)),
{
    let ghost t = s@.subrange(from as int, to as int);
    let mut value: u128 = 0;
    let mut i: usize = from;
    while i < to
        invariant
            from <= i <= to <= s@.len(),
            t == s@.subrange(from as int, to as int),
            all_digits(t.take(i - from)),
            value == digits_value(t.take(i - from)),
        decreases to - i,
    {
        let c = s.get_char(i);
        if !('0' <= c && c <= '9') {
            assert(t[i - from] == c);
            return None;
        }
        let d = (c as u32 - '0' as u32) as u128;
        assert(t.take(i + 1 - from).drop_last() =~= t.take(i - from));
        assert(t.take(i + 1 - from).last() == c);
        match value.checked_mul(10) {
            Some(v10) => match v10.checked_add(d) {
                Some(v) => {
                    value = v;
                },
                None => {
                    proof {
                        if all_digits(t) {
                            lemma_digits_value_prefix(t, i + 1 - from);
                        }
                    }
                    return None;
                },
            },
            None => {
                proof {
                    if all_digits(t) {
                        lemma_digits_value_prefix(t, i + 1 - from);
                    }
                }
                return None;
            },
        }
        i = i + 1;
    }
    assert(t.take(i - from) =~= t);
    Some(value)
}

/// Appends `k` zeros.
fn push_zeros(s: &mut String, k: usize)
    ensures
        final(s)@ == old(s)@ + zeros(k as nat),
{
    let mut i: usize = 0;
    while i < k
        invariant
            i <= k,
            s@ == old(s)@ + zeros(i as nat),
        decreases k - i,
    {
        proof {
            reveal_strlit("0");
        }
        s.append("0");
        assert(s@ =~= old(s)@ + zeros((i + 1) as nat));
        i = i + 1;
    }
}

/// Whether the text holds only `0` characters.
fn all_zero(s: &str) -> (r: bool)
    ensures
        r == (forall|j: int| 0 <= j < s@.len() ==> s@[j] == '0'),
{
    let n = s.unicode_len();
    let mut i: usize = 0;
    while i < n
        invariant
            i <= n == s@.len(),
            forall|j: int| 0 <= j < i ==> s@[j] == '0',
        decreases n - i,
    {
        if s.get_char(i) != '0' {
            return false;
        }
        i = i + 1;
    }
    true
}

/// The value in thousandths of the digits `dg` with the point after the
/// first `point` of them (see `split_at_point`).
pub open spec fn shifted_milli(dg: Seq<char>, point: int) -> nat {
    digits_value(split_at_point(dg, point).0) * 1000 + frac_milli(split_at_point(dg, point).1)
}

/// An exponent `e` given by its sign and its magnitude (`None` when beyond
/// a `u128`).
pub open spec fn exponent_parts(e: int, neg: bool, mag: Option<u128>) -> bool {
    match mag {
        Some(v) => e == (if neg {
            -v
        } else {
            v as int
        }),
        None => if neg {
            e < -u128::MAX
        } else {
            e > u128::MAX
        },
    }
}

/// Reads the exponent after the mark at `ei` (none when `ei` is the end):
/// its sign and magnitude; `None` when it does not read.
fn exponent_part(s: &str, ei: usize) -> (r: Option<(bool, Option<u128>)>)
    requires
        ei <= s@.len(),
    ensures
        ei == s@.len() ==> r == Some((false, Some(0u128))),
        ei < s@.len() ==> match r {
            None => exponent_value(s@.skip(ei + 1)) is None,
            Some((neg, mag)) => exponent_value(s@.skip(ei + 1)) matches Some(e) && exponent_parts(
                e,
                neg,
                mag,
            ),
        },
{
    let n = s.unicode_len();
    if ei == n {
        return Some((false, Some(0)));
    }
    let x = s.substring_char(ei + 1, n);
    assert(x@ =~= s@.skip(ei + 1));
    let xn = x.unicode_len();
    let dstart: usize = if xn > 0 && (x.get_char(0) == '-' || x.get_char(0) == '+') {
        1
    } else {
        0
    };
    let neg = xn > 0 && x.get_char(0) == '-';
    let ghost d = x@.subrange(dstart as int, xn as int);
    assert(d =~= (if x@.len() > 0 && (x@[0] == '-' || x@[0] == '+') {
        x@.drop_first()
    } else {
        x@
    }));
    if dstart == xn || !all_digits_in(x, dstart, xn) {
        return None;
    }
    let mag = digits_in_wide(x, dstart, xn);
    Some((neg, mag))
}

/// The value in thousandths of the digits `dg` with the point moved from
/// after the first `ilen` of them by the exponent `e`, where it fits in a
/// `u64`.
fn shifted_value(dg: &str, ilen: usize, neg: bool, mag: Option<u128>, Ghost(e): Ghost<int>) -> (r: Option<u64>)
    requires
        all_digits(dg@),
        ilen <= dg@.len(),
        dg@.len() > 0,
        exponent_parts(e, neg, mag),
    ensures
        r == (if shifted_milli(dg@, ilen + e) <= u64::MAX {
            Some(shifted_milli(dg@, ilen + e) as u64)
        } else {
            None
        }),
{
    let total = dg.unicode_len();
    let flen = total - ilen;
    let ghost point = ilen + e;
    // More than three zeros between the point and the first digit.
    let far_left = match mag {
        Some(v) => neg && v > ilen as u128 + 3,
        None => neg,
    };
    if far_left {
        proof {
            let z = (-point) as nat;
            let f2 = zeros(z) + dg@;
            assert(f2.take(3) =~= zeros(3));
            lemma_zeros(3);
            assert(f2[3] == '0');
            assert(point < -3);
            assert(split_at_point(dg@, point) == (Seq::<char>::empty(), f2));
            assert(digits_value(Seq::<char>::empty()) == 0);
            assert(frac_milli(f2) == 0);
            assert(shifted_milli(dg@, point) == 0);
        }
        return Some(0);
    }
    // At least 20 zeros after the last digit: no value fits unless every
    // digit is 0.
    let far_right = match mag {
        Some(v) => !neg && v >= flen as u128 + 20,
        None => !neg,
    };
    if far_right {
        let zero = all_zero(dg);
        proof {
            assert(point - dg@.len() >= 20);
            let z = (point - dg@.len()) as nat;
            let i2 = dg@ + zeros(z);
            assert(split_at_point(dg@, point) == (i2, Seq::<char>::empty()));
            lemma_digits_value_concat(dg@, zeros(z));
            lemma_zeros(z);
            reveal_with_fuel(pow10, 4);
            assert(digits_value(Seq::<char>::empty()) == 0);
            assert(frac_milli(Seq::<char>::empty()) == 0);
            assert(shifted_milli(dg@, point) == digits_value(i2) * 1000);
            if zero {
                lemma_digits_value_zero(dg@);
                assert(digits_value(dg@) * pow10(z) == 0) by (nonlinear_arith)
                    requires
                        digits_value(dg@) == 0,
                ;
                assert(shifted_milli(dg@, point) == 0);
            } else {
                let j = choose|j: int| 0 <= j < dg@.len() && dg@[j] != '0';
                lemma_digits_value_nonzero(dg@, j);
                lemma_pow10_monotone(20, z);
                reveal_with_fuel(pow10, 21);
                assert(pow10(20) == 100_000_000_000_000_000_000);
                assert(digits_value(dg@) * pow10(z) * 1000 >= pow10(z)) by (nonlinear_arith)
                    requires
                        digits_value(dg@) >= 1,
                        pow10(z) >= 0,
                ;
                assert(digits_value(i2) == digits_value(dg@) * pow10(z));
                assert(shifted_milli(dg@, point) > u64::MAX);
            }
        }
        if zero {
            assert(shifted_milli(dg@, point) == 0);
            return Some(0);
        } else {
            assert(shifted_milli(dg@, point) > u64::MAX);
            return None;
        }
    }
    let v = match mag {
        Some(v) => v,
        None => {
            return None;
        },
    };
    let p: i128 = if neg {
        ilen as i128 - v as i128
    } else {
        ilen as i128 + v as i128
    };
    assert(p == point);
    let r = write_out(dg, p);
    assert(p as int == ilen + e);
    r
}

/// The value in thousandths of the digits `dg` with the point after the
/// first `p` of them, written out as a plain number and read.
fn write_out(dg: &str, p: i128) -> (r: Option<u64>)
    requires
        all_digits(dg@),
        dg@.len() > 0,
        -3 <= p <= dg@.len() + 19,
    ensures
        r == (if shifted_milli(dg@, p as int) <= u64::MAX {
            Some(shifted_milli(dg@, p as int) as u64)
        } else {
            None
        }),
{
    let total = dg.unicode_len();
    let ghost point = p as int;
    let ghost i2 = split_at_point(dg@, point).0;
    let ghost f2 = split_at_point(dg@, point).1;
    let mut text = String::new();
    proof {
        reveal_strlit(".");
    }
    if p <= 0 {
        text.append(".");
        push_zeros(&mut text, (-p) as usize);
        text.append(dg);
        assert(text@ =~= i2 + seq!['.'] + f2);
    } else if p <= total as i128 {
        let pu = p as usize;
        text.append(dg.substring_char(0, pu));
        text.append(".");
        text.append(dg.substring_char(pu, total));
        assert(text@ =~= i2 + seq!['.'] + f2);
    } else {
        text.append(dg);
        push_zeros(&mut text, (p - total as i128) as usize);
        text.append(".");
        assert(text@ =~= i2 + seq!['.'] + f2);
    }
    proof {
        let z: nat = (if point <= 0 {
            -point
        } else if point > dg@.len() {
            point - dg@.len()
        } else {
            0
        }) as nat;
        lemma_zeros(z);
        assert(all_digits(i2)) by {
            assert forall|j: int| 0 <= j < i2.len() implies is_digit(#[trigger] i2[j]) by {
                if point > dg@.len() && j >= dg@.len() {
                    assert(i2[j] == zeros(z)[j - dg@.len()]);
                } else {
                    assert(i2[j] == dg@[j]);
                }
            }
        }
        assert(all_digits(f2)) by {
            assert forall|j: int| 0 <= j < f2.len() implies is_digit(#[trigger] f2[j]) by {
                if point <= 0 {
                    if j < -point {
                        assert(f2[j] == zeros(z)[j]);
                    } else {
                        assert(f2[j] == dg@[j + point]);
                    }
                } else {
                    assert(f2[j] == dg@[j + point]);
                }
            }
        }
        lemma_plain_value_of(i2, f2);
    }
    parse_plain(text.as_str())
}

/// The digits of a plain decimal number (see `plain_parts`), integer part
/// then fraction, and the length of the integer part.
fn plain_digits(m: &str) -> (r: Option<(String, usize)>)
    ensures
        match r {
            None => plain_parts(m@) is None,
            Some((d, k)) => plain_parts(m@) matches Some((ip, fp)) && d@ == ip + fp && k == ip.len()
                && all_digits(d@) && d@.len() > 0,
        },
{
    let mn = m.unicode_len();
    let k = find_char(m, '.', 0);
    assert(m@.skip(0) =~= m@);
    proof {
        lemma_index_of(m@, '.');
    }
    let fstart: usize = if k < mn {
        k + 1
    } else {
        mn
    };
    let ghost int_part = m@.take(k as int);
    let ghost frac = if k < mn {
        m@.skip(k + 1)
    } else {
        Seq::<char>::empty()
    };
    assert(int_part =~= m@.subrange(0, k as int));
    assert(frac =~= m@.subrange(fstart as int, mn as int));
    if k + (mn - fstart) == 0 || !all_digits_in(m, 0, k) || !all_digits_in(m, fstart, mn) {
        return None;
    }
    assert(plain_parts(m@) == Some((int_part, frac)));
    let mut digits = String::new();
    digits.append(m.substring_char(0, k));
    digits.append(m.substring_char(fstart, mn));
    let ghost dg = int_part + frac;
    assert(digits@ =~= dg);
    assert(all_digits(dg)) by {
        assert forall|j: int| 0 <= j < dg.len() implies is_digit(#[trigger] dg[j]) by {
            if j < int_part.len() {
                assert(dg[j] == int_part[j]);
            } else {
                assert(dg[j] == frac[j - int_part.len()]);
            }
        }
    }
    Some((digits, k))
}

/// Parses a decimal number into thousandths (see `milli_value`).
pub fn parse_milli(s: &str) -> (r: Option<u64>)
    ensures
        r == milli_value_u64(s@),
{
    let n = s.unicode_len();
    let start: usize = if n > 0 && s.get_char(0) == '+' {
        1
    } else {
        0
    };
    let ghost t = unsigned_text(s@);
    assert(t =~= s@.skip(start as int));
    let ke = find_char(s, 'e', start);
    let kbig = find_char(s, 'E', start);
    let ei = if ke <= kbig {
        ke
    } else {
        kbig
    };
    proof {
        lemma_index_of(t, 'e');
        lemma_index_of(t, 'E');
    }
    assert(ei - start == exp_index(t));
    assert(ei < n ==> s@.skip(ei + 1) =~= t.skip(ei - start + 1));
    let (neg, mag) = match exponent_part(s, ei) {
        Some(x) => x,
        None => {
            return None;
        },
    };
    let ghost e: int = if ei < n {
        exponent_value(t.skip(ei - start + 1))->Some_0
    } else {
        0
    };
    assert(exponent_parts(e, neg, mag));
    let m = s.substring_char(start, ei);
    let ghost mm = t.take(ei - start);
    assert(m@ =~= mm);
    let (digits, k) = match plain_digits(m) {
        Some(x) => x,
        None => {
            return None;
        },
    };
    let ghost int_part = plain_parts(mm)->Some_0.0;
    let ghost frac = plain_parts(mm)->Some_0.1;
    let ghost dg = int_part + frac;
    assert(milli_value(s@) == Some(shifted_milli(dg, int_part.len() + e))) by {
        assert(t.take(exp_index(t)) == mm);
    }
    shifted_value(digits.as_str(), k, neg, mag, Ghost(e))
}

fn digit_str(d: u64) -> (r: &'static str)
    requires
        d < 10,
    ensures
        r@ == seq![digit_char(d as nat)],
{
    if d == 0 {
        proof {
            reveal_strlit("0");
        }
        "0"
    } else if d == 1 {
        proof {
            reveal_strlit("1");
        }
        "1"
    } else if d == 2 {
        proof {
            reveal_strlit("2");
        }
        "2"
    } else if d == 3 {
        proof {
            reveal_strlit("3");
        }
        "3"
    } else if d == 4 {
        proof {
            reveal_strlit("4");
        }
        "4"
    } else if d == 5 {
        proof {
            reveal_strlit("5");
        }
        "5"
    } else if d == 6 {
        proof {
            reveal_strlit("6");
        }
        "6"
    } else if d == 7 {
        proof {
            reveal_strlit("7");
        }
        "7"
    } else if d == 8 {
        proof {
            reveal_strlit("8");
        }
        "8"
    } else {
        proof {
            reveal_strlit("9");
        }
        "9"
    }
}

/// Appends the decimal writing of `n`.
pub fn push_decimal(s: &mut String, n: u128)
    ensures
        final(s)@ == old(s)@ + decimal_digits(n as nat),
    decreases n,
{
    if n >= 10 {
        push_decimal(s, n / 10);
    }
    s.append(digit_str((n % 10) as u64));
}

/// Appends `n` with exactly `width` digits.
pub fn push_padded(s: &mut String, n: u64, width: u64)
    ensures
        final(s)@ == old(s)@ + padded_digits(n as nat, width as nat),
    decreases width,
{
    if width > 0 {
        push_padded(s, n / 10, width - 1);
        s.append(digit_str(n % 10));
    }
}

/// Appends the decimal writing of a signed integer.
pub fn push_int(s: &mut String, n: i64)
    ensures
        final(s)@ == old(s)@ + int_text(n as int),
{
    if n < 0 {
        proof {
            reveal_strlit("-");
        }
        s.append("-");
        let m: u64 = if n == i64::MIN {
            9223372036854775808u64
        } else {
            (-n) as u64
        };
        push_decimal(s, m as u128);
    } else {
        push_decimal(s, n as u128);
    }
}

pub fn string_from(s: &str) -> (r: String)
    ensures
        r@ == s@,
{
    String::from_str(s)
}

} // verus!
