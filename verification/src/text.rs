//! Plain-text helpers shared by the whole crate: character folding,
//! case-insensitive comparison and search, decimal formatting and parsing,
//! identifier shape checks, and display truncation.

use vstd::prelude::*;

verus! {

use vstd::string::StringSliceAdditionalSpecFns;
use vstd::string::StrSliceExecFns;
use vstd::string::StringExecFns;

/// Numeric code of `c`, with ASCII uppercase letters folded to lowercase.
pub open spec fn lower_code(c: char) -> u32 {
    if 65 <= c as u32 && c as u32 <= 90 {
        (c as u32 + 32) as u32
    } else {
        c as u32
    }
}

/// Two character sequences are equal up to ASCII case.
pub open spec fn seq_ieq(a: Seq<char>, b: Seq<char>) -> bool {
    a.len() == b.len() && forall|i: int| 0 <= i < a.len() ==> lower_code(a[i]) == lower_code(b[i])
}

/// `n` occurs in `h` at position `at`, up to ASCII case.
pub open spec fn matches_ic_at(h: Seq<char>, n: Seq<char>, at: int) -> bool {
    forall|j: int| 0 <= j < n.len() ==> lower_code(h[at + j]) == lower_code(n[j])
}

/// `n` occurs somewhere in `h`, up to ASCII case.
pub open spec fn contains_ic(h: Seq<char>, n: Seq<char>) -> bool {
    exists|i: int| 0 <= i && i + n.len() <= h.len() && matches_ic_at(h, n, i)
}

fn lower_code_exec(c: char) -> (r: u32)
    ensures
        r == lower_code(c),
{
    let n = c as u32;
    if 65 <= n && n <= 90 {
        n + 32
    } else {
        n
    }
}

/// The characters of `s`, in order, as a vector.
pub fn chars_vec(s: &str) -> (r: Vec<char>)
    ensures
        r@ == s@,
{
    let n = s.unicode_len();
    let mut r: Vec<char> = Vec::new();
    let mut i: usize = 0;
    while i < n
        invariant
            n == s@.len(),
            i <= n,
            r@ == s@.take(i as int),
        decreases n - i,
    {
        r.push(s.get_char(i));
        proof {
            assert(r@ =~= s@.take(i + 1));
        }
        i = i + 1;
    }
    proof {
        assert(s@.take(n as int) =~= s@);
    }
    r
}

/// Exact equality of two string slices.
pub fn str_eq(a: &str, b: &str) -> (r: bool)
    ensures
        r == (a@ == b@),
{
    let av = chars_vec(a);
    let bv = chars_vec(b);
    if av.len() != bv.len() {
        return false;
    }
    let n = av.len();
    let mut i: usize = 0;
    while i < n
        invariant
            n == av.len() == bv.len(),
            av@ == a@,
            bv@ == b@,
            i <= n,
            forall|k: int| 0 <= k < i ==> a@[k] == b@[k],
        decreases n - i,
    {
        if av[i] != bv[i] {
            return false;
        }
        i = i + 1;
    }
    proof {
        assert(a@ =~= b@);
    }
    true
}

/// Equality of two string slices up to ASCII case.
pub fn str_ieq(a: &str, b: &str) -> (r: bool)
    ensures
        r == seq_ieq(a@, b@),
{
    let av = chars_vec(a);
    let bv = chars_vec(b);
    if av.len() != bv.len() {
        return false;
    }
    let n = av.len();
    let mut i: usize = 0;
    while i < n
        invariant
            n == av.len() == bv.len(),
            av@ == a@,
            bv@ == b@,
            i <= n,
            forall|k: int| 0 <= k < i ==> lower_code(a@[k]) == lower_code(b@[k]),
        decreases n - i,
    {
        if lower_code_exec(av[i]) != lower_code_exec(bv[i]) {
            return false;
        }
        i = i + 1;
    }
    true
}

/// Substring search up to ASCII case: does `n` occur anywhere in `h`?
pub fn str_contains_ic(h: &str, n: &str) -> (r: bool)
    ensures
        r == contains_ic(h@, n@),
{
    let hv = chars_vec(h);
    let nv = chars_vec(n);
    if nv.len() > hv.len() {
        proof {
            assert(!contains_ic(h@, n@));
        }
        return false;
    }
    let last = hv.len() - nv.len();
    let mut i: usize = 0;
    loop
        invariant
            hv@ == h@,
            nv@ == n@,
            nv.len() <= hv.len(),
            last == hv.len() - nv.len(),
            i <= last,
            forall|k: int| 0 <= k < i ==> !matches_ic_at(h@, n@, k),
        decreases last - i,
    {
        let mut j: usize = 0;
        let mut hit = true;
        while j < nv.len()
            invariant
                hv@ == h@,
                nv@ == n@,
                i + nv.len() <= hv.len(),
                j <= nv.len(),
                hit ==> forall|k: int| 0 <= k < j ==> lower_code(h@[i + k]) == lower_code(n@[k]),
                !hit ==> !matches_ic_at(h@, n@, i as int),
            decreases nv.len() - j,
        {
            if lower_code_exec(hv[i + j]) != lower_code_exec(nv[j]) {
                hit = false;
                proof {
                    assert(!matches_ic_at(h@, n@, i as int));
                }
                j = nv.len();
            } else {
                j = j + 1;
            }
        }
        if hit {
            proof {
                assert(matches_ic_at(h@, n@, i as int));
            }
            return true;
        }
        if i == last {
            proof {
                assert forall|k: int| 0 <= k && k + n@.len() <= h@.len() implies !matches_ic_at(
                    h@,
                    n@,
                    k,
                ) by {
                    assert(k <= last);
                }
            }
            return false;
        }
        i = i + 1;
    }
}

/// `n` occurs in `h` at position `at`, exactly.
pub open spec fn matches_at(h: Seq<char>, n: Seq<char>, at: int) -> bool {
    forall|j: int| 0 <= j < n.len() ==> h[at + j] == n[j]
}

/// `n` occurs somewhere in `h`, exactly.
pub open spec fn contains_sub(h: Seq<char>, n: Seq<char>) -> bool {
    exists|i: int| 0 <= i && i + n.len() <= h.len() && matches_at(h, n, i)
}

/// Number of occurrences of `c` in `s`.
pub open spec fn count_char(s: Seq<char>, c: char) -> int
    decreases s.len(),
{
    if s.len() == 0 {
        0
    } else {
        count_char(s.drop_last(), c) + if s.last() == c {
            1int
        } else {
            0int
        }
    }
}

/// The canonical-identifier shape: exactly 36 bytes with exactly 4 dashes.
/// Matching the shape is a fast-path short circuit, not a validity guarantee.
pub open spec fn uuid_shape(s: Seq<char>) -> bool {
    vstd::utf8::encode_utf8(s).len() as usize == 36 && count_char(s, '-') == 4
}

/// The shape check, phrased over a string slice.
pub open spec fn is_uuid_spec(s: &str) -> bool {
    uuid_shape(s@)
}

proof fn lemma_count_char_take(s: Seq<char>, c: char, i: int)
    requires
        0 <= i < s.len(),
    ensures
        count_char(s.take(i + 1), c) == count_char(s.take(i), c) + if s[i] == c {
            1int
        } else {
            0int
        },
{
    assert(s.take(i + 1).drop_last() =~= s.take(i));
    assert(s.take(i + 1).last() == s[i]);
}

/// Whether `value` already has the canonical-identifier shape
/// (36 bytes, 4 dash characters).
pub fn is_uuid(value: &str) -> (r: bool)
    ensures
        r == is_uuid_spec(value),
{
    if value.len() != 36 {
        return false;
    }
    let n = value.unicode_len();
    let mut dashes: u64 = 0;
    let mut i: usize = 0;
    while i < n
        invariant
            n == value@.len(),
            i <= n,
            dashes == count_char(value@.take(i as int), '-'),
            dashes <= i,
        decreases n - i,
    {
        let c = value.get_char(i);
        proof {
            lemma_count_char_take(value@, '-', i as int);
        }
        if c == '-' {
            dashes = dashes + 1;
        }
        i = i + 1;
    }
    proof {
        assert(value@.take(n as int) =~= value@);
    }
    dashes == 4
}

/// `value` cut down to at most `max_len` characters; when room allows,
/// the cut is marked with a trailing ellipsis.
pub open spec fn truncate_spec(s: Seq<char>, max_len: Option<usize>) -> Seq<char> {
    match max_len {
        Option::None => s,
        Option::Some(m) => {
            if m == 0 {
                Seq::empty()
            } else if s.len() <= m {
                s
            } else if m <= 3 {
                s.take(m as int)
            } else {
                s.take(m - 3) + "..."@
            }
        },
    }
}

/// Truncate `value` for display to at most `max_len` characters,
/// appending `...` when at least three characters of room remain.
pub fn truncate(value: &str, max_len: Option<usize>) -> (r: String)
    ensures
        r@ == truncate_spec(value@, max_len),
{
    let m = match max_len {
        Option::None => {
            return value.to_owned();
        },
        Option::Some(m) => m,
    };
    if m == 0 {
        return String::new();
    }
    let char_count = value.unicode_len();
    if char_count <= m {
        return value.to_owned();
    }
    if m <= 3 {
        return value.substring_char(0, m).to_owned();
    }
    let mut r = value.substring_char(0, m - 3).to_owned();
    r.append("...");
    r
}

/// The character for one decimal digit.
pub open spec fn digit_char(d: int) -> char {
    if d == 0 {
        '0'
    } else if d == 1 {
        '1'
    } else if d == 2 {
        '2'
    } else if d == 3 {
        '3'
    } else if d == 4 {
        '4'
    } else if d == 5 {
        '5'
    } else if d == 6 {
        '6'
    } else if d == 7 {
        '7'
    } else if d == 8 {
        '8'
    } else {
        '9'
    }
}

/// The decimal rendering of a non-negative number, most significant digit first.
pub open spec fn dec_digits(n: int) -> Seq<char>
    decreases n,
{
    if n < 10 {
        seq![digit_char(n)]
    } else {
        dec_digits(n / 10).push(digit_char(n % 10))
    }
}

fn append_digit(s: &mut String, d: u64)
    requires
        d < 10,
    ensures
        final(s)@ == old(s)@ + seq![digit_char(d as int)],
{
    proof {
        reveal_strlit("0");
        reveal_strlit("1");
        reveal_strlit("2");
        reveal_strlit("3");
        reveal_strlit("4");
        reveal_strlit("5");
        reveal_strlit("6");
        reveal_strlit("7");
        reveal_strlit("8");
        reveal_strlit("9");
    }
    if d == 0 {
        s.append("0");
    } else if d == 1 {
        s.append("1");
    } else if d == 2 {
        s.append("2");
    } else if d == 3 {
        s.append("3");
    } else if d == 4 {
        s.append("4");
    } else if d == 5 {
        s.append("5");
    } else if d == 6 {
        s.append("6");
    } else if d == 7 {
        s.append("7");
    } else if d == 8 {
        s.append("8");
    } else {
        s.append("9");
    }
    proof {
        assert(final(s)@ =~= old(s)@ + seq![digit_char(d as int)]);
    }
}

/// Append the decimal rendering of `n` to `s`.
pub fn append_u64(s: &mut String, n: u64)
    ensures
        final(s)@ == old(s)@ + dec_digits(n as int),
    decreases n,
{
    if n < 10 {
        append_digit(s, n);
    } else {
        append_u64(s, n / 10);
        append_digit(s, n % 10);
        proof {
            assert(final(s)@ =~= old(s)@ + dec_digits(n as int));
        }
    }
}

/// Whether `c` is an ASCII decimal digit.
pub open spec fn is_digit(c: char) -> bool {
    48 <= c as u32 && c as u32 <= 57
}

/// The numeric value of an ASCII digit character.
pub open spec fn digit_val(c: char) -> int {
    c as u32 - 48
}

/// The non-negative number written by a sequence of digit characters.
pub open spec fn digits_value(s: Seq<char>) -> int
    decreases s.len(),
{
    if s.len() == 0 {
        0
    } else {
        digits_value(s.drop_last()) * 10 + digit_val(s.last())
    }
}

/// Whether every character of `s` is an ASCII decimal digit.
pub open spec fn all_digits(s: Seq<char>) -> bool {
    forall|i: int| 0 <= i < s.len() ==> is_digit(s[i])
}

/// What `str::parse::<i64>` accepts: an optional sign followed by at least
/// one digit, with the resulting value within the `i64` range.
pub open spec fn parse_i64_spec(s: Seq<char>) -> Option<i64> {
    let digits = if s.len() > 0 && (s[0] == '+' || s[0] == '-') {
        s.drop_first()
    } else {
        s
    };
    let negative = s.len() > 0 && s[0] == '-';
    if digits.len() == 0 || !all_digits(digits) {
        Option::None
    } else {
        let magnitude = digits_value(digits);
        if negative && -magnitude >= i64::MIN {
            Option::Some((-magnitude) as i64)
        } else if !negative && magnitude <= i64::MAX {
            Option::Some(magnitude as i64)
        } else {
            Option::None
        }
    }
}

/// Parse `s` as a base-10 `i64`, as `str::parse` would.
#[verifier::loop_isolation(false)]
pub fn parse_i64(s: &str) -> (r: Option<i64>)
    ensures
        r == parse_i64_spec(s@),
{
    let chars = chars_vec(s);
    if chars.len() == 0 {
        return Option::None;
    }
    let signed = chars[0] == '+' || chars[0] == '-';
    let negative = chars[0] == '-';
    let start: usize = if signed {
        1
    } else {
        0
    };
    let ghost digits = if signed {
        s@.drop_first()
    } else {
        s@
    };
    proof {
        assert(digits =~= s@.subrange(start as int, s@.len() as int));
    }
    if chars.len() == start {
        return Option::None;
    }
    // Accumulate the magnitude as a non-positive number so that i64::MIN parses.
    let mut acc: i64 = 0;
    let mut i: usize = start;
    while i < chars.len()
        invariant
            chars@ == s@,
            start <= i <= chars.len(),
            digits == s@.subrange(start as int, s@.len() as int),
            all_digits(s@.subrange(start as int, i as int)),
            acc == -digits_value(s@.subrange(start as int, i as int)),
        decreases chars.len() - i,
    {
        let c = chars[i];
        let code = c as u32;
        if code < 48 || code > 57 {
            proof {
                assert(digits[i - start] == s@[i as int]);
                assert(!all_digits(digits));
            }
            return Option::None;
        }
        let d = (code - 48) as i64;
        proof {
            let k = i - start;
            assert(digits.take(k) =~= s@.subrange(start as int, i as int));
            assert(digits.take(k + 1) =~= s@.subrange(start as int, i + 1));
            assert(digits.take(k + 1).drop_last() =~= digits.take(k));
            assert(digits.take(k + 1).last() == s@[i as int]);
        }
        let next = match acc.checked_mul(10) {
            Option::Some(v) => v,
            Option::None => {
                proof {
                    let k = i - start;
                    lemma_digits_value_nonneg(digits.take(k));
                    assert(digits_value(digits.take(k + 1)) > 0x8000_0000_0000_0000);
                    if all_digits(digits) {
                        lemma_parse_overflow(digits, k + 1);
                    }
                }
                return Option::None;
            },
        };
        let next = match next.checked_sub(d) {
            Option::Some(v) => v,
            Option::None => {
                proof {
                    let k = i - start;
                    lemma_digits_value_nonneg(digits.take(k));
                    assert(digits_value(digits.take(k + 1)) > 0x8000_0000_0000_0000);
                    if all_digits(digits) {
                        lemma_parse_overflow(digits, k + 1);
                    }
                }
                return Option::None;
            },
        };
        acc = next;
        i = i + 1;
    }
    proof {
        assert(s@.subrange(start as int, s@.len() as int) =~= s@.subrange(
            start as int,
            i as int,
        ));
    }
    if negative {
        Option::Some(acc)
    } else {
        if acc == i64::MIN {
            proof {
                lemma_digits_value_nonneg(digits);
            }
            Option::None
        } else {
            Option::Some(-acc)
        }
    }
}

/// Powers of ten.
pub open spec fn pow10(n: int) -> int
    decreases n,
{
    if n <= 0 {
        1
    } else {
        10 * pow10(n - 1)
    }
}

/// A digit string writes a number at least as large as any of its prefixes:
/// once a prefix leaves the `i64` range, the whole string is out of it too.
proof fn lemma_digits_prefix_bound(digits: Seq<char>, j: int)
    requires
        0 <= j <= digits.len(),
        all_digits(digits),
    ensures
        digits_value(digits) >= digits_value(digits.take(j)) * pow10(digits.len() - j),
        pow10(digits.len() - j) >= 1,
    decreases digits.len() - j,
{
    lemma_digits_value_nonneg(digits.take(j));
    if j == digits.len() {
        assert(digits.take(j) =~= digits);
    } else {
        lemma_digits_prefix_bound(digits, j + 1);
        assert(digits.take(j + 1).drop_last() =~= digits.take(j));
        assert(digits_value(digits.take(j + 1)) == digits_value(digits.take(j)) * 10 + digit_val(
            digits.take(j + 1).last(),
        ));
        assert(is_digit(digits[j]));
        assert(digits_value(digits.take(j + 1)) >= digits_value(digits.take(j)) * 10);
        let p = pow10(digits.len() - (j + 1));
        assert(pow10(digits.len() - j) == 10 * p);
        assert(digits_value(digits) >= digits_value(digits.take(j + 1)) * p);
        lemma_digits_value_nonneg(digits.take(j + 1));
        assert(digits_value(digits.take(j + 1)) * p >= (digits_value(digits.take(j)) * 10) * p)
            by (nonlinear_arith)
            requires
                p >= 1,
                digits_value(digits.take(j + 1)) >= digits_value(digits.take(j)) * 10,
                digits_value(digits.take(j + 1)) >= 0,
        ;
        assert((digits_value(digits.take(j)) * 10) * p == digits_value(digits.take(j)) * (10 * p))
            by (nonlinear_arith);
    }
}

/// If the first `j` digits already write a number above `i64::MAX` + 1,
/// the whole string parses to nothing.
proof fn lemma_parse_overflow(digits: Seq<char>, j: int)
    requires
        0 <= j <= digits.len(),
        all_digits(digits),
        digits_value(digits.take(j)) > 0x8000_0000_0000_0000,
    ensures
        digits_value(digits) > 0x8000_0000_0000_0000,
{
    lemma_digits_prefix_bound(digits, j);
    let p = pow10(digits.len() - j);
    assert(digits_value(digits.take(j)) * p >= digits_value(digits.take(j)) * 1)
        by (nonlinear_arith)
        requires
            p >= 1,
            digits_value(digits.take(j)) > 0,
    ;
}

pub(crate) proof fn lemma_digits_value_nonneg(s: Seq<char>)
    requires
        all_digits(s),
    ensures
        digits_value(s) >= 0,
    decreases s.len(),
{
    if s.len() > 0 {
        lemma_digits_value_nonneg(s.drop_last());
        assert(digits_value(s.drop_last()) * 10 >= 0) by (nonlinear_arith)
            requires
                digits_value(s.drop_last()) >= 0,
        ;
    }
}

} // verus!
