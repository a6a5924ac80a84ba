use vstd::prelude::*;

verus! {

use vstd::string::StringSliceAdditionalSpecFns;
use vstd::string::StrSliceExecFns;
use vstd::string::StringExecFns;

/// Equality of two string slices, decided on their UTF-8 bytes.
#[verifier::loop_isolation(false)]
pub fn str_eq(a: &str, b: &str) -> (r: bool)
    ensures
        r == (a@ == b@),
{
    broadcast use vstd::utf8::encode_utf8_decode_utf8;

    let ab = a.as_bytes();
    let bb = b.as_bytes();
    if ab.len() != bb.len() {
        return false;
    }
    let mut i: usize = 0;
    while i < ab.len()
        invariant
            i <= ab.len(),
            forall|k: int| 0 <= k < i ==> ab@[k] == bb@[k],
        decreases ab.len() - i,
    {
        if ab[i] != bb[i] {
            return false;
        }
        i += 1;
    }
    proof {
        assert(a.spec_bytes() =~= b.spec_bytes());
        vstd::utf8::encode_utf8_decode_utf8(a@);
        vstd::utf8::encode_utf8_decode_utf8(b@);
    }
    true
}

/// The character for a single decimal digit.
pub open spec fn spec_digit_char(d: int) -> char {
    if d == 0 {
        '0'
    } else if d == 1 {
        '1'
    } else if d == 2 {
        '2'
    } else if d == 3 {
        '3'
    } else if d == 4 {
        '4'
    } else if d == 5 {
        '5'
    } else if d == 6 {
        '6'
    } else if d == 7 {
        '7'
    } else if d == 8 {
        '8'
    } else {
        '9'
    }
}

/// Decimal representation of a natural number, most significant digit first.
pub open spec fn spec_dec_nat(n: nat) -> Seq<char>
    decreases n,
{
    if n < 10 {
        seq![spec_digit_char(n as int)]
    } else {
        spec_dec_nat(n / 10).push(spec_digit_char((n % 10) as int))
    }
}

/// Decimal representation of an integer, with a leading minus sign
/// when it is negative.
pub open spec fn spec_dec_int(n: int) -> Seq<char> {
    if n < 0 {
        seq!['-'] + spec_dec_nat((-n) as nat)
    } else {
        spec_dec_nat(n as nat)
    }
}

/// Appends one decimal digit to a string.
fn append_digit(s: &mut String, d: u64)
    requires
        d < 10,
    ensures
        final(s)@ == old(s)@ + seq![spec_digit_char(d as int)],
{
    match d {
        0 => {
            proof {
                reveal_strlit("0");
            }
            s.append("0");
            proof {
                assert(final(s)@ =~= old(s)@ + seq!['0']);
            }
        },
        1 => {
            proof {
                reveal_strlit("1");
            }
            s.append("1");
            proof {
                assert(final(s)@ =~= old(s)@ + seq!['1']);
            }
        },
        2 => {
            proof {
                reveal_strlit("2");
            }
            s.append("2");
            proof {
                assert(final(s)@ =~= old(s)@ + seq!['2']);
            }
        },
        3 => {
            proof {
                reveal_strlit("3");
            }
            s.append("3");
            proof {
                assert(final(s)@ =~= old(s)@ + seq!['3']);
            }
        },
        4 => {
            proof {
                reveal_strlit("4");
            }
            s.append("4");
            proof {
                assert(final(s)@ =~= old(s)@ + seq!['4']);
            }
        },
        5 => {
            proof {
                reveal_strlit("5");
            }
            s.append("5");
            proof {
                assert(final(s)@ =~= old(s)@ + seq!['5']);
            }
        },
        6 => {
            proof {
                reveal_strlit("6");
            }
            s.append("6");
            proof {
                assert(final(s)@ =~= old(s)@ + seq!['6']);
            }
        },
        7 => {
            proof {
                reveal_strlit("7");
            }
            s.append("7");
            proof {
                assert(final(s)@ =~= old(s)@ + seq!['7']);
            }
        },
        8 => {
            proof {
                reveal_strlit("8");
            }
            s.append("8");
            proof {
                assert(final(s)@ =~= old(s)@ + seq!['8']);
            }
        },
        _ => {
            proof {
                reveal_strlit("9");
            }
            s.append("9");
            proof {
                assert(final(s)@ =~= old(s)@ + seq!['9']);
            }
        },
    }
}

/// Appends the decimal form of `n` to a string.
pub fn append_dec_u64(s: &mut String, n: u64)
    ensures
        final(s)@ == old(s)@ + spec_dec_nat(n as nat),
    decreases n,
{
    if n < 10 {
        append_digit(s, n);
    } else {
        append_dec_u64(s, n / 10);
        append_digit(s, n % 10);
        proof {
            assert(final(s)@ =~= old(s)@ + spec_dec_nat(n as nat));
        }
    }
}

/// Decimal form of an unsigned number.
pub fn u64_to_string(n: u64) -> (r: String)
    ensures
        r@ == spec_dec_nat(n as nat),
{
    let mut s = String::new();
    append_dec_u64(&mut s, n);
    proof {
        assert(s@ =~= spec_dec_nat(n as nat));
    }
    s
}

/// Appends the decimal form of `n`, with a sign when negative.
pub fn append_dec_i64(s: &mut String, n: i64)
    ensures
        final(s)@ == old(s)@ + spec_dec_int(n as int),
{
    if n < 0 {
        proof {
            reveal_strlit("-");
        }
        s.append("-");
        proof {
            assert(s@ =~= old(s)@ + seq!['-']);
        }
        let mag: u64 = if n == i64::MIN {
            9223372036854775808u64
        } else {
            (-n) as u64
        };
        append_dec_u64(s, mag);
        proof {
            assert(final(s)@ =~= old(s)@ + spec_dec_int(n as int));
        }
    } else {
        append_dec_u64(s, n as u64);
    }
}

/// Decimal form of a signed number.
pub fn i64_to_string(n: i64) -> (r: String)
    ensures
        r@ == spec_dec_int(n as int),
{
    let mut s = String::new();
    append_dec_i64(&mut s, n);
    proof {
        assert(s@ =~= spec_dec_int(n as int));
    }
    s
}

/// Whether a character is a decimal digit.
pub open spec fn spec_is_digit(c: char) -> bool {
    48 <= c as int && c as int <= 57
}

/// Numeric value of a decimal digit character.
pub open spec fn spec_digit_val(c: char) -> int {
    c as int - '0' as int
}

/// Signed decimal parser: an optional minus sign followed by one or
/// more digits, rejecting anything else and any value outside `i64`.
/// Folds the digits from the left, carrying the value read so far.
pub open spec fn spec_parse_digits(s: Seq<char>, cur: Option<int>) -> Option<int>
    decreases s.len(),
{
    if s.len() == 0 {
        cur
    } else if spec_is_digit(s[0]) {
        let v0 = match cur {
            Some(v) => v,
            None => 0,
        };
        let v = v0 * 10 + spec_digit_val(s[0]);
        if v <= u64::MAX {
            spec_parse_digits(s.skip(1), Some(v))
        } else {
            None
        }
    } else {
        None
    }
}

/// Value of a decimal string as `str::parse::<i64>` reads it:
/// `None` when the shape is wrong or the value does not fit.
pub open spec fn spec_parse_i64(s: Seq<char>) -> Option<int> {
    if s.len() > 0 && s[0] == '-' {
        match spec_parse_digits(s.skip(1), None) {
            Some(v) => if -v >= i64::MIN {
                Some(-v)
            } else {
                None
            },
            None => None,
        }
    } else {
        match spec_parse_digits(s, None) {
            Some(v) => if v <= i64::MAX {
                Some(v)
            } else {
                None
            },
            None => None,
        }
    }
}

/// Reads the digits of `s` from position `i` on, folding them onto `cur`.
#[verifier::loop_isolation(false)]
fn parse_digits_from(s: &str, start: usize) -> (r: Option<u64>)
    requires
        start <= s@.len(),
    ensures
        match r {
            Some(v) => spec_parse_digits(s@.skip(start as int), None) == Some(v as int),
            None => spec_parse_digits(s@.skip(start as int), None) is None,
        },
{
    let n = s.unicode_len();
    let mut i: usize = start;
    let mut cur: u64 = 0;
    let mut have = false;
    while i < n
        invariant
            start <= i <= n,
            n == s@.len(),
            have ==> spec_parse_digits(s@.skip(start as int), None) == spec_parse_digits(
                s@.skip(i as int),
                Some(cur as int),
            ),
            !have ==> i == start && cur == 0 && spec_parse_digits(s@.skip(start as int), None)
                == spec_parse_digits(s@.skip(i as int), None),
        decreases n - i,
    {
        let c = s.get_char(i);
        let cu: u32 = c as u32;
        if !(48 <= cu && cu <= 57) {
            proof {
                assert(s@.skip(i as int)[0] == s@[i as int]);
            }
            return None;
        }
        let d: u64 = (cu - 48) as u64;
        let next = match cur.checked_mul(10) {
            Some(m) => m.checked_add(d),
            None => None,
        };
        let ghost prev_cur = cur as int;
        let ghost prev_have = have;
        proof {
            assert(s@.skip(i as int)[0] == s@[i as int]);
            assert(s@.skip(i as int).skip(1) =~= s@.skip(i as int + 1));
            assert(spec_is_digit(s@[i as int]));
            assert(spec_digit_val(s@[i as int]) == d as int);
        }
        match next {
            Some(v) => {
                cur = v;
                have = true;
                proof {
                    if prev_have {
                        assert(v as int == prev_cur * 10 + d);
                        assert(spec_parse_digits(s@.skip(i as int), Some(prev_cur))
                            == spec_parse_digits(s@.skip(i as int + 1), Some(v as int)));
                    } else {
                        assert(v == d);
                        assert(spec_parse_digits(s@.skip(i as int), None) == spec_parse_digits(
                            s@.skip(i as int + 1),
                            Some(v as int),
                        ));
                    }
                }
            },
            None => {
                proof {
                    assert(prev_have);
                    assert(prev_cur * 10 + d > u64::MAX);
                    assert(spec_parse_digits(s@.skip(i as int), Some(prev_cur)) is None);
                }
                return None;
            },
        }
        i += 1;
    }
    proof {
        assert(s@.skip(n as int) =~= Seq::<char>::empty());
    }
    if have {
        Some(cur)
    } else {
        None
    }
}

/// Parses a signed decimal integer exactly as `str::parse::<i64>` does
/// for plain `-?[0-9]+` input: `None` on any other shape or overflow.
pub fn parse_i64(s: &str) -> (r: Option<i64>)
    ensures
        match spec_parse_i64(s@) {
            Some(v) => r == Some(v as i64),
            None => r is None,
        },
{
    let n = s.unicode_len();
    if n > 0 && s.get_char(0) == '-' {
        match parse_digits_from(s, 1) {
            Some(v) => {
                if v <= 9223372036854775808u64 {
                    proof {
                        assert(-(v as int) >= i64::MIN);
                    }
                    if v == 9223372036854775808u64 {
                        Some(i64::MIN)
                    } else {
                        Some(-(v as i64))
                    }
                } else {
                    None
                }
            },
            None => None,
        }
    } else {
        proof {
            if n > 0 {
                assert(s@.skip(0) =~= s@);
            } else {
                assert(s@.skip(0) =~= s@);
            }
        }
        match parse_digits_from(s, 0) {
            Some(v) => {
                if v <= i64::MAX as u64 {
                    Some(v as i64)
                } else {
                    None
                }
            },
            None => None,
        }
    }
}

/// A digit fold that starts in bounds stays in bounds.
proof fn lemma_parse_digits_range(s: Seq<char>, cur: Option<int>)
    requires
        match cur {
            Some(c) => 0 <= c <= u64::MAX,
            None => true,
        },
    ensures
        spec_parse_digits(s, cur) matches Some(v) ==> 0 <= v <= u64::MAX,
    decreases s.len(),
{
    if s.len() > 0 && spec_is_digit(s[0]) {
        let v0 = match cur {
            Some(v) => v,
            None => 0,
        };
        let v = v0 * 10 + spec_digit_val(s[0]);
        if v <= u64::MAX {
            lemma_parse_digits_range(s.skip(1), Some(v));
        }
    }
}

/// A parsed decimal value always fits the machine integer it was
/// checked against.
pub proof fn lemma_parse_i64_range(s: Seq<char>)
    ensures
        spec_parse_i64(s) matches Some(v) ==> i64::MIN <= v <= i64::MAX,
{
    if s.len() > 0 && s[0] == '-' {
        lemma_parse_digits_range(s.skip(1), None);
    } else {
        lemma_parse_digits_range(s, None);
    }
}

/// Three-way lexicographic comparison of two character sequences,
/// by code point: negative, zero or positive.
pub open spec fn spec_str_cmp(a: Seq<char>, b: Seq<char>) -> int
    decreases a.len(),
{
    if a.len() == 0 && b.len() == 0 {
        0
    } else if a.len() == 0 {
        -1
    } else if b.len() == 0 {
        1
    } else if (a[0] as int) < (b[0] as int) {
        -1
    } else if (a[0] as int) > (b[0] as int) {
        1
    } else {
        spec_str_cmp(a.skip(1), b.skip(1))
    }
}

/// Lexicographic comparison of two strings by character code points.
#[verifier::loop_isolation(false)]
pub fn str_cmp(a: &str, b: &str) -> (r: i8)
    ensures
        r as int == spec_str_cmp(a@, b@),
{
    let an = a.unicode_len();
    let bn = b.unicode_len();
    proof {
        assert(a@.skip(0) =~= a@);
        assert(b@.skip(0) =~= b@);
    }
    let mut i: usize = 0;
    while i < an && i < bn
        invariant
            i <= an,
            i <= bn,
            an == a@.len(),
            bn == b@.len(),
            spec_str_cmp(a@, b@) == spec_str_cmp(a@.skip(i as int), b@.skip(i as int)),
        decreases an - i,
    {
        let ca = a.get_char(i);
        let cb = b.get_char(i);
        proof {
            assert(a@.skip(i as int)[0] == a@[i as int]);
            assert(b@.skip(i as int)[0] == b@[i as int]);
            assert(a@.skip(i as int).skip(1) =~= a@.skip(i as int + 1));
            assert(b@.skip(i as int).skip(1) =~= b@.skip(i as int + 1));
        }
        if (ca as u32) < (cb as u32) {
            return -1;
        }
        if (ca as u32) > (cb as u32) {
            return 1;
        }
        i += 1;
    }
    proof {
        if i >= an {
            assert(a@.skip(an as int) =~= Seq::<char>::empty());
        }
        if i >= bn {
            assert(b@.skip(bn as int) =~= Seq::<char>::empty());
        }
    }
    if an == bn {
        0
    } else if an < bn {
        -1
    } else {
        1
    }
}

/// Code point of a character with ASCII upper case folded to lower
/// case. Only the twenty-six ASCII letters fold: any other character
/// stands for itself, so non-ASCII letters compare case-sensitively.
pub open spec fn spec_lower(c: char) -> int {
    if 65 <= c as int && c as int <= 90 {
        c as int + 32
    } else {
        c as int
    }
}

/// Whether two character sequences are equal once ASCII letters are
/// folded to lower case. This is the folding the case-insensitive
/// set operators use; the case-insensitive regular-expression forms
/// use the regex engine's own folding instead.
pub open spec fn spec_eq_ci(a: Seq<char>, b: Seq<char>) -> bool {
    a.len() == b.len() && forall|i: int| 0 <= i < a.len() ==> spec_lower(a[i]) == spec_lower(b[i])
}

/// Equality of two strings up to ASCII case.
#[verifier::loop_isolation(false)]
pub fn str_eq_ci(a: &str, b: &str) -> (r: bool)
    ensures
        r == spec_eq_ci(a@, b@),
{
    let an = a.unicode_len();
    let bn = b.unicode_len();
    if an != bn {
        return false;
    }
    let mut i: usize = 0;
    while i < an
        invariant
            i <= an,
            an == a@.len(),
            bn == b@.len(),
            an == bn,
            forall|k: int| 0 <= k < i ==> spec_lower(a@[k]) == spec_lower(b@[k]),
        decreases an - i,
    {
        let ca = a.get_char(i);
        let cb = b.get_char(i);
        let cau: u32 = ca as u32;
        let cbu: u32 = cb as u32;
        let la: u32 = if 65 <= cau && cau <= 90 {
            cau + 32
        } else {
            cau
        };
        let lb: u32 = if 65 <= cbu && cbu <= 90 {
            cbu + 32
        } else {
            cbu
        };
        if la != lb {
            return false;
        }
        i += 1;
    }
    true
}

/// Whether `p` is a prefix of `s`.
pub open spec fn spec_has_prefix(s: Seq<char>, p: Seq<char>) -> bool {
    p.len() <= s.len() && s.take(p.len() as int) == p
}

/// Whether the string starts with the given prefix.
#[verifier::loop_isolation(false)]
pub fn has_prefix(s: &str, p: &str) -> (r: bool)
    ensures
        r == spec_has_prefix(s@, p@),
{
    let sn = s.unicode_len();
    let pn = p.unicode_len();
    if pn > sn {
        return false;
    }
    let mut i: usize = 0;
    while i < pn
        invariant
            i <= pn,
            pn <= sn,
            sn == s@.len(),
            pn == p@.len(),
            forall|k: int| 0 <= k < i ==> s@[k] == p@[k],
        decreases pn - i,
    {
        if s.get_char(i) != p.get_char(i) {
            proof {
                assert(s@.take(pn as int)[i as int] == s@[i as int]);
            }
            return false;
        }
        i += 1;
    }
    proof {
        assert(s@.take(pn as int) =~= p@);
    }
    true
}

/// Reads a dot-separated numeric version from the left, carrying the
/// segment being read and the segments already read. `None` when a
/// segment is empty, holds a non-digit, or does not fit 64 bits.
pub open spec fn spec_parse_version_from(s: Seq<char>, cur: Option<int>, acc: Seq<int>) -> Option<
    Seq<int>,
>
    decreases s.len(),
{
    if s.len() == 0 {
        match cur {
            Some(v) => Some(acc.push(v)),
            None => None,
        }
    } else if s[0] == '.' {
        match cur {
            Some(v) => spec_parse_version_from(s.skip(1), None, acc.push(v)),
            None => None,
        }
    } else if spec_is_digit(s[0]) {
        let v0 = match cur {
            Some(v) => v,
            None => 0,
        };
        let v = v0 * 10 + spec_digit_val(s[0]);
        if v <= u64::MAX {
            spec_parse_version_from(s.skip(1), Some(v), acc)
        } else {
            None
        }
    } else {
        None
    }
}

/// The numeric segments of a dot-separated version string, or `None`
/// when the string is not a version.
pub open spec fn spec_parse_version(s: Seq<char>) -> Option<Seq<int>> {
    spec_parse_version_from(s, None, Seq::empty())
}

/// Compares two segment lists numerically, left to right; a missing
/// segment counts as less than any present one.
pub open spec fn spec_cmp_segments(a: Seq<int>, b: Seq<int>) -> int
    decreases a.len() + b.len(),
{
    if a.len() == 0 && b.len() == 0 {
        0
    } else if a.len() == 0 {
        -1
    } else if b.len() == 0 {
        1
    } else if a[0] < b[0] {
        -1
    } else if a[0] > b[0] {
        1
    } else {
        spec_cmp_segments(a.skip(1), b.skip(1))
    }
}

/// The segment values of a vector, as mathematical integers.
pub open spec fn spec_seg_ints(v: Seq<u64>) -> Seq<int> {
    Seq::new(v.len(), |i: int| v[i] as int)
}

/// Splits a version string into its numeric segments.
#[verifier::loop_isolation(false)]
pub fn parse_version(s: &str) -> (r: Option<Vec<u64>>)
    ensures
        match r {
            Some(v) => spec_parse_version(s@) == Some(spec_seg_ints(v@)),
            None => spec_parse_version(s@) is None,
        },
{
    let n = s.unicode_len();
    let mut i: usize = 0;
    let mut cur: u64 = 0;
    let mut have = false;
    let mut acc: Vec<u64> = Vec::new();
    proof {
        assert(s@.skip(0) =~= s@);
        assert(spec_seg_ints(acc@) =~= Seq::<int>::empty());
    }
    while i < n
        invariant
            i <= n,
            n == s@.len(),
            have ==> spec_parse_version(s@) == spec_parse_version_from(
                s@.skip(i as int),
                Some(cur as int),
                spec_seg_ints(acc@),
            ),
            !have ==> cur == 0 && spec_parse_version(s@) == spec_parse_version_from(
                s@.skip(i as int),
                None,
                spec_seg_ints(acc@),
            ),
        decreases n - i,
    {
        let c = s.get_char(i);
        let cu: u32 = c as u32;
        proof {
            assert(s@.skip(i as int)[0] == s@[i as int]);
            assert(s@.skip(i as int).skip(1) =~= s@.skip(i as int + 1));
        }
        if c == '.' {
            if !have {
                return None;
            }
            let ghost old_acc = acc@;
            acc.push(cur);
            proof {
                assert(spec_seg_ints(acc@) =~= spec_seg_ints(old_acc).push(cur as int));
            }
            cur = 0;
            have = false;
        } else if 48 <= cu && cu <= 57 {
            let d: u64 = (cu - 48) as u64;
            let next = match cur.checked_mul(10) {
                Some(m) => m.checked_add(d),
                None => None,
            };
            match next {
                Some(v) => {
                    cur = v;
                    have = true;
                },
                None => {
                    return None;
                },
            }
        } else {
            proof {
                assert(!spec_is_digit(s@[i as int]));
            }
            return None;
        }
        i += 1;
    }
    proof {
        assert(s@.skip(n as int) =~= Seq::<char>::empty());
    }
    if !have {
        return None;
    }
    let ghost old_acc = acc@;
    acc.push(cur);
    proof {
        assert(spec_seg_ints(acc@) =~= spec_seg_ints(old_acc).push(cur as int));
    }
    Some(acc)
}

/// Compares two parsed versions numerically.
#[verifier::loop_isolation(false)]
pub fn cmp_segments(a: &Vec<u64>, b: &Vec<u64>) -> (r: i8)
    ensures
        r as int == spec_cmp_segments(spec_seg_ints(a@), spec_seg_ints(b@)),
{
    let ghost sa = spec_seg_ints(a@);
    let ghost sb = spec_seg_ints(b@);
    proof {
        assert(sa.skip(0) =~= sa);
        assert(sb.skip(0) =~= sb);
    }
    let mut i: usize = 0;
    while i < a.len() && i < b.len()
        invariant
            i <= a.len(),
            i <= b.len(),
            sa.len() == a.len(),
            sb.len() == b.len(),
            spec_cmp_segments(sa, sb) == spec_cmp_segments(sa.skip(i as int), sb.skip(i as int)),
        decreases a.len() - i,
    {
        proof {
            assert(sa.skip(i as int)[0] == sa[i as int]);
            assert(sb.skip(i as int)[0] == sb[i as int]);
            assert(sa.skip(i as int).skip(1) =~= sa.skip(i as int + 1));
            assert(sb.skip(i as int).skip(1) =~= sb.skip(i as int + 1));
        }
        if a[i] < b[i] {
            return -1;
        }
        if a[i] > b[i] {
            return 1;
        }
        i += 1;
    }
    proof {
        if i >= a.len() {
            assert(sa.skip(a.len() as int) =~= Seq::<int>::empty());
        }
        if i >= b.len() {
            assert(sb.skip(b.len() as int) =~= Seq::<int>::empty());
        }
    }
    if a.len() == b.len() {
        0
    } else if a.len() < b.len() {
        -1
    } else {
        1
    }
}

/// The characters of `s` after position `from`.
pub fn suffix_from(s: &str, from: usize) -> (r: String)
    requires
        from <= s@.len(),
    ensures
        r@ == s@.skip(from as int),
{
    let n = s.unicode_len();
    let part = s.substring_char(from, n);
    proof {
        assert(s@.subrange(from as int, s@.len() as int) =~= s@.skip(from as int));
    }
    String::from_str(part)
}

} // verus!
