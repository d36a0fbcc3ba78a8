//! Classification and normalisation of Chinese telephone numbers.
//!
//! Each pattern predicate accepts a number only when the whole text matches;
//! digits are the ASCII digits `0` to `9`.
use vstd::prelude::*;

pub use crate::category::{MobileVendor, PhoneType};
use crate::text::{all_digits, chars_of, digits_between, drop_prefix, starts_with};

verus! {

/// Eleven characters: `1`, one of `3`..=`9`, then nine digits.
pub open spec fn mobile_body(t: Seq<char>) -> bool {
    &&& t.len() == 11
    &&& t[0] == '1'
    &&& '3' <= t[1] && t[1] <= '9'
    &&& all_digits(t.skip(2))
}

/// What is left of a number once an optional `+` and an optional `86` are taken off.
pub open spec fn after_country_code(s: Seq<char>) -> Seq<char> {
    drop_prefix(drop_prefix(s, seq!['+']), seq!['8', '6'])
}

/// Optional `+`, optional `86`, optional trunk `0`, then a mobile body.
pub open spec fn mobile_spec(s: Seq<char>) -> bool {
    mobile_body(drop_prefix(after_country_code(s), seq!['0']))
}

/// `r` splits at `k` into `k` digits, a `-` or `,`, and four to seven digits.
pub open spec fn extension_at(r: Seq<char>, k: int) -> bool {
    &&& 0 <= k < r.len()
    &&& all_digits(r.take(k))
    &&& r[k] == '-' || r[k] == ','
    &&& 4 <= r.len() - k - 1 <= 7
    &&& all_digits(r.skip(k + 1))
}

/// Nine to eleven digits, then optionally an extension.
pub open spec fn subscriber_spec(r: Seq<char>) -> bool {
    ||| 9 <= r.len() <= 11 && all_digits(r)
    ||| exists|k: int| 9 <= k <= 11 && #[trigger] extension_at(r, k)
}

/// Optional `+`, optional `86`, a mandatory `0`, then the subscriber part.
pub open spec fn telephone_spec(s: Seq<char>) -> bool {
    let t = after_country_code(s);
    t.len() >= 1 && t[0] == '0' && subscriber_spec(t.skip(1))
}

/// `1` and seven digits, or a five-digit code that starts with `1` or `9`.
pub open spec fn service_spec(s: Seq<char>) -> bool {
    ||| s.len() == 8 && s[0] == '1' && all_digits(s.skip(1))
    ||| s.len() == 5 && (s[0] == '1' || s[0] == '9') && all_digits(s.skip(1))
}

/// `00` followed by at least eight digits.
pub open spec fn idd_spec(s: Seq<char>) -> bool {
    s.len() >= 10 && s[0] == '0' && s[1] == '0' && all_digits(s.skip(2))
}

/// Any of the four kinds of number.
pub open spec fn phone_spec(s: Seq<char>) -> bool {
    mobile_spec(s) || telephone_spec(s) || service_spec(s) || idd_spec(s)
}

/// The offset in `v` at which an optional `+` and then an optional `86` end.
fn country_code_end(v: &Vec<char>) -> (i: usize)
    ensures
        i <= v@.len(),
        v@.skip(i as int) == after_country_code(v@),
{
    let n = v.len();
    let mut i: usize = 0;
    if n > 0 && v[0] == '+' {
        i = 1;
    }
    proof {
        let s = v@;
        let p = seq!['+'];
        if n > 0 && s[0] == '+' {
            assert(s.take(1) =~= p);
        } else if starts_with(s, p) {
            assert(s.take(1)[0] == p[0]);
        }
        assert(s.skip(0) =~= s);
        assert(s.skip(i as int) == drop_prefix(s, p));
    }
    let j = i;
    if i + 1 < n && v[i] == '8' && v[i + 1] == '6' {
        i = i + 2;
    }
    proof {
        let s = v@.skip(j as int);
        let p = seq!['8', '6'];
        if j + 1 < n && v@[j as int] == '8' && v@[j + 1] == '6' {
            assert(s.take(2) =~= p);
            assert(v@.skip(i as int) =~= s.skip(2));
        } else {
            if starts_with(s, p) {
                assert(s.take(2)[0] == p[0]);
                assert(s.take(2)[1] == p[1]);
            }
        }
    }
    i
}

fn mobile_chars(v: &Vec<char>) -> (r: bool)
    ensures
        r == mobile_spec(v@),
{
    let n = v.len();
    let mut i = country_code_end(v);
    let ghost t = v@.skip(i as int);
    let ghost p = seq!['0'];
    if i < n && v[i] == '0' {
        proof {
            assert(t.take(1) =~= p);
            assert(v@.skip(i + 1) =~= t.skip(1));
        }
        i = i + 1;
    } else {
        proof {
            if starts_with(t, p) {
                assert(t.take(1)[0] == p[0]);
            }
        }
    }
    proof {
        assert(v@.skip(i as int) == drop_prefix(t, p));
    }
    if n - i != 11 {
        return false;
    }
    let ghost b = v@.skip(i as int);
    assert(v@.subrange(i + 2, n as int) =~= b.skip(2));
    v[i] == '1' && '3' <= v[i + 1] && v[i + 1] <= '9' && digits_between(v, i + 2, n)
}

/// Whether `number` is a mobile number: optional `+`, optional `86`, optional
/// `0`, then `1`, a digit from `3` to `9` and nine more digits.
pub fn is_mobile(number: &str) -> (r: bool)
    ensures
        r == mobile_spec(number@),
{
    let v = chars_of(number);
    mobile_chars(&v)
}

/// Length of the run of digits in `v` that starts at `lo`.
fn digit_run(v: &Vec<char>, lo: usize) -> (j: usize)
    requires
        lo <= v@.len(),
    ensures
        lo <= j <= v@.len(),
        all_digits(v@.subrange(lo as int, j as int)),
        j < v@.len() ==> !crate::text::is_digit(v@[j as int]),
{
    let mut j: usize = lo;
    while j < v.len() && '0' <= v[j] && v[j] <= '9'
        invariant
            lo <= j <= v@.len(),
            all_digits(v@.subrange(lo as int, j as int)),
        decreases v@.len() - j,
    {
        assert(v@.subrange(lo as int, j + 1) =~= v@.subrange(lo as int, j as int).push(v@[j as int]));
        j = j + 1;
    }
    j
}

fn telephone_chars(v: &Vec<char>) -> (r: bool)
    ensures
        r == telephone_spec(v@),
{
    let n = v.len();
    let i = country_code_end(v);
    if i >= n || v[i] != '0' {
        return false;
    }
    let start = i + 1;
    let j = digit_run(v, start);
    let d = j - start;
    let ghost r = v@.skip(start as int);
    assert(v@.skip(i as int).skip(1) =~= r);
    assert(r.take(d as int) =~= v@.subrange(start as int, j as int));
    if j == n {
        proof {
            assert(r =~= v@.subrange(start as int, j as int));
            assert forall|k: int| 9 <= k <= 11 implies !#[trigger] extension_at(r, k) by {
                if 0 <= k < r.len() {
                    assert(crate::text::is_digit(r[k]));
                }
            }
        }
        return 9 <= d && d <= 11;
    }
    proof {
        assert(r[d as int] == v@[j as int]);
        assert(!all_digits(r)) by {
            assert(!crate::text::is_digit(r[d as int]));
        }
        assert forall|k: int| 9 <= k <= 11 && k != d implies !#[trigger] extension_at(r, k) by {
            if extension_at(r, k) {
                if k < d {
                    assert(r.take(d as int)[k] == r[k]);
                } else {
                    assert(r.take(k)[d as int] == r[d as int]);
                }
            }
        }
        assert(v@.subrange(j + 1, n as int) =~= r.skip(d + 1));
    }
    let ok = 9 <= d && d <= 11 && (v[j] == '-' || v[j] == ',') && 4 <= n - j - 1 && n - j - 1
        <= 7 && digits_between(v, j + 1, n);
    proof {
        if ok {
            assert(extension_at(r, d as int));
        } else if 9 <= d <= 11 {
            assert(!extension_at(r, d as int));
        }
    }
    ok
}

/// Whether `number` is a landline number: optional `+`, optional `86`, `0`,
/// nine to eleven digits, then optionally `-` or `,` and four to seven digits.
pub fn is_telephone(number: &str) -> (r: bool)
    ensures
        r == telephone_spec(number@),
{
    let v = chars_of(number);
    telephone_chars(&v)
}

/// Whether `number` is a service number: `1` and seven digits, or five digits
/// that start with `1` or `9`.
pub fn is_service(number: &str) -> (r: bool)
    ensures
        r == service_spec(number@),
{
    let v = chars_of(number);
    let n = v.len();
    if n != 8 && n != 5 {
        return false;
    }
    assert(v@.subrange(1, n as int) =~= v@.skip(1));
    if n == 8 {
        v[0] == '1' && digits_between(&v, 1, n)
    } else {
        (v[0] == '1' || v[0] == '9') && digits_between(&v, 1, n)
    }
}

/// Whether `number` is an international number: `00` and at least eight digits.
pub fn is_idd(number: &str) -> (r: bool)
    ensures
        r == idd_spec(number@),
{
    let v = chars_of(number);
    let n = v.len();
    if n < 10 {
        return false;
    }
    assert(v@.subrange(2, n as int) =~= v@.skip(2));
    v[0] == '0' && v[1] == '0' && digits_between(&v, 2, n)
}

/// Whether `number` is a number of any of the four kinds.
pub fn is_phone(number: &str) -> (r: bool)
    ensures
        r == (mobile_spec(number@) || telephone_spec(number@) || service_spec(number@)
            || idd_spec(number@)),
        r == phone_spec(number@),
{
    is_mobile(number) || is_telephone(number) || is_service(number) || is_idd(number)
}

/// How many characters a leading `+` and then a leading `86` take up in `s`.
pub open spec fn country_code_len(s: Seq<char>) -> int {
    let a: int = if starts_with(s, seq!['+']) {
        1
    } else {
        0
    };
    if starts_with(s.skip(a), seq!['8', '6']) {
        a + 2
    } else {
        a
    }
}

/// Skipping `country_code_len(s)` characters leaves `after_country_code(s)`.
proof fn lemma_country_code_len(s: Seq<char>)
    ensures
        0 <= country_code_len(s) <= s.len(),
        s.skip(country_code_len(s)) == after_country_code(s),
{
    let p = seq!['+'];
    let a: int = if starts_with(s, p) {
        1
    } else {
        0
    };
    assert(s.skip(0) =~= s);
    assert(s.skip(a) == drop_prefix(s, p));
    if starts_with(s.skip(a), seq!['8', '6']) {
        assert(s.skip(a).skip(2) =~= s.skip(a + 2));
    }
}

/// Where the standard form of `s` starts: past a leading `+`, then past a
/// leading `86`, then past a trunk `0` when what is left is a mobile number.
pub open spec fn standard_offset(s: Seq<char>) -> int {
    let b = country_code_len(s);
    if mobile_spec(s.skip(b)) && starts_with(s.skip(b), seq!['0']) {
        b + 1
    } else {
        b
    }
}

/// The standard form of `s`: `s` from `standard_offset(s)` on.
pub open spec fn standard_spec(s: Seq<char>) -> Seq<char> {
    s.skip(standard_offset(s))
}

/// The number without `+`, without the `86` country code and, for mobile
/// numbers only, without the trunk `0`; international numbers stay as they are.
pub fn to_standard_format(number: &str) -> (r: &str)
    ensures
        r@ == standard_spec(number@),
{
    let v = chars_of(number);
    let n = v.len();
    let mut offset: usize = 0;
    if n > 0 && v[0] == '+' {
        offset = 1;
    }
    proof {
        let s = v@;
        if n > 0 && s[0] == '+' {
            assert(s.take(1) =~= seq!['+']);
        } else if starts_with(s, seq!['+']) {
            assert(s.take(1)[0] == '+');
        }
    }
    let a = offset;
    if offset + 1 < n && v[offset] == '8' && v[offset + 1] == '6' {
        offset = offset + 2;
    }
    proof {
        let t = v@.skip(a as int);
        if a + 1 < n && v@[a as int] == '8' && v@[a + 1] == '6' {
            assert(t.take(2) =~= seq!['8', '6']);
        } else if starts_with(t, seq!['8', '6']) {
            assert(t.take(2)[0] == '8');
            assert(t.take(2)[1] == '6');
        }
    }
    let rest = number.substring_char(offset, n);
    let ghost t = v@.skip(offset as int);
    assert(rest@ =~= t);
    if is_mobile(rest) && offset < n && v[offset] == '0' {
        assert(t.take(1) =~= seq!['0']);
        offset = offset + 1;
    } else {
        proof {
            if starts_with(t, seq!['0']) {
                assert(t.take(1)[0] == '0');
            }
        }
    }
    let r = number.substring_char(offset, n);
    assert(r@ =~= standard_spec(number@));
    r
}

/// Landline numbers of Beijing (`010`) and of the `02x` areas have
/// three-digit area codes.
pub open spec fn short_area_code(s: Seq<char>) -> bool {
    starts_with(s, seq!['0', '1', '0']) || starts_with(s, seq!['0', '2'])
}

/// The kind of `s` and the part of it that identifies its carrier or area.
pub open spec fn segment_spec(s: Seq<char>) -> (PhoneType, Seq<char>) {
    if mobile_spec(s) {
        (PhoneType::Mobile, s.take(7))
    } else if idd_spec(s) {
        (PhoneType::Idd, s.subrange(2, 6))
    } else if service_spec(s) {
        (PhoneType::Service, s)
    } else if short_area_code(s) {
        (PhoneType::Tel, s.take(3))
    } else {
        (PhoneType::Tel, s.take(4))
    }
}

/// `s` is long enough for the part that `segment_spec` takes of it.
pub open spec fn segment_fits(s: Seq<char>) -> bool {
    ||| mobile_spec(s) || idd_spec(s) || service_spec(s)
    ||| short_area_code(s) && s.len() >= 3
    ||| s.len() >= 4
}

/// The kind of `number` and its lookup key: the first seven characters of a
/// mobile number, the four characters after `00` of an international number,
/// the whole of a service number, and the area code of anything else, three
/// characters for `010` and `02x`, four otherwise.
pub fn get_segment(number: &str) -> (r: (PhoneType, &str))
    requires
        segment_fits(number@),
    ensures
        r.0 == segment_spec(number@).0,
        r.1@ == segment_spec(number@).1,
{
    if is_mobile(number) {
        return (PhoneType::Mobile, number.substring_char(0, 7));
    }
    if is_idd(number) {
        return (PhoneType::Idd, number.substring_char(2, 6));
    }
    if is_service(number) {
        return (PhoneType::Service, number);
    }
    let v = chars_of(number);
    let n = v.len();
    let ten = n >= 3 && v[0] == '0' && v[1] == '1' && v[2] == '0';
    let two = n >= 2 && v[0] == '0' && v[1] == '2';
    proof {
        let s = v@;
        if ten {
            assert(s.take(3) =~= seq!['0', '1', '0']);
        } else if starts_with(s, seq!['0', '1', '0']) {
            assert(s.take(3)[0] == '0' && s.take(3)[1] == '1' && s.take(3)[2] == '0');
        }
        if two {
            assert(s.take(2) =~= seq!['0', '2']);
        } else if starts_with(s, seq!['0', '2']) {
            assert(s.take(2)[0] == '0' && s.take(2)[1] == '2');
        }
    }
    if ten || two {
        (PhoneType::Tel, number.substring_char(0, 3))
    } else {
        (PhoneType::Tel, number.substring_char(0, 4))
    }
}

/// Normalising a mobile number gives its eleven-digit body, and normalising
/// that again changes nothing.
pub proof fn lemma_standard_format_idempotent(s: Seq<char>)
    requires
        mobile_spec(s),
    ensures
        mobile_body(standard_spec(s)),
        mobile_spec(standard_spec(s)),
        standard_spec(standard_spec(s)) == standard_spec(s),
{
    lemma_country_code_len(s);
    let b = country_code_len(s);
    let t = after_country_code(s);
    let m = drop_prefix(t, seq!['0']);
    assert(t.skip(0) =~= t);
    if starts_with(t, seq!['0']) {
        assert(t[0] == t.take(1)[0]);
        assert(m[0] == t[1]);
    }
    assert(t[0] == '0' || t[0] == '1');
    assert(!starts_with(t, seq!['+'])) by {
        if starts_with(t, seq!['+']) {
            assert(t.take(1)[0] == t[0]);
        }
    }
    assert(!starts_with(t, seq!['8', '6'])) by {
        if starts_with(t, seq!['8', '6']) {
            assert(t.take(2)[0] == t[0]);
        }
    }
    assert(after_country_code(t) == t);
    assert(mobile_spec(t));
    if starts_with(t, seq!['0']) {
        assert(s.skip(b).skip(1) =~= s.skip(b + 1));
    }
    assert(standard_spec(s) == m);
    lemma_country_code_len(m);
    assert(!starts_with(m, seq!['+'])) by {
        if starts_with(m, seq!['+']) {
            assert(m.take(1)[0] == m[0]);
        }
    }
    assert(!starts_with(m, seq!['8', '6'])) by {
        if starts_with(m, seq!['8', '6']) {
            assert(m.take(2)[0] == m[0]);
        }
    }
    assert(!starts_with(m, seq!['0'])) by {
        if starts_with(m, seq!['0']) {
            assert(m.take(1)[0] == m[0]);
        }
    }
    assert(after_country_code(m) == m);
    assert(m.skip(0) =~= m);
}

/// Normalising an international number leaves it as it is.
pub proof fn lemma_standard_format_keeps_idd(s: Seq<char>)
    requires
        idd_spec(s),
    ensures
        standard_spec(s) == s,
{
    lemma_country_code_len(s);
    assert(!starts_with(s, seq!['+'])) by {
        if starts_with(s, seq!['+']) {
            assert(s.take(1)[0] == s[0]);
        }
    }
    assert(!starts_with(s, seq!['8', '6'])) by {
        if starts_with(s, seq!['8', '6']) {
            assert(s.take(2)[0] == s[0]);
        }
    }
    assert(after_country_code(s) == s);
    assert(s.take(1) =~= seq!['0']);
    assert(s.skip(1)[0] == s[1]);
    assert(!mobile_spec(s));
    assert(s.skip(0) =~= s);
}

} // verus!
