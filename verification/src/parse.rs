//! Parsers for the interaction front end's text inputs: verification codes
//! typed in a channel, and the structured button identifiers.

use crate::record::CODE_MAX;
use crate::record::CODE_MIN;
use vstd::prelude::*;
use vstd::string::StrSliceExecFns;

verus! {

/// A decimal digit character.
pub open spec fn is_digit(c: char) -> bool {
    '0' <= c && c <= '9'
}

/// The numeric value of a digit character.
pub open spec fn digit_val(c: char) -> int {
    c as int - '0' as int
}

/// Every character is a decimal digit.
pub open spec fn all_digits(s: Seq<char>) -> bool {
    forall|i: int| 0 <= i < s.len() ==> is_digit(#[trigger] s[i])
}

/// The number an all-digit string spells, most significant digit first.
pub open spec fn digits_val(s: Seq<char>) -> int
    decreases s.len(),
{
    if s.len() == 0 {
        0
    } else {
        digits_val(s.drop_last()) * 10 + digit_val(s.last())
    }
}

/// The shape `u64` parsing accepts: an optional leading plus sign, then at
/// least one digit.
pub open spec fn u64_shape(s: Seq<char>) -> bool {
    if s.len() > 0 && s[0] == '+' {
        s.len() >= 2 && all_digits(s.subrange(1, s.len() as int))
    } else {
        s.len() > 0 && all_digits(s)
    }
}

/// The number a `u64`-shaped string spells.
pub open spec fn u64_value(s: Seq<char>) -> int {
    if s.len() > 0 && s[0] == '+' {
        digits_val(s.subrange(1, s.len() as int))
    } else {
        digits_val(s)
    }
}

/// The shape signed-code parsing accepts: an optional sign, then at least
/// one digit.
pub open spec fn code_shape(s: Seq<char>) -> bool {
    if s.len() > 0 && (s[0] == '+' || s[0] == '-') {
        s.len() >= 2 && all_digits(s.subrange(1, s.len() as int))
    } else {
        s.len() > 0 && all_digits(s)
    }
}

/// The signed number a code-shaped string spells.
pub open spec fn code_value(s: Seq<char>) -> int {
    if s.len() > 0 && s[0] == '-' {
        -digits_val(s.subrange(1, s.len() as int))
    } else if s.len() > 0 && s[0] == '+' {
        digits_val(s.subrange(1, s.len() as int))
    } else {
        digits_val(s)
    }
}

proof fn lemma_digits_val_push(t: Seq<char>, c: char)
    ensures
        digits_val(t.push(c)) == digits_val(t) * 10 + digit_val(c),
{
    assert(t.push(c).drop_last() =~= t);
    assert(t.push(c).last() == c);
}

proof fn lemma_digits_val_nonneg(s: Seq<char>)
    requires
        all_digits(s),
    ensures
        digits_val(s) >= 0,
    decreases s.len(),
{
    if s.len() > 0 {
        assert(all_digits(s.drop_last())) by {
            assert(forall|i: int| 0 <= i < s.len() - 1 ==> s.drop_last()[i] == s[i]);
        }
        lemma_digits_val_nonneg(s.drop_last());
        assert(is_digit(s[s.len() - 1]));
    }
}

/// Parses an unsigned run of digits; digits only, no sign. Reports the
/// value exactly when the whole string is non-empty, all digits, and spells
/// a number that fits.
pub fn parse_digits_u64(s: &str) -> (r: Option<u64>)
    ensures
        r matches Some(v) ==> (s@.len() > 0 && all_digits(s@) && digits_val(s@) == v),
        r is None ==> !(s@.len() > 0 && all_digits(s@) && digits_val(s@) <= u64::MAX),
{
    let n = s.unicode_len();
    if n == 0 {
        return None;
    }
    let mut i: usize = 0;
    let mut acc: u64 = 0;
    let mut too_big: bool = false;
    while i < n
        invariant
            i <= n,
            n == s@.len(),
            all_digits(s@.subrange(0, i as int)),
            !too_big ==> acc == digits_val(s@.subrange(0, i as int)),
            too_big ==> digits_val(s@.subrange(0, i as int)) > u64::MAX,
        decreases n - i,
    {
        let c = s.get_char(i);
        if c < '0' || c > '9' {
            proof {
                assert(!is_digit(s@[i as int]));
            }
            return None;
        }
        let d: u64 = (c as u32 - '0' as u32) as u64;
        proof {
            assert(s@.subrange(0, i + 1) =~= s@.subrange(0, i as int).push(s@[i as int]));
            lemma_digits_val_push(s@.subrange(0, i as int), s@[i as int]);
        }
        if too_big {
            proof {
                lemma_digits_val_nonneg(s@.subrange(0, i as int));
            }
        } else {
            if acc > (u64::MAX - d) / 10 {
                proof {
                    let m = (u64::MAX - d) as int;
                    assert((m / 10) * 10 + m % 10 == m) by (nonlinear_arith);
                    assert(acc * 10 >= (m / 10 + 1) * 10) by (nonlinear_arith)
                        requires
                            acc >= m / 10 + 1,
                    ;
                    assert((m / 10 + 1) * 10 == (m / 10) * 10 + 10);
                    assert(acc * 10 + d > u64::MAX);
                }
                too_big = true;
            } else {
                proof {
                    let m = (u64::MAX - d) as int;
                    assert((m / 10) * 10 + m % 10 == m) by (nonlinear_arith);
                    assert(acc * 10 <= (m / 10) * 10) by (nonlinear_arith)
                        requires
                            0 <= acc <= m / 10,
                    ;
                }
                acc = acc * 10 + d;
            }
        }
        i = i + 1;
    }
    proof {
        assert(s@.subrange(0, n as int) =~= s@);
    }
    if too_big {
        None
    } else {
        Some(acc)
    }
}

/// Parses a decimal `u64` the way the standard parser does: an optional
/// plus sign, then digits.
pub fn parse_u64(s: &str) -> (r: Option<u64>)
    ensures
        r matches Some(v) ==> (u64_shape(s@) && u64_value(s@) == v),
        r is None ==> !(u64_shape(s@) && u64_value(s@) <= u64::MAX),
{
    let n = s.unicode_len();
    if n > 0 && s.get_char(0) == '+' {
        let rest = s.substring_char(1, n);
        proof {
            assert(rest@ == s@.subrange(1, n as int));
        }
        parse_digits_u64(rest)
    } else {
        parse_digits_u64(s)
    }
}

/// Parses a verification code the way the connect flow expects it: a signed
/// decimal number that must land in the six-digit code range.
pub fn parse_code(s: &str) -> (r: Option<i32>)
    ensures
        r matches Some(c) ==> (code_shape(s@) && code_value(s@) == c && CODE_MIN <= c < CODE_MAX),
        r is None ==> !(code_shape(s@) && CODE_MIN <= code_value(s@) < CODE_MAX),
{
    let n = s.unicode_len();
    if n == 0 {
        return None;
    }
    let first = s.get_char(0);
    if first == '-' {
        proof {
            if code_shape(s@) {
                lemma_digits_val_nonneg(s@.subrange(1, n as int));
            }
        }
        return None;
    }
    let digits = if first == '+' {
        s.substring_char(1, n)
    } else {
        s
    };
    proof {
        if first == '+' {
            assert(digits@ == s@.subrange(1, n as int));
        }
    }
    match parse_digits_u64(digits) {
        None => None,
        Some(v) => {
            if v >= CODE_MIN as u64 && v < CODE_MAX as u64 {
                Some(v as i32)
            } else {
                None
            }
        },
    }
}

/// Whether `p` is a prefix of `s`, character for character.
pub fn has_prefix(s: &str, p: &str) -> (r: bool)
    ensures
        r == (s@.len() >= p@.len() && s@.subrange(0, p@.len() as int) == p@),
{
    let np = p.unicode_len();
    let ns = s.unicode_len();
    if ns < np {
        return false;
    }
    let mut i: usize = 0;
    while i < np
        invariant
            i <= np,
            np == p@.len(),
            ns == s@.len(),
            np <= ns,
            forall|k: int| 0 <= k < i ==> s@[k] == p@[k],
        decreases np - i,
    {
        if s.get_char(i) != p.get_char(i) {
            proof {
                assert(s@.subrange(0, np as int)[i as int] != p@[i as int]);
            }
            return false;
        }
        i = i + 1;
    }
    proof {
        assert(s@.subrange(0, np as int) =~= p@);
    }
    true
}

/// The identity suffix of a sequence from position `k` on.
pub open spec fn suffix_from(s: Seq<char>, k: int) -> Seq<char> {
    s.subrange(k, s.len() as int)
}

/// Parses the channel number out of a close-ticket button identifier:
/// the fixed prefix, then a decimal channel id.
pub fn parse_close_ticket(id: &str) -> (r: Option<u64>)
    ensures
        r matches Some(v) ==> (id@.len() >= 13 && id@.subrange(0, 13) == "close-ticket-"@
            && u64_shape(suffix_from(id@, 13)) && u64_value(suffix_from(id@, 13)) == v),
        r is None ==> !(id@.len() >= 13 && id@.subrange(0, 13) == "close-ticket-"@ && u64_shape(
            suffix_from(id@, 13),
        ) && u64_value(suffix_from(id@, 13)) <= u64::MAX),
{
    proof {
        reveal_strlit("close-ticket-");
    }
    if !has_prefix(id, "close-ticket-") {
        return None;
    }
    let n = id.unicode_len();
    let rest = id.substring_char(13, n);
    proof {
        assert(rest@ == suffix_from(id@, 13));
    }
    parse_u64(rest)
}

/// Parses the account number out of an unlink button identifier: the fixed
/// prefix, then a decimal account id.
pub fn parse_unlink_account(id: &str) -> (r: Option<u64>)
    ensures
        r matches Some(v) ==> (id@.len() >= 15 && id@.subrange(0, 15) == "unlink-account-"@
            && u64_shape(suffix_from(id@, 15)) && u64_value(suffix_from(id@, 15)) == v),
        r is None ==> !(id@.len() >= 15 && id@.subrange(0, 15) == "unlink-account-"@ && u64_shape(
            suffix_from(id@, 15),
        ) && u64_value(suffix_from(id@, 15)) <= u64::MAX),
{
    proof {
        reveal_strlit("unlink-account-");
    }
    if !has_prefix(id, "unlink-account-") {
        return None;
    }
    let n = id.unicode_len();
    let rest = id.substring_char(15, n);
    proof {
        assert(rest@ == suffix_from(id@, 15));
    }
    parse_u64(rest)
}

/// A lowercase hexadecimal digit.
pub open spec fn is_hex_lower(c: char) -> bool {
    ('0' <= c && c <= '9') || ('a' <= c && c <= 'f')
}

/// The canonical textual shape of an identity: five groups of lowercase hex
/// digits of widths 8, 4, 4, 4 and 12, joined by dashes.
pub open spec fn uuid_shape(s: Seq<char>) -> bool {
    &&& s.len() == 36
    &&& forall|i: int|
        0 <= i < 36 ==> (if i == 8 || i == 13 || i == 18 || i == 23 {
            #[trigger] s[i] == '-'
        } else {
            is_hex_lower(s[i])
        })
}

/// The structured shape of an approve button identifier: the fixed prefix,
/// at least one digit of account id, a dash, and a canonical identity.
pub open spec fn approve_shape(s: Seq<char>) -> bool {
    &&& s.len() >= 54
    &&& s.subrange(0, 16) == "approve-account-"@
    &&& s[s.len() - 37] == '-'
    &&& all_digits(s.subrange(16, s.len() - 37))
    &&& uuid_shape(s.subrange(s.len() - 36, s.len() as int))
}

/// The account number an approve button identifier names.
pub open spec fn approve_account_val(s: Seq<char>) -> int {
    digits_val(s.subrange(16, s.len() - 37))
}

/// The identity an approve button identifier names.
pub open spec fn approve_uuid(s: Seq<char>) -> Seq<char> {
    s.subrange(s.len() - 36, s.len() as int)
}

/// Parses an approve button identifier into the account number and the
/// identity it names.
pub fn parse_approve_id(id: &str) -> (r: Option<(u64, String)>)
    ensures
        r matches Some((v, u)) ==> (approve_shape(id@) && v == approve_account_val(id@) && u@
            == approve_uuid(id@)),
        r is None ==> !(approve_shape(id@) && approve_account_val(id@) <= u64::MAX),
{
    proof {
        reveal_strlit("approve-account-");
    }
    if !has_prefix(id, "approve-account-") {
        return None;
    }
    let n = id.unicode_len();
    if n < 54 {
        return None;
    }
    if id.get_char(n - 37) != '-' {
        return None;
    }
    let digits = id.substring_char(16, n - 37);
    proof {
        assert(digits@ == id@.subrange(16, n - 37));
    }
    let v = match parse_digits_u64(digits) {
        Some(v) => v,
        None => {
            proof {
                assert(id@.subrange(16, n - 37).len() > 0);
            }
            return None;
        },
    };
    let mut k: usize = 0;
    while k < 36
        invariant
            k <= 36,
            n == id@.len(),
            n >= 54,
            forall|i: int|
                0 <= i < k ==> (if i == 8 || i == 13 || i == 18 || i == 23 {
                    #[trigger] id@[n - 36 + i] == '-'
                } else {
                    is_hex_lower(id@[n - 36 + i])
                }),
        decreases 36 - k,
    {
        let c = id.get_char(n - 36 + k);
        let want_dash = k == 8 || k == 13 || k == 18 || k == 23;
        if want_dash {
            if c != '-' {
                proof {
                    assert(id@.subrange(n - 36, n as int)[k as int] != '-');
                }
                return None;
            }
        } else {
            if !((c >= '0' && c <= '9') || (c >= 'a' && c <= 'f')) {
                proof {
                    assert(!is_hex_lower(id@.subrange(n - 36, n as int)[k as int]));
                }
                return None;
            }
        }
        k = k + 1;
    }
    let u = id.substring_char(n - 36, n);
    proof {
        assert(u@ == approve_uuid(id@));
        assert(uuid_shape(id@.subrange(n - 36, n as int))) by {
            assert(forall|i: int|
                0 <= i < 36 ==> #[trigger] id@.subrange(n - 36, n as int)[i] == id@[n - 36 + i]);
        }
    }
    Some((v, u.to_owned()))
}

} // verus!
