//! Hexadecimal decoding, the implicit-account form of caller identities,
//! and the report-data encoding that binds a quote to its caller.

use vstd::prelude::*;
use vstd::pervasive::unreached;
use vstd::string::StrSliceExecFns;

use crate::AccountId;

verus! {

/// An ASCII hexadecimal digit, either case.
pub open spec fn is_hex_digit(c: char) -> bool {
    (48 <= c as u32 && c as u32 <= 57) || (97 <= c as u32 && c as u32 <= 102) || (65 <= c as u32
        && c as u32 <= 70)
}

/// A lower-case ASCII hexadecimal digit.
pub open spec fn is_lower_hex(c: char) -> bool {
    (48 <= c as u32 && c as u32 <= 57) || (97 <= c as u32 && c as u32 <= 102)
}

/// The numeric value of a hexadecimal digit.
pub open spec fn hex_digit_val(c: char) -> u8 {
    if 48 <= c as u32 && c as u32 <= 57 {
        (c as u32 - 48) as u8
    } else if 97 <= c as u32 && c as u32 <= 102 {
        (c as u32 - 87) as u8
    } else {
        (c as u32 - 55) as u8
    }
}

/// Every character is a hexadecimal digit.
pub open spec fn is_hex_seq(s: Seq<char>) -> bool {
    forall|i: int| 0 <= i < s.len() ==> is_hex_digit(#[trigger] s[i])
}

/// The bytes a hexadecimal string denotes, two digits per byte.
pub open spec fn spec_hex_decode(s: Seq<char>) -> Seq<u8>
    decreases s.len(),
{
    if s.len() < 2 {
        Seq::empty()
    } else {
        seq![(hex_digit_val(s[0]) * 16 + hex_digit_val(s[1])) as u8] + spec_hex_decode(s.skip(2))
    }
}

/// A string of `2 n` hexadecimal digits decodes to `n` bytes.
pub proof fn lemma_hex_decode_len(s: Seq<char>)
    requires
        s.len() % 2 == 0,
    ensures
        spec_hex_decode(s).len() == s.len() / 2,
    decreases s.len(),
{
    if s.len() >= 2 {
        lemma_hex_decode_len(s.skip(2));
    }
}

/// Relies on `hex::decode`: succeeds exactly on strings of evenly many
/// hexadecimal digits (either case) and returns one byte per digit pair,
/// the first digit being the high nibble.
#[verifier::external_body]
fn hex_decode(s: &str) -> (r: Option<Vec<u8>>)
    ensures
        match r {
            Some(v) => s@.len() % 2 == 0 && is_hex_seq(s@) && v@ == spec_hex_decode(s@),
            None => !(s@.len() % 2 == 0 && is_hex_seq(s@)),
        },
{
    hex::decode(s).ok()
}

/// Decodes a hexadecimal string.
pub fn decode_hex(s: &str) -> (r: Option<Vec<u8>>)
    ensures
        match r {
            Some(v) => s@.len() % 2 == 0 && is_hex_seq(s@) && v@ == spec_hex_decode(s@)
                && v@.len() == s@.len() / 2,
            None => !(s@.len() % 2 == 0 && is_hex_seq(s@)),
        },
{
    match hex_decode(s) {
        Some(v) => {
            proof {
                lemma_hex_decode_len(s@);
            }
            Some(v)
        },
        None => None,
    }
}

/// An implicit account: exactly 64 lower-case hexadecimal characters, the
/// hex form of a 32-byte key.  Only such callers can be bound to a quote.
pub open spec fn is_implicit_account(s: Seq<char>) -> bool {
    s.len() == 64 && (forall|i: int| 0 <= i < s.len() ==> is_lower_hex(#[trigger] s[i]))
}

/// Whether the identity has the implicit-account form.
pub fn check_implicit_account(id: &AccountId) -> (r: bool)
    ensures
        r == is_implicit_account(id@),
{
    let s = id.as_str();
    let n = s.unicode_len();
    if n != 64 {
        return false;
    }
    let mut i: usize = 0;
    while i < 64
        invariant
            s@ == id@,
            s@.len() == 64,
            i <= 64,
            forall|j: int| 0 <= j < i ==> is_lower_hex(#[trigger] s@[j]),
        decreases 64 - i,
    {
        let c = s.get_char(i);
        let v = c as u32;
        if !((48 <= v && v <= 57) || (97 <= v && v <= 102)) {
            return false;
        }
        i += 1;
    }
    true
}

/// The report data a quote must embed to register as `id`: the 32 bytes the
/// account name encodes, zero-padded to 64 bytes.
pub open spec fn spec_report_data(id: Seq<char>) -> Seq<u8> {
    spec_hex_decode(id) + Seq::new(32, |i: int| 0u8)
}

/// Computes the expected report data for a caller, or nothing when the
/// caller is not an implicit account.
pub fn expected_report_data(id: &AccountId) -> (r: Option<Vec<u8>>)
    ensures
        match r {
            Some(v) => is_implicit_account(id@) && v@ == spec_report_data(id@) && v@.len() == 64,
            None => !is_implicit_account(id@),
        },
{
    if !check_implicit_account(id) {
        return None;
    }
    let mut v = match hex_decode(id.as_str()) {
        Some(v) => v,
        None => unreached(),
    };
    proof {
        lemma_hex_decode_len(id@);
    }
    let mut k: usize = 0;
    while k < 32
        invariant
            k <= 32,
            v@ == spec_hex_decode(id@) + Seq::new(k as nat, |i: int| 0u8),
        decreases 32 - k,
    {
        v.push(0u8);
        proof {
            assert(v@ =~= spec_hex_decode(id@) + Seq::new(k as nat + 1, |i: int| 0u8));
        }
        k += 1;
    }
    proof {
        assert(v@ == spec_report_data(id@));
    }
    Some(v)
}

} // verus!
