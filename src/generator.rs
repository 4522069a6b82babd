//! Random password generation. The randomness comes from `rand`'s thread-local
//! generator, a cryptographically secure source; the length rule and the
//! choice of character set are checked here.
use vstd::prelude::*;
use vstd::string::StrSliceExecFns;
use crate::error::StoreError;

verus! {

/// The shortest password that is generated.
pub const MIN_PASSWORD_LEN: usize = 6;

/// Letters, digits, and the punctuation that extended passwords may use.
pub const EXTENDED_CHARSET: &'static str = "ABCDEFGHIJKLMNOPQRSTUVWXYZabcdefghijklmnopqrstuvwxyz0123456789!@#$%^&*()";

/// An ASCII letter or digit.
pub open spec fn is_alphanumeric(c: char) -> bool {
    ||| ('A' as u32 <= c as u32 && c as u32 <= 'Z' as u32)
    ||| ('a' as u32 <= c as u32 && c as u32 <= 'z' as u32)
    ||| ('0' as u32 <= c as u32 && c as u32 <= '9' as u32)
}

/// The characters an extended password is drawn from.
pub open spec fn extended_charset() -> Seq<char> {
    EXTENDED_CHARSET@
}

/// What a generated password of `length` characters looks like: every
/// character is alphanumeric, or, with `extended`, one of the extended set.
pub open spec fn is_password(s: Seq<char>, length: nat, extended: bool) -> bool {
    &&& s.len() == length
    &&& forall|i: int|
        0 <= i < s.len() ==> if extended {
            extended_charset().contains(#[trigger] s[i])
        } else {
            is_alphanumeric(s[i])
        }
}

/// Relies on `String::push`: the character is appended at the end.
pub assume_specification[ String::push ](s: &mut String, ch: char)
    ensures
        final(s)@ == old(s)@.push(ch),
;

/// Relies on `rand::distr::Alphanumeric`, which samples one byte of
/// `A-Z`, `a-z` or `0-9` from the thread-local generator.
#[verifier::external_body]
fn draw_alphanumeric() -> (b: u8)
    ensures
        (0x41 <= b <= 0x5a) || (0x61 <= b <= 0x7a) || (0x30 <= b <= 0x39),
{
    rand::Rng::sample(&mut rand::rng(), rand::distr::Alphanumeric)
}

/// Relies on `rand::Rng::random_range` over `0..n` with the thread-local
/// generator, which returns a value of the range and panics on an empty one.
#[verifier::external_body]
fn draw_index(n: usize) -> (i: usize)
    requires
        n > 0,
    ensures
        i < n,
{
    rand::Rng::random_range(&mut rand::rng(), 0..n)
}

/// A random password of `length` characters: letters and digits, or with
/// `use_special` the extended set. Lengths under the minimum are refused.
pub fn generate(length: usize, use_special: bool) -> (r: Result<String, StoreError>)
    ensures
        r is Err <==> length < MIN_PASSWORD_LEN,
        r is Err ==> r->Err_0 == StoreError::LengthTooSmall,
        r is Ok ==> is_password(r->Ok_0@, length as nat, use_special),
{
    if length < MIN_PASSWORD_LEN {
        return Err(StoreError::LengthTooSmall);
    }
    let n = EXTENDED_CHARSET.unicode_len();
    proof {
        reveal_strlit("ABCDEFGHIJKLMNOPQRSTUVWXYZabcdefghijklmnopqrstuvwxyz0123456789!@#$%^&*()");
    }
    let mut pwd = String::new();
    let mut i: usize = 0;
    while i < length
        invariant
            i <= length,
            n == extended_charset().len(),
            n > 0,
            is_password(pwd@, i as nat, use_special),
        decreases length - i,
    {
        let c: char = if use_special {
            let idx = draw_index(n);
            let c = EXTENDED_CHARSET.get_char(idx);
            assert(extended_charset().contains(c)) by {
                assert(extended_charset()[idx as int] == c);
            }
            c
        } else {
            let b = draw_alphanumeric();
            b as char
        };
        let ghost before = pwd@;
        pwd.push(c);
        proof {
            assert forall|j: int| 0 <= j < i implies #[trigger] pwd@[j] == before[j] by {}
        }
        i += 1;
    }
    Ok(pwd)
}

} // verus!
