//! Random user name fragments and passwords.
use crate::conncheck::Credentials;
use crate::rand::random_u32;
use vstd::prelude::*;

verus! {

/// Number of characters in a random user name fragment.
pub const RANDOM_UFRAG_LENGTH: usize = 4;

/// Number of characters in a random password.
pub const RANDOM_PASSWD_LENGTH: usize = 22;

/// The characters that user name fragments and passwords are made of (RFC 8839
/// section 5.4).
pub open spec fn ice_chars() -> Seq<char> {
    "ABCDEFGHIJKLMNOPQRSTUVWXYZabcdefghijklmnopqrstuvwxyz0123456789+/"@
}

/// The character that a random number stands for.
pub open spec fn ice_char(draw: u32) -> char {
    ice_chars()[draw as int % 64]
}

/// The string that random numbers stand for, one character each.
pub fn ice_string(draws: &Vec<u32>) -> (r: String)
    ensures
        r@ == draws@.map_values(|draw: u32| ice_char(draw)),
{
    let chars = "ABCDEFGHIJKLMNOPQRSTUVWXYZabcdefghijklmnopqrstuvwxyz0123456789+/";
    proof {
        reveal_strlit("ABCDEFGHIJKLMNOPQRSTUVWXYZabcdefghijklmnopqrstuvwxyz0123456789+/");
    }
    assert(chars@.len() == 64);
    let ghost each = |draw: u32| ice_char(draw);
    let mut text = String::new();
    let mut i: usize = 0;
    while i < draws.len()
        invariant
            i <= draws.len(),
            chars@ == ice_chars(),
            chars@.len() == 64,
            each == (|draw: u32| ice_char(draw)),
            text@ == draws@.take(i as int).map_values(each),
        decreases draws.len() - i,
    {
        let k: usize = (draws[i] % 64) as usize;
        text = text.concat(chars.substring_char(k, k + 1));
        assert(text@ =~= draws@.take(i + 1).map_values(each));
        i = i + 1;
    }
    assert(draws@.take(i as int) =~= draws@);
    text
}

/// A random string of the given length.
fn random_string(length: usize) -> (r: String)
    ensures
        r@.len() == length,
        forall|i: int| 0 <= i < length ==> ice_chars().contains(#[trigger] r@[i]),
{
    let mut draws: Vec<u32> = Vec::new();
    while draws.len() < length
        invariant
            draws.len() <= length,
        decreases length - draws.len(),
    {
        draws.push(random_u32());
    }
    let text = ice_string(&draws);
    proof {
        reveal_strlit("ABCDEFGHIJKLMNOPQRSTUVWXYZabcdefghijklmnopqrstuvwxyz0123456789+/");
    }
    text
}

/// Whether credentials are of the length and the characters of random ones.
pub open spec fn looks_random(credentials: Credentials) -> bool {
    &&& credentials.ufrag@.len() == RANDOM_UFRAG_LENGTH
    &&& credentials.passwd@.len() == RANDOM_PASSWD_LENGTH
    &&& forall|i: int|
        0 <= i < RANDOM_UFRAG_LENGTH ==> ice_chars().contains(#[trigger] credentials.ufrag@[i])
    &&& forall|i: int|
        0 <= i < RANDOM_PASSWD_LENGTH ==> ice_chars().contains(#[trigger] credentials.passwd@[i])
}

/// Random credentials for a restart.
///
/// Which ones come back is left to chance.
pub fn generate_restart_credentials() -> (r: Credentials)
    ensures
        looks_random(r),
{
    Credentials::new(random_string(RANDOM_UFRAG_LENGTH), random_string(RANDOM_PASSWD_LENGTH))
}

} // verus!
