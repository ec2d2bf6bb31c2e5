//! The key to the speech service, as the credential store hands it over.

use vstd::prelude::*;

use crate::text::{chars_of, trim, trimmed};

verus! {

/// Under which name the key is stored.
pub const SERVICE: &'static str = "com.ammaar.jot";

pub const ACCOUNT: &'static str = "gemini-api-key";

/// The key, given what the store says: nothing if it has none, cannot be read,
/// or holds only white space. A store that fails reads as "no key": the
/// onboarding prompt is more use than a storage error.
pub fn api_key(stored: Option<String>) -> (key: Option<String>)
    ensures
        match stored {
            Some(stored) => if trim(stored@).len() > 0 {
                key is Some && (key->0)@ == stored@
            } else {
                key is None
            },
            None => key is None,
        },
{
    match stored {
        Some(stored) => {
            if trimmed(&chars_of(stored.as_str())).len() > 0 {
                Some(stored)
            } else {
                None
            }
        },
        None => None,
    }
}

/// Whether a key is stored at all. Without this the first dictation of a fresh
/// install would spend a round trip to be told so.
pub fn has_api_key(stored: &Option<String>) -> (has: bool)
    ensures
        has == (*stored matches Some(stored) && trim(stored@).len() > 0),
{
    match stored {
        Some(stored) => trimmed(&chars_of(stored.as_str())).len() > 0,
        None => false,
    }
}

/// A key is there exactly if the store has one that is more than white space, and
/// then it is used as it is stored.
pub proof fn a_blank_key_is_none(stored: Option<String>, key: Option<String>, has: bool)
    requires
        call_ensures(api_key, (stored,), key),
        call_ensures(has_api_key, (&stored,), has),
    ensures
        has <==> key is Some,
        has <==> (stored matches Some(text) && trim(text@).len() > 0),
        key matches Some(text) ==> (stored matches Some(kept) && text@ == kept@),
{
}

} // verus!
