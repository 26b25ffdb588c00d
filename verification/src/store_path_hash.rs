//! The hash part of a Nix store path, which names a `.narinfo` file.
use vstd::prelude::*;

use crate::text::{chars_of, string_from_chars};

verus! {

/// A character of Nix's base-32 alphabet (`0-9`, `a-z` without `e`, `o`,
/// `u`, `t`).
pub open spec fn is_nix_base32_char(c: char) -> bool {
    ('0' <= c && c <= '9') || ('a' <= c && c <= 'z' && c != 'e' && c != 'o' && c != 'u' && c
        != 't')
}

/// A valid store path hash: 32 characters of Nix's base-32 alphabet.
pub open spec fn valid_store_path_hash(s: Seq<char>) -> bool {
    s.len() == 32 && forall|i: int| 0 <= i < s.len() ==> is_nix_base32_char(#[trigger] s[i])
}

/// Why a text is not a store path hash.
#[derive(Debug, Clone, Copy, PartialEq, Eq, Hash)]
pub enum TryNewStorePathHashError {
    /// The text is not 32 characters long.
    InvalidLength,
    /// The text holds a character outside Nix's base-32 alphabet.
    InvalidCharacter,
}

/// The 32-character hash that starts the name of a store path.
#[derive(Debug, PartialEq, Eq, Hash)]
pub struct StorePathHash {
    value: String,
}

impl View for StorePathHash {
    type V = Seq<char>;

    closed spec fn view(&self) -> Seq<char> {
        self.value@
    }
}

fn base32_char(c: char) -> (r: bool)
    ensures
        r == is_nix_base32_char(c),
{
    ('0' <= c && c <= '9') || ('a' <= c && c <= 'z' && c != 'e' && c != 'o' && c != 'u' && c
        != 't')
}

impl StorePathHash {
    #[verifier::type_invariant]
    spec fn wf(self) -> bool {
        valid_store_path_hash(self.value@)
    }

    /// Checks a store path hash.
    pub fn new(value: String) -> (r: Result<StorePathHash, TryNewStorePathHashError>)
        ensures
            r matches Ok(h) ==> h@ == value@,
            r is Ok <==> valid_store_path_hash(value@),
            r == Err::<StorePathHash, _>(TryNewStorePathHashError::InvalidLength) <==> value@.len()
                != 32,
    {
        let v = chars_of(value.as_str());
        Self::from_chars(&v)
    }

    /// Checks a store path hash given as characters (see [`StorePathHash::new`]).
    pub fn from_chars(v: &Vec<char>) -> (r: Result<StorePathHash, TryNewStorePathHashError>)
        ensures
            r matches Ok(h) ==> h@ == v@,
            r is Ok <==> valid_store_path_hash(v@),
            r == Err::<StorePathHash, _>(TryNewStorePathHashError::InvalidLength) <==> v@.len()
                != 32,
    {
        if v.len() != 32 {
            return Err(TryNewStorePathHashError::InvalidLength);
        }
        let mut i: usize = 0;
        while i < v.len()
            invariant
                v.len() == 32,
                i <= v.len(),
                forall|k: int| 0 <= k < i ==> is_nix_base32_char(#[trigger] v@[k]),
            decreases v.len() - i,
        {
            if !base32_char(v[i]) {
                return Err(TryNewStorePathHashError::InvalidCharacter);
            }
            i = i + 1;
        }
        Ok(StorePathHash { value: string_from_chars(v) })
    }

    /// The hash as text.
    pub fn value(&self) -> (r: &str)
        ensures
            r@ == self@,
            valid_store_path_hash(self@),
    {
        proof {
            use_type_invariant(self);
        }
        self.value.as_str()
    }

    /// A copy of the hash.
    pub fn duplicate(&self) -> (r: StorePathHash)
        ensures
            r@ == self@,
    {
        proof {
            use_type_invariant(self);
        }
        StorePathHash { value: self.value.clone() }
    }
}

impl Clone for StorePathHash {
    fn clone(&self) -> (r: Self)
        ensures
            r@ == self@,
    {
        self.duplicate()
    }
}

} // verus!
