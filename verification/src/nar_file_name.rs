//! Names of NAR files (`<hash>.nar.<compression>`) as they appear in URLs.
use vstd::prelude::*;

use crate::text::{chars_of, is_ws, string_from_chars};
use crate::url::{dir_form, directory, lemma_dir_form_valid, valid_url, Url};

verus! {

/// A character allowed in a NAR file name: an ASCII letter or digit, or one
/// of `.`, `-`, `_`, `+`.
pub open spec fn is_nar_file_char(c: char) -> bool {
    ||| ('a' <= c && c <= 'z')
    ||| ('A' <= c && c <= 'Z')
    ||| ('0' <= c && c <= '9')
    ||| c == '.'
    ||| c == '-'
    ||| c == '_'
    ||| c == '+'
}

/// A valid NAR file name: not empty, and made of allowed characters only
/// (so it holds no `/` and no whitespace).
pub open spec fn valid_nar_file_name(s: Seq<char>) -> bool {
    s.len() > 0 && forall|i: int| 0 <= i < s.len() ==> is_nar_file_char(#[trigger] s[i])
}

/// Why a text is not a NAR file name.
#[derive(Debug, Clone, Copy, PartialEq, Eq, Hash)]
pub enum TryNewNarFileNameError {
    /// The name is empty.
    Empty,
    /// The name holds a character other than letters, digits, `.`, `-`, `_`, `+`.
    InvalidCharacter,
}

/// The file name of a NAR archive.
#[derive(Debug, PartialEq, Eq, Hash)]
pub struct NarFileName {
    value: String,
}

impl View for NarFileName {
    type V = Seq<char>;

    closed spec fn view(&self) -> Seq<char> {
        self.value@
    }
}

fn char_allowed(c: char) -> (r: bool)
    ensures
        r == is_nar_file_char(c),
{
    ('a' <= c && c <= 'z') || ('A' <= c && c <= 'Z') || ('0' <= c && c <= '9') || c == '.' || c
        == '-' || c == '_' || c == '+'
}

impl NarFileName {
    #[verifier::type_invariant]
    spec fn wf(self) -> bool {
        valid_nar_file_name(self.value@)
    }

    /// Checks a NAR file name.
    pub fn new(value: String) -> (r: Result<NarFileName, TryNewNarFileNameError>)
        ensures
            r matches Ok(n) ==> n@ == value@,
            r is Ok <==> valid_nar_file_name(value@),
            r == Err::<NarFileName, _>(TryNewNarFileNameError::Empty) <==> value@.len() == 0,
    {
        let v = chars_of(value.as_str());
        Self::from_chars(&v)
    }

    /// Checks a NAR file name given as characters (see [`NarFileName::new`]).
    pub fn from_chars(v: &Vec<char>) -> (r: Result<NarFileName, TryNewNarFileNameError>)
        ensures
            r matches Ok(n) ==> n@ == v@,
            r is Ok <==> valid_nar_file_name(v@),
            r == Err::<NarFileName, _>(TryNewNarFileNameError::Empty) <==> v@.len() == 0,
    {
        if v.len() == 0 {
            return Err(TryNewNarFileNameError::Empty);
        }
        let mut i: usize = 0;
        while i < v.len()
            invariant
                i <= v.len(),
                forall|k: int| 0 <= k < i ==> is_nar_file_char(#[trigger] v@[k]),
            decreases v.len() - i,
        {
            if !char_allowed(v[i]) {
                return Err(TryNewNarFileNameError::InvalidCharacter);
            }
            i = i + 1;
        }
        Ok(NarFileName { value: string_from_chars(v) })
    }

    /// The name as text.
    pub fn value(&self) -> (r: &str)
        ensures
            r@ == self@,
            valid_nar_file_name(self@),
    {
        proof {
            use_type_invariant(self);
        }
        self.value.as_str()
    }

    /// A copy of the name.
    pub fn duplicate(&self) -> (r: NarFileName)
        ensures
            r@ == self@,
    {
        proof {
            use_type_invariant(self);
        }
        NarFileName { value: self.value.clone() }
    }

    /// Whether two names are the same text.
    pub fn same_as(&self, other: &NarFileName) -> (r: bool)
        ensures
            r == (self@ == other@),
    {
        self.value == other.value
    }

    /// The URL of this file under a storage prefix: the prefix as a
    /// directory, followed by the name.
    pub fn with_storage_prefix(&self, prefix: &Url) -> (r: Url)
        ensures
            r@ == dir_form(prefix@) + self@,
    {
        proof {
            use_type_invariant(self);
        }
        let name = self.value.as_str();
        let dir = prefix.as_dir();
        proof {
            lemma_dir_form_valid(prefix@);
            assert forall|i: int| 0 <= i < name@.len() implies !is_ws(#[trigger] name@[i]) by {
            }
        }
        let joined = dir.join(name);
        joined.unwrap()
    }
}

impl Clone for NarFileName {
    fn clone(&self) -> (r: Self)
        ensures
            r@ == self@,
    {
        self.duplicate()
    }
}

} // verus!
