//! Absolute `http`/`https` URLs of substituters and of the files they serve.
use vstd::prelude::*;

use crate::text::{chars_of, char_is_whitespace, has_prefix, is_ws, string_from_chars, vec_append};

verus! {

/// The characters of `"http://"`.
pub open spec fn http_scheme() -> Seq<char> {
    seq!['h', 't', 't', 'p', ':', '/', '/']
}

/// The characters of `"https://"`.
pub open spec fn https_scheme() -> Seq<char> {
    seq!['h', 't', 't', 'p', 's', ':', '/', '/']
}

/// Length of the scheme part (`"https://"` or `"http://"`) that `s` starts
/// with, or 0 when it starts with neither.
pub open spec fn scheme_len(s: Seq<char>) -> int {
    if has_prefix(s, https_scheme()) {
        8
    } else if has_prefix(s, http_scheme()) {
        7
    } else {
        0
    }
}

/// Index of the first `/` at or after `i` (`s.len()` when there is none).
pub open spec fn next_slash(s: Seq<char>, i: int) -> int
    decreases s.len() - i,
{
    if i < 0 || i >= s.len() {
        s.len() as int
    } else if s[i] == '/' {
        i
    } else {
        next_slash(s, i + 1)
    }
}

/// The host part: from the end of the scheme to the next `/`.
pub open spec fn host_of(s: Seq<char>) -> Seq<char> {
    s.subrange(scheme_len(s), next_slash(s, scheme_len(s)))
}

/// A URL that this crate accepts: an `http` or `https` scheme, a non-empty
/// host and no whitespace anywhere.
pub open spec fn valid_url(s: Seq<char>) -> bool {
    &&& scheme_len(s) > 0
    &&& host_of(s).len() > 0
    &&& forall|i: int| 0 <= i < s.len() ==> !is_ws(#[trigger] s[i])
}

/// Index of the last `/` in `s.take(j)`, or -1 when there is none.
pub open spec fn last_slash_before(s: Seq<char>, j: int) -> int
    decreases j,
{
    if j <= 0 || j > s.len() {
        -1
    } else if s[j - 1] == '/' {
        j - 1
    } else {
        last_slash_before(s, j - 1)
    }
}

/// The directory a URL lives in: the URL up to and including its last path
/// `/`, or the URL followed by `/` when its path is empty.
pub open spec fn directory(s: Seq<char>) -> Seq<char> {
    let k = last_slash_before(s, s.len() as int);
    if k >= scheme_len(s) {
        s.take(k + 1)
    } else {
        s.push('/')
    }
}

/// The URL itself when it ends with `/`, else the URL followed by `/`.
pub open spec fn dir_form(s: Seq<char>) -> Seq<char> {
    if s.len() > 0 && s.last() == '/' {
        s
    } else {
        s.push('/')
    }
}

/// Why a text is not a URL of this crate.
#[derive(Debug, Clone, Copy, PartialEq, Eq, Hash)]
pub enum TryNewUrlError {
    /// The text starts with neither `http://` nor `https://`.
    UnsupportedScheme,
    /// Nothing stands between the scheme and the path.
    EmptyHost,
    /// The text holds a whitespace character.
    Whitespace,
}

/// An absolute `http`/`https` URL.
#[derive(Debug, PartialEq, Eq, Hash)]
pub struct Url {
    value: String,
}

impl View for Url {
    type V = Seq<char>;

    closed spec fn view(&self) -> Seq<char> {
        self.value@
    }
}

/// `next_slash(s, i)` lies between `i` and the end of `s`; no `/` comes
/// before it, and a `/` stands at it unless it is the end.
pub proof fn lemma_next_slash_bounds(s: Seq<char>, i: int)
    requires
        0 <= i <= s.len(),
    ensures
        i <= next_slash(s, i) <= s.len(),
        forall|k: int| i <= k < next_slash(s, i) ==> s[k] != '/',
        next_slash(s, i) < s.len() ==> s[next_slash(s, i)] == '/',
    decreases s.len() - i,
{
    if i < s.len() && s[i] != '/' {
        lemma_next_slash_bounds(s, i + 1);
    }
}

/// `next_slash` only looks at characters up to the slash it finds.
pub proof fn lemma_next_slash_extend(s: Seq<char>, t: Seq<char>, i: int)
    requires
        0 <= i <= s.len(),
        next_slash(s, i) < s.len(),
        t.len() >= s.len(),
        forall|k: int| 0 <= k < s.len() ==> t[k] == s[k],
    ensures
        next_slash(t, i) == next_slash(s, i),
    decreases s.len() - i,
{
    if s[i] != '/' {
        lemma_next_slash_extend(s, t, i + 1);
    }
}

/// The scheme of a URL only depends on its first eight characters.
pub proof fn lemma_scheme_extend(s: Seq<char>, t: Seq<char>)
    requires
        scheme_len(s) > 0,
        t.len() >= s.len(),
        forall|k: int| 0 <= k < s.len() ==> t[k] == s[k],
    ensures
        scheme_len(t) == scheme_len(s),
{
    if has_prefix(s, https_scheme()) {
        assert(t.take(8) =~= s.take(8));
    } else {
        assert(t.take(7) =~= s.take(7));
    }
}

/// Extending a valid URL after its host by text without whitespace gives a
/// valid URL with the same host.
pub proof fn lemma_valid_url_extend(s: Seq<char>, extra: Seq<char>)
    requires
        valid_url(s),
        next_slash(s, scheme_len(s)) < s.len(),
        forall|i: int| 0 <= i < extra.len() ==> !is_ws(#[trigger] extra[i]),
    ensures
        valid_url(s + extra),
        scheme_len(s + extra) == scheme_len(s),
        host_of(s + extra) == host_of(s),
{
    let t = s + extra;
    lemma_scheme_extend(s, t);
    lemma_next_slash_bounds(s, scheme_len(s));
    lemma_next_slash_extend(s, t, scheme_len(s));
    assert forall|i: int| 0 <= i < t.len() implies !is_ws(#[trigger] t[i]) by {
    }
}

/// `last_slash_before` finds the last `/` before `j`.
pub proof fn lemma_last_slash(s: Seq<char>, j: int)
    requires
        0 <= j <= s.len(),
    ensures
        -1 <= last_slash_before(s, j) < j,
        last_slash_before(s, j) >= 0 ==> s[last_slash_before(s, j)] == '/',
        forall|k: int| last_slash_before(s, j) < k < j ==> s[k] != '/',
    decreases j,
{
    if j > 0 && s[j - 1] != '/' {
        lemma_last_slash(s, j - 1);
    }
}

/// The directory of a valid URL is a valid URL that ends with `/` and keeps
/// the host; the directory of a URL that ends with `/` is the URL itself.
pub proof fn lemma_directory_valid(s: Seq<char>)
    requires
        valid_url(s),
    ensures
        valid_url(directory(s)),
        scheme_len(directory(s)) == scheme_len(s),
        host_of(directory(s)) == host_of(s),
        directory(s).last() == '/',
        next_slash(directory(s), scheme_len(s)) < directory(s).len(),
        s.last() == '/' ==> directory(s) == s,
        directory(s).len() <= s.len() + 1,
        has_prefix(s, directory(s)) || directory(s) == s.push('/'),
{
    let k = last_slash_before(s, s.len() as int);
    lemma_last_slash(s, s.len() as int);
    lemma_next_slash_bounds(s, scheme_len(s));
    let h = next_slash(s, scheme_len(s));
    if k >= scheme_len(s) {
        // The host is not empty, so this slash lies after it.
        let d = s.take(k + 1);
        // d is a prefix of s; its scheme is the same.
        assert(scheme_len(d) == scheme_len(s)) by {
            if has_prefix(s, https_scheme()) {
                assert(d.take(8) =~= s.take(8));
            } else {
                assert(d.take(7) =~= s.take(7));
            }
        }
        assert(next_slash(d, scheme_len(s)) == h) by {
            if h < s.len() {
                lemma_next_slash_extend_prefix(s, d, scheme_len(s), h);
            }
        }
        assert forall|i: int| 0 <= i < d.len() implies !is_ws(#[trigger] d[i]) by {
        }
    } else {
        lemma_valid_url_push_slash(s);
    }
}

/// For a prefix `d` of `s` that reaches past the first `/` after `i`, the
/// first `/` after `i` is found at the same place.
pub proof fn lemma_next_slash_extend_prefix(s: Seq<char>, d: Seq<char>, i: int, h: int)
    requires
        0 <= i <= h < d.len() <= s.len(),
        h == next_slash(s, i),
        forall|k: int| 0 <= k < d.len() ==> d[k] == s[k],
    ensures
        next_slash(d, i) == h,
    decreases h - i,
{
    if s[i] != '/' {
        lemma_next_slash_bounds(s, i + 1);
        lemma_next_slash_extend_prefix(s, d, i + 1, h);
    }
}

/// Appending `/` to a valid URL whose path is empty keeps it valid.
pub proof fn lemma_valid_url_push_slash(s: Seq<char>)
    requires
        valid_url(s),
        next_slash(s, scheme_len(s)) == s.len(),
    ensures
        valid_url(s.push('/')),
        scheme_len(s.push('/')) == scheme_len(s),
        host_of(s.push('/')) == host_of(s),
        next_slash(s.push('/'), scheme_len(s)) == s.len(),
{
    let t = s.push('/');
    lemma_scheme_extend(s, t);
    lemma_next_slash_bounds(s, scheme_len(s));
    lemma_next_slash_push(s, scheme_len(s));
    assert forall|i: int| 0 <= i < t.len() implies !is_ws(#[trigger] t[i]) by {
    }
}

/// With no `/` from `i` to the end of `s`, the first `/` of `s.push('/')`
/// after `i` is the pushed one.
pub proof fn lemma_next_slash_push(s: Seq<char>, i: int)
    requires
        0 <= i <= s.len(),
        next_slash(s, i) == s.len(),
    ensures
        next_slash(s.push('/'), i) == s.len(),
    decreases s.len() - i,
{
    if i < s.len() {
        lemma_next_slash_push(s, i + 1);
    }
}

/// The directory form of a valid URL is a valid URL whose path holds a `/`,
/// and it is its own directory.
pub proof fn lemma_dir_form_valid(s: Seq<char>)
    requires
        valid_url(s),
    ensures
        valid_url(dir_form(s)),
        scheme_len(dir_form(s)) == scheme_len(s),
        host_of(dir_form(s)) == host_of(s),
        next_slash(dir_form(s), scheme_len(s)) < dir_form(s).len(),
        directory(dir_form(s)) == dir_form(s),
{
    lemma_next_slash_bounds(s, scheme_len(s));
    if s.len() > 0 && s.last() == '/' {
        lemma_directory_valid(s);
    } else {
        let t = s.push('/');
        if next_slash(s, scheme_len(s)) < s.len() {
            lemma_valid_url_extend(s, seq!['/']);
            assert(s + seq!['/'] =~= t);
            lemma_next_slash_extend(s, t, scheme_len(s));
        } else {
            lemma_valid_url_push_slash(s);
        }
        lemma_directory_valid(t);
    }
}

/// `f` holds no `/`.
pub open spec fn no_slash(f: Seq<char>) -> bool {
    forall|i: int| 0 <= i < f.len() ==> #[trigger] f[i] != '/'
}

/// The directory of a file URL `d + f`, where `d` is a valid directory URL
/// and the file name `f` holds no `/`, is `d`.
pub proof fn lemma_directory_of_file(d: Seq<char>, f: Seq<char>)
    requires
        valid_url(d),
        d.last() == '/',
        next_slash(d, scheme_len(d)) < d.len(),
        no_slash(f),
        forall|i: int| 0 <= i < f.len() ==> !is_ws(#[trigger] f[i]),
    ensures
        directory(d + f) == d,
{
    let t = d + f;
    lemma_valid_url_extend(d, f);
    lemma_last_slash_skip(t, d.len() as int, t.len() as int);
    lemma_next_slash_bounds(d, scheme_len(d));
}

/// With no `/` from `a` up to `j`, the last `/` before `j` is the last one
/// before `a`.
proof fn lemma_last_slash_skip(t: Seq<char>, a: int, j: int)
    requires
        0 <= a <= j <= t.len(),
        forall|i: int| a <= i < j ==> #[trigger] t[i] != '/',
    ensures
        last_slash_before(t, j) == last_slash_before(t, a),
    decreases j - a,
{
    if j > a {
        lemma_last_slash_skip(t, a, j - 1);
    }
}

impl Url {
    /// Every `Url` holds a valid URL.
    #[verifier::type_invariant]
    spec fn wf(self) -> bool {
        valid_url(self.value@)
    }

    /// Parses a URL; it must start with `http://` or `https://`, name a host
    /// and hold no whitespace.
    pub fn new(value: &str) -> (r: Result<Url, TryNewUrlError>)
        ensures
            r matches Ok(u) ==> u@ == value@,
            r is Ok <==> valid_url(value@),
            r == Err::<Url, _>(TryNewUrlError::UnsupportedScheme) <==> scheme_len(value@) == 0,
            r == Err::<Url, _>(TryNewUrlError::EmptyHost) <==> (scheme_len(value@) > 0 && host_of(
                value@,
            ).len() == 0),
            r == Err::<Url, _>(TryNewUrlError::Whitespace) <==> (scheme_len(value@) > 0 && host_of(
                value@,
            ).len() > 0 && exists|i: int| 0 <= i < value@.len() && is_ws(#[trigger] value@[i])),
    {
        let v = chars_of(value);
        Self::from_chars(&v)
    }

    /// Parses a URL given as characters (see [`Url::new`]).
    pub fn from_chars(v: &Vec<char>) -> (r: Result<Url, TryNewUrlError>)
        ensures
            r matches Ok(u) ==> u@ == v@,
            r is Ok <==> valid_url(v@),
            r == Err::<Url, _>(TryNewUrlError::UnsupportedScheme) <==> scheme_len(v@) == 0,
            r == Err::<Url, _>(TryNewUrlError::EmptyHost) <==> (scheme_len(v@) > 0 && host_of(
                v@,
            ).len() == 0),
            r == Err::<Url, _>(TryNewUrlError::Whitespace) <==> (scheme_len(v@) > 0 && host_of(
                v@,
            ).len() > 0 && exists|i: int| 0 <= i < v@.len() && is_ws(#[trigger] v@[i])),
    {
        let https = vec!['h', 't', 't', 'p', 's', ':', '/', '/'];
        let http = vec!['h', 't', 't', 'p', ':', '/', '/'];
        let start: usize = if crate::text::vec_has_prefix(v, &https) {
            8
        } else if crate::text::vec_has_prefix(v, &http) {
            7
        } else {
            return Err(TryNewUrlError::UnsupportedScheme);
        };
        let mut h = start;
        while h < v.len() && v[h] != '/'
            invariant
                start <= h <= v.len(),
                next_slash(v@, start as int) == next_slash(v@, h as int),
            decreases v.len() - h,
        {
            h = h + 1;
        }
        if h == start {
            return Err(TryNewUrlError::EmptyHost);
        }
        let mut i: usize = 0;
        while i < v.len()
            invariant
                i <= v.len(),
                scheme_len(v@) > 0,
                host_of(v@).len() > 0,
                forall|k: int| 0 <= k < i ==> !is_ws(#[trigger] v@[k]),
            decreases v.len() - i,
        {
            if char_is_whitespace(v[i]) {
                return Err(TryNewUrlError::Whitespace);
            }
            i = i + 1;
        }
        Ok(Url { value: string_from_chars(v) })
    }

    /// The URL as text.
    pub fn value(&self) -> (r: &str)
        ensures
            r@ == self@,
            valid_url(self@),
    {
        proof {
            use_type_invariant(self);
        }
        self.value.as_str()
    }

    /// Whether two URLs are the same text.
    pub fn same_as(&self, other: &Url) -> (r: bool)
        ensures
            r == (self@ == other@),
    {
        self.value == other.value
    }

    /// A copy of the URL.
    pub fn duplicate(&self) -> (r: Url)
        ensures
            r@ == self@,
    {
        proof {
            use_type_invariant(self);
        }
        Url { value: self.value.clone() }
    }

    /// The URL with a trailing `/` (unchanged when it already has one).
    pub fn as_dir(&self) -> (r: Url)
        ensures
            r@ == dir_form(self@),
            valid_url(self@),
    {
        proof {
            use_type_invariant(self);
        }
        let mut v = chars_of(self.value.as_str());
        if v.len() > 0 && v[v.len() - 1] == '/' {
            return self.duplicate();
        }
        proof {
            lemma_next_slash_bounds(v@, scheme_len(v@));
            let h = next_slash(v@, scheme_len(v@));
            if h < v@.len() {
                lemma_valid_url_extend(v@, seq!['/']);
                assert(v@ + seq!['/'] =~= v@.push('/'));
            } else {
                lemma_valid_url_push_slash(v@);
            }
        }
        v.push('/');
        Url { value: string_from_chars(&v) }
    }

    /// The directory of the URL: up to and including the last `/` of its
    /// path, or the URL followed by `/` when it has no path.
    pub fn get_dir(&self) -> (r: Url)
        ensures
            r@ == directory(self@),
    {
        proof {
            use_type_invariant(self);
            lemma_directory_valid(self@);
            lemma_last_slash(self@, self@.len() as int);
        }
        let v = chars_of(self.value.as_str());
        let start: usize = if v.len() >= 8 && v[4] == 's' {
            8
        } else {
            7
        };
        let mut j: usize = v.len();
        while j > 0 && v[j - 1] != '/'
            invariant
                j <= v.len(),
                last_slash_before(v@, v@.len() as int) == last_slash_before(v@, j as int),
            decreases j,
        {
            j = j - 1;
        }
        if j >= 1 && j - 1 >= start {
            let d = crate::text::vec_slice(&v, 0, j);
            Url { value: string_from_chars(&d) }
        } else {
            let mut d = crate::text::vec_slice(&v, 0, v.len());
            d.push('/');
            assert(d@ =~= v@.push('/'));
            Url { value: string_from_chars(&d) }
        }
    }

    /// Resolves a relative reference without whitespace against the URL:
    /// the directory of the URL followed by `relative`.
    pub fn join(&self, relative: &str) -> (r: Result<Url, TryNewUrlError>)
        ensures
            r matches Ok(u) ==> u@ == directory(self@) + relative@,
            r is Ok <==> forall|i: int| 0 <= i < relative@.len() ==> !is_ws(#[trigger] relative@[i]),
            r is Err ==> r == Err::<Url, _>(TryNewUrlError::Whitespace),
    {
        proof {
            use_type_invariant(self);
            lemma_directory_valid(self@);
        }
        let dir = self.get_dir();
        let mut v = chars_of(dir.value.as_str());
        let rel = chars_of(relative);
        vec_append(&mut v, &rel);
        proof {
            if forall|i: int| 0 <= i < relative@.len() ==> !is_ws(#[trigger] relative@[i]) {
                lemma_valid_url_extend(directory(self@), relative@);
            } else {
                let i = choose|i: int| 0 <= i < relative@.len() && is_ws(#[trigger] relative@[i]);
                assert(v@[directory(self@).len() + i] == relative@[i]);
                // The scheme and the host stay those of the directory.
                lemma_scheme_extend(directory(self@), v@);
                lemma_next_slash_extend(directory(self@), v@, scheme_len(self@));
                lemma_next_slash_bounds(directory(self@), scheme_len(self@));
            }
        }
        Self::from_chars(&v)
    }
}

impl Clone for Url {
    fn clone(&self) -> (r: Self)
        ensures
            r@ == self@,
    {
        self.duplicate()
    }
}

} // verus!
