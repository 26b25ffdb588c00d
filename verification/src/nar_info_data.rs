//! `.narinfo` files: finding the NAR file they point to and rewriting their
//! `URL:` field so that the NAR is fetched through this proxy.
use vstd::prelude::*;

use crate::nar_file_name::{is_nar_file_char, valid_nar_file_name, NarFileName, TryNewNarFileNameError};
use crate::text::{
    first_non_ws_from, has_char, lemma_lines_have_no_newline, lemma_lines_of_join, rejoinable,
    trim_end, trimmed_end_len,
};
use crate::text::{
    after_last_slash, chars_of, has_prefix, join_lines, lines, rows, string_from_chars,
    strip_repeated_prefix, trim, vec_after_last_slash, vec_append, vec_has_prefix, vec_join_lines,
    vec_lines, vec_slice, vec_strip_repeated_prefix, vec_trim,
};

verus! {

/// The characters of `"URL:"`.
pub open spec fn url_key() -> Seq<char> {
    seq!['U', 'R', 'L', ':']
}

/// The characters of `"URL: nar/"`.
pub open spec fn rewritten_url_prefix() -> Seq<char> {
    seq!['U', 'R', 'L', ':', ' ', 'n', 'a', 'r', '/']
}

/// A line that holds the `URL:` field.
pub open spec fn is_url_line(l: Seq<char>) -> bool {
    has_prefix(l, url_key())
}

/// Index of the first `URL:` line at or after `i`.
pub open spec fn first_url_line_from(ls: Seq<Seq<char>>, i: int) -> Option<int>
    decreases ls.len() - i,
{
    if i < 0 || i >= ls.len() {
        None
    } else if is_url_line(ls[i]) {
        Some(i)
    } else {
        first_url_line_from(ls, i + 1)
    }
}

/// Index of the first `URL:` line.
pub open spec fn first_url_line(ls: Seq<Seq<char>>) -> Option<int> {
    first_url_line_from(ls, 0)
}

/// The value of a `URL:` line: the line without its `URL:` prefixes, trimmed.
pub open spec fn url_field_value(l: Seq<char>) -> Seq<char> {
    trim(strip_repeated_prefix(l, url_key()))
}

/// The NAR file a `URL:` line names: the last path segment of its value.
pub open spec fn nar_file_of_line(l: Seq<char>) -> Seq<char> {
    after_last_slash(url_field_value(l))
}

/// The NAR file named by the first `URL:` line of a narinfo text, if it has
/// one.
pub open spec fn url_field_file(content: Seq<char>) -> Option<Seq<char>> {
    match first_url_line(lines(content)) {
        Some(k) => Some(nar_file_of_line(lines(content)[k])),
        None => None,
    }
}

/// The `URL:` line that points at `nar/<file>`.
pub open spec fn rewritten_url_line(file: Seq<char>) -> Seq<char> {
    rewritten_url_prefix() + file
}

/// Every `URL:` line replaced by the one that points at `nar/<file>`.
pub open spec fn rewrite_lines(ls: Seq<Seq<char>>, file: Seq<char>) -> Seq<Seq<char>> {
    Seq::new(ls.len(), |i: int| if is_url_line(ls[i]) { rewritten_url_line(file) } else { ls[i] })
}

/// The narinfo text with every `URL:` line pointing at `nar/<file>`, its
/// lines joined by `'\n'`.
pub open spec fn rewritten_content(content: Seq<char>, file: Seq<char>) -> Seq<char> {
    join_lines(rewrite_lines(lines(content), file))
}

/// The first `URL:` line is the first line that is one.
proof fn lemma_first_url_line_at(ls: Seq<Seq<char>>, k: int, i: int)
    requires
        0 <= i <= k < ls.len(),
        is_url_line(ls[k]),
        forall|j: int| 0 <= j < k ==> !is_url_line(#[trigger] ls[j]),
    ensures
        first_url_line_from(ls, i) == Some(k),
    decreases k - i,
{
    if i < k {
        lemma_first_url_line_at(ls, k, i + 1);
    }
}

/// The first `URL:` line found is a `URL:` line, and none comes before it.
proof fn lemma_first_url_line_props(ls: Seq<Seq<char>>, i: int)
    requires
        0 <= i,
    ensures
        first_url_line_from(ls, i) matches Some(k) ==> i <= k < ls.len() && is_url_line(ls[k])
            && forall|j: int| i <= j < k ==> !is_url_line(#[trigger] ls[j]),
    decreases ls.len() - i,
{
    if i < ls.len() && !is_url_line(ls[i]) {
        lemma_first_url_line_props(ls, i + 1);
    }
}

/// The last path segment of `a + f`, where `a` ends with `/` and `f` holds
/// no `/`, is `f`.
proof fn lemma_after_last_slash_of_file(a: Seq<char>, f: Seq<char>)
    requires
        a.len() > 0,
        a.last() == '/',
        forall|i: int| 0 <= i < f.len() ==> #[trigger] f[i] != '/',
    ensures
        after_last_slash(a + f) == f,
    decreases f.len(),
{
    if f.len() > 0 {
        let f1 = f.drop_last();
        lemma_after_last_slash_of_file(a, f1);
        assert((a + f).drop_last() =~= a + f1);
    }
}

/// The rewritten `URL:` line names the same file again.
pub proof fn lemma_rewritten_line_names_file(f: Seq<char>)
    requires
        valid_nar_file_name(f),
    ensures
        is_url_line(rewritten_url_line(f)),
        nar_file_of_line(rewritten_url_line(f)) == f,
        !has_char(rewritten_url_line(f), '\n'),
        rewritten_url_line(f).len() > 0,
        rewritten_url_line(f).last() != '\r',
{
    let l = rewritten_url_line(f);
    assert(l.take(4) =~= url_key());
    let rest = l.skip(4);
    assert(strip_repeated_prefix(rest, url_key()) == rest);
    // Trimming removes the leading space only.
    assert(first_non_ws_from(rest, 1) == 1);
    let t = rest.skip(1);
    assert(t =~= seq!['n', 'a', 'r', '/'] + f);
    assert(url_field_value(l) == t);
    assert forall|i: int| 0 <= i < f.len() implies #[trigger] f[i] != '/' by {
    }
    lemma_after_last_slash_of_file(seq!['n', 'a', 'r', '/'], f);
    assert(!has_char(l, '\n')) by {
        if has_char(l, '\n') {
            let k = choose|k: int| 0 <= k < l.len() && l[k] == '\n';
        }
    }
}

/// The lines of a narinfo can be rewritten and read back unchanged: no line
/// but the last ends with a carriage return, and the text does not end with
/// an empty line.
pub open spec fn cleanly_rewritable(content: Seq<char>) -> bool {
    let ls = lines(content);
    &&& forall|i: int|
        0 <= i < ls.len() - 1 ==> !(#[trigger] ls[i].len() > 0 && ls[i].last() == '\r')
    &&& ls.len() > 0 ==> ls.last().len() > 0
}

/// Rewriting is idempotent: the rewritten narinfo names the same NAR file,
/// and rewriting it again changes nothing. Every `URL:` line of the
/// rewritten narinfo points at `nar/<file>`.
pub proof fn lemma_rewrite_is_idempotent(content: Seq<char>)
    requires
        url_field_file(content) matches Some(f) && valid_nar_file_name(f),
        cleanly_rewritable(content),
    ensures
        ({
            let f = url_field_file(content)->0;
            let rewritten = rewritten_content(content, f);
            &&& url_field_file(rewritten) == Some(f)
            &&& rewritten_content(rewritten, f) == rewritten
            &&& forall|i: int|
                0 <= i < lines(rewritten).len() && is_url_line(#[trigger] lines(rewritten)[i])
                    ==> lines(rewritten)[i] == rewritten_url_line(f)
        }),
{
    let f = url_field_file(content)->0;
    let ls = lines(content);
    let k = first_url_line(ls)->0;
    lemma_first_url_line_props(ls, 0);
    lemma_rewritten_line_names_file(f);
    lemma_lines_have_no_newline(content);
    let r = rewrite_lines(ls, f);
    assert(rejoinable(r)) by {
        assert forall|i: int| 0 <= i < r.len() implies !has_char(#[trigger] r[i], '\n') by {
        }
        assert forall|i: int| 0 <= i < r.len() - 1 implies !(#[trigger] r[i].len() > 0
            && r[i].last() == '\r') by {
        }
    }
    lemma_lines_of_join(r);
    let rewritten = rewritten_content(content, f);
    assert forall|j: int| 0 <= j < k implies !is_url_line(#[trigger] r[j]) by {
    }
    lemma_first_url_line_at(r, k, 0);
    assert(rewrite_lines(r, f) =~= r);
}

/// Why a text is not a usable narinfo.
#[derive(Debug, Clone, Copy, PartialEq, Eq)]
#[non_exhaustive]
pub enum TryNewNarInfoData {
    /// The text has no `URL:` line.
    NoUrlField,
    /// The last path segment of the first `URL:` value is not a NAR file name.
    InvalidNarFileName { source: TryNewNarFileNameError },
}

/// A narinfo whose `URL:` lines point at `nar/<file>` on this proxy.
#[derive(Debug, PartialEq, Eq, Hash)]
pub struct NarInfoData {
    content: String,
    nar_file: NarFileName,
}

impl View for NarInfoData {
    /// The rewritten text and the NAR file name.
    type V = (Seq<char>, Seq<char>);

    closed spec fn view(&self) -> (Seq<char>, Seq<char>) {
        (self.content@, self.nar_file@)
    }
}

fn first_url_line_index(ls: &Vec<Vec<char>>, key: &Vec<char>) -> (r: Option<usize>)
    requires
        key@ == url_key(),
    ensures
        match r {
            Some(k) => first_url_line(rows(ls@)) == Some(k as int) && k < ls.len(),
            None => first_url_line(rows(ls@)) is None,
        },
{
    let mut k: usize = 0;
    while k < ls.len()
        invariant
            key@ == url_key(),
            k <= ls.len(),
            first_url_line(rows(ls@)) == first_url_line_from(rows(ls@), k as int),
        decreases ls.len() - k,
    {
        if vec_has_prefix(&ls[k], key) {
            return Some(k);
        }
        k = k + 1;
    }
    None
}

impl NarInfoData {
    /// Reads a narinfo: finds the first `URL:` line, takes the last path
    /// segment of its value as the NAR file name, and rewrites every `URL:`
    /// line to `URL: nar/<file>`. The lines are joined with `'\n'`, so the
    /// text loses a final line ending.
    pub fn new(original_content: String) -> (r: Result<NarInfoData, TryNewNarInfoData>)
        ensures
            match url_field_file(original_content@) {
                None => r == Err::<NarInfoData, _>(TryNewNarInfoData::NoUrlField),
                Some(f) => if valid_nar_file_name(f) {
                    r matches Ok(d) && d@ == (rewritten_content(original_content@, f), f)
                } else {
                    r == Err::<NarInfoData, _>(
                        TryNewNarInfoData::InvalidNarFileName {
                            source: if f.len() == 0 {
                                TryNewNarFileNameError::Empty
                            } else {
                                TryNewNarFileNameError::InvalidCharacter
                            },
                        },
                    )
                },
            },
    {
        let v = chars_of(original_content.as_str());
        let ls = vec_lines(&v);
        let key = vec!['U', 'R', 'L', ':'];
        let k = match first_url_line_index(&ls, &key) {
            Some(k) => k,
            None => return Err(TryNewNarInfoData::NoUrlField),
        };
        let stripped = vec_strip_repeated_prefix(&ls[k], &key);
        let value = vec_trim(&stripped);
        let file = vec_after_last_slash(&value);
        let nar_file = match NarFileName::from_chars(&file) {
            Ok(n) => n,
            Err(e) => return Err(TryNewNarInfoData::InvalidNarFileName { source: e }),
        };
        let mut url_line = vec!['U', 'R', 'L', ':', ' ', 'n', 'a', 'r', '/'];
        vec_append(&mut url_line, &file);
        let ghost src = rows(ls@);
        let mut out: Vec<Vec<char>> = Vec::new();
        let mut i: usize = 0;
        while i < ls.len()
            invariant
                key@ == url_key(),
                src == rows(ls@),
                url_line@ == rewritten_url_line(file@),
                i <= ls.len(),
                rows(out@) =~= rewrite_lines(src, file@).take(i as int),
            decreases ls.len() - i,
        {
            let line = if vec_has_prefix(&ls[i], &key) {
                vec_slice(&url_line, 0, url_line.len())
            } else {
                vec_slice(&ls[i], 0, ls[i].len())
            };
            let ghost old_out = rows(out@);
            let ghost line_view = line@;
            assert(line_view == rewrite_lines(src, file@)[i as int]);
            out.push(line);
            assert(rows(out@) =~= old_out.push(line_view));
            i = i + 1;
        }
        assert(rewrite_lines(src, file@).take(ls.len() as int) =~= rewrite_lines(src, file@));
        let joined = vec_join_lines(&out);
        Ok(NarInfoData { content: string_from_chars(&joined), nar_file })
    }

    /// The rewritten narinfo text.
    pub fn content(&self) -> (r: &String)
        ensures
            r@ == self@.0,
    {
        &self.content
    }

    /// The NAR file the narinfo points at.
    pub fn nar_file(&self) -> (r: &NarFileName)
        ensures
            r@ == self@.1,
    {
        &self.nar_file
    }

    /// A copy of the narinfo.
    pub fn duplicate(&self) -> (r: NarInfoData)
        ensures
            r@ == self@,
    {
        NarInfoData { content: self.content.clone(), nar_file: self.nar_file.duplicate() }
    }
}

impl Clone for NarInfoData {
    fn clone(&self) -> (r: Self)
        ensures
            r@ == self@,
    {
        self.duplicate()
    }
}

} // verus!
