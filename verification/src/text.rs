//! Character-level text helpers shared by the parsers of this crate.
//!
//! Text is handled as `Vec<char>` in executable code and as `Seq<char>` in
//! specifications. The spec functions here describe the standard library's
//! `str::lines`, `str::trim`, `str::starts_with` and `str::rfind` on such
//! sequences, so that contracts can speak of them directly.
use vstd::prelude::*;

verus! {

/// Unicode `White_Space`, the property behind `char::is_whitespace`.
pub open spec fn is_ws(c: char) -> bool {
    ||| ('\u{9}' <= c && c <= '\u{d}')
    ||| c == ' '
    ||| c == '\u{85}'
    ||| c == '\u{a0}'
    ||| c == '\u{1680}'
    ||| ('\u{2000}' <= c && c <= '\u{200a}')
    ||| c == '\u{2028}'
    ||| c == '\u{2029}'
    ||| c == '\u{202f}'
    ||| c == '\u{205f}'
    ||| c == '\u{3000}'
}

/// Executable form of [`is_ws`].
pub fn char_is_whitespace(c: char) -> (r: bool)
    ensures
        r == is_ws(c),
{
    ('\u{9}' <= c && c <= '\u{d}') || c == ' ' || c == '\u{85}' || c == '\u{a0}' || c
        == '\u{1680}' || ('\u{2000}' <= c && c <= '\u{200a}') || c == '\u{2028}' || c
        == '\u{2029}' || c == '\u{202f}' || c == '\u{205f}' || c == '\u{3000}'
}

/// `p` is a prefix of `s`.
pub open spec fn has_prefix(s: Seq<char>, p: Seq<char>) -> bool {
    p.len() <= s.len() && s.take(p.len() as int) == p
}

/// `p` is a suffix of `s`.
pub open spec fn has_suffix(s: Seq<char>, p: Seq<char>) -> bool {
    p.len() <= s.len() && s.skip(s.len() - p.len()) == p
}

/// `c` occurs in `s`.
pub open spec fn has_char(s: Seq<char>, c: char) -> bool {
    exists|i: int| 0 <= i < s.len() && s[i] == c
}

/// Index of the first character at or after `i` that is not whitespace
/// (`s.len()` when there is none).
pub open spec fn first_non_ws_from(s: Seq<char>, i: int) -> int
    decreases s.len() - i,
{
    if i < 0 || i >= s.len() {
        s.len() as int
    } else if is_ws(s[i]) {
        first_non_ws_from(s, i + 1)
    } else {
        i
    }
}

/// Length of `s.take(j)` once its trailing whitespace is removed.
pub open spec fn trimmed_end_len(s: Seq<char>, j: int) -> int
    decreases j,
{
    if j <= 0 || j > s.len() {
        0
    } else if is_ws(s[j - 1]) {
        trimmed_end_len(s, j - 1)
    } else {
        j
    }
}

/// `s` without leading whitespace (`str::trim_start`).
pub open spec fn trim_start(s: Seq<char>) -> Seq<char> {
    s.skip(first_non_ws_from(s, 0))
}

/// `s` without trailing whitespace (`str::trim_end`).
pub open spec fn trim_end(s: Seq<char>) -> Seq<char> {
    s.take(trimmed_end_len(s, s.len() as int))
}

/// `s` without leading and trailing whitespace (`str::trim`).
pub open spec fn trim(s: Seq<char>) -> Seq<char> {
    trim_end(trim_start(s))
}

/// `s` with `p` removed from its front as long as it is there
/// (`str::trim_start_matches` with a string pattern).
pub open spec fn strip_repeated_prefix(s: Seq<char>, p: Seq<char>) -> Seq<char>
    decreases s.len(),
{
    if p.len() > 0 && has_prefix(s, p) {
        strip_repeated_prefix(s.skip(p.len() as int), p)
    } else {
        s
    }
}

/// The part of `s` after its last `/`, or all of `s` when it has none.
pub open spec fn after_last_slash(s: Seq<char>) -> Seq<char>
    decreases s.len(),
{
    if s.len() == 0 {
        s
    } else if s.last() == '/' {
        Seq::empty()
    } else {
        after_last_slash(s.drop_last()).push(s.last())
    }
}

/// The pieces of `s` between `'\n'` characters: one more piece than there
/// are newlines (`str::split('\n')`).
pub open spec fn split_newlines(s: Seq<char>) -> Seq<Seq<char>>
    decreases s.len(),
{
    if s.len() == 0 {
        seq![Seq::empty()]
    } else {
        let p = split_newlines(s.drop_last());
        if s.last() == '\n' {
            p.push(Seq::empty())
        } else {
            p.update(p.len() - 1, p.last().push(s.last()))
        }
    }
}

/// `l` without one trailing carriage return.
pub open spec fn strip_cr(l: Seq<char>) -> Seq<char> {
    if l.len() > 0 && l.last() == '\r' {
        l.drop_last()
    } else {
        l
    }
}

/// The lines of `s` as `str::lines` yields them: split at `'\n'`, a final
/// empty piece dropped, and a `'\r'` removed from the end of each line that
/// a `'\n'` ended.
pub open spec fn lines(s: Seq<char>) -> Seq<Seq<char>> {
    let p = split_newlines(s);
    let kept = if p.last().len() == 0 {
        p.drop_last()
    } else {
        p
    };
    Seq::new(kept.len(), |i: int| if i < p.len() - 1 { strip_cr(kept[i]) } else { kept[i] })
}

/// The lines joined with `'\n'` between them (`[..].join("\n")`).
pub open spec fn join_lines(ls: Seq<Seq<char>>) -> Seq<char>
    decreases ls.len(),
{
    if ls.len() == 0 {
        Seq::empty()
    } else if ls.len() == 1 {
        ls[0]
    } else {
        join_lines(ls.drop_last()).push('\n') + ls.last()
    }
}

/// The character sequences held by a vector of character vectors.
pub open spec fn rows(v: Seq<Vec<char>>) -> Seq<Seq<char>> {
    Seq::new(v.len(), |i: int| v[i]@)
}

/// Every piece of a split has no newline, and a split has at least one piece.
pub proof fn lemma_split_newlines_shape(s: Seq<char>)
    ensures
        split_newlines(s).len() >= 1,
        forall|i: int| #![trigger split_newlines(s)[i]] 0 <= i < split_newlines(s).len() ==> !has_char(split_newlines(s)[i], '\n'),
    decreases s.len(),
{
    if s.len() > 0 {
        lemma_split_newlines_shape(s.drop_last());
        let p = split_newlines(s.drop_last());
        if s.last() != '\n' {
            let q = split_newlines(s);
            assert forall|i: int| 0 <= i < q.len() implies !has_char(#[trigger] q[i], '\n') by {
                if i == q.len() - 1 {
                    let l = p.last().push(s.last());
                    if has_char(l, '\n') {
                        let k = choose|k: int| 0 <= k < l.len() && l[k] == '\n';
                    }
                }
            }
        } else {
            let q = split_newlines(s);
            assert forall|i: int| 0 <= i < q.len() implies !has_char(#[trigger] q[i], '\n') by {
            }
        }
    }
}

/// The decimal digit for `d` (`0 <= d < 10`).
pub open spec fn digit_char(d: nat) -> char {
    if d == 0 { '0' } else if d == 1 { '1' } else if d == 2 { '2' } else if d == 3 { '3' } else if d
        == 4 { '4' } else if d == 5 { '5' } else if d == 6 { '6' } else if d == 7 { '7' } else if d
        == 8 { '8' } else { '9' }
}

/// The decimal representation of `n`, without leading zeros (`"0"` for 0).
pub open spec fn decimal(n: nat) -> Seq<char>
    decreases n,
{
    if n < 10 {
        seq![digit_char(n)]
    } else {
        decimal(n / 10).push(digit_char(n % 10))
    }
}

/// An ASCII decimal digit.
pub open spec fn is_digit(c: char) -> bool {
    '0' <= c && c <= '9'
}

/// The number that a text of decimal digits denotes, read from the left.
pub open spec fn digits_value(s: Seq<char>) -> int
    decreases s.len(),
{
    if s.len() == 0 {
        0
    } else {
        digits_value(s.drop_last()) * 10 + (s.last() as int - '0' as int)
    }
}

proof fn lemma_digit_char_value(d: nat)
    requires
        d < 10,
    ensures
        is_digit(digit_char(d)),
        digit_char(d) as int - '0' as int == d,
        (digit_char(d) == '0') == (d == 0),
{
}

/// The decimal text of `n` reads back as `n`: it is made of digits, it is
/// not empty, its digits denote `n`, and it starts with `0` only for 0.
pub proof fn lemma_decimal_reads_back(n: nat)
    ensures
        decimal(n).len() >= 1,
        forall|i: int| 0 <= i < decimal(n).len() ==> is_digit(#[trigger] decimal(n)[i]),
        digits_value(decimal(n)) == n,
        decimal(n)[0] == '0' ==> n == 0,
    decreases n,
{
    if n < 10 {
        lemma_digit_char_value(n);
        assert(decimal(n).drop_last() =~= Seq::<char>::empty());
        assert(digits_value(Seq::<char>::empty()) == 0);
        assert(digits_value(decimal(n)) == digits_value(decimal(n).drop_last()) * 10 + (decimal(
            n,
        ).last() as int - '0' as int));
    } else {
        lemma_decimal_reads_back(n / 10);
        lemma_digit_char_value(n % 10);
        let d = decimal(n);
        assert(d.drop_last() =~= decimal(n / 10));
        assert forall|i: int| 0 <= i < d.len() implies is_digit(#[trigger] d[i]) by {
            if i < d.len() - 1 {
                assert(d[i] == decimal(n / 10)[i]);
            }
        }
        assert(n == (n / 10) * 10 + n % 10);
        assert(d.last() == digit_char(n % 10));
        assert(digits_value(d) == digits_value(d.drop_last()) * 10 + (d.last() as int - '0' as int));
        assert(d[0] == decimal(n / 10)[0]);
    }
}

fn digit(d: u64) -> (c: char)
    requires
        d < 10,
    ensures
        c == digit_char(d as nat),
{
    if d == 0 { '0' } else if d == 1 { '1' } else if d == 2 { '2' } else if d == 3 { '3' } else if d
        == 4 { '4' } else if d == 5 { '5' } else if d == 6 { '6' } else if d == 7 { '7' } else if d
        == 8 { '8' } else { '9' }
}

/// Appends the decimal representation of `n` (as `format!("{}", n)` writes it).
pub fn push_decimal(out: &mut Vec<char>, n: u64)
    ensures
        final(out)@ == old(out)@ + decimal(n as nat),
    decreases n,
{
    if n >= 10 {
        push_decimal(out, n / 10);
    }
    out.push(digit(n % 10));
}

/// Appending text without a newline to `x` extends the last piece of its
/// split.
pub proof fn lemma_split_append(x: Seq<char>, y: Seq<char>)
    requires
        !has_char(y, '\n'),
    ensures
        split_newlines(x + y) == split_newlines(x).update(
            split_newlines(x).len() - 1,
            split_newlines(x).last() + y,
        ),
    decreases y.len(),
{
    lemma_split_newlines_shape(x);
    if y.len() == 0 {
        assert(split_newlines(x).update(split_newlines(x).len() - 1, split_newlines(x).last())
            =~= split_newlines(x));
    } else {
        let y1 = y.drop_last();
        let c = y.last();
        assert(!has_char(y1, '\n')) by {
            if has_char(y1, '\n') {
                let k = choose|k: int| 0 <= k < y1.len() && y1[k] == '\n';
            }
        }
        lemma_split_append(x, y1);
        let t = x + y;
        assert(t.drop_last() =~= x + y1);
        let p = split_newlines(x);
        lemma_split_newlines_shape(x + y1);
        assert((p.last() + y1).push(c) =~= p.last() + y);
    }
}

/// Splitting lines that were joined gives them back.
pub proof fn lemma_split_join(ls: Seq<Seq<char>>)
    requires
        ls.len() >= 1,
        forall|i: int| 0 <= i < ls.len() ==> !has_char(#[trigger] ls[i], '\n'),
    ensures
        split_newlines(join_lines(ls)) == ls,
    decreases ls.len(),
{
    let e = Seq::<char>::empty();
    if ls.len() == 1 {
        lemma_split_append(e, ls[0]);
    } else {
        let pre = ls.drop_last();
        assert forall|i: int| 0 <= i < pre.len() implies !has_char(#[trigger] pre[i], '\n') by {
        }
        lemma_split_join(pre);
        let j = join_lines(pre).push('\n');
        assert(j.drop_last() =~= join_lines(pre));
        lemma_split_append(j, ls.last());
    }
}

/// Lines that can be joined and read back unchanged: none holds a newline,
/// none but the last ends with a carriage return, and the last is not empty.
pub open spec fn rejoinable(ls: Seq<Seq<char>>) -> bool {
    &&& forall|i: int| 0 <= i < ls.len() ==> !has_char(#[trigger] ls[i], '\n')
    &&& forall|i: int|
        0 <= i < ls.len() - 1 ==> !(#[trigger] ls[i].len() > 0 && ls[i].last() == '\r')
    &&& ls.len() > 0 ==> ls.last().len() > 0
}

/// Reading back joined lines gives the same lines.
pub proof fn lemma_lines_of_join(ls: Seq<Seq<char>>)
    requires
        rejoinable(ls),
    ensures
        lines(join_lines(ls)) == ls,
{
    if ls.len() > 0 {
        lemma_split_join(ls);
        assert forall|i: int| 0 <= i < ls.len() implies #[trigger] lines(join_lines(ls))[i] == ls[i] by {
        }
    }
}

/// Lines hold no newline.
pub proof fn lemma_lines_have_no_newline(s: Seq<char>)
    ensures
        forall|i: int| 0 <= i < lines(s).len() ==> !has_char(#[trigger] lines(s)[i], '\n'),
{
    lemma_split_newlines_shape(s);
    let p = split_newlines(s);
    let l = lines(s);
    assert forall|i: int| 0 <= i < l.len() implies !has_char(#[trigger] l[i], '\n') by {
        if i < p.len() - 1 && p[i].len() > 0 && p[i].last() == '\r' {
            if has_char(p[i].drop_last(), '\n') {
                let k = choose|k: int| 0 <= k < p[i].drop_last().len() && p[i].drop_last()[k] == '\n';
            }
        }
    }
}

/// Copies the characters of `s` into a vector.
pub fn chars_of(s: &str) -> (v: Vec<char>)
    ensures
        v@ == s@,
{
    let mut v: Vec<char> = Vec::new();
    for c in it: s.chars()
        invariant
            v@ == it.seq().take(it.index() as int),
            it.seq() == s@,
    {
        v.push(c);
    }
    v
}

/// Appends `c` to `s` with `String::push`, which, as its documentation
/// says, adds the character at the end of the string.
#[verifier::external_body]
fn push_char(s: &mut String, c: char)
    ensures
        final(s)@ == old(s)@.push(c),
{
    s.push(c)
}

/// Builds a `String` holding the characters of `v` in order.
pub fn string_from_chars(v: &Vec<char>) -> (s: String)
    ensures
        s@ == v@,
{
    let mut s = String::new();
    let mut i: usize = 0;
    while i < v.len()
        invariant
            i <= v.len(),
            s@ == v@.take(i as int),
        decreases v.len() - i,
    {
        push_char(&mut s, v[i]);
        assert(v@.take(i + 1) =~= v@.take(i as int).push(v@[i as int]));
        i = i + 1;
    }
    assert(v@.take(v.len() as int) =~= v@);
    s
}

/// Whether `v` begins with `p`.
pub fn vec_has_prefix(v: &Vec<char>, p: &Vec<char>) -> (r: bool)
    ensures
        r == has_prefix(v@, p@),
{
    if p.len() > v.len() {
        return false;
    }
    let mut i: usize = 0;
    while i < p.len()
        invariant
            p.len() <= v.len(),
            i <= p.len(),
            forall|k: int| 0 <= k < i ==> v@[k] == p@[k],
        decreases p.len() - i,
    {
        if v[i] != p[i] {
            return false;
        }
        i = i + 1;
    }
    assert(v@.take(p.len() as int) =~= p@);
    true
}

/// The characters of `v` from `start` to `end`.
pub fn vec_slice(v: &Vec<char>, start: usize, end: usize) -> (r: Vec<char>)
    requires
        start <= end <= v.len(),
    ensures
        r@ == v@.subrange(start as int, end as int),
{
    let mut r: Vec<char> = Vec::new();
    let mut i = start;
    while i < end
        invariant
            start <= i <= end <= v.len(),
            r@ == v@.subrange(start as int, i as int),
        decreases end - i,
    {
        r.push(v[i]);
        i = i + 1;
    }
    r
}

/// Appends the characters of `src` to `dst`.
pub fn vec_append(dst: &mut Vec<char>, src: &Vec<char>)
    ensures
        final(dst)@ == old(dst)@ + src@,
{
    let mut i: usize = 0;
    while i < src.len()
        invariant
            i <= src.len(),
            dst@ == old(dst)@ + src@.take(i as int),
        decreases src.len() - i,
    {
        dst.push(src[i]);
        i = i + 1;
    }
}

/// `str::trim` on a character vector.
pub fn vec_trim(v: &Vec<char>) -> (r: Vec<char>)
    ensures
        r@ == trim(v@),
{
    let mut a: usize = 0;
    while a < v.len() && char_is_whitespace(v[a])
        invariant
            a <= v.len(),
            first_non_ws_from(v@, 0) == first_non_ws_from(v@, a as int),
        decreases v.len() - a,
    {
        a = a + 1;
    }
    let t = vec_slice(v, a, v.len());
    let mut b: usize = t.len();
    while b > 0 && char_is_whitespace(t[b - 1])
        invariant
            b <= t.len(),
            trimmed_end_len(t@, t.len() as int) == trimmed_end_len(t@, b as int),
        decreases b,
    {
        b = b - 1;
    }
    vec_slice(&t, 0, b)
}

/// `str::trim_start_matches(p)` on a character vector.
pub fn vec_strip_repeated_prefix(v: &Vec<char>, p: &Vec<char>) -> (r: Vec<char>)
    requires
        p.len() > 0,
    ensures
        r@ == strip_repeated_prefix(v@, p@),
{
    let mut cur = vec_slice(v, 0, v.len());
    assert(cur@ =~= v@);
    loop
        invariant
            p.len() > 0,
            strip_repeated_prefix(cur@, p@) == strip_repeated_prefix(v@, p@),
        decreases cur.len(),
    {
        if vec_has_prefix(&cur, p) {
            cur = vec_slice(&cur, p.len(), cur.len());
        } else {
            return cur;
        }
    }
}

/// The characters after the last `/` of `v` (all of `v` when it has none).
pub fn vec_after_last_slash(v: &Vec<char>) -> (r: Vec<char>)
    ensures
        r@ == after_last_slash(v@),
{
    let mut j: usize = v.len();
    assert(v@.take(j as int) =~= v@);
    while j > 0 && v[j - 1] != '/'
        invariant
            j <= v.len(),
            after_last_slash(v@) == after_last_slash(v@.take(j as int)) + v@.skip(j as int),
        decreases j,
    {
        let ghost t = v@.take(j as int);
        assert(t.drop_last() =~= v@.take(j - 1));
        j = j - 1;
        assert(after_last_slash(v@.take(j as int)).push(t.last()) + v@.skip(j + 1) =~=
            after_last_slash(v@.take(j as int)) + v@.skip(j as int));
    }
    vec_slice(v, j, v.len())
}

/// Splits `v` at its newlines (`str::split('\n')`).
pub fn vec_split_newlines(v: &Vec<char>) -> (r: Vec<Vec<char>>)
    ensures
        rows(r@) == split_newlines(v@),
{
    let mut pieces: Vec<Vec<char>> = Vec::new();
    let mut cur: Vec<char> = Vec::new();
    let mut i: usize = 0;
    while i < v.len()
        invariant
            i <= v.len(),
            rows(pieces@).push(cur@) == split_newlines(v@.take(i as int)),
        decreases v.len() - i,
    {
        let ghost before = v@.take(i as int);
        let ghost after = v@.take(i + 1);
        assert(after.drop_last() =~= before);
        if v[i] == '\n' {
            let ghost old_cur = cur@;
            let done = cur;
            pieces.push(done);
            cur = Vec::new();
        } else {
            let ghost old_cur = cur@;
            cur.push(v[i]);
            assert(rows(pieces@).push(cur@) =~= split_newlines(before).update(
                split_newlines(before).len() - 1,
                old_cur.push(v@[i as int]),
            ));
        }
        i = i + 1;
    }
    assert(v@.take(v.len() as int) =~= v@);
    pieces.push(cur);
    pieces
}

/// Drops one trailing carriage return of `v`.
pub fn vec_strip_cr(v: &Vec<char>) -> (r: Vec<char>)
    ensures
        r@ == strip_cr(v@),
{
    if v.len() > 0 && v[v.len() - 1] == '\r' {
        vec_slice(v, 0, v.len() - 1)
    } else {
        vec_slice(v, 0, v.len())
    }
}

/// The lines of `v` as `str::lines` yields them.
pub fn vec_lines(v: &Vec<char>) -> (r: Vec<Vec<char>>)
    ensures
        rows(r@) == lines(v@),
{
    let p = vec_split_newlines(v);
    proof {
        lemma_split_newlines_shape(v@);
    }
    let n = p.len();
    let kept_len = if p[n - 1].len() == 0 {
        n - 1
    } else {
        n
    };
    let ghost ps = split_newlines(v@);
    let ghost kept = if ps.last().len() == 0 {
        ps.drop_last()
    } else {
        ps
    };
    let mut out: Vec<Vec<char>> = Vec::new();
    let mut i: usize = 0;
    while i < kept_len
        invariant
            n == ps.len(),
            rows(p@) == ps,
            kept_len == kept.len(),
            kept_len <= n,
            i <= kept_len,
            forall|k: int| 0 <= k < kept_len ==> kept[k] == ps[k],
            rows(out@) =~= Seq::new(i as nat, |k: int| if k < ps.len() - 1 { strip_cr(kept[k]) } else { kept[k] }),
        decreases kept_len - i,
    {
        let line = if i < n - 1 {
            vec_strip_cr(&p[i])
        } else {
            vec_slice(&p[i], 0, p[i].len())
        };
        assert(line@ == (if i < ps.len() - 1 { strip_cr(kept[i as int]) } else { kept[i as int] }));
        let ghost old_out = rows(out@);
        let ghost line_view = line@;
        out.push(line);
        assert(rows(out@) =~= old_out.push(line_view));
        i = i + 1;
    }
    out
}

/// Joins lines with `'\n'` between them.
pub fn vec_join_lines(ls: &Vec<Vec<char>>) -> (r: Vec<char>)
    ensures
        r@ == join_lines(rows(ls@)),
{
    let mut out: Vec<char> = Vec::new();
    let mut i: usize = 0;
    while i < ls.len()
        invariant
            i <= ls.len(),
            out@ == join_lines(rows(ls@).take(i as int)),
        decreases ls.len() - i,
    {
        let ghost before = rows(ls@).take(i as int);
        let ghost after = rows(ls@).take(i + 1);
        assert(after.drop_last() =~= before);
        if i > 0 {
            out.push('\n');
        }
        vec_append(&mut out, &ls[i]);
        i = i + 1;
    }
    assert(rows(ls@).take(ls.len() as int) =~= rows(ls@));
    out
}

} // verus!
