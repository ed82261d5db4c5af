//! Source text as lines: `str::lines` splitting, the lookup of one line for
//! error reports, and the removal of `//` comments before lexing.

use vstd::prelude::*;
use crate::text::{append_str, chars_of, push_char, string_of};

verus! {

/// The index of the first `\n` at or after `i`, or the length of `s`.
pub open spec fn line_end(s: Seq<char>, i: int) -> int
    decreases s.len() - i,
{
    if i >= s.len() {
        s.len() as int
    } else if s[i] == '\n' {
        i
    } else {
        line_end(s, i + 1)
    }
}

pub proof fn lemma_line_end(s: Seq<char>, i: int)
    requires
        0 <= i,
    ensures
        i <= line_end(s, i) || i > s.len(),
        line_end(s, i) <= s.len() || i > s.len(),
        i <= s.len() ==> (line_end(s, i) < s.len() ==> s[line_end(s, i)] == '\n'),
        i <= s.len() ==> forall|j: int| i <= j < line_end(s, i) ==> s[j] != '\n',
    decreases s.len() - i,
{
    if i < s.len() && s[i] != '\n' {
        lemma_line_end(s, i + 1);
    }
}

/// The text of the line `s[start..end]`, without the `\r` of a `\r\n` ending.
pub open spec fn line_body(s: Seq<char>, start: int, end: int) -> Seq<char> {
    if end < s.len() && end > start && s[end - 1] == '\r' {
        s.subrange(start, end - 1)
    } else {
        s.subrange(start, end)
    }
}

/// The lines of `s` from index `start` on.
pub open spec fn lines_from(s: Seq<char>, start: int) -> Seq<Seq<char>>
    decreases s.len() - start,
{
    if start < 0 || start >= s.len() {
        seq![]
    } else {
        let e = line_end(s, start);
        proof {
            lemma_line_end(s, start);
        }
        if e >= s.len() {
            seq![line_body(s, start, e)]
        } else {
            seq![line_body(s, start, e)] + lines_from(s, e + 1)
        }
    }
}

/// The lines of a text as `str::lines` yields them: split at `\n` or
/// `\r\n`, with no empty last line for a text that ends in a line break.
pub open spec fn source_lines(s: Seq<char>) -> Seq<Seq<char>> {
    lines_from(s, 0)
}

/// The line numbered `k` (from 0) of the text `v`, or `None` when the text
/// has no such line (where indexing the lines would panic).
pub fn nth_line(v: &Vec<char>, k: usize) -> (r: Option<String>)
    ensures
        match r {
            Some(l) => k < source_lines(v@).len() && l@ == source_lines(v@)[k as int],
            None => k >= source_lines(v@).len(),
        },
{
    let n = v.len();
    let mut start: usize = 0;
    let mut count: usize = 0;
    let ghost mut before: Seq<Seq<char>> = seq![];
    while start < n
        invariant
            n == v@.len(),
            start <= n,
            count <= k,
            before.len() == count,
            source_lines(v@) == before + lines_from(v@, start as int),
        decreases n - start,
    {
        let mut e = start;
        proof {
            lemma_line_end(v@, start as int);
        }
        while e < n && v[e] != '\n'
            invariant
                n == v@.len(),
                start <= e <= n,
                line_end(v@, e as int) == line_end(v@, start as int),
            decreases n - e,
        {
            e = e + 1;
        }
        let line = if e < n && e > start && v[e - 1] == '\r' {
            string_of(v, start, e - 1)
        } else {
            string_of(v, start, e)
        };
        assert(line@ == line_body(v@, start as int, e as int));
        assert(lines_from(v@, start as int) =~= seq![line_body(v@, start as int, e as int)]
            + lines_from(v@, e + 1));
        if count == k {
            assert(source_lines(v@)[k as int] == line_body(v@, start as int, e as int));
            return Some(line);
        }
        proof {
            before = before.push(line_body(v@, start as int, e as int));
            assert(source_lines(v@) =~= before + lines_from(v@, e + 1));
        }
        count = count + 1;
        start = if e < n {
            e + 1
        } else {
            n
        };
        assert(source_lines(v@) =~= before + lines_from(v@, start as int));
    }
    assert(lines_from(v@, start as int) =~= seq![]);
    None
}

/// A text has no more lines than characters.
pub proof fn lemma_lines_count(s: Seq<char>, start: int)
    requires
        0 <= start <= s.len(),
    ensures
        lines_from(s, start).len() <= s.len() - start,
    decreases s.len() - start,
{
    if start < s.len() {
        let e = line_end(s, start);
        lemma_line_end(s, start);
        if e < s.len() {
            lemma_lines_count(s, e + 1);
        }
    }
}

/// The index of the first `//` in `l` at or after `i`, or the length of
/// `l`.
pub open spec fn comment_start(l: Seq<char>, i: int) -> int
    decreases l.len() - i,
{
    if i < 0 || i + 1 >= l.len() {
        l.len() as int
    } else if l[i] == '/' && l[i + 1] == '/' {
        i
    } else {
        comment_start(l, i + 1)
    }
}

proof fn lemma_comment_start(l: Seq<char>, i: int)
    requires
        0 <= i,
    ensures
        comment_start(l, i) <= l.len(),
        i <= l.len() ==> i <= comment_start(l, i),
        comment_start(l, i) < l.len() ==> comment_start(l, i) + 1 < l.len() && l[comment_start(
            l,
            i,
        )] == '/' && l[comment_start(l, i) + 1] == '/',
        forall|j: int|
            i <= j && j + 1 < comment_start(l, i) ==> !(#[trigger] l[j] == '/' && l[j + 1] == '/'),
    decreases l.len() - i,
{
    if i + 1 < l.len() && !(l[i] == '/' && l[i + 1] == '/') {
        lemma_comment_start(l, i + 1);
    }
}

/// A line without its comment: the text before its first `//`.
pub open spec fn without_comment(l: Seq<char>) -> Seq<char> {
    l.take(comment_start(l, 0))
}

/// The lines joined with `\n` between them (`join("\n")`).
pub open spec fn join_lines(ls: Seq<Seq<char>>) -> Seq<char>
    decreases ls.len(),
{
    if ls.len() == 0 {
        seq![]
    } else if ls.len() == 1 {
        ls[0]
    } else {
        join_lines(ls.drop_last()) + seq!['\n'] + ls.last()
    }
}

/// Every line cut at its first `//`.
pub open spec fn cut_lines(ls: Seq<Seq<char>>) -> Seq<Seq<char>> {
    ls.map_values(|l: Seq<char>| without_comment(l))
}

/// A source text without comments: every line cut at its first `//`, the
/// lines joined with `\n`.
pub open spec fn strip_comments_spec(s: Seq<char>) -> Seq<char> {
    join_lines(cut_lines(source_lines(s)))
}

/// Removes the `//` comments of a source text, line by line.
pub fn strip_comments(source: &str) -> (r: String)
    ensures
        r@ == strip_comments_spec(source@),
{
    let v = chars_of(source);
    let n = v.len();
    let mut out = String::new();
    let mut start: usize = 0;
    let ghost mut before: Seq<Seq<char>> = seq![];
    assert(lines_from(v@, 0) == source_lines(v@));
    while start < n
        invariant
            n == v@.len(),
            v@ == source@,
            start <= n,
            source_lines(v@) == before + lines_from(v@, start as int),
            out@ == join_lines(cut_lines(before)),
            (start == 0) == (before.len() == 0),
        decreases n - start,
    {
        let mut e = start;
        proof {
            lemma_line_end(v@, start as int);
        }
        while e < n && v[e] != '\n'
            invariant
                n == v@.len(),
                start <= e <= n,
                line_end(v@, e as int) == line_end(v@, start as int),
            decreases n - e,
        {
            e = e + 1;
        }
        let body_end = if e < n && e > start && v[e - 1] == '\r' {
            e - 1
        } else {
            e
        };
        let ghost body = line_body(v@, start as int, e as int);
        assert(body =~= v@.subrange(start as int, body_end as int));
        let mut k = start;
        proof {
            lemma_comment_start(body, 0);
        }
        while k < body_end && k + 1 < body_end && !(v[k] == '/' && v[k + 1] == '/')
            invariant
                n == v@.len(),
                start <= k <= body_end <= n,
                body == v@.subrange(start as int, body_end as int),
                comment_start(body, (k - start) as int) == comment_start(body, 0),
            decreases body_end - k,
        {
            k = k + 1;
        }
        let cut = if k < body_end && k + 1 < body_end {
            k
        } else {
            body_end
        };
        assert(cut - start == comment_start(body, 0));
        let piece = string_of(&v, start, cut);
        assert(piece@ =~= without_comment(body));
        let ghost old_before = before;
        if start > 0 {
            push_char(&mut out, '\n');
        }
        append_str(&mut out, piece.as_str());
        proof {
            before = before.push(body);
            assert(cut_lines(before) =~= cut_lines(old_before).push(without_comment(body)));
            assert(cut_lines(before).drop_last() =~= cut_lines(old_before));
            assert(lines_from(v@, start as int) =~= seq![body] + lines_from(v@, e + 1));
            assert(source_lines(v@) =~= before + lines_from(v@, e + 1));
        }
        start = if e < n {
            e + 1
        } else {
            n
        };
        assert(source_lines(v@) =~= before + lines_from(v@, start as int));
    }
    assert(lines_from(v@, start as int) =~= seq![]);
    assert(before =~= source_lines(v@));
    out
}

/// No `//` occurs in `t`.
pub open spec fn no_comment_mark(t: Seq<char>) -> bool {
    forall|i: int| 0 <= i && i + 1 < t.len() ==> !(#[trigger] t[i] == '/' && t[i + 1] == '/')
}

proof fn lemma_join_no_comment_mark(ls: Seq<Seq<char>>)
    requires
        forall|i: int| 0 <= i < ls.len() ==> no_comment_mark(#[trigger] ls[i]),
    ensures
        no_comment_mark(join_lines(ls)),
    decreases ls.len(),
{
    if ls.len() > 1 {
        let a = join_lines(ls.drop_last());
        assert forall|i: int| 0 <= i < ls.drop_last().len() implies no_comment_mark(
            #[trigger] ls.drop_last()[i],
        ) by {
            assert(ls.drop_last()[i] == ls[i]);
        }
        lemma_join_no_comment_mark(ls.drop_last());
        let b = ls.last();
        assert(no_comment_mark(b));
        let t = a + seq!['\n'] + b;
        assert forall|i: int| 0 <= i && i + 1 < t.len() implies !(#[trigger] t[i] == '/' && t[i
            + 1] == '/') by {
            if i + 1 < a.len() {
                assert(t[i] == a[i] && t[i + 1] == a[i + 1]);
            } else if i + 1 == a.len() {
                assert(t[i + 1] == '\n');
            } else if i == a.len() {
                assert(t[i] == '\n');
            } else {
                let j = i - a.len() - 1;
                assert(t[i] == b[j] && t[i + 1] == b[j + 1]);
            }
        }
    }
}

/// Removing comments leaves no `//` in the text.
pub proof fn stripped_text_has_no_comment_mark(s: Seq<char>)
    ensures
        no_comment_mark(strip_comments_spec(s)),
{
    let ls = cut_lines(source_lines(s));
    assert forall|i: int| 0 <= i < ls.len() implies no_comment_mark(#[trigger] ls[i]) by {
        let l = source_lines(s)[i];
        lemma_comment_start(l, 0);
        assert(ls[i] == without_comment(l));
        assert forall|j: int| 0 <= j && j + 1 < ls[i].len() implies !(#[trigger] ls[i][j] == '/'
            && ls[i][j + 1] == '/') by {
            assert(ls[i][j] == l[j] && ls[i][j + 1] == l[j + 1]);
        }
    }
    lemma_join_no_comment_mark(ls);
}

} // verus!
