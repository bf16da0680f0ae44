//! Titles: the header a fresh note is seeded with, and the title read back from
//! an edited note's first heading.

use crate::text::chars_of;
use vstd::prelude::*;

verus! {

/// The heading marker: a hash sign and a space.
pub open spec fn marker() -> Seq<char> {
    seq!['#', ' ']
}

/// What a fresh note holds before the editor opens it: the marker followed by
/// the title, or by nothing when no title was given.
pub open spec fn seed(title: Option<Seq<char>>) -> Seq<char> {
    match title {
        Some(t) => marker() + t,
        None => marker(),
    }
}

/// Whether a line begins with the heading marker.
pub open spec fn is_heading(line: Seq<char>) -> bool {
    line.len() >= 2 && line[0] == '#' && line[1] == ' '
}

/// A heading without its marker. Nothing else is trimmed.
pub open spec fn heading_text(line: Seq<char>) -> Seq<char>
    recommends
        is_heading(line),
{
    line.skip(2)
}

/// How many characters stand before the first line feed of `s`, or in all of
/// `s` when it has none.
pub open spec fn line_len(s: Seq<char>) -> nat
    decreases s.len(),
{
    if s.len() == 0 || s[0] == '\n' {
        0
    } else {
        1 + line_len(s.drop_first())
    }
}

/// The first line of a non-empty text, without its line ending. A line ends at
/// a line feed; a carriage return just before that line feed belongs to the
/// ending. A carriage return elsewhere stays in the line.
pub open spec fn first_line(s: Seq<char>) -> Seq<char> {
    let n = line_len(s) as int;
    if n < s.len() && n > 0 && s[n - 1] == '\r' {
        s.subrange(0, n - 1)
    } else {
        s.subrange(0, n)
    }
}

/// What follows the first line and its line ending.
pub open spec fn after_first_line(s: Seq<char>) -> Seq<char> {
    let n = line_len(s) as int;
    if n < s.len() {
        s.skip(n + 1)
    } else {
        Seq::empty()
    }
}

/// The lines of a text, in order. An empty text has no lines, and a final line
/// feed does not open another line.
pub open spec fn lines(s: Seq<char>) -> Seq<Seq<char>>
    decreases s.len(),
{
    if s.len() == 0 {
        Seq::empty()
    } else {
        seq![first_line(s)] + lines(after_first_line(s))
    }
}

/// The text of the first heading among `ls`, if any line is a heading.
pub open spec fn first_heading(ls: Seq<Seq<char>>) -> Option<Seq<char>>
    decreases ls.len(),
{
    if ls.len() == 0 {
        None
    } else if is_heading(ls[0]) {
        Some(heading_text(ls[0]))
    } else {
        first_heading(ls.drop_first())
    }
}

/// The title a document gives itself: the text of its first heading line.
pub open spec fn document_title(contents: Seq<char>) -> Option<Seq<char>> {
    first_heading(lines(contents))
}

/// The title used for naming: the one supplied up front if there is one,
/// otherwise the document's own.
pub open spec fn resolved_title(supplied: Option<Seq<char>>, contents: Seq<char>) -> Option<
    Seq<char>,
> {
    match supplied {
        Some(t) => Some(t),
        None => document_title(contents),
    }
}

/// A line's length is pinned by where the first line feed stands.
pub proof fn lemma_line_len(s: Seq<char>, n: int)
    requires
        0 <= n <= s.len(),
        forall|j: int| 0 <= j < n ==> s[j] != '\n',
        n == s.len() || s[n] == '\n',
    ensures
        line_len(s) == n,
    decreases n,
{
    if n > 0 {
        let rest = s.drop_first();
        assert forall|j: int| 0 <= j < n - 1 implies rest[j] != '\n' by {
            assert(rest[j] == s[j + 1]);
        }
        lemma_line_len(rest, n - 1);
    }
}

/// A line never runs past the end of its text.
pub proof fn lemma_line_len_bound(s: Seq<char>)
    ensures
        line_len(s) <= s.len(),
    decreases s.len(),
{
    if !(s.len() == 0 || s[0] == '\n') {
        lemma_line_len_bound(s.drop_first());
    }
}

/// The first heading of a non-empty text is its first line's, when that line is
/// a heading, and otherwise the first heading of what follows.
pub proof fn lemma_document_title_unfold(s: Seq<char>)
    requires
        s.len() > 0,
    ensures
        document_title(s) == if is_heading(first_line(s)) {
            Some(heading_text(first_line(s)))
        } else {
            document_title(after_first_line(s))
        },
{
    lemma_line_len_bound(s);
    let ls = lines(s);
    assert(ls[0] == first_line(s));
    assert(ls.drop_first() =~= lines(after_first_line(s)));
}

/// Line `i` is a heading and no line before it is.
pub open spec fn is_earliest_heading(ls: Seq<Seq<char>>, i: int) -> bool {
    &&& 0 <= i < ls.len()
    &&& is_heading(ls[i])
    &&& forall|j: int| 0 <= j < i ==> !is_heading(#[trigger] ls[j])
}

/// The title is taken from the earliest heading line and from no other: lines
/// before it are not headings, and whatever follows it plays no part. Without
/// any heading line there is no title.
pub proof fn lemma_first_heading_is_earliest(ls: Seq<Seq<char>>)
    ensures
        match first_heading(ls) {
            Some(text) => exists|i: int| #[trigger]
                is_earliest_heading(ls, i) && text == heading_text(ls[i]),
            None => forall|i: int| 0 <= i < ls.len() ==> !is_heading(#[trigger] ls[i]),
        },
    decreases ls.len(),
{
    if ls.len() > 0 {
        if is_heading(ls[0]) {
            assert(is_earliest_heading(ls, 0));
        } else {
            let rest = ls.drop_first();
            lemma_first_heading_is_earliest(rest);
            match first_heading(rest) {
                Some(text) => {
                    let i = choose|i: int| #[trigger]
                        is_earliest_heading(rest, i) && text == heading_text(rest[i]);
                    assert forall|j: int| 0 <= j < i + 1 implies !is_heading(#[trigger] ls[j]) by {
                        if j > 0 {
                            assert(ls[j] == rest[j - 1]);
                        }
                    }
                    assert(ls[i + 1] == rest[i]);
                    assert(is_earliest_heading(ls, i + 1));
                },
                None => {
                    assert forall|i: int| 0 <= i < ls.len() implies !is_heading(
                        #[trigger] ls[i],
                    ) by {
                        if i > 0 {
                            assert(ls[i] == rest[i - 1]);
                        }
                    }
                },
            }
        }
    }
}

/// The text a fresh note is seeded with.
pub fn seed_text(title: Option<&str>) -> (text: String)
    ensures
        text@ == seed(title.deep_view()),
{
    proof {
        reveal_strlit("# ");
    }
    let mut text = String::from_str("# ");
    assert(text@ =~= marker());
    match title {
        Some(t) => {
            text.append(t);
        },
        None => {},
    }
    text
}

/// Reads a document's title off its first heading line; `None` when no line of
/// it is a heading.
pub fn derive_title(contents: &str) -> (title: Option<String>)
    ensures
        title.deep_view() == document_title(contents@),
{
    let chars = chars_of(contents);
    let len: usize = chars.len();
    let mut start: usize = 0;
    assert(contents@.skip(0) =~= contents@);
    while start < len
        invariant
            chars@ == contents@,
            len == chars.len(),
            start <= len,
            document_title(contents@) == document_title(contents@.skip(start as int)),
        decreases len - start,
    {
        let ghost rest = contents@.skip(start as int);
        let mut end: usize = start;
        while end < len && chars[end] != '\n'
            invariant
                chars@ == contents@,
                len == chars.len(),
                start <= end <= len,
                forall|j: int| start <= j < end ==> chars@[j] != '\n',
            decreases len - end,
        {
            end = end + 1;
        }
        proof {
            assert forall|j: int| 0 <= j < end - start implies rest[j] != '\n' by {
                assert(rest[j] == chars@[start + j]);
            }
            lemma_line_len(rest, end - start);
            lemma_document_title_unfold(rest);
        }
        let stop: usize = if end < len && end > start && chars[end - 1] == '\r' {
            end - 1
        } else {
            end
        };
        assert(first_line(rest) =~= contents@.subrange(start as int, stop as int));
        if stop - start >= 2 && chars[start] == '#' && chars[start + 1] == ' ' {
            let text = contents.substring_char(start + 2, stop);
            assert(text@ =~= heading_text(first_line(rest)));
            return Some(String::from_str(text));
        }
        if end < len {
            assert(after_first_line(rest) =~= contents@.skip(end + 1));
            start = end + 1;
        } else {
            assert(after_first_line(rest) =~= contents@.skip(len as int));
            start = len;
        }
    }
    assert(contents@.skip(start as int).len() == 0);
    None
}

/// The title that naming starts from: `supplied` when the caller gave one, else
/// whatever the document's first heading says.
pub fn resolve_title(supplied: Option<String>, contents: &str) -> (title: Option<String>)
    ensures
        title.deep_view() == resolved_title(supplied.deep_view(), contents@),
{
    match supplied {
        Some(t) => Some(t),
        None => derive_title(contents),
    }
}

} // verus!
