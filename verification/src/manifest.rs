//! Archive manifests: line folding and the manifest text.

use vstd::prelude::*;
use vstd::string::*;
use crate::text::{chars_of, copy_range, push_range, string_of, string_views};

verus! {

/// Longest manifest line, in characters.
pub const MANIFEST_LINE_WIDTH: usize = 70;

/// Longest payload of a continuation line: the width less the leading space.
pub const CONTINUATION_WIDTH: usize = 69;

/// The continuation lines for `rest`: consecutive pieces of at most 69
/// characters, each behind one space.
pub open spec fn continuation_lines(rest: Seq<char>) -> Seq<Seq<char>>
    decreases rest.len(),
{
    if rest.len() == 0 {
        Seq::empty()
    } else if rest.len() <= 69 {
        seq![seq![' '] + rest]
    } else {
        seq![seq![' '] + rest.take(69)] + continuation_lines(rest.skip(69))
    }
}

/// The manifest lines for one logical line `s`: the first 70 characters, then
/// the remainder as continuation lines.
pub open spec fn fold_lines(s: Seq<char>) -> Seq<Seq<char>> {
    if s.len() <= 70 {
        seq![s]
    } else {
        seq![s.take(70)] + continuation_lines(s.skip(70))
    }
}

/// The logical line that folded lines stand for: the first line followed by
/// every later line without its leading space.
pub open spec fn unfold_lines(lines: Seq<Seq<char>>) -> Seq<char>
    decreases lines.len(),
{
    if lines.len() == 0 {
        Seq::empty()
    } else if lines.len() == 1 {
        lines[0]
    } else {
        unfold_lines(lines.drop_last()) + lines.last().skip(1)
    }
}

/// The text of the payloads of continuation lines.
pub open spec fn continuation_payload(lines: Seq<Seq<char>>) -> Seq<char>
    decreases lines.len(),
{
    if lines.len() == 0 {
        Seq::empty()
    } else {
        continuation_payload(lines.drop_last()) + lines.last().skip(1)
    }
}

/// The text of a manifest: every line followed by a line feed.
pub open spec fn manifest_text(lines: Seq<Seq<char>>) -> Seq<char>
    decreases lines.len(),
{
    if lines.len() == 0 {
        Seq::empty()
    } else {
        manifest_text(lines.drop_last()) + lines.last() + seq!['\n']
    }
}

/// Continuation lines are non-empty payloads of at most 69 characters behind
/// one space, and together they spell `rest`.
pub proof fn lemma_continuation_lines(rest: Seq<char>)
    ensures
        forall|k: int|
            0 <= k < continuation_lines(rest).len() ==> {
                let line = #[trigger] continuation_lines(rest)[k];
                2 <= line.len() <= 70 && line[0] == ' '
            },
        continuation_payload(continuation_lines(rest)) == rest,
        continuation_lines(rest).len() == (rest.len() + 68) / 69,
    decreases rest.len(),
{
    let lines = continuation_lines(rest);
    if rest.len() == 0 {
    } else if rest.len() <= 69 {
        assert(lines.drop_last() =~= Seq::<Seq<char>>::empty());
        assert(continuation_payload(lines.drop_last()) =~= Seq::<char>::empty());
        assert(lines.last() == seq![' '] + rest);
        assert((seq![' '] + rest).skip(1) =~= rest);
        assert(continuation_payload(lines) =~= rest);
    } else {
        let head = seq![' '] + rest.take(69);
        let tail = continuation_lines(rest.skip(69));
        lemma_continuation_lines(rest.skip(69));
        lemma_payload_prepend(head, tail);
        assert(head.skip(1) =~= rest.take(69));
        assert(rest.take(69) + rest.skip(69) =~= rest);
        assert forall|k: int| 0 <= k < lines.len() implies {
            let line = #[trigger] lines[k];
            2 <= line.len() <= 70 && line[0] == ' '
        } by {
            if k > 0 {
                assert(lines[k] == tail[k - 1]);
            }
        }
    }
}

/// The payload of lines behind a first line is that line's payload followed
/// by theirs.
pub proof fn lemma_payload_prepend(head: Seq<char>, tail: Seq<Seq<char>>)
    ensures
        continuation_payload(seq![head] + tail) == head.skip(1) + continuation_payload(tail),
    decreases tail.len(),
{
    let all = seq![head] + tail;
    if tail.len() == 0 {
        assert(all.drop_last() =~= Seq::<Seq<char>>::empty());
        assert(continuation_payload(all.drop_last()) =~= Seq::<char>::empty());
        assert(all.last() == head);
        assert(continuation_payload(all) =~= head.skip(1));
        assert(head.skip(1) + continuation_payload(tail) =~= head.skip(1));
    } else {
        assert(all.drop_last() =~= seq![head] + tail.drop_last());
        lemma_payload_prepend(head, tail.drop_last());
        assert(all.last() == tail.last());
        assert(continuation_payload(all) =~= head.skip(1) + continuation_payload(tail));
    }
}

/// Unfolding a first line and its continuation lines gives the first line
/// followed by their payload.
pub proof fn lemma_unfold_prepend(first: Seq<char>, tail: Seq<Seq<char>>)
    ensures
        unfold_lines(seq![first] + tail) == first + continuation_payload(tail),
    decreases tail.len(),
{
    let all = seq![first] + tail;
    if tail.len() == 0 {
        assert(all =~= seq![first]);
        assert(first + continuation_payload(tail) =~= first);
    } else {
        assert(all.drop_last() =~= seq![first] + tail.drop_last());
        lemma_unfold_prepend(first, tail.drop_last());
        assert(all.last() == tail.last());
        assert(unfold_lines(all) =~= first + continuation_payload(tail));
    }
}

/// Folding keeps every line within 70 characters, starts every line after
/// the first with one space, and loses nothing: unfolding restores the
/// logical line.
pub proof fn lemma_fold_lines(s: Seq<char>)
    ensures
        fold_lines(s).len() >= 1,
        fold_lines(s).len() == (if s.len() <= 70 {
            1int
        } else {
            1 + (s.len() - 70 + 68) / 69
        }),
        forall|k: int| 0 <= k < fold_lines(s).len() ==> (#[trigger] fold_lines(s)[k]).len() <= 70,
        forall|k: int|
            1 <= k < fold_lines(s).len() ==> {
                let line = #[trigger] fold_lines(s)[k];
                2 <= line.len() && line[0] == ' '
            },
        fold_lines(s)[0] == (if s.len() <= 70 {
            s
        } else {
            s.take(70)
        }),
        unfold_lines(fold_lines(s)) == s,
{
    if s.len() <= 70 {
    } else {
        let tail = continuation_lines(s.skip(70));
        lemma_continuation_lines(s.skip(70));
        lemma_unfold_prepend(s.take(70), tail);
        assert(s.take(70) + s.skip(70) =~= s);
        assert forall|k: int| 1 <= k < fold_lines(s).len() implies {
            let line = #[trigger] fold_lines(s)[k];
            2 <= line.len() <= 70 && line[0] == ' '
        } by {
            assert(fold_lines(s)[k] == tail[k - 1]);
        }
    }
}

/// Folds one logical manifest line into physical lines.
pub fn split_string(s: &str) -> (result: Vec<String>)
    ensures
        string_views(result@) == fold_lines(s@),
{
    let v = chars_of(s);
    let mut result: Vec<String> = Vec::new();
    if v.len() <= MANIFEST_LINE_WIDTH {
        result.push(string_of(v.as_slice()));
        proof {
            assert(string_views(result@) =~= seq![s@]);
        }
        return result;
    }
    let first = copy_range(v.as_slice(), 0, MANIFEST_LINE_WIDTH);
    result.push(string_of(first.as_slice()));
    let mut pos: usize = MANIFEST_LINE_WIDTH;
    proof {
        assert(v@.subrange(0, 70) =~= v@.take(70));
        assert(string_views(result@) =~= seq![v@.take(70)]);
        assert(seq![v@.take(70)] + continuation_lines(v@.skip(70)) == fold_lines(v@));
    }
    while pos < v.len()
        invariant
            70 <= pos <= v.len(),
            fold_lines(v@) == string_views(result@) + continuation_lines(v@.skip(pos as int)),
        decreases v.len() - pos,
    {
        let end: usize = if v.len() - pos > CONTINUATION_WIDTH {
            pos + CONTINUATION_WIDTH
        } else {
            v.len()
        };
        let mut line: Vec<char> = Vec::new();
        line.push(' ');
        push_range(&mut line, v.as_slice(), pos, end);
        let text = string_of(line.as_slice());
        proof {
            let rest = v@.skip(pos as int);
            assert(rest.take(end - pos) =~= v@.subrange(pos as int, end as int));
            assert(rest.skip(end - pos) =~= v@.skip(end as int));
            if rest.len() <= 69 {
                assert(rest.take(end - pos) =~= rest);
                assert(continuation_lines(v@.skip(end as int)) =~= Seq::<Seq<char>>::empty());
            }
            assert(line@ =~= seq![' '] + rest.take(end - pos));
            assert(string_views(result@.push(text)) =~= string_views(result@) + seq![text@]);
            assert(string_views(result@) + continuation_lines(rest) =~= string_views(
                result@.push(text),
            ) + continuation_lines(v@.skip(end as int)));
        }
        result.push(text);
        pos = end;
    }
    proof {
        assert(v@.skip(v.len() as int) =~= Seq::<char>::empty());
        assert(string_views(result@) + continuation_lines(v@.skip(pos as int)) =~= string_views(
            result@,
        ));
    }
    result
}

/// Whether every line is within the manifest line width.
pub open spec fn within_width(lines: Seq<Seq<char>>) -> bool {
    forall|k: int| 0 <= k < lines.len() ==> (#[trigger] lines[k]).len() <= 70
}

/// The lines of a manifest under construction.
pub struct ManifestBuilder {
    pub lines: Vec<String>,
}

impl ManifestBuilder {
    /// The lines written so far.
    pub open spec fn view(&self) -> Seq<Seq<char>> {
        string_views(self.lines@)
    }

    /// A manifest that holds only its version line.
    pub fn new() -> (builder: Self)
        ensures
            builder@ == seq!["Manifest-Version: 1.0"@],
            within_width(builder@),
    {
        let mut lines: Vec<String> = Vec::new();
        lines.push(String::from_str("Manifest-Version: 1.0"));
        let builder = ManifestBuilder { lines };
        proof {
            reveal_strlit("Manifest-Version: 1.0");
            assert(builder@ =~= seq!["Manifest-Version: 1.0"@]);
        }
        builder
    }

    /// Appends one logical line, folded to the manifest line width. A
    /// manifest whose lines are within the width stays so.
    pub fn add_line(&mut self, line: &str)
        ensures
            final(self)@ == old(self)@ + fold_lines(line@),
            within_width(old(self)@) ==> within_width(final(self)@),
    {
        let mut split = split_string(line);
        let ghost added = string_views(split@);
        let ghost before = self.lines@;
        self.lines.append(&mut split);
        proof {
            assert(string_views(self.lines@) =~= string_views(before) + added);
            lemma_fold_lines(line@);
            if within_width(old(self)@) {
                assert forall|k: int| 0 <= k < self@.len() implies (#[trigger] self@[k]).len()
                    <= 70 by {
                    if k < old(self)@.len() {
                        assert(self@[k] == old(self)@[k]);
                    } else {
                        assert(self@[k] == fold_lines(line@)[k - old(self)@.len()]);
                    }
                }
            }
        }
    }

    /// The manifest text: every line ended by a line feed.
    pub fn build(self) -> (text: String)
        ensures
            text@ == manifest_text(self@),
    {
        let mut text = String::new();
        let mut i: usize = 0;
        while i < self.lines.len()
            invariant
                i <= self.lines.len(),
                text@ == manifest_text(self@.take(i as int)),
            decreases self.lines.len() - i,
        {
            proof {
                assert(self@.take(i + 1).drop_last() =~= self@.take(i as int));
                assert(self@.take(i + 1).last() == self.lines@[i as int]@);
            }
            text.append(self.lines[i].as_str());
            text.push('\n');
            i += 1;
        }
        proof {
            assert(self@.take(self.lines.len() as int) =~= self@);
        }
        text
    }
}

} // verus!
