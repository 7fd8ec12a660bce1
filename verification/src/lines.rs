//! Splitting a listing into its lines.
//!
//! The file manager answers with one path per line. A listing of no
//! characters is one empty line, and a listing that ends in a line feed ends
//! in an empty line.

use vstd::prelude::*;

verus! {

/// The lines of `text`: the stretches between its line feeds, in order.
pub open spec fn lines_of(text: Seq<char>) -> Seq<Seq<char>>
    decreases text.len(),
{
    if text.len() == 0 {
        seq![Seq::empty()]
    } else {
        let before = lines_of(text.drop_last());
        if text.last() == '\n' {
            before.push(Seq::empty())
        } else {
            before.drop_last().push(before.last().push(text.last()))
        }
    }
}

/// The lines put together again, with a line feed between each two.
pub open spec fn joined(lines: Seq<Seq<char>>) -> Seq<char>
    decreases lines.len(),
{
    if lines.len() == 0 {
        Seq::empty()
    } else if lines.len() == 1 {
        lines[0]
    } else {
        joined(lines.drop_last()) + seq!['\n'] + lines.last()
    }
}

/// The line holds no line feed.
pub open spec fn single_line(line: Seq<char>) -> bool {
    forall|i: int| 0 <= i < line.len() ==> line[i] != '\n'
}

/// A text has at least one line, no line holds a line feed, and the lines
/// joined by line feeds are the text.
pub proof fn lemma_lines_of(text: Seq<char>)
    ensures
        lines_of(text).len() >= 1,
        forall|i: int| 0 <= i < lines_of(text).len() ==> single_line(#[trigger] lines_of(text)[i]),
        joined(lines_of(text)) == text,
    decreases text.len(),
{
    if text.len() > 0 {
        let shorter = text.drop_last();
        let before = lines_of(shorter);
        lemma_lines_of(shorter);
        if text.last() == '\n' {
            let after = before.push(Seq::empty());
            assert(after.drop_last() =~= before);
            assert(joined(after) =~= shorter + seq!['\n']);
            assert(shorter + seq!['\n'] =~= text);
        } else {
            let grown = before.last().push(text.last());
            let after = before.drop_last().push(grown);
            assert(single_line(before.last()));
            assert(single_line(grown));
            assert forall|i: int| 0 <= i < after.len() implies single_line(#[trigger] after[i]) by {
                if i < after.len() - 1 {
                    assert(after[i] == before[i]);
                }
            }
            if before.len() == 1 {
                assert(joined(before) == before[0]);
                assert(joined(after) == grown);
                assert(grown =~= text);
            } else {
                assert(after.drop_last() =~= before.drop_last());
                assert(joined(after) =~= joined(before.drop_last()) + seq!['\n'] + grown);
                assert(joined(before) =~= joined(before.drop_last()) + seq!['\n'] + before.last());
                assert(joined(after) =~= joined(before).push(text.last()));
                assert(shorter.push(text.last()) =~= text);
            }
        }
    }
}

/// Characters without a line feed, put behind a text, lengthen its last
/// line.
pub proof fn lemma_lines_of_extended(text: Seq<char>, more: Seq<char>)
    requires
        single_line(more),
    ensures
        lines_of(text + more) == lines_of(text).drop_last().push(lines_of(text).last() + more),
    decreases more.len(),
{
    lemma_lines_of(text);
    if more.len() == 0 {
        assert(text + more =~= text);
        assert(lines_of(text).last() + more =~= lines_of(text).last());
        assert(lines_of(text).drop_last().push(lines_of(text).last()) =~= lines_of(text));
    } else {
        let shorter = more.drop_last();
        assert(single_line(shorter)) by {
            assert forall|i: int| 0 <= i < shorter.len() implies shorter[i] != '\n' by {
                assert(shorter[i] == more[i]);
            }
        }
        lemma_lines_of_extended(text, shorter);
        assert((text + more).drop_last() =~= text + shorter);
        assert((text + more).last() == more.last());
        let before = lines_of(text + shorter);
        assert(before.drop_last() =~= lines_of(text).drop_last());
        assert(before.last().push(more.last()) =~= lines_of(text).last() + more);
    }
}

/// Lines without line feeds, at least one of them, are the lines of their
/// joined text: as many lines come out of a listing as went into it.
pub proof fn lemma_lines_of_joined(lines: Seq<Seq<char>>)
    requires
        lines.len() >= 1,
        forall|i: int| 0 <= i < lines.len() ==> single_line(#[trigger] lines[i]),
    ensures
        lines_of(joined(lines)) == lines,
        lines_of(joined(lines)).len() == lines.len(),
    decreases lines.len(),
{
    if lines.len() == 1 {
        let empty = Seq::<char>::empty();
        lemma_lines_of_extended(empty, lines[0]);
        assert(empty + lines[0] =~= lines[0]);
        assert(lines_of(empty) =~= seq![empty]);
        assert(lines_of(lines[0]) =~= lines);
    } else {
        let front = lines.drop_last();
        assert forall|i: int| 0 <= i < front.len() implies single_line(#[trigger] front[i]) by {
            assert(front[i] == lines[i]);
        }
        lemma_lines_of_joined(front);
        let broken = joined(front) + seq!['\n'];
        assert(broken.drop_last() =~= joined(front));
        assert(lines_of(broken) == front.push(Seq::empty()));
        lemma_lines_of_extended(broken, lines.last());
        assert(Seq::<char>::empty() + lines.last() =~= lines.last());
        assert(front.push(Seq::empty()).drop_last() =~= front);
        assert(front.push(lines.last()) =~= lines);
    }
}

/// The lines of `text`, each as a string of its own.
pub fn split_lines(text: &str) -> (lines: Vec<String>)
    ensures
        lines.deep_view() == lines_of(text@),
{
    let total = text.unicode_len();
    let mut lines: Vec<String> = Vec::new();
    let mut start: usize = 0;
    let mut at: usize = 0;
    proof {
        assert(text@.take(0) =~= Seq::<char>::empty());
        assert(lines.deep_view().push(text@.subrange(0, 0)) =~= lines_of(text@.take(0)));
    }
    for c in it: text.chars()
        invariant
            total == text@.len(),
            it.seq() == text@,
            at == it.index(),
            start <= at <= total,
            lines.deep_view().push(text@.subrange(start as int, at as int)) == lines_of(
                text@.take(at as int),
            ),
    {
        proof {
            assert(text@.take(at + 1).drop_last() =~= text@.take(at as int));
            assert(text@.take(at + 1).last() == c);
        }
        if c == '\n' {
            let line = text.substring_char(start, at).to_owned();
            let ghost before = lines.deep_view();
            lines.push(line);
            start = at + 1;
            proof {
                assert(lines.deep_view() =~= before.push(line@));
                assert(text@.subrange(start as int, at + 1) =~= Seq::<char>::empty());
            }
        } else {
            proof {
                let current = text@.subrange(start as int, at as int);
                assert(lines.deep_view().push(current).drop_last() =~= lines.deep_view());
                assert(text@.subrange(start as int, at + 1) =~= current.push(c));
            }
        }
        at = at + 1;
    }
    let line = text.substring_char(start, at).to_owned();
    let ghost before = lines.deep_view();
    lines.push(line);
    proof {
        assert(lines.deep_view() =~= before.push(line@));
        assert(text@.take(at as int) =~= text@);
    }
    lines
}

} // verus!
