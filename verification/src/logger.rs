//! Log lines and their deduplication: of the lines that render alike only
//! the first is kept, and what is kept stays in order.

use crate::text::{push_text, string_of};
use vstd::prelude::*;

verus! {

/// One classified line: the prefix rendered from the game state, and the
/// body.
#[derive(Debug, PartialEq, Eq)]
pub struct LogLine {
    pub prefix: String,
    pub body: String,
}

/// The mathematical model of a [`LogLine`].
pub struct Entry {
    pub prefix: Seq<char>,
    pub body: Seq<char>,
}

impl Entry {
    /// The line as it is written: the prefix, then the body.
    pub open spec fn rendered(self) -> Seq<char> {
        self.prefix + self.body
    }
}

impl View for LogLine {
    type V = Entry;

    open spec fn view(&self) -> Entry {
        Entry { prefix: self.prefix@, body: self.body@ }
    }
}

impl LogLine {
    /// Renders the line: the prefix, then the body.
    pub fn render(&self) -> (line: String)
        ensures
            line@ == self@.rendered(),
    {
        let mut out: Vec<char> = Vec::new();
        push_text(&mut out, self.prefix.as_str());
        push_text(&mut out, self.body.as_str());
        string_of(&out)
    }
}

/// The models of a list of lines.
pub open spec fn line_views(lines: Seq<LogLine>) -> Seq<Entry> {
    Seq::new(lines.len(), |i: int| lines[i]@)
}

/// The rendered forms of a list of entries.
pub open spec fn renderings(list: Seq<Entry>) -> Seq<Seq<char>> {
    Seq::new(list.len(), |i: int| list[i].rendered())
}

/// The character sequences of a list of strings.
pub open spec fn strings(list: Seq<String>) -> Seq<Seq<char>> {
    Seq::new(list.len(), |i: int| list[i]@)
}

/// `lines` without the lines that occurred before: the first occurrence of
/// each line, in the order of `lines`.
pub open spec fn dedup(lines: Seq<Seq<char>>) -> Seq<Seq<char>>
    decreases lines.len(),
{
    if lines.len() == 0 {
        Seq::empty()
    } else if lines.drop_last().contains(lines.last()) {
        dedup(lines.drop_last())
    } else {
        dedup(lines.drop_last()).push(lines.last())
    }
}

/// Deduplication keeps exactly the lines that occur.
pub proof fn lemma_dedup_members(lines: Seq<Seq<char>>, line: Seq<char>)
    ensures
        dedup(lines).contains(line) <==> lines.contains(line),
    decreases lines.len(),
{
    if lines.len() > 0 {
        let head = lines.drop_last();
        lemma_dedup_members(head, line);
        lemma_dedup_members(head, lines.last());
        if lines.contains(line) {
            let i = choose|i: int| 0 <= i < lines.len() && lines[i] == line;
            if i < head.len() {
                assert(head[i] == line);
            }
        }
        if head.contains(line) {
            let i = choose|i: int| 0 <= i < head.len() && head[i] == line;
            assert(lines[i] == line);
        }
        if head.contains(lines.last()) {
        } else {
            let kept = dedup(head);
            assert(kept.push(lines.last()).last() == lines.last());
            if kept.contains(line) {
                let i = choose|i: int| 0 <= i < kept.len() && kept[i] == line;
                assert(kept.push(lines.last())[i] == line);
            }
            if kept.push(lines.last()).contains(line) {
                let i = choose|i: int|
                    0 <= i < kept.push(lines.last()).len() && kept.push(lines.last())[i] == line;
                if i < kept.len() {
                    assert(kept[i] == line);
                }
            }
        }
        assert(lines.last() == lines[lines.len() - 1]);
    }
}

/// After deduplication no line occurs twice.
pub proof fn lemma_dedup_distinct(lines: Seq<Seq<char>>)
    ensures
        dedup(lines).no_duplicates(),
    decreases lines.len(),
{
    if lines.len() > 0 {
        let head = lines.drop_last();
        lemma_dedup_distinct(head);
        lemma_dedup_members(head, lines.last());
    }
}

/// Deduplication keeps first occurrences where they stand: what it makes
/// of the first `n` lines starts what it makes of all.
pub proof fn lemma_dedup_prefix(lines: Seq<Seq<char>>, n: int)
    requires
        0 <= n <= lines.len(),
    ensures
        dedup(lines.take(n)).is_prefix_of(dedup(lines)),
    decreases lines.len(),
{
    if n == lines.len() {
        assert(lines.take(n) == lines);
    } else {
        let head = lines.drop_last();
        assert(head.take(n) == lines.take(n));
        lemma_dedup_prefix(head, n);
    }
}

/// A line logged twice in a row is kept once, where it first stood: as
/// the last line if it had not occurred before, and not again if it had.
pub proof fn lemma_dedup_repeat(lines: Seq<Seq<char>>, line: Seq<char>)
    ensures
        dedup(lines.push(line).push(line)) == dedup(lines.push(line)),
        !lines.contains(line) ==> dedup(lines.push(line)) == dedup(lines).push(line),
        lines.contains(line) ==> dedup(lines.push(line)) == dedup(lines),
        dedup(seq![line, line]) == seq![line],
{
    let once = lines.push(line);
    let twice = once.push(line);
    assert(twice.drop_last() == once);
    assert(once.drop_last() == lines);
    assert(once[lines.len() as int] == line);
    assert(once.contains(line));
    let empty = Seq::<Seq<char>>::empty();
    assert(seq![line, line] == empty.push(line).push(line));
    assert(empty.push(line).drop_last() == empty);
    assert(dedup(empty) == empty);
    assert(!empty.contains(line));
    assert(empty.push(line).last() == line);
    assert(dedup(empty.push(line)) == empty.push(line));
    assert(empty.push(line) == seq![line]);
    assert(empty.push(line).push(line).drop_last() == empty.push(line));
    assert(empty.push(line)[0] == line);
    assert(empty.push(line).contains(line));
}

fn holds(list: &Vec<String>, line: &String) -> (b: bool)
    ensures
        b == strings(list@).contains(line@),
{
    let mut i: usize = 0;
    while i < list.len()
        invariant
            i <= list.len(),
            forall|j: int| 0 <= j < i ==> strings(list@)[j] != line@,
        decreases list.len() - i,
    {
        if list[i] == *line {
            assert(strings(list@)[i as int] == line@);
            return true;
        }
        i += 1;
    }
    false
}

/// Renders the lines and keeps the first of those that render alike, in
/// order.
pub fn deduplicate(lines: &Vec<LogLine>) -> (log: Vec<String>)
    ensures
        strings(log@) == dedup(renderings(line_views(lines@))),
{
    let ghost all = renderings(line_views(lines@));
    let mut log: Vec<String> = Vec::new();
    let mut i: usize = 0;
    assert(all.take(0) == Seq::<Seq<char>>::empty());
    assert(strings(log@) =~= Seq::<Seq<char>>::empty());
    while i < lines.len()
        invariant
            i <= lines.len(),
            all == renderings(line_views(lines@)),
            strings(log@) == dedup(all.take(i as int)),
        decreases lines.len() - i,
    {
        let line = lines[i].render();
        proof {
            assert(all.take(i + 1).drop_last() == all.take(i as int));
            assert(all.take(i + 1).last() == line@);
            lemma_dedup_members(all.take(i as int), line@);
        }
        if !holds(&log, &line) {
            assert(strings(log@.push(line)) =~= strings(log@).push(line@));
            log.push(line);
        }
        i += 1;
    }
    assert(all.take(i as int) == all);
    log
}

} // verus!
