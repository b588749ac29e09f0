//! Reading a segment ledger.
//!
//! A ledger is an append-only file with one segment file name per line. What
//! it holds is the list of its distinct non-empty lines; the order in which
//! the names are written carries no meaning, and a name written twice counts
//! once. The names are handed out in the order of their first appearance.

use vstd::prelude::*;
use crate::seqs::{lemma_contains_concat, lemma_contains_push};

verus! {

/// The byte that ends a line.
pub const LINE_FEED: u8 = 10;

/// The byte that is dropped when it stands directly before a line feed.
pub const CARRIAGE_RETURN: u8 = 13;

/// The position of the first line feed in `s`, or `s.len()` where `s` holds
/// none.
pub open spec fn first_line_feed(s: Seq<u8>) -> int
    decreases s.len(),
{
    if s.len() == 0 || s[0] == LINE_FEED {
        0
    } else {
        1 + first_line_feed(s.skip(1))
    }
}

/// A line as it stood before its line feed, without one trailing carriage
/// return.
pub open spec fn strip_carriage_return(line: Seq<u8>) -> Seq<u8> {
    if line.len() > 0 && line.last() == CARRIAGE_RETURN {
        line.drop_last()
    } else {
        line
    }
}

/// The lines of a text. Each line feed ends a line; a carriage return directly
/// before it belongs to the line ending. What follows the last line feed is a
/// line of its own if it is not empty, and is taken as it stands.
pub open spec fn split_lines(s: Seq<u8>) -> Seq<Seq<u8>>
    decreases s.len(),
{
    let at = first_line_feed(s);
    if s.len() == 0 {
        Seq::empty()
    } else if 0 <= at < s.len() {
        seq![strip_carriage_return(s.take(at))] + split_lines(s.skip(at + 1))
    } else {
        seq![s]
    }
}

/// The non-empty members of `lines`, each once, in the order of their first
/// appearance.
pub open spec fn distinct_nonempty(lines: Seq<Seq<u8>>) -> Seq<Seq<u8>>
    decreases lines.len(),
{
    if lines.len() == 0 {
        Seq::empty()
    } else {
        let before = distinct_nonempty(lines.drop_last());
        let line = lines.last();
        if line.len() == 0 || before.contains(line) {
            before
        } else {
            before.push(line)
        }
    }
}

/// The segment names that a ledger with the given content lists.
pub open spec fn ledger_names(content: Seq<u8>) -> Seq<Seq<u8>> {
    distinct_nonempty(split_lines(content))
}

/// The names that a list of byte vectors stands for.
pub open spec fn names_view(names: Seq<Vec<u8>>) -> Seq<Seq<u8>> {
    Seq::new(names.len(), |i: int| names[i]@)
}

/// `first_line_feed` is a position in `s` before which no line feed stands,
/// and at which one stands unless it is the end of `s`.
pub proof fn lemma_first_line_feed(s: Seq<u8>)
    ensures
        0 <= first_line_feed(s) <= s.len(),
        forall|k: int| 0 <= k < first_line_feed(s) ==> s[k] != LINE_FEED,
        first_line_feed(s) < s.len() ==> s[first_line_feed(s)] == LINE_FEED,
    decreases s.len(),
{
    if s.len() == 0 || s[0] == LINE_FEED {
    } else {
        let rest = s.skip(1);
        lemma_first_line_feed(rest);
        assert forall|k: int| 0 <= k < first_line_feed(s) implies s[k] != LINE_FEED by {
            if k > 0 {
                assert(rest[k - 1] == s[k]);
            }
        }
        if first_line_feed(s) < s.len() {
            assert(rest[first_line_feed(rest)] == s[first_line_feed(s)]);
        }
    }
}

/// A position with the two properties of `first_line_feed` is that position.
pub proof fn lemma_first_line_feed_is(s: Seq<u8>, at: int)
    requires
        0 <= at <= s.len(),
        forall|k: int| 0 <= k < at ==> s[k] != LINE_FEED,
        at < s.len() ==> s[at] == LINE_FEED,
    ensures
        first_line_feed(s) == at,
    decreases s.len(),
{
    if s.len() == 0 {
    } else if s[0] == LINE_FEED {
        if at > 0 {
            assert(s[0] != LINE_FEED);
        }
    } else {
        let rest = s.skip(1);
        assert forall|k: int| 0 <= k < at - 1 implies rest[k] != LINE_FEED by {
            assert(rest[k] == s[k + 1]);
        }
        if at < s.len() {
            assert(rest[at - 1] == s[at]);
        }
        lemma_first_line_feed_is(rest, at - 1);
    }
}

/// What `distinct_nonempty` keeps: exactly the non-empty members, none twice.
pub proof fn lemma_distinct_nonempty(lines: Seq<Seq<u8>>)
    ensures
        distinct_nonempty(lines).no_duplicates(),
        forall|name: Seq<u8>| #[trigger]
            distinct_nonempty(lines).contains(name) <==> name.len() > 0 && lines.contains(name),
    decreases lines.len(),
{
    let kept = distinct_nonempty(lines);
    if lines.len() > 0 {
        let front = lines.drop_last();
        let before = distinct_nonempty(front);
        let line = lines.last();
        let grows = !(line.len() == 0 || before.contains(line));
        lemma_distinct_nonempty(front);
        assert(kept == if grows {
            before.push(line)
        } else {
            before
        });
        assert(lines =~= front.push(line));
        assert forall|name: Seq<u8>| #[trigger]
            kept.contains(name) <==> name.len() > 0 && lines.contains(name) by {
            lemma_contains_push(front, line, name);
            lemma_contains_push(before, line, name);
        }
        assert forall|i: int, j: int| 0 <= i < j < kept.len() implies kept[i] != kept[j] by {
            if j == before.len() {
                assert(before[i] == kept[i]);
                assert(before.contains(before[i]));
            } else {
                assert(before[i] != before[j]);
            }
        }
    }
}

/// The names that a ledger lists are distinct, none is empty, and each is one
/// of the ledger's lines.
pub proof fn lemma_ledger_names(content: Seq<u8>)
    ensures
        ledger_names(content).no_duplicates(),
        forall|name: Seq<u8>| #[trigger]
            ledger_names(content).contains(name) <==> name.len() > 0 && split_lines(
                content,
            ).contains(name),
{
    lemma_distinct_nonempty(split_lines(content));
    assert forall|name: Seq<u8>| #[trigger]
        ledger_names(content).contains(name) <==> name.len() > 0 && split_lines(content).contains(
            name,
        ) by {
        assert(distinct_nonempty(split_lines(content)).contains(name) <==> name.len() > 0
            && split_lines(content).contains(name));
    }
}

/// No line holds a line feed, and so no name that a ledger lists does.
pub proof fn law_names_hold_no_line_feed(content: Seq<u8>)
    ensures
        forall|i: int, k: int|
            0 <= i < split_lines(content).len() && 0 <= k < split_lines(content)[i].len()
                ==> #[trigger] split_lines(content)[i][k] != LINE_FEED,
        forall|name: Seq<u8>, k: int|
            ledger_names(content).contains(name) && 0 <= k < name.len() ==> #[trigger] name[k]
                != LINE_FEED,
    decreases content.len(),
{
    let lines = split_lines(content);
    let at = first_line_feed(content);
    lemma_first_line_feed(content);
    if content.len() > 0 && at < content.len() {
        let rest = content.skip(at + 1);
        let head = strip_carriage_return(content.take(at));
        law_names_hold_no_line_feed(rest);
        assert(lines == seq![head] + split_lines(rest));
        assert forall|i: int, k: int|
            0 <= i < lines.len() && 0 <= k < lines[i].len() implies #[trigger] lines[i][k]
            != LINE_FEED by {
            if i == 0 {
                assert(head[k] == content[k]);
            } else {
                assert(lines[i] == split_lines(rest)[i - 1]);
            }
        }
    }
    lemma_ledger_names(content);
    assert forall|name: Seq<u8>, k: int|
        ledger_names(content).contains(name) && 0 <= k < name.len() implies #[trigger] name[k]
        != LINE_FEED by {
        assert(lines.contains(name));
        let i = choose|i: int| 0 <= i < lines.len() && lines[i] == name;
        assert(lines[i][k] != LINE_FEED);
    }
}

/// A text that ends a line where `first` ends has the lines of `first` and
/// then the lines of `then`.
pub proof fn lemma_split_lines_concat(first: Seq<u8>, then: Seq<u8>)
    requires
        first.len() == 0 || first.last() == LINE_FEED,
    ensures
        split_lines(first + then) == split_lines(first) + split_lines(then),
    decreases first.len(),
{
    if first.len() == 0 {
        assert(first + then =~= then);
        assert(split_lines(first) + split_lines(then) =~= split_lines(then));
    } else {
        let whole = first + then;
        let at = first_line_feed(first);
        lemma_first_line_feed(first);
        assert(at < first.len()) by {
            if at == first.len() {
                assert(first[first.len() - 1] != LINE_FEED);
            }
        }
        assert forall|k: int| 0 <= k < at implies whole[k] != LINE_FEED by {
            assert(whole[k] == first[k]);
        }
        assert(whole[at] == first[at]);
        lemma_first_line_feed_is(whole, at);
        let rest = first.skip(at + 1);
        assert(whole.take(at) =~= first.take(at));
        assert(whole.skip(at + 1) =~= rest + then);
        if rest.len() > 0 {
            assert(rest.last() == first.last());
        }
        lemma_split_lines_concat(rest, then);
        assert(split_lines(whole) =~= split_lines(first) + split_lines(then));
    }
}

/// Appending to a ledger whose last line is complete takes no name away: the
/// ledger then lists what it listed before and what the appended text lists.
pub proof fn law_ledger_append(content: Seq<u8>, more: Seq<u8>)
    requires
        content.len() == 0 || content.last() == LINE_FEED,
    ensures
        forall|name: Seq<u8>| #[trigger]
            ledger_names(content + more).contains(name) <==> ledger_names(content).contains(name)
                || ledger_names(more).contains(name),
{
    let before = split_lines(content);
    let added = split_lines(more);
    lemma_split_lines_concat(content, more);
    lemma_ledger_names(content);
    lemma_ledger_names(more);
    lemma_ledger_names(content + more);
    assert forall|name: Seq<u8>| #[trigger]
        ledger_names(content + more).contains(name) <==> ledger_names(content).contains(name)
            || ledger_names(more).contains(name) by {
        lemma_contains_concat(before, added, name);
    }
}

/// A line made of a name and a line feed lists that name and nothing else,
/// where the name is not empty, holds no line feed and does not end in a
/// carriage return.
pub proof fn law_ledger_line(name: Seq<u8>)
    requires
        name.len() > 0,
        forall|k: int| 0 <= k < name.len() ==> name[k] != LINE_FEED,
        name.last() != CARRIAGE_RETURN,
    ensures
        ledger_names(name.push(LINE_FEED)) == seq![name],
{
    let line = name.push(LINE_FEED);
    assert forall|k: int| 0 <= k < name.len() implies line[k] != LINE_FEED by {
        assert(line[k] == name[k]);
    }
    lemma_first_line_feed_is(line, name.len() as int);
    assert(line.take(name.len() as int) =~= name);
    assert(strip_carriage_return(name) == name);
    assert(line.skip(name.len() as int + 1) =~= Seq::<u8>::empty());
    assert(split_lines(Seq::<u8>::empty()) =~= Seq::<Seq<u8>>::empty());
    assert(split_lines(line) =~= seq![name]);
    let lines = seq![name];
    assert(lines.drop_last() =~= Seq::<Seq<u8>>::empty());
    assert(distinct_nonempty(Seq::<Seq<u8>>::empty()) =~= Seq::<Seq<u8>>::empty());
    assert(lines.last() == name);
    assert(distinct_nonempty(lines) =~= seq![name]);
}

/// Whether two byte strings are the same.
pub fn same_bytes(a: &[u8], b: &[u8]) -> (same: bool)
    ensures
        same == (a@ == b@),
{
    if a.len() != b.len() {
        return false;
    }
    let mut i: usize = 0;
    while i < a.len()
        invariant
            i <= a.len(),
            a.len() == b.len(),
            forall|k: int| 0 <= k < i ==> a@[k] == b@[k],
        decreases a.len() - i,
    {
        if a[i] != b[i] {
            return false;
        }
        i = i + 1;
    }
    assert(a@ =~= b@);
    true
}

/// A copy of the bytes of `bytes` from `from` up to, not including, `to`.
pub(crate) fn copy_range(bytes: &[u8], from: usize, to: usize) -> (copy: Vec<u8>)
    requires
        from <= to <= bytes.len(),
    ensures
        copy@ == bytes@.subrange(from as int, to as int),
{
    let mut copy: Vec<u8> = Vec::new();
    let mut i: usize = from;
    while i < to
        invariant
            from <= i <= to <= bytes.len(),
            copy@ == bytes@.subrange(from as int, i as int),
        decreases to - i,
    {
        copy.push(bytes[i]);
        i = i + 1;
        assert(copy@ =~= bytes@.subrange(from as int, i as int));
    }
    copy
}

/// Whether `name` is one of `names`.
pub fn contains_name(names: &Vec<Vec<u8>>, name: &[u8]) -> (found: bool)
    ensures
        found == names_view(names@).contains(name@),
{
    let mut i: usize = 0;
    while i < names.len()
        invariant
            i <= names.len(),
            forall|k: int| 0 <= k < i ==> names_view(names@)[k] != name@,
        decreases names.len() - i,
    {
        if same_bytes(names[i].as_slice(), name) {
            assert(names_view(names@)[i as int] == name@);
            return true;
        }
        i = i + 1;
    }
    false
}

/// The position of the first line feed at or after `from`, or the length of
/// `bytes` where none follows.
fn find_line_feed(bytes: &[u8], from: usize) -> (at: usize)
    requires
        from <= bytes.len(),
    ensures
        from <= at <= bytes.len(),
        at - from == first_line_feed(bytes@.skip(from as int)),
{
    let mut at: usize = from;
    while at < bytes.len() && bytes[at] != LINE_FEED
        invariant
            from <= at <= bytes.len(),
            forall|k: int| from <= k < at ==> bytes@[k] != LINE_FEED,
        decreases bytes.len() - at,
    {
        at = at + 1;
    }
    proof {
        let rest = bytes@.skip(from as int);
        assert forall|k: int| 0 <= k < at - from implies rest[k] != LINE_FEED by {
            assert(rest[k] == bytes@[from + k]);
        }
        lemma_first_line_feed_is(rest, at - from);
    }
    at
}

/// Reads the content of a ledger: its distinct non-empty lines, in the order
/// of their first appearance.
pub fn parse_ledger(content: &[u8]) -> (names: Vec<Vec<u8>>)
    ensures
        names_view(names@) == ledger_names(content@),
        names_view(names@).no_duplicates(),
        forall|name: Seq<u8>| #[trigger]
            names_view(names@).contains(name) <==> name.len() > 0 && split_lines(
                content@,
            ).contains(name),
{
    let mut names: Vec<Vec<u8>> = Vec::new();
    let mut pos: usize = 0;
    let ghost mut done: Seq<Seq<u8>> = Seq::empty();
    assert(content@.skip(0) =~= content@);
    assert(names_view(names@) =~= distinct_nonempty(done));
    while pos < content.len()
        invariant
            pos <= content.len(),
            split_lines(content@) == done + split_lines(content@.skip(pos as int)),
            names_view(names@) == distinct_nonempty(done),
        decreases content.len() - pos,
    {
        let at: usize = find_line_feed(content, pos);
        let terminated: bool = at < content.len();
        let mut end: usize = at;
        if terminated && end > pos && content[end - 1] == CARRIAGE_RETURN {
            end = end - 1;
        }
        let line = copy_range(content, pos, end);
        let next: usize = if terminated {
            at + 1
        } else {
            at
        };
        proof {
            let rest = content@.skip(pos as int);
            assert(rest.take(at - pos) =~= content@.subrange(pos as int, at as int));
            if terminated {
                assert(rest.skip(at - pos + 1) =~= content@.skip(next as int));
                assert(line@ =~= strip_carriage_return(rest.take(at - pos)));
            } else {
                assert(line@ =~= rest);
                assert(split_lines(content@.skip(next as int)) =~= Seq::<Seq<u8>>::empty());
            }
            assert(split_lines(rest) =~= seq![line@] + split_lines(content@.skip(next as int)));
            assert(split_lines(content@) =~= done.push(line@) + split_lines(
                content@.skip(next as int),
            ));
            assert(done.push(line@).drop_last() =~= done);
        }
        if line.len() > 0 && !contains_name(&names, line.as_slice()) {
            proof {
                assert(names_view(names@.push(line)) =~= names_view(names@).push(line@));
            }
            names.push(line);
        }
        proof {
            done = done.push(line@);
        }
        pos = next;
    }
    proof {
        assert(split_lines(content@.skip(pos as int)) =~= Seq::<Seq<u8>>::empty());
        assert(done + Seq::<Seq<u8>>::empty() =~= done);
        lemma_ledger_names(content@);
    }
    names
}

} // verus!
