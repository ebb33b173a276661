//! The pinned engine: its version, and one checksum for each platform.

use vstd::hash_map::StringHashMap;
use vstd::prelude::*;

use crate::text::chars_of;
use crate::text::optional_text;
use crate::text::text_between;

verus! {

/// The version of the engine to use and the checksum of its archive on each platform.
pub struct Manifest {
    pub version: String,
    pub checksums: StringHashMap<String>,
}

impl Manifest {
    /// A manifest that pins a version and no checksum yet.
    pub fn new(version: String) -> (manifest: Manifest)
        ensures
            manifest.version@ == version@,
            manifest.checksums@ == Map::<Seq<char>, String>::empty(),
    {
        Manifest { version, checksums: StringHashMap::new() }
    }

    /// Pins the checksum of the archive for the platform `key`.
    pub fn pin(&mut self, key: String, checksum: String)
        ensures
            final(self).version == old(self).version,
            final(self).checksums@ == old(self).checksums@.insert(key@, checksum),
    {
        self.checksums.insert(key, checksum);
    }
}

/// The first place at or after `from` where `c` stands, or the end of the text.
pub open spec fn find(text: Seq<char>, c: char, from: int) -> int
    decreases text.len() - from,
{
    if from >= text.len() {
        text.len() as int
    } else if text[from] == c {
        from
    } else {
        find(text, c, from + 1)
    }
}

/// The text without a carriage return at its end.
pub open spec fn without_return(line: Seq<char>) -> Seq<char> {
    if line.len() > 0 && line.last() == '\r' {
        line.drop_last()
    } else {
        line
    }
}

/// The lines of the text from `from` on. A line ends at a line feed, alone or after a carriage
/// return; the last line needs no such end.
pub open spec fn lines_from(text: Seq<char>, from: int) -> Seq<Seq<char>>
    decreases text.len() - from,
    when 0 <= from
    via lines_decrease
{
    if from >= text.len() {
        Seq::empty()
    } else {
        let end = find(text, '\n', from);
        if end < text.len() {
            seq![without_return(text.subrange(from, end))] + lines_from(text, end + 1)
        } else {
            seq![text.subrange(from, end)]
        }
    }
}

#[via_fn]
proof fn lines_decrease(text: Seq<char>, from: int) {
    lemma_find(text, '\n', from);
}

/// The first of the lines that begins with `prefix`.
pub open spec fn first_beginning(lines: Seq<Seq<char>>, prefix: Seq<char>) -> Option<Seq<char>>
    decreases lines.len(),
{
    if lines.len() == 0 {
        None
    } else if prefix.is_prefix_of(lines.first()) {
        Some(lines.first())
    } else {
        first_beginning(lines.drop_first(), prefix)
    }
}

/// What stands between the first double quote of the line and the next one, or the line's end.
pub open spec fn quoted(line: Seq<char>) -> Option<Seq<char>> {
    let open = find(line, '"', 0);
    if open < line.len() {
        Some(line.subrange(open + 1, find(line, '"', open + 1)))
    } else {
        None
    }
}

/// The version that a manifest's text pins: the quoted part of the first line that begins with
/// `version`.
pub open spec fn version_in(text: Seq<char>) -> Option<Seq<char>> {
    match first_beginning(lines_from(text, 0), "version"@) {
        Some(line) => quoted(line),
        None => None,
    }
}

proof fn lemma_find(text: Seq<char>, c: char, from: int)
    requires
        0 <= from,
    ensures
        from <= text.len() ==> from <= find(text, c, from) <= text.len(),
        from > text.len() ==> find(text, c, from) == text.len(),
        find(text, c, from) < text.len() ==> text[find(text, c, from)] == c,
        forall|i: int| from <= i < find(text, c, from) ==> text[i] != c,
    decreases text.len() - from,
{
    if from < text.len() && text[from] != c {
        lemma_find(text, c, from + 1);
    }
}

/// The first place is the only one with `c` at it and none before.
proof fn lemma_find_is(text: Seq<char>, c: char, from: int, at: int)
    requires
        0 <= from <= at <= text.len(),
        forall|i: int| from <= i < at ==> text[i] != c,
        at < text.len() ==> text[at] == c,
    ensures
        find(text, c, from) == at,
    decreases at - from,
{
    if from < at {
        lemma_find_is(text, c, from + 1, at);
    }
}

/// The first index in `from..to` at which `c` stands, or `to`.
fn position(chars: &Vec<char>, c: char, from: usize, to: usize) -> (at: usize)
    requires
        from <= to <= chars@.len(),
    ensures
        from <= at <= to,
        forall|i: int| from <= i < at ==> chars@[i] != c,
        at < to ==> chars@[at as int] == c,
{
    let mut at: usize = from;
    while at < to
        invariant
            from <= at <= to <= chars@.len(),
            forall|i: int| from <= i < at ==> chars@[i] != c,
        decreases to - at,
    {
        if chars[at] == c {
            return at;
        }
        at += 1;
    }
    at
}

/// Whether `chars[from..to]` begins with `prefix`.
fn begins_with(chars: &Vec<char>, from: usize, to: usize, prefix: &Vec<char>) -> (begins: bool)
    requires
        from <= to <= chars@.len(),
    ensures
        begins == prefix@.is_prefix_of(chars@.subrange(from as int, to as int)),
{
    if prefix.len() > to - from {
        return false;
    }
    let ghost line = chars@.subrange(from as int, to as int);
    let mut i: usize = 0;
    while i < prefix.len()
        invariant
            i <= prefix@.len() <= to - from,
            from <= to <= chars@.len(),
            line == chars@.subrange(from as int, to as int),
            forall|j: int| 0 <= j < i ==> prefix@[j] == line[j],
        decreases prefix@.len() - i,
    {
        if prefix[i] != chars[from + i] {
            assert(prefix@[i as int] != line.subrange(0, prefix@.len() as int)[i as int]);
            return false;
        }
        i += 1;
    }
    assert(prefix@ =~= line.subrange(0, prefix@.len() as int));
    true
}

/// The version that the manifest's text pins, found without reading the rest of the text.
pub fn pinned_version(text: &str) -> (version: Option<String>)
    ensures
        optional_text(version) == version_in(text@),
{
    let chars: Vec<char> = chars_of(text);
    let prefix: Vec<char> = chars_of("version");
    let mut start: usize = 0;
    while start < chars.len()
        invariant
            chars@ == text@,
            prefix@ == "version"@,
            start <= chars@.len(),
            first_beginning(lines_from(text@, 0), prefix@) == first_beginning(
                lines_from(text@, start as int),
                prefix@,
            ),
        decreases chars@.len() - start,
    {
        let end: usize = position(&chars, '\n', start, chars.len());
        proof {
            lemma_find_is(text@, '\n', start as int, end as int);
        }
        let line_end: usize = if end < chars.len() && end > start && chars[end - 1] == '\r' {
            end - 1
        } else {
            end
        };
        let ghost line = text@.subrange(start as int, line_end as int);
        let ghost rest = lines_from(text@, start as int);
        proof {
            if end < chars@.len() {
                assert(line =~= without_return(text@.subrange(start as int, end as int)));
                assert(rest.drop_first() =~= lines_from(text@, end + 1));
            } else {
                assert(rest.drop_first() =~= lines_from(text@, end as int));
            }
            assert(rest.first() == line);
        }
        if begins_with(&chars, start, line_end, &prefix) {
            let open: usize = position(&chars, '"', start, line_end);
            proof {
                lemma_find_is(line, '"', 0, open - start);
            }
            if open == line_end {
                return None;
            }
            let close: usize = position(&chars, '"', open + 1, line_end);
            proof {
                lemma_find_is(line, '"', open + 1 - start, close - start);
                assert(line.subrange(open + 1 - start, close - start) =~= text@.subrange(
                    open + 1,
                    close as int,
                ));
            }
            return Some(text_between(&chars, open + 1, close));
        }
        start = if end < chars.len() { end + 1 } else { end };
    }
    None
}

/// Text that begins with `version = "..."` on a line of its own pins what the quotes hold.
pub proof fn law_version_line_is_read(version: Seq<char>, rest: Seq<char>)
    requires
        !version.contains('"'),
        !version.contains('\n'),
    ensures
        version_in("version = \""@ + version + "\"\n"@ + rest) == Some(version),
{
    reveal_strlit("version = \"");
    reveal_strlit("version");
    reveal_strlit("\"\n");
    let text = "version = \""@ + version + "\"\n"@ + rest;
    let n = version.len();
    assert forall|i: int| 0 <= i < n implies text[11 + i] == version[i] by {
        assert(version.contains(version[i]));
    }
    assert forall|i: int| 0 <= i < n implies version[i] != '"' && version[i] != '\n' by {
        assert(version.contains(version[i]));
    }
    assert forall|i: int| 0 <= i < 12 + n implies text[i] != '\n' by {
        if 11 <= i < 11 + n {
            assert(text[11 + (i - 11)] == version[i - 11]);
        }
    }
    lemma_find_is(text, '\n', 0, 12 + n as int);
    let line = text.subrange(0, 12 + n as int);
    assert(without_return(line) == line);
    assert(lines_from(text, 0).first() == line);
    assert("version"@ =~= line.subrange(0, 7));
    assert(line[10] == '"' && line[11 + n as int] == '"');
    lemma_find_is(line, '"', 0, 10);
    assert forall|i: int| 11 <= i < 11 + n implies line[i] != '"' by {
        assert(text[11 + (i - 11)] == version[i - 11]);
    }
    lemma_find_is(line, '"', 11, 11 + n as int);
    assert(line.subrange(11, 11 + n as int) =~= version);
}

/// Text in front moves the places in what follows, and changes nothing else.
proof fn lemma_find_shifted(front: Seq<char>, text: Seq<char>, c: char, from: int)
    requires
        0 <= from <= text.len(),
    ensures
        find(front + text, c, front.len() + from) == front.len() + find(text, c, from),
{
    let at = find(text, c, from);
    lemma_find(text, c, from);
    assert forall|i: int| front.len() + from <= i < front.len() + at implies (front + text)[i]
        != c by {
        assert((front + text)[i] == text[i - front.len()]);
    }
    lemma_find_is(front + text, c, front.len() + from, front.len() + at);
}

/// Text in front does not change the lines of what follows.
proof fn lemma_lines_shifted(front: Seq<char>, text: Seq<char>, from: int)
    requires
        0 <= from <= text.len(),
    ensures
        lines_from(front + text, front.len() + from) == lines_from(text, from),
    decreases text.len() - from,
{
    let all = front + text;
    let n = front.len() as int;
    if from < text.len() {
        lemma_find_shifted(front, text, '\n', from);
        lemma_find(text, '\n', from);
        let end = find(text, '\n', from);
        assert(all.subrange(n + from, n + end) =~= text.subrange(from, end));
        if end < text.len() {
            lemma_lines_shifted(front, text, end + 1);
        }
    }
}

/// A line, its end and more text are that line and then the lines of the rest, whether the line
/// ends in a line feed or in a carriage return and a line feed. Text without a line feed is a
/// line of its own, unless it is empty.
pub proof fn law_lines_are_taken_off_the_front(line: Seq<char>, rest: Seq<char>)
    requires
        !line.contains('\n'),
    ensures
        line.len() == 0 || line.last() != '\r' ==> lines_from(line + seq!['\n'] + rest, 0) == seq![
            line,
        ] + lines_from(rest, 0),
        lines_from(line + seq!['\r', '\n'] + rest, 0) == seq![line] + lines_from(rest, 0),
        line.len() > 0 ==> lines_from(line, 0) == seq![line],
        lines_from(Seq::<char>::empty(), 0) == Seq::<Seq<char>>::empty(),
{
    let n = line.len() as int;
    assert forall|i: int| 0 <= i < n implies line[i] != '\n' by {
        assert(line.contains(line[i]));
    }
    // A line feed alone.
    let feed = line + seq!['\n'];
    assert(line + seq!['\n'] + rest =~= feed + rest);
    let text = feed + rest;
    lemma_find_is(text, '\n', 0, n);
    assert(text.subrange(0, n) =~= line);
    lemma_lines_shifted(feed, rest, 0);
    // A carriage return and a line feed.
    let both = line + seq!['\r', '\n'];
    assert(line + seq!['\r', '\n'] + rest =~= both + rest);
    let other = both + rest;
    lemma_find_is(other, '\n', 0, n + 1);
    assert(other.subrange(0, n + 1) =~= line.push('\r'));
    assert(line.push('\r').drop_last() =~= line);
    lemma_lines_shifted(both, rest, 0);
    // No end at all.
    if n > 0 {
        lemma_find_is(line, '\n', 0, n);
        assert(line.subrange(0, n) =~= line);
    }
}

/// What is quoted in a line is what stands behind its first double quote and before its next, or
/// the end; a line without double quotes quotes nothing.
pub proof fn law_quotes_hold_what_is_between(
    before: Seq<char>,
    inside: Seq<char>,
    behind: Seq<char>,
)
    requires
        !before.contains('"'),
        !inside.contains('"'),
    ensures
        quoted(before + seq!['"'] + inside + seq!['"'] + behind) == Some(inside),
        quoted(before + seq!['"'] + inside) == Some(inside),
        quoted(before) is None,
{
    let n = before.len() as int;
    let m = n + 1 + inside.len();
    assert forall|i: int| 0 <= i < n implies before[i] != '"' by {
        assert(before.contains(before[i]));
    }
    assert forall|i: int| 0 <= i < inside.len() implies inside[i] != '"' by {
        assert(inside.contains(inside[i]));
    }
    lemma_find_is(before, '"', 0, n);
    let open = before + seq!['"'] + inside;
    assert forall|i: int| n < i < m implies open[i] != '"' by {
        assert(open[i] == inside[i - n - 1]);
    }
    lemma_find_is(open, '"', 0, n);
    lemma_find_is(open, '"', n + 1, m);
    assert(open.subrange(n + 1, m) =~= inside);
    let closed = before + seq!['"'] + inside + seq!['"'] + behind;
    assert forall|i: int| n < i < m implies closed[i] != '"' by {
        assert(closed[i] == inside[i - n - 1]);
    }
    lemma_find_is(closed, '"', 0, n);
    lemma_find_is(closed, '"', n + 1, m);
    assert(closed.subrange(n + 1, m) =~= inside);
}

/// Lines that do not begin with `version` are passed over, however many there are; the first that
/// does decides, whatever follows.
pub proof fn law_first_version_line_decides(line: Seq<char>, rest: Seq<char>)
    requires
        !line.contains('\n'),
        line.len() == 0 || line.last() != '\r',
    ensures
        "version"@.is_prefix_of(line) ==> {
            &&& version_in(line + seq!['\n'] + rest) == quoted(line)
            &&& version_in(line + seq!['\r', '\n'] + rest) == quoted(line)
            &&& version_in(line) == quoted(line)
        },
        !"version"@.is_prefix_of(line) ==> {
            &&& version_in(line + seq!['\n'] + rest) == version_in(rest)
            &&& version_in(line + seq!['\r', '\n'] + rest) == version_in(rest)
            &&& version_in(line) is None
        },
        version_in(Seq::<char>::empty()) is None,
{
    reveal_strlit("version");
    law_lines_are_taken_off_the_front(line, rest);
    let lines = seq![line] + lines_from(rest, 0);
    assert(lines.first() == line);
    assert(lines.drop_first() =~= lines_from(rest, 0));
    assert(seq![line].first() == line);
    assert(seq![line].drop_first() =~= Seq::<Seq<char>>::empty());
    reveal_with_fuel(first_beginning, 2);
    if line.len() == 0 {
        assert(line =~= Seq::<char>::empty());
    }
}

} // verus!
