//! The to-do store: an ordered list of entries and the operations on it.
//!
//! Entries are kept exactly as the lines of the backing file. Positions are
//! 1-based. Structural changes are persisted by rewriting every line with a
//! fresh number, so the numbering stays contiguous whatever the lines held
//! before.

use vstd::prelude::*;

use crate::text::cleaned;
use crate::text::line_of;
use crate::text::trimmed;
use crate::text::clean_line;
use crate::text::format_line;
use crate::text::trim_str;

verus! {

/// The symbol appended to an entry's text when it is marked completed.
pub open spec fn marker() -> char {
    '\u{2605}'
}

/// Whether an entry already carries the completion marker anywhere in its
/// text.
pub open spec fn has_marker(s: Seq<char>) -> bool {
    exists|i: int| 0 <= i < s.len() && s[i] == marker()
}

/// An entry's text once marked completed: a space and the marker appended.
pub open spec fn marked(s: Seq<char>) -> Seq<char> {
    s + seq![' ', marker()]
}

/// What marking entry `index` does to the list: appends the marker to that
/// entry if `index` is in range and the entry does not carry one already;
/// otherwise leaves the list as it is.
pub open spec fn mark_spec(l: Seq<Seq<char>>, index: int) -> Seq<Seq<char>> {
    if 1 <= index <= l.len() && !has_marker(l[index - 1]) {
        l.update(index - 1, marked(l[index - 1]))
    } else {
        l
    }
}

/// What deleting entry `index` does to the list: removes it if `index` is in
/// range, shifting the entries after it up by one; otherwise leaves the list
/// as it is.
pub open spec fn delete_spec(l: Seq<Seq<char>>, index: int) -> Seq<Seq<char>> {
    if 1 <= index <= l.len() {
        l.remove(index - 1)
    } else {
        l
    }
}

/// The lines written back to the store: every entry stripped of its old
/// numbering prefix and renumbered by its 1-based position.
pub open spec fn renumbered(l: Seq<Seq<char>>) -> Seq<Seq<char>> {
    Seq::new(l.len(), |i: int| line_of((i + 1) as nat, cleaned(l[i])))
}

/// The banner line printed above the entries.
pub open spec fn header() -> Seq<char> {
    "─────────────── TODO List ───────────────"@
}

/// The banner line printed below the entries.
pub open spec fn footer() -> Seq<char> {
    "─────────────── End List ────────────────"@
}

/// The display form of the list: the entries verbatim, framed by the two
/// banner lines.
pub open spec fn rendered(l: Seq<Seq<char>>) -> Seq<Seq<char>> {
    seq![header()] + l + seq![footer()]
}

/// How an attempt to mark an entry completed ended.
#[derive(Clone, Copy, Debug, PartialEq, Eq, Structural)]
pub enum MarkOutcome {
    /// The entry was marked and the store must be rewritten.
    Marked,
    /// The entry already carried the marker; nothing changed.
    AlreadyCompleted,
    /// The index was out of range; nothing changed.
    InvalidIndex,
}

/// Whether the entry's text holds the completion marker.
fn contains_marker(s: &str) -> (r: bool)
    ensures
        r == has_marker(s@),
{
    let n = s.unicode_len();
    let mut i: usize = 0;
    while i < n
        invariant
            i <= n,
            n == s@.len(),
            forall|j: int| 0 <= j < i ==> s@[j] != marker(),
        decreases n - i,
    {
        if s.get_char(i) == '\u{2605}' {
            proof {
                assert(s@[i as int] == marker());
            }
            return true;
        }
        i += 1;
    }
    false
}

/// A to-do list: one entry per line of the backing file, in display order.
pub struct TodoList {
    lines: Vec<String>,
}

impl View for TodoList {
    type V = Seq<Seq<char>>;

    closed spec fn view(&self) -> Seq<Seq<char>> {
        self.lines.deep_view()
    }
}

impl TodoList {
    /// Builds the list from the lines of the backing file, kept verbatim.
    pub fn from_lines(lines: Vec<String>) -> (t: TodoList)
        ensures
            t@ == lines.deep_view(),
    {
        TodoList { lines }
    }

    /// The number of entries.
    pub fn len(&self) -> (n: usize)
        ensures
            n == self@.len(),
    {
        self.lines.len()
    }

    /// The entries, one stored line each, in display order.
    pub fn entries(&self) -> (r: &Vec<String>)
        ensures
            r.deep_view() == self@,
    {
        &self.lines
    }

    /// Appends a new entry holding `text` trimmed of surrounding whitespace,
    /// numbered with its new 1-based position, and returns the stored line,
    /// ready to be appended to the backing file as is.
    pub fn add(&mut self, text: &str) -> (line: String)
        requires
            old(self)@.len() < usize::MAX,
        ensures
            line@ == line_of((old(self)@.len() + 1) as nat, trimmed(text@)),
            final(self)@ == old(self)@.push(line@),
    {
        let t = trim_str(text);
        let line = format_line(self.lines.len() + 1, t.as_str());
        let stored = line.clone();
        self.lines.push(stored);
        proof {
            assert(self@ =~= old(self)@.push(line@));
        }
        line
    }

    /// Marks entry `index` completed: appends the marker to its text. Out of
    /// range, or already marked, nothing changes; the outcome says which, and
    /// whether the store must be rewritten.
    pub fn mark_completed(&mut self, index: usize) -> (r: MarkOutcome)
        ensures
            final(self)@ == mark_spec(old(self)@, index as int),
            r == MarkOutcome::InvalidIndex <==> !(1 <= index <= old(self)@.len()),
            r == MarkOutcome::AlreadyCompleted <==> 1 <= index <= old(self)@.len()
                && has_marker(old(self)@[index - 1]),
            r == MarkOutcome::Marked <==> 1 <= index <= old(self)@.len() && !has_marker(
                old(self)@[index - 1],
            ),
    {
        if index == 0 || index > self.lines.len() {
            return MarkOutcome::InvalidIndex;
        }
        if contains_marker(self.lines[index - 1].as_str()) {
            return MarkOutcome::AlreadyCompleted;
        }
        let mut line = self.lines[index - 1].clone();
        line.append(" \u{2605}");
        proof {
            reveal_strlit(" \u{2605}");
            assert(line@ =~= marked(old(self)@[index - 1]));
        }
        self.lines[index - 1] = line;
        proof {
            assert(self@ =~= mark_spec(old(self)@, index as int));
        }
        MarkOutcome::Marked
    }

    /// Deletes entry `index`, shifting the entries after it up by one, and
    /// reports whether anything changed. Out of range, nothing does.
    pub fn delete(&mut self, index: usize) -> (r: bool)
        ensures
            final(self)@ == delete_spec(old(self)@, index as int),
            r <==> 1 <= index <= old(self)@.len(),
    {
        if index == 0 || index > self.lines.len() {
            return false;
        }
        self.lines.remove(index - 1);
        proof {
            assert(self@ =~= delete_spec(old(self)@, index as int));
        }
        true
    }

    /// The lines to write when the store is rewritten wholesale: every entry
    /// stripped of its old numbering prefix and renumbered 1..len in order.
    pub fn rewrite_all(&self) -> (out: Vec<String>)
        ensures
            out.deep_view() == renumbered(self@),
    {
        let n = self.lines.len();
        let mut out: Vec<String> = Vec::new();
        let mut i: usize = 0;
        while i < n
            invariant
                i <= n,
                n == self@.len(),
                self@ == self.lines.deep_view(),
                out@.len() == i,
                forall|k: int| 0 <= k < i ==> out.deep_view()[k] == renumbered(self@)[k],
            decreases n - i,
        {
            let text = clean_line(self.lines[i].as_str());
            let line = format_line(i + 1, text.as_str());
            let ghost prev = out.deep_view();
            let ghost pushed = line@;
            out.push(line);
            proof {
                assert(out.deep_view() =~= prev.push(pushed));
                assert(self@[i as int] == self.lines[i as int]@);
            }
            i += 1;
        }
        proof {
            assert(out.deep_view() =~= renumbered(self@));
        }
        out
    }

    /// The lines printed for a listing: the entries verbatim, in stored
    /// order, framed by the header and footer banners.
    pub fn render(&self) -> (out: Vec<String>)
        ensures
            out.deep_view() == rendered(self@),
    {
        let n = self.lines.len();
        let mut out: Vec<String> = Vec::new();
        out.push("─────────────── TODO List ───────────────".to_owned());
        proof {
            assert(out.deep_view() =~= seq![header()]);
        }
        let mut i: usize = 0;
        while i < n
            invariant
                i <= n,
                n == self@.len(),
                self@ == self.lines.deep_view(),
                out.deep_view() =~= seq![header()] + self@.take(i as int),
            decreases n - i,
        {
            let ghost prev = out.deep_view();
            let line = self.lines[i].clone();
            let ghost pushed = line@;
            out.push(line);
            proof {
                assert(out.deep_view() =~= prev.push(pushed));
                assert(self@[i as int] == self.lines[i as int]@);
                assert(prev.push(pushed) =~= seq![header()] + self@.take(i + 1));
            }
            i += 1;
        }
        let ghost prev = out.deep_view();
        out.push("─────────────── End List ────────────────".to_owned());
        proof {
            assert(out.deep_view() =~= prev.push(footer()));
            assert(self@.take(n as int) =~= self@);
            assert(out.deep_view() =~= rendered(self@));
        }
        out
    }
}

} // verus!
