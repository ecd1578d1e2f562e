//! Laws of the store, stated and proved once for every list.

use vstd::prelude::*;

use crate::store::delete_spec;
use crate::store::has_marker;
use crate::store::mark_spec;
use crate::store::marked;
use crate::store::marker;
use crate::store::renumbered;
use crate::text::cleaned;
use crate::text::decimal_of;
use crate::text::lemma_cleaned_idempotent;
use crate::text::lemma_cleaned_line_of;
use crate::text::line_of;
use crate::text::trimmed;

verus! {

/// The list built by adding the given texts, in order, to an empty list:
/// each add appends the next text, trimmed, behind the list's new length.
pub open spec fn added_all(texts: Seq<Seq<char>>) -> Seq<Seq<char>>
    decreases texts.len(),
{
    if texts.len() == 0 {
        Seq::empty()
    } else {
        added_all(texts.drop_last()).push(line_of(texts.len(), trimmed(texts.last())))
    }
}

/// Adding N texts in sequence to an empty list yields N entries, numbered
/// 1..N in order: the entry at 0-based position i is the i'th text, trimmed,
/// behind the number i + 1.
pub proof fn lemma_add_all_numbered(texts: Seq<Seq<char>>)
    ensures
        added_all(texts).len() == texts.len(),
        forall|i: int|
            0 <= i < texts.len() ==> added_all(texts)[i] == line_of(
                (i + 1) as nat,
                trimmed(texts[i]),
            ),
    decreases texts.len(),
{
    if texts.len() > 0 {
        let prev = texts.drop_last();
        lemma_add_all_numbered(prev);
        assert forall|i: int|
            0 <= i < texts.len() implies added_all(texts)[i] == line_of(
            (i + 1) as nat,
            trimmed(texts[i]),
        ) by {
            if i < texts.len() - 1 {
                assert(added_all(texts)[i] == added_all(prev)[i]);
                assert(prev[i] == texts[i]);
            } else {
                assert(added_all(texts)[i] == line_of(texts.len(), trimmed(texts.last())));
            }
        }
    }
}

/// Deleting entry k from a list of N entries leaves N − 1 entries: the ones
/// before k unchanged, the ones after it shifted up by one position; the
/// rewritten result numbers them 1..N−1 contiguously.
pub proof fn lemma_delete_renumbers(l: Seq<Seq<char>>, k: int)
    requires
        1 <= k <= l.len(),
    ensures
        delete_spec(l, k).len() == l.len() - 1,
        forall|i: int| 0 <= i < k - 1 ==> #[trigger] delete_spec(l, k)[i] == l[i],
        forall|i: int| k - 1 <= i < l.len() - 1 ==> #[trigger] delete_spec(l, k)[i] == l[i + 1],
        renumbered(delete_spec(l, k)).len() == l.len() - 1,
        forall|i: int|
            0 <= i < l.len() - 1 ==> #[trigger] renumbered(delete_spec(l, k))[i] == line_of(
                (i + 1) as nat,
                cleaned(delete_spec(l, k)[i]),
            ),
{
}

/// How many completion markers an entry's text carries.
pub open spec fn marker_count(s: Seq<char>) -> nat
    decreases s.len(),
{
    if s.len() == 0 {
        0
    } else {
        marker_count(s.drop_last()) + (if s.last() == marker() {
            1nat
        } else {
            0nat
        })
    }
}

proof fn lemma_no_marker_count(s: Seq<char>)
    requires
        !has_marker(s),
    ensures
        marker_count(s) == 0,
    decreases s.len(),
{
    if s.len() > 0 {
        assert(forall|i: int| 0 <= i < s.len() - 1 ==> #[trigger] s.drop_last()[i] == s[i]);
        lemma_no_marker_count(s.drop_last());
    }
}

/// Marking the same entry twice is idempotent: the second attempt finds the
/// marker already there and changes nothing.
pub proof fn lemma_mark_idempotent(l: Seq<Seq<char>>, k: int)
    ensures
        mark_spec(mark_spec(l, k), k) == mark_spec(l, k),
{
    if 1 <= k <= l.len() && !has_marker(l[k - 1]) {
        let m = mark_spec(l, k);
        assert(m[k - 1] == marked(l[k - 1]));
        assert(m[k - 1][m[k - 1].len() - 1] == marker());
        assert(has_marker(m[k - 1]));
        assert(mark_spec(m, k) =~= m);
    }
}

/// A fresh mark puts exactly one marker into the entry: an entry that held
/// no completion marker holds exactly one once marked.
pub proof fn lemma_mark_exactly_once(s: Seq<char>)
    requires
        !has_marker(s),
    ensures
        marker_count(marked(s)) == 1,
{
    lemma_no_marker_count(s);
    let m = marked(s);
    let m1 = s + seq![' '];
    assert(m.len() == s.len() + 2);
    assert(m.last() == marker());
    assert(m.drop_last() =~= m1);
    assert(marker_count(m) == marker_count(m1) + 1);
    assert(m1.last() == ' ');
    assert(m1.drop_last() =~= s);
    assert(marker_count(m1) == marker_count(s));
}

/// Rewriting heals the numbering and keeps the texts: every written line is
/// its entry's cleaned text behind its 1-based position, loading the written
/// lines and cleaning them again recovers the same texts, and a second
/// rewrite reproduces the written lines exactly.
pub proof fn lemma_rewrite_round_trip(l: Seq<Seq<char>>)
    ensures
        renumbered(l).len() == l.len(),
        forall|i: int|
            0 <= i < l.len() ==> #[trigger] renumbered(l)[i] == decimal_of((i + 1) as nat)
                + seq!['.', ' '] + cleaned(l[i]),
        forall|i: int| 0 <= i < l.len() ==> cleaned(#[trigger] renumbered(l)[i]) == cleaned(l[i]),
        renumbered(renumbered(l)) == renumbered(l),
{
    assert forall|i: int| 0 <= i < l.len() implies cleaned(#[trigger] renumbered(l)[i]) == cleaned(
        l[i],
    ) by {
        lemma_cleaned_idempotent(l[i]);
        lemma_cleaned_line_of((i + 1) as nat, cleaned(l[i]));
    }
    assert(renumbered(renumbered(l)) =~= renumbered(l));
}

} // verus!
