//! Laws of the memo store, stated over the spec-level transitions that
//! the operations' contracts are written in.

use vstd::prelude::*;
use crate::store::MemoModel;
use crate::store::add_transition;
use crate::store::added_entry;
use crate::store::delete_transition;
use crate::store::enumeration_spec;
use crate::store::last_corrupt;
use crate::store::line_spec;
use crate::store::list_lines_spec;
use crate::store::resolve_spec;
use crate::store::show_spec;
use crate::text::join_spec;

verus! {

/// A successful `add` makes the store one entry longer, the listing
/// shows the joined words at the new last display index, and `show` of
/// that index returns the same text.
pub proof fn lemma_add_then_visible(s: Seq<MemoModel>, words: Seq<Seq<char>>)
    requires
        words.len() > 0,
        !last_corrupt(s),
    ensures
        add_transition(s, words).len() == s.len() + 1,
        show_spec(add_transition(s, words), (s.len() + 1) as int) == Some(join_spec(words)),
        list_lines_spec(add_transition(s, words))[s.len() as int] == line_spec(
            (s.len() + 1) as nat,
            join_spec(words),
        ),
{
    let s2 = add_transition(s, words);
    assert(s2 == s.push(added_entry(s, words)));
    assert(s2[s.len() as int].text == join_spec(words));
}

/// A successful `delete` shrinks the enumeration by exactly one, and,
/// barring a coincidental duplicate text, no subsequent `show` and no
/// listing position holds the deleted memo's text any more.
pub proof fn lemma_delete_removes(s: Seq<MemoModel>, i: int)
    requires
        1 <= i <= s.len(),
    ensures
        delete_transition(s, i).len() == s.len() - 1,
        (forall|k: int| 0 <= k < s.len() && k != i - 1 ==> (#[trigger] s[k]).text != s[i - 1].text)
            ==> forall|j: int|
            0 <= j < s.len() - 1 ==> (#[trigger] delete_transition(s, i)[j]).text != s[i
                - 1].text,
        (forall|k: int| 0 <= k < s.len() && k != i - 1 ==> (#[trigger] s[k]).text != s[i - 1].text)
            ==> forall|j: int| show_spec(delete_transition(s, i), j) != Some(s[i - 1].text),
{
    let s2 = delete_transition(s, i);
    assert(s2 == s.remove(i - 1));
    if forall|k: int| 0 <= k < s.len() && k != i - 1 ==> (#[trigger] s[k]).text != s[i - 1].text {
        assert forall|j: int| 0 <= j < s.len() - 1 implies (#[trigger] s2[j]).text != s[i
            - 1].text by {
            if j < i - 1 {
                assert(s2[j] == s[j]);
            } else {
                assert(s2[j] == s[j + 1]);
            }
        }
    }
}

/// On an empty store, the enumeration and the listing are empty and
/// every display index resolves to nothing: after `clean`, which leaves
/// the store empty, every query reports the empty state.
pub proof fn lemma_empty_store_reports_empty(s: Seq<MemoModel>)
    requires
        s.len() == 0,
    ensures
        enumeration_spec(s) == Seq::<Seq<char>>::empty(),
        list_lines_spec(s) == Seq::<Seq<char>>::empty(),
        forall|i: int| resolve_spec(s, i) is None,
        forall|i: int| show_spec(s, i) is None,
{
    assert(enumeration_spec(s) =~= Seq::<Seq<char>>::empty());
    assert(list_lines_spec(s) =~= Seq::<Seq<char>>::empty());
}

/// The queries are functions of the store state alone, and none of them
/// changes it: two `enumerate`, `list`, `resolve` or `show` calls with
/// no intervening mutation yield identical results.
pub proof fn lemma_queries_deterministic(s1: Seq<MemoModel>, s2: Seq<MemoModel>)
    requires
        s1 == s2,
    ensures
        enumeration_spec(s1) == enumeration_spec(s2),
        list_lines_spec(s1) == list_lines_spec(s2),
        forall|i: int| resolve_spec(s1, i) == resolve_spec(s2, i),
        forall|i: int| show_spec(s1, i) == show_spec(s2, i),
{
}

/// Corruption self-heal: when the last enumerated entry's base name does
/// not parse, `add` only removes that entry; repeating the same `add` on
/// the healed store (whose own last entry, if any, is sound) inserts the
/// memo normally.
pub proof fn lemma_corrupt_add_self_heals(s: Seq<MemoModel>, words: Seq<Seq<char>>)
    requires
        words.len() > 0,
        last_corrupt(s),
        !last_corrupt(s.drop_last()),
    ensures
        add_transition(s, words) == s.drop_last(),
        add_transition(s.drop_last(), words) == s.drop_last().push(
            added_entry(s.drop_last(), words),
        ),
        add_transition(s.drop_last(), words).last().text == join_spec(words),
{
    let s1 = s.drop_last();
    assert(add_transition(s1, words) == s1.push(added_entry(s1, words)));
    assert(s1.push(added_entry(s1, words)).last() == added_entry(s1, words));
}

} // verus!
