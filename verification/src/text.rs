//! Text helpers: stripping a directory entry's name down to its
//! candidate ordinal string, and joining memo words with single spaces.

use vstd::prelude::*;
use vstd::string::StrSliceExecFns;
use vstd::string::StringExecFns;

verus! {

/// The position of the first `'.'` in `s`, or `s.len()` if there is none.
pub open spec fn dot_pos(s: Seq<char>) -> int
    decreases s.len(),
{
    if s.len() == 0 {
        0
    } else if s[0] == '.' {
        0
    } else {
        1 + dot_pos(s.drop_first())
    }
}

/// The base name of a directory entry: everything before the first `'.'`,
/// the whole name if it has none.
pub open spec fn base_name(s: Seq<char>) -> Seq<char> {
    s.take(dot_pos(s))
}

/// A position with no `'.'` before it and a `'.'` (or the end) at it
/// is exactly `dot_pos`.
proof fn lemma_dot_pos_unique(s: Seq<char>, i: int)
    requires
        0 <= i <= s.len(),
        forall|j: int| 0 <= j < i ==> s[j] != '.',
        i < s.len() ==> s[i] == '.',
    ensures
        dot_pos(s) == i,
    decreases i,
{
    if i == 0 {
    } else {
        assert(s[0] != '.');
        let s1 = s.drop_first();
        assert(forall|j: int| 0 <= j < i - 1 ==> s1[j] != '.');
        lemma_dot_pos_unique(s1, i - 1);
    }
}

/// Strips everything from the first `'.'` onward.
pub fn base_of(s: &str) -> (r: String)
    ensures
        r@ == base_name(s@),
{
    let n = s.unicode_len();
    let mut i: usize = 0;
    while i < n && s.get_char(i) != '.'
        invariant
            0 <= i <= n,
            n == s@.len(),
            forall|j: int| 0 <= j < i ==> s@[j] != '.',
        decreases n - i,
    {
        i = i + 1;
    }
    proof {
        lemma_dot_pos_unique(s@, i as int);
    }
    let b = s.substring_char(0, i);
    proof {
        assert(b@ =~= base_name(s@));
    }
    String::from_str(b)
}

/// The words of a memo joined by single spaces.
pub open spec fn join_spec(ws: Seq<Seq<char>>) -> Seq<char>
    decreases ws.len(),
{
    if ws.len() == 0 {
        Seq::empty()
    } else if ws.len() == 1 {
        ws[0]
    } else {
        join_spec(ws.drop_last()) + " "@ + ws.last()
    }
}

/// Joins the given words with single spaces.
pub fn join_words(words: &Vec<String>) -> (r: String)
    ensures
        r@ == join_spec(words.deep_view()),
{
    let ghost ws = words.deep_view();
    let mut r = String::new();
    let mut i: usize = 0;
    while i < words.len()
        invariant
            0 <= i <= words.len(),
            ws == words.deep_view(),
            ws.len() == words@.len(),
            forall|j: int| 0 <= j < ws.len() ==> ws[j] == #[trigger] words@[j]@,
            r@ == join_spec(ws.take(i as int)),
        decreases words.len() - i,
    {
        if i > 0 {
            r.append(" ");
        }
        r.append(words[i].as_str());
        proof {
            let t = ws.take(i + 1);
            assert(t.drop_last() =~= ws.take(i as int));
            assert(t.last() == ws[i as int]);
            if i == 0 {
                assert(r@ =~= ws[0]);
                assert(t[0] == ws[0]);
            }
        }
        i = i + 1;
    }
    proof {
        assert(ws.take(words@.len() as int) =~= ws);
    }
    r
}

} // verus!
