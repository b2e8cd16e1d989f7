//! The memo store: a model of the store directory as the sequence of its
//! entries in traversal order, with every operation of the tool defined
//! on it. Mutating operations return the file actions (create, remove)
//! that realize the transition on disk.

use vstd::prelude::*;
use vstd::string::StringExecFns;
use crate::digits::dec_digits;
use crate::digits::dec_value;
use crate::digits::parses_usize;
use crate::text::base_name;
use crate::text::base_of;
use crate::text::join_spec;
use crate::text::join_words;
use crate::digits::parse_usize;
use crate::digits::usize_to_string;

verus! {

/// The mathematical model of one stored memo: the directory entry's
/// name and the file's content.
pub struct MemoModel {
    pub name: Seq<char>,
    pub text: Seq<char>,
}

/// One stored memo: the directory entry's name (extension included) and
/// the file's content.
#[derive(Debug)]
pub struct MemoEntry {
    pub name: String,
    pub text: String,
}

impl View for MemoEntry {
    type V = MemoModel;

    open spec fn view(&self) -> MemoModel {
        MemoModel { name: self.name@, text: self.text@ }
    }
}

/// The memo store: the entries of the store directory, in traversal
/// order. The 1-based position of an entry in this sequence is its
/// display index.
#[derive(Debug)]
pub struct MemoStore {
    pub entries: Vec<MemoEntry>,
}

impl View for MemoStore {
    type V = Seq<MemoModel>;

    open spec fn view(&self) -> Seq<MemoModel> {
        Seq::new(self.entries@.len(), |i: int| self.entries@[i]@)
    }
}

/// What `add` reports: the memo words were missing, the corrupt last
/// entry was removed instead of inserting, or a memo was added and the
/// named file must be written with the given text.
#[derive(Debug, PartialEq)]
pub enum AddOutcome {
    Usage,
    RemovedCorrupt { file_name: String },
    Added { file_name: String, text: String },
}

/// What `delete` reports: the index was out of range, or the named file
/// must be removed.
#[derive(Debug, PartialEq)]
pub enum DeleteOutcome {
    NotFound,
    Deleted { file_name: String },
}

/// The candidate ordinal strings of the store, in traversal order.
pub open spec fn enumeration_spec(s: Seq<MemoModel>) -> Seq<Seq<char>> {
    Seq::new(s.len(), |i: int| base_name(s[i].name))
}

/// The entry name a display index resolves to: the base name at position
/// `i - 1` when `1 <= i <= s.len()`, nothing otherwise.
pub open spec fn resolve_spec(s: Seq<MemoModel>, i: int) -> Option<Seq<char>> {
    if 1 <= i <= s.len() {
        Some(base_name(s[i - 1].name))
    } else {
        None
    }
}

/// The text a display index shows: the text at position `i - 1` when
/// `1 <= i <= s.len()`, nothing otherwise.
pub open spec fn show_spec(s: Seq<MemoModel>, i: int) -> Option<Seq<char>> {
    if 1 <= i <= s.len() {
        Some(s[i - 1].text)
    } else {
        None
    }
}

/// One line of the listing: the display index, a dot and a space, then
/// the memo's text.
pub open spec fn line_spec(n: nat, t: Seq<char>) -> Seq<char> {
    dec_digits(n) + ". "@ + t
}

/// The lines of the listing, one per memo, in display order.
pub open spec fn list_lines_spec(s: Seq<MemoModel>) -> Seq<Seq<char>> {
    Seq::new(s.len(), |i: int| line_spec((i + 1) as nat, s[i].text))
}

/// Whether the last enumerated entry is corrupted: present, but its base
/// name does not parse as an unsigned integer.
pub open spec fn last_corrupt(s: Seq<MemoModel>) -> bool {
    s.len() > 0 && !parses_usize(base_name(s.last().name))
}

/// The ordinal `add` assigns: one more than the last enumerated ordinal,
/// 1 for an empty store.
pub open spec fn next_ordinal(s: Seq<MemoModel>) -> nat {
    if s.len() == 0 {
        1
    } else {
        dec_value(base_name(s.last().name)) + 1
    }
}

/// The file name that stores ordinal `n`.
pub open spec fn file_name_spec(n: nat) -> Seq<char> {
    dec_digits(n) + ".txt"@
}

/// The entry `add` appends: the next ordinal's file, holding the words
/// joined by single spaces.
pub open spec fn added_entry(s: Seq<MemoModel>, words: Seq<Seq<char>>) -> MemoModel {
    MemoModel { name: file_name_spec(next_ordinal(s)), text: join_spec(words) }
}

/// How `add` changes the store: no words leave it unchanged, a corrupt
/// last entry is dropped without inserting, and otherwise the new memo
/// is appended.
pub open spec fn add_transition(s: Seq<MemoModel>, words: Seq<Seq<char>>) -> Seq<MemoModel> {
    if words.len() == 0 {
        s
    } else if last_corrupt(s) {
        s.drop_last()
    } else {
        s.push(added_entry(s, words))
    }
}

/// How `delete` changes the store: an in-range index removes that entry,
/// any other leaves the store unchanged.
pub open spec fn delete_transition(s: Seq<MemoModel>, i: int) -> Seq<MemoModel> {
    if 1 <= i <= s.len() {
        s.remove(i - 1)
    } else {
        s
    }
}

/// The entry names `clean` removes: every entry's name, as stored.
pub open spec fn clean_targets(s: Seq<MemoModel>) -> Seq<Seq<char>> {
    Seq::new(s.len(), |i: int| s[i].name)
}

/// The file name that stores ordinal `n`.
pub fn memo_file_name(n: usize) -> (r: String)
    ensures
        r@ == file_name_spec(n as nat),
{
    usize_to_string(n).concat(".txt")
}

impl MemoStore {
    /// An empty store.
    pub fn new() -> (r: MemoStore)
        ensures
            r@ == Seq::<MemoModel>::empty(),
    {
        let r = MemoStore { entries: Vec::new() };
        proof {
            assert(r@ =~= Seq::<MemoModel>::empty());
        }
        r
    }

    /// The number of stored memos.
    pub fn count(&self) -> (n: usize)
        ensures
            n as nat == self@.len(),
    {
        self.entries.len()
    }

    /// The candidate ordinal strings, in traversal order; the 1-based
    /// position in this sequence is the display index.
    pub fn enumerate(&self) -> (r: Vec<String>)
        ensures
            r.deep_view() == enumeration_spec(self@),
    {
        let mut r: Vec<String> = Vec::new();
        let mut i: usize = 0;
        while i < self.entries.len()
            invariant
                0 <= i <= self.entries.len(),
                r@.len() == i,
                forall|j: int| 0 <= j < i ==> (#[trigger] r@[j])@ == base_name(self@[j].name),
            decreases self.entries.len() - i,
        {
            let b = base_of(self.entries[i].name.as_str());
            proof {
                assert(b@ == base_name(self@[i as int].name));
            }
            r.push(b);
            i = i + 1;
        }
        proof {
            assert forall|j: int| 0 <= j < r@.len() implies r.deep_view()[j]
                == enumeration_spec(self@)[j] by {
                assert(r@[j]@ == base_name(self@[j].name));
            }
            assert(r.deep_view() =~= enumeration_spec(self@));
        }
        r
    }

    /// Resolves a 1-based display index to the base name of its entry;
    /// out-of-range indices resolve to nothing, and nothing changes.
    pub fn resolve(&self, index: usize) -> (r: Option<String>)
        ensures
            r.deep_view() == resolve_spec(self@, index as int),
    {
        if 1 <= index && index <= self.entries.len() {
            Some(base_of(self.entries[index - 1].name.as_str()))
        } else {
            None
        }
    }

    /// The text shown for a 1-based display index; nothing when the
    /// index is out of range.
    pub fn show(&self, index: usize) -> (r: Option<String>)
        ensures
            r.deep_view() == show_spec(self@, index as int),
    {
        if 1 <= index && index <= self.entries.len() {
            Some(self.entries[index - 1].text.clone())
        } else {
            None
        }
    }

    /// Adds a memo made of the given words, at one more than the last
    /// enumerated ordinal (1 in an empty store). With no words it only
    /// reports usage; when the last entry's base name does not parse,
    /// it drops that entry and inserts nothing. The outcome names the
    /// file to write or to remove.
    pub fn add(&mut self, words: &Vec<String>) -> (r: AddOutcome)
        requires
            words@.len() > 0 && !last_corrupt(old(self)@) ==> next_ordinal(old(self)@)
                <= usize::MAX as nat,
        ensures
            final(self)@ == add_transition(old(self)@, words.deep_view()),
            words@.len() == 0 ==> r == AddOutcome::Usage,
            words@.len() > 0 && last_corrupt(old(self)@) ==> (r matches
                AddOutcome::RemovedCorrupt { file_name } && file_name@ == old(self)@.last().name),
            words@.len() > 0 && !last_corrupt(old(self)@) ==> (r matches
                AddOutcome::Added { file_name, text } && file_name@ == file_name_spec(
                next_ordinal(old(self)@),
            ) && text@ == join_spec(words.deep_view())),
    {
        let ghost ws = words.deep_view();
        proof {
            assert(ws.len() == words@.len());
        }
        if words.len() == 0 {
            return AddOutcome::Usage;
        }
        let mut next: usize = 1;
        let n = self.entries.len();
        if n > 0 {
            let base = base_of(self.entries[n - 1].name.as_str());
            proof {
                assert(self@[n - 1] == old(self)@.last());
                assert(base@ == base_name(old(self)@.last().name));
            }
            match parse_usize(base.as_str()) {
                None => {
                    let file_name = self.entries[n - 1].name.clone();
                    let _last = self.entries.pop();
                    proof {
                        assert(last_corrupt(old(self)@));
                        assert(self@ =~= old(self)@.drop_last());
                    }
                    return AddOutcome::RemovedCorrupt { file_name };
                },
                Some(v) => {
                    proof {
                        assert(!last_corrupt(old(self)@));
                        assert(v as nat == dec_value(base_name(old(self)@.last().name)));
                    }
                    next = v + 1;
                },
            }
        }
        proof {
            assert(next as nat == next_ordinal(old(self)@));
        }
        let file_name = memo_file_name(next);
        let text = join_words(words);
        self.entries.push(MemoEntry { name: file_name.clone(), text: text.clone() });
        proof {
            assert(self@ =~= old(self)@.push(added_entry(old(self)@, ws)));
        }
        AddOutcome::Added { file_name, text }
    }

    /// Deletes the memo at a 1-based display index: in range, the entry
    /// leaves the store and the named backing file must be removed; out
    /// of range, nothing changes.
    pub fn delete(&mut self, index: usize) -> (r: DeleteOutcome)
        ensures
            final(self)@ == delete_transition(old(self)@, index as int),
            !(1 <= index <= old(self)@.len()) ==> r == DeleteOutcome::NotFound && final(self)@
                == old(self)@,
            1 <= index <= old(self)@.len() ==> (r matches DeleteOutcome::Deleted { file_name }
                && file_name@ == base_name(old(self)@[index - 1].name) + ".txt"@),
    {
        if 1 <= index && index <= self.entries.len() {
            let base = base_of(self.entries[index - 1].name.as_str());
            let file_name = base.concat(".txt");
            let _removed = self.entries.remove(index - 1);
            proof {
                assert(self@ =~= old(self)@.remove(index - 1));
            }
            DeleteOutcome::Deleted { file_name }
        } else {
            DeleteOutcome::NotFound
        }
    }

    /// The listing: one line per memo, `<display index>. <text>`, in
    /// display order.
    pub fn list(&self) -> (r: Vec<String>)
        ensures
            r.deep_view() == list_lines_spec(self@),
    {
        let mut r: Vec<String> = Vec::new();
        let mut i: usize = 0;
        while i < self.entries.len()
            invariant
                0 <= i <= self.entries.len(),
                r@.len() == i,
                forall|j: int| 0 <= j < i ==> (#[trigger] r@[j])@ == line_spec(
                    (j + 1) as nat,
                    self@[j].text,
                ),
            decreases self.entries.len() - i,
        {
            let line = usize_to_string(i + 1).concat(". ").concat(self.entries[i].text.as_str());
            proof {
                assert(line@ == line_spec((i + 1) as nat, self@[i as int].text));
            }
            r.push(line);
            i = i + 1;
        }
        proof {
            assert forall|j: int| 0 <= j < r@.len() implies r.deep_view()[j]
                == list_lines_spec(self@)[j] by {
                assert(r@[j]@ == line_spec((j + 1) as nat, self@[j].text));
            }
            assert(r.deep_view() =~= list_lines_spec(self@));
        }
        r
    }

    /// Removes every memo: returns the stored name of each entry, all of
    /// which must be deleted, and leaves the store empty.
    pub fn clean(&mut self) -> (r: Vec<String>)
        ensures
            r.deep_view() == clean_targets(old(self)@),
            final(self)@ == Seq::<MemoModel>::empty(),
    {
        let mut r: Vec<String> = Vec::new();
        let mut i: usize = 0;
        while i < self.entries.len()
            invariant
                0 <= i <= self.entries.len(),
                self.entries@ == old(self).entries@,
                r@.len() == i,
                forall|j: int| 0 <= j < i ==> (#[trigger] r@[j])@ == old(self)@[j].name,
            decreases self.entries.len() - i,
        {
            r.push(self.entries[i].name.clone());
            i = i + 1;
        }
        self.entries.clear();
        proof {
            assert(self@ =~= Seq::<MemoModel>::empty());
            assert forall|j: int| 0 <= j < r@.len() implies r.deep_view()[j]
                == clean_targets(old(self)@)[j] by {
                assert(r@[j]@ == old(self)@[j].name);
            }
            assert(r.deep_view() =~= clean_targets(old(self)@));
        }
        r
    }
}

} // verus!
