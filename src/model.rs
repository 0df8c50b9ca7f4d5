//! The parsed form of a document: levels of section instances holding entries.
use vstd::prelude::*;

verus! {

/// One `key = value` pair as written, with its 1-based line number.
pub struct Entry {
    pub key: String,
    pub value: String,
    pub line: usize,
    /// The key carried the optional marker, which has been stripped from `key`.
    pub optional: bool,
}

pub struct EntryView {
    pub key: Seq<char>,
    pub value: Seq<char>,
    pub line: nat,
    pub optional: bool,
}

impl View for Entry {
    type V = EntryView;

    open spec fn view(&self) -> EntryView {
        EntryView { key: self.key@, value: self.value@, line: self.line as nat, optional: self.optional }
    }
}

/// One occurrence of a section: its entries, one per key.
pub struct Instance {
    pub entries: Vec<Entry>,
}

impl View for Instance {
    type V = Seq<EntryView>;

    open spec fn view(&self) -> Seq<EntryView> {
        self.entries@.map_values(|e: Entry| e@)
    }
}

/// All instances found at one nesting depth, labelled by the first section
/// name seen at that depth.
pub struct Level {
    pub name: String,
    pub instances: Vec<Instance>,
}

pub struct LevelView {
    pub name: Seq<char>,
    pub instances: Seq<Seq<EntryView>>,
}

impl View for Level {
    type V = LevelView;

    open spec fn view(&self) -> LevelView {
        LevelView { name: self.name@, instances: self.instances@.map_values(|i: Instance| i@) }
    }
}

/// A parsed file: `levels[d]` holds the sections at depth `d + 1`.
pub struct Document {
    pub levels: Vec<Level>,
}

impl View for Document {
    type V = Seq<LevelView>;

    open spec fn view(&self) -> Seq<LevelView> {
        self.levels@.map_values(|l: Level| l@)
    }
}

/// Position of the first entry at or after `from` whose key is `k`, or the
/// length when there is none.
pub open spec fn key_pos(s: Seq<EntryView>, k: Seq<char>, from: int) -> int
    decreases s.len() - from,
{
    if from >= s.len() {
        s.len() as int
    } else if s[from].key == k {
        from
    } else {
        key_pos(s, k, from + 1)
    }
}

/// The entry stored under `k`, if any.
pub open spec fn lookup(s: Seq<EntryView>, k: Seq<char>) -> Option<EntryView> {
    let p = key_pos(s, k, 0);
    if 0 <= p < s.len() {
        Some(s[p])
    } else {
        None
    }
}

/// `s` with `e` stored under its key: an entry with the same key is replaced
/// in place, otherwise `e` is added at the end.
pub open spec fn upsert(s: Seq<EntryView>, e: EntryView) -> Seq<EntryView> {
    let p = key_pos(s, e.key, 0);
    if 0 <= p < s.len() {
        s.update(p, e)
    } else {
        s.push(e)
    }
}

/// Every key occurs at most once.
pub open spec fn keys_unique(s: Seq<EntryView>) -> bool {
    forall|i: int, j: int| 0 <= i < j < s.len() ==> s[i].key != s[j].key
}

/// `key_pos` is the first position at or after `from` holding `k`.
pub proof fn lemma_key_pos(s: Seq<EntryView>, k: Seq<char>, from: int)
    requires
        0 <= from <= s.len(),
    ensures
        from <= key_pos(s, k, from) <= s.len(),
        key_pos(s, k, from) < s.len() ==> s[key_pos(s, k, from)].key == k,
        forall|j: int| from <= j < key_pos(s, k, from) ==> s[j].key != k,
    decreases s.len() - from,
{
    if from < s.len() && s[from].key != k {
        lemma_key_pos(s, k, from + 1);
    }
}

/// Storing an entry keeps the keys of an instance unique.
pub proof fn lemma_upsert_keeps_unique(s: Seq<EntryView>, e: EntryView)
    requires
        keys_unique(s),
    ensures
        keys_unique(upsert(s, e)),
{
    lemma_key_pos(s, e.key, 0);
}

impl Instance {
    pub fn new() -> (r: Instance)
        ensures
            r@ == Seq::<EntryView>::empty(),
    {
        let r = Instance { entries: Vec::new() };
        assert(r@ =~= Seq::<EntryView>::empty());
        r
    }

    /// Position of the entry whose key is `k`, or the number of entries.
    pub fn position(&self, k: &String) -> (r: usize)
        ensures
            r == key_pos(self@, k@, 0),
            r <= self@.len(),
    {
        let n = self.entries.len();
        let mut i: usize = 0;
        while i < n
            invariant
                n == self@.len(),
                i <= n,
                key_pos(self@, k@, 0) == key_pos(self@, k@, i as int),
            decreases n - i,
        {
            if self.entries[i].key == *k {
                return i;
            }
            i = i + 1;
        }
        i
    }

    /// The entry stored under `k`, if any.
    pub fn get(&self, k: &String) -> (r: Option<&Entry>)
        ensures
            match r {
                Some(e) => lookup(self@, k@) == Some(e@),
                None => lookup(self@, k@) is None,
            },
    {
        let p = self.position(k);
        if p < self.entries.len() {
            Some(&self.entries[p])
        } else {
            None
        }
    }

    /// Stores `e` under its key, replacing an entry with the same key.
    pub fn insert(&mut self, e: Entry)
        ensures
            final(self)@ == upsert(old(self)@, e@),
    {
        let p = self.position(&e.key);
        if p < self.entries.len() {
            self.entries.set(p, e);
            assert(self@ =~= upsert(old(self)@, e@));
        } else {
            self.entries.push(e);
            assert(self@ =~= upsert(old(self)@, e@));
        }
    }
}

} // verus!
