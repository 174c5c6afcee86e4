//! One object definition of a `.dat` file: its `key=value` pairs as makeobj's
//! `tabfileobj_t` keeps them (keys lowered, the first value of a key wins)
//! and the repeated keys that were dropped.
use vstd::prelude::*;
use crate::text::{lower, to_lower, str_eq};

verus! {

/// A kept `key=value` pair and the line it came from.
pub struct Entry {
    pub key: String,
    pub value: String,
    pub line: usize,
}

/// A key written a second time: makeobj keeps the value of `first_line` and
/// ignores the one of `duplicate_line`.
pub struct DuplicateKey {
    pub key: String,
    pub first_line: usize,
    pub duplicate_line: usize,
}

/// One object definition.
pub struct DatFile {
    pub pairs: Vec<Entry>,
    pub duplicates: Vec<DuplicateKey>,
}

pub struct EntryView {
    pub key: Seq<char>,
    pub value: Seq<char>,
    pub line: nat,
}

pub struct DupView {
    pub key: Seq<char>,
    pub first_line: nat,
    pub duplicate_line: nat,
}

pub struct DatView {
    pub pairs: Seq<EntryView>,
    pub duplicates: Seq<DupView>,
}

impl View for Entry {
    type V = EntryView;

    open spec fn view(&self) -> EntryView {
        EntryView { key: self.key@, value: self.value@, line: self.line as nat }
    }
}

impl View for DuplicateKey {
    type V = DupView;

    open spec fn view(&self) -> DupView {
        DupView { key: self.key@, first_line: self.first_line as nat, duplicate_line: self.duplicate_line as nat }
    }
}

impl View for DatFile {
    type V = DatView;

    open spec fn view(&self) -> DatView {
        DatView {
            pairs: self.pairs@.map_values(|e: Entry| e@),
            duplicates: self.duplicates@.map_values(|d: DuplicateKey| d@),
        }
    }
}

/// The first pair of `p` whose key is `k`.
pub open spec fn lookup(p: Seq<EntryView>, k: Seq<char>) -> Option<EntryView>
    decreases p.len(),
{
    if p.len() == 0 {
        None
    } else {
        match lookup(p.drop_last(), k) {
            Some(e) => Some(e),
            None => if p.last().key == k {
                Some(p.last())
            } else {
                None
            },
        }
    }
}

/// The value of `k`, if the definition has it.
pub open spec fn get(d: DatView, k: Seq<char>) -> Option<Seq<char>> {
    match lookup(d.pairs, k) {
        Some(e) => Some(e.value),
        None => None,
    }
}

/// The value of `k`, or the empty string where the key is absent (what
/// makeobj's `tabfileobj_t::get` returns).
pub open spec fn value_of(d: DatView, k: Seq<char>) -> Seq<char> {
    match get(d, k) {
        Some(v) => v,
        None => Seq::empty(),
    }
}

/// The line of the first definition of `k`.
pub open spec fn line_of(d: DatView, k: Seq<char>) -> Option<nat> {
    match lookup(d.pairs, k) {
        Some(e) => Some(e.line),
        None => None,
    }
}

/// No key is kept twice.
pub open spec fn well_formed(d: DatView) -> bool {
    forall|i: int, j: int|
        0 <= i < j < d.pairs.len() ==> #[trigger] d.pairs[i].key != #[trigger] d.pairs[j].key
}

/// What reading `key=value` on `line` does to a definition: the key is
/// lowered; a new key is kept, a repeated one is recorded as a duplicate and
/// its value dropped.
pub open spec fn insert(d: DatView, key: Seq<char>, value: Seq<char>, line: nat) -> DatView {
    let k = lower(key);
    match lookup(d.pairs, k) {
        Some(e) => DatView {
            pairs: d.pairs,
            duplicates: d.duplicates.push(DupView { key: k, first_line: e.line, duplicate_line: line }),
        },
        None => DatView {
            pairs: d.pairs.push(EntryView { key: k, value, line }),
            duplicates: d.duplicates,
        },
    }
}

proof fn lemma_lookup_prefix(p: Seq<EntryView>, k: Seq<char>, i: int)
    requires
        0 <= i <= p.len(),
        lookup(p.take(i), k) is Some,
    ensures
        lookup(p, k) == lookup(p.take(i), k),
    decreases p.len() - i,
{
    if i < p.len() {
        assert(p.take(i + 1).drop_last() =~= p.take(i));
        lemma_lookup_prefix(p, k, i + 1);
    } else {
        assert(p.take(i) =~= p);
    }
}

proof fn lemma_lookup_key(p: Seq<EntryView>, k: Seq<char>)
    ensures
        lookup(p, k) matches Some(e) ==> e.key == k,
        lookup(p, k) is None ==> forall|i: int| 0 <= i < p.len() ==> #[trigger] p[i].key != k,
        lookup(p, k) matches Some(e) ==> exists|i: int| 0 <= i < p.len() && p[i] == e,
    decreases p.len(),
{
    if p.len() > 0 {
        lemma_lookup_key(p.drop_last(), k);
        if lookup(p.drop_last(), k) is None {
            assert forall|i: int| 0 <= i < p.len() - 1 implies #[trigger] p[i].key != k by {
                assert(p.drop_last()[i] == p[i]);
            }
        } else {
            let e = lookup(p.drop_last(), k).unwrap();
            let i = choose|i: int| 0 <= i < p.drop_last().len() && p.drop_last()[i] == e;
            assert(p[i] == e);
        }
    }
}

/// The index of the first pair whose key is `k`.
fn find(pairs: &Vec<Entry>, k: &str) -> (res: Option<usize>)
    ensures
        match res {
            Some(i) => i < pairs@.len() && lookup(pairs@.map_values(|e: Entry| e@), k@) == Some(
                pairs@[i as int]@,
            ),
            None => lookup(pairs@.map_values(|e: Entry| e@), k@) is None,
        },
{
    let ghost p = pairs@.map_values(|e: Entry| e@);
    let mut i: usize = 0;
    assert(p.take(0) =~= Seq::<EntryView>::empty());
    while i < pairs.len()
        invariant
            i <= pairs.len(),
            p == pairs@.map_values(|e: Entry| e@),
            lookup(p.take(i as int), k@) is None,
        decreases pairs.len() - i,
    {
        assert(p.take(i + 1).drop_last() =~= p.take(i as int));
        if str_eq(pairs[i].key.as_str(), k) {
            assert(lookup(p.take(i + 1), k@) == Some(p[i as int]));
            proof {
                lemma_lookup_prefix(p, k@, i + 1);
            }
            return Some(i);
        }
        i = i + 1;
    }
    assert(p.take(pairs.len() as int) =~= p);
    None
}

impl DatFile {
    /// A definition with no pairs.
    pub fn new() -> (res: DatFile)
        ensures
            res@.pairs.len() == 0,
            res@.duplicates.len() == 0,
    {
        DatFile { pairs: Vec::new(), duplicates: Vec::new() }
    }

    /// Reads `key=value` from `line`: the key is lowered; if it was read
    /// before, the earlier value stays and the repetition is recorded.
    pub fn insert(&mut self, key: &str, value: &str, line: usize)
        ensures
            final(self)@ == insert(old(self)@, key@, value@, line as nat),
    {
        let k = to_lower(key);
        match find(&self.pairs, k.as_str()) {
            Some(i) => {
                let first_line = self.pairs[i].line;
                let ghost old_d = self.duplicates@;
                self.duplicates.push(DuplicateKey { key: k, first_line, duplicate_line: line });
                assert(self@.duplicates =~= old(self)@.duplicates.push(
                    DupView { key: lower(key@), first_line: first_line as nat, duplicate_line: line as nat },
                ));
            },
            None => {
                let ghost kv = k@;
                self.pairs.push(Entry { key: k, value: String::from_str(value), line });
                assert(self@.pairs =~= old(self)@.pairs.push(
                    EntryView { key: kv, value: value@, line: line as nat },
                ));
            },
        }
    }

    /// The value of `key` (a lowered key), if the definition has it.
    pub fn get(&self, key: &str) -> (res: Option<&str>)
        ensures
            match res {
                Some(v) => get(self@, key@) == Some(v@),
                None => get(self@, key@) is None,
            },
    {
        match find(&self.pairs, key) {
            Some(i) => Some(self.pairs[i].value.as_str()),
            None => None,
        }
    }

    /// The value of `key`, or the empty string where it is absent.
    pub fn value(&self, key: &str) -> (res: String)
        ensures
            res@ == value_of(self@, key@),
    {
        match find(&self.pairs, key) {
            Some(i) => self.pairs[i].value.clone(),
            None => String::new(),
        }
    }

    /// `get(key).unwrap_or("").to_ascii_lowercase()`.
    pub fn get_lower(&self, key: &str) -> (res: String)
        ensures
            res@ == lower(value_of(self@, key@)),
    {
        let v = self.value(key);
        to_lower(v.as_str())
    }

    /// The line on which `key` was first read.
    pub fn line_of(&self, key: &str) -> (res: Option<usize>)
        ensures
            match res {
                Some(l) => line_of(self@, key@) == Some(l as nat),
                None => line_of(self@, key@) is None,
            },
    {
        match find(&self.pairs, key) {
            Some(i) => Some(self.pairs[i].line),
            None => None,
        }
    }
}

/// A key read for the first time can be read back with the value given.
pub proof fn law_read_after_first_insert(d: DatView, key: Seq<char>, value: Seq<char>, line: nat)
    requires
        get(d, lower(key)) is None,
    ensures
        get(insert(d, key, value, line), lower(key)) == Some(value),
        line_of(insert(d, key, value, line), lower(key)) == Some(line),
        insert(d, key, value, line).duplicates == d.duplicates,
{
    let p = d.pairs.push(EntryView { key: lower(key), value, line });
    assert(p.drop_last() =~= d.pairs);
}

/// A repeated key keeps its first value (first-write-wins) and the
/// repetition is recorded with both line numbers.
pub proof fn law_first_write_wins(d: DatView, key: Seq<char>, value: Seq<char>, line: nat)
    requires
        get(d, lower(key)) is Some,
    ensures
        get(insert(d, key, value, line), lower(key)) == get(d, lower(key)),
        insert(d, key, value, line).pairs == d.pairs,
        insert(d, key, value, line).duplicates == d.duplicates.push(
            DupView { key: lower(key), first_line: line_of(d, lower(key)).unwrap(), duplicate_line: line },
        ),
{
}

/// Reading a pair changes no other key.
pub proof fn law_insert_other_keys(d: DatView, key: Seq<char>, value: Seq<char>, line: nat, other: Seq<char>)
    requires
        other != lower(key),
    ensures
        get(insert(d, key, value, line), other) == get(d, other),
        line_of(insert(d, key, value, line), other) == line_of(d, other),
{
    let p = d.pairs.push(EntryView { key: lower(key), value, line });
    assert(p.drop_last() =~= d.pairs);
}

/// Reading a pair keeps every key of the definition unique.
pub proof fn law_insert_well_formed(d: DatView, key: Seq<char>, value: Seq<char>, line: nat)
    requires
        well_formed(d),
    ensures
        well_formed(insert(d, key, value, line)),
{
    lemma_lookup_key(d.pairs, lower(key));
    let d2 = insert(d, key, value, line);
    if lookup(d.pairs, lower(key)) is None {
        assert forall|i: int, j: int| 0 <= i < j < d2.pairs.len() implies #[trigger] d2.pairs[i].key
            != #[trigger] d2.pairs[j].key by {
            if j == d.pairs.len() {
                assert(d2.pairs[i] == d.pairs[i]);
            } else {
                assert(d2.pairs[i] == d.pairs[i]);
                assert(d2.pairs[j] == d.pairs[j]);
            }
        }
    }
}

/// A definition built by reading pairs one by one has unique keys.
pub proof fn law_new_well_formed(d: DatView)
    requires
        d.pairs.len() == 0,
    ensures
        well_formed(d),
{
}

} // verus!
