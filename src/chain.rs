//! An append-only, content-addressed log of state snapshots.
//!
//! Each entry records its parent's hash and a data text (the canonical JSON of a
//! state value). An entry is stored under the digest of its canonical text, so
//! a change to a stored entry breaks the link from its child, and `verify`
//! finds it by walking back from the head.

use crate::digest::{digest_hex, digest_hex_of};
use crate::json::{json_string, json_string_of};
use vstd::prelude::*;
use vstd::utf8::encode_utf8;

verus! {

/// An entry of the chain, as values.
pub struct EntryView {
    pub parent: Option<Seq<char>>,
    pub data: Seq<char>,
}

/// A chain, as values: the keys and entries in order of insertion, and the head.
pub struct ChainView {
    pub keys: Seq<Seq<char>>,
    pub entries: Seq<EntryView>,
    pub head: Option<Seq<char>>,
}

pub open spec fn opt_view(o: Option<String>) -> Option<Seq<char>> {
    match o {
        Some(s) => Some(s@),
        None => None,
    }
}

/// How a parent reference is written in an entry's canonical text.
pub open spec fn parent_text(parent: Option<Seq<char>>) -> Seq<char> {
    match parent {
        Some(p) => "\""@ + p + "\""@,
        None => "null"@,
    }
}

/// The canonical text of an entry: a JSON object with the fields in a fixed order.
pub open spec fn canonical_form(e: EntryView) -> Seq<char> {
    "{\"parent\":"@ + parent_text(e.parent) + ",\"data\":"@ + e.data + "}"@
}

/// The key of an entry: the hexadecimal digest of its canonical text in UTF-8.
pub open spec fn entry_hash(e: EntryView) -> Seq<char> {
    digest_hex_of(encode_utf8(canonical_form(e)))
}

/// The data of the genesis entry: the component's provenance digest.
pub open spec fn genesis_data(component_hash: Seq<char>) -> Seq<char> {
    "{\"component_hash\":"@ + json_string_of(component_hash) + "}"@
}

pub open spec fn genesis_entry(component_hash: Seq<char>) -> EntryView {
    EntryView { parent: None, data: genesis_data(component_hash) }
}

impl ChainView {
    pub open spec fn empty() -> ChainView {
        ChainView { keys: Seq::empty(), entries: Seq::empty(), head: None }
    }

    pub open spec fn len(self) -> nat {
        self.keys.len()
    }

    /// The shape of every chain: one entry per key, distinct keys, the head on
    /// the last key, and each entry's parent the key stored just before it.
    pub open spec fn wf(self) -> bool {
        &&& self.keyed()
        &&& self.head == (if self.keys.len() == 0 {
            None
        } else {
            Some(self.keys.last())
        })
        &&& self.keys.len() > 0 ==> self.entries[0].parent is None
        &&& forall|i: int|
            0 < i < self.keys.len() ==> #[trigger] self.entries[i].parent == Some(self.keys[i - 1])
    }

    /// One entry per key, and no key stored twice: what lookups by key need.
    pub open spec fn keyed(self) -> bool {
        &&& self.entries.len() == self.keys.len()
        &&& forall|i: int, j: int|
            0 <= i < self.keys.len() && 0 <= j < self.keys.len() && i != j ==> self.keys[i]
                != self.keys[j]
    }

    /// Every entry is stored under the digest of its own canonical text.
    pub open spec fn intact(self) -> bool {
        forall|i: int| 0 <= i < self.keys.len() ==> entry_hash(#[trigger] self.entries[i]) == self.keys[i]
    }

    pub open spec fn has_key(self, k: Seq<char>) -> bool {
        exists|i: int| 0 <= i < self.keys.len() && self.keys[i] == k
    }

    pub open spec fn index_of(self, k: Seq<char>) -> int {
        choose|i: int| 0 <= i < self.keys.len() && self.keys[i] == k
    }

    /// The entry stored under key `k`, if any.
    pub open spec fn lookup(self, k: Seq<char>) -> Option<EntryView> {
        if self.has_key(k) {
            Some(self.entries[self.index_of(k)])
        } else {
            None
        }
    }

    /// Walking back from `cur` along parent links, taking at most `fuel` entries,
    /// every reference resolves, every entry hashes to its key, and the walk ends
    /// at an entry without parent.
    pub open spec fn walk_ok(self, cur: Option<Seq<char>>, fuel: nat) -> bool
        decreases fuel,
    {
        match cur {
            None => true,
            Some(k) => if fuel == 0 {
                false
            } else {
                match self.lookup(k) {
                    None => false,
                    Some(e) => entry_hash(e) == k && self.walk_ok(e.parent, (fuel - 1) as nat),
                }
            },
        }
    }

    /// The walk from the head succeeds within as many steps as there are
    /// entries: no mismatch, no dangling reference, no cycle.
    pub open spec fn verified(self) -> bool {
        self.walk_ok(self.head, self.len())
    }

    /// Where following `steps` parent links from `cur` leads.
    pub open spec fn follow(self, cur: Option<Seq<char>>, steps: nat) -> Option<Seq<char>>
        decreases steps,
    {
        if steps == 0 {
            cur
        } else {
            match cur {
                None => None,
                Some(k) => match self.lookup(k) {
                    None => None,
                    Some(e) => self.follow(e.parent, (steps - 1) as nat),
                },
            }
        }
    }

    pub open spec fn appended(self, k: Seq<char>, e: EntryView) -> ChainView {
        ChainView { keys: self.keys.push(k), entries: self.entries.push(e), head: Some(k) }
    }

    /// The chain with the data of the entry under `k` replaced, its parent kept.
    pub open spec fn with_data(self, k: Seq<char>, data: Seq<char>) -> ChainView {
        let i = self.index_of(k);
        ChainView {
            entries: self.entries.update(i, EntryView { parent: self.entries[i].parent, data }),
            ..self
        }
    }
}

/// Every entry of an intact chain is stored under the digest of its own
/// canonical text.
pub proof fn lemma_content_addressed(c: ChainView, k: Seq<char>)
    requires
        c.wf(),
        c.intact(),
        c.has_key(k),
    ensures
        match c.lookup(k) {
            Some(e) => entry_hash(e) == k,
            None => false,
        },
{
    let i = c.index_of(k);
    assert(0 <= i < c.len() && c.keys[i] == k);
    assert(entry_hash(c.entries[i]) == c.keys[i]);
}

proof fn lemma_follow_to_genesis(c: ChainView, j: int)
    requires
        c.wf(),
        0 <= j < c.len(),
    ensures
        c.follow(Some(c.keys[j]), j as nat) == Some(c.keys[0]),
    decreases j,
{
    if j > 0 {
        lemma_index_of(c, j);
        assert(c.entries[j].parent == Some(c.keys[j - 1]));
        lemma_follow_to_genesis(c, j - 1);
    }
}

/// A non-empty chain has exactly one entry without parent, the genesis entry,
/// and following parent links from the head reaches it.
pub proof fn lemma_single_genesis(c: ChainView)
    requires
        c.wf(),
        c.len() > 0,
    ensures
        c.entries[0].parent is None,
        forall|i: int| 0 <= i < c.len() && (#[trigger] c.entries[i]).parent is None ==> i == 0,
        c.follow(c.head, (c.len() - 1) as nat) == Some(c.keys[0]),
{
    assert forall|i: int| 0 <= i < c.len() && (#[trigger] c.entries[i]).parent is None implies i
        == 0 by {
        if i > 0 {
            assert(c.entries[i].parent == Some(c.keys[i - 1]));
        }
    }
    lemma_follow_to_genesis(c, c.len() - 1);
}

/// No two entries of a chain share a parent: the chain never forks.
pub proof fn lemma_no_fork(c: ChainView, i: int, j: int)
    requires
        c.wf(),
        0 <= i < c.len(),
        0 <= j < c.len(),
        i != j,
    ensures
        c.entries[i].parent != c.entries[j].parent,
{
    if i > 0 && j > 0 {
        assert(c.entries[i].parent == Some(c.keys[i - 1]));
        assert(c.entries[j].parent == Some(c.keys[j - 1]));
    } else if i == 0 {
        assert(c.entries[j].parent == Some(c.keys[j - 1]));
    } else {
        assert(c.entries[i].parent == Some(c.keys[i - 1]));
    }
}

proof fn lemma_walk_intact(c: ChainView, j: int, fuel: nat)
    requires
        c.wf(),
        c.intact(),
        0 <= j < c.len(),
        fuel > j,
    ensures
        c.walk_ok(Some(c.keys[j]), fuel),
    decreases j,
{
    lemma_index_of(c, j);
    assert(entry_hash(c.entries[j]) == c.keys[j]);
    if j > 0 {
        assert(c.entries[j].parent == Some(c.keys[j - 1]));
        lemma_walk_intact(c, j - 1, (fuel - 1) as nat);
    } else {
        assert(c.entries[0].parent is None);
    }
    assert(c.walk_ok(c.entries[j].parent, (fuel - 1) as nat));
}

/// An intact chain passes verification.
pub proof fn lemma_intact_chain_verifies(c: ChainView)
    requires
        c.wf(),
        c.intact(),
    ensures
        c.verified(),
{
    if c.len() > 0 {
        lemma_walk_intact(c, c.len() - 1, c.len());
    }
}

proof fn lemma_walk_checks(c: ChainView, j: int, fuel: nat)
    requires
        c.wf(),
        0 <= j < c.len(),
        c.walk_ok(Some(c.keys[j]), fuel),
    ensures
        forall|i: int| 0 <= i <= j ==> entry_hash(#[trigger] c.entries[i]) == c.keys[i],
    decreases j,
{
    lemma_index_of(c, j);
    if j > 0 {
        assert(c.entries[j].parent == Some(c.keys[j - 1]));
        lemma_walk_checks(c, j - 1, (fuel - 1) as nat);
    }
}

/// Replacing the data of a stored entry, so that the entry no longer hashes to
/// its key, makes verification fail.
pub proof fn lemma_tampering_detected(c: ChainView, k: Seq<char>, data: Seq<char>)
    requires
        c.wf(),
        c.has_key(k),
        entry_hash(EntryView { parent: c.entries[c.index_of(k)].parent, data }) != k,
    ensures
        !c.with_data(k, data).verified(),
{
    let t = c.index_of(k);
    let d = c.with_data(k, data);
    assert(0 <= t < c.len() && c.keys[t] == k);
    assert(d.wf()) by {
        assert forall|i: int| 0 < i < d.keys.len() implies #[trigger] d.entries[i].parent == Some(
            d.keys[i - 1],
        ) by {
            assert(c.entries[i].parent == Some(c.keys[i - 1]));
        }
    }
    if d.verified() {
        lemma_walk_checks(d, d.len() - 1, d.len());
        assert(entry_hash(d.entries[t]) == d.keys[t]);
    }
}

/// Why a chain could not be initialized.
#[derive(Debug, Clone, Copy, PartialEq, Eq)]
pub enum ChainError {
    /// The chain already holds entries.
    AlreadyInitialized,
}

/// One immutable entry of the chain.
pub struct ChainEntry {
    parent: Option<String>,
    data: String,
}

impl View for ChainEntry {
    type V = EntryView;

    closed spec fn view(&self) -> EntryView {
        EntryView { parent: opt_view(self.parent), data: self.data@ }
    }
}

impl ChainEntry {
    /// The key of the entry stored before this one; `None` for the genesis entry.
    pub fn parent(&self) -> (r: Option<&str>)
        ensures
            match r {
                Some(p) => self@.parent == Some(p@),
                None => self@.parent is None,
            },
    {
        match &self.parent {
            Some(p) => Some(p.as_str()),
            None => None,
        }
    }

    /// The entry's data: the canonical JSON text of a state value.
    pub fn data(&self) -> (r: &str)
        ensures
            r@ == self@.data,
    {
        self.data.as_str()
    }

    fn copy_parent(&self) -> (r: Option<String>)
        ensures
            opt_view(r) == self@.parent,
    {
        match &self.parent {
            Some(p) => Some(p.clone()),
            None => None,
        }
    }
}

/// The hash chain: entries in order of insertion, each under its own key.
pub struct HashChain {
    keys: Vec<String>,
    entries: Vec<ChainEntry>,
    head: Option<String>,
}

impl View for HashChain {
    type V = ChainView;

    closed spec fn view(&self) -> ChainView {
        ChainView {
            keys: self.keys@.map_values(|s: String| s@),
            entries: self.entries@.map_values(|e: ChainEntry| e@),
            head: opt_view(self.head),
        }
    }
}

/// In a well-formed chain a key sits at one index only.
proof fn lemma_index_of(c: ChainView, i: int)
    requires
        c.keyed(),
        0 <= i < c.len(),
    ensures
        c.has_key(c.keys[i]),
        c.index_of(c.keys[i]) == i,
        c.lookup(c.keys[i]) == Some(c.entries[i]),
{
    let k = c.keys[i];
    assert(c.has_key(k));
}

impl HashChain {
    /// An empty chain.
    pub fn new() -> (r: HashChain)
        ensures
            r@ == ChainView::empty(),
            r@.wf(),
            r@.intact(),
    {
        let r = HashChain { keys: Vec::new(), entries: Vec::new(), head: None };
        assert(r@.keys =~= Seq::empty());
        assert(r@.entries =~= Seq::empty());
        r
    }

    /// The number of stored entries.
    pub fn len(&self) -> (r: usize)
        ensures
            r == self@.len(),
    {
        self.keys.len()
    }

    /// The canonical text of an entry.
    fn canonical_text(entry: &ChainEntry) -> (r: String)
        ensures
            r@ == canonical_form(entry@),
    {
        let mut out = String::new();
        out.append("{\"parent\":");
        match &entry.parent {
            Some(p) => {
                out.append("\"");
                out.append(p.as_str());
                out.append("\"");
            },
            None => {
                out.append("null");
            },
        }
        out.append(",\"data\":");
        out.append(entry.data.as_str());
        out.append("}");
        assert(out@ =~= canonical_form(entry@));
        out
    }

    /// The key under which an entry is stored.
    fn hash_entry(entry: &ChainEntry) -> (r: String)
        ensures
            r@ == entry_hash(entry@),
            r@.len() == 64,
    {
        let text = Self::canonical_text(entry);
        digest_hex(text.as_str().as_bytes())
    }

    /// The index at which key `k` is stored.
    fn find(&self, k: &str) -> (r: Option<usize>)
        requires
            self@.keyed(),
        ensures
            match r {
                Some(i) => i < self@.len() && self@.keys[i as int] == k@ && self@.index_of(k@)
                    == i && self@.lookup(k@) == Some(self@.entries[i as int]),
                None => !self@.has_key(k@) && self@.lookup(k@) is None,
            },
    {
        let key = k.to_owned();
        let mut i: usize = 0;
        while i < self.keys.len()
            invariant
                i <= self.keys@.len(),
                key@ == k@,
                self@.keyed(),
                forall|j: int| 0 <= j < i ==> self@.keys[j] != k@,
            decreases self.keys@.len() - i,
        {
            if self.keys[i] == key {
                proof {
                    lemma_index_of(self@, i as int);
                }
                return Some(i);
            }
            i = i + 1;
        }
        None
    }

    /// Stores the genesis entry, whose data records the component's provenance
    /// digest, and returns its key. Fails on a chain that already holds entries.
    pub fn initialize(&mut self, component_hash: &str) -> (r: Result<String, ChainError>)
        requires
            old(self)@.wf(),
        ensures
            final(self)@.wf(),
            old(self)@.intact() ==> final(self)@.intact(),
            old(self)@.len() > 0 ==> r == Err::<String, ChainError>(ChainError::AlreadyInitialized)
                && final(self)@ == old(self)@,
            old(self)@.len() == 0 ==> {
                &&& r matches Ok(h) && h@ == entry_hash(genesis_entry(component_hash@)) && h@.len()
                    == 64 && final(self)@ == old(self)@.appended(h@, genesis_entry(component_hash@))
            },
    {
        if self.keys.len() > 0 {
            return Err(ChainError::AlreadyInitialized);
        }
        let quoted = json_string(component_hash).unwrap();
        let mut data = String::new();
        data.append("{\"component_hash\":");
        data.append(quoted.as_str());
        data.append("}");
        assert(data@ =~= genesis_data(component_hash@));
        let genesis = ChainEntry { parent: None, data };
        let hash = Self::hash_entry(&genesis);
        self.keys.push(hash.clone());
        self.entries.push(genesis);
        self.head = Some(hash.clone());
        proof {
            assert(self@.keys =~= old(self)@.keys.push(hash@));
            assert(self@.entries =~= old(self)@.entries.push(genesis_entry(component_hash@)));
        }
        Ok(hash)
    }

    /// Appends an entry holding `data` after the head and returns its key. A key
    /// that is already stored is never overwritten: then nothing changes.
    pub fn add(&mut self, data: String) -> (r: String)
        requires
            old(self)@.wf(),
        ensures
            final(self)@.wf(),
            old(self)@.intact() ==> final(self)@.intact(),
            r@ == entry_hash(EntryView { parent: old(self)@.head, data: data@ }),
            r@.len() == 64,
            old(self)@.has_key(r@) ==> final(self)@ == old(self)@,
            !old(self)@.has_key(r@) ==> final(self)@ == old(self)@.appended(
                r@,
                EntryView { parent: old(self)@.head, data: data@ },
            ),
    {
        let parent = match &self.head {
            Some(h) => Some(h.clone()),
            None => None,
        };
        let entry = ChainEntry { parent, data };
        let hash = Self::hash_entry(&entry);
        match self.find(hash.as_str()) {
            Some(_) => {},
            None => {
                let ghost e = entry@;
                self.keys.push(hash.clone());
                self.entries.push(entry);
                self.head = Some(hash.clone());
                proof {
                    assert(self@.keys =~= old(self)@.keys.push(hash@));
                    assert(self@.entries =~= old(self)@.entries.push(e));
                }
            },
        }
        hash
    }

    /// The entry stored under `hash`, if any.
    pub fn get(&self, hash: &str) -> (r: Option<&ChainEntry>)
        requires
            self@.keyed(),
        ensures
            match r {
                Some(e) => self@.lookup(hash@) == Some(e@),
                None => self@.lookup(hash@) is None,
            },
    {
        match self.find(hash) {
            Some(i) => Some(&self.entries[i]),
            None => None,
        }
    }

    /// The key of the most recent entry; `None` for an empty chain.
    pub fn get_head(&self) -> (r: Option<&str>)
        ensures
            match r {
                Some(h) => self@.head == Some(h@),
                None => self@.head is None,
            },
    {
        match &self.head {
            Some(h) => Some(h.as_str()),
            None => None,
        }
    }

    /// The keys of all entries, from the genesis entry to the head.
    pub fn hashes(&self) -> (r: Vec<String>)
        ensures
            r@.map_values(|s: String| s@) == self@.keys,
    {
        let mut out: Vec<String> = Vec::new();
        let mut i: usize = 0;
        while i < self.keys.len()
            invariant
                i <= self.keys@.len(),
                out@.map_values(|s: String| s@) =~= self@.keys.subrange(0, i as int),
            decreases self.keys@.len() - i,
        {
            let s = self.keys[i].clone();
            let ghost prev = out@;
            out.push(s);
            assert(out@.map_values(|s: String| s@) =~= prev.map_values(|s: String| s@).push(s@));
            i = i + 1;
            assert(out@.map_values(|s: String| s@) =~= self@.keys.subrange(0, i as int));
        }
        assert(self@.keys.subrange(0, self@.keys.len() as int) =~= self@.keys);
        out
    }

    /// Walks from the head along parent links, recomputing each entry's key.
    /// Returns false on a mismatch, a dangling reference or a cycle.
    pub fn verify(&self) -> (r: bool)
        requires
            self@.keyed(),
        ensures
            r == self@.verified(),
            self@.wf() && self@.intact() ==> r,
    {
        proof {
            if self@.wf() && self@.intact() {
                lemma_intact_chain_verifies(self@);
            }
        }
        let mut cur: Option<String> = match &self.head {
            Some(h) => Some(h.clone()),
            None => None,
        };
        let mut fuel: usize = self.keys.len();
        loop
            invariant
                self@.keyed(),
                self@.verified() == self@.walk_ok(opt_view(cur), fuel as nat),
                self@.wf() && self@.intact() ==> self@.verified(),
            decreases fuel,
        {
            if cur.is_none() {
                return true;
            }
            let k = cur.unwrap();
            if fuel == 0 {
                return false;
            }
            match self.find(k.as_str()) {
                None => {
                    return false;
                },
                Some(i) => {
                    let h = Self::hash_entry(&self.entries[i]);
                    if !(h == k) {
                        return false;
                    }
                    cur = self.entries[i].copy_parent();
                    fuel = fuel - 1;
                },
            }
        }
    }

    /// Overwrites the data of the entry under `hash` in place, bypassing content
    /// addressing, and returns whether such an entry exists. This simulates
    /// tampering with stored history, which `verify` is there to expose.
    pub fn replace_data(&mut self, hash: &str, data: String) -> (r: bool)
        requires
            old(self)@.wf(),
        ensures
            final(self)@.wf(),
            r == old(self)@.has_key(hash@),
            r ==> final(self)@ == old(self)@.with_data(hash@, data@),
            !r ==> final(self)@ == old(self)@,
    {
        match self.find(hash) {
            None => false,
            Some(i) => {
                let parent = self.entries[i].copy_parent();
                let ghost d = data@;
                let entry = ChainEntry { parent, data };
                self.entries.set(i, entry);
                proof {
                    assert(self@.entries =~= old(self)@.with_data(hash@, d).entries);
                    assert(self@.keys =~= old(self)@.keys);
                }
                true
            },
        }
    }
}

} // verus!
