//! The tag index, from commit to tag name, and the walk that looks a commit up in it.

use vstd::prelude::*;
use vstd::utf8::{decode_utf8, valid_utf8};

verus! {

/// A commit's identifier: the bytes of its object id.
#[derive(Debug)]
pub struct CommitId {
    pub bytes: Vec<u8>,
}

impl View for CommitId {
    type V = Seq<u8>;

    open spec fn view(&self) -> Seq<u8> {
        self.bytes@
    }
}

impl CommitId {
    /// Whether the two identifiers are the same bytes.
    pub fn same(&self, other: &CommitId) -> (b: bool)
        ensures
            b == (self@ == other@),
    {
        if self.bytes.len() != other.bytes.len() {
            return false;
        }
        let mut i: usize = 0;
        while i < self.bytes.len()
            invariant
                i <= self.bytes.len() == other.bytes.len(),
                forall|j: int| 0 <= j < i ==> self.bytes@[j] == other.bytes@[j],
            decreases self.bytes.len() - i,
        {
            if self.bytes[i] != other.bytes[i] {
                return false;
            }
            i += 1;
        }
        assert(self@ =~= other@);
        true
    }
}

/// `String::from_utf8` gives the text that the bytes encode, and fails exactly
/// where they are not valid UTF-8; the failure is handed on as `None`.
#[verifier::external_body]
fn text_of_bytes(bytes: Vec<u8>) -> (r: Option<String>)
    ensures
        r is Some <==> valid_utf8(bytes@),
        r is Some ==> r->0@ == decode_utf8(bytes@),
{
    String::from_utf8(bytes).ok()
}

/// One tag as the index keeps it.
struct TagEntry {
    commit: CommitId,
    name: String,
}

/// A map from commit to tag name, with one name for a commit.
pub struct TagIndex {
    entries: Vec<TagEntry>,
}

/// What the index holds after a tag was seen that points at `target` under
/// the raw name `raw_name`: a tag that did not resolve, or whose name is no
/// valid text, leaves it as it was; another takes the place of what the
/// commit had before.
pub open spec fn recorded(
    before: Map<Seq<u8>, Seq<char>>,
    target: Option<Seq<u8>>,
    raw_name: Seq<u8>,
) -> Map<Seq<u8>, Seq<char>> {
    if target is Some && valid_utf8(raw_name) {
        before.insert(target->0, decode_utf8(raw_name))
    } else {
        before
    }
}

impl TagIndex {
    spec fn holds(&self, key: Seq<u8>, i: int) -> bool {
        0 <= i < self.entries.len() && self.entries[i].commit@ == key
    }

    /// No commit has two entries.
    pub closed spec fn wf(&self) -> bool {
        forall|i: int, j: int|
            0 <= i < j < self.entries.len() ==> self.entries[i].commit@ != self.entries[j].commit@
    }

    /// An empty index.
    pub fn new() -> (index: TagIndex)
        ensures
            index.wf(),
            index@ == Map::<Seq<u8>, Seq<char>>::empty(),
    {
        let index = TagIndex { entries: Vec::new() };
        assert(index@ =~= Map::<Seq<u8>, Seq<char>>::empty());
        index
    }

    /// Where the entry of `commit` stands, if it has one.
    fn find(&self, commit: &CommitId) -> (r: Option<usize>)
        ensures
            r is Some ==> self.holds(commit@, r->0 as int),
            r is None ==> forall|i: int| !self.holds(commit@, i),
    {
        let mut i: usize = 0;
        while i < self.entries.len()
            invariant
                i <= self.entries.len(),
                forall|j: int| 0 <= j < i ==> !self.holds(commit@, j),
            decreases self.entries.len() - i,
        {
            if self.entries[i].commit.same(commit) {
                return Some(i);
            }
            i += 1;
        }
        None
    }

    proof fn lemma_entry(&self, key: Seq<u8>, i: int)
        requires
            self.wf(),
            self.holds(key, i),
        ensures
            self@.contains_key(key),
            self@[key] == self.entries[i].name@,
    {
        let j = choose|j: int| self.holds(key, j);
        assert(i == j);
    }

    /// Whether `commit` has a tag in the index.
    pub fn contains(&self, commit: &CommitId) -> (b: bool)
        requires
            self.wf(),
        ensures
            b == self@.contains_key(commit@),
    {
        let found = self.find(commit);
        proof {
            if found is Some {
                self.lemma_entry(commit@, found->0 as int);
            }
        }
        found.is_some()
    }

    /// The tag name of `commit`, if it has one.
    pub fn get(&self, commit: &CommitId) -> (r: Option<&String>)
        requires
            self.wf(),
        ensures
            r is Some <==> self@.contains_key(commit@),
            r is Some ==> r->0@ == self@[commit@],
    {
        match self.find(commit) {
            Some(i) => {
                proof {
                    self.lemma_entry(commit@, i as int);
                }
                Some(&self.entries[i].name)
            },
            None => None,
        }
    }

    /// Gives `commit` the tag name `name`, in place of the one it had, if any.
    pub fn insert(&mut self, commit: CommitId, name: String)
        requires
            old(self).wf(),
        ensures
            final(self).wf(),
            final(self)@ == old(self)@.insert(commit@, name@),
    {
        let ghost key = commit@;
        let ghost text = name@;
        let found = self.find(&commit);
        match found {
            Some(i) => {
                self.entries.set(i, TagEntry { commit, name });
            },
            None => {
                self.entries.push(TagEntry { commit, name });
            },
        }
        proof {
            let before = *old(self);
            let after = *self;
            let at: int = if found is Some {
                found->0 as int
            } else {
                before.entries.len() as int
            };
            assert(after.holds(key, at));
            assert(after.entries[at].name@ == text);
            assert(forall|i: int|
                0 <= i < before.entries.len() && i != at ==> after.entries[i] == before.entries[i]);
            assert(forall|k: Seq<u8>, i: int| k != key && before.holds(k, i) ==> after.holds(k, i));
            assert(forall|k: Seq<u8>, i: int| k != key && after.holds(k, i) ==> before.holds(k, i));
            assert forall|i: int, j: int| 0 <= i < j < after.entries.len() implies after.entries[i].commit@
                != after.entries[j].commit@ by {
                if i == at {
                    assert(!before.holds(key, j) || j == at);
                } else if j == at {
                    assert(!before.holds(key, i) || i == at);
                } else {
                    assert(after.entries[i] == before.entries[i]);
                    assert(after.entries[j] == before.entries[j]);
                }
            }
            assert forall|k: Seq<u8>| #[trigger]
                before@.insert(key, text).contains_key(k) == after@.contains_key(k) by {
                if k == key {
                    after.lemma_entry(key, at);
                } else if before@.contains_key(k) {
                    let i = choose|i: int| before.holds(k, i);
                    after.lemma_entry(k, i);
                } else if after@.contains_key(k) {
                    let i = choose|i: int| after.holds(k, i);
                    before.lemma_entry(k, i);
                }
            }
            assert forall|k: Seq<u8>| #[trigger]
                after@.contains_key(k) implies after@[k] == before@.insert(key, text)[k] by {
                if k == key {
                    after.lemma_entry(key, at);
                } else {
                    let i = choose|i: int| after.holds(k, i);
                    after.lemma_entry(k, i);
                    before.lemma_entry(k, i);
                }
            }
            assert(after@ =~= before@.insert(key, text));
        }
    }

    /// Takes in one tag as the repository showed it: the commit it points at,
    /// where the tag resolved, and its name as raw bytes.
    pub fn record(&mut self, target: Option<CommitId>, raw_name: Vec<u8>)
        requires
            old(self).wf(),
        ensures
            final(self).wf(),
            final(self)@ == recorded(
                old(self)@,
                match target {
                    Some(c) => Some(c@),
                    None => None,
                },
                raw_name@,
            ),
    {
        match target {
            Some(commit) => {
                match text_of_bytes(raw_name) {
                    Some(name) => {
                        self.insert(commit, name);
                    },
                    None => {},
                }
            },
            None => {},
        }
    }
}

impl View for TagIndex {
    type V = Map<Seq<u8>, Seq<char>>;

    closed spec fn view(&self) -> Map<Seq<u8>, Seq<char>> {
        Map::new(
            |key: Seq<u8>| exists|i: int| self.holds(key, i),
            |key: Seq<u8>| self.entries[choose|i: int| self.holds(key, i)].name@,
        )
    }
}

/// Whether `i` is the first place of `walk` whose commit has a tag in `index`.
pub open spec fn is_first_tagged(walk: Seq<CommitId>, index: Map<Seq<u8>, Seq<char>>, i: int) -> bool {
    &&& 0 <= i < walk.len()
    &&& index.contains_key(walk[i]@)
    &&& forall|j: int| 0 <= j < i ==> !index.contains_key(#[trigger] walk[j]@)
}

/// Whether no commit of `walk` has a tag in `index`.
pub open spec fn none_tagged(walk: Seq<CommitId>, index: Map<Seq<u8>, Seq<char>>) -> bool {
    forall|j: int| 0 <= j < walk.len() ==> !index.contains_key(#[trigger] walk[j]@)
}

/// The first commit of the walk, which runs from the newest commit to the
/// oldest, that has a tag: its place in the walk.
pub fn latest_tagged(walk: &Vec<CommitId>, index: &TagIndex) -> (r: Option<usize>)
    requires
        index.wf(),
    ensures
        match r {
            Some(i) => is_first_tagged(walk@, index@, i as int),
            None => none_tagged(walk@, index@),
        },
{
    let mut i: usize = 0;
    while i < walk.len()
        invariant
            i <= walk.len(),
            index.wf(),
            forall|j: int| 0 <= j < i ==> !index@.contains_key(#[trigger] walk@[j]@),
        decreases walk.len() - i,
    {
        if index.contains(&walk[i]) {
            return Some(i);
        }
        i += 1;
    }
    None
}

} // verus!
