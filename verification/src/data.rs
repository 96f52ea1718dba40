//! The file store: a slot allocator, a name-hash to slot map, and a
//! façade over the Merkle tree and the blobs it holds. Slots are handed
//! out in order and never reused; rebinding an existing name hash leaks
//! its old slot. Every mutation leaves the tree recomputed, so the store
//! is always fit to serve its top hash and inclusion proofs.

use vstd::prelude::*;

use crate::file::{file_data_of, File};
use crate::hash::sha256_of;
use crate::merkle_tree::{fold_proof, merkle_root, MerkleTree};
use crate::types::{FileData, FileInfo, FileList, FileListEntry, FileListEntryView, MerkleData};
use crate::{VaultError, MAX_DEPTH, MAX_FILE_ID};

verus! {

/// The slot bound to a key in an association list, scanning front to
/// back; keys are unique, so at most one entry can match.
pub open spec fn index_of(m: Seq<(String, u64)>, key: Seq<char>) -> Option<u64>
    decreases m.len(),
{
    if m.len() == 0 {
        None
    } else if m[0].0@ == key {
        Some(m[0].1)
    } else {
        index_of(m.drop_first(), key)
    }
}

/// Entries that cannot match may be skipped without changing the lookup.
proof fn lemma_index_of_skip(m: Seq<(String, u64)>, key: Seq<char>, i: int)
    requires
        0 <= i <= m.len(),
        forall|j: int| 0 <= j < i ==> m[j].0@ != key,
    ensures
        index_of(m, key) == index_of(m.skip(i), key),
    decreases i,
{
    if i > 0 {
        lemma_index_of_skip(m.drop_first(), key, i - 1);
        assert(m.drop_first().skip(i - 1) =~= m.skip(i));
    } else {
        assert(m.skip(0) =~= m);
    }
}

/// Find the position of a key in the backing vector, front to back.
fn find_pos(m: &Vec<(String, u64)>, key: &String) -> (r: Option<usize>)
    ensures
        r matches Some(p) ==> p < m@.len() && m@[p as int].0@ == key@ && forall|j: int|
            0 <= j < p ==> m@[j].0@ != key@,
        r is None ==> forall|j: int| 0 <= j < m@.len() ==> m@[j].0@ != key@,
{
    let n = m.len();
    let mut i: usize = 0;
    while i < n
        invariant
            n == m@.len(),
            i <= n,
            forall|j: int| 0 <= j < i ==> m@[j].0@ != key@,
        decreases n - i,
    {
        if m[i].0.eq(key) {
            return Some(i);
        }
        i = i + 1;
    }
    None
}

/// The server-side store.
pub struct Files {
    file_id: u64,
    tree: MerkleTree,
    file_map: Vec<(String, u64)>,
}

impl Files {
    /// The store's structural invariant: the slot counter is within
    /// capacity, the tree is well-formed and fully recomputed, keys are
    /// unique, and every mapped slot holds a blob indexed under that key.
    pub closed spec fn wf(self) -> bool {
        &&& self.file_id <= MAX_FILE_ID
        &&& self.tree.wf()
        &&& self.tree.clean()
        &&& forall|k: int, l: int|
            0 <= k < l < self.file_map@.len() ==> self.file_map@[k].0@ != self.file_map@[l].0@
        &&& forall|k: int, l: int|
            0 <= k < l < self.file_map@.len() ==> self.file_map@[k].1 != self.file_map@[l].1
        &&& forall|k: int|
            0 <= k < self.file_map@.len() ==> (#[trigger] self.file_map@[k]).1 < self.file_id
        &&& forall|k: int|
            0 <= k < self.file_map@.len() ==> ((#[trigger] self.tree.spec_file(
                self.file_map@[k].1 as nat,
            )) matches Some(f) && f.wf() && f@.name_hash == self.file_map@[k].0@)
    }

    /// The next slot to be allocated; also the number of adds so far.
    pub closed spec fn next_slot(self) -> nat {
        self.file_id as nat
    }

    /// The slot a name hash is bound to, if any.
    pub closed spec fn spec_index(self, key: Seq<char>) -> Option<u64> {
        index_of(self.file_map@, key)
    }

    /// The blob in slot `id` of the tree.
    pub closed spec fn spec_file(self, id: nat) -> Option<File> {
        self.tree.spec_file(id)
    }

    /// The body bytes slot `id` commits to the hashes.
    pub open spec fn spec_body(self, id: nat) -> Seq<u8> {
        crate::merkle_tree::body_of(self.spec_file(id))
    }

    /// The slot-to-body assignment the top hash commits to.
    pub open spec fn spec_bodies(self) -> spec_fn(nat) -> Seq<u8> {
        |i: nat| self.spec_body(i)
    }

    /// The store's top hash.
    pub closed spec fn top(self) -> Seq<u8> {
        self.tree.top()
    }

    /// How many name hashes are currently bound.
    pub closed spec fn spec_map_len(self) -> nat {
        self.file_map@.len()
    }

    /// The listing row for the `k`-th bound name hash.
    pub closed spec fn spec_entry(self, k: int) -> FileListEntryView {
        let key = self.file_map@[k].0@;
        let f = self.tree.spec_file(self.file_map@[k].1 as nat).unwrap();
        FileListEntryView {
            name_hash: key,
            nonce: f@.nonce,
            name: f@.name,
            name_nonce: f@.name_nonce,
            size: f@.body.len(),
        }
    }

    /// An empty store: no slot allocated, no name bound, every slot of
    /// the tree vacant.
    pub fn new() -> (s: Self)
        ensures
            s.wf(),
            s.next_slot() == 0,
            s.spec_map_len() == 0,
            forall|key: Seq<char>| s.spec_index(key) is None,
            forall|i: nat| s.spec_file(i) is None,
            s.top() == merkle_root(MAX_DEPTH as nat, s.spec_bodies()),
    {
        let s = Files { file_id: 0, tree: MerkleTree::new(), file_map: Vec::new() };
        proof {
            assert(s.spec_bodies() =~= s.tree.spec_bodies());
        }
        s
    }

    /// The store's current top hash; always the pure Merkle root of the
    /// slot bodies, since every mutation recomputes before returning.
    pub fn top_hash(&self) -> (r: &Vec<u8>)
        requires
            self.wf(),
        ensures
            r@ == self.top(),
            r@ == merkle_root(MAX_DEPTH as nat, self.spec_bodies()),
    {
        proof {
            assert(self.spec_bodies() =~= self.tree.spec_bodies());
        }
        self.tree.top_hash()
    }

    /// Add an envelope to the store: allocate the next slot, bind the
    /// envelope's name hash to it, store the blob and recompute the tree.
    /// Fails with `StoreFull` exactly when all slots are taken, and then
    /// changes nothing. Rebinding an existing name hash leaks its old
    /// slot: the slot counter never goes back.
    pub fn add_file(&mut self, data: FileData) -> (r: Result<(), VaultError>)
        requires
            old(self).wf(),
        ensures
            final(self).wf(),
            old(self).next_slot() <= MAX_FILE_ID,
            old(self).next_slot() == MAX_FILE_ID ==> r == Err::<(), VaultError>(
                VaultError::StoreFull,
            ) && *final(self) == *old(self),
            old(self).next_slot() < MAX_FILE_ID ==> {
                &&& r == Ok::<(), VaultError>(())
                &&& final(self).next_slot() == old(self).next_slot() + 1
                &&& final(self).spec_index(data@.name_hash) matches Some(id) && id
                    == old(self).next_slot()
                &&& forall|key: Seq<char>|
                    key != data@.name_hash ==> final(self).spec_index(key) == old(self).spec_index(
                        key,
                    )
                &&& final(self).spec_file(old(self).next_slot()) matches Some(f) && f@.name_hash
                    == data@.name_hash && f@.body == data@.contents && f@.name == data@.name
                    && f@.nonce == data@.nonce && f@.name_nonce == data@.name_nonce
                    && f@.signature == data@.signature && f@.resident
                &&& forall|j: nat|
                    j < MAX_FILE_ID && j != old(self).next_slot() ==> final(self).spec_file(j)
                        == old(self).spec_file(j)
                &&& final(self).top() == merkle_root(MAX_DEPTH as nat, final(self).spec_bodies())
            },
    {
        if self.file_id == MAX_FILE_ID {
            return Err(VaultError::StoreFull);
        }
        let id = self.file_id;
        self.file_id = id + 1;
        let key = data.name_hash.clone();
        let file = File::new(data);
        self.tree.set_file(id, file);
        self.tree.recompute_hashes();
        let ghost pre_map = self.file_map@;
        match find_pos(&self.file_map, &key) {
            Some(p) => {
                let entry = (key, id);
                self.file_map.set(p, entry);
                proof {
                    self.lemma_lookup_set(pre_map, p as int, id);
                }
            },
            None => {
                self.file_map.push((key, id));
                proof {
                    self.lemma_lookup_push(pre_map, id);
                }
            },
        }
        proof {
            assert(self.spec_bodies() =~= self.tree.spec_bodies());
        }
        Ok(())
    }

    /// Look an envelope up by its name hash. An unknown name hash yields
    /// `Ok(None)`, never an error; a known one whose body was evicted is
    /// reported as `NotResident` until the body is handed back through
    /// `reload_file`.
    pub fn get_file(&self, info: &FileInfo) -> (r: Result<Option<FileData>, VaultError>)
        requires
            self.wf(),
        ensures
            self.spec_index(info@) is None ==> r == Ok::<Option<FileData>, VaultError>(None),
            self.spec_index(info@) matches Some(id) ==> (self.spec_file(id as nat) matches Some(f)
                && (f@.resident ==> (r matches Ok(o) && o matches Some(fd) && fd@ == file_data_of(
                f@,
            ))) && (!f@.resident ==> r == Err::<Option<FileData>, VaultError>(
                VaultError::NotResident,
            ))),
    {
        match find_pos(&self.file_map, &info.name_hash) {
            None => {
                proof {
                    lemma_index_of_skip(self.file_map@, info@, self.file_map@.len() as int);
                }
                Ok(None)
            },
            Some(p) => {
                proof {
                    lemma_index_of_skip(self.file_map@, info@, p as int);
                    assert(self.file_map@.skip(p as int)[0] == self.file_map@[p as int]);
                }
                let id = self.file_map[p].1;
                match self.tree.get_file(id) {
                    Some(f) => match f.file_data() {
                        Ok(fd) => Ok(Some(fd)),
                        Err(e) => Err(e),
                    },
                    None => {
                        proof {
                            assert(false);
                        }
                        Ok(None)
                    },
                }
            },
        }
    }

    /// The inclusion proof for a bound name hash: the current top hash
    /// and the sibling digests for the blob's slot. Folding the proof
    /// from the slot's body digest reproduces the top hash.
    pub fn get_merkle_data(&self, name: &String) -> (r: Option<MerkleData>)
        requires
            self.wf(),
        ensures
            self.spec_index(name@) is None ==> r is None,
            self.spec_index(name@) matches Some(id) ==> (r matches Some(md) && md@.top_hash
                == self.top() && md@.hashes.len() == MAX_DEPTH && fold_proof(
                sha256_of(self.spec_body(id as nat)),
                md@.hashes,
            ) == self.top()),
    {
        match find_pos(&self.file_map, name) {
            None => {
                proof {
                    lemma_index_of_skip(self.file_map@, name@, self.file_map@.len() as int);
                }
                None
            },
            Some(p) => {
                proof {
                    lemma_index_of_skip(self.file_map@, name@, p as int);
                    assert(self.file_map@.skip(p as int)[0] == self.file_map@[p as int]);
                }
                let id = self.file_map[p].1;
                Some(self.tree.get_merkle_data_for_file(id))
            },
        }
    }

    /// The listing: the current top hash and one row per bound name
    /// hash, assembled without touching any body.
    pub fn list(&self) -> (r: FileList)
        requires
            self.wf(),
        ensures
            r.top_hash@ == self.top(),
            r.list@.len() == self.spec_map_len(),
            forall|k: int| 0 <= k < r.list@.len() ==> (#[trigger] r.list@[k])@ == self.spec_entry(
                k,
            ),
            forall|k: int|
                0 <= k < r.list@.len() ==> (self.spec_index((#[trigger] r.list@[k])@.name_hash)
                    matches Some(id) && self.spec_file(id as nat) matches Some(f)
                    && r.list@[k]@.nonce == f@.nonce && r.list@[k]@.name == f@.name
                    && r.list@[k]@.name_nonce == f@.name_nonce && r.list@[k]@.size
                    == f@.body.len()),
            forall|k: int, l: int|
                0 <= k < l < r.list@.len() ==> r.list@[k]@.name_hash != r.list@[l]@.name_hash,
    {
        let mut entries: Vec<FileListEntry> = Vec::new();
        let n = self.file_map.len();
        let mut i: usize = 0;
        while i < n
            invariant
                self.wf(),
                n == self.file_map@.len(),
                i <= n,
                entries@.len() == i,
                forall|k: int| 0 <= k < i ==> (#[trigger] entries@[k])@ == self.spec_entry(k),
            decreases n - i,
        {
            let id = self.file_map[i].1;
            match self.tree.get_file(id) {
                Some(f) => {
                    let entry = FileListEntry {
                        name_hash: self.file_map[i].0.clone(),
                        size: f.size(),
                        name: f.name(),
                        nonce: f.nonce(),
                        name_nonce: f.name_nonce(),
                    };
                    entries.push(entry);
                },
                None => {
                    proof {
                        assert(false);
                    }
                },
            }
            i = i + 1;
        }
        proof {
            assert forall|k: int| 0 <= k < self.file_map@.len() implies self.spec_index(
                self.file_map@[k].0@,
            ) == Some(self.file_map@[k].1) by {
                assert forall|j: int| 0 <= j < k implies self.file_map@[j].0@
                    != self.file_map@[k].0@ by {
                    assert(self.file_map@[j].0@ != self.file_map@[k].0@);
                }
                lemma_index_of_skip(self.file_map@, self.file_map@[k].0@, k);
                assert(self.file_map@.skip(k)[0] == self.file_map@[k]);
            }
        }
        FileList { top_hash: self.top_hash().clone(), list: entries }
    }

    /// Evict the body of the blob bound to a name hash, handing the
    /// bytes out so the caller can persist them (an offload and testing
    /// hook). The tree still commits to the same contents and every
    /// binding stays in place.
    pub fn evict_file(&mut self, info: &FileInfo) -> (r: Option<Vec<u8>>)
        requires
            old(self).wf(),
        ensures
            final(self).wf(),
            final(self).top() == old(self).top(),
            final(self).next_slot() == old(self).next_slot(),
            forall|key: Seq<char>| final(self).spec_index(key) == old(self).spec_index(key),
            old(self).spec_index(info@) is None ==> r is None && forall|j: nat|
                j < MAX_FILE_ID ==> final(self).spec_file(j) == old(self).spec_file(j),
            old(self).spec_index(info@) matches Some(id) ==> {
                &&& old(self).spec_file(id as nat) matches Some(f) && (final(self).spec_file(
                    id as nat,
                ) matches Some(f2) && f2@ == crate::file::evicted(f@)) && (f@.resident ==> (r
                    matches Some(b) && b@ == f@.body)) && (!f@.resident ==> r is None)
                &&& forall|j: nat|
                    j < MAX_FILE_ID && j != id as nat ==> final(self).spec_file(j) == old(self).spec_file(j)
            },
    {
        match find_pos(&self.file_map, &info.name_hash) {
            None => {
                proof {
                    lemma_index_of_skip(self.file_map@, info@, self.file_map@.len() as int);
                }
                None
            },
            Some(p) => {
                proof {
                    lemma_index_of_skip(self.file_map@, info@, p as int);
                    assert(self.file_map@.skip(p as int)[0] == self.file_map@[p as int]);
                }
                let id = self.file_map[p].1;
                let bytes = self.tree.evict_file(id);
                proof {
                    self.lemma_map_entries_still_ok(*old(self), id);
                }
                bytes
            },
        }
    }

    /// Hand an evicted body back to the blob bound to a name hash. The
    /// bytes are accepted only if they still match the digest the store
    /// committed to; a mismatch is reported as a persistence failure and
    /// changes nothing.
    pub fn reload_file(&mut self, info: &FileInfo, bytes: Vec<u8>) -> (r: Result<(), VaultError>)
        requires
            old(self).wf(),
        ensures
            final(self).wf(),
            final(self).top() == old(self).top(),
            final(self).next_slot() == old(self).next_slot(),
            forall|key: Seq<char>| final(self).spec_index(key) == old(self).spec_index(key),
            old(self).spec_index(info@) is None ==> r == Err::<(), VaultError>(VaultError::NotFound)
                && forall|j: nat|
                j < MAX_FILE_ID ==> final(self).spec_file(j) == old(self).spec_file(j),
            old(self).spec_index(info@) matches Some(id) ==> {
                &&& forall|j: nat|
                    j < MAX_FILE_ID && j != id as nat ==> final(self).spec_file(j) == old(self).spec_file(j)
                &&& old(self).spec_file(id as nat) matches Some(f) && {
                    &&& f@.resident ==> r == Ok::<(), VaultError>(()) && final(self).spec_file(
                        id as nat,
                    ) == Some(f)
                    &&& !f@.resident && sha256_of(bytes@) == sha256_of(f@.body) && bytes@.len()
                        == f@.body.len() ==> r == Ok::<(), VaultError>(()) && (final(self).spec_file(id as nat) matches Some(f2) && f2@ == crate::file::reloaded(
                        f@,
                        bytes@,
                    ))
                    &&& !f@.resident && !(sha256_of(bytes@) == sha256_of(f@.body) && bytes@.len()
                        == f@.body.len()) ==> r == Err::<(), VaultError>(VaultError::IoError)
                        && final(self).spec_file(id as nat) == Some(f)
                }
            },
    {
        match find_pos(&self.file_map, &info.name_hash) {
            None => {
                proof {
                    lemma_index_of_skip(self.file_map@, info@, self.file_map@.len() as int);
                }
                Err(VaultError::NotFound)
            },
            Some(p) => {
                proof {
                    lemma_index_of_skip(self.file_map@, info@, p as int);
                    assert(self.file_map@.skip(p as int)[0] == self.file_map@[p as int]);
                }
                let id = self.file_map[p].1;
                let outcome = self.tree.load_file(id, bytes);
                proof {
                    self.lemma_map_entries_still_ok(*old(self), id);
                }
                outcome
            },
        }
    }

    /// After a blob-local change at one slot that preserves every blob's
    /// name hash, all map entries still point at blobs indexed under
    /// their keys.
    proof fn lemma_map_entries_still_ok(self, pre: Files, id: u64)
        requires
            pre.wf(),
            self.file_map@ == pre.file_map@,
            self.file_id == pre.file_id,
            forall|j: nat|
                j < MAX_FILE_ID && j != id as nat ==> self.tree.spec_file(j) == pre.tree.spec_file(
                    j,
                ),
            pre.tree.spec_file(id as nat) is Some ==> (self.tree.spec_file(id as nat) matches Some(
                f2,
            ) && f2.wf() && f2@.name_hash == pre.tree.spec_file(id as nat).unwrap()@.name_hash),
            pre.tree.spec_file(id as nat) is None ==> self.tree.spec_file(id as nat) is None,
        ensures
            forall|k: int|
                0 <= k < self.file_map@.len() ==> ((#[trigger] self.tree.spec_file(
                    self.file_map@[k].1 as nat,
                )) matches Some(f) && f.wf() && f@.name_hash == self.file_map@[k].0@),
    {
        assert forall|k: int| 0 <= k < self.file_map@.len() implies ((#[trigger]
        self.tree.spec_file(self.file_map@[k].1 as nat)) matches Some(f) && f.wf() && f@.name_hash
            == self.file_map@[k].0@) by {
            assert(pre.file_map@[k].1 < pre.file_id);
            if self.file_map@[k].1 as nat != id as nat {
                assert(self.tree.spec_file(self.file_map@[k].1 as nat) == pre.tree.spec_file(
                    pre.file_map@[k].1 as nat,
                ));
            }
        }
    }

    /// Updating the entry at a matched position rebinds exactly that key.
    proof fn lemma_lookup_set(self, pre: Seq<(String, u64)>, p: int, id: u64)
        requires
            0 <= p < pre.len(),
            self.file_map@.len() == pre.len(),
            self.file_map@ == pre.update(p, (self.file_map@[p].0, id)),
            self.file_map@[p].0@ == pre[p].0@,
            self.file_map@[p].1 == id,
            forall|j: int| 0 <= j < p ==> pre[j].0@ != pre[p].0@,
            forall|k: int, l: int| 0 <= k < l < pre.len() ==> pre[k].0@ != pre[l].0@,
        ensures
            index_of(self.file_map@, pre[p].0@) == Some(id),
            forall|key: Seq<char>|
                key != pre[p].0@ ==> index_of(self.file_map@, key) == index_of(pre, key),
        decreases pre.len(),
    {
        let m = self.file_map@;
        let target = pre[p].0@;
        lemma_index_of_skip(m, target, p);
        assert(m.skip(p)[0] == m[p]);
        assert(index_of(m.skip(p), target) == Some(id));
        assert forall|key: Seq<char>| key != target implies index_of(m, key) == index_of(
            pre,
            key,
        ) by {
            Self::lemma_index_of_update_other(pre, m, p, key);
        }
    }

    /// Rebinding one position leaves lookups of every other key alone.
    proof fn lemma_index_of_update_other(
        pre: Seq<(String, u64)>,
        m: Seq<(String, u64)>,
        p: int,
        key: Seq<char>,
    )
        requires
            0 <= p < pre.len(),
            m.len() == pre.len(),
            forall|j: int| 0 <= j < pre.len() && j != p ==> m[j] == pre[j],
            m[p].0@ == pre[p].0@,
            key != pre[p].0@,
        ensures
            index_of(m, key) == index_of(pre, key),
        decreases pre.len(),
    {
        if pre.len() > 0 {
            if p == 0 {
                assert(m[0].0@ != key);
                assert(pre[0].0@ != key);
                assert(m.drop_first() =~= pre.drop_first());
            } else {
                assert(m[0] == pre[0]);
                if m[0].0@ != key {
                    Self::lemma_index_of_update_other(
                        pre.drop_first(),
                        m.drop_first(),
                        p - 1,
                        key,
                    );
                }
            }
        }
    }

    /// Appending a fresh key binds it and leaves every other key alone.
    proof fn lemma_lookup_push(self, pre: Seq<(String, u64)>, id: u64)
        requires
            self.file_map@.len() == pre.len() + 1,
            self.file_map@ == pre.push((self.file_map@[pre.len() as int].0, id)),
            forall|j: int| 0 <= j < pre.len() ==> pre[j].0@ != self.file_map@[pre.len() as int].0@,
        ensures
            index_of(self.file_map@, self.file_map@[pre.len() as int].0@) == Some(id),
            forall|key: Seq<char>|
                key != self.file_map@[pre.len() as int].0@ ==> index_of(self.file_map@, key)
                    == index_of(pre, key),
    {
        let m = self.file_map@;
        let n = pre.len() as int;
        let target = m[n].0@;
        lemma_index_of_skip(m, target, n);
        assert(m.skip(n)[0] == m[n]);
        assert(m.skip(n).len() == 1);
        assert(index_of(m.skip(n), target) == Some(id));
        assert forall|key: Seq<char>| key != target implies index_of(m, key) == index_of(
            pre,
            key,
        ) by {
            Self::lemma_index_of_push_other(pre, m[n], key);
        }
    }

    /// Lookup of a key other than the appended one ignores the new entry.
    proof fn lemma_index_of_push_other(pre: Seq<(String, u64)>, e: (String, u64), key: Seq<char>)
        requires
            key != e.0@,
        ensures
            index_of(pre.push(e), key) == index_of(pre, key),
        decreases pre.len(),
    {
        let m = pre.push(e);
        if pre.len() == 0 {
            assert(m[0] == e);
            assert(m.drop_first() =~= Seq::<(String, u64)>::empty());
            assert(index_of(m, key) == index_of(m.drop_first(), key));
        } else {
            assert(m[0] == pre[0]);
            if m[0].0@ != key {
                assert(m.drop_first() =~= pre.drop_first().push(e));
                Self::lemma_index_of_push_other(pre.drop_first(), e, key);
                assert(index_of(m, key) == index_of(m.drop_first(), key));
                assert(index_of(pre, key) == index_of(pre.drop_first(), key));
            } else {
                assert(index_of(m, key) == Some(m[0].1));
                assert(index_of(pre, key) == Some(pre[0].1));
            }
        }
    }
}

} // verus!
