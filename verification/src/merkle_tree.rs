//! A complete binary hash tree of fixed depth over the store's file
//! blobs. Every node carries a SHA-256 digest and a dirty flag; leaves
//! additionally carry an optional blob. Mutation marks the root-to-leaf
//! path dirty; `recompute_hashes` restores the digest invariant bottom-up,
//! touching only dirty nodes. Leaves are addressed by slot index, whose
//! bits choose the branch low bit first, starting at the root.

use vstd::prelude::*;

use crate::file::File;
use crate::hash::{sha256, sha256_of};
use crate::types::{hashes_view, MerkleData, Side};
use crate::{VaultError, MAX_DEPTH, MAX_FILE_ID};

verus! {

/// How many leaf slots a tree of the given depth has: 2^depth.
pub open spec fn slots(depth: nat) -> nat
    decreases depth,
{
    if depth == 0 {
        1
    } else {
        2 * slots((depth - 1) as nat)
    }
}

/// A tree of depth MAX_DEPTH has MAX_FILE_ID slots.
pub proof fn lemma_slots_depth()
    ensures
        slots(MAX_DEPTH as nat) == MAX_FILE_ID,
{
    reveal_with_fuel(slots, 9);
}

/// The body bytes a slot contributes to the tree's hashes: the blob's
/// body if the slot is occupied, nothing otherwise.
pub open spec fn body_of(f: Option<File>) -> Seq<u8> {
    match f {
        Some(file) => file@.body,
        None => Seq::<u8>::empty(),
    }
}

/// Restriction of a slot-to-body assignment to the even slots: the bodies
/// a root's left subtree is responsible for.
pub open spec fn even_half(f: spec_fn(nat) -> Seq<u8>) -> spec_fn(nat) -> Seq<u8> {
    |i: nat| f(2 * i)
}

/// Restriction of a slot-to-body assignment to the odd slots.
pub open spec fn odd_half(f: spec_fn(nat) -> Seq<u8>) -> spec_fn(nat) -> Seq<u8> {
    |i: nat| f(2 * i + 1)
}

/// The root digest a tree of the given depth commits to when slot `i`
/// holds body `f(i)`: a pure function of the slot bodies alone.
pub open spec fn merkle_root(depth: nat, f: spec_fn(nat) -> Seq<u8>) -> Seq<u8>
    decreases depth,
{
    if depth == 0 {
        sha256_of(f(0))
    } else {
        sha256_of(
            merkle_root((depth - 1) as nat, even_half(f)) + merkle_root(
                (depth - 1) as nat,
                odd_half(f),
            ),
        )
    }
}

/// The top hash is a pure function of the multiset of (slot, body) pairs:
/// two trees whose slots hold the same bodies commit to the same root
/// digest, whatever sequence of operations produced each.
pub proof fn lemma_top_hash_pure(depth: nat, f: spec_fn(nat) -> Seq<u8>, g: spec_fn(nat) -> Seq<u8>)
    requires
        forall|i: nat| i < slots(depth) ==> #[trigger] f(i) == g(i),
    ensures
        merkle_root(depth, f) == merkle_root(depth, g),
    decreases depth,
{
    if depth == 0 {
        assert(f(0) == g(0));
    } else {
        let dm1 = (depth - 1) as nat;
        assert forall|i: nat| i < slots(dm1) implies #[trigger] even_half(f)(i) == even_half(g)(
            i,
        ) by {
            assert(2 * i < slots(depth));
            assert(f(2 * i) == g(2 * i));
        }
        assert forall|i: nat| i < slots(dm1) implies #[trigger] odd_half(f)(i) == odd_half(g)(
            i,
        ) by {
            assert(2 * i + 1 < slots(depth));
            assert(f(2 * i + 1) == g(2 * i + 1));
        }
        lemma_top_hash_pure(dm1, even_half(f), even_half(g));
        lemma_top_hash_pure(dm1, odd_half(f), odd_half(g));
    }
}

/// Folding an inclusion proof: the digest list runs root-to-leaf, so the
/// running digest is built from the tail up and each entry's sibling is
/// then appended on the side it occupies (`Left` means the sibling stands
/// left of the running digest).
pub open spec fn fold_proof(leaf: Seq<u8>, hs: Seq<(Side, Seq<u8>)>) -> Seq<u8>
    decreases hs.len(),
{
    if hs.len() == 0 {
        leaf
    } else {
        let rest = fold_proof(leaf, hs.drop_first());
        match hs[0].0 {
            Side::Left => sha256_of(hs[0].1 + rest),
            Side::Right => sha256_of(rest + hs[0].1),
        }
    }
}

/// One node of the tree.
pub enum Node {
    Leaf { hash: Vec<u8>, data: Option<File>, dirty: bool },
    Branch { hash: Vec<u8>, left: Box<Node>, right: Box<Node>, dirty: bool },
}

impl Node {
    /// Levels below this node; 0 at a leaf.
    pub open spec fn height(self) -> nat
        decreases self,
    {
        match self {
            Node::Leaf { .. } => 0,
            Node::Branch { left, .. } => 1 + (*left).height(),
        }
    }

    /// The subtree is complete: both children of every branch have equal
    /// height.
    pub open spec fn shaped(self) -> bool
        decreases self,
    {
        match self {
            Node::Leaf { .. } => true,
            Node::Branch { left, right, .. } => (*left).shaped() && (*right).shaped() && (
            *left).height() == (*right).height(),
        }
    }

    /// This node's stored digest.
    pub open spec fn hash(self) -> Seq<u8> {
        match self {
            Node::Leaf { hash, .. } => hash@,
            Node::Branch { hash, .. } => hash@,
        }
    }

    /// This node's dirty flag.
    pub open spec fn dirty(self) -> bool {
        match self {
            Node::Leaf { dirty, .. } => dirty,
            Node::Branch { dirty, .. } => dirty,
        }
    }

    /// The blob in the slot reached by following the bits of `id`, lowest
    /// bit first: an even id descends left.
    pub open spec fn file_at(self, id: nat) -> Option<File>
        decreases self,
    {
        match self {
            Node::Leaf { data, .. } => data,
            Node::Branch { left, right, .. } => if id % 2 == 0 {
                (*left).file_at(id / 2)
            } else {
                (*right).file_at(id / 2)
            },
        }
    }

    /// The body bytes slot `id` contributes to the hashes.
    pub open spec fn body_at(self, id: nat) -> Seq<u8> {
        body_of(self.file_at(id))
    }

    /// The slot-to-body assignment of the whole subtree.
    pub open spec fn bodies(self) -> spec_fn(nat) -> Seq<u8> {
        |i: nat| self.body_at(i)
    }

    /// Every blob in the subtree satisfies its own invariant.
    pub open spec fn files_ok(self) -> bool
        decreases self,
    {
        match self {
            Node::Leaf { data, .. } => match data {
                Some(f) => f.wf(),
                None => true,
            },
            Node::Branch { left, right, .. } => (*left).files_ok() && (*right).files_ok(),
        }
    }

    /// The digest invariant, relative to the dirty flags: a clean node's
    /// digest is correct and everything below a clean node is clean, so a
    /// dirty descendant always has a dirty path up to the root.
    pub open spec fn hashes_ok(self) -> bool
        decreases self,
    {
        match self {
            Node::Leaf { hash, data, dirty } => !dirty ==> hash@ == sha256_of(body_of(data)),
            Node::Branch { hash, left, right, dirty } => (*left).hashes_ok() && (
            *right).hashes_ok() && (!dirty ==> !(*left).dirty() && !(*right).dirty() && hash@
                == sha256_of((*left).hash() + (*right).hash())),
        }
    }

    /// The stored digest of this node, by reference.
    pub fn hash_bytes(&self) -> (r: &Vec<u8>)
        ensures
            r@ == self.hash(),
    {
        match self {
            Node::Leaf { hash, .. } => hash,
            Node::Branch { hash, .. } => hash,
        }
    }

    /// Build a fully empty, fully clean subtree of the given depth.
    pub fn rec_create_nodes(depth: usize) -> (n: Node)
        ensures
            n.shaped(),
            n.height() == depth as nat,
            n.files_ok(),
            n.hashes_ok(),
            !n.dirty(),
            forall|i: nat| n.file_at(i) is None,
        decreases depth,
    {
        if depth == 0 {
            let empty: Vec<u8> = Vec::new();
            Node::Leaf { hash: sha256(empty.as_slice()), data: None, dirty: false }
        } else {
            let left = Node::rec_create_nodes(depth - 1);
            let right = Node::rec_create_nodes(depth - 1);
            let mut concat = left.hash_bytes().clone();
            let mut right_hash = right.hash_bytes().clone();
            proof {
                assert(concat@ == left.hash());
                assert(right_hash@ == right.hash());
            }
            concat.append(&mut right_hash);
            let hash = sha256(concat.as_slice());
            let ghost gl = left;
            let ghost gr = right;
            let result = Node::Branch {
                hash,
                left: Box::new(left),
                right: Box::new(right),
                dirty: false,
            };
            proof {
                assert forall|i: nat| result.file_at(i) is None by {
                    if i % 2 == 0 {
                        assert(gl.file_at(i / 2) is None);
                    } else {
                        assert(gr.file_at(i / 2) is None);
                    }
                }
            }
            result
        }
    }

    /// Replace the blob in slot `id`, marking the whole path from the
    /// root down to that leaf dirty. Digests are left stale until the
    /// next recomputation.
    pub fn with_file(self, id: u64, file: File) -> (r: Node)
        requires
            self.shaped(),
            self.files_ok(),
            self.hashes_ok(),
            file.wf(),
            (id as nat) < slots(self.height()),
        ensures
            r.shaped(),
            r.height() == self.height(),
            r.files_ok(),
            r.hashes_ok(),
            r.file_at(id as nat) == Some(file),
            forall|j: nat|
                j < slots(self.height()) && j != id as nat ==> r.file_at(j) == self.file_at(j),
        decreases self,
    {
        let ghost orig = self;
        match self {
            Node::Leaf { hash, .. } => Node::Leaf { hash, data: Some(file), dirty: true },
            Node::Branch { hash, left, right, dirty } => {
                let ghost gl = *left;
                let ghost gr = *right;
                let ghost hm1 = gl.height();
                if id % 2 == 0 {
                    let nl = (*left).with_file(id / 2, file);
                    let ghost gnl = nl;
                    let result = Node::Branch { hash, left: Box::new(nl), right, dirty: true };
                    proof {
                        assert forall|j: nat|
                            j < slots(orig.height()) && j != id as nat implies #[trigger]
                        result.file_at(j) == orig.file_at(j) by {
                            assert(j / 2 < slots(hm1));
                            if j % 2 == 0 {
                                assert(result.file_at(j) == gnl.file_at(j / 2));
                                assert(orig.file_at(j) == gl.file_at(j / 2));
                                assert(j / 2 != id as nat / 2);
                            } else {
                                assert(result.file_at(j) == gr.file_at(j / 2));
                                assert(orig.file_at(j) == gr.file_at(j / 2));
                            }
                        }
                        assert(result.file_at(id as nat) == gnl.file_at(id as nat / 2));
                    }
                    result
                } else {
                    let nr = (*right).with_file(id / 2, file);
                    let ghost gnr = nr;
                    let result = Node::Branch { hash, left, right: Box::new(nr), dirty: true };
                    proof {
                        assert forall|j: nat|
                            j < slots(orig.height()) && j != id as nat implies #[trigger]
                        result.file_at(j) == orig.file_at(j) by {
                            assert(j / 2 < slots(hm1));
                            if j % 2 == 1 {
                                assert(result.file_at(j) == gnr.file_at(j / 2));
                                assert(orig.file_at(j) == gr.file_at(j / 2));
                                assert(j / 2 != id as nat / 2);
                            } else {
                                assert(result.file_at(j) == gl.file_at(j / 2));
                                assert(orig.file_at(j) == gl.file_at(j / 2));
                            }
                        }
                        assert(result.file_at(id as nat) == gnr.file_at(id as nat / 2));
                    }
                    result
                }
            },
        }
    }

    /// Restore the digest invariant: recompute the digest of every dirty
    /// node from its children (or its blob) and clear the flags. Blobs
    /// and tree shape are untouched.
    pub fn recomputed(self) -> (r: Node)
        requires
            self.shaped(),
            self.files_ok(),
            self.hashes_ok(),
        ensures
            r.shaped(),
            r.height() == self.height(),
            r.files_ok(),
            r.hashes_ok(),
            !r.dirty(),
            forall|i: nat| #[trigger] r.file_at(i) == self.file_at(i),
        decreases self,
    {
        let ghost orig = self;
        match self {
            Node::Leaf { hash, data, dirty } => {
                if dirty {
                    let new_hash = match &data {
                        Some(f) => f.body_digest().clone(),
                        None => {
                            let empty: Vec<u8> = Vec::new();
                            sha256(empty.as_slice())
                        },
                    };
                    Node::Leaf { hash: new_hash, data, dirty: false }
                } else {
                    Node::Leaf { hash, data, dirty }
                }
            },
            Node::Branch { hash, left, right, dirty } => {
                if dirty {
                    let nl = (*left).recomputed();
                    let nr = (*right).recomputed();
                    let mut concat = nl.hash_bytes().clone();
                    let mut right_hash = nr.hash_bytes().clone();
                    concat.append(&mut right_hash);
                    let new_hash = sha256(concat.as_slice());
                    let ghost gl = nl;
                    let ghost gr = nr;
                    let ghost ol = *left;
                    let ghost or = *right;
                    let result = Node::Branch {
                        hash: new_hash,
                        left: Box::new(nl),
                        right: Box::new(nr),
                        dirty: false,
                    };
                    proof {
                        assert forall|i: nat| #[trigger] result.file_at(i) == orig.file_at(i) by {
                            if i % 2 == 0 {
                                assert(gl.file_at(i / 2) == ol.file_at(i / 2));
                            } else {
                                assert(gr.file_at(i / 2) == or.file_at(i / 2));
                            }
                        }
                    }
                    result
                } else {
                    Node::Branch { hash, left, right, dirty }
                }
            },
        }
    }

    /// Collect the sibling digest of every node on the path from this
    /// node down to slot `id`, root level first, each tagged with the
    /// side it occupies next to the path. On a clean subtree the list
    /// folds from the slot's leaf digest back up to this node's digest.
    pub fn get_hashes_for_file(&self, id: u64) -> (v: Vec<(Side, Vec<u8>)>)
        requires
            self.shaped(),
            self.hashes_ok(),
            !self.dirty(),
            (id as nat) < slots(self.height()),
        ensures
            v@.len() == self.height(),
            fold_proof(sha256_of(self.body_at(id as nat)), hashes_view(v@)) == self.hash(),
        decreases self.height(),
    {
        match self {
            Node::Leaf { .. } => Vec::new(),
            Node::Branch { left, right, .. } => {
                if id % 2 == 0 {
                    let mut v = left.get_hashes_for_file(id / 2);
                    let ghost sub = v@;
                    v.insert(0, (Side::Right, right.hash_bytes().clone()));
                    proof {
                        assert(hashes_view(v@)[0].0 == Side::Right);
                        assert(hashes_view(v@)[0].1 == (*right).hash());
                        assert(hashes_view(v@).drop_first() =~= hashes_view(sub));
                        assert(self.body_at(id as nat) == (*left).body_at(id as nat / 2));
                    }
                    v
                } else {
                    let mut v = right.get_hashes_for_file(id / 2);
                    let ghost sub = v@;
                    v.insert(0, (Side::Left, left.hash_bytes().clone()));
                    proof {
                        assert(hashes_view(v@)[0].0 == Side::Left);
                        assert(hashes_view(v@)[0].1 == (*left).hash());
                        assert(hashes_view(v@).drop_first() =~= hashes_view(sub));
                        assert(self.body_at(id as nat) == (*right).body_at(id as nat / 2));
                    }
                    v
                }
            },
        }
    }

    /// Recompute every digest from scratch, dirty or not: the heavyweight
    /// cousin of [`Node::recomputed`], ending in the same state — every
    /// flag clear and every digest correct.
    pub fn recompute_hash_full(self) -> (r: Node)
        requires
            self.shaped(),
            self.files_ok(),
        ensures
            r.shaped(),
            r.height() == self.height(),
            r.files_ok(),
            r.hashes_ok(),
            !r.dirty(),
            forall|i: nat| #[trigger] r.file_at(i) == self.file_at(i),
        decreases self,
    {
        let ghost orig = self;
        match self {
            Node::Leaf { hash, data, dirty } => {
                let new_hash = match &data {
                    Some(f) => f.body_digest().clone(),
                    None => {
                        let empty: Vec<u8> = Vec::new();
                        sha256(empty.as_slice())
                    },
                };
                Node::Leaf { hash: new_hash, data, dirty: false }
            },
            Node::Branch { hash, left, right, dirty } => {
                let nl = (*left).recompute_hash_full();
                let nr = (*right).recompute_hash_full();
                let mut concat = nl.hash_bytes().clone();
                let mut right_hash = nr.hash_bytes().clone();
                concat.append(&mut right_hash);
                let new_hash = sha256(concat.as_slice());
                let ghost gl = nl;
                let ghost gr = nr;
                let ghost ol = *left;
                let ghost or = *right;
                let result = Node::Branch {
                    hash: new_hash,
                    left: Box::new(nl),
                    right: Box::new(nr),
                    dirty: false,
                };
                proof {
                    assert forall|i: nat| #[trigger] result.file_at(i) == orig.file_at(i) by {
                        if i % 2 == 0 {
                            assert(gl.file_at(i / 2) == ol.file_at(i / 2));
                        } else {
                            assert(gr.file_at(i / 2) == or.file_at(i / 2));
                        }
                    }
                }
                result
            },
        }
    }

    /// Evict the body of the blob in slot `id`, if any, handing the bytes
    /// out for persistence. Digests and dirty flags are untouched:
    /// eviction does not change what the tree commits to.
    pub fn with_evicted(self, id: u64) -> (r: (Node, Option<Vec<u8>>))
        requires
            self.shaped(),
            self.files_ok(),
            self.hashes_ok(),
            (id as nat) < slots(self.height()),
        ensures
            r.0.shaped(),
            r.0.height() == self.height(),
            r.0.files_ok(),
            r.0.hashes_ok(),
            r.0.dirty() == self.dirty(),
            r.0.hash() == self.hash(),
            forall|j: nat|
                j < slots(self.height()) && j != id as nat ==> r.0.file_at(j) == self.file_at(j),
            self.file_at(id as nat) is None ==> r.0.file_at(id as nat) is None && r.1 is None,
            self.file_at(id as nat) matches Some(f) ==> (r.0.file_at(id as nat) matches Some(f2)
                && f2.wf() && f2@ == crate::file::evicted(f@)) && (f@.resident ==> (r.1 matches Some(
                b,
            ) && b@ == f@.body)) && (!f@.resident ==> r.1 is None),
        decreases self,
    {
        let ghost orig = self;
        match self {
            Node::Leaf { hash, data, dirty } => {
                match data {
                    Some(mut f) => {
                        let bytes = f.evict();
                        (Node::Leaf { hash, data: Some(f), dirty }, bytes)
                    },
                    None => (Node::Leaf { hash, data: None, dirty }, None),
                }
            },
            Node::Branch { hash, left, right, dirty } => {
                let ghost gl = *left;
                let ghost gr = *right;
                let ghost hm1 = gl.height();
                if id % 2 == 0 {
                    let (nl, bytes) = (*left).with_evicted(id / 2);
                    let ghost gnl = nl;
                    let result = Node::Branch { hash, left: Box::new(nl), right, dirty };
                    proof {
                        assert forall|j: nat|
                            j < slots(orig.height()) && j != id as nat implies #[trigger]
                        result.file_at(j) == orig.file_at(j) by {
                            assert(j / 2 < slots(hm1));
                            if j % 2 == 0 {
                                assert(result.file_at(j) == gnl.file_at(j / 2));
                                assert(orig.file_at(j) == gl.file_at(j / 2));
                                assert(j / 2 != id as nat / 2);
                            } else {
                                assert(result.file_at(j) == gr.file_at(j / 2));
                                assert(orig.file_at(j) == gr.file_at(j / 2));
                            }
                        }
                        assert(result.file_at(id as nat) == gnl.file_at(id as nat / 2));
                        assert(orig.file_at(id as nat) == gl.file_at(id as nat / 2));
                    }
                    (result, bytes)
                } else {
                    let (nr, bytes) = (*right).with_evicted(id / 2);
                    let ghost gnr = nr;
                    let result = Node::Branch { hash, left, right: Box::new(nr), dirty };
                    proof {
                        assert forall|j: nat|
                            j < slots(orig.height()) && j != id as nat implies #[trigger]
                        result.file_at(j) == orig.file_at(j) by {
                            assert(j / 2 < slots(hm1));
                            if j % 2 == 1 {
                                assert(result.file_at(j) == gnr.file_at(j / 2));
                                assert(orig.file_at(j) == gr.file_at(j / 2));
                                assert(j / 2 != id as nat / 2);
                            } else {
                                assert(result.file_at(j) == gl.file_at(j / 2));
                                assert(orig.file_at(j) == gl.file_at(j / 2));
                            }
                        }
                        assert(result.file_at(id as nat) == gnr.file_at(id as nat / 2));
                        assert(orig.file_at(id as nat) == gr.file_at(id as nat / 2));
                    }
                    (result, bytes)
                }
            },
        }
    }

    /// Hand an evicted body back to the blob in slot `id`. The bytes are
    /// accepted only if they match the digest recorded when the blob was
    /// created; a mismatch is a persistence failure and changes nothing.
    /// Digests and dirty flags are untouched either way.
    pub fn with_loaded(self, id: u64, bytes: Vec<u8>) -> (r: (Node, Result<(), VaultError>))
        requires
            self.shaped(),
            self.files_ok(),
            self.hashes_ok(),
            (id as nat) < slots(self.height()),
        ensures
            r.0.shaped(),
            r.0.height() == self.height(),
            r.0.files_ok(),
            r.0.hashes_ok(),
            r.0.dirty() == self.dirty(),
            r.0.hash() == self.hash(),
            forall|j: nat|
                j < slots(self.height()) && j != id as nat ==> r.0.file_at(j) == self.file_at(j),
            self.file_at(id as nat) is None ==> r.0.file_at(id as nat) is None && r.1
                == Err::<(), VaultError>(VaultError::NotFound),
            self.file_at(id as nat) matches Some(f) ==> {
                &&& f@.resident ==> r.1 == Ok::<(), VaultError>(()) && r.0.file_at(id as nat)
                    == Some(f)
                &&& !f@.resident && sha256_of(bytes@) == sha256_of(f@.body) && bytes@.len()
                    == f@.body.len() ==> r.1 == Ok::<(), VaultError>(()) && (r.0.file_at(id as nat)
                    matches Some(f2) && f2.wf() && f2@ == crate::file::reloaded(f@, bytes@))
                &&& !f@.resident && !(sha256_of(bytes@) == sha256_of(f@.body) && bytes@.len()
                    == f@.body.len()) ==> r.1 == Err::<(), VaultError>(VaultError::IoError)
                    && r.0.file_at(id as nat) == Some(f)
            },
        decreases self,
    {
        let ghost orig = self;
        match self {
            Node::Leaf { hash, data, dirty } => {
                match data {
                    Some(mut f) => {
                        let outcome = f.load(bytes);
                        (Node::Leaf { hash, data: Some(f), dirty }, outcome)
                    },
                    None => (
                        Node::Leaf { hash, data: None, dirty },
                        Err(VaultError::NotFound),
                    ),
                }
            },
            Node::Branch { hash, left, right, dirty } => {
                let ghost gl = *left;
                let ghost gr = *right;
                let ghost hm1 = gl.height();
                if id % 2 == 0 {
                    let (nl, outcome) = (*left).with_loaded(id / 2, bytes);
                    let ghost gnl = nl;
                    let result = Node::Branch { hash, left: Box::new(nl), right, dirty };
                    proof {
                        assert forall|j: nat|
                            j < slots(orig.height()) && j != id as nat implies #[trigger]
                        result.file_at(j) == orig.file_at(j) by {
                            assert(j / 2 < slots(hm1));
                            if j % 2 == 0 {
                                assert(result.file_at(j) == gnl.file_at(j / 2));
                                assert(orig.file_at(j) == gl.file_at(j / 2));
                                assert(j / 2 != id as nat / 2);
                            } else {
                                assert(result.file_at(j) == gr.file_at(j / 2));
                                assert(orig.file_at(j) == gr.file_at(j / 2));
                            }
                        }
                        assert(result.file_at(id as nat) == gnl.file_at(id as nat / 2));
                        assert(orig.file_at(id as nat) == gl.file_at(id as nat / 2));
                    }
                    (result, outcome)
                } else {
                    let (nr, outcome) = (*right).with_loaded(id / 2, bytes);
                    let ghost gnr = nr;
                    let result = Node::Branch { hash, left, right: Box::new(nr), dirty };
                    proof {
                        assert forall|j: nat|
                            j < slots(orig.height()) && j != id as nat implies #[trigger]
                        result.file_at(j) == orig.file_at(j) by {
                            assert(j / 2 < slots(hm1));
                            if j % 2 == 1 {
                                assert(result.file_at(j) == gnr.file_at(j / 2));
                                assert(orig.file_at(j) == gr.file_at(j / 2));
                                assert(j / 2 != id as nat / 2);
                            } else {
                                assert(result.file_at(j) == gl.file_at(j / 2));
                                assert(orig.file_at(j) == gl.file_at(j / 2));
                            }
                        }
                        assert(result.file_at(id as nat) == gnr.file_at(id as nat / 2));
                        assert(orig.file_at(id as nat) == gr.file_at(id as nat / 2));
                    }
                    (result, outcome)
                }
            },
        }
    }

    /// Read the slot reached by the bits of `id`, without dirtying.
    pub fn get_file(&self, id: u64) -> (r: &Option<File>)
        requires
            self.shaped(),
            (id as nat) < slots(self.height()),
        ensures
            *r == self.file_at(id as nat),
        decreases self.height(),
    {
        match self {
            Node::Leaf { data, .. } => data,
            Node::Branch { left, right, .. } => {
                if id % 2 == 0 {
                    left.get_file(id / 2)
                } else {
                    right.get_file(id / 2)
                }
            },
        }
    }
}

/// The store's fixed-depth hash tree.
pub struct MerkleTree {
    root: Node,
}

impl MerkleTree {
    /// The tree's structural invariant: complete shape at depth
    /// MAX_DEPTH, well-formed blobs, and the digest/dirty discipline.
    pub closed spec fn wf(self) -> bool {
        &&& self.root.shaped()
        &&& self.root.height() == MAX_DEPTH as nat
        &&& self.root.files_ok()
        &&& self.root.hashes_ok()
    }

    /// No digest is stale: the tree is fit to serve its top hash and
    /// inclusion proofs.
    pub closed spec fn clean(self) -> bool {
        !self.root.dirty()
    }

    /// The blob in slot `id`.
    pub closed spec fn spec_file(self, id: nat) -> Option<File> {
        self.root.file_at(id)
    }

    /// The body bytes slot `id` contributes to the tree's hashes.
    pub open spec fn spec_body(self, id: nat) -> Seq<u8> {
        body_of(self.spec_file(id))
    }

    /// The slot-to-body assignment of the whole tree.
    pub open spec fn spec_bodies(self) -> spec_fn(nat) -> Seq<u8> {
        |i: nat| self.spec_body(i)
    }

    /// The root digest.
    pub closed spec fn top(self) -> Seq<u8> {
        self.root.hash()
    }

    /// Build the empty tree: every slot vacant, every digest already
    /// correct.
    pub fn new() -> (t: Self)
        ensures
            t.wf(),
            t.clean(),
            forall|i: nat| t.spec_file(i) is None,
            t.top() == merkle_root(MAX_DEPTH as nat, t.spec_bodies()),
    {
        let t = MerkleTree { root: Node::rec_create_nodes(MAX_DEPTH) };
        proof {
            lemma_clean_hash_is_root(t.root);
            assert(t.spec_bodies() =~= t.root.bodies());
        }
        t
    }

    /// The root digest. After recomputation it is exactly the pure
    /// Merkle root of the slot bodies.
    pub fn top_hash(&self) -> (r: &Vec<u8>)
        requires
            self.wf(),
        ensures
            r@ == self.top(),
            self.clean() ==> r@ == merkle_root(MAX_DEPTH as nat, self.spec_bodies()),
    {
        proof {
            if self.clean() {
                lemma_clean_hash_is_root(self.root);
                assert(self.spec_bodies() =~= self.root.bodies());
            }
        }
        self.root.hash_bytes()
    }

    /// The root digest as a plain byte slice.
    pub fn get_root_hash(&self) -> (r: &[u8])
        requires
            self.wf(),
        ensures
            r@ == self.top(),
            self.clean() ==> r@ == merkle_root(MAX_DEPTH as nat, self.spec_bodies()),
    {
        self.top_hash().as_slice()
    }

    /// Read slot `id` without dirtying anything.
    pub fn get_file(&self, id: u64) -> (r: &Option<File>)
        requires
            self.wf(),
            id < MAX_FILE_ID,
        ensures
            *r == self.spec_file(id as nat),
    {
        proof {
            lemma_slots_depth();
        }
        self.root.get_file(id)
    }

    /// Put a blob into slot `id`, dirtying the path above it. The tree
    /// stops being clean until the next recomputation.
    pub fn set_file(&mut self, id: u64, file: File)
        requires
            old(self).wf(),
            id < MAX_FILE_ID,
            file.wf(),
        ensures
            final(self).wf(),
            final(self).spec_file(id as nat) == Some(file),
            forall|j: nat|
                j < MAX_FILE_ID && j != id as nat ==> final(self).spec_file(j) == old(self).spec_file(j),
    {
        proof {
            lemma_slots_depth();
        }
        let mut root = Node::Leaf { hash: Vec::new(), data: None, dirty: true };
        core::mem::swap(&mut root, &mut self.root);
        self.root = root.with_file(id, file);
    }

    /// Recompute every stale digest. Afterwards the top hash is the pure
    /// Merkle root of the slot bodies — a function of the slot contents
    /// alone, whatever order of operations produced them.
    pub fn recompute_hashes(&mut self)
        requires
            old(self).wf(),
        ensures
            final(self).wf(),
            final(self).clean(),
            forall|j: nat| #[trigger] final(self).spec_file(j) == old(self).spec_file(j),
            final(self).top() == merkle_root(MAX_DEPTH as nat, final(self).spec_bodies()),
            final(self).top() == merkle_root(MAX_DEPTH as nat, old(self).spec_bodies()),
    {
        let mut root = Node::Leaf { hash: Vec::new(), data: None, dirty: true };
        core::mem::swap(&mut root, &mut self.root);
        self.root = root.recomputed();
        proof {
            lemma_clean_hash_is_root(self.root);
            assert(self.spec_bodies() =~= self.root.bodies());
            assert(old(self).spec_bodies() =~= self.spec_bodies());
        }
    }

    /// Assemble the inclusion proof for slot `id`: the top hash and the
    /// sibling digests root-to-leaf. Folding the proof from the slot's
    /// body digest reproduces the top hash — for occupied and for empty
    /// slots alike.
    pub fn get_merkle_data_for_file(&self, id: u64) -> (r: MerkleData)
        requires
            self.wf(),
            self.clean(),
            id < MAX_FILE_ID,
        ensures
            r@.top_hash == self.top(),
            r@.hashes.len() == MAX_DEPTH,
            fold_proof(sha256_of(self.spec_body(id as nat)), r@.hashes) == self.top(),
    {
        proof {
            lemma_slots_depth();
        }
        let hashes = self.root.get_hashes_for_file(id);
        MerkleData { top_hash: self.root.hash_bytes().clone(), hashes }
    }

    /// Evict the body of the blob in slot `id`, handing the bytes out for
    /// persistence. Digests are untouched: the tree still commits to the
    /// same contents.
    pub fn evict_file(&mut self, id: u64) -> (r: Option<Vec<u8>>)
        requires
            old(self).wf(),
            id < MAX_FILE_ID,
        ensures
            final(self).wf(),
            final(self).clean() == old(self).clean(),
            final(self).top() == old(self).top(),
            forall|j: nat|
                j < MAX_FILE_ID && j != id as nat ==> final(self).spec_file(j) == old(self).spec_file(j),
            old(self).spec_file(id as nat) is None ==> final(self).spec_file(id as nat) is None
                && r is None,
            old(self).spec_file(id as nat) matches Some(f) ==> (final(self).spec_file(id as nat)
                matches Some(f2) && f2.wf() && f2@ == crate::file::evicted(f@)) && (f@.resident
                ==> (r matches Some(b) && b@ == f@.body)) && (!f@.resident ==> r is None),
    {
        proof {
            lemma_slots_depth();
        }
        let mut root = Node::Leaf { hash: Vec::new(), data: None, dirty: true };
        core::mem::swap(&mut root, &mut self.root);
        let (new_root, bytes) = root.with_evicted(id);
        self.root = new_root;
        bytes
    }

    /// Hand an evicted body back to the blob in slot `id`; accepted only
    /// if the bytes still match the digest recorded at creation.
    pub fn load_file(&mut self, id: u64, bytes: Vec<u8>) -> (r: Result<(), VaultError>)
        requires
            old(self).wf(),
            id < MAX_FILE_ID,
        ensures
            final(self).wf(),
            final(self).clean() == old(self).clean(),
            final(self).top() == old(self).top(),
            forall|j: nat|
                j < MAX_FILE_ID && j != id as nat ==> final(self).spec_file(j) == old(self).spec_file(j),
            old(self).spec_file(id as nat) is None ==> final(self).spec_file(id as nat) is None
                && r == Err::<(), VaultError>(VaultError::NotFound),
            old(self).spec_file(id as nat) matches Some(f) ==> {
                &&& f@.resident ==> r == Ok::<(), VaultError>(()) && final(self).spec_file(id as nat) == Some(f)
                &&& !f@.resident && sha256_of(bytes@) == sha256_of(f@.body) && bytes@.len()
                    == f@.body.len() ==> r == Ok::<(), VaultError>(()) && (final(self).spec_file(id as nat) matches Some(f2) && f2.wf() && f2@ == crate::file::reloaded(f@, bytes@))
                &&& !f@.resident && !(sha256_of(bytes@) == sha256_of(f@.body) && bytes@.len()
                    == f@.body.len()) ==> r == Err::<(), VaultError>(VaultError::IoError) && final(self).spec_file(id as nat) == Some(f)
            },
    {
        proof {
            lemma_slots_depth();
        }
        let mut root = Node::Leaf { hash: Vec::new(), data: None, dirty: true };
        core::mem::swap(&mut root, &mut self.root);
        let (new_root, outcome) = root.with_loaded(id, bytes);
        self.root = new_root;
        outcome
    }
}

impl Default for MerkleTree {
    fn default() -> (t: MerkleTree)
        ensures
            t.wf(),
            t.clean(),
            forall|i: nat| t.spec_file(i) is None,
    {
        MerkleTree::new()
    }
}

/// Fold an inclusion proof's digest list, last entry (the leaf's sibling)
/// first, exactly as [`fold_proof`] describes: the verifier's side of the
/// proof check.
pub fn fold_proof_hashes(leaf_hash: Vec<u8>, hashes: &Vec<(Side, Vec<u8>)>) -> (r: Vec<u8>)
    ensures
        r@ == fold_proof(leaf_hash@, hashes_view(hashes@)),
{
    let ghost lh = leaf_hash@;
    let mut acc = leaf_hash;
    let mut i: usize = hashes.len();
    while i > 0
        invariant
            i <= hashes.len(),
            acc@ == fold_proof(lh, hashes_view(hashes@).skip(i as int)),
        decreases i,
    {
        i = i - 1;
        let side = hashes[i].0;
        let mut concat: Vec<u8>;
        match side {
            Side::Left => {
                concat = hashes[i].1.clone();
                concat.append(&mut acc);
            },
            Side::Right => {
                let mut sibling = hashes[i].1.clone();
                concat = acc;
                concat.append(&mut sibling);
            },
        }
        acc = sha256(concat.as_slice());
        proof {
            let hv = hashes_view(hashes@);
            assert(hv.skip(i as int)[0] == hv[i as int]);
            assert(hv.skip(i as int).drop_first() =~= hv.skip(i as int + 1));
        }
    }
    proof {
        assert(hashes_view(hashes@).skip(0) =~= hashes_view(hashes@));
    }
    acc
}

/// A clean, invariant-respecting subtree's digest is exactly the pure
/// Merkle root of its slot bodies.
pub proof fn lemma_clean_hash_is_root(n: Node)
    requires
        n.shaped(),
        n.hashes_ok(),
        !n.dirty(),
    ensures
        n.hash() == merkle_root(n.height(), n.bodies()),
    decreases n,
{
    match n {
        Node::Leaf { hash, data, dirty } => {
            assert(n.bodies()(0) == body_of(data));
        },
        Node::Branch { hash, left, right, dirty } => {
            lemma_clean_hash_is_root(*left);
            lemma_clean_hash_is_root(*right);
            let hm1 = (*left).height();
            assert forall|i: nat| #[trigger]
                even_half(n.bodies())(i) == (*left).bodies()(i) by {
                assert(n.file_at(2 * i) == (*left).file_at((2 * i) / 2));
                assert((2 * i) / 2 == i);
            }
            assert forall|i: nat| #[trigger]
                odd_half(n.bodies())(i) == (*right).bodies()(i) by {
                assert(n.file_at(2 * i + 1) == (*right).file_at((2 * i + 1) / 2));
                assert((2 * i + 1) / 2 == i);
            }
            assert(even_half(n.bodies()) =~= (*left).bodies());
            assert(odd_half(n.bodies()) =~= (*right).bodies());
            assert(merkle_root(n.height(), n.bodies()) == sha256_of(
                merkle_root(hm1, even_half(n.bodies())) + merkle_root(hm1, odd_half(n.bodies())),
            ));
        },
    }
}

} // verus!
