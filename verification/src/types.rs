//! The wire-level records exchanged between clients and the store.

use vstd::prelude::*;

verus! {

/// The envelope a client uploads for one file. The server treats every
/// field as opaque; only `name_hash` is used, as the lookup key.
pub struct FileData {
    /// AEAD nonce under which `name` was encrypted.
    pub name_nonce: [u8; 12],
    /// Ciphertext of the file's display name.
    pub name: Vec<u8>,
    /// Deterministic digest of (user secret, plaintext name); the lookup key.
    pub name_hash: String,
    /// AEAD nonce under which `contents` was encrypted.
    pub nonce: [u8; 12],
    /// AEAD ciphertext of the file body.
    pub contents: Vec<u8>,
    /// Detached signature over (plaintext body ++ plaintext name).
    pub signature: Vec<u8>,
}

/// Mathematical image of a [`FileData`]: every field as a sequence.
pub struct FileDataView {
    pub name_nonce: Seq<u8>,
    pub name: Seq<u8>,
    pub name_hash: Seq<char>,
    pub nonce: Seq<u8>,
    pub contents: Seq<u8>,
    pub signature: Seq<u8>,
}

impl View for FileData {
    type V = FileDataView;

    open spec fn view(&self) -> FileDataView {
        FileDataView {
            name_nonce: self.name_nonce@,
            name: self.name@,
            name_hash: self.name_hash@,
            nonce: self.nonce@,
            contents: self.contents@,
            signature: self.signature@,
        }
    }
}

impl Clone for FileData {
    fn clone(&self) -> (r: Self)
        ensures
            r@ == self@,
    {
        let r = FileData {
            name_nonce: self.name_nonce,
            name: self.name.clone(),
            name_hash: self.name_hash.clone(),
            nonce: self.nonce,
            contents: self.contents.clone(),
            signature: self.signature.clone(),
        };
        proof {
            assert(r@.name =~= self@.name);
            assert(r@.contents =~= self@.contents);
            assert(r@.signature =~= self@.signature);
            assert(r@ == self@);
        }
        r
    }
}

/// A retrieval request: the name hash to look up.
pub struct FileInfo {
    pub name_hash: String,
}

impl View for FileInfo {
    type V = Seq<char>;

    open spec fn view(&self) -> Seq<char> {
        self.name_hash@
    }
}

/// An account-creation request.
pub struct CreateInfo {
    pub name: String,
    pub password: String,
}

/// A login request.
pub struct LoginInfo {
    pub name: String,
    pub password: String,
}

/// The listing response: the store's current top hash and one entry per
/// indexed file, none of which requires loading a body.
pub struct FileList {
    pub top_hash: Vec<u8>,
    pub list: Vec<FileListEntry>,
}

/// One row of the listing: enough for a client to show the (decrypted)
/// name and size without pulling the body.
pub struct FileListEntry {
    pub name_hash: String,
    pub nonce: [u8; 12],
    pub name: Vec<u8>,
    pub name_nonce: [u8; 12],
    pub size: usize,
}

/// Mathematical image of a [`FileListEntry`].
pub struct FileListEntryView {
    pub name_hash: Seq<char>,
    pub nonce: Seq<u8>,
    pub name: Seq<u8>,
    pub name_nonce: Seq<u8>,
    pub size: nat,
}

impl View for FileListEntry {
    type V = FileListEntryView;

    open spec fn view(&self) -> FileListEntryView {
        FileListEntryView {
            name_hash: self.name_hash@,
            nonce: self.nonce@,
            name: self.name@,
            name_nonce: self.name_nonce@,
            size: self.size as nat,
        }
    }
}

/// Which side of the running digest a proof step's sibling hash occupies.
#[derive(Clone, Copy, Debug, PartialEq, Eq, Structural)]
pub enum Side {
    Left,
    Right,
}

/// An inclusion proof: the sibling digest of every node on the path from
/// the root down to a leaf, together with the top hash the proof folds to.
pub struct MerkleData {
    pub top_hash: Vec<u8>,
    pub hashes: Vec<(Side, Vec<u8>)>,
}

/// Mathematical image of a [`MerkleData`].
#[verifier::ext_equal]
pub struct MerkleDataView {
    pub top_hash: Seq<u8>,
    pub hashes: Seq<(Side, Seq<u8>)>,
}

/// The mathematical image of a proof's sibling-hash list: each digest as a
/// sequence.
pub open spec fn hashes_view(s: Seq<(Side, Vec<u8>)>) -> Seq<(Side, Seq<u8>)> {
    s.map_values(|p: (Side, Vec<u8>)| (p.0, p.1@))
}

impl View for MerkleData {
    type V = MerkleDataView;

    open spec fn view(&self) -> MerkleDataView {
        MerkleDataView { top_hash: self.top_hash@, hashes: hashes_view(self.hashes@) }
    }
}

} // verus!
