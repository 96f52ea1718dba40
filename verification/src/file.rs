//! A stored blob with a two-tier body: the envelope's non-body fields are
//! always held in memory, while the body either sits in memory too or has
//! been evicted to a file that the surrounding program manages. The blob
//! remembers the body's digest and length, so eviction never invalidates
//! the Merkle tree above it, and a body handed back at load time is
//! accepted only if it still matches that digest.

use vstd::prelude::*;

use crate::hash::{bytes_eq, sha256, sha256_of};
use crate::types::{FileData, FileDataView};
use crate::VaultError;

verus! {

/// The non-body fields kept in memory while the body lives on disk at a
/// path the caller derives from `name_hash`.
pub struct PersistentFile {
    pub name_nonce: [u8; 12],
    pub name: Vec<u8>,
    pub name_hash: String,
    pub nonce: [u8; 12],
    pub signature: Vec<u8>,
}

/// Where a blob's body currently lives.
pub enum RawFile {
    /// The whole envelope, body included, is in memory.
    Memory(FileData),
    /// Only the non-body fields are in memory; the body was evicted.
    Disk(PersistentFile),
}

/// A stored file blob.
pub struct File {
    inner: RawFile,
    size: usize,
    body_hash: Vec<u8>,
    body: Ghost<Seq<u8>>,
}

/// Mathematical image of a [`File`]: the envelope fields, the body bytes,
/// and whether the body is resident in memory.
#[verifier::ext_equal]
pub struct FileView {
    pub name_nonce: Seq<u8>,
    pub name: Seq<u8>,
    pub name_hash: Seq<char>,
    pub nonce: Seq<u8>,
    pub signature: Seq<u8>,
    pub body: Seq<u8>,
    pub resident: bool,
}

/// The view a blob takes when its body is evicted: nothing changes but
/// residency.
pub open spec fn evicted(v: FileView) -> FileView {
    FileView { resident: false, ..v }
}

/// The view a blob takes when body bytes `b` are loaded back into it.
pub open spec fn reloaded(v: FileView, b: Seq<u8>) -> FileView {
    FileView { resident: true, body: b, ..v }
}

/// The envelope a blob reproduces when asked for its file data.
pub open spec fn file_data_of(v: FileView) -> FileDataView {
    FileDataView {
        name_nonce: v.name_nonce,
        name: v.name,
        name_hash: v.name_hash,
        nonce: v.nonce,
        contents: v.body,
        signature: v.signature,
    }
}

impl View for File {
    type V = FileView;

    closed spec fn view(&self) -> FileView {
        match self.inner {
            RawFile::Memory(fd) => FileView {
                name_nonce: fd.name_nonce@,
                name: fd.name@,
                name_hash: fd.name_hash@,
                nonce: fd.nonce@,
                signature: fd.signature@,
                body: fd.contents@,
                resident: true,
            },
            RawFile::Disk(pf) => FileView {
                name_nonce: pf.name_nonce@,
                name: pf.name@,
                name_hash: pf.name_hash@,
                nonce: pf.nonce@,
                signature: pf.signature@,
                body: self.body@,
                resident: false,
            },
        }
    }
}

impl File {
    /// The blob's structural invariant: the cached digest and length match
    /// the body, whether or not the body is resident.
    pub closed spec fn wf(self) -> bool {
        &&& self.body_hash@ == sha256_of(self@.body)
        &&& self.size as nat == self@.body.len()
        &&& match self.inner {
            RawFile::Memory(fd) => self.body@ == fd.contents@,
            RawFile::Disk(_) => true,
        }
    }

    /// Wrap a freshly pushed envelope; the body starts resident.
    pub fn new(data: FileData) -> (f: File)
        ensures
            f.wf(),
            f@ == (FileView {
                name_nonce: data@.name_nonce,
                name: data@.name,
                name_hash: data@.name_hash,
                nonce: data@.nonce,
                signature: data@.signature,
                body: data@.contents,
                resident: true,
            }),
    {
        let size = data.contents.len();
        let body_hash = sha256(data.contents.as_slice());
        let ghost b = data.contents@;
        File { inner: RawFile::Memory(data), size, body_hash, body: Ghost(b) }
    }

    /// The full envelope, available only while the body is resident.
    pub fn file_data(&self) -> (r: Result<FileData, VaultError>)
        ensures
            self@.resident ==> (r matches Ok(fd) && fd@ == file_data_of(self@)),
            !self@.resident ==> r == Err::<FileData, VaultError>(VaultError::NotResident),
    {
        match &self.inner {
            RawFile::Memory(fd) => Ok(fd.clone()),
            RawFile::Disk(_) => Err(VaultError::NotResident),
        }
    }

    /// The body's length in bytes, served from the cache: never forces a
    /// load.
    pub fn size(&self) -> (r: usize)
        requires
            self.wf(),
        ensures
            r as nat == self@.body.len(),
    {
        self.size
    }

    /// The body ciphertext, available only while it is resident.
    pub fn contents(&self) -> (r: Result<Vec<u8>, VaultError>)
        ensures
            self@.resident ==> (r matches Ok(c) && c@ == self@.body),
            !self@.resident ==> r == Err::<Vec<u8>, VaultError>(VaultError::NotResident),
    {
        match &self.inner {
            RawFile::Memory(fd) => Ok(fd.contents.clone()),
            RawFile::Disk(_) => Err(VaultError::NotResident),
        }
    }

    /// The lookup key this blob is indexed under.
    pub fn name_hash(&self) -> (r: String)
        ensures
            r@ == self@.name_hash,
    {
        match &self.inner {
            RawFile::Memory(fd) => fd.name_hash.clone(),
            RawFile::Disk(pf) => pf.name_hash.clone(),
        }
    }

    /// The nonce under which the display name was encrypted.
    pub fn name_nonce(&self) -> (r: [u8; 12])
        ensures
            r@ == self@.name_nonce,
    {
        match &self.inner {
            RawFile::Memory(fd) => fd.name_nonce,
            RawFile::Disk(pf) => pf.name_nonce,
        }
    }

    /// The encrypted display name.
    pub fn name(&self) -> (r: Vec<u8>)
        ensures
            r@ == self@.name,
    {
        match &self.inner {
            RawFile::Memory(fd) => fd.name.clone(),
            RawFile::Disk(pf) => pf.name.clone(),
        }
    }

    /// The nonce under which the body was encrypted.
    pub fn nonce(&self) -> (r: [u8; 12])
        ensures
            r@ == self@.nonce,
    {
        match &self.inner {
            RawFile::Memory(fd) => fd.nonce,
            RawFile::Disk(pf) => pf.nonce,
        }
    }

    /// The cached SHA-256 digest of the body; valid in both tiers.
    pub fn body_digest(&self) -> (r: &Vec<u8>)
        requires
            self.wf(),
        ensures
            r@ == sha256_of(self@.body),
    {
        &self.body_hash
    }

    /// Drop the body from memory, handing its bytes to the caller so they
    /// can be persisted. On an already evicted blob this does nothing.
    pub fn evict(&mut self) -> (r: Option<Vec<u8>>)
        requires
            old(self).wf(),
        ensures
            final(self).wf(),
            final(self)@ == evicted(old(self)@),
            old(self)@.resident ==> (r matches Some(b) && b@ == old(self)@.body),
            !old(self)@.resident ==> r is None,
    {
        let mut taken = RawFile::Disk(
            PersistentFile {
                name_nonce: [0u8; 12],
                name: Vec::new(),
                name_hash: String::new(),
                nonce: [0u8; 12],
                signature: Vec::new(),
            },
        );
        core::mem::swap(&mut taken, &mut self.inner);
        match taken {
            RawFile::Memory(fd) => {
                let FileData { name_nonce, name, name_hash, nonce, contents, signature } = fd;
                self.inner = RawFile::Disk(
                    PersistentFile { name_nonce, name, name_hash, nonce, signature },
                );
                proof {
                    assert(final(self)@ =~= evicted(old(self)@));
                }
                Some(contents)
            },
            RawFile::Disk(pf) => {
                self.inner = RawFile::Disk(pf);
                proof {
                    assert(final(self)@ =~= evicted(old(self)@));
                }
                None
            },
        }
    }

    /// Hand an evicted body back to the blob. The bytes are accepted only
    /// if they still match the digest and length recorded at creation;
    /// anything else is reported as a persistence failure and leaves the
    /// blob unchanged. Loading a resident blob does nothing.
    pub fn load(&mut self, bytes: Vec<u8>) -> (r: Result<(), VaultError>)
        requires
            old(self).wf(),
        ensures
            final(self).wf(),
            old(self)@.resident ==> r == Ok::<(), VaultError>(()) && *final(self) == *old(self),
            !old(self)@.resident && sha256_of(bytes@) == sha256_of(old(self)@.body)
                && bytes@.len() == old(self)@.body.len() ==> r == Ok::<(), VaultError>(())
                && final(self)@ == reloaded(old(self)@, bytes@),
            !old(self)@.resident && !(sha256_of(bytes@) == sha256_of(old(self)@.body)
                && bytes@.len() == old(self)@.body.len()) ==> r == Err::<(), VaultError>(
                VaultError::IoError,
            ) && *final(self) == *old(self),
    {
        let resident = match &self.inner {
            RawFile::Memory(_) => true,
            RawFile::Disk(_) => false,
        };
        if resident {
            return Ok(());
        }
        let digest = sha256(bytes.as_slice());
        if !(bytes.len() == self.size && bytes_eq(&digest, &self.body_hash)) {
            return Err(VaultError::IoError);
        }
        let mut taken = RawFile::Disk(
            PersistentFile {
                name_nonce: [0u8; 12],
                name: Vec::new(),
                name_hash: String::new(),
                nonce: [0u8; 12],
                signature: Vec::new(),
            },
        );
        core::mem::swap(&mut taken, &mut self.inner);
        match taken {
            RawFile::Disk(pf) => {
                let PersistentFile { name_nonce, name, name_hash, nonce, signature } = pf;
                self.inner = RawFile::Memory(
                    FileData { name_nonce, name, name_hash, nonce, contents: bytes, signature },
                );
                self.body = Ghost(self.inner->Memory_0.contents@);
                proof {
                    assert(final(self)@ =~= reloaded(old(self)@, final(self)@.body));
                }
                Ok(())
            },
            RawFile::Memory(fd) => {
                proof {
                    assert(false);
                }
                self.inner = RawFile::Memory(fd);
                Ok(())
            },
        }
    }
}

/// Evicting a resident blob and then loading back the very bytes the
/// eviction produced restores the blob exactly: every getter answers as it
/// did before the eviction.
pub proof fn lemma_evict_load_transparent(v: FileView)
    requires
        v.resident,
    ensures
        reloaded(evicted(v), v.body) == v,
{
    assert(reloaded(evicted(v), v.body) =~= v);
}

} // verus!
