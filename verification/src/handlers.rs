//! Request handlers: translate boundary requests into store and registry
//! operations, status codes and response values. They hold no business
//! logic beyond this mapping; the transport that carries the requests is
//! not part of the library.

use vstd::prelude::*;

use crate::accounts::{AccountRegistry, AuthOutcome, CreateOutcome};
use crate::data::Files;
use crate::file::file_data_of;
use crate::hash::sha256_of;
use crate::merkle_tree::fold_proof;
use crate::types::{CreateInfo, FileData, FileInfo, FileList, LoginInfo, MerkleData};
use crate::{VaultError, MAX_FILE_ID};

verus! {

/// The greeting at the service root.
pub fn index() -> (r: &'static str)
    ensures
        r@ == "Hello, world!"@,
{
    "Hello, world!"
}

/// Accept a pushed envelope: add it to the store. Answers 200 exactly
/// when a slot was free; a full store answers 507 and changes nothing.
pub fn handle_push(db: &mut Files, file: FileData) -> (r: u16)
    requires
        old(db).wf(),
    ensures
        final(db).wf(),
        r == 200 <==> old(db).next_slot() < MAX_FILE_ID,
        old(db).next_slot() == MAX_FILE_ID ==> r == 507 && *final(db) == *old(db),
        old(db).next_slot() < MAX_FILE_ID ==> {
            &&& final(db).next_slot() == old(db).next_slot() + 1
            &&& final(db).spec_index(file@.name_hash) matches Some(id) && id == old(db).next_slot()
            &&& final(db).spec_file(old(db).next_slot()) matches Some(f) && f@.name_hash
                == file@.name_hash && f@.body == file@.contents
        },
    {
    match db.add_file(file) {
        Ok(()) => 200,
        Err(_) => 507,
    }
}

/// Serve a pull: the envelope and its inclusion proof for a bound name
/// hash, `None` for an unknown one, and a persistence error if the
/// blob's body is not resident.
pub fn handle_pull(db: &Files, info: &FileInfo) -> (r: Result<
    Option<(FileData, MerkleData)>,
    VaultError,
>)
    requires
        db.wf(),
    ensures
        db.spec_index(info@) is None ==> r == Ok::<Option<(FileData, MerkleData)>, VaultError>(
            None,
        ),
        db.spec_index(info@) matches Some(id) ==> (db.spec_file(id as nat) matches Some(f) && (
        f@.resident ==> (r matches Ok(o) && o matches Some(pair) && pair.0@ == file_data_of(f@)
            && pair.1@.top_hash == db.top() && fold_proof(
            sha256_of(db.spec_body(id as nat)),
            pair.1@.hashes,
        ) == db.top())) && (!f@.resident ==> r == Err::<Option<(FileData, MerkleData)>, VaultError>(
            VaultError::NotResident,
        ))),
{
    match db.get_file(info) {
        Ok(Some(fd)) => match db.get_merkle_data(&info.name_hash) {
            Some(md) => Ok(Some((fd, md))),
            None => {
                proof {
                    assert(false);
                }
                Ok(None)
            },
        },
        Ok(None) => Ok(None),
        Err(e) => Err(e),
    }
}

/// Serve a listing: the store's top hash and one row per bound name
/// hash.
pub fn handle_list(db: &Files) -> (r: FileList)
    requires
        db.wf(),
    ensures
        r.top_hash@ == db.top(),
        r.list@.len() == db.spec_map_len(),
        forall|k: int| 0 <= k < r.list@.len() ==> (#[trigger] r.list@[k])@ == db.spec_entry(k),
        forall|k: int|
            0 <= k < r.list@.len() ==> (db.spec_index((#[trigger] r.list@[k])@.name_hash) matches
                Some(id) && db.spec_file(id as nat) matches Some(f) && r.list@[k]@.nonce
                == f@.nonce && r.list@[k]@.name == f@.name && r.list@[k]@.name_nonce
                == f@.name_nonce && r.list@[k]@.size == f@.body.len()),
{
    db.list()
}

/// Serve an account creation: 200 when the name was free, 418 when it
/// was taken.
pub fn handle_create(reg: &mut AccountRegistry, info: CreateInfo) -> (r: u16)
    requires
        old(reg).wf(),
    ensures
        final(reg).wf(),
        old(reg).spec_password(info.name@) is Some ==> r == 418 && *final(reg) == *old(reg),
        old(reg).spec_password(info.name@) is None ==> r == 200 && final(reg).spec_password(
            info.name@,
        ) == Some(info.password@) && forall|n: Seq<char>|
            n != info.name@ ==> final(reg).spec_password(n) == old(reg).spec_password(n),
{
    match reg.create(info) {
        CreateOutcome::Created => 200,
        CreateOutcome::AlreadyExists => 418,
    }
}

/// Serve a login: 200 for the right password, 403 for a wrong one, 404
/// for an unknown name.
pub fn handle_login(reg: &AccountRegistry, info: &LoginInfo) -> (r: u16)
    requires
        reg.wf(),
    ensures
        reg.spec_password(info.name@) is None ==> r == 404,
        reg.spec_password(info.name@) matches Some(p) ==> (p == info.password@ ==> r == 200) && (p
            != info.password@ ==> r == 403),
{
    match reg.authenticate(info) {
        AuthOutcome::Success => 200,
        AuthOutcome::WrongPassword => 403,
        AuthOutcome::NotFound => 404,
    }
}

} // verus!
