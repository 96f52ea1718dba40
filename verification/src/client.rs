//! The client's side of the protocol, parted from its transport: build
//! the upload envelope for a file, check and open a pulled envelope
//! (inclusion proof, then decryption, then signature), and decrypt the
//! display names of a listing.

use vstd::prelude::*;

use crate::crypto::{
    aead_seal, argon2_hash, decrypt_bytes, encrypt_bytes, hash_password, padded_key,
    rsa_signature, sign_file, verify_file_signature, SigningKey,
};
use crate::hash::{bytes_eq, sha256, sha256_of};
use crate::merkle_tree::{fold_proof, fold_proof_hashes};
use crate::types::{FileData, FileList, FileListEntryView, MerkleData};
use crate::VaultError;

verus! {

use vstd::utf8::encode_utf8;

/// Build the upload envelope for one file: sign (body ++ name) with the
/// user's key, seal body and name under the password-derived key with
/// fresh nonces, and derive the server-side lookup key from password and
/// name. The password doubles as the name hash's salt, so it must be at
/// least 8 bytes.
pub fn prepare_push(body: Vec<u8>, file_name: String, password: String, key_pair: &SigningKey) -> (r:
    Result<FileData, String>)
    requires
        encode_utf8(password@).len() >= 8,
        encode_utf8(password@).len() <= 0xFFFF_FFFF,
        encode_utf8(file_name@).len() <= 0xFFFF_FFFF,
    ensures
        r matches Ok(fd) ==> {
            &&& fd@.contents == aead_seal(
                padded_key(encode_utf8(password@)),
                fd@.nonce,
                body@,
            )
            &&& fd@.contents.len() == body@.len() + 16
            &&& fd@.name == aead_seal(
                padded_key(encode_utf8(password@)),
                fd@.name_nonce,
                encode_utf8(file_name@),
            )
            &&& fd@.name_hash == argon2_hash(encode_utf8(password@), encode_utf8(file_name@))
            &&& fd@.signature == rsa_signature(key_pair@, body@ + encode_utf8(file_name@))
        },
{
    let signature = match sign_file(&body, file_name.as_str().as_bytes(), key_pair) {
        Ok(s) => s,
        Err(_) => {
            return Err("Error signing file".to_string());
        },
    };
    let mut name_bytes: Vec<u8> = Vec::new();
    name_bytes.extend_from_slice(file_name.as_str().as_bytes());
    proof {
        assert(name_bytes@ =~= encode_utf8(file_name@));
    }
    let (nonce, encrypted_file) = match encrypt_bytes(body, password.clone()) {
        Ok(p) => p,
        Err(e) => {
            return Err(e);
        },
    };
    let (nonce_name, encrypted_file_name) = match encrypt_bytes(name_bytes, password.clone()) {
        Ok(p) => p,
        Err(e) => {
            return Err(e);
        },
    };
    let hash_name = hash_password(password, file_name);
    Ok(
        FileData {
            name: encrypted_file_name,
            contents: encrypted_file,
            nonce,
            name_nonce: nonce_name,
            name_hash: hash_name,
            signature,
        },
    )
}

/// The client's checks on a pulled envelope, in this order: fold
/// the inclusion proof from the ciphertext's digest and compare it
/// with the declared top hash, open the body under the password-derived
/// key, and check the detached signature by re-signing. Returns the
/// plaintext body only when all three checks pass.
pub fn check_pulled_file(
    file_data: &FileData,
    tree: &MerkleData,
    file_name: &String,
    password: &String,
    key_pair: &SigningKey,
) -> (r: Result<Vec<u8>, VaultError>)
    ensures
        r matches Ok(p) ==> {
            &&& fold_proof(sha256_of(file_data@.contents), tree@.hashes) == tree@.top_hash
            &&& file_data@.contents == aead_seal(
                padded_key(encode_utf8(password@)),
                file_data@.nonce,
                p@,
            )
            &&& file_data@.signature == rsa_signature(
                key_pair@,
                p@ + encode_utf8(file_name@),
            )
        },
        fold_proof(sha256_of(file_data@.contents), tree@.hashes) != tree@.top_hash ==> r == Err::<
            Vec<u8>,
            VaultError,
        >(VaultError::ProofInvalid),
        fold_proof(sha256_of(file_data@.contents), tree@.hashes) == tree@.top_hash && (forall|
            p: Seq<u8>,
        |
            file_data@.contents != aead_seal(
                padded_key(encode_utf8(password@)),
                file_data@.nonce,
                p,
            )) ==> r == Err::<Vec<u8>, VaultError>(VaultError::DecryptionFailure),
        forall|p: Seq<u8>|
            (fold_proof(sha256_of(file_data@.contents), tree@.hashes) == tree@.top_hash
                && file_data@.contents == aead_seal(
                padded_key(encode_utf8(password@)),
                file_data@.nonce,
                p,
            ) && file_data@.signature != rsa_signature(key_pair@, p + encode_utf8(file_name@)))
                ==> r == Err::<Vec<u8>, VaultError>(VaultError::SignatureInvalid),
{
    let leaf_hash = sha256(file_data.contents.as_slice());
    let folded = fold_proof_hashes(leaf_hash, &tree.hashes);
    if !bytes_eq(&folded, &tree.top_hash) {
        return Err(VaultError::ProofInvalid);
    }
    let decrypted = match decrypt_bytes(
        file_data.contents.clone(),
        password.clone(),
        file_data.nonce,
    ) {
        Ok(p) => p,
        Err(_) => {
            return Err(VaultError::DecryptionFailure);
        },
    };
    proof {
        assert(file_data@.contents == aead_seal(
            padded_key(encode_utf8(password@)),
            file_data@.nonce,
            decrypted@,
        ));
    }
    match verify_file_signature(
        &decrypted,
        file_name.as_str().as_bytes(),
        key_pair,
        &file_data.signature,
    ) {
        Ok(true) => Ok(decrypted),
        Ok(false) => Err(VaultError::SignatureInvalid),
        Err(_) => Err(VaultError::SignatureInvalid),
    }
}

/// The plaintext a name ciphertext opens to under a key and nonce, if
/// any plaintext seals to it.
pub open spec fn opens_to(name: Seq<u8>, nonce: Seq<u8>, key: Seq<u8>) -> Option<Seq<u8>> {
    if exists|p: Seq<u8>| name == aead_seal(key, nonce, p) {
        Some(choose|p: Seq<u8>| name == aead_seal(key, nonce, p))
    } else {
        None
    }
}

/// The display names a listing decrypts to under a key: one entry per
/// row whose name ciphertext opens, in listing order; rows that do not
/// open are passed over.
pub open spec fn listing_names(rows: Seq<FileListEntryView>, key: Seq<u8>) -> Seq<Seq<u8>>
    decreases rows.len(),
{
    if rows.len() == 0 {
        Seq::empty()
    } else {
        let rest = listing_names(rows.drop_first(), key);
        match opens_to(rows[0].name, rows[0].name_nonce, key) {
            Some(p) => seq![p] + rest,
            None => rest,
        }
    }
}

/// A row appended at the end contributes its name, if it opens, at the
/// end.
proof fn lemma_listing_names_push(rows: Seq<FileListEntryView>, key: Seq<u8>, row: FileListEntryView)
    ensures
        listing_names(rows.push(row), key) == (match opens_to(row.name, row.name_nonce, key) {
            Some(p) => listing_names(rows, key).push(p),
            None => listing_names(rows, key),
        }),
    decreases rows.len(),
{
    let m = rows.push(row);
    if rows.len() == 0 {
        assert(m[0] == row);
        assert(m.drop_first() =~= rows);
        assert(listing_names(rows, key) == Seq::<Seq<u8>>::empty());
        match opens_to(row.name, row.name_nonce, key) {
            Some(p) => {
                assert(listing_names(m, key) == seq![p] + listing_names(rows, key));
                assert(seq![p] + listing_names(rows, key) =~= listing_names(rows, key).push(p));
            },
            None => {},
        }
    } else {
        assert(m[0] == rows[0]);
        assert(m.drop_first() =~= rows.drop_first().push(row));
        lemma_listing_names_push(rows.drop_first(), key, row);
        match opens_to(row.name, row.name_nonce, key) {
            Some(p) => {
                match opens_to(rows[0].name, rows[0].name_nonce, key) {
                    Some(q) => {
                        assert(listing_names(m, key) =~= listing_names(rows, key).push(p));
                    },
                    None => {
                        assert(listing_names(m, key) =~= listing_names(rows, key).push(p));
                    },
                }
            },
            None => {},
        }
    }
}

/// Decrypt the display names of a listing under a password: the names of
/// the rows that open, in listing order, as plaintext bytes. Rows whose
/// name ciphertext does not open under the password are passed over
/// rather than reported: a listing may mix several users' files.
pub fn decrypt_listing(resp: &FileList, password: &String) -> (r: Vec<Vec<u8>>)
    ensures
        r@.map_values(|v: Vec<u8>| v@) == listing_names(
            resp.list@.map_values(|e: crate::types::FileListEntry| e@),
            padded_key(encode_utf8(password@)),
        ),
{
    let ghost key = padded_key(encode_utf8(password@));
    let ghost all_rows = resp.list@.map_values(|e: crate::types::FileListEntry| e@);
    let mut names: Vec<Vec<u8>> = Vec::new();
    let n = resp.list.len();
    let mut i: usize = 0;
    while i < n
        invariant
            n == resp.list@.len(),
            i <= n,
            key == padded_key(encode_utf8(password@)),
            all_rows == resp.list@.map_values(|e: crate::types::FileListEntry| e@),
            names@.map_values(|v: Vec<u8>| v@) == listing_names(all_rows.take(i as int), key),
        decreases n - i,
    {
        let entry = &resp.list[i];
        let ghost row = all_rows[i as int];
        proof {
            assert(row == resp.list@[i as int]@);
        }
        match decrypt_bytes(entry.name.clone(), password.clone(), entry.name_nonce) {
            Ok(name) => {
                names.push(name);
                proof {
                    assert(opens_to(row.name, row.name_nonce, key) == Some(name@)) by {
                        assert(row.name == aead_seal(key, row.name_nonce, name@));
                        let w = choose|p: Seq<u8>| row.name == aead_seal(key, row.name_nonce, p);
                        assert(row.name == aead_seal(key, row.name_nonce, w));
                    }
                }
            },
            Err(_) => {
                proof {
                    assert(opens_to(row.name, row.name_nonce, key) is None) by {
                        if exists|p: Seq<u8>| row.name == aead_seal(key, row.name_nonce, p) {
                            let w = choose|p: Seq<u8>|
                                row.name == aead_seal(key, row.name_nonce, p);
                            assert(row.name == aead_seal(key, row.name_nonce, w));
                            assert(false);
                        }
                    }
                }
            },
        }
        proof {
            assert(all_rows.take(i + 1) =~= all_rows.take(i as int).push(row));
            lemma_listing_names_push(all_rows.take(i as int), key, row);
            assert(names@.map_values(|v: Vec<u8>| v@) =~= listing_names(
                all_rows.take(i + 1),
                key,
            ));
        }
        i = i + 1;
    }
    proof {
        assert(all_rows.take(n as int) =~= all_rows);
    }
    names
}

} // verus!
