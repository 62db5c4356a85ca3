//! Metadata store tests: call resolution, storage-key derivation against
//! the reference hashers, error resolution, and envelope loading.

use parity_scale_codec::{Compact, Encode};
use subxt::codec::{Prim, PrimDesc};
use subxt::metadata::{
    CallDef, EncodeError, ErrorDef, Metadata, MetadataError, Pallet, StorageDef, StorageHasher,
};

fn sample_metadata() -> Metadata {
    Metadata {
        pallets: vec![
            Pallet {
                name: b"System".to_vec(),
                index: 0,
                calls: vec![CallDef {
                    name: b"remark".to_vec(),
                    index: 1,
                    args: vec![PrimDesc::Bytes],
                }],
                storage: vec![StorageDef {
                    name: b"Account".to_vec(),
                    hasher: StorageHasher::Blake2_128Concat,
                }],
                errors: vec![],
            },
            Pallet {
                name: b"Staking".to_vec(),
                index: 6,
                calls: vec![
                    CallDef {
                        name: b"bond".to_vec(),
                        index: 0,
                        args: vec![PrimDesc::Compact],
                    },
                    CallDef {
                        name: b"validate".to_vec(),
                        index: 4,
                        args: vec![],
                    },
                ],
                storage: vec![
                    StorageDef {
                        name: b"Bonded".to_vec(),
                        hasher: StorageHasher::Twox64Concat,
                    },
                    StorageDef {
                        name: b"HistoryDepth".to_vec(),
                        hasher: StorageHasher::Identity,
                    },
                ],
                errors: vec![
                    ErrorDef {
                        index: 2,
                        name: b"AlreadyBonded".to_vec(),
                        docs: b"Stash is already bonded.".to_vec(),
                    },
                    ErrorDef {
                        index: 3,
                        name: b"NotController".to_vec(),
                        docs: b"Not a controller account.".to_vec(),
                    },
                ],
            },
        ],
    }
}

#[test]
fn resolve_call_prefixes_pallet_and_call_indices() {
    let m = sample_metadata();
    let args = vec![Prim::Compact(300)];
    let bytes = m
        .resolve_call(&b"Staking".to_vec(), &b"bond".to_vec(), &args)
        .unwrap();
    let mut expected = vec![6u8, 0u8];
    expected.extend(Compact(300u32).encode());
    assert_eq!(bytes, expected);
}

#[test]
fn resolve_call_twice_yields_identical_bytes() {
    let m = sample_metadata();
    let args = vec![Prim::Compact(12345)];
    let a = m
        .resolve_call(&b"Staking".to_vec(), &b"bond".to_vec(), &args)
        .unwrap();
    let b = m
        .resolve_call(&b"Staking".to_vec(), &b"bond".to_vec(), &args)
        .unwrap();
    assert_eq!(a, b);
}

#[test]
fn unknown_pallet_is_pallet_not_found() {
    let m = sample_metadata();
    let r = m.resolve_call(&b"Balances".to_vec(), &b"transfer".to_vec(), &vec![]);
    assert_eq!(r.unwrap_err(), EncodeError::PalletNotFound);
}

#[test]
fn unknown_call_is_call_not_found() {
    let m = sample_metadata();
    let r = m.resolve_call(&b"Staking".to_vec(), &b"transfer".to_vec(), &vec![]);
    assert_eq!(r.unwrap_err(), EncodeError::CallNotFound);
}

#[test]
fn mismatched_argument_is_type_mismatch() {
    let m = sample_metadata();
    let r = m.resolve_call(
        &b"Staking".to_vec(),
        &b"bond".to_vec(),
        &vec![Prim::Bool(true)],
    );
    assert_eq!(r.unwrap_err(), EncodeError::ArgumentTypeMismatch);
}

#[test]
fn storage_key_uses_declared_hashers() {
    let m = sample_metadata();
    let key_material = vec![0xaau8; 32];

    // a twox-64-concat map entry
    let key = m
        .resolve_storage_key(&b"Staking".to_vec(), &b"Bonded".to_vec(), Some(&key_material))
        .unwrap();
    let mut expected = sp_core_hashing::twox_128(b"Staking").to_vec();
    expected.extend(sp_core_hashing::twox_128(b"Bonded"));
    expected.extend(sp_core_hashing::twox_64(&key_material));
    expected.extend(&key_material);
    assert_eq!(key, expected);

    // a blake2-128-concat map entry
    let key = m
        .resolve_storage_key(&b"System".to_vec(), &b"Account".to_vec(), Some(&key_material))
        .unwrap();
    let mut expected = sp_core_hashing::twox_128(b"System").to_vec();
    expected.extend(sp_core_hashing::twox_128(b"Account"));
    expected.extend(sp_core_hashing::blake2_128(&key_material));
    expected.extend(&key_material);
    assert_eq!(key, expected);
}

#[test]
fn storage_key_for_plain_entry_is_the_two_name_hashes() {
    let m = sample_metadata();
    let key = m
        .resolve_storage_key(&b"Staking".to_vec(), &b"HistoryDepth".to_vec(), None)
        .unwrap();
    let mut expected = sp_core_hashing::twox_128(b"Staking").to_vec();
    expected.extend(sp_core_hashing::twox_128(b"HistoryDepth"));
    assert_eq!(key, expected);
    // the names really are hashed, not passed through
    let mut names = b"Staking".to_vec();
    names.extend(b"HistoryDepth");
    assert_ne!(key, names);
}

#[test]
fn storage_key_is_deterministic() {
    let m = sample_metadata();
    let key_material = vec![1u8, 2, 3];
    let a = m
        .resolve_storage_key(&b"Staking".to_vec(), &b"Bonded".to_vec(), Some(&key_material))
        .unwrap();
    let b = m
        .resolve_storage_key(&b"Staking".to_vec(), &b"Bonded".to_vec(), Some(&key_material))
        .unwrap();
    assert_eq!(a, b);
}

#[test]
fn unknown_storage_item_is_reported() {
    let m = sample_metadata();
    let r = m.resolve_storage_key(&b"Staking".to_vec(), &b"Nowhere".to_vec(), None);
    assert_eq!(r.unwrap_err(), EncodeError::StorageItemNotFound);
}

#[test]
fn module_error_resolves_to_names() {
    let m = sample_metadata();
    let (pallet, error) = m.resolve_error(6, 3).unwrap();
    assert_eq!(pallet, b"Staking".to_vec());
    assert_eq!(error, b"NotController".to_vec());
    assert!(m.resolve_error(6, 9).is_none());
    assert!(m.resolve_error(9, 0).is_none());
}

/// The envelope encoding of a small metadata blob, as `load` reads it.
fn sample_blob() -> Vec<u8> {
    let mut raw: Vec<u8> = b"meta".to_vec();
    raw.push(14);
    raw.extend(Compact(1u32).encode()); // one pallet
    raw.extend(b"Staking".to_vec().encode()); // name
    raw.push(6); // pallet index
    raw.extend(Compact(1u32).encode()); // one call
    raw.extend(b"bond".to_vec().encode());
    raw.push(0); // call index
    raw.extend(Compact(2u32).encode()); // two arguments
    raw.push(5); // compact
    raw.push(7); // fixed array ...
    raw.extend(Compact(32u32).encode()); // ... of 32 bytes
    raw.extend(Compact(1u32).encode()); // one storage entry
    raw.extend(b"Bonded".to_vec().encode());
    raw.push(1); // twox-64-concat
    raw.extend(Compact(1u32).encode()); // one error variant
    raw.extend(b"NotController".to_vec().encode());
    raw.push(3); // error index
    raw.extend(b"Not a controller.".to_vec().encode());
    raw
}

#[test]
fn load_parses_a_versioned_envelope() {
    let m = Metadata::load(&sample_blob()).unwrap();
    assert_eq!(m.pallets.len(), 1);
    let p = &m.pallets[0];
    assert_eq!(p.name, b"Staking".to_vec());
    assert_eq!(p.index, 6);
    assert_eq!(p.calls.len(), 1);
    assert_eq!(p.calls[0].args, vec![PrimDesc::Compact, PrimDesc::Fixed(32)]);
    assert_eq!(p.storage[0].hasher, StorageHasher::Twox64Concat);
    assert_eq!(p.errors[0].name, b"NotController".to_vec());
    // the loaded store resolves as the hand-built one does
    let bytes = m
        .resolve_call(
            &b"Staking".to_vec(),
            &b"bond".to_vec(),
            &vec![Prim::Compact(1), Prim::Fixed(vec![7u8; 32])],
        )
        .unwrap();
    assert_eq!(bytes[0], 6);
    assert_eq!(bytes[1], 0);
}

#[test]
fn load_rejects_a_foreign_magic() {
    let mut raw = sample_blob();
    raw[0] = b'x';
    assert_eq!(Metadata::load(&raw).unwrap_err(), MetadataError::BadMagic);
}

#[test]
fn load_rejects_an_unrecognized_version() {
    let mut raw = sample_blob();
    raw[4] = 12;
    assert_eq!(
        Metadata::load(&raw).unwrap_err(),
        MetadataError::UnrecognizedVersion(12)
    );
}

#[test]
fn load_rejects_a_truncated_body() {
    let raw = sample_blob();
    let cut = raw[..raw.len() - 3].to_vec();
    assert!(matches!(
        Metadata::load(&cut).unwrap_err(),
        MetadataError::Decode(_)
    ));
}
