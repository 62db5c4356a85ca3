//! Client and builder tests: connection assembly from fetched facts,
//! extrinsic signing through the metadata store, the nonce policy, and
//! the documented same-nonce race.

use parity_scale_codec::{Compact, Encode};
use subxt::client::{
    BasicError, CallData, Client, ClientBuilder, FetchedChainInfo, RpcClient, SubmittableExtrinsic,
    SystemProperties,
};
use subxt::codec::Prim;
use subxt::extrinsic::{
    assemble_signed, plan_nonce, ExtraParam, NoncePlan, RuntimeVersion, SigningError, StaticSigner,
};
use subxt::metadata::{CallDef, Metadata, Pallet};

fn sample_metadata() -> Metadata {
    Metadata {
        pallets: vec![Pallet {
            name: b"Staking".to_vec(),
            index: 6,
            calls: vec![CallDef {
                name: b"bond".to_vec(),
                index: 0,
                args: vec![subxt::codec::PrimDesc::Compact],
            }],
            storage: vec![],
            errors: vec![],
        }],
    }
}

fn fetched_ok() -> FetchedChainInfo {
    FetchedChainInfo {
        metadata: Ok(sample_metadata()),
        genesis_hash: Ok(vec![0x42u8; 32]),
        runtime_version: Ok(RuntimeVersion { spec_version: 9, transaction_version: 5 }),
        properties: Ok(SystemProperties { raw: b"{}".to_vec() }),
    }
}

fn sample_client() -> Client {
    ClientBuilder::new().build(fetched_ok()).unwrap()
}

fn signer_with(nonce: Option<u32>) -> StaticSigner {
    StaticSigner {
        account: vec![0x01u8; 32],
        fixed_nonce: nonce,
        signature: Some(vec![0x5au8; 64]),
    }
}

#[test]
fn builder_applies_defaults() {
    let c = sample_client();
    assert_eq!(c.iter_page_size, 10);
    assert_eq!(c.rpc().client.endpoint, b"ws://127.0.0.1:9944".to_vec());
    assert_eq!(*c.genesis(), vec![0x42u8; 32]);
    assert_eq!(c.properties().raw, b"{}".to_vec());
}

#[test]
fn builder_setters_take_effect() {
    let c = ClientBuilder::new()
        .set_url(b"ws://node.example:9944".to_vec())
        .set_page_size(25)
        .build(fetched_ok())
        .unwrap();
    assert_eq!(c.iter_page_size, 25);
    assert_eq!(c.rpc().client.endpoint, b"ws://node.example:9944".to_vec());
    // a pre-supplied handle overrides the URL
    let c = ClientBuilder::new()
        .set_url(b"ws://node.example:9944".to_vec())
        .set_client(RpcClient { endpoint: b"ws://other:1234".to_vec() })
        .build(fetched_ok())
        .unwrap();
    assert_eq!(c.rpc().client.endpoint, b"ws://other:1234".to_vec());
}

#[test]
fn required_fetches_abort_the_build_in_order() {
    let mut fetched = fetched_ok();
    fetched.metadata = Err(BasicError::Connection);
    fetched.genesis_hash = Err(BasicError::Rpc(b"busy".to_vec()));
    match ClientBuilder::new().build(fetched) {
        Err(BasicError::Connection) => {}
        other => panic!("the metadata failure must win: {:?}", other),
    }
    let mut fetched = fetched_ok();
    fetched.runtime_version = Err(BasicError::Connection);
    assert!(ClientBuilder::new().build(fetched).is_err());
}

#[test]
fn failed_properties_degrade_to_the_default() {
    let mut fetched = fetched_ok();
    fetched.properties = Err(BasicError::Connection);
    let c = ClientBuilder::new().build(fetched).unwrap();
    assert_eq!(c.properties().raw, Vec::<u8>::new());
}

#[test]
fn storage_client_shares_the_connection_facts() {
    let c = sample_client();
    let s = c.storage();
    assert_eq!(s.iter_page_size, 10);
    assert_eq!(s.metadata.pallets.len(), 1);
}

struct ApiWrapper {
    client: Client,
}

impl From<Client> for ApiWrapper {
    fn from(client: Client) -> Self {
        ApiWrapper { client }
    }
}

#[test]
fn client_converts_to_a_runtime_api_wrapper() {
    let api: ApiWrapper = sample_client().to_runtime_api();
    assert_eq!(api.client.iter_page_size, 10);
}

fn bond_call() -> CallData {
    CallData {
        pallet: b"Staking".to_vec(),
        call: b"bond".to_vec(),
        args: vec![Prim::Compact(777)],
    }
}

#[test]
fn nonce_plan_queries_exactly_when_the_signer_is_silent() {
    assert_eq!(plan_nonce(None), NoncePlan::QueryNodeOnce);
    assert_eq!(plan_nonce(Some(5)), NoncePlan::UseSupplied(5));
}

#[test]
fn queried_nonce_is_used_when_the_signer_supplies_none() {
    let client = sample_client();
    let signer = signer_with(None);
    let ext = SubmittableExtrinsic::new(&client, bond_call())
        .create_signed(&signer, Some(7), &vec![])
        .unwrap();
    // the same envelope assembled by hand with nonce 7
    let mut call_bytes = vec![6u8, 0u8];
    call_bytes.extend(Compact(777u32).encode());
    let expected = assemble_signed(
        &vec![0x01u8; 32],
        &vec![0x5au8; 64],
        7,
        &vec![],
        &call_bytes,
    )
    .unwrap();
    assert_eq!(ext.bytes, expected.bytes);
}

#[test]
fn supplied_nonce_wins_over_the_queried_one() {
    let client = sample_client();
    let signer = signer_with(Some(9));
    let ext = SubmittableExtrinsic::new(&client, bond_call())
        .create_signed(&signer, Some(7), &vec![])
        .unwrap();
    let mut call_bytes = vec![6u8, 0u8];
    call_bytes.extend(Compact(777u32).encode());
    let expected = assemble_signed(
        &vec![0x01u8; 32],
        &vec![0x5au8; 64],
        9,
        &vec![],
        &call_bytes,
    )
    .unwrap();
    assert_eq!(ext.bytes, expected.bytes);
}

#[test]
fn back_to_back_submissions_may_share_a_nonce() {
    // Two extrinsics for the same account, neither with an explicit
    // nonce, both built against the same queried next-index: the library
    // does not serialize per-account submissions or hide the collision,
    // so both carry the same nonce and identical bytes.
    let client = sample_client();
    let signer = signer_with(None);
    let first = SubmittableExtrinsic::new(&client, bond_call())
        .create_signed(&signer, Some(3), &vec![])
        .unwrap();
    let second = SubmittableExtrinsic::new(&client, bond_call())
        .create_signed(&signer, Some(3), &vec![])
        .unwrap();
    assert_eq!(first.bytes, second.bytes);
}

#[test]
fn signing_failures_are_surfaced_not_defaulted() {
    let client = sample_client();
    // the signing device is unavailable
    let refusing = StaticSigner {
        account: vec![0x01u8; 32],
        fixed_nonce: Some(0),
        signature: None,
    };
    match SubmittableExtrinsic::new(&client, bond_call()).create_signed(&refusing, None, &vec![]) {
        Err(BasicError::Signing(SigningError::SignerRefused)) => {}
        other => panic!("a refusal must surface, got {:?}", other),
    }
    // the signer hands back material of the wrong length
    let short = StaticSigner {
        account: vec![0x01u8; 32],
        fixed_nonce: Some(0),
        signature: Some(vec![0x5au8; 3]),
    };
    match SubmittableExtrinsic::new(&client, bond_call()).create_signed(&short, None, &vec![]) {
        Err(BasicError::Signing(SigningError::BadSignerMaterial)) => {}
        other => panic!("bad material must surface, got {:?}", other),
    }
}

#[test]
fn unknown_names_fail_the_submission() {
    let client = sample_client();
    let signer = signer_with(Some(0));
    let call = CallData {
        pallet: b"Nowhere".to_vec(),
        call: b"noop".to_vec(),
        args: vec![],
    };
    match SubmittableExtrinsic::new(&client, call).create_signed(&signer, None, &vec![]) {
        Err(BasicError::Encode(subxt::metadata::EncodeError::PalletNotFound)) => {}
        other => panic!("expected an encode failure, got {:?}", other),
    }
}

#[test]
fn envelope_is_length_prefixed_and_versioned() {
    let client = sample_client();
    let signer = signer_with(Some(1));
    let ext = SubmittableExtrinsic::new(&client, bond_call())
        .create_signed(&signer, None, &vec![])
        .unwrap();
    // the compact prefix covers exactly the body
    let mut pos = 0usize;
    let b0 = ext.bytes[0];
    let body_len: usize = match b0 & 3 {
        0 => {
            pos = 1;
            (b0 >> 2) as usize
        }
        1 => {
            pos = 2;
            ((u16::from_le_bytes([ext.bytes[0], ext.bytes[1]])) >> 2) as usize
        }
        _ => panic!("unexpected length-prefix mode for a small envelope"),
    };
    assert_eq!(ext.bytes.len() - pos, body_len);
    // the signed-v4 version byte, the address tag, then the account
    assert_eq!(ext.bytes[pos], 0x84);
    assert_eq!(ext.bytes[pos + 1], 0x00);
    assert_eq!(&ext.bytes[pos + 2..pos + 34], &[0x01u8; 32]);
    assert_eq!(ext.bytes[pos + 34], 0x01);
}

#[test]
fn progress_tracker_is_keyed_by_the_extrinsic_hash() {
    let client = sample_client();
    let signer = signer_with(Some(1));
    let (ext, progress) = SubmittableExtrinsic::new(&client, bond_call())
        .sign_and_submit_then_watch(&signer, None)
        .unwrap();
    assert_eq!(progress.ext_hash, sp_core_hashing::blake2_256(&ext.bytes).to_vec());
    assert_ne!(progress.ext_hash, ext.bytes, "the identity is a digest, not the bytes");

    let client = sample_client();
    let (ext2, hash) = SubmittableExtrinsic::new(&client, bond_call())
        .sign_and_submit(&signer, None)
        .unwrap();
    assert_eq!(hash, sp_core_hashing::blake2_256(&ext2.bytes).to_vec());
}

#[test]
fn extra_params_ride_in_the_signed_extra() {
    let client = sample_client();
    let signer = signer_with(Some(1));
    let with_tip = SubmittableExtrinsic::new(&client, bond_call())
        .sign_and_submit_with_aditional_then_watch(&signer, None, vec![ExtraParam::Tip(1000)])
        .unwrap()
        .0;
    let client2 = sample_client();
    let without = SubmittableExtrinsic::new(&client2, bond_call())
        .sign_and_submit_with_aditional_then_watch(&signer, None, vec![])
        .unwrap()
        .0;
    assert_ne!(with_tip.bytes, without.bytes);
    assert_eq!(
        with_tip.bytes.len(),
        without.bytes.len() + Compact(1000u32).encode().len()
    );
}

#[test]
fn long_payloads_are_hashed_before_signing() {
    let rv = RuntimeVersion { spec_version: 1, transaction_version: 1 };
    let genesis = vec![0u8; 32];
    let long_call = vec![0xabu8; 400];
    let payload =
        subxt::extrinsic::build_signing_payload(&long_call, 0, &vec![], &rv, &genesis);
    assert_eq!(payload.len(), 32, "a long payload is signed through its digest");
    let short_call = vec![0xabu8; 4];
    let payload =
        subxt::extrinsic::build_signing_payload(&short_call, 0, &vec![], &rv, &genesis);
    assert!(payload.len() > 32, "a short payload is signed raw");
    assert_eq!(&payload[..4], &short_call[..]);
}

#[test]
fn submission_entry_points_propagate_encode_errors() {
    let client = sample_client();
    let signer = signer_with(Some(0));
    let call = CallData {
        pallet: b"Nowhere".to_vec(),
        call: b"noop".to_vec(),
        args: vec![],
    };
    match SubmittableExtrinsic::new(&client, call.clone()).sign_and_submit(&signer, None) {
        Err(BasicError::Encode(subxt::metadata::EncodeError::PalletNotFound)) => {}
        other => panic!("fire-and-forget must return the encode error, got {:?}", other),
    }
    match SubmittableExtrinsic::new(&client, call).sign_and_submit_then_watch(&signer, None) {
        Err(BasicError::Encode(subxt::metadata::EncodeError::PalletNotFound)) => {}
        other => panic!("submit-and-watch must return the encode error, got {:?}", other),
    }
}

#[test]
fn submission_entry_points_propagate_signer_refusal() {
    let client = sample_client();
    let refusing = StaticSigner {
        account: vec![0x01u8; 32],
        fixed_nonce: Some(0),
        signature: None,
    };
    match SubmittableExtrinsic::new(&client, bond_call())
        .sign_and_submit_with_additional(&refusing, None, vec![])
    {
        Err(BasicError::Signing(SigningError::SignerRefused)) => {}
        other => panic!("the refusal must surface unchanged, got {:?}", other),
    }
}
