//! Extrinsic construction and signing: assembling the signed-extra and
//! additional-signed material, the signing payload, and the versioned
//! signed envelope, from a pallet/call encoding and signer-supplied
//! account material. State-free per call.

use vstd::prelude::*;
use crate::codec::{u32_le, compact_u32_enc, encode_u32_into, encode_compact_u32_into, append_bytes};
use crate::hashing::{blake2_256_of, blake2_256};

verus! {

/// Why an extrinsic could not be signed.
#[derive(Clone, Copy, PartialEq, Eq, Structural, Debug)]
pub enum SigningError {
    /// The signer refused or failed to produce a signature; never
    /// substituted with a default signature.
    SignerRefused,
    /// The assembled body does not fit the compact length prefix.
    PayloadTooLarge,
    /// The signer handed back an account id or signature of the wrong
    /// length for the envelope.
    BadSignerMaterial,
}

/// The node runtime's version facts that ride in the signed material; a
/// mismatch with the node causes a bad-signature rejection, not a decode
/// error.
#[derive(Debug, Clone, Copy, PartialEq, Eq, Structural)]
pub struct RuntimeVersion {
    pub spec_version: u32,
    pub transaction_version: u32,
}

/// One signed-extra contributor: a typed parameter that both rides in the
/// signed payload (transmitted bytes) and participates in the additional
/// signed material that is signed but not transmitted. New chains add
/// variants without touching the signing algorithm.
#[derive(Debug, Clone, Copy, PartialEq, Eq, Structural)]
pub enum ExtraParam {
    /// A transaction tip; transmitted as a compact integer, nothing
    /// additional.
    Tip(u32),
    /// A fee-asset selector; transmitted and signed additionally as four
    /// little-endian bytes each.
    FeeAsset(u32),
    /// An application or channel identifier; transmitted as a compact
    /// integer, nothing additional.
    AppId(u32),
}

/// The bytes a contributor places in the transmitted extrinsic.
pub open spec fn extra_tx_bytes(p: ExtraParam) -> Seq<u8> {
    match p {
        ExtraParam::Tip(t) => compact_u32_enc(t),
        ExtraParam::FeeAsset(a) => u32_le(a),
        ExtraParam::AppId(id) => compact_u32_enc(id),
    }
}

/// The bytes a contributor places in the additional signed material.
pub open spec fn extra_additional_bytes(p: ExtraParam) -> Seq<u8> {
    match p {
        ExtraParam::Tip(_) => Seq::empty(),
        ExtraParam::FeeAsset(a) => u32_le(a),
        ExtraParam::AppId(_) => Seq::empty(),
    }
}

/// The transmitted bytes of an ordered list of contributors.
pub open spec fn extras_tx_bytes(ps: Seq<ExtraParam>) -> Seq<u8>
    decreases ps.len(),
{
    if ps.len() == 0 {
        Seq::empty()
    } else {
        extra_tx_bytes(ps[0]) + extras_tx_bytes(ps.skip(1))
    }
}

/// The additional signed bytes of an ordered list of contributors.
pub open spec fn extras_additional_bytes(ps: Seq<ExtraParam>) -> Seq<u8>
    decreases ps.len(),
{
    if ps.len() == 0 {
        Seq::empty()
    } else {
        extra_additional_bytes(ps[0]) + extras_additional_bytes(ps.skip(1))
    }
}

/// Appending one contributor extends the transmitted bytes at the end.
pub proof fn lemma_extras_tx_push(ps: Seq<ExtraParam>, p: ExtraParam)
    ensures
        extras_tx_bytes(ps.push(p)) == extras_tx_bytes(ps) + extra_tx_bytes(p),
    decreases ps.len(),
{
    if ps.len() == 0 {
        assert(ps =~= Seq::<ExtraParam>::empty());
        assert(ps.push(p)[0] == p);
        assert(ps.push(p).skip(1) =~= Seq::<ExtraParam>::empty());
        assert(extras_tx_bytes(ps.push(p))
            == extra_tx_bytes(p) + extras_tx_bytes(Seq::<ExtraParam>::empty()));
        assert(extra_tx_bytes(p) + extras_tx_bytes(Seq::<ExtraParam>::empty())
            =~= extras_tx_bytes(ps) + extra_tx_bytes(p));
    } else {
        lemma_extras_tx_push(ps.skip(1), p);
        assert(ps.push(p)[0] == ps[0]);
        assert(ps.push(p).skip(1) =~= ps.skip(1).push(p));
        assert(extras_tx_bytes(ps.push(p))
            == extra_tx_bytes(ps[0]) + (extras_tx_bytes(ps.skip(1)) + extra_tx_bytes(p)));
        assert(extra_tx_bytes(ps[0]) + (extras_tx_bytes(ps.skip(1)) + extra_tx_bytes(p))
            =~= (extra_tx_bytes(ps[0]) + extras_tx_bytes(ps.skip(1))) + extra_tx_bytes(p));
    }
}

/// Appending one contributor extends the additional bytes at the end.
pub proof fn lemma_extras_additional_push(ps: Seq<ExtraParam>, p: ExtraParam)
    ensures
        extras_additional_bytes(ps.push(p)) == extras_additional_bytes(ps) + extra_additional_bytes(p),
    decreases ps.len(),
{
    if ps.len() == 0 {
        assert(ps =~= Seq::<ExtraParam>::empty());
        assert(ps.push(p)[0] == p);
        assert(ps.push(p).skip(1) =~= Seq::<ExtraParam>::empty());
        assert(extras_additional_bytes(ps.push(p))
            == extra_additional_bytes(p) + extras_additional_bytes(Seq::<ExtraParam>::empty()));
        assert(extra_additional_bytes(p) + extras_additional_bytes(Seq::<ExtraParam>::empty())
            =~= extras_additional_bytes(ps) + extra_additional_bytes(p));
    } else {
        lemma_extras_additional_push(ps.skip(1), p);
        assert(ps.push(p)[0] == ps[0]);
        assert(ps.push(p).skip(1) =~= ps.skip(1).push(p));
        assert(extras_additional_bytes(ps.push(p))
            == extra_additional_bytes(ps[0])
                + (extras_additional_bytes(ps.skip(1)) + extra_additional_bytes(p)));
        assert(extra_additional_bytes(ps[0])
            + (extras_additional_bytes(ps.skip(1)) + extra_additional_bytes(p))
            =~= (extra_additional_bytes(ps[0]) + extras_additional_bytes(ps.skip(1)))
                + extra_additional_bytes(p));
    }
}

/// The signed-extra bytes transmitted inside the extrinsic: the compact
/// account nonce, then each contributor's transmitted bytes in order.
pub open spec fn signed_extra_bytes(nonce: u32, extras: Seq<ExtraParam>) -> Seq<u8> {
    compact_u32_enc(nonce) + extras_tx_bytes(extras)
}

/// The additional signed material that is signed but not transmitted: the
/// runtime spec and transaction versions, the genesis hash twice (as the
/// chain identity and as the mortality checkpoint of an immortal
/// extrinsic), then each contributor's additional bytes in order.
pub open spec fn additional_signed_bytes(rv: RuntimeVersion, genesis: Seq<u8>, extras: Seq<ExtraParam>) -> Seq<u8> {
    u32_le(rv.spec_version) + u32_le(rv.transaction_version) + genesis + genesis
        + extras_additional_bytes(extras)
}

/// What the signer is asked to sign: call bytes, signed-extra bytes and
/// additional signed bytes concatenated; hashed down to 32 bytes when the
/// concatenation exceeds 256 bytes.
pub open spec fn signing_payload_spec(call: Seq<u8>, nonce: u32, extras: Seq<ExtraParam>, rv: RuntimeVersion, genesis: Seq<u8>) -> Seq<u8> {
    let raw = call + signed_extra_bytes(nonce, extras) + additional_signed_bytes(rv, genesis, extras);
    if raw.len() <= 256 {
        raw
    } else {
        blake2_256_of(raw)
    }
}

/// The body of a signed extrinsic envelope: the signed-version byte, the
/// account (prefixed by its one-byte address tag), the signature
/// (prefixed by its one-byte scheme tag), the signed-extra bytes, then
/// the call bytes.
pub open spec fn envelope_body(account: Seq<u8>, sig: Seq<u8>, nonce: u32, extras: Seq<ExtraParam>, call: Seq<u8>) -> Seq<u8> {
    seq![0x84u8, 0x00u8] + account + seq![0x01u8] + sig + signed_extra_bytes(nonce, extras) + call
}

/// A complete signed extrinsic: the body with its compact length prefix.
pub open spec fn envelope_bytes(account: Seq<u8>, sig: Seq<u8>, nonce: u32, extras: Seq<ExtraParam>, call: Seq<u8>) -> Seq<u8> {
    let body = envelope_body(account, sig, nonce, extras, call);
    compact_u32_enc(body.len() as u32) + body
}

/// A signed extrinsic, immutable once built. The hash of these bytes is
/// the extrinsic's identity for progress tracking, not its final
/// block-inclusion hash.
#[derive(Debug, Clone)]
pub struct SignedExtrinsic {
    pub bytes: Vec<u8>,
}

/// Produces signatures over payloads, and optionally an explicit account
/// nonce. Implemented outside the library (a keypair, a hardware key);
/// nothing here checks how the signature is made.
pub trait Signer {
    /// The account the signer signs for.
    spec fn spec_account_id(&self) -> Seq<u8>;

    /// The nonce the signer supplies, if it supplies one.
    spec fn spec_nonce(&self) -> Option<u32>;

    /// Whether this signer can have produced `sig` over `payload`: every
    /// signature the signer hands out satisfies it, so a contract that
    /// carries it rules out fabricated or substituted signatures.
    spec fn spec_may_sign(&self, payload: Seq<u8>, sig: Seq<u8>) -> bool;

    /// The account id; 32 bytes for any signer the envelope accepts.
    fn account_id(&self) -> (r: Vec<u8>)
        ensures
            r@ == self.spec_account_id(),
    ;

    /// The explicit nonce, if any; `None` directs the builder to query
    /// the node once for the account's next index.
    fn nonce(&self) -> (r: Option<u32>)
        ensures
            r == self.spec_nonce(),
    ;

    /// Sign a payload, or refuse. A produced signature is one this signer
    /// may sign over exactly this payload; the builder checks its length
    /// before framing it.
    fn sign(&self, payload: &Vec<u8>) -> (r: Result<Vec<u8>, SigningError>)
        ensures
            r matches Ok(sig) ==> self.spec_may_sign(payload@, sig@),
    ;
}

/// A signer that carries a pre-produced signature and fixed account
/// material, for externally coordinated signing (an air-gapped device, a
/// test fixture): it signs every payload with the same bytes.
#[derive(Debug, Clone)]
pub struct StaticSigner {
    /// The 32-byte account id signed for.
    pub account: Vec<u8>,
    /// The nonce to use, or `None` to have the builder query the node.
    pub fixed_nonce: Option<u32>,
    /// The externally produced 64-byte signature; `None` when the
    /// signing device is unavailable, which makes the signer refuse.
    pub signature: Option<Vec<u8>>,
}

impl Signer for StaticSigner {
    open spec fn spec_account_id(&self) -> Seq<u8> {
        self.account@
    }

    open spec fn spec_nonce(&self) -> Option<u32> {
        self.fixed_nonce
    }

    open spec fn spec_may_sign(&self, payload: Seq<u8>, sig: Seq<u8>) -> bool {
        match self.signature {
            Some(s) => sig == s@,
            None => false,
        }
    }

    fn account_id(&self) -> (r: Vec<u8>) {
        let r = crate::codec::copy_range(&self.account, 0, self.account.len());
        proof {
            assert(r@ =~= self.account@);
        }
        r
    }

    fn nonce(&self) -> (r: Option<u32>) {
        self.fixed_nonce
    }

    fn sign(&self, payload: &Vec<u8>) -> (r: Result<Vec<u8>, SigningError>) {
        match &self.signature {
            Some(sig) => {
                let out = crate::codec::copy_range(sig, 0, sig.len());
                proof {
                    assert(out@ =~= sig@);
                }
                Ok(out)
            },
            None => Err(SigningError::SignerRefused),
        }
    }
}

/// Append each contributor's transmitted bytes in order.
pub fn encode_extras_tx_into(out: &mut Vec<u8>, extras: &Vec<ExtraParam>)
    ensures
        final(out)@ == old(out)@ + extras_tx_bytes(extras@),
{
    let mut i: usize = 0;
    while i < extras.len()
        invariant
            i <= extras@.len(),
            out@ == old(out)@ + extras_tx_bytes(extras@.take(i as int)),
        decreases extras@.len() - i,
    {
        let ghost pre = extras@.take(i as int);
        match extras[i] {
            ExtraParam::Tip(t) => encode_compact_u32_into(out, t),
            ExtraParam::FeeAsset(a) => encode_u32_into(out, a),
            ExtraParam::AppId(id) => encode_compact_u32_into(out, id),
        }
        i = i + 1;
        proof {
            lemma_extras_tx_push(pre, extras@[i - 1]);
            assert(pre.push(extras@[i - 1]) =~= extras@.take(i as int));
        }
    }
    proof {
        assert(extras@.take(extras@.len() as int) =~= extras@);
    }
}

/// Append each contributor's additional signed bytes in order.
pub fn encode_extras_additional_into(out: &mut Vec<u8>, extras: &Vec<ExtraParam>)
    ensures
        final(out)@ == old(out)@ + extras_additional_bytes(extras@),
{
    let mut i: usize = 0;
    while i < extras.len()
        invariant
            i <= extras@.len(),
            out@ == old(out)@ + extras_additional_bytes(extras@.take(i as int)),
        decreases extras@.len() - i,
    {
        let ghost pre = extras@.take(i as int);
        match extras[i] {
            ExtraParam::Tip(_) => {},
            ExtraParam::FeeAsset(a) => encode_u32_into(out, a),
            ExtraParam::AppId(_) => {},
        }
        i = i + 1;
        proof {
            lemma_extras_additional_push(pre, extras@[i - 1]);
            assert(pre.push(extras@[i - 1]) =~= extras@.take(i as int));
            assert(out@ == old(out)@ + extras_additional_bytes(extras@.take(i as int)));
        }
    }
    proof {
        assert(extras@.take(extras@.len() as int) =~= extras@);
    }
}

/// Build the payload the signer is asked to sign.
pub fn build_signing_payload(call: &Vec<u8>, nonce: u32, extras: &Vec<ExtraParam>, rv: &RuntimeVersion, genesis_hash: &Vec<u8>) -> (r: Vec<u8>)
    ensures
        r@ == signing_payload_spec(call@, nonce, extras@, *rv, genesis_hash@),
{
    let mut raw: Vec<u8> = Vec::new();
    append_bytes(&mut raw, call);
    encode_compact_u32_into(&mut raw, nonce);
    encode_extras_tx_into(&mut raw, extras);
    encode_u32_into(&mut raw, rv.spec_version);
    encode_u32_into(&mut raw, rv.transaction_version);
    append_bytes(&mut raw, genesis_hash);
    append_bytes(&mut raw, genesis_hash);
    encode_extras_additional_into(&mut raw, extras);
    proof {
        assert(raw@ =~= call@ + signed_extra_bytes(nonce, extras@)
            + additional_signed_bytes(*rv, genesis_hash@, extras@));
    }
    if raw.len() <= 256 {
        raw
    } else {
        blake2_256(&raw)
    }
}

/// Assemble the versioned signed envelope from the signature the signer
/// produced and the material that was signed.
pub fn assemble_signed(account: &Vec<u8>, signature: &Vec<u8>, nonce: u32, extras: &Vec<ExtraParam>, call: &Vec<u8>) -> (r: Result<SignedExtrinsic, SigningError>)
    requires
        account@.len() == 32,
        signature@.len() == 64,
    ensures
        match r {
            Ok(ext) => {
                &&& envelope_body(account@, signature@, nonce, extras@, call@).len() < 0x4000_0000
                &&& ext.bytes@ == envelope_bytes(account@, signature@, nonce, extras@, call@)
            },
            Err(SigningError::PayloadTooLarge) =>
                envelope_body(account@, signature@, nonce, extras@, call@).len() >= 0x4000_0000,
            Err(_) => false,
        },
{
    let mut body: Vec<u8> = Vec::new();
    body.push(0x84u8);
    body.push(0x00u8);
    append_bytes(&mut body, account);
    body.push(0x01u8);
    append_bytes(&mut body, signature);
    encode_compact_u32_into(&mut body, nonce);
    encode_extras_tx_into(&mut body, extras);
    append_bytes(&mut body, call);
    proof {
        assert(body@ =~= envelope_body(account@, signature@, nonce, extras@, call@));
    }
    if body.len() >= 0x4000_0000 {
        return Err(SigningError::PayloadTooLarge);
    }
    let mut out: Vec<u8> = Vec::new();
    encode_compact_u32_into(&mut out, body.len() as u32);
    append_bytes(&mut out, &body);
    Ok(SignedExtrinsic { bytes: out })
}

/// Build and sign an extrinsic: derive the signing payload from the
/// runtime version, genesis hash, account nonce, call bytes and
/// contributors, ask the signer for a signature over it, and assemble the
/// signed envelope. Fails only when the signer refuses or the body
/// exceeds the length prefix; never substitutes a default signature.
pub fn create_signed<S: Signer>(rv: &RuntimeVersion, genesis_hash: &Vec<u8>, account_nonce: u32, call: &Vec<u8>, signer: &S, extras: &Vec<ExtraParam>) -> (r: Result<SignedExtrinsic, SigningError>)
    ensures
        match r {
            Ok(ext) => {
                &&& signer.spec_account_id().len() == 32
                &&& exists|sig: Seq<u8>|
                    sig.len() == 64
                    && signer.spec_may_sign(
                        signing_payload_spec(call@, account_nonce, extras@, *rv, genesis_hash@),
                        sig,
                    )
                    && ext.bytes@ == envelope_bytes(
                        signer.spec_account_id(),
                        sig,
                        account_nonce,
                        extras@,
                        call@,
                    )
            },
            // the signer decides refusal and material lengths; the length
            // prefix's limit is computable from the inputs
            Err(SigningError::PayloadTooLarge) =>
                99 + signed_extra_bytes(account_nonce, extras@).len() + call@.len()
                    >= 0x4000_0000,
            Err(SigningError::SignerRefused) => true,
            Err(SigningError::BadSignerMaterial) => true,
        },
{
    let payload = build_signing_payload(call, account_nonce, extras, rv, genesis_hash);
    let signature = match signer.sign(&payload) {
        Ok(sig) => sig,
        Err(_) => {
            return Err(SigningError::SignerRefused);
        },
    };
    if signature.len() != 64 {
        return Err(SigningError::BadSignerMaterial);
    }
    let account = signer.account_id();
    if account.len() != 32 {
        return Err(SigningError::BadSignerMaterial);
    }
    match assemble_signed(&account, &signature, account_nonce, extras, call) {
        Ok(ext) => {
            proof {
                assert(signature@.len() == 64
                    && ext.bytes@ == envelope_bytes(
                        signer.spec_account_id(),
                        signature@,
                        account_nonce,
                        extras@,
                        call@,
                    ));
            }
            Ok(ext)
        },
        Err(e) => Err(e),
    }
}

// ---------------------------------------------------------------------
// Nonce resolution policy
// ---------------------------------------------------------------------

/// The nonce the builder uses: the signer's own when it supplies one,
/// else the one the caller queried from the node.
pub open spec fn chosen_nonce(signer_nonce: Option<u32>, queried: Option<u32>) -> u32 {
    match signer_nonce {
        Some(n) => n,
        None => match queried {
            Some(q) => q,
            None => 0,
        },
    }
}

/// What the builder does about the account nonce.
#[derive(Debug, Clone, Copy, PartialEq, Eq, Structural)]
pub enum NoncePlan {
    /// The signer supplied a nonce; use it, query nothing.
    UseSupplied(u32),
    /// The signer supplied none; query the node's next expected index for
    /// the account exactly once, then build.
    QueryNodeOnce,
}

/// The nonce plan a signer-supplied nonce dictates.
pub open spec fn nonce_plan_spec(signer_nonce: Option<u32>) -> NoncePlan {
    match signer_nonce {
        Some(n) => NoncePlan::UseSupplied(n),
        None => NoncePlan::QueryNodeOnce,
    }
}

/// Decide the nonce policy for one submission.
pub fn plan_nonce(signer_nonce: Option<u32>) -> (r: NoncePlan)
    ensures
        r == nonce_plan_spec(signer_nonce),
{
    match signer_nonce {
        Some(n) => NoncePlan::UseSupplied(n),
        None => NoncePlan::QueryNodeOnce,
    }
}

/// Nonce omission: when the signer supplies no explicit nonce the builder
/// queries exactly one next-index lookup before constructing the
/// extrinsic, and when it supplies one the builder queries none and uses
/// it unchanged.
pub proof fn lemma_nonce_omission(signer_nonce: Option<u32>)
    ensures
        signer_nonce is None ==> nonce_plan_spec(signer_nonce) == NoncePlan::QueryNodeOnce,
        forall|n: u32| signer_nonce == Some(n)
            ==> nonce_plan_spec(signer_nonce) == NoncePlan::UseSupplied(n),
{
}

} // verus!
