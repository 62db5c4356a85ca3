//! The client: connection-level facts (metadata, genesis hash, runtime
//! version, properties) assembled from the caller's fetches, and the
//! submittable-extrinsic entry points that combine the metadata store,
//! the extrinsic builder and the progress tracker.
//!
//! The transport itself is the caller's: the builder records the endpoint
//! or a pre-supplied handle descriptor, the caller performs the four
//! connection-time fetches over it, and `build` joins their results.

use vstd::prelude::*;
use crate::codec::{DecodeError, Prim, prims_valid, prim_views};
use crate::metadata::{Metadata, EncodeError, resolve_call_spec};
use crate::extrinsic::{
    RuntimeVersion, ExtraParam, Signer, SigningError, SignedExtrinsic,
    envelope_bytes, chosen_nonce,
};
use crate::hashing::{blake2_256_of, blake2_256};
use crate::progress::TransactionProgress;

verus! {

/// Any failure the client surfaces: transport, node, codec, metadata
/// resolution, or signing. Module errors live with the progress tracker.
#[derive(Debug, Clone)]
pub enum BasicError {
    /// The transport was lost or unreachable; never retried internally.
    Connection,
    /// The node rejected a request; carries the node's message bytes.
    Rpc(Vec<u8>),
    /// Response bytes did not match the expected shape.
    Decode(DecodeError),
    /// A caller-supplied name or value could not be encoded.
    Encode(EncodeError),
    /// The signer refused or the payload could not be framed.
    Signing(SigningError),
}

/// A handle descriptor for the node connection: the endpoint the caller's
/// transport dials. The connection itself lives with the caller.
#[derive(Debug, Clone)]
pub struct RpcClient {
    pub endpoint: Vec<u8>,
}

/// The request/subscription surface bound to one connection.
#[derive(Debug, Clone)]
pub struct Rpc {
    pub client: RpcClient,
}

impl Rpc {
    /// Bind the rpc surface to a connection handle.
    pub fn new(client: RpcClient) -> (r: Self)
        ensures
            r.client.endpoint@ == client.endpoint@,
    {
        Rpc { client }
    }
}

/// The chain-spec properties, kept as the raw bytes the node returned;
/// advisory only, so a failed fetch degrades to the empty default.
#[derive(Debug, Clone)]
pub struct SystemProperties {
    pub raw: Vec<u8>,
}

impl Default for SystemProperties {
    /// The default properties: empty.
    fn default() -> (r: Self)
        ensures
            r.raw@ == Seq::<u8>::empty(),
    {
        SystemProperties { raw: Vec::new() }
    }
}

/// The bytes of the well-known local endpoint used when no URL is set.
pub open spec fn default_url_bytes() -> Seq<u8> {
    seq![
        119u8, 115, 58, 47, 47, 49, 50, 55, 46, 48, 46, 48, 46, 49, 58, 57, 57, 52, 52,
    ]
}

/// The well-known local endpoint used when no URL is set.
pub fn default_url() -> (r: Vec<u8>)
    ensures
        r@ == default_url_bytes(),
{
    let r: Vec<u8> = vec![
        119u8, 115, 58, 47, 47, 49, 50, 55, 46, 48, 46, 48, 46, 49, 58, 57, 57, 52, 52,
    ];
    proof {
        assert(r@ =~= default_url_bytes());
    }
    r
}

/// The outcome of the four connection-time fetches, performed by the
/// caller concurrently over its transport: metadata, genesis hash and
/// runtime version are required, properties are advisory.
pub struct FetchedChainInfo {
    pub metadata: Result<Metadata, BasicError>,
    pub genesis_hash: Result<Vec<u8>, BasicError>,
    pub runtime_version: Result<RuntimeVersion, BasicError>,
    pub properties: Result<SystemProperties, BasicError>,
}

/// Client to interface with a node: the connection-level facts, shared
/// read-only by every request built against it.
#[derive(Debug, Clone)]
pub struct Client {
    pub rpc: Rpc,
    pub genesis_hash: Vec<u8>,
    pub metadata: Metadata,
    pub properties: SystemProperties,
    pub runtime_version: RuntimeVersion,
    pub iter_page_size: u32,
}

/// ClientBuilder for constructing a Client.
pub struct ClientBuilder {
    pub url: Option<Vec<u8>>,
    pub client: Option<RpcClient>,
    pub page_size: Option<u32>,
}

impl ClientBuilder {
    /// Creates a new ClientBuilder.
    pub fn new() -> (r: Self)
        ensures
            r.spec_url() is None,
            r.spec_client() is None,
            r.spec_page_size() is None,
    {
        ClientBuilder { url: None, client: None, page_size: None }
    }

    /// The URL set so far.
    pub open spec fn spec_url(&self) -> Option<Vec<u8>> {
        self.url
    }

    /// The pre-supplied connection handle set so far; overrides the URL.
    pub open spec fn spec_client(&self) -> Option<RpcClient> {
        self.client
    }

    /// The storage-iteration page size set so far.
    pub open spec fn spec_page_size(&self) -> Option<u32> {
        self.page_size
    }

    /// Sets the connection handle descriptor, overriding any URL.
    pub fn set_client(self, client: RpcClient) -> (r: Self)
        ensures
            r.spec_client() == Some(client),
            r.spec_url() == self.spec_url(),
            r.spec_page_size() == self.spec_page_size(),
    {
        ClientBuilder { client: Some(client), ..self }
    }

    /// Set the node's rpc address.
    pub fn set_url(self, url: Vec<u8>) -> (r: Self)
        ensures
            r.spec_url() == Some(url),
            r.spec_client() == self.spec_client(),
            r.spec_page_size() == self.spec_page_size(),
    {
        ClientBuilder { url: Some(url), ..self }
    }

    /// Set the page size for paginated storage reads.
    pub fn set_page_size(self, size: u32) -> (r: Self)
        ensures
            r.spec_page_size() == Some(size),
            r.spec_url() == self.spec_url(),
            r.spec_client() == self.spec_client(),
    {
        ClientBuilder { page_size: Some(size), ..self }
    }

    /// The connection handle the built client will use: the pre-supplied
    /// handle when one was set, else the set URL, else the default.
    pub open spec fn spec_endpoint(&self) -> Seq<u8> {
        match self.client {
            Some(c) => c.endpoint@,
            None => match self.url {
                Some(u) => u@,
                None => default_url_bytes(),
            },
        }
    }

    /// Creates a new Client by joining the caller's four connection-time
    /// fetches: metadata, genesis hash and runtime version must have
    /// succeeded (checked in that order), failed properties degrade to
    /// the default, and an unset page size defaults to 10.
    pub fn build(self, fetched: FetchedChainInfo) -> (r: Result<Client, BasicError>)
        ensures
            match r {
                Ok(c) => {
                    &&& fetched.metadata matches Ok(m) && c.metadata == m
                    &&& fetched.genesis_hash matches Ok(g) && c.genesis_hash == g
                    &&& fetched.runtime_version matches Ok(v) && c.runtime_version == v
                    &&& match fetched.properties {
                        Ok(p) => c.properties == p,
                        Err(_) => c.properties.raw@ == Seq::<u8>::empty(),
                    }
                    &&& c.iter_page_size == (match self.spec_page_size() {
                        Some(s) => s,
                        None => 10u32,
                    })
                    &&& c.rpc.client.endpoint@ == self.spec_endpoint()
                },
                Err(e) => {
                    ||| fetched.metadata == Err::<Metadata, BasicError>(e)
                    ||| (fetched.metadata is Ok
                        && fetched.genesis_hash == Err::<Vec<u8>, BasicError>(e))
                    ||| (fetched.metadata is Ok && fetched.genesis_hash is Ok
                        && fetched.runtime_version == Err::<RuntimeVersion, BasicError>(e))
                },
            },
    {
        let rpc_client = match self.client {
            Some(c) => c,
            None => match self.url {
                Some(u) => RpcClient { endpoint: u },
                None => RpcClient { endpoint: default_url() },
            },
        };
        let metadata = match fetched.metadata {
            Ok(m) => m,
            Err(e) => {
                return Err(e);
            },
        };
        let genesis_hash = match fetched.genesis_hash {
            Ok(g) => g,
            Err(e) => {
                return Err(e);
            },
        };
        let runtime_version = match fetched.runtime_version {
            Ok(v) => v,
            Err(e) => {
                return Err(e);
            },
        };
        let properties = match fetched.properties {
            Ok(p) => p,
            Err(_) => SystemProperties::default(),
        };
        let iter_page_size = match self.page_size {
            Some(s) => s,
            None => 10u32,
        };
        Ok(Client {
            rpc: Rpc::new(rpc_client),
            genesis_hash,
            metadata,
            properties,
            runtime_version,
            iter_page_size,
        })
    }
}

impl Client {
    /// Returns the genesis hash.
    pub fn genesis(&self) -> (r: &Vec<u8>)
        ensures
            r == &self.genesis_hash,
    {
        &self.genesis_hash
    }

    /// Returns the chain metadata.
    pub fn metadata(&self) -> (r: &Metadata)
        ensures
            r == &self.metadata,
    {
        &self.metadata
    }

    /// Returns the properties defined in the chain spec, as the raw bytes
    /// the node returned; merely a convention, left to the caller to
    /// interpret.
    pub fn properties(&self) -> (r: &SystemProperties)
        ensures
            r == &self.properties,
    {
        &self.properties
    }

    /// Returns the rpc surface.
    pub fn rpc(&self) -> (r: &Rpc)
        ensures
            r == &self.rpc,
    {
        &self.rpc
    }

    /// Create a client for accessing runtime storage.
    pub fn storage<'a>(&'a self) -> (r: StorageClient<'a>)
        ensures
            r.metadata == &self.metadata,
            r.rpc == &self.rpc,
            r.iter_page_size == self.iter_page_size,
    {
        StorageClient::new(&self.rpc, &self.metadata, self.iter_page_size)
    }

    /// Convert the client to a wrapper for chain-specific access.
    pub fn to_runtime_api<R: From<Client>>(self) -> R {
        R::from(self)
    }
}

/// Storage access: key derivation through the metadata store; the reads
/// themselves go through the caller's transport, page by page, and
/// surface rpc errors unchanged.
pub struct StorageClient<'a> {
    pub rpc: &'a Rpc,
    pub metadata: &'a Metadata,
    pub iter_page_size: u32,
}

impl<'a> StorageClient<'a> {
    /// Create a storage client over a connection's rpc surface and
    /// metadata.
    pub fn new(rpc: &'a Rpc, metadata: &'a Metadata, iter_page_size: u32) -> (r: Self)
        ensures
            r.rpc == rpc,
            r.metadata == metadata,
            r.iter_page_size == iter_page_size,
    {
        StorageClient { rpc, metadata, iter_page_size }
    }

    /// Derive the storage key for a point or paged read; the caller hands
    /// the key to its transport.
    pub fn storage_key(&self, pallet: &Vec<u8>, item: &Vec<u8>, key: Option<&Vec<u8>>) -> (r: Result<Vec<u8>, EncodeError>)
        ensures
            match r {
                Ok(bytes) => crate::metadata::storage_key_spec(
                    *self.metadata,
                    pallet@,
                    item@,
                    match key {
                        Some(k) => Some(k@),
                        None => None,
                    },
                ) == Ok::<Seq<u8>, EncodeError>(bytes@),
                Err(e) => crate::metadata::storage_key_spec(
                    *self.metadata,
                    pallet@,
                    item@,
                    match key {
                        Some(k) => Some(k@),
                        None => None,
                    },
                ) == Err::<Seq<u8>, EncodeError>(e),
            },
    {
        self.metadata.resolve_storage_key(pallet, item, key)
    }
}

/// What a successfully signed extrinsic is: the call resolved against the
/// client's metadata, framed in the signed envelope under the signer's
/// account, the settled nonce and the given contributors, with a 64-byte
/// signature the signer produced over the signing payload of exactly this
/// material — never a substituted or fabricated one.
pub open spec fn signed_for_call<S: Signer>(
    signer: S,
    client: Client,
    call: CallData,
    nonce: u32,
    extras: Seq<ExtraParam>,
    bytes: Seq<u8>,
) -> bool {
    let call_bytes = resolve_call_spec(client.metadata, call.pallet@, call.call@, prim_views(call.args@));
    &&& call_bytes is Ok
    &&& signer.spec_account_id().len() == 32
    &&& exists|sig: Seq<u8>|
        sig.len() == 64
        && signer.spec_may_sign(
            crate::extrinsic::signing_payload_spec(
                call_bytes->Ok_0,
                nonce,
                extras,
                client.runtime_version,
                client.genesis_hash@,
            ),
            sig,
        )
        && bytes == envelope_bytes(signer.spec_account_id(), sig, nonce, extras, call_bytes->Ok_0)
}

/// What a signing or submission entry point's error says: an encode error
/// is exactly the call resolution's, a signing error arises only after
/// the call resolved, and no other error is returned before the caller's
/// transport is involved.
pub open spec fn submit_error_spec(client: Client, call: CallData, e: BasicError) -> bool {
    match e {
        BasicError::Encode(enc) => resolve_call_spec(
            client.metadata,
            call.pallet@,
            call.call@,
            prim_views(call.args@),
        ) == Err::<Seq<u8>, EncodeError>(enc),
        BasicError::Signing(_) => resolve_call_spec(
            client.metadata,
            call.pallet@,
            call.call@,
            prim_views(call.args@),
        ) is Ok,
        _ => false,
    }
}

/// A call value: the (pallet name, call name, argument values) triple a
/// caller builds and the metadata store resolves to encoded call bytes.
#[derive(Debug, Clone)]
pub struct CallData {
    pub pallet: Vec<u8>,
    pub call: Vec<u8>,
    pub args: Vec<Prim>,
}

/// A constructed call ready to be signed and submitted.
pub struct SubmittableExtrinsic<'client> {
    pub client: &'client Client,
    pub call: CallData,
}

impl<'client> SubmittableExtrinsic<'client> {
    /// Create a new SubmittableExtrinsic.
    pub fn new(client: &'client Client, call: CallData) -> (r: Self)
        ensures
            r.client == client,
            r.call == call,
    {
        SubmittableExtrinsic { client, call }
    }

    /// Creates a signed extrinsic: resolves the call against the client's
    /// metadata, settles the nonce (the signer's own, else the one the
    /// caller queried from the node), builds the signing payload and asks
    /// the signer for the signature.
    ///
    /// `queried_nonce` is the node's next expected index for the signer's
    /// account, fetched by the caller exactly once, and only when the
    /// signer supplies no nonce of its own.
    pub fn create_signed<S: Signer>(&self, signer: &S, queried_nonce: Option<u32>, extras: &Vec<ExtraParam>) -> (r: Result<SignedExtrinsic, BasicError>)
        requires
            signer.spec_nonce() is None ==> queried_nonce is Some,
            prims_valid(prim_views(self.call.args@)),
        ensures
            match r {
                Ok(ext) => signed_for_call(
                    *signer,
                    *self.client,
                    self.call,
                    chosen_nonce(signer.spec_nonce(), queried_nonce),
                    extras@,
                    ext.bytes@,
                ),
                Err(e) => submit_error_spec(*self.client, self.call, e),
            },
    {
        let account_nonce = match signer.nonce() {
            Some(n) => n,
            None => match queried_nonce {
                Some(q) => q,
                None => {
                    proof {
                        assert(false);
                    }
                    0u32
                },
            },
        };
        let call_bytes = match self.client.metadata.resolve_call(
            &self.call.pallet,
            &self.call.call,
            &self.call.args,
        ) {
            Ok(b) => b,
            Err(e) => {
                return Err(BasicError::Encode(e));
            },
        };
        match crate::extrinsic::create_signed(
            &self.client.runtime_version,
            &self.client.genesis_hash,
            account_nonce,
            &call_bytes,
            signer,
            extras,
        ) {
            Ok(ext) => Ok(ext),
            Err(e) => Err(BasicError::Signing(e)),
        }
    }

    /// Creates and signs an extrinsic and binds a progress tracker to its
    /// pre-inclusion hash. The caller submits the returned bytes through
    /// its transport's submit-and-watch method and feeds the resulting
    /// status subscription to the tracker.
    pub fn sign_and_submit_then_watch<S: Signer>(self, signer: &S, queried_nonce: Option<u32>) -> (r: Result<(SignedExtrinsic, TransactionProgress), BasicError>)
        requires
            signer.spec_nonce() is None ==> queried_nonce is Some,
            prims_valid(prim_views(self.call.args@)),
        ensures
            match r {
                Ok((ext, prog)) => {
                    &&& signed_for_call(
                        *signer,
                        *self.client,
                        self.call,
                        chosen_nonce(signer.spec_nonce(), queried_nonce),
                        Seq::<ExtraParam>::empty(),
                        ext.bytes@,
                    )
                    &&& prog.ext_hash@ == blake2_256_of(ext.bytes@)
                },
                Err(e) => submit_error_spec(*self.client, self.call, e),
            },
    {
        let extras: Vec<ExtraParam> = Vec::new();
        proof {
            assert(extras@ =~= Seq::<ExtraParam>::empty());
        }
        let ext = match self.create_signed(signer, queried_nonce, &extras) {
            Ok(ext) => ext,
            Err(e) => {
                return Err(e);
            },
        };
        let ext_hash = blake2_256(&ext.bytes);
        let progress = TransactionProgress::new(ext_hash);
        Ok((ext, progress))
    }

    /// As `sign_and_submit_then_watch`, with explicit signed-extra
    /// parameters.
    pub fn sign_and_submit_with_aditional_then_watch<S: Signer>(self, signer: &S, queried_nonce: Option<u32>, additional_params: Vec<ExtraParam>) -> (r: Result<(SignedExtrinsic, TransactionProgress), BasicError>)
        requires
            signer.spec_nonce() is None ==> queried_nonce is Some,
            prims_valid(prim_views(self.call.args@)),
        ensures
            match r {
                Ok((ext, prog)) => {
                    &&& signed_for_call(
                        *signer,
                        *self.client,
                        self.call,
                        chosen_nonce(signer.spec_nonce(), queried_nonce),
                        additional_params@,
                        ext.bytes@,
                    )
                    &&& prog.ext_hash@ == blake2_256_of(ext.bytes@)
                },
                Err(e) => submit_error_spec(*self.client, self.call, e),
            },
    {
        let ext = match self.create_signed(signer, queried_nonce, &additional_params) {
            Ok(ext) => ext,
            Err(e) => {
                return Err(e);
            },
        };
        let ext_hash = blake2_256(&ext.bytes);
        let progress = TransactionProgress::new(ext_hash);
        Ok((ext, progress))
    }

    /// Creates and signs an extrinsic for pool submission: the returned
    /// hash identifies it once the node accepts it; acceptance does not
    /// imply inclusion. The caller submits the bytes through its
    /// transport's fire-and-forget method.
    pub fn sign_and_submit<S: Signer>(self, signer: &S, queried_nonce: Option<u32>) -> (r: Result<(SignedExtrinsic, Vec<u8>), BasicError>)
        requires
            signer.spec_nonce() is None ==> queried_nonce is Some,
            prims_valid(prim_views(self.call.args@)),
        ensures
            match r {
                Ok((ext, h)) => {
                    &&& signed_for_call(
                        *signer,
                        *self.client,
                        self.call,
                        chosen_nonce(signer.spec_nonce(), queried_nonce),
                        Seq::<ExtraParam>::empty(),
                        ext.bytes@,
                    )
                    &&& h@ == blake2_256_of(ext.bytes@)
                },
                Err(e) => submit_error_spec(*self.client, self.call, e),
            },
    {
        let empty: Vec<ExtraParam> = Vec::new();
        proof {
            assert(empty@ =~= Seq::<ExtraParam>::empty());
        }
        self.sign_and_submit_with_additional(signer, queried_nonce, empty)
    }

    /// As `sign_and_submit`, with explicit signed-extra parameters.
    pub fn sign_and_submit_with_additional<S: Signer>(self, signer: &S, queried_nonce: Option<u32>, additional_params: Vec<ExtraParam>) -> (r: Result<(SignedExtrinsic, Vec<u8>), BasicError>)
        requires
            signer.spec_nonce() is None ==> queried_nonce is Some,
            prims_valid(prim_views(self.call.args@)),
        ensures
            match r {
                Ok((ext, h)) => {
                    &&& signed_for_call(
                        *signer,
                        *self.client,
                        self.call,
                        chosen_nonce(signer.spec_nonce(), queried_nonce),
                        additional_params@,
                        ext.bytes@,
                    )
                    &&& h@ == blake2_256_of(ext.bytes@)
                },
                Err(e) => submit_error_spec(*self.client, self.call, e),
            },
    {
        let ext = match self.create_signed(signer, queried_nonce, &additional_params) {
            Ok(ext) => ext,
            Err(e) => {
                return Err(e);
            },
        };
        let ext_hash = blake2_256(&ext.bytes);
        Ok((ext, ext_hash))
    }
}

} // verus!
