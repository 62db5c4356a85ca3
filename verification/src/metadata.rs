//! The metadata store: an index of pallets, calls, storage entries and
//! error definitions parsed from a chain's runtime metadata, and the
//! resolution of call and storage names to encoded bytes.

use vstd::prelude::*;
use crate::codec::{Prim, PrimV, PrimDesc, DecodeError, prims_match, prims_valid, prim_views, enc_prims, encode_prims_into, bytes_eq, compact_u32_dec};
use crate::hashing::{twox128_of, twox64_of, blake2_128_of, twox_128, twox_64, blake2_128};

verus! {

/// A caller-supplied name or value could not be encoded against the
/// loaded metadata.
#[derive(Clone, Copy, PartialEq, Eq, Structural, Debug)]
pub enum EncodeError {
    /// No pallet of the given name is in the loaded metadata.
    PalletNotFound,
    /// The pallet exists but has no call of the given name.
    CallNotFound,
    /// The pallet exists but has no storage entry of the given name.
    StorageItemNotFound,
    /// An argument value does not have the shape its descriptor declares.
    ArgumentTypeMismatch,
}

/// The key-hashing scheme a storage map declares; read from metadata,
/// never assumed.
#[derive(Debug, Clone, Copy, PartialEq, Eq, Structural)]
pub enum StorageHasher {
    /// 16-byte Blake2b digest of the key, then the key itself.
    Blake2_128Concat,
    /// 8-byte xx-hash of the key, then the key itself.
    Twox64Concat,
    /// The key itself, unhashed.
    Identity,
}

/// One call variant of a pallet: its name, its index within the pallet,
/// and the type descriptors of its arguments, positionally.
#[derive(Debug, Clone)]
pub struct CallDef {
    pub name: Vec<u8>,
    pub index: u8,
    pub args: Vec<PrimDesc>,
}

/// One storage entry of a pallet: its name and its declared key hasher.
#[derive(Debug, Clone)]
pub struct StorageDef {
    pub name: Vec<u8>,
    pub hasher: StorageHasher,
}

/// One error variant of a pallet: its index, name and documentation.
#[derive(Debug, Clone)]
pub struct ErrorDef {
    pub index: u8,
    pub name: Vec<u8>,
    pub docs: Vec<u8>,
}

/// One pallet: a named module with an index, calls, storage entries and
/// error variants.
#[derive(Debug, Clone)]
pub struct Pallet {
    pub name: Vec<u8>,
    pub index: u8,
    pub calls: Vec<CallDef>,
    pub storage: Vec<StorageDef>,
    pub errors: Vec<ErrorDef>,
}

/// The parsed runtime metadata: an ordered collection of pallets.
/// Immutable once loaded; every resolution below is a pure function of it.
#[derive(Debug, Clone)]
pub struct Metadata {
    pub pallets: Vec<Pallet>,
}

// ---------------------------------------------------------------------
// Lookups, each pinned to the first match in declaration order
// ---------------------------------------------------------------------

/// The index of the first pallet named `name` at or after `i`.
pub open spec fn first_pallet_by_name(ps: Seq<Pallet>, name: Seq<u8>, i: int) -> Option<int>
    decreases ps.len() - i when 0 <= i <= ps.len()
{
    if i >= ps.len() {
        None
    } else if ps[i].name@ == name {
        Some(i)
    } else {
        first_pallet_by_name(ps, name, i + 1)
    }
}

/// The index of the first call named `name` at or after `i`.
pub open spec fn first_call_by_name(cs: Seq<CallDef>, name: Seq<u8>, i: int) -> Option<int>
    decreases cs.len() - i when 0 <= i <= cs.len()
{
    if i >= cs.len() {
        None
    } else if cs[i].name@ == name {
        Some(i)
    } else {
        first_call_by_name(cs, name, i + 1)
    }
}

/// The index of the first storage entry named `name` at or after `i`.
pub open spec fn first_storage_by_name(ss: Seq<StorageDef>, name: Seq<u8>, i: int) -> Option<int>
    decreases ss.len() - i when 0 <= i <= ss.len()
{
    if i >= ss.len() {
        None
    } else if ss[i].name@ == name {
        Some(i)
    } else {
        first_storage_by_name(ss, name, i + 1)
    }
}

/// The index of the first pallet whose pallet index is `idx`, at or after `i`.
pub open spec fn first_pallet_by_index(ps: Seq<Pallet>, idx: u8, i: int) -> Option<int>
    decreases ps.len() - i when 0 <= i <= ps.len()
{
    if i >= ps.len() {
        None
    } else if ps[i].index == idx {
        Some(i)
    } else {
        first_pallet_by_index(ps, idx, i + 1)
    }
}

/// The index of the first error variant whose index is `idx`, at or after `i`.
pub open spec fn first_error_by_index(es: Seq<ErrorDef>, idx: u8, i: int) -> Option<int>
    decreases es.len() - i when 0 <= i <= es.len()
{
    if i >= es.len() {
        None
    } else if es[i].index == idx {
        Some(i)
    } else {
        first_error_by_index(es, idx, i + 1)
    }
}

// ---------------------------------------------------------------------
// Resolution, as total functions of the metadata and the inputs
// ---------------------------------------------------------------------

/// What resolving a (pallet, call, arguments) triple yields: the pallet
/// index byte, the call index byte, then the arguments encoded
/// positionally; or the first applicable error.
pub open spec fn resolve_call_spec(m: Metadata, pallet: Seq<u8>, call: Seq<u8>, args: Seq<PrimV>) -> Result<Seq<u8>, EncodeError> {
    match first_pallet_by_name(m.pallets@, pallet, 0) {
        None => Err(EncodeError::PalletNotFound),
        Some(pi) => {
            let p = m.pallets@[pi];
            match first_call_by_name(p.calls@, call, 0) {
                None => Err(EncodeError::CallNotFound),
                Some(ci) => {
                    let c = p.calls@[ci];
                    if prims_match(args, c.args@) {
                        Ok(seq![p.index, c.index] + enc_prims(args))
                    } else {
                        Err(EncodeError::ArgumentTypeMismatch)
                    }
                },
            }
        },
    }
}

/// What the key material contributes to a storage key under a hasher.
pub open spec fn hasher_apply(h: StorageHasher, k: Seq<u8>) -> Seq<u8> {
    match h {
        StorageHasher::Blake2_128Concat => blake2_128_of(k) + k,
        StorageHasher::Twox64Concat => twox64_of(k) + k,
        StorageHasher::Identity => k,
    }
}

/// What deriving a storage key yields: the 16-byte xx-hash of the pallet
/// name, the 16-byte xx-hash of the item name, and for maps the key
/// material hashed as the entry's declared hasher directs.
pub open spec fn storage_key_spec(m: Metadata, pallet: Seq<u8>, item: Seq<u8>, key: Option<Seq<u8>>) -> Result<Seq<u8>, EncodeError> {
    match first_pallet_by_name(m.pallets@, pallet, 0) {
        None => Err(EncodeError::PalletNotFound),
        Some(pi) => {
            let p = m.pallets@[pi];
            match first_storage_by_name(p.storage@, item, 0) {
                None => Err(EncodeError::StorageItemNotFound),
                Some(si) => {
                    let root = twox128_of(pallet) + twox128_of(item);
                    match key {
                        None => Ok(root),
                        Some(k) => Ok(root + hasher_apply(p.storage@[si].hasher, k)),
                    }
                },
            }
        },
    }
}

/// What resolving a (pallet index, error index) pair yields: the names of
/// the first pallet with that index and of its first error variant with
/// that index; absence is not fatal.
pub open spec fn resolve_error_spec(m: Metadata, pallet_index: u8, error_index: u8) -> Option<(Seq<u8>, Seq<u8>)> {
    match first_pallet_by_index(m.pallets@, pallet_index, 0) {
        None => None,
        Some(pi) => {
            let p = m.pallets@[pi];
            match first_error_by_index(p.errors@, error_index, 0) {
                None => None,
                Some(ei) => Some((p.name@, p.errors@[ei].name@)),
            }
        },
    }
}

// ---------------------------------------------------------------------
// Executable lookups
// ---------------------------------------------------------------------

/// Find the first pallet with the given name.
fn find_pallet_by_name(ps: &Vec<Pallet>, name: &Vec<u8>) -> (r: Option<usize>)
    ensures
        match r {
            Some(i) => first_pallet_by_name(ps@, name@, 0) == Some(i as int) && i < ps@.len(),
            None => first_pallet_by_name(ps@, name@, 0) is None,
        },
{
    let mut i: usize = 0;
    while i < ps.len()
        invariant
            i <= ps@.len(),
            first_pallet_by_name(ps@, name@, 0) == first_pallet_by_name(ps@, name@, i as int),
        decreases ps@.len() - i,
    {
        if bytes_eq(&ps[i].name, name) {
            return Some(i);
        }
        i = i + 1;
    }
    None
}

/// Find the first call with the given name.
fn find_call_by_name(cs: &Vec<CallDef>, name: &Vec<u8>) -> (r: Option<usize>)
    ensures
        match r {
            Some(i) => first_call_by_name(cs@, name@, 0) == Some(i as int) && i < cs@.len(),
            None => first_call_by_name(cs@, name@, 0) is None,
        },
{
    let mut i: usize = 0;
    while i < cs.len()
        invariant
            i <= cs@.len(),
            first_call_by_name(cs@, name@, 0) == first_call_by_name(cs@, name@, i as int),
        decreases cs@.len() - i,
    {
        if bytes_eq(&cs[i].name, name) {
            return Some(i);
        }
        i = i + 1;
    }
    None
}

/// Find the first storage entry with the given name.
fn find_storage_by_name(ss: &Vec<StorageDef>, name: &Vec<u8>) -> (r: Option<usize>)
    ensures
        match r {
            Some(i) => first_storage_by_name(ss@, name@, 0) == Some(i as int) && i < ss@.len(),
            None => first_storage_by_name(ss@, name@, 0) is None,
        },
{
    let mut i: usize = 0;
    while i < ss.len()
        invariant
            i <= ss@.len(),
            first_storage_by_name(ss@, name@, 0) == first_storage_by_name(ss@, name@, i as int),
        decreases ss@.len() - i,
    {
        if bytes_eq(&ss[i].name, name) {
            return Some(i);
        }
        i = i + 1;
    }
    None
}

impl Metadata {
    /// Encode a call: look up the pallet and call by name, check each
    /// argument against its declared descriptor, and prefix the encoded
    /// arguments with the (pallet index, call index) bytes. Never encodes
    /// anything for an unknown name.
    pub fn resolve_call(&self, pallet: &Vec<u8>, call: &Vec<u8>, args: &Vec<Prim>) -> (r: Result<Vec<u8>, EncodeError>)
        requires
            prims_valid(prim_views(args@)),
        ensures
            match r {
                Ok(bytes) => resolve_call_spec(*self, pallet@, call@, prim_views(args@))
                    == Ok::<Seq<u8>, EncodeError>(bytes@),
                Err(e) => resolve_call_spec(*self, pallet@, call@, prim_views(args@))
                    == Err::<Seq<u8>, EncodeError>(e),
            },
    {
        let pi = match find_pallet_by_name(&self.pallets, pallet) {
            Some(pi) => pi,
            None => {
                return Err(EncodeError::PalletNotFound);
            },
        };
        let p = &self.pallets[pi];
        let ci = match find_call_by_name(&p.calls, call) {
            Some(ci) => ci,
            None => {
                return Err(EncodeError::CallNotFound);
            },
        };
        let c = &p.calls[ci];
        if !crate::codec::prims_match_exec(args, &c.args) {
            return Err(EncodeError::ArgumentTypeMismatch);
        }
        let mut out: Vec<u8> = Vec::new();
        out.push(p.index);
        out.push(c.index);
        encode_prims_into(&mut out, args);
        proof {
            assert(out@ =~= seq![p.index, c.index] + enc_prims(prim_views(args@)));
        }
        Ok(out)
    }

    /// Derive a storage key: the xx-hash of the pallet name, the xx-hash
    /// of the item name, and for maps the key material hashed as the
    /// entry's metadata-declared hasher directs. A pure function of the
    /// metadata and the names.
    pub fn resolve_storage_key(&self, pallet: &Vec<u8>, item: &Vec<u8>, key: Option<&Vec<u8>>) -> (r: Result<Vec<u8>, EncodeError>)
        ensures
            match r {
                Ok(bytes) => storage_key_spec(
                    *self,
                    pallet@,
                    item@,
                    match key {
                        Some(k) => Some(k@),
                        None => None,
                    },
                ) == Ok::<Seq<u8>, EncodeError>(bytes@),
                Err(e) => storage_key_spec(
                    *self,
                    pallet@,
                    item@,
                    match key {
                        Some(k) => Some(k@),
                        None => None,
                    },
                ) == Err::<Seq<u8>, EncodeError>(e),
            },
    {
        let pi = match find_pallet_by_name(&self.pallets, pallet) {
            Some(pi) => pi,
            None => {
                return Err(EncodeError::PalletNotFound);
            },
        };
        let p = &self.pallets[pi];
        let si = match find_storage_by_name(&p.storage, item) {
            Some(si) => si,
            None => {
                return Err(EncodeError::StorageItemNotFound);
            },
        };
        let mut out = twox_128(pallet);
        let item_hash = twox_128(item);
        crate::codec::append_bytes(&mut out, &item_hash);
        match key {
            None => {
                proof {
                    assert(out@ =~= twox128_of(pallet@) + twox128_of(item@));
                }
                Ok(out)
            },
            Some(k) => {
                match p.storage[si].hasher {
                    StorageHasher::Blake2_128Concat => {
                        let kh = blake2_128(k);
                        crate::codec::append_bytes(&mut out, &kh);
                        crate::codec::append_bytes(&mut out, k);
                    },
                    StorageHasher::Twox64Concat => {
                        let kh = twox_64(k);
                        crate::codec::append_bytes(&mut out, &kh);
                        crate::codec::append_bytes(&mut out, k);
                    },
                    StorageHasher::Identity => {
                        crate::codec::append_bytes(&mut out, k);
                    },
                }
                proof {
                    assert(out@ =~= (twox128_of(pallet@) + twox128_of(item@))
                        + hasher_apply(p.storage@[si as int].hasher, k@));
                }
                Ok(out)
            },
        }
    }

    /// Resolve a module error reported as (pallet index, error index)
    /// into the pallet and error names, for diagnostics; `None` when the
    /// metadata does not know the pair.
    pub fn resolve_error(&self, pallet_index: u8, error_index: u8) -> (r: Option<(Vec<u8>, Vec<u8>)>)
        ensures
            match r {
                Some((pn, en)) => resolve_error_spec(*self, pallet_index, error_index)
                    == Some((pn@, en@)),
                None => resolve_error_spec(*self, pallet_index, error_index) is None,
            },
    {
        let mut i: usize = 0;
        while i < self.pallets.len()
            invariant
                i <= self.pallets@.len(),
                first_pallet_by_index(self.pallets@, pallet_index, 0)
                    == first_pallet_by_index(self.pallets@, pallet_index, i as int),
            decreases self.pallets@.len() - i,
        {
            if self.pallets[i].index == pallet_index {
                let p = &self.pallets[i];
                proof {
                    assert(first_pallet_by_index(self.pallets@, pallet_index, i as int)
                        == Some(i as int));
                }
                let mut j: usize = 0;
                while j < p.errors.len()
                    invariant
                        i < self.pallets@.len(),
                        p == &self.pallets@[i as int],
                        first_pallet_by_index(self.pallets@, pallet_index, 0) == Some(i as int),
                        j <= p.errors@.len(),
                        first_error_by_index(p.errors@, error_index, 0)
                            == first_error_by_index(p.errors@, error_index, j as int),
                    decreases p.errors@.len() - j,
                {
                    if p.errors[j].index == error_index {
                        proof {
                            assert(first_error_by_index(p.errors@, error_index, j as int)
                                == Some(j as int));
                            assert(resolve_error_spec(*self, pallet_index, error_index)
                                == Some((p.name@, p.errors@[j as int].name@)));
                        }
                        let pn = crate::codec::copy_range(&p.name, 0, p.name.len());
                        let en = crate::codec::copy_range(&p.errors[j].name, 0, p.errors[j].name.len());
                        proof {
                            assert(pn@ =~= p.name@);
                            assert(en@ =~= p.errors@[j as int].name@);
                        }
                        return Some((pn, en));
                    }
                    j = j + 1;
                }
                return None;
            }
            i = i + 1;
        }
        None
    }
}

// ---------------------------------------------------------------------
// Determinism of resolution
// ---------------------------------------------------------------------

/// Resolving the same (pallet, call) name pair with the same arguments
/// twice against the same metadata yields identical encoded call bytes:
/// resolution is a pure function of its inputs.
pub proof fn lemma_resolve_call_idempotent(m: Metadata, pallet: Seq<u8>, call: Seq<u8>, args: Seq<PrimV>, b1: Seq<u8>, b2: Seq<u8>)
    requires
        resolve_call_spec(m, pallet, call, args) == Ok::<Seq<u8>, EncodeError>(b1),
        resolve_call_spec(m, pallet, call, args) == Ok::<Seq<u8>, EncodeError>(b2),
    ensures
        b1 == b2,
{
}

/// Storage-key derivation is a pure function of (metadata, pallet, item,
/// key material): identical inputs always yield identical keys.
pub proof fn lemma_storage_key_deterministic(m: Metadata, pallet: Seq<u8>, item: Seq<u8>, key: Option<Seq<u8>>, k1: Seq<u8>, k2: Seq<u8>)
    requires
        storage_key_spec(m, pallet, item, key) == Ok::<Seq<u8>, EncodeError>(k1),
        storage_key_spec(m, pallet, item, key) == Ok::<Seq<u8>, EncodeError>(k2),
    ensures
        k1 == k2,
{
}

} // verus!

verus! {

/// Why a metadata blob could not be loaded.
#[derive(Clone, Copy, PartialEq, Eq, Structural, Debug)]
pub enum MetadataError {
    /// The blob does not start with the metadata magic.
    BadMagic,
    /// The envelope version is not one this store understands; carries
    /// the version byte found.
    UnrecognizedVersion(u8),
    /// The body ended early or held an out-of-range byte.
    Decode(DecodeError),
}

/// The four magic bytes every metadata envelope starts with.
pub open spec fn metadata_magic() -> Seq<u8> {
    seq![0x6du8, 0x65u8, 0x74u8, 0x61u8]
}

/// The one envelope version this store understands.
pub open spec fn supported_metadata_version() -> u8 {
    14
}

/// Whether a blob's five-byte header is well-formed: the magic bytes and
/// a recognized version.
pub open spec fn metadata_header_ok(raw: Seq<u8>) -> bool {
    &&& raw.len() >= 5
    &&& raw.subrange(0, 4) == metadata_magic()
    &&& raw[4] == supported_metadata_version()
}

// ---------------------------------------------------------------------
// The mathematical form of the metadata model
// ---------------------------------------------------------------------

/// The mathematical form of a call variant.
pub struct CallDefV {
    pub name: Seq<u8>,
    pub index: u8,
    pub args: Seq<PrimDesc>,
}

impl View for CallDef {
    type V = CallDefV;

    open spec fn view(&self) -> CallDefV {
        CallDefV { name: self.name@, index: self.index, args: self.args@ }
    }
}

/// The mathematical form of a storage entry.
pub struct StorageDefV {
    pub name: Seq<u8>,
    pub hasher: StorageHasher,
}

impl View for StorageDef {
    type V = StorageDefV;

    open spec fn view(&self) -> StorageDefV {
        StorageDefV { name: self.name@, hasher: self.hasher }
    }
}

/// The mathematical form of an error variant.
pub struct ErrorDefV {
    pub index: u8,
    pub name: Seq<u8>,
    pub docs: Seq<u8>,
}

impl View for ErrorDef {
    type V = ErrorDefV;

    open spec fn view(&self) -> ErrorDefV {
        ErrorDefV { index: self.index, name: self.name@, docs: self.docs@ }
    }
}

/// The mathematical form of a pallet.
pub struct PalletV {
    pub name: Seq<u8>,
    pub index: u8,
    pub calls: Seq<CallDefV>,
    pub storage: Seq<StorageDefV>,
    pub errors: Seq<ErrorDefV>,
}

/// The views of a sequence of call variants.
pub open spec fn call_views(s: Seq<CallDef>) -> Seq<CallDefV> {
    s.map_values(|c: CallDef| c@)
}

/// The views of a sequence of storage entries.
pub open spec fn storage_views(s: Seq<StorageDef>) -> Seq<StorageDefV> {
    s.map_values(|d: StorageDef| d@)
}

/// The views of a sequence of error variants.
pub open spec fn error_views(s: Seq<ErrorDef>) -> Seq<ErrorDefV> {
    s.map_values(|e: ErrorDef| e@)
}

impl View for Pallet {
    type V = PalletV;

    open spec fn view(&self) -> PalletV {
        PalletV {
            name: self.name@,
            index: self.index,
            calls: call_views(self.calls@),
            storage: storage_views(self.storage@),
            errors: error_views(self.errors@),
        }
    }
}

/// The views of a sequence of pallets.
pub open spec fn pallet_views(s: Seq<Pallet>) -> Seq<PalletV> {
    s.map_values(|p: Pallet| p@)
}

/// The mathematical form of the metadata.
pub struct MetadataV {
    pub pallets: Seq<PalletV>,
}

impl View for Metadata {
    type V = MetadataV;

    open spec fn view(&self) -> MetadataV {
        MetadataV { pallets: pallet_views(self.pallets@) }
    }
}

// ---------------------------------------------------------------------
// The envelope body grammar, as total parse functions
// ---------------------------------------------------------------------

/// Reading one byte at `pos`.
pub open spec fn read_u8_spec(raw: Seq<u8>, pos: int) -> Result<(u8, int), DecodeError> {
    if pos < raw.len() {
        Ok((raw[pos], pos + 1))
    } else {
        Err(DecodeError::Truncated)
    }
}

/// Reading a compact-length-prefixed byte field at `pos`.
pub open spec fn read_bytes_spec(raw: Seq<u8>, pos: int) -> Result<(Seq<u8>, int), DecodeError> {
    match compact_u32_dec(raw.skip(pos)) {
        Ok((l, n)) => if raw.len() < pos + n + l {
            Err(DecodeError::Truncated)
        } else {
            Ok((raw.subrange(pos + n, pos + n + l), pos + n + l))
        },
        Err(e) => Err(e),
    }
}

/// Reading one argument type descriptor at `pos`: a code byte, and for a
/// fixed-size array its compact length.
pub open spec fn read_prim_desc_spec(raw: Seq<u8>, pos: int) -> Result<(PrimDesc, int), DecodeError> {
    match read_u8_spec(raw, pos) {
        Ok((code, p1)) => if code == 0 {
            Ok((PrimDesc::U8, p1))
        } else if code == 1 {
            Ok((PrimDesc::U16, p1))
        } else if code == 2 {
            Ok((PrimDesc::U32, p1))
        } else if code == 3 {
            Ok((PrimDesc::U64, p1))
        } else if code == 4 {
            Ok((PrimDesc::Bool, p1))
        } else if code == 5 {
            Ok((PrimDesc::Compact, p1))
        } else if code == 6 {
            Ok((PrimDesc::Bytes, p1))
        } else if code == 7 {
            match compact_u32_dec(raw.skip(p1)) {
                Ok((n, c)) => Ok((PrimDesc::Fixed(n as usize), p1 + c)),
                Err(e) => Err(e),
            }
        } else {
            Err(DecodeError::InvalidDiscriminant)
        },
        Err(e) => Err(e),
    }
}

/// Reading `remaining` more argument descriptors after `acc`.
pub open spec fn parse_args_from(raw: Seq<u8>, pos: int, remaining: int, acc: Seq<PrimDesc>) -> Result<(Seq<PrimDesc>, int), DecodeError>
    decreases remaining,
{
    if remaining <= 0 {
        Ok((acc, pos))
    } else {
        match read_prim_desc_spec(raw, pos) {
            Ok((d, p1)) => parse_args_from(raw, p1, remaining - 1, acc.push(d)),
            Err(e) => Err(e),
        }
    }
}

/// Reading one call variant at `pos`: its name, its index, and its
/// counted argument descriptors.
pub open spec fn parse_call(raw: Seq<u8>, pos: int) -> Result<(CallDefV, int), DecodeError> {
    match read_bytes_spec(raw, pos) {
        Err(e) => Err(e),
        Ok((name, p1)) => match read_u8_spec(raw, p1) {
            Err(e) => Err(e),
            Ok((index, p2)) => match compact_u32_dec(raw.skip(p2)) {
                Err(e) => Err(e),
                Ok((n, c)) => match parse_args_from(raw, p2 + c, n as int, Seq::<PrimDesc>::empty()) {
                    Err(e) => Err(e),
                    Ok((args, p3)) => Ok((CallDefV { name, index, args }, p3)),
                },
            },
        },
    }
}

/// Reading `remaining` more call variants after `acc`.
pub open spec fn parse_calls_from(raw: Seq<u8>, pos: int, remaining: int, acc: Seq<CallDefV>) -> Result<(Seq<CallDefV>, int), DecodeError>
    decreases remaining,
{
    if remaining <= 0 {
        Ok((acc, pos))
    } else {
        match parse_call(raw, pos) {
            Ok((c, p1)) => parse_calls_from(raw, p1, remaining - 1, acc.push(c)),
            Err(e) => Err(e),
        }
    }
}

/// Reading one storage entry at `pos`: its name and its hasher code.
pub open spec fn parse_storage_entry(raw: Seq<u8>, pos: int) -> Result<(StorageDefV, int), DecodeError> {
    match read_bytes_spec(raw, pos) {
        Err(e) => Err(e),
        Ok((name, p1)) => match read_u8_spec(raw, p1) {
            Err(e) => Err(e),
            Ok((code, p2)) => if code == 0 {
                Ok((StorageDefV { name, hasher: StorageHasher::Blake2_128Concat }, p2))
            } else if code == 1 {
                Ok((StorageDefV { name, hasher: StorageHasher::Twox64Concat }, p2))
            } else if code == 2 {
                Ok((StorageDefV { name, hasher: StorageHasher::Identity }, p2))
            } else {
                Err(DecodeError::InvalidDiscriminant)
            },
        },
    }
}

/// Reading `remaining` more storage entries after `acc`.
pub open spec fn parse_storage_from(raw: Seq<u8>, pos: int, remaining: int, acc: Seq<StorageDefV>) -> Result<(Seq<StorageDefV>, int), DecodeError>
    decreases remaining,
{
    if remaining <= 0 {
        Ok((acc, pos))
    } else {
        match parse_storage_entry(raw, pos) {
            Ok((d, p1)) => parse_storage_from(raw, p1, remaining - 1, acc.push(d)),
            Err(e) => Err(e),
        }
    }
}

/// Reading one error variant at `pos`: its name, its index, and its
/// documentation.
pub open spec fn parse_error_def(raw: Seq<u8>, pos: int) -> Result<(ErrorDefV, int), DecodeError> {
    match read_bytes_spec(raw, pos) {
        Err(e) => Err(e),
        Ok((name, p1)) => match read_u8_spec(raw, p1) {
            Err(e) => Err(e),
            Ok((index, p2)) => match read_bytes_spec(raw, p2) {
                Err(e) => Err(e),
                Ok((docs, p3)) => Ok((ErrorDefV { index, name, docs }, p3)),
            },
        },
    }
}

/// Reading `remaining` more error variants after `acc`.
pub open spec fn parse_errors_from(raw: Seq<u8>, pos: int, remaining: int, acc: Seq<ErrorDefV>) -> Result<(Seq<ErrorDefV>, int), DecodeError>
    decreases remaining,
{
    if remaining <= 0 {
        Ok((acc, pos))
    } else {
        match parse_error_def(raw, pos) {
            Ok((d, p1)) => parse_errors_from(raw, p1, remaining - 1, acc.push(d)),
            Err(e) => Err(e),
        }
    }
}

/// Reading one pallet at `pos`: its name, its index, then its counted
/// calls, storage entries and error variants.
pub open spec fn parse_pallet(raw: Seq<u8>, pos: int) -> Result<(PalletV, int), DecodeError> {
    match read_bytes_spec(raw, pos) {
        Err(e) => Err(e),
        Ok((name, p1)) => match read_u8_spec(raw, p1) {
            Err(e) => Err(e),
            Ok((index, p2)) => match compact_u32_dec(raw.skip(p2)) {
                Err(e) => Err(e),
                Ok((cn, cc)) => match parse_calls_from(raw, p2 + cc, cn as int, Seq::<CallDefV>::empty()) {
                    Err(e) => Err(e),
                    Ok((calls, p3)) => match compact_u32_dec(raw.skip(p3)) {
                        Err(e) => Err(e),
                        Ok((sn, sc)) => match parse_storage_from(raw, p3 + sc, sn as int, Seq::<StorageDefV>::empty()) {
                            Err(e) => Err(e),
                            Ok((storage, p4)) => match compact_u32_dec(raw.skip(p4)) {
                                Err(e) => Err(e),
                                Ok((en, ec)) => match parse_errors_from(raw, p4 + ec, en as int, Seq::<ErrorDefV>::empty()) {
                                    Err(e) => Err(e),
                                    Ok((errors, p5)) => Ok((PalletV { name, index, calls, storage, errors }, p5)),
                                },
                            },
                        },
                    },
                },
            },
        },
    }
}

/// Reading `remaining` more pallets after `acc`.
pub open spec fn parse_pallets_from(raw: Seq<u8>, pos: int, remaining: int, acc: Seq<PalletV>) -> Result<(Seq<PalletV>, int), DecodeError>
    decreases remaining,
{
    if remaining <= 0 {
        Ok((acc, pos))
    } else {
        match parse_pallet(raw, pos) {
            Ok((p, p1)) => parse_pallets_from(raw, p1, remaining - 1, acc.push(p)),
            Err(e) => Err(e),
        }
    }
}

/// Reading the whole envelope body at `pos`: the compact pallet count,
/// then that many pallets.
pub open spec fn parse_metadata_body(raw: Seq<u8>, pos: int) -> Result<(Seq<PalletV>, int), DecodeError> {
    match compact_u32_dec(raw.skip(pos)) {
        Ok((count, c)) => parse_pallets_from(raw, pos + c, count as int, Seq::<PalletV>::empty()),
        Err(e) => Err(e),
    }
}

// ---------------------------------------------------------------------
// The executable parser, pinned to the grammar above
// ---------------------------------------------------------------------

/// Read a compact-length-prefixed byte field.
fn read_bytes_field(raw: &Vec<u8>, pos: usize) -> (r: Result<(Vec<u8>, usize), DecodeError>)
    requires
        pos <= raw@.len(),
    ensures
        match r {
            Ok((b, end)) => read_bytes_spec(raw@, pos as int)
                == Ok::<(Seq<u8>, int), DecodeError>((b@, end as int)) && pos < end <= raw@.len(),
            Err(e) => read_bytes_spec(raw@, pos as int) == Err::<(Seq<u8>, int), DecodeError>(e),
        },
{
    let (l, mid) = match crate::codec::decode_compact_u32(raw, pos) {
        Ok(x) => x,
        Err(e) => {
            return Err(e);
        },
    };
    if raw.len() - mid < l as usize {
        return Err(DecodeError::Truncated);
    }
    let end = mid + l as usize;
    let data = crate::codec::copy_range(raw, mid, end);
    proof {
        assert(data@ =~= raw@.subrange(pos + (mid - pos), pos + (mid - pos) + l));
    }
    Ok((data, end))
}

/// Read one byte.
fn read_u8(raw: &Vec<u8>, pos: usize) -> (r: Result<(u8, usize), DecodeError>)
    requires
        pos <= raw@.len(),
    ensures
        match r {
            Ok((b, end)) => read_u8_spec(raw@, pos as int)
                == Ok::<(u8, int), DecodeError>((b, end as int)) && pos < end <= raw@.len(),
            Err(e) => read_u8_spec(raw@, pos as int) == Err::<(u8, int), DecodeError>(e),
        },
{
    if raw.len() - pos < 1 {
        return Err(DecodeError::Truncated);
    }
    Ok((raw[pos], pos + 1))
}

/// Read one argument type descriptor: a code byte, and for a fixed-size
/// array its compact length.
fn read_prim_desc(raw: &Vec<u8>, pos: usize) -> (r: Result<(PrimDesc, usize), DecodeError>)
    requires
        pos <= raw@.len(),
    ensures
        match r {
            Ok((d, end)) => read_prim_desc_spec(raw@, pos as int)
                == Ok::<(PrimDesc, int), DecodeError>((d, end as int)) && pos < end <= raw@.len(),
            Err(e) => read_prim_desc_spec(raw@, pos as int) == Err::<(PrimDesc, int), DecodeError>(e),
        },
{
    let (code, mid) = match read_u8(raw, pos) {
        Ok(x) => x,
        Err(e) => {
            return Err(e);
        },
    };
    match code {
        0u8 => Ok((PrimDesc::U8, mid)),
        1u8 => Ok((PrimDesc::U16, mid)),
        2u8 => Ok((PrimDesc::U32, mid)),
        3u8 => Ok((PrimDesc::U64, mid)),
        4u8 => Ok((PrimDesc::Bool, mid)),
        5u8 => Ok((PrimDesc::Compact, mid)),
        6u8 => Ok((PrimDesc::Bytes, mid)),
        7u8 => {
            let (n, end) = match crate::codec::decode_compact_u32(raw, mid) {
                Ok(x) => x,
                Err(e) => {
                    return Err(e);
                },
            };
            Ok((PrimDesc::Fixed(n as usize), end))
        },
        _ => Err(DecodeError::InvalidDiscriminant),
    }
}

/// Read `count` argument descriptors.
fn parse_args_exec(raw: &Vec<u8>, pos: usize, count: u32) -> (r: Result<(Vec<PrimDesc>, usize), DecodeError>)
    requires
        pos <= raw@.len(),
    ensures
        match r {
            Ok((args, end)) => parse_args_from(raw@, pos as int, count as int, Seq::<PrimDesc>::empty())
                == Ok::<(Seq<PrimDesc>, int), DecodeError>((args@, end as int))
                && pos <= end <= raw@.len(),
            Err(e) => parse_args_from(raw@, pos as int, count as int, Seq::<PrimDesc>::empty())
                == Err::<(Seq<PrimDesc>, int), DecodeError>(e),
        },
{
    let mut args: Vec<PrimDesc> = Vec::new();
    let mut cur: usize = pos;
    let mut i: u32 = 0;
    proof {
        assert(args@ =~= Seq::<PrimDesc>::empty());
    }
    while i < count
        invariant
            pos <= cur <= raw@.len(),
            i <= count,
            parse_args_from(raw@, pos as int, count as int, Seq::<PrimDesc>::empty())
                == parse_args_from(raw@, cur as int, (count - i) as int, args@),
        decreases count - i,
    {
        match read_prim_desc(raw, cur) {
            Ok((d, end)) => {
                args.push(d);
                cur = end;
                i = i + 1;
            },
            Err(e) => {
                return Err(e);
            },
        }
    }
    Ok((args, cur))
}

/// Read one call variant.
fn parse_call_exec(raw: &Vec<u8>, pos: usize) -> (r: Result<(CallDef, usize), DecodeError>)
    requires
        pos <= raw@.len(),
    ensures
        match r {
            Ok((c, end)) => parse_call(raw@, pos as int)
                == Ok::<(CallDefV, int), DecodeError>((c@, end as int)) && pos <= end <= raw@.len(),
            Err(e) => parse_call(raw@, pos as int) == Err::<(CallDefV, int), DecodeError>(e),
        },
{
    let (name, p1) = match read_bytes_field(raw, pos) {
        Ok(x) => x,
        Err(e) => {
            return Err(e);
        },
    };
    let (index, p2) = match read_u8(raw, p1) {
        Ok(x) => x,
        Err(e) => {
            return Err(e);
        },
    };
    let (arg_count, p3) = match crate::codec::decode_compact_u32(raw, p2) {
        Ok(x) => x,
        Err(e) => {
            return Err(e);
        },
    };
    let (args, end) = match parse_args_exec(raw, p3, arg_count) {
        Ok(x) => x,
        Err(e) => {
            return Err(e);
        },
    };
    Ok((CallDef { name, index, args }, end))
}

/// Read `count` call variants.
fn parse_calls_exec(raw: &Vec<u8>, pos: usize, count: u32) -> (r: Result<(Vec<CallDef>, usize), DecodeError>)
    requires
        pos <= raw@.len(),
    ensures
        match r {
            Ok((calls, end)) => parse_calls_from(raw@, pos as int, count as int, Seq::<CallDefV>::empty())
                == Ok::<(Seq<CallDefV>, int), DecodeError>((call_views(calls@), end as int))
                && pos <= end <= raw@.len(),
            Err(e) => parse_calls_from(raw@, pos as int, count as int, Seq::<CallDefV>::empty())
                == Err::<(Seq<CallDefV>, int), DecodeError>(e),
        },
{
    let mut calls: Vec<CallDef> = Vec::new();
    let mut cur: usize = pos;
    let mut i: u32 = 0;
    proof {
        assert(call_views(calls@) =~= Seq::<CallDefV>::empty());
    }
    while i < count
        invariant
            pos <= cur <= raw@.len(),
            i <= count,
            parse_calls_from(raw@, pos as int, count as int, Seq::<CallDefV>::empty())
                == parse_calls_from(raw@, cur as int, (count - i) as int, call_views(calls@)),
        decreases count - i,
    {
        match parse_call_exec(raw, cur) {
            Ok((c, end)) => {
                let ghost pre = call_views(calls@);
                calls.push(c);
                proof {
                    assert(call_views(calls@) =~= pre.push(c@));
                }
                cur = end;
                i = i + 1;
            },
            Err(e) => {
                return Err(e);
            },
        }
    }
    Ok((calls, cur))
}

/// Read one storage entry.
fn parse_storage_entry_exec(raw: &Vec<u8>, pos: usize) -> (r: Result<(StorageDef, usize), DecodeError>)
    requires
        pos <= raw@.len(),
    ensures
        match r {
            Ok((d, end)) => parse_storage_entry(raw@, pos as int)
                == Ok::<(StorageDefV, int), DecodeError>((d@, end as int)) && pos <= end <= raw@.len(),
            Err(e) => parse_storage_entry(raw@, pos as int) == Err::<(StorageDefV, int), DecodeError>(e),
        },
{
    let (name, p1) = match read_bytes_field(raw, pos) {
        Ok(x) => x,
        Err(e) => {
            return Err(e);
        },
    };
    let (code, p2) = match read_u8(raw, p1) {
        Ok(x) => x,
        Err(e) => {
            return Err(e);
        },
    };
    let hasher = match code {
        0u8 => StorageHasher::Blake2_128Concat,
        1u8 => StorageHasher::Twox64Concat,
        2u8 => StorageHasher::Identity,
        _ => {
            return Err(DecodeError::InvalidDiscriminant);
        },
    };
    Ok((StorageDef { name, hasher }, p2))
}

/// Read `count` storage entries.
fn parse_storage_exec(raw: &Vec<u8>, pos: usize, count: u32) -> (r: Result<(Vec<StorageDef>, usize), DecodeError>)
    requires
        pos <= raw@.len(),
    ensures
        match r {
            Ok((storage, end)) => parse_storage_from(raw@, pos as int, count as int, Seq::<StorageDefV>::empty())
                == Ok::<(Seq<StorageDefV>, int), DecodeError>((storage_views(storage@), end as int))
                && pos <= end <= raw@.len(),
            Err(e) => parse_storage_from(raw@, pos as int, count as int, Seq::<StorageDefV>::empty())
                == Err::<(Seq<StorageDefV>, int), DecodeError>(e),
        },
{
    let mut storage: Vec<StorageDef> = Vec::new();
    let mut cur: usize = pos;
    let mut i: u32 = 0;
    proof {
        assert(storage_views(storage@) =~= Seq::<StorageDefV>::empty());
    }
    while i < count
        invariant
            pos <= cur <= raw@.len(),
            i <= count,
            parse_storage_from(raw@, pos as int, count as int, Seq::<StorageDefV>::empty())
                == parse_storage_from(raw@, cur as int, (count - i) as int, storage_views(storage@)),
        decreases count - i,
    {
        match parse_storage_entry_exec(raw, cur) {
            Ok((d, end)) => {
                let ghost pre = storage_views(storage@);
                storage.push(d);
                proof {
                    assert(storage_views(storage@) =~= pre.push(d@));
                }
                cur = end;
                i = i + 1;
            },
            Err(e) => {
                return Err(e);
            },
        }
    }
    Ok((storage, cur))
}

/// Read one error variant.
fn parse_error_exec(raw: &Vec<u8>, pos: usize) -> (r: Result<(ErrorDef, usize), DecodeError>)
    requires
        pos <= raw@.len(),
    ensures
        match r {
            Ok((d, end)) => parse_error_def(raw@, pos as int)
                == Ok::<(ErrorDefV, int), DecodeError>((d@, end as int)) && pos <= end <= raw@.len(),
            Err(e) => parse_error_def(raw@, pos as int) == Err::<(ErrorDefV, int), DecodeError>(e),
        },
{
    let (name, p1) = match read_bytes_field(raw, pos) {
        Ok(x) => x,
        Err(e) => {
            return Err(e);
        },
    };
    let (index, p2) = match read_u8(raw, p1) {
        Ok(x) => x,
        Err(e) => {
            return Err(e);
        },
    };
    let (docs, p3) = match read_bytes_field(raw, p2) {
        Ok(x) => x,
        Err(e) => {
            return Err(e);
        },
    };
    Ok((ErrorDef { index, name, docs }, p3))
}

/// Read `count` error variants.
fn parse_errors_exec(raw: &Vec<u8>, pos: usize, count: u32) -> (r: Result<(Vec<ErrorDef>, usize), DecodeError>)
    requires
        pos <= raw@.len(),
    ensures
        match r {
            Ok((errors, end)) => parse_errors_from(raw@, pos as int, count as int, Seq::<ErrorDefV>::empty())
                == Ok::<(Seq<ErrorDefV>, int), DecodeError>((error_views(errors@), end as int))
                && pos <= end <= raw@.len(),
            Err(e) => parse_errors_from(raw@, pos as int, count as int, Seq::<ErrorDefV>::empty())
                == Err::<(Seq<ErrorDefV>, int), DecodeError>(e),
        },
{
    let mut errors: Vec<ErrorDef> = Vec::new();
    let mut cur: usize = pos;
    let mut i: u32 = 0;
    proof {
        assert(error_views(errors@) =~= Seq::<ErrorDefV>::empty());
    }
    while i < count
        invariant
            pos <= cur <= raw@.len(),
            i <= count,
            parse_errors_from(raw@, pos as int, count as int, Seq::<ErrorDefV>::empty())
                == parse_errors_from(raw@, cur as int, (count - i) as int, error_views(errors@)),
        decreases count - i,
    {
        match parse_error_exec(raw, cur) {
            Ok((d, end)) => {
                let ghost pre = error_views(errors@);
                errors.push(d);
                proof {
                    assert(error_views(errors@) =~= pre.push(d@));
                }
                cur = end;
                i = i + 1;
            },
            Err(e) => {
                return Err(e);
            },
        }
    }
    Ok((errors, cur))
}

/// Read one pallet.
fn parse_pallet_exec(raw: &Vec<u8>, pos: usize) -> (r: Result<(Pallet, usize), DecodeError>)
    requires
        pos <= raw@.len(),
    ensures
        match r {
            Ok((p, end)) => parse_pallet(raw@, pos as int)
                == Ok::<(PalletV, int), DecodeError>((p@, end as int)) && pos <= end <= raw@.len(),
            Err(e) => parse_pallet(raw@, pos as int) == Err::<(PalletV, int), DecodeError>(e),
        },
{
    let (name, p1) = match read_bytes_field(raw, pos) {
        Ok(x) => x,
        Err(e) => {
            return Err(e);
        },
    };
    let (index, p2) = match read_u8(raw, p1) {
        Ok(x) => x,
        Err(e) => {
            return Err(e);
        },
    };
    let (call_count, p3) = match crate::codec::decode_compact_u32(raw, p2) {
        Ok(x) => x,
        Err(e) => {
            return Err(e);
        },
    };
    let (calls, p4) = match parse_calls_exec(raw, p3, call_count) {
        Ok(x) => x,
        Err(e) => {
            return Err(e);
        },
    };
    let (storage_count, p5) = match crate::codec::decode_compact_u32(raw, p4) {
        Ok(x) => x,
        Err(e) => {
            return Err(e);
        },
    };
    let (storage, p6) = match parse_storage_exec(raw, p5, storage_count) {
        Ok(x) => x,
        Err(e) => {
            return Err(e);
        },
    };
    let (error_count, p7) = match crate::codec::decode_compact_u32(raw, p6) {
        Ok(x) => x,
        Err(e) => {
            return Err(e);
        },
    };
    let (errors, end) = match parse_errors_exec(raw, p7, error_count) {
        Ok(x) => x,
        Err(e) => {
            return Err(e);
        },
    };
    Ok((Pallet { name, index, calls, storage, errors }, end))
}

/// Read `count` pallets.
fn parse_pallets_exec(raw: &Vec<u8>, pos: usize, count: u32) -> (r: Result<(Vec<Pallet>, usize), DecodeError>)
    requires
        pos <= raw@.len(),
    ensures
        match r {
            Ok((pallets, end)) => parse_pallets_from(raw@, pos as int, count as int, Seq::<PalletV>::empty())
                == Ok::<(Seq<PalletV>, int), DecodeError>((pallet_views(pallets@), end as int))
                && pos <= end <= raw@.len(),
            Err(e) => parse_pallets_from(raw@, pos as int, count as int, Seq::<PalletV>::empty())
                == Err::<(Seq<PalletV>, int), DecodeError>(e),
        },
{
    let mut pallets: Vec<Pallet> = Vec::new();
    let mut cur: usize = pos;
    let mut i: u32 = 0;
    proof {
        assert(pallet_views(pallets@) =~= Seq::<PalletV>::empty());
    }
    while i < count
        invariant
            pos <= cur <= raw@.len(),
            i <= count,
            parse_pallets_from(raw@, pos as int, count as int, Seq::<PalletV>::empty())
                == parse_pallets_from(raw@, cur as int, (count - i) as int, pallet_views(pallets@)),
        decreases count - i,
    {
        match parse_pallet_exec(raw, cur) {
            Ok((p, end)) => {
                let ghost pre = pallet_views(pallets@);
                pallets.push(p);
                proof {
                    assert(pallet_views(pallets@) =~= pre.push(p@));
                }
                cur = end;
                i = i + 1;
            },
            Err(e) => {
                return Err(e);
            },
        }
    }
    Ok((pallets, cur))
}

impl Metadata {
    /// Parse a versioned metadata envelope: the magic bytes, the version
    /// byte, then the pallet index (names, indices, calls with their
    /// argument descriptors, storage entries with their hashers, error
    /// variants with their documentation). The result is exactly what the
    /// body grammar reads from the blob; a foreign magic, an unrecognized
    /// version, and a truncated or malformed body each fail with their
    /// own error.
    pub fn load(raw: &Vec<u8>) -> (r: Result<Metadata, MetadataError>)
        ensures
            raw@.len() < 5 ==> r == Err::<Metadata, MetadataError>(MetadataError::Decode(DecodeError::Truncated)),
            raw@.len() >= 5 && raw@.subrange(0, 4) != metadata_magic()
                ==> r == Err::<Metadata, MetadataError>(MetadataError::BadMagic),
            raw@.len() >= 5 && raw@.subrange(0, 4) == metadata_magic()
                && raw@[4] != supported_metadata_version()
                ==> r == Err::<Metadata, MetadataError>(MetadataError::UnrecognizedVersion(raw@[4])),
            metadata_header_ok(raw@) ==> match parse_metadata_body(raw@, 5) {
                Ok((ps, _)) => r matches Ok(m) && m@.pallets == ps,
                Err(e) => r == Err::<Metadata, MetadataError>(MetadataError::Decode(e)),
            },
    {
        if raw.len() < 5 {
            return Err(MetadataError::Decode(DecodeError::Truncated));
        }
        if !(raw[0] == 0x6du8 && raw[1] == 0x65u8 && raw[2] == 0x74u8 && raw[3] == 0x61u8) {
            proof {
                assert(raw@.subrange(0, 4) != metadata_magic());
            }
            return Err(MetadataError::BadMagic);
        }
        proof {
            assert(raw@.subrange(0, 4) =~= metadata_magic());
        }
        if raw[4] != 14u8 {
            return Err(MetadataError::UnrecognizedVersion(raw[4]));
        }
        let (pallet_count, body_start) = match crate::codec::decode_compact_u32(raw, 5) {
            Ok(x) => x,
            Err(e) => {
                return Err(MetadataError::Decode(e));
            },
        };
        match parse_pallets_exec(raw, body_start, pallet_count) {
            Ok((pallets, _)) => Ok(Metadata { pallets }),
            Err(e) => Err(MetadataError::Decode(e)),
        }
    }
}

} // verus!
