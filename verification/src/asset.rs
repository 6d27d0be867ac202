//! What is paid with across chains: an asset is an identifier and either an
//! amount or one instance. Its wire format, and the rewriting of an asset
//! for the point of view of another chain.

use crate::error::Error;
use crate::location::{
    decode_location, encode_location, lemma_decode_location_bounds, lemma_location_canonical,
    lemma_location_roundtrip, Location, LocationView, LOCATION_VERSION,
};
use crate::scale::{
    decode_bytes, decode_compact_u128, decode_fixed, encode_bytes, encode_compact, holds_at,
    lemma_bytes_canonical, lemma_bytes_roundtrip, lemma_compact_u128_canonical,
    lemma_compact_u128_roundtrip, lemma_decode_bytes_bounds, lemma_decode_compact_bounds,
    lemma_fixed_roundtrip, lemma_holds_at_split, lemma_holds_at_tag, lemma_holds_at_whole,
    lemma_pow256_values, lemma_subrange_join, read_array, read_bytes, read_compact_u128,
    write_bytes, write_compact, write_raw,
};
use parity_scale_codec::{DecodeAll, Encode};
use staging_xcm::v2::{MultiAsset, MultiLocation};
use vstd::prelude::*;

verus! {

/// Which one of a class of assets that cannot be exchanged for each other.
#[derive(Debug, PartialEq, Eq)]
pub enum AssetInstance {
    Undefined,
    Index(u128),
    Array4([u8; 4]),
    Array8([u8; 8]),
    Array16([u8; 16]),
    Array32([u8; 32]),
    Blob(Vec<u8>),
}

/// The mathematical value of an [`AssetInstance`].
pub enum AssetInstanceView {
    Undefined,
    Index(u128),
    Array4(Seq<u8>),
    Array8(Seq<u8>),
    Array16(Seq<u8>),
    Array32(Seq<u8>),
    Blob(Seq<u8>),
}

/// What names an asset: the place where it lives, or a bare name.
#[derive(Debug, PartialEq, Eq)]
pub enum AssetId {
    Concrete(Location),
    Abstract(Vec<u8>),
}

/// The mathematical value of an [`AssetId`].
pub enum AssetIdView {
    Concrete(LocationView),
    Abstract(Seq<u8>),
}

/// How much of an asset, or which instance of it. An amount of zero is an
/// amount like any other.
#[derive(Debug, PartialEq, Eq)]
pub enum Fungibility {
    Fungible(u128),
    NonFungible(AssetInstance),
}

/// The mathematical value of a [`Fungibility`].
pub enum FungibilityView {
    Fungible(u128),
    NonFungible(AssetInstanceView),
}

/// An asset: what it is, and how much or which one.
#[derive(Debug, PartialEq, Eq)]
pub struct Asset {
    pub id: AssetId,
    pub fun: Fungibility,
}

/// The mathematical value of an [`Asset`].
pub struct AssetView {
    pub id: AssetIdView,
    pub fun: FungibilityView,
}

/// An asset under its version tag.
#[derive(Debug, PartialEq, Eq)]
pub enum VersionedAsset {
    V1(Asset),
}

impl AssetInstanceView {
    /// The fixed-length data have their length, and a blob is short enough
    /// to carry a 32-bit length.
    pub open spec fn wf(self) -> bool {
        match self {
            AssetInstanceView::Array4(data) => data.len() == 4,
            AssetInstanceView::Array8(data) => data.len() == 8,
            AssetInstanceView::Array16(data) => data.len() == 16,
            AssetInstanceView::Array32(data) => data.len() == 32,
            AssetInstanceView::Blob(data) => data.len() <= u32::MAX,
            _ => true,
        }
    }
}

impl AssetIdView {
    /// A well-formed location, or a name short enough to carry a 32-bit length.
    pub open spec fn wf(self) -> bool {
        match self {
            AssetIdView::Concrete(location) => location.wf(),
            AssetIdView::Abstract(name) => name.len() <= u32::MAX,
        }
    }
}

impl FungibilityView {
    /// Any amount, or a well-formed instance.
    pub open spec fn wf(self) -> bool {
        match self {
            FungibilityView::Fungible(_) => true,
            FungibilityView::NonFungible(instance) => instance.wf(),
        }
    }
}

impl AssetView {
    /// Both parts are well formed.
    pub open spec fn wf(self) -> bool {
        self.id.wf() && self.fun.wf()
    }

    /// The asset that validating a send answers with: nothing of what lives here.
    pub open spec fn placeholder() -> AssetView {
        AssetView {
            id: AssetIdView::Concrete(LocationView { parents: 0, interior: Seq::empty() }),
            fun: FungibilityView::Fungible(0),
        }
    }
}

impl View for AssetInstance {
    type V = AssetInstanceView;

    open spec fn view(&self) -> AssetInstanceView {
        match self {
            AssetInstance::Undefined => AssetInstanceView::Undefined,
            AssetInstance::Index(index) => AssetInstanceView::Index(*index),
            AssetInstance::Array4(data) => AssetInstanceView::Array4(data@),
            AssetInstance::Array8(data) => AssetInstanceView::Array8(data@),
            AssetInstance::Array16(data) => AssetInstanceView::Array16(data@),
            AssetInstance::Array32(data) => AssetInstanceView::Array32(data@),
            AssetInstance::Blob(data) => AssetInstanceView::Blob(data@),
        }
    }
}

impl View for AssetId {
    type V = AssetIdView;

    open spec fn view(&self) -> AssetIdView {
        match self {
            AssetId::Concrete(location) => AssetIdView::Concrete(location@),
            AssetId::Abstract(name) => AssetIdView::Abstract(name@),
        }
    }
}

impl View for Fungibility {
    type V = FungibilityView;

    open spec fn view(&self) -> FungibilityView {
        match self {
            Fungibility::Fungible(amount) => FungibilityView::Fungible(*amount),
            Fungibility::NonFungible(instance) => FungibilityView::NonFungible(instance@),
        }
    }
}

impl View for Asset {
    type V = AssetView;

    open spec fn view(&self) -> AssetView {
        AssetView { id: self.id@, fun: self.fun@ }
    }
}

impl View for VersionedAsset {
    type V = AssetView;

    open spec fn view(&self) -> AssetView {
        match self {
            VersionedAsset::V1(asset) => asset@,
        }
    }
}

/// The wire form of an instance: a tag, then its datum.
pub open spec fn encode_instance(v: AssetInstanceView) -> Seq<u8> {
    match v {
        AssetInstanceView::Undefined => seq![0u8],
        AssetInstanceView::Index(index) => seq![1u8] + encode_compact(index as nat),
        AssetInstanceView::Array4(data) => seq![2u8] + data,
        AssetInstanceView::Array8(data) => seq![3u8] + data,
        AssetInstanceView::Array16(data) => seq![4u8] + data,
        AssetInstanceView::Array32(data) => seq![5u8] + data,
        AssetInstanceView::Blob(data) => seq![6u8] + encode_bytes(data),
    }
}

/// The instance at `at`, and the position behind it.
pub open spec fn decode_instance(s: Seq<u8>, at: int) -> Option<(AssetInstanceView, int)> {
    if at < 0 || at >= s.len() {
        None
    } else if s[at] == 0 {
        Some((AssetInstanceView::Undefined, at + 1))
    } else if s[at] == 1 {
        match decode_compact_u128(s, at + 1) {
            Some((index, p)) => Some((AssetInstanceView::Index(index), p)),
            None => None,
        }
    } else if s[at] == 2 {
        match decode_fixed(s, at + 1, 4) {
            Some((data, p)) => Some((AssetInstanceView::Array4(data), p)),
            None => None,
        }
    } else if s[at] == 3 {
        match decode_fixed(s, at + 1, 8) {
            Some((data, p)) => Some((AssetInstanceView::Array8(data), p)),
            None => None,
        }
    } else if s[at] == 4 {
        match decode_fixed(s, at + 1, 16) {
            Some((data, p)) => Some((AssetInstanceView::Array16(data), p)),
            None => None,
        }
    } else if s[at] == 5 {
        match decode_fixed(s, at + 1, 32) {
            Some((data, p)) => Some((AssetInstanceView::Array32(data), p)),
            None => None,
        }
    } else if s[at] == 6 {
        match decode_bytes(s, at + 1) {
            Some((data, p)) => Some((AssetInstanceView::Blob(data), p)),
            None => None,
        }
    } else {
        None
    }
}

/// The wire form of an asset's identifier.
pub open spec fn encode_asset_id(v: AssetIdView) -> Seq<u8> {
    match v {
        AssetIdView::Concrete(location) => seq![0u8] + encode_location(location),
        AssetIdView::Abstract(name) => seq![1u8] + encode_bytes(name),
    }
}

/// The asset identifier at `at`, and the position behind it.
pub open spec fn decode_asset_id(s: Seq<u8>, at: int) -> Option<(AssetIdView, int)> {
    if at < 0 || at >= s.len() {
        None
    } else if s[at] == 0 {
        match decode_location(s, at + 1) {
            Some((location, p)) => Some((AssetIdView::Concrete(location), p)),
            None => None,
        }
    } else if s[at] == 1 {
        match decode_bytes(s, at + 1) {
            Some((name, p)) => Some((AssetIdView::Abstract(name), p)),
            None => None,
        }
    } else {
        None
    }
}

/// The wire form of an amount or instance.
pub open spec fn encode_fungibility(v: FungibilityView) -> Seq<u8> {
    match v {
        FungibilityView::Fungible(amount) => seq![0u8] + encode_compact(amount as nat),
        FungibilityView::NonFungible(instance) => seq![1u8] + encode_instance(instance),
    }
}

/// The amount or instance at `at`, and the position behind it.
pub open spec fn decode_fungibility(s: Seq<u8>, at: int) -> Option<(FungibilityView, int)> {
    if at < 0 || at >= s.len() {
        None
    } else if s[at] == 0 {
        match decode_compact_u128(s, at + 1) {
            Some((amount, p)) => Some((FungibilityView::Fungible(amount), p)),
            None => None,
        }
    } else if s[at] == 1 {
        match decode_instance(s, at + 1) {
            Some((instance, p)) => Some((FungibilityView::NonFungible(instance), p)),
            None => None,
        }
    } else {
        None
    }
}

/// The wire form of an asset: its identifier, then its amount or instance.
pub open spec fn encode_asset(v: AssetView) -> Seq<u8> {
    encode_asset_id(v.id) + encode_fungibility(v.fun)
}

/// The asset at `at`, and the position behind it.
pub open spec fn decode_asset(s: Seq<u8>, at: int) -> Option<(AssetView, int)> {
    match decode_asset_id(s, at) {
        Some((id, p)) => match decode_fungibility(s, p) {
            Some((fun, q)) => Some((AssetView { id, fun }, q)),
            None => None,
        },
        None => None,
    }
}

/// The wire form of an asset with its version tag before it.
pub open spec fn encode_versioned_asset(v: AssetView) -> Seq<u8> {
    seq![LOCATION_VERSION] + encode_asset(v)
}

/// The versioned asset at `at`: a version that is not understood is told
/// apart from a malformed body.
pub open spec fn decode_versioned_asset(s: Seq<u8>, at: int) -> Result<(AssetView, int), Error> {
    if at < 0 || at >= s.len() {
        Err(Error::DecodeError)
    } else if s[at] != LOCATION_VERSION {
        Err(Error::UnsupportedVersion)
    } else {
        match decode_asset(s, at + 1) {
            Some(found) => Ok(found),
            None => Err(Error::DecodeError),
        }
    }
}

/// Decoding an encoded instance gives it back.
pub proof fn lemma_instance_roundtrip(s: Seq<u8>, at: int, v: AssetInstanceView)
    requires
        v.wf(),
        holds_at(s, at, encode_instance(v)),
    ensures
        decode_instance(s, at) == Some((v, at + encode_instance(v).len())),
{
    match v {
        AssetInstanceView::Undefined => {
            assert(s[at] == s.subrange(at, at + 1)[0]);
        },
        AssetInstanceView::Index(index) => {
            lemma_holds_at_tag(s, at, 1u8, encode_compact(index as nat));
            lemma_compact_u128_roundtrip(s, at + 1, index);
        },
        AssetInstanceView::Array4(data) => {
            lemma_holds_at_tag(s, at, 2u8, data);
            lemma_fixed_roundtrip(s, at + 1, data);
        },
        AssetInstanceView::Array8(data) => {
            lemma_holds_at_tag(s, at, 3u8, data);
            lemma_fixed_roundtrip(s, at + 1, data);
        },
        AssetInstanceView::Array16(data) => {
            lemma_holds_at_tag(s, at, 4u8, data);
            lemma_fixed_roundtrip(s, at + 1, data);
        },
        AssetInstanceView::Array32(data) => {
            lemma_holds_at_tag(s, at, 5u8, data);
            lemma_fixed_roundtrip(s, at + 1, data);
        },
        AssetInstanceView::Blob(data) => {
            lemma_holds_at_tag(s, at, 6u8, encode_bytes(data));
            lemma_bytes_roundtrip(s, at + 1, data);
        },
    }
}

/// Decoding an encoded asset identifier gives it back.
pub proof fn lemma_asset_id_roundtrip(s: Seq<u8>, at: int, v: AssetIdView)
    requires
        v.wf(),
        holds_at(s, at, encode_asset_id(v)),
    ensures
        decode_asset_id(s, at) == Some((v, at + encode_asset_id(v).len())),
{
    match v {
        AssetIdView::Concrete(location) => {
            lemma_holds_at_tag(s, at, 0u8, encode_location(location));
            lemma_location_roundtrip(s, at + 1, location);
        },
        AssetIdView::Abstract(name) => {
            lemma_holds_at_tag(s, at, 1u8, encode_bytes(name));
            lemma_bytes_roundtrip(s, at + 1, name);
        },
    }
}

/// Decoding an encoded amount or instance gives it back.
pub proof fn lemma_fungibility_roundtrip(s: Seq<u8>, at: int, v: FungibilityView)
    requires
        v.wf(),
        holds_at(s, at, encode_fungibility(v)),
    ensures
        decode_fungibility(s, at) == Some((v, at + encode_fungibility(v).len())),
{
    match v {
        FungibilityView::Fungible(amount) => {
            lemma_holds_at_tag(s, at, 0u8, encode_compact(amount as nat));
            lemma_compact_u128_roundtrip(s, at + 1, amount);
        },
        FungibilityView::NonFungible(instance) => {
            lemma_holds_at_tag(s, at, 1u8, encode_instance(instance));
            lemma_instance_roundtrip(s, at + 1, instance);
        },
    }
}

/// Decoding an encoded asset gives it back.
pub proof fn lemma_asset_roundtrip(s: Seq<u8>, at: int, v: AssetView)
    requires
        v.wf(),
        holds_at(s, at, encode_asset(v)),
    ensures
        decode_asset(s, at) == Some((v, at + encode_asset(v).len())),
{
    lemma_holds_at_split(s, at, encode_asset_id(v.id), encode_fungibility(v.fun));
    lemma_asset_id_roundtrip(s, at, v.id);
    lemma_fungibility_roundtrip(s, at + encode_asset_id(v.id).len(), v.fun);
}

/// For every well-formed asset, decoding its versioned wire form gives the
/// asset back and consumes exactly that form.
pub proof fn lemma_versioned_asset_roundtrip(v: AssetView)
    requires
        v.wf(),
    ensures
        decode_versioned_asset(encode_versioned_asset(v), 0) == Ok::<(AssetView, int), Error>(
            (v, encode_versioned_asset(v).len() as int),
        ),
{
    let s = encode_versioned_asset(v);
    lemma_holds_at_whole(s);
    lemma_holds_at_tag(s, 0, LOCATION_VERSION, encode_asset(v));
    lemma_asset_roundtrip(s, 1, v);
}

/// A decoded asset identifier ends inside the input, behind its start.
proof fn lemma_decode_asset_id_bounds(s: Seq<u8>, at: int)
    requires
        decode_asset_id(s, at) is Some,
    ensures
        at < decode_asset_id(s, at).unwrap().1 <= s.len(),
{
    if s[at] == 0 {
        lemma_decode_location_bounds(s, at + 1);
    } else {
        lemma_decode_bytes_bounds(s, at + 1);
    }
}

/// A decoded instance ends inside the input, behind its start.
proof fn lemma_decode_instance_bounds(s: Seq<u8>, at: int)
    requires
        decode_instance(s, at) is Some,
    ensures
        at < decode_instance(s, at).unwrap().1 <= s.len(),
{
    lemma_pow256_values();
    if s[at] == 1 {
        lemma_decode_compact_bounds(s, at + 1, 16);
    } else if s[at] == 6 {
        lemma_decode_bytes_bounds(s, at + 1);
    }
}

/// What decodes as an instance is the wire form of that instance.
pub proof fn lemma_instance_canonical(s: Seq<u8>, at: int)
    requires
        decode_instance(s, at) is Some,
    ensures
        s.subrange(at, decode_instance(s, at).unwrap().1) == encode_instance(
            decode_instance(s, at).unwrap().0,
        ),
{
    let next = decode_instance(s, at).unwrap().1;
    lemma_decode_instance_bounds(s, at);
    lemma_subrange_join(s, at, at + 1, next);
    assert(s.subrange(at, at + 1) =~= seq![s[at]]);
    if s[at] == 0 {
        assert(s.subrange(at + 1, at + 1) =~= Seq::<u8>::empty());
        assert(seq![s[at]] + Seq::<u8>::empty() =~= seq![s[at]]);
    } else if s[at] == 1 {
        lemma_compact_u128_canonical(s, at + 1);
    } else if s[at] == 6 {
        lemma_bytes_canonical(s, at + 1);
    }
}

/// What decodes as an asset identifier is the wire form of that identifier.
pub proof fn lemma_asset_id_canonical(s: Seq<u8>, at: int)
    requires
        decode_asset_id(s, at) is Some,
    ensures
        s.subrange(at, decode_asset_id(s, at).unwrap().1) == encode_asset_id(
            decode_asset_id(s, at).unwrap().0,
        ),
{
    let next = decode_asset_id(s, at).unwrap().1;
    lemma_decode_asset_id_bounds(s, at);
    lemma_subrange_join(s, at, at + 1, next);
    assert(s.subrange(at, at + 1) =~= seq![s[at]]);
    if s[at] == 0 {
        lemma_location_canonical(s, at + 1);
    } else {
        lemma_bytes_canonical(s, at + 1);
    }
}

/// What decodes as an amount or instance is the wire form of it.
pub proof fn lemma_fungibility_canonical(s: Seq<u8>, at: int)
    requires
        decode_fungibility(s, at) is Some,
    ensures
        s.subrange(at, decode_fungibility(s, at).unwrap().1) == encode_fungibility(
            decode_fungibility(s, at).unwrap().0,
        ),
{
    lemma_pow256_values();
    let next = decode_fungibility(s, at).unwrap().1;
    if s[at] == 0 {
        lemma_decode_compact_bounds(s, at + 1, 16);
        lemma_compact_u128_canonical(s, at + 1);
    } else {
        lemma_decode_instance_bounds(s, at + 1);
        lemma_instance_canonical(s, at + 1);
    }
    lemma_subrange_join(s, at, at + 1, next);
    assert(s.subrange(at, at + 1) =~= seq![s[at]]);
}

/// What decodes as an asset is the wire form of that asset: every asset
/// has one wire form.
pub proof fn lemma_asset_canonical(s: Seq<u8>, at: int)
    requires
        decode_asset(s, at) is Some,
    ensures
        s.subrange(at, decode_asset(s, at).unwrap().1) == encode_asset(
            decode_asset(s, at).unwrap().0,
        ),
{
    let next = decode_asset(s, at).unwrap().1;
    lemma_decode_asset_bounds(s, at);
    lemma_decode_asset_id_bounds(s, at);
    let p = decode_asset_id(s, at).unwrap().1;
    lemma_asset_id_canonical(s, at);
    lemma_fungibility_canonical(s, p);
    lemma_subrange_join(s, at, p, next);
}

/// What decodes as a versioned asset is the versioned wire form of that asset.
pub proof fn lemma_versioned_asset_canonical(s: Seq<u8>, at: int)
    requires
        decode_versioned_asset(s, at) is Ok,
    ensures
        s.subrange(at, decode_versioned_asset(s, at).unwrap().1) == encode_versioned_asset(
            decode_versioned_asset(s, at).unwrap().0,
        ),
{
    let next = decode_versioned_asset(s, at).unwrap().1;
    lemma_decode_asset_bounds(s, at + 1);
    lemma_asset_canonical(s, at + 1);
    lemma_subrange_join(s, at, at + 1, next);
    assert(s.subrange(at, at + 1) =~= seq![s[at]]);
}

/// A decoded asset is well formed and ends inside the input, behind its start.
pub proof fn lemma_decode_asset_bounds(s: Seq<u8>, at: int)
    requires
        decode_asset(s, at) is Some,
    ensures
        decode_asset(s, at).unwrap().0.wf(),
        at < decode_asset(s, at).unwrap().1 <= s.len(),
{
    lemma_pow256_values();
    if s[at] == 0 {
        lemma_decode_location_bounds(s, at + 1);
    } else {
        lemma_decode_bytes_bounds(s, at + 1);
    }
    let p = decode_asset_id(s, at).unwrap().1;
    if s[p] == 0 {
        lemma_decode_compact_bounds(s, p + 1, 16);
    } else {
        let tag = s[p + 1];
        if tag == 1 {
            lemma_decode_compact_bounds(s, p + 2, 16);
        } else if tag == 6 {
            lemma_decode_bytes_bounds(s, p + 2);
        }
    }
}

impl AssetInstance {
    /// Appends the wire form.
    pub fn write(&self, out: &mut Vec<u8>)
        ensures
            final(out)@ == old(out)@ + encode_instance(self@),
    {
        let ghost before = out@;
        match self {
            AssetInstance::Undefined => {
                out.push(0);
            },
            AssetInstance::Index(index) => {
                out.push(1);
                write_compact(out, *index);
            },
            AssetInstance::Array4(data) => {
                out.push(2);
                write_raw(out, data.as_slice());
            },
            AssetInstance::Array8(data) => {
                out.push(3);
                write_raw(out, data.as_slice());
            },
            AssetInstance::Array16(data) => {
                out.push(4);
                write_raw(out, data.as_slice());
            },
            AssetInstance::Array32(data) => {
                out.push(5);
                write_raw(out, data.as_slice());
            },
            AssetInstance::Blob(data) => {
                out.push(6);
                write_bytes(out, data.as_slice());
            },
        }
        proof {
            assert(out@ =~= before + encode_instance(self@));
        }
    }

    /// Reads an instance at `at`.
    pub fn read(input: &[u8], at: usize) -> (r: Option<(AssetInstance, usize)>)
        ensures
            match r {
                Some((v, next)) => decode_instance(input@, at as int) == Some((v@, next as int)),
                None => decode_instance(input@, at as int) is None,
            },
    {
        if at >= input.len() {
            return None;
        }
        let tag = input[at];
        if tag == 0 {
            Some((AssetInstance::Undefined, at + 1))
        } else if tag == 1 {
            match read_compact_u128(input, at + 1) {
                Some((index, next)) => Some((AssetInstance::Index(index), next)),
                None => None,
            }
        } else if tag == 2 {
            match read_array::<4>(input, at + 1) {
                Some((data, next)) => Some((AssetInstance::Array4(data), next)),
                None => None,
            }
        } else if tag == 3 {
            match read_array::<8>(input, at + 1) {
                Some((data, next)) => Some((AssetInstance::Array8(data), next)),
                None => None,
            }
        } else if tag == 4 {
            match read_array::<16>(input, at + 1) {
                Some((data, next)) => Some((AssetInstance::Array16(data), next)),
                None => None,
            }
        } else if tag == 5 {
            match read_array::<32>(input, at + 1) {
                Some((data, next)) => Some((AssetInstance::Array32(data), next)),
                None => None,
            }
        } else if tag == 6 {
            match read_bytes(input, at + 1) {
                Some((data, next)) => Some((AssetInstance::Blob(data), next)),
                None => None,
            }
        } else {
            None
        }
    }
}

impl AssetId {
    /// Appends the wire form.
    pub fn write(&self, out: &mut Vec<u8>)
        ensures
            final(out)@ == old(out)@ + encode_asset_id(self@),
    {
        let ghost before = out@;
        match self {
            AssetId::Concrete(location) => {
                out.push(0);
                location.write(out);
            },
            AssetId::Abstract(name) => {
                out.push(1);
                write_bytes(out, name.as_slice());
            },
        }
        proof {
            assert(out@ =~= before + encode_asset_id(self@));
        }
    }

    /// Reads an asset identifier at `at`.
    pub fn read(input: &[u8], at: usize) -> (r: Option<(AssetId, usize)>)
        ensures
            match r {
                Some((v, next)) => decode_asset_id(input@, at as int) == Some((v@, next as int)),
                None => decode_asset_id(input@, at as int) is None,
            },
    {
        if at >= input.len() {
            return None;
        }
        let tag = input[at];
        if tag == 0 {
            match Location::read(input, at + 1) {
                Some((location, next)) => Some((AssetId::Concrete(location), next)),
                None => None,
            }
        } else if tag == 1 {
            match read_bytes(input, at + 1) {
                Some((name, next)) => Some((AssetId::Abstract(name), next)),
                None => None,
            }
        } else {
            None
        }
    }
}

impl Fungibility {
    /// Appends the wire form.
    pub fn write(&self, out: &mut Vec<u8>)
        ensures
            final(out)@ == old(out)@ + encode_fungibility(self@),
    {
        let ghost before = out@;
        match self {
            Fungibility::Fungible(amount) => {
                out.push(0);
                write_compact(out, *amount);
            },
            Fungibility::NonFungible(instance) => {
                out.push(1);
                instance.write(out);
            },
        }
        proof {
            assert(out@ =~= before + encode_fungibility(self@));
        }
    }

    /// Reads an amount or instance at `at`.
    pub fn read(input: &[u8], at: usize) -> (r: Option<(Fungibility, usize)>)
        ensures
            match r {
                Some((v, next)) => decode_fungibility(input@, at as int) == Some(
                    (v@, next as int),
                ),
                None => decode_fungibility(input@, at as int) is None,
            },
    {
        if at >= input.len() {
            return None;
        }
        let tag = input[at];
        if tag == 0 {
            match read_compact_u128(input, at + 1) {
                Some((amount, next)) => Some((Fungibility::Fungible(amount), next)),
                None => None,
            }
        } else if tag == 1 {
            match AssetInstance::read(input, at + 1) {
                Some((instance, next)) => Some((Fungibility::NonFungible(instance), next)),
                None => None,
            }
        } else {
            None
        }
    }
}

/// What the re-anchoring of `staging_xcm` makes of the three wire forms: the
/// wire form of the rewritten asset, or nothing where it refuses.
pub uninterp spec fn reanchored_wire(asset: Seq<u8>, target: Seq<u8>, ancestry: Seq<u8>) -> Option<
    Seq<u8>,
>;

/// The byte string that an answer holds, where there is one.
pub open spec fn wire_view(wire: Option<Vec<u8>>) -> Option<Seq<u8>> {
    match wire {
        Some(bytes) => Some(bytes@),
        None => None,
    }
}

/// What a re-anchoring that came back as `wire` amounts to: no answer is an
/// unreachable target, an answer is read as an asset and must be one, whole.
pub open spec fn reanchor_outcome_spec(wire: Option<Seq<u8>>) -> Result<AssetView, Error> {
    match wire {
        None => Err(Error::UnsupportedVersion),
        Some(bytes) => match decode_asset(bytes, 0) {
            Some((asset, end)) => if end == bytes.len() {
                Ok(asset)
            } else {
                Err(Error::DecodeError)
            },
            None => Err(Error::DecodeError),
        },
    }
}

/// What re-anchoring makes of an asset with a concrete identifier: what
/// [`reanchor_outcome_spec`] makes of the answer of `staging_xcm` to the wire
/// forms of the asset, the target and the ancestry.
pub open spec fn reanchored_spec(asset: AssetView, target: LocationView, ancestry: LocationView)
    -> Result<AssetView, Error> {
    reanchor_outcome_spec(
        reanchored_wire(encode_asset(asset), encode_location(target), encode_location(ancestry)),
    )
}

/// `staging_xcm::v2::MultiAsset::reanchored`, on wire forms. The three
/// arguments are decoded with that crate's own decoder, which takes
/// nothing but the whole of each; the asset is rewritten for the point of
/// view of `target`, `ancestry` being where this chain stands; the result is
/// encoded again. Claimed: what comes back depends on the three byte strings
/// alone. Where a decoder or the rewriting refuses, nothing comes back.
#[verifier::external_body]
#[allow(deprecated)]
fn reanchor_wire(asset: &[u8], target: &[u8], ancestry: &[u8]) -> (out: Option<Vec<u8>>)
    ensures
        wire_view(out) == reanchored_wire(asset@, target@, ancestry@),
{
    let asset = MultiAsset::decode_all(&mut &asset[..]).ok()?;
    let target = MultiLocation::decode_all(&mut &target[..]).ok()?;
    let ancestry = MultiLocation::decode_all(&mut &ancestry[..]).ok()?;
    asset.reanchored(&target, &ancestry).ok().map(|moved| moved.encode())
}

impl Asset {
    /// What [`AssetView::wf`] says of the value.
    pub open spec fn wf(&self) -> bool {
        self@.wf()
    }

    /// The asset that validating a send answers with: an amount of zero of
    /// what lives here.
    pub fn placeholder() -> (r: Asset)
        ensures
            r@ == AssetView::placeholder(),
    {
        Asset { id: AssetId::Concrete(Location::here()), fun: Fungibility::Fungible(0) }
    }

    /// Appends the wire form.
    pub fn write(&self, out: &mut Vec<u8>)
        ensures
            final(out)@ == old(out)@ + encode_asset(self@),
    {
        let ghost before = out@;
        self.id.write(out);
        self.fun.write(out);
        proof {
            assert(out@ =~= before + encode_asset(self@));
        }
    }

    /// The wire form.
    pub fn encode(&self) -> (out: Vec<u8>)
        ensures
            out@ == encode_asset(self@),
    {
        let mut out: Vec<u8> = Vec::new();
        self.write(&mut out);
        proof {
            assert(Seq::<u8>::empty() + encode_asset(self@) =~= encode_asset(self@));
        }
        out
    }

    /// Reads an asset at `at`.
    pub fn read(input: &[u8], at: usize) -> (r: Option<(Asset, usize)>)
        ensures
            match r {
                Some((v, next)) => decode_asset(input@, at as int) == Some((v@, next as int)),
                None => decode_asset(input@, at as int) is None,
            },
            r matches Some((v, next)) ==> v@.wf() && at < next <= input@.len(),
    {
        proof {
            if decode_asset(input@, at as int) is Some {
                lemma_decode_asset_bounds(input@, at as int);
            }
        }
        match AssetId::read(input, at) {
            Some((id, p)) => match Fungibility::read(input, p) {
                Some((fun, next)) => Some((Asset { id, fun }, next)),
                None => None,
            },
            None => None,
        }
    }

    /// Reads what a re-anchoring gave back.
    pub fn reanchor_outcome(wire: Option<Vec<u8>>) -> (r: Result<Asset, Error>)
        ensures
            match r {
                Ok(asset) => reanchor_outcome_spec(wire_view(wire)) == Ok::<
                    AssetView,
                    Error,
                >(asset@),
                Err(e) => reanchor_outcome_spec(wire_view(wire)) == Err::<
                    AssetView,
                    Error,
                >(e),
            },
    {
        match wire {
            None => Err(Error::UnsupportedVersion),
            Some(bytes) => match Asset::read(bytes.as_slice(), 0) {
                Some((asset, end)) => if end == bytes.len() {
                    Ok(asset)
                } else {
                    Err(Error::DecodeError)
                },
                None => Err(Error::DecodeError),
            },
        }
    }

    /// The asset as `target` sees it, `ancestry` being the place of this
    /// chain among its ancestors. An abstract identifier names the same
    /// thing everywhere, so such an asset stays as it is. A concrete one is
    /// rewritten, and the rewriting is that of `staging_xcm`: the result is
    /// what [`reanchor_outcome_spec`] makes of its answer to the three wire
    /// forms.
    pub fn reanchored(self, target: &Location, ancestry: &Location) -> (r: Result<Asset, Error>)
        ensures
            self@.id is Abstract ==> r is Ok && r->Ok_0@ == self@,
            self@.id is Concrete ==> match r {
                Ok(asset) => reanchored_spec(self@, target@, ancestry@) == Ok::<AssetView, Error>(
                    asset@,
                ),
                Err(e) => reanchored_spec(self@, target@, ancestry@) == Err::<AssetView, Error>(e),
            },
    {
        match &self.id {
            AssetId::Abstract(_) => Ok(self),
            AssetId::Concrete(_) => {
                let asset_wire = self.encode();
                let target_wire = target.encode();
                let ancestry_wire = ancestry.encode();
                let wire = reanchor_wire(
                    asset_wire.as_slice(),
                    target_wire.as_slice(),
                    ancestry_wire.as_slice(),
                );
                Asset::reanchor_outcome(wire)
            },
        }
    }
}

impl VersionedAsset {
    /// The asset, whatever tag it came under.
    pub fn into_latest(self) -> (r: Asset)
        ensures
            r@ == self@,
    {
        match self {
            VersionedAsset::V1(asset) => asset,
        }
    }

    /// Appends the version tag and the wire form.
    pub fn write(&self, out: &mut Vec<u8>)
        ensures
            final(out)@ == old(out)@ + encode_versioned_asset(self@),
    {
        let ghost before = out@;
        match self {
            VersionedAsset::V1(asset) => {
                out.push(LOCATION_VERSION);
                asset.write(out);
            },
        }
        proof {
            assert(out@ =~= before + encode_versioned_asset(self@));
        }
    }

    /// The version tag and the wire form.
    pub fn encode(&self) -> (out: Vec<u8>)
        ensures
            out@ == encode_versioned_asset(self@),
    {
        let mut out: Vec<u8> = Vec::new();
        self.write(&mut out);
        proof {
            assert(Seq::<u8>::empty() + encode_versioned_asset(self@) =~= encode_versioned_asset(
                self@,
            ));
        }
        out
    }

    /// Reads a versioned asset at `at`.
    pub fn read(input: &[u8], at: usize) -> (r: Result<(VersionedAsset, usize), Error>)
        ensures
            match r {
                Ok((v, next)) => decode_versioned_asset(input@, at as int) == Ok::<
                    (AssetView, int),
                    Error,
                >((v@, next as int)),
                Err(e) => decode_versioned_asset(input@, at as int) == Err::<
                    (AssetView, int),
                    Error,
                >(e),
            },
            r matches Ok((v, next)) ==> v@.wf() && at < next <= input@.len(),
    {
        if at >= input.len() {
            return Err(Error::DecodeError);
        }
        if input[at] != LOCATION_VERSION {
            return Err(Error::UnsupportedVersion);
        }
        match Asset::read(input, at + 1) {
            Some((asset, next)) => Ok((VersionedAsset::V1(asset), next)),
            None => Err(Error::DecodeError),
        }
    }
}

} // verus!
