//! The steps of a path through the network of chains, and their wire format.

use crate::scale::{
    decode_bytes, decode_compact, decode_compact_u128, decode_compact_u32, decode_compact_u64,
    decode_fixed, encode_bytes, encode_compact, holds_at, lemma_bytes_canonical,
    lemma_bytes_roundtrip, lemma_compact_u128_canonical, lemma_compact_u128_roundtrip,
    lemma_compact_u32_canonical, lemma_compact_u32_roundtrip, lemma_compact_u64_canonical,
    lemma_compact_u64_roundtrip, lemma_decode_bytes_bounds, lemma_decode_compact_bounds,
    lemma_fixed_roundtrip, lemma_holds_at_split, lemma_holds_at_tag, lemma_pow256_values,
    lemma_subrange_join, read_array, read_bytes, read_compact_u128, read_compact_u32,
    read_compact_u64, write_bytes, write_compact, write_raw,
};
use vstd::prelude::*;

verus! {

/// A network that an account belongs to.
#[derive(Debug, PartialEq, Eq)]
pub enum NetworkId {
    /// Any network.
    Any,
    /// A network known by name.
    Named(Vec<u8>),
    Polkadot,
    Kusama,
}

/// The mathematical value of a [`NetworkId`].
pub enum NetworkIdView {
    Any,
    Named(Seq<u8>),
    Polkadot,
    Kusama,
}

impl NetworkIdView {
    /// A name is short enough to carry a 32-bit length.
    pub open spec fn wf(self) -> bool {
        match self {
            NetworkIdView::Named(name) => name.len() <= u32::MAX,
            _ => true,
        }
    }
}

impl View for NetworkId {
    type V = NetworkIdView;

    open spec fn view(&self) -> NetworkIdView {
        match self {
            NetworkId::Any => NetworkIdView::Any,
            NetworkId::Named(name) => NetworkIdView::Named(name@),
            NetworkId::Polkadot => NetworkIdView::Polkadot,
            NetworkId::Kusama => NetworkIdView::Kusama,
        }
    }
}

/// A body of people or accounts that acts as one.
#[derive(Debug, PartialEq, Eq)]
pub enum BodyId {
    Unit,
    Named(Vec<u8>),
    Index(u32),
    Executive,
    Technical,
    Legislative,
    Judicial,
    Defense,
    Administration,
    Treasury,
}

/// The mathematical value of a [`BodyId`].
pub enum BodyIdView {
    Unit,
    Named(Seq<u8>),
    Index(u32),
    Executive,
    Technical,
    Legislative,
    Judicial,
    Defense,
    Administration,
    Treasury,
}

impl BodyIdView {
    /// A name is short enough to carry a 32-bit length.
    pub open spec fn wf(self) -> bool {
        match self {
            BodyIdView::Named(name) => name.len() <= u32::MAX,
            _ => true,
        }
    }
}

impl View for BodyId {
    type V = BodyIdView;

    open spec fn view(&self) -> BodyIdView {
        match self {
            BodyId::Unit => BodyIdView::Unit,
            BodyId::Named(name) => BodyIdView::Named(name@),
            BodyId::Index(index) => BodyIdView::Index(*index),
            BodyId::Executive => BodyIdView::Executive,
            BodyId::Technical => BodyIdView::Technical,
            BodyId::Legislative => BodyIdView::Legislative,
            BodyId::Judicial => BodyIdView::Judicial,
            BodyId::Defense => BodyIdView::Defense,
            BodyId::Administration => BodyIdView::Administration,
            BodyId::Treasury => BodyIdView::Treasury,
        }
    }
}

/// The part of a body that speaks.
#[derive(Clone, Copy, Debug, PartialEq, Eq, Structural)]
pub enum BodyPart {
    Voice,
    Members { count: u32 },
    Fraction { nom: u32, denom: u32 },
    AtLeastProportion { nom: u32, denom: u32 },
    MoreThanProportion { nom: u32, denom: u32 },
}

/// One step of a path: into a chain, an account, a pallet, or a body.
#[derive(Debug, PartialEq, Eq)]
#[allow(inconsistent_fields)]
pub enum Junction {
    Parachain(u32),
    AccountId32 { network: NetworkId, id: [u8; 32] },
    AccountIndex64 { network: NetworkId, index: u64 },
    AccountKey20 { network: NetworkId, key: [u8; 20] },
    PalletInstance(u8),
    GeneralIndex(u128),
    GeneralKey(Vec<u8>),
    OnlyChild,
    Plurality { id: BodyId, part: BodyPart },
}

/// The mathematical value of a [`Junction`].
#[allow(inconsistent_fields)]
pub enum JunctionView {
    Parachain(u32),
    AccountId32 { network: NetworkIdView, id: Seq<u8> },
    AccountIndex64 { network: NetworkIdView, index: u64 },
    AccountKey20 { network: NetworkIdView, key: Seq<u8> },
    PalletInstance(u8),
    GeneralIndex(u128),
    GeneralKey(Seq<u8>),
    OnlyChild,
    Plurality { id: BodyIdView, part: BodyPart },
}

impl JunctionView {
    /// Account identifiers have their fixed length, and what is variable is
    /// short enough to carry a 32-bit length.
    pub open spec fn wf(self) -> bool {
        match self {
            JunctionView::AccountId32 { network, id } => network.wf() && id.len() == 32,
            JunctionView::AccountIndex64 { network, .. } => network.wf(),
            JunctionView::AccountKey20 { network, key } => network.wf() && key.len() == 20,
            JunctionView::GeneralKey(key) => key.len() <= u32::MAX,
            JunctionView::Plurality { id, .. } => id.wf(),
            _ => true,
        }
    }
}

impl View for Junction {
    type V = JunctionView;

    open spec fn view(&self) -> JunctionView {
        match self {
            Junction::Parachain(id) => JunctionView::Parachain(*id),
            Junction::AccountId32 { network, id } => JunctionView::AccountId32 {
                network: network@,
                id: id@,
            },
            Junction::AccountIndex64 { network, index } => JunctionView::AccountIndex64 {
                network: network@,
                index: *index,
            },
            Junction::AccountKey20 { network, key } => JunctionView::AccountKey20 {
                network: network@,
                key: key@,
            },
            Junction::PalletInstance(index) => JunctionView::PalletInstance(*index),
            Junction::GeneralIndex(index) => JunctionView::GeneralIndex(*index),
            Junction::GeneralKey(key) => JunctionView::GeneralKey(key@),
            Junction::OnlyChild => JunctionView::OnlyChild,
            Junction::Plurality { id, part } => JunctionView::Plurality { id: id@, part: *part },
        }
    }
}

/// The wire form of a network: a tag, and the name where there is one.
pub open spec fn encode_network(v: NetworkIdView) -> Seq<u8> {
    match v {
        NetworkIdView::Any => seq![0u8],
        NetworkIdView::Named(name) => seq![1u8] + encode_bytes(name),
        NetworkIdView::Polkadot => seq![2u8],
        NetworkIdView::Kusama => seq![3u8],
    }
}

/// The network at `at`, and the position behind it.
pub open spec fn decode_network(s: Seq<u8>, at: int) -> Option<(NetworkIdView, int)> {
    if at < 0 || at >= s.len() {
        None
    } else if s[at] == 0 {
        Some((NetworkIdView::Any, at + 1))
    } else if s[at] == 1 {
        match decode_bytes(s, at + 1) {
            Some((name, p)) => Some((NetworkIdView::Named(name), p)),
            None => None,
        }
    } else if s[at] == 2 {
        Some((NetworkIdView::Polkadot, at + 1))
    } else if s[at] == 3 {
        Some((NetworkIdView::Kusama, at + 1))
    } else {
        None
    }
}

/// The wire form of a body's identifier.
pub open spec fn encode_body_id(v: BodyIdView) -> Seq<u8> {
    match v {
        BodyIdView::Unit => seq![0u8],
        BodyIdView::Named(name) => seq![1u8] + encode_bytes(name),
        BodyIdView::Index(index) => seq![2u8] + encode_compact(index as nat),
        BodyIdView::Executive => seq![3u8],
        BodyIdView::Technical => seq![4u8],
        BodyIdView::Legislative => seq![5u8],
        BodyIdView::Judicial => seq![6u8],
        BodyIdView::Defense => seq![7u8],
        BodyIdView::Administration => seq![8u8],
        BodyIdView::Treasury => seq![9u8],
    }
}

/// The body identifier at `at`, and the position behind it.
pub open spec fn decode_body_id(s: Seq<u8>, at: int) -> Option<(BodyIdView, int)> {
    if at < 0 || at >= s.len() {
        None
    } else if s[at] == 0 {
        Some((BodyIdView::Unit, at + 1))
    } else if s[at] == 1 {
        match decode_bytes(s, at + 1) {
            Some((name, p)) => Some((BodyIdView::Named(name), p)),
            None => None,
        }
    } else if s[at] == 2 {
        match decode_compact_u32(s, at + 1) {
            Some((index, p)) => Some((BodyIdView::Index(index), p)),
            None => None,
        }
    } else if s[at] == 3 {
        Some((BodyIdView::Executive, at + 1))
    } else if s[at] == 4 {
        Some((BodyIdView::Technical, at + 1))
    } else if s[at] == 5 {
        Some((BodyIdView::Legislative, at + 1))
    } else if s[at] == 6 {
        Some((BodyIdView::Judicial, at + 1))
    } else if s[at] == 7 {
        Some((BodyIdView::Defense, at + 1))
    } else if s[at] == 8 {
        Some((BodyIdView::Administration, at + 1))
    } else if s[at] == 9 {
        Some((BodyIdView::Treasury, at + 1))
    } else {
        None
    }
}

/// The wire form of two compact 32-bit integers, one behind the other.
pub open spec fn encode_ratio(nom: u32, denom: u32) -> Seq<u8> {
    encode_compact(nom as nat) + encode_compact(denom as nat)
}

/// Two compact 32-bit integers at `at`, and the position behind them.
pub open spec fn decode_ratio(s: Seq<u8>, at: int) -> Option<((u32, u32), int)> {
    match decode_compact_u32(s, at) {
        Some((nom, p)) => match decode_compact_u32(s, p) {
            Some((denom, q)) => Some(((nom, denom), q)),
            None => None,
        },
        None => None,
    }
}

/// The wire form of a body's part.
pub open spec fn encode_body_part(v: BodyPart) -> Seq<u8> {
    match v {
        BodyPart::Voice => seq![0u8],
        BodyPart::Members { count } => seq![1u8] + encode_compact(count as nat),
        BodyPart::Fraction { nom, denom } => seq![2u8] + encode_ratio(nom, denom),
        BodyPart::AtLeastProportion { nom, denom } => seq![3u8] + encode_ratio(nom, denom),
        BodyPart::MoreThanProportion { nom, denom } => seq![4u8] + encode_ratio(nom, denom),
    }
}

/// The body part at `at`, and the position behind it.
pub open spec fn decode_body_part(s: Seq<u8>, at: int) -> Option<(BodyPart, int)> {
    if at < 0 || at >= s.len() {
        None
    } else if s[at] == 0 {
        Some((BodyPart::Voice, at + 1))
    } else if s[at] == 1 {
        match decode_compact_u32(s, at + 1) {
            Some((count, p)) => Some((BodyPart::Members { count }, p)),
            None => None,
        }
    } else if s[at] == 2 {
        match decode_ratio(s, at + 1) {
            Some(((nom, denom), p)) => Some((BodyPart::Fraction { nom, denom }, p)),
            None => None,
        }
    } else if s[at] == 3 {
        match decode_ratio(s, at + 1) {
            Some(((nom, denom), p)) => Some((BodyPart::AtLeastProportion { nom, denom }, p)),
            None => None,
        }
    } else if s[at] == 4 {
        match decode_ratio(s, at + 1) {
            Some(((nom, denom), p)) => Some((BodyPart::MoreThanProportion { nom, denom }, p)),
            None => None,
        }
    } else {
        None
    }
}

/// The wire form of a junction: a tag, then its fields in order.
pub open spec fn encode_junction(v: JunctionView) -> Seq<u8> {
    match v {
        JunctionView::Parachain(id) => seq![0u8] + encode_compact(id as nat),
        JunctionView::AccountId32 { network, id } => seq![1u8] + (encode_network(network) + id),
        JunctionView::AccountIndex64 { network, index } => seq![2u8] + (encode_network(network)
            + encode_compact(index as nat)),
        JunctionView::AccountKey20 { network, key } => seq![3u8] + (encode_network(network) + key),
        JunctionView::PalletInstance(index) => seq![4u8] + seq![index],
        JunctionView::GeneralIndex(index) => seq![5u8] + encode_compact(index as nat),
        JunctionView::GeneralKey(key) => seq![6u8] + encode_bytes(key),
        JunctionView::OnlyChild => seq![7u8],
        JunctionView::Plurality { id, part } => seq![8u8] + (encode_body_id(id) + encode_body_part(
            part,
        )),
    }
}

/// The junction at `at`, and the position behind it.
pub open spec fn decode_junction(s: Seq<u8>, at: int) -> Option<(JunctionView, int)> {
    if at < 0 || at >= s.len() {
        None
    } else if s[at] == 0 {
        match decode_compact_u32(s, at + 1) {
            Some((id, p)) => Some((JunctionView::Parachain(id), p)),
            None => None,
        }
    } else if s[at] == 1 {
        match decode_network(s, at + 1) {
            Some((network, p)) => match decode_fixed(s, p, 32) {
                Some((id, q)) => Some((JunctionView::AccountId32 { network, id }, q)),
                None => None,
            },
            None => None,
        }
    } else if s[at] == 2 {
        match decode_network(s, at + 1) {
            Some((network, p)) => match decode_compact_u64(s, p) {
                Some((index, q)) => Some((JunctionView::AccountIndex64 { network, index }, q)),
                None => None,
            },
            None => None,
        }
    } else if s[at] == 3 {
        match decode_network(s, at + 1) {
            Some((network, p)) => match decode_fixed(s, p, 20) {
                Some((key, q)) => Some((JunctionView::AccountKey20 { network, key }, q)),
                None => None,
            },
            None => None,
        }
    } else if s[at] == 4 {
        if at + 1 < s.len() {
            Some((JunctionView::PalletInstance(s[at + 1]), at + 2))
        } else {
            None
        }
    } else if s[at] == 5 {
        match decode_compact_u128(s, at + 1) {
            Some((index, p)) => Some((JunctionView::GeneralIndex(index), p)),
            None => None,
        }
    } else if s[at] == 6 {
        match decode_bytes(s, at + 1) {
            Some((key, p)) => Some((JunctionView::GeneralKey(key), p)),
            None => None,
        }
    } else if s[at] == 7 {
        Some((JunctionView::OnlyChild, at + 1))
    } else if s[at] == 8 {
        match decode_body_id(s, at + 1) {
            Some((id, p)) => match decode_body_part(s, p) {
                Some((part, q)) => Some((JunctionView::Plurality { id, part }, q)),
                None => None,
            },
            None => None,
        }
    } else {
        None
    }
}

/// Decoding an encoded network gives it back.
pub proof fn lemma_network_roundtrip(s: Seq<u8>, at: int, v: NetworkIdView)
    requires
        v.wf(),
        holds_at(s, at, encode_network(v)),
    ensures
        decode_network(s, at) == Some((v, at + encode_network(v).len())),
{
    match v {
        NetworkIdView::Named(name) => {
            lemma_holds_at_tag(s, at, 1u8, encode_bytes(name));
            lemma_bytes_roundtrip(s, at + 1, name);
        },
        _ => {
            assert(s[at] == s.subrange(at, at + 1)[0]);
        },
    }
}

/// Decoding an encoded body identifier gives it back.
pub proof fn lemma_body_id_roundtrip(s: Seq<u8>, at: int, v: BodyIdView)
    requires
        v.wf(),
        holds_at(s, at, encode_body_id(v)),
    ensures
        decode_body_id(s, at) == Some((v, at + encode_body_id(v).len())),
{
    match v {
        BodyIdView::Named(name) => {
            lemma_holds_at_tag(s, at, 1u8, encode_bytes(name));
            lemma_bytes_roundtrip(s, at + 1, name);
        },
        BodyIdView::Index(index) => {
            lemma_holds_at_tag(s, at, 2u8, encode_compact(index as nat));
            lemma_compact_u32_roundtrip(s, at + 1, index);
        },
        _ => {
            assert(s[at] == s.subrange(at, at + 1)[0]);
        },
    }
}

/// Decoding two encoded compact integers gives them back.
pub proof fn lemma_ratio_roundtrip(s: Seq<u8>, at: int, nom: u32, denom: u32)
    requires
        holds_at(s, at, encode_ratio(nom, denom)),
    ensures
        decode_ratio(s, at) == Some(((nom, denom), at + encode_ratio(nom, denom).len())),
{
    lemma_holds_at_split(s, at, encode_compact(nom as nat), encode_compact(denom as nat));
    lemma_compact_u32_roundtrip(s, at, nom);
    lemma_compact_u32_roundtrip(s, at + encode_compact(nom as nat).len(), denom);
}

/// Decoding an encoded body part gives it back.
pub proof fn lemma_body_part_roundtrip(s: Seq<u8>, at: int, v: BodyPart)
    requires
        holds_at(s, at, encode_body_part(v)),
    ensures
        decode_body_part(s, at) == Some((v, at + encode_body_part(v).len())),
{
    match v {
        BodyPart::Voice => {
            assert(s[at] == s.subrange(at, at + 1)[0]);
        },
        BodyPart::Members { count } => {
            lemma_holds_at_tag(s, at, 1u8, encode_compact(count as nat));
            lemma_compact_u32_roundtrip(s, at + 1, count);
        },
        BodyPart::Fraction { nom, denom } => {
            lemma_holds_at_tag(s, at, 2u8, encode_ratio(nom, denom));
            lemma_ratio_roundtrip(s, at + 1, nom, denom);
        },
        BodyPart::AtLeastProportion { nom, denom } => {
            lemma_holds_at_tag(s, at, 3u8, encode_ratio(nom, denom));
            lemma_ratio_roundtrip(s, at + 1, nom, denom);
        },
        BodyPart::MoreThanProportion { nom, denom } => {
            lemma_holds_at_tag(s, at, 4u8, encode_ratio(nom, denom));
            lemma_ratio_roundtrip(s, at + 1, nom, denom);
        },
    }
}

/// Decoding an encoded junction that names an account gives it back.
proof fn lemma_account_roundtrip(s: Seq<u8>, at: int, v: JunctionView)
    requires
        v.wf(),
        v is AccountId32 || v is AccountIndex64 || v is AccountKey20,
        holds_at(s, at, encode_junction(v)),
    ensures
        decode_junction(s, at) == Some((v, at + encode_junction(v).len())),
{
    match v {
        JunctionView::AccountId32 { network, id } => {
            lemma_holds_at_tag(s, at, 1u8, encode_network(network) + id);
            lemma_holds_at_split(s, at + 1, encode_network(network), id);
            lemma_network_roundtrip(s, at + 1, network);
            lemma_fixed_roundtrip(s, at + 1 + encode_network(network).len(), id);
        },
        JunctionView::AccountIndex64 { network, index } => {
            lemma_holds_at_tag(s, at, 2u8, encode_network(network) + encode_compact(index as nat));
            lemma_holds_at_split(
                s,
                at + 1,
                encode_network(network),
                encode_compact(index as nat),
            );
            lemma_network_roundtrip(s, at + 1, network);
            lemma_compact_u64_roundtrip(s, at + 1 + encode_network(network).len(), index);
        },
        JunctionView::AccountKey20 { network, key } => {
            lemma_holds_at_tag(s, at, 3u8, encode_network(network) + key);
            lemma_holds_at_split(s, at + 1, encode_network(network), key);
            lemma_network_roundtrip(s, at + 1, network);
            lemma_fixed_roundtrip(s, at + 1 + encode_network(network).len(), key);
        },
        _ => {},
    }
}

/// Decoding an encoded junction that names a body gives it back.
proof fn lemma_plurality_roundtrip(s: Seq<u8>, at: int, id: BodyIdView, part: BodyPart)
    requires
        id.wf(),
        holds_at(s, at, encode_junction(JunctionView::Plurality { id, part })),
    ensures
        decode_junction(s, at) == Some(
            (
                JunctionView::Plurality { id, part },
                at + encode_junction(JunctionView::Plurality { id, part }).len(),
            ),
        ),
{
    lemma_holds_at_tag(s, at, 8u8, encode_body_id(id) + encode_body_part(part));
    lemma_holds_at_split(s, at + 1, encode_body_id(id), encode_body_part(part));
    lemma_body_id_roundtrip(s, at + 1, id);
    lemma_body_part_roundtrip(s, at + 1 + encode_body_id(id).len(), part);
}

/// Decoding an encoded junction gives it back.
pub proof fn lemma_junction_roundtrip(s: Seq<u8>, at: int, v: JunctionView)
    requires
        v.wf(),
        holds_at(s, at, encode_junction(v)),
    ensures
        decode_junction(s, at) == Some((v, at + encode_junction(v).len())),
{
    match v {
        JunctionView::Parachain(id) => {
            lemma_holds_at_tag(s, at, 0u8, encode_compact(id as nat));
            lemma_compact_u32_roundtrip(s, at + 1, id);
        },
        JunctionView::AccountId32 { .. } => {
            lemma_account_roundtrip(s, at, v);
        },
        JunctionView::AccountIndex64 { .. } => {
            lemma_account_roundtrip(s, at, v);
        },
        JunctionView::AccountKey20 { .. } => {
            lemma_account_roundtrip(s, at, v);
        },
        JunctionView::PalletInstance(index) => {
            lemma_holds_at_tag(s, at, 4u8, seq![index]);
            assert(s[at + 1] == s.subrange(at + 1, at + 2)[0]);
        },
        JunctionView::GeneralIndex(index) => {
            lemma_holds_at_tag(s, at, 5u8, encode_compact(index as nat));
            lemma_compact_u128_roundtrip(s, at + 1, index);
        },
        JunctionView::GeneralKey(key) => {
            lemma_holds_at_tag(s, at, 6u8, encode_bytes(key));
            lemma_bytes_roundtrip(s, at + 1, key);
        },
        JunctionView::OnlyChild => {
            assert(s[at] == s.subrange(at, at + 1)[0]);
        },
        JunctionView::Plurality { id, part } => {
            lemma_plurality_roundtrip(s, at, id, part);
        },
    }
}

/// A decoded junction is well formed and ends inside the input, behind its start.
pub proof fn lemma_decode_junction_bounds(s: Seq<u8>, at: int)
    requires
        decode_junction(s, at) is Some,
    ensures
        decode_junction(s, at).unwrap().0.wf(),
        at < decode_junction(s, at).unwrap().1 <= s.len(),
{
    lemma_pow256_values();
    let tag = s[at];
    if tag == 0 {
        lemma_decode_compact_bounds(s, at + 1, 4);
    } else if tag == 1 || tag == 2 || tag == 3 {
        lemma_decode_network_bounds(s, at + 1);
        let p = decode_network(s, at + 1).unwrap().1;
        if tag == 2 {
            lemma_decode_compact_bounds(s, p, 8);
        }
    } else if tag == 5 {
        lemma_decode_compact_bounds(s, at + 1, 16);
    } else if tag == 6 {
        lemma_decode_bytes_bounds(s, at + 1);
    } else if tag == 8 {
        lemma_decode_body_id_bounds(s, at + 1);
        let p = decode_body_id(s, at + 1).unwrap().1;
        lemma_decode_body_part_bounds(s, p);
    }
}

/// A decoded network is well formed and ends inside the input, behind its start.
pub proof fn lemma_decode_network_bounds(s: Seq<u8>, at: int)
    requires
        decode_network(s, at) is Some,
    ensures
        decode_network(s, at).unwrap().0.wf(),
        at < decode_network(s, at).unwrap().1 <= s.len(),
{
    if s[at] == 1 {
        lemma_decode_bytes_bounds(s, at + 1);
    }
}

/// A decoded body identifier is well formed and ends inside the input, behind its start.
pub proof fn lemma_decode_body_id_bounds(s: Seq<u8>, at: int)
    requires
        decode_body_id(s, at) is Some,
    ensures
        decode_body_id(s, at).unwrap().0.wf(),
        at < decode_body_id(s, at).unwrap().1 <= s.len(),
{
    if s[at] == 1 {
        lemma_decode_bytes_bounds(s, at + 1);
    } else if s[at] == 2 {
        lemma_decode_compact_bounds(s, at + 1, 4);
    }
}

/// A decoded body part ends inside the input, behind its start.
pub proof fn lemma_decode_body_part_bounds(s: Seq<u8>, at: int)
    requires
        decode_body_part(s, at) is Some,
    ensures
        at < decode_body_part(s, at).unwrap().1 <= s.len(),
{
    let tag = s[at];
    if tag == 1 {
        lemma_decode_compact_bounds(s, at + 1, 4);
    } else if tag == 2 || tag == 3 || tag == 4 {
        lemma_decode_compact_bounds(s, at + 1, 4);
        let p = decode_compact(s, at + 1, 4).unwrap().1;
        lemma_decode_compact_bounds(s, p, 4);
    }
}

/// What decodes as a network is the wire form of that network.
pub proof fn lemma_network_canonical(s: Seq<u8>, at: int)
    requires
        decode_network(s, at) is Some,
    ensures
        s.subrange(at, decode_network(s, at).unwrap().1) == encode_network(
            decode_network(s, at).unwrap().0,
        ),
{
    let next = decode_network(s, at).unwrap().1;
    lemma_decode_network_bounds(s, at);
    lemma_subrange_join(s, at, at + 1, next);
    assert(s.subrange(at, at + 1) =~= seq![s[at]]);
    if s[at] == 1 {
        lemma_bytes_canonical(s, at + 1);
    } else {
        assert(s.subrange(at + 1, at + 1) =~= Seq::<u8>::empty());
        assert(seq![s[at]] + Seq::<u8>::empty() =~= seq![s[at]]);
    }
}

/// What decodes as a body identifier is the wire form of that identifier.
pub proof fn lemma_body_id_canonical(s: Seq<u8>, at: int)
    requires
        decode_body_id(s, at) is Some,
    ensures
        s.subrange(at, decode_body_id(s, at).unwrap().1) == encode_body_id(
            decode_body_id(s, at).unwrap().0,
        ),
{
    let next = decode_body_id(s, at).unwrap().1;
    lemma_decode_body_id_bounds(s, at);
    lemma_subrange_join(s, at, at + 1, next);
    assert(s.subrange(at, at + 1) =~= seq![s[at]]);
    if s[at] == 1 {
        lemma_bytes_canonical(s, at + 1);
    } else if s[at] == 2 {
        lemma_compact_u32_canonical(s, at + 1);
    } else {
        assert(s.subrange(at + 1, at + 1) =~= Seq::<u8>::empty());
        assert(seq![s[at]] + Seq::<u8>::empty() =~= seq![s[at]]);
    }
}

/// What decodes as two compact integers is the wire form of the two.
pub proof fn lemma_ratio_canonical(s: Seq<u8>, at: int)
    requires
        decode_ratio(s, at) is Some,
    ensures
        decode_ratio(s, at) matches Some(((nom, denom), next)) && s.subrange(at, next)
            == encode_ratio(nom, denom),
{
    lemma_decode_compact_bounds(s, at, 4);
    let p = decode_compact_u32(s, at).unwrap().1;
    lemma_decode_compact_bounds(s, p, 4);
    let next = decode_compact_u32(s, p).unwrap().1;
    lemma_compact_u32_canonical(s, at);
    lemma_compact_u32_canonical(s, p);
    lemma_subrange_join(s, at, p, next);
}

/// What decodes as a body part is the wire form of that part.
pub proof fn lemma_body_part_canonical(s: Seq<u8>, at: int)
    requires
        decode_body_part(s, at) is Some,
    ensures
        s.subrange(at, decode_body_part(s, at).unwrap().1) == encode_body_part(
            decode_body_part(s, at).unwrap().0,
        ),
{
    let next = decode_body_part(s, at).unwrap().1;
    lemma_decode_body_part_bounds(s, at);
    lemma_subrange_join(s, at, at + 1, next);
    assert(s.subrange(at, at + 1) =~= seq![s[at]]);
    if s[at] == 0 {
        assert(s.subrange(at + 1, at + 1) =~= Seq::<u8>::empty());
        assert(seq![s[at]] + Seq::<u8>::empty() =~= seq![s[at]]);
    } else if s[at] == 1 {
        lemma_compact_u32_canonical(s, at + 1);
    } else {
        lemma_ratio_canonical(s, at + 1);
    }
}

/// What decodes as a junction that names an account is its wire form.
proof fn lemma_account_canonical(s: Seq<u8>, at: int)
    requires
        decode_junction(s, at) is Some,
        0 <= at < s.len(),
        s[at] == 1 || s[at] == 2 || s[at] == 3,
    ensures
        s.subrange(at, decode_junction(s, at).unwrap().1) == encode_junction(
            decode_junction(s, at).unwrap().0,
        ),
{
    let next = decode_junction(s, at).unwrap().1;
    lemma_decode_junction_bounds(s, at);
    lemma_decode_network_bounds(s, at + 1);
    let p = decode_network(s, at + 1).unwrap().1;
    lemma_network_canonical(s, at + 1);
    if s[at] == 2 {
        lemma_compact_u64_canonical(s, p);
    }
    lemma_subrange_join(s, at, at + 1, next);
    lemma_subrange_join(s, at + 1, p, next);
    assert(s.subrange(at, at + 1) =~= seq![s[at]]);
}

/// What decodes as a junction is the wire form of that junction.
pub proof fn lemma_junction_canonical(s: Seq<u8>, at: int)
    requires
        decode_junction(s, at) is Some,
    ensures
        s.subrange(at, decode_junction(s, at).unwrap().1) == encode_junction(
            decode_junction(s, at).unwrap().0,
        ),
{
    let next = decode_junction(s, at).unwrap().1;
    lemma_decode_junction_bounds(s, at);
    let tag = s[at];
    if tag == 1 || tag == 2 || tag == 3 {
        lemma_account_canonical(s, at);
    } else {
        lemma_subrange_join(s, at, at + 1, next);
        assert(s.subrange(at, at + 1) =~= seq![s[at]]);
        if tag == 0 {
            lemma_compact_u32_canonical(s, at + 1);
        } else if tag == 4 {
            assert(s.subrange(at + 1, at + 2) =~= seq![s[at + 1]]);
        } else if tag == 5 {
            lemma_compact_u128_canonical(s, at + 1);
        } else if tag == 6 {
            lemma_bytes_canonical(s, at + 1);
        } else if tag == 7 {
            assert(s.subrange(at + 1, at + 1) =~= Seq::<u8>::empty());
            assert(seq![s[at]] + Seq::<u8>::empty() =~= seq![s[at]]);
        } else {
            lemma_decode_body_id_bounds(s, at + 1);
            let p = decode_body_id(s, at + 1).unwrap().1;
            lemma_body_id_canonical(s, at + 1);
            lemma_body_part_canonical(s, p);
            lemma_subrange_join(s, at + 1, p, next);
        }
    }
}

impl NetworkId {
    /// What [`NetworkIdView::wf`] says of the value.
    pub open spec fn wf(&self) -> bool {
        self@.wf()
    }

    /// Appends the wire form.
    pub fn write(&self, out: &mut Vec<u8>)
        ensures
            final(out)@ == old(out)@ + encode_network(self@),
    {
        let ghost before = out@;
        match self {
            NetworkId::Any => out.push(0),
            NetworkId::Named(name) => {
                out.push(1);
                write_bytes(out, name.as_slice());
                proof {
                    assert(out@ =~= before + (seq![1u8] + encode_bytes(name@)));
                }
            },
            NetworkId::Polkadot => out.push(2),
            NetworkId::Kusama => out.push(3),
        }
        proof {
            assert(out@ =~= before + encode_network(self@));
        }
    }

    /// Reads a network at `at`.
    pub fn read(input: &[u8], at: usize) -> (r: Option<(NetworkId, usize)>)
        ensures
            match r {
                Some((v, next)) => decode_network(input@, at as int) == Some((v@, next as int)),
                None => decode_network(input@, at as int) is None,
            },
    {
        if at >= input.len() {
            return None;
        }
        let tag = input[at];
        if tag == 0 {
            Some((NetworkId::Any, at + 1))
        } else if tag == 1 {
            match read_bytes(input, at + 1) {
                Some((name, next)) => Some((NetworkId::Named(name), next)),
                None => None,
            }
        } else if tag == 2 {
            Some((NetworkId::Polkadot, at + 1))
        } else if tag == 3 {
            Some((NetworkId::Kusama, at + 1))
        } else {
            None
        }
    }
}

impl BodyId {
    /// What [`BodyIdView::wf`] says of the value.
    pub open spec fn wf(&self) -> bool {
        self@.wf()
    }

    /// Appends the wire form.
    pub fn write(&self, out: &mut Vec<u8>)
        ensures
            final(out)@ == old(out)@ + encode_body_id(self@),
    {
        let ghost before = out@;
        match self {
            BodyId::Unit => out.push(0),
            BodyId::Named(name) => {
                out.push(1);
                write_bytes(out, name.as_slice());
                proof {
                    assert(out@ =~= before + (seq![1u8] + encode_bytes(name@)));
                }
            },
            BodyId::Index(index) => {
                out.push(2);
                write_compact(out, *index as u128);
                proof {
                    assert(out@ =~= before + (seq![2u8] + encode_compact(*index as nat)));
                }
            },
            BodyId::Executive => out.push(3),
            BodyId::Technical => out.push(4),
            BodyId::Legislative => out.push(5),
            BodyId::Judicial => out.push(6),
            BodyId::Defense => out.push(7),
            BodyId::Administration => out.push(8),
            BodyId::Treasury => out.push(9),
        }
        proof {
            assert(out@ =~= before + encode_body_id(self@));
        }
    }

    /// Reads a body identifier at `at`.
    pub fn read(input: &[u8], at: usize) -> (r: Option<(BodyId, usize)>)
        ensures
            match r {
                Some((v, next)) => decode_body_id(input@, at as int) == Some((v@, next as int)),
                None => decode_body_id(input@, at as int) is None,
            },
    {
        if at >= input.len() {
            return None;
        }
        let tag = input[at];
        if tag == 0 {
            Some((BodyId::Unit, at + 1))
        } else if tag == 1 {
            match read_bytes(input, at + 1) {
                Some((name, next)) => Some((BodyId::Named(name), next)),
                None => None,
            }
        } else if tag == 2 {
            match read_compact_u32(input, at + 1) {
                Some((index, next)) => Some((BodyId::Index(index), next)),
                None => None,
            }
        } else if tag == 3 {
            Some((BodyId::Executive, at + 1))
        } else if tag == 4 {
            Some((BodyId::Technical, at + 1))
        } else if tag == 5 {
            Some((BodyId::Legislative, at + 1))
        } else if tag == 6 {
            Some((BodyId::Judicial, at + 1))
        } else if tag == 7 {
            Some((BodyId::Defense, at + 1))
        } else if tag == 8 {
            Some((BodyId::Administration, at + 1))
        } else if tag == 9 {
            Some((BodyId::Treasury, at + 1))
        } else {
            None
        }
    }
}

/// Appends two compact 32-bit integers.
fn write_ratio(out: &mut Vec<u8>, nom: u32, denom: u32)
    ensures
        final(out)@ == old(out)@ + encode_ratio(nom, denom),
{
    let ghost before = out@;
    write_compact(out, nom as u128);
    write_compact(out, denom as u128);
    proof {
        assert(out@ =~= before + encode_ratio(nom, denom));
    }
}

/// Reads two compact 32-bit integers at `at`.
fn read_ratio(input: &[u8], at: usize) -> (r: Option<((u32, u32), usize)>)
    ensures
        match r {
            Some((v, next)) => decode_ratio(input@, at as int) == Some((v, next as int)),
            None => decode_ratio(input@, at as int) is None,
        },
{
    match read_compact_u32(input, at) {
        Some((nom, p)) => match read_compact_u32(input, p) {
            Some((denom, q)) => Some(((nom, denom), q)),
            None => None,
        },
        None => None,
    }
}

impl BodyPart {
    /// Appends the wire form.
    pub fn write(&self, out: &mut Vec<u8>)
        ensures
            final(out)@ == old(out)@ + encode_body_part(*self),
    {
        let ghost before = out@;
        match *self {
            BodyPart::Voice => out.push(0),
            BodyPart::Members { count } => {
                out.push(1);
                write_compact(out, count as u128);
                proof {
                    assert(out@ =~= before + (seq![1u8] + encode_compact(count as nat)));
                }
            },
            BodyPart::Fraction { nom, denom } => {
                out.push(2);
                write_ratio(out, nom, denom);
                proof {
                    assert(out@ =~= before + (seq![2u8] + encode_ratio(nom, denom)));
                }
            },
            BodyPart::AtLeastProportion { nom, denom } => {
                out.push(3);
                write_ratio(out, nom, denom);
                proof {
                    assert(out@ =~= before + (seq![3u8] + encode_ratio(nom, denom)));
                }
            },
            BodyPart::MoreThanProportion { nom, denom } => {
                out.push(4);
                write_ratio(out, nom, denom);
                proof {
                    assert(out@ =~= before + (seq![4u8] + encode_ratio(nom, denom)));
                }
            },
        }
        proof {
            assert(out@ =~= before + encode_body_part(*self));
        }
    }

    /// Reads a body part at `at`.
    pub fn read(input: &[u8], at: usize) -> (r: Option<(BodyPart, usize)>)
        ensures
            match r {
                Some((v, next)) => decode_body_part(input@, at as int) == Some((v, next as int)),
                None => decode_body_part(input@, at as int) is None,
            },
    {
        if at >= input.len() {
            return None;
        }
        let tag = input[at];
        if tag == 0 {
            Some((BodyPart::Voice, at + 1))
        } else if tag == 1 {
            match read_compact_u32(input, at + 1) {
                Some((count, next)) => Some((BodyPart::Members { count }, next)),
                None => None,
            }
        } else if tag == 2 {
            match read_ratio(input, at + 1) {
                Some(((nom, denom), next)) => Some((BodyPart::Fraction { nom, denom }, next)),
                None => None,
            }
        } else if tag == 3 {
            match read_ratio(input, at + 1) {
                Some(((nom, denom), next)) => Some(
                    (BodyPart::AtLeastProportion { nom, denom }, next),
                ),
                None => None,
            }
        } else if tag == 4 {
            match read_ratio(input, at + 1) {
                Some(((nom, denom), next)) => Some(
                    (BodyPart::MoreThanProportion { nom, denom }, next),
                ),
                None => None,
            }
        } else {
            None
        }
    }
}

impl Junction {
    /// What [`JunctionView::wf`] says of the value.
    pub open spec fn wf(&self) -> bool {
        self@.wf()
    }

    /// Appends the wire form.
    pub fn write(&self, out: &mut Vec<u8>)
        ensures
            final(out)@ == old(out)@ + encode_junction(self@),
    {
        let ghost before = out@;
        match self {
            Junction::Parachain(id) => {
                out.push(0);
                write_compact(out, *id as u128);
                proof {
                    assert(out@ =~= before + (seq![0u8] + encode_compact(*id as nat)));
                }
            },
            Junction::AccountId32 { network, id } => {
                out.push(1);
                network.write(out);
                write_raw(out, id.as_slice());
                proof {
                    assert(out@ =~= before + (seq![1u8] + (encode_network(network@) + id@)));
                }
            },
            Junction::AccountIndex64 { network, index } => {
                out.push(2);
                network.write(out);
                write_compact(out, *index as u128);
                proof {
                    assert(out@ =~= before + (seq![2u8] + (encode_network(network@)
                        + encode_compact(*index as nat))));
                }
            },
            Junction::AccountKey20 { network, key } => {
                out.push(3);
                network.write(out);
                write_raw(out, key.as_slice());
                proof {
                    assert(out@ =~= before + (seq![3u8] + (encode_network(network@) + key@)));
                }
            },
            Junction::PalletInstance(index) => {
                out.push(4);
                out.push(*index);
                proof {
                    assert(out@ =~= before + (seq![4u8] + seq![*index]));
                }
            },
            Junction::GeneralIndex(index) => {
                out.push(5);
                write_compact(out, *index);
                proof {
                    assert(out@ =~= before + (seq![5u8] + encode_compact(*index as nat)));
                }
            },
            Junction::GeneralKey(key) => {
                out.push(6);
                write_bytes(out, key.as_slice());
                proof {
                    assert(out@ =~= before + (seq![6u8] + encode_bytes(key@)));
                }
            },
            Junction::OnlyChild => {
                out.push(7);
                proof {
                    assert(out@ =~= before + seq![7u8]);
                }
            },
            Junction::Plurality { id, part } => {
                out.push(8);
                id.write(out);
                part.write(out);
                proof {
                    assert(out@ =~= before + (seq![8u8] + (encode_body_id(id@) + encode_body_part(
                        *part,
                    ))));
                }
            },
        }
    }

    /// Reads a junction at `at`.
    pub fn read(input: &[u8], at: usize) -> (r: Option<(Junction, usize)>)
        ensures
            match r {
                Some((v, next)) => decode_junction(input@, at as int) == Some((v@, next as int)),
                None => decode_junction(input@, at as int) is None,
            },
    {
        if at >= input.len() {
            return None;
        }
        let tag = input[at];
        if tag == 0 {
            match read_compact_u32(input, at + 1) {
                Some((id, next)) => Some((Junction::Parachain(id), next)),
                None => None,
            }
        } else if tag == 1 {
            match NetworkId::read(input, at + 1) {
                Some((network, p)) => match read_array::<32>(input, p) {
                    Some((id, next)) => Some((Junction::AccountId32 { network, id }, next)),
                    None => None,
                },
                None => None,
            }
        } else if tag == 2 {
            match NetworkId::read(input, at + 1) {
                Some((network, p)) => match read_compact_u64(input, p) {
                    Some((index, next)) => Some(
                        (Junction::AccountIndex64 { network, index }, next),
                    ),
                    None => None,
                },
                None => None,
            }
        } else if tag == 3 {
            match NetworkId::read(input, at + 1) {
                Some((network, p)) => match read_array::<20>(input, p) {
                    Some((key, next)) => Some((Junction::AccountKey20 { network, key }, next)),
                    None => None,
                },
                None => None,
            }
        } else if tag == 4 {
            if at + 1 < input.len() {
                Some((Junction::PalletInstance(input[at + 1]), at + 2))
            } else {
                None
            }
        } else if tag == 5 {
            match read_compact_u128(input, at + 1) {
                Some((index, next)) => Some((Junction::GeneralIndex(index), next)),
                None => None,
            }
        } else if tag == 6 {
            match read_bytes(input, at + 1) {
                Some((key, next)) => Some((Junction::GeneralKey(key), next)),
                None => None,
            }
        } else if tag == 7 {
            Some((Junction::OnlyChild, at + 1))
        } else if tag == 8 {
            match BodyId::read(input, at + 1) {
                Some((id, p)) => match BodyPart::read(input, p) {
                    Some((part, next)) => Some((Junction::Plurality { id, part }, next)),
                    None => None,
                },
                None => None,
            }
        } else {
            None
        }
    }
}

} // verus!
