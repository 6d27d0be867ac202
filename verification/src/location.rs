//! A place in the network of chains, told as a path from where one stands:
//! a number of steps up, then junctions down. Its wire format, with the
//! version tag that goes before it, and the split that parts a chain from an
//! account on it.

use crate::error::Error;
use crate::junction::{
    decode_junction, encode_junction, lemma_decode_junction_bounds, lemma_junction_canonical,
    lemma_junction_roundtrip, Junction, JunctionView, NetworkId, NetworkIdView,
};
use crate::scale::{
    holds_at, lemma_holds_at_split, lemma_holds_at_tag, lemma_holds_at_whole,
    lemma_subrange_join,
};
use vstd::prelude::*;

verus! {

/// The greatest number of junctions that a location holds.
pub const MAX_JUNCTIONS: usize = 8;

/// The version tag of the location and asset formats that are understood.
pub const LOCATION_VERSION: u8 = 1;

/// A relative path: `parents` steps up, then the junctions of `interior`
/// down, of which there are at most eight.
#[derive(Debug, PartialEq, Eq)]
pub struct Location {
    pub(crate) parents: u8,
    pub(crate) interior: Vec<Junction>,
}

/// The mathematical value of a [`Location`].
pub struct LocationView {
    pub parents: u8,
    pub interior: Seq<JunctionView>,
}

/// A location under its version tag.
#[derive(Debug, PartialEq, Eq)]
pub enum VersionedLocation {
    V1(Location),
}

/// The values of a sequence of junctions.
pub open spec fn junction_views(v: Seq<Junction>) -> Seq<JunctionView> {
    v.map_values(|j: Junction| j@)
}

impl LocationView {
    /// At most eight junctions, each well formed.
    pub open spec fn wf(self) -> bool {
        &&& self.interior.len() <= MAX_JUNCTIONS
        &&& forall|i: int| 0 <= i < self.interior.len() ==> (#[trigger] self.interior[i]).wf()
    }

    /// The location without its last junction, and that junction; the
    /// location itself and nothing where it has no junction.
    pub open spec fn split_last(self) -> (LocationView, Option<JunctionView>) {
        if self.interior.len() == 0 {
            (self, None)
        } else {
            (
                LocationView { parents: self.parents, interior: self.interior.drop_last() },
                Some(self.interior.last()),
            )
        }
    }
}

impl View for Location {
    type V = LocationView;

    closed spec fn view(&self) -> LocationView {
        LocationView { parents: self.parents, interior: junction_views(self.interior@) }
    }
}

impl View for VersionedLocation {
    type V = LocationView;

    open spec fn view(&self) -> LocationView {
        match self {
            VersionedLocation::V1(location) => location@,
        }
    }
}

/// The account `id` of any network, seen from the chain that it is on.
pub open spec fn account_location(id: Seq<u8>) -> LocationView {
    LocationView {
        parents: 0,
        interior: seq![JunctionView::AccountId32 { network: NetworkIdView::Any, id }],
    }
}

/// The wire forms of the junctions, one behind the other.
pub open spec fn encode_junctions(js: Seq<JunctionView>) -> Seq<u8>
    decreases js.len(),
{
    if js.len() == 0 {
        Seq::empty()
    } else {
        encode_junctions(js.drop_last()) + encode_junction(js.last())
    }
}

/// `n` junctions from `at` on, and the position behind them.
pub open spec fn decode_junctions(s: Seq<u8>, at: int, n: nat) -> Option<(Seq<JunctionView>, int)>
    decreases n,
{
    if n == 0 {
        Some((Seq::empty(), at))
    } else {
        match decode_junction(s, at) {
            Some((first, p)) => match decode_junctions(s, p, (n - 1) as nat) {
                Some((rest, q)) => Some((seq![first] + rest, q)),
                None => None,
            },
            None => None,
        }
    }
}

/// The wire form of a location: the parents, the number of junctions, the junctions.
pub open spec fn encode_location(v: LocationView) -> Seq<u8> {
    seq![v.parents] + (seq![v.interior.len() as u8] + encode_junctions(v.interior))
}

/// The location at `at`, and the position behind it.
pub open spec fn decode_location(s: Seq<u8>, at: int) -> Option<(LocationView, int)> {
    if at < 0 || at + 1 >= s.len() || s[at + 1] > MAX_JUNCTIONS {
        None
    } else {
        match decode_junctions(s, at + 2, s[at + 1] as nat) {
            Some((interior, p)) => Some((LocationView { parents: s[at], interior }, p)),
            None => None,
        }
    }
}

/// The wire form of a location with its version tag before it.
pub open spec fn encode_versioned_location(v: LocationView) -> Seq<u8> {
    seq![LOCATION_VERSION] + encode_location(v)
}

/// The versioned location at `at`: a version that is not understood is told
/// apart from a malformed body.
pub open spec fn decode_versioned_location(s: Seq<u8>, at: int) -> Result<
    (LocationView, int),
    Error,
> {
    if at < 0 || at >= s.len() {
        Err(Error::DecodeError)
    } else if s[at] != LOCATION_VERSION {
        Err(Error::UnsupportedVersion)
    } else {
        match decode_location(s, at + 1) {
            Some(found) => Ok(found),
            None => Err(Error::DecodeError),
        }
    }
}

/// The junctions' wire form starts with that of the first.
pub proof fn lemma_encode_junctions_head(js: Seq<JunctionView>)
    requires
        js.len() > 0,
    ensures
        encode_junctions(js) == encode_junction(js[0]) + encode_junctions(js.drop_first()),
    decreases js.len(),
{
    if js.len() == 1 {
        assert(js.drop_last() =~= Seq::<JunctionView>::empty());
        assert(js.drop_first() =~= Seq::<JunctionView>::empty());
        assert(encode_junctions(js) =~= encode_junction(js[0]) + encode_junctions(
            js.drop_first(),
        ));
    } else {
        lemma_encode_junctions_head(js.drop_last());
        assert(js.drop_last().drop_first() =~= js.drop_first().drop_last());
        assert(js.drop_last()[0] == js[0]);
        assert(js.drop_first().last() == js.last());
        assert(encode_junctions(js) =~= encode_junction(js[0]) + encode_junctions(
            js.drop_first(),
        ));
    }
}

/// Decoding encoded junctions gives them back.
pub proof fn lemma_junctions_roundtrip(s: Seq<u8>, at: int, js: Seq<JunctionView>)
    requires
        forall|i: int| 0 <= i < js.len() ==> (#[trigger] js[i]).wf(),
        holds_at(s, at, encode_junctions(js)),
    ensures
        decode_junctions(s, at, js.len()) == Some((js, at + encode_junctions(js).len())),
    decreases js.len(),
{
    if js.len() == 0 {
        assert(js =~= Seq::<JunctionView>::empty());
    } else {
        let rest = js.drop_first();
        lemma_encode_junctions_head(js);
        lemma_holds_at_split(s, at, encode_junction(js[0]), encode_junctions(rest));
        assert(js[0].wf());
        lemma_junction_roundtrip(s, at, js[0]);
        assert forall|i: int| 0 <= i < rest.len() implies (#[trigger] rest[i]).wf() by {
            assert(rest[i] == js[i + 1]);
        }
        lemma_junctions_roundtrip(s, at + encode_junction(js[0]).len(), rest);
        assert(seq![js[0]] + rest =~= js);
    }
}

/// Decoded junctions are well formed, as many as were asked for, and end inside the input.
pub proof fn lemma_decode_junctions_bounds(s: Seq<u8>, at: int, n: nat)
    requires
        0 <= at <= s.len(),
        decode_junctions(s, at, n) is Some,
    ensures
        decode_junctions(s, at, n).unwrap().0.len() == n,
        forall|i: int|
            0 <= i < n ==> (#[trigger] decode_junctions(s, at, n).unwrap().0[i]).wf(),
        at <= decode_junctions(s, at, n).unwrap().1 <= s.len(),
    decreases n,
{
    if n > 0 {
        lemma_decode_junction_bounds(s, at);
        let (first, p) = decode_junction(s, at).unwrap();
        lemma_decode_junctions_bounds(s, p, (n - 1) as nat);
        let rest = decode_junctions(s, p, (n - 1) as nat).unwrap().0;
        let all = decode_junctions(s, at, n).unwrap().0;
        assert(all == seq![first] + rest);
        assert forall|i: int| 0 <= i < n implies (#[trigger] all[i]).wf() by {
            if i > 0 {
                assert(all[i] == rest[i - 1]);
            }
        }
    }
}

/// Decoding an encoded location gives it back.
pub proof fn lemma_location_roundtrip(s: Seq<u8>, at: int, v: LocationView)
    requires
        v.wf(),
        holds_at(s, at, encode_location(v)),
    ensures
        decode_location(s, at) == Some((v, at + encode_location(v).len())),
{
    let count = v.interior.len() as u8;
    lemma_holds_at_tag(s, at, v.parents, seq![count] + encode_junctions(v.interior));
    lemma_holds_at_tag(s, at + 1, count, encode_junctions(v.interior));
    lemma_junctions_roundtrip(s, at + 2, v.interior);
}

/// A decoded location is well formed and ends inside the input, behind its start.
pub proof fn lemma_decode_location_bounds(s: Seq<u8>, at: int)
    requires
        decode_location(s, at) is Some,
    ensures
        decode_location(s, at).unwrap().0.wf(),
        at < decode_location(s, at).unwrap().1 <= s.len(),
{
    lemma_decode_junctions_bounds(s, at + 2, s[at + 1] as nat);
}

/// What decodes as junctions is the wire form of those junctions.
pub proof fn lemma_junctions_canonical(s: Seq<u8>, at: int, n: nat)
    requires
        0 <= at <= s.len(),
        decode_junctions(s, at, n) is Some,
    ensures
        s.subrange(at, decode_junctions(s, at, n).unwrap().1) == encode_junctions(
            decode_junctions(s, at, n).unwrap().0,
        ),
    decreases n,
{
    if n == 0 {
        assert(s.subrange(at, at) =~= Seq::<u8>::empty());
    } else {
        lemma_decode_junction_bounds(s, at);
        let (first, p) = decode_junction(s, at).unwrap();
        lemma_decode_junctions_bounds(s, p, (n - 1) as nat);
        let (rest, q) = decode_junctions(s, p, (n - 1) as nat).unwrap();
        let all = seq![first] + rest;
        lemma_junction_canonical(s, at);
        lemma_junctions_canonical(s, p, (n - 1) as nat);
        lemma_encode_junctions_head(all);
        assert(all.drop_first() =~= rest);
        lemma_subrange_join(s, at, p, q);
    }
}

/// What decodes as a location is the wire form of that location: every
/// location has one wire form.
pub proof fn lemma_location_canonical(s: Seq<u8>, at: int)
    requires
        decode_location(s, at) is Some,
    ensures
        s.subrange(at, decode_location(s, at).unwrap().1) == encode_location(
            decode_location(s, at).unwrap().0,
        ),
{
    let (v, next) = decode_location(s, at).unwrap();
    lemma_decode_junctions_bounds(s, at + 2, s[at + 1] as nat);
    lemma_junctions_canonical(s, at + 2, s[at + 1] as nat);
    lemma_subrange_join(s, at, at + 1, next);
    lemma_subrange_join(s, at + 1, at + 2, next);
    assert(s.subrange(at, at + 1) =~= seq![s[at]]);
    assert(s.subrange(at + 1, at + 2) =~= seq![s[at + 1]]);
}

/// What decodes as a versioned location is the versioned wire form of that
/// location.
pub proof fn lemma_versioned_location_canonical(s: Seq<u8>, at: int)
    requires
        decode_versioned_location(s, at) is Ok,
    ensures
        s.subrange(at, decode_versioned_location(s, at).unwrap().1) == encode_versioned_location(
            decode_versioned_location(s, at).unwrap().0,
        ),
{
    let next = decode_versioned_location(s, at).unwrap().1;
    lemma_decode_location_bounds(s, at + 1);
    lemma_location_canonical(s, at + 1);
    lemma_subrange_join(s, at, at + 1, next);
    assert(s.subrange(at, at + 1) =~= seq![s[at]]);
}

/// For every well-formed location, decoding its versioned wire form gives
/// the location back and consumes exactly that form.
pub proof fn lemma_versioned_location_roundtrip(v: LocationView)
    requires
        v.wf(),
    ensures
        decode_versioned_location(encode_versioned_location(v), 0) == Ok::<
            (LocationView, int),
            Error,
        >((v, encode_versioned_location(v).len() as int)),
{
    let s = encode_versioned_location(v);
    lemma_holds_at_whole(s);
    lemma_holds_at_tag(s, 0, LOCATION_VERSION, encode_location(v));
    lemma_location_roundtrip(s, 1, v);
}

impl Location {
    #[verifier::type_invariant]
    spec fn holds_few_junctions(self) -> bool {
        self.interior@.len() <= MAX_JUNCTIONS
    }

    /// What [`LocationView::wf`] says of the value.
    pub open spec fn wf(&self) -> bool {
        self@.wf()
    }

    /// The location of `parents` steps up and the junctions of `interior`
    /// down; `None` for more than eight junctions.
    pub fn new(parents: u8, interior: Vec<Junction>) -> (r: Option<Location>)
        ensures
            r is Some <==> interior@.len() <= MAX_JUNCTIONS,
            r matches Some(location) ==> location@ == (LocationView {
                parents,
                interior: junction_views(interior@),
            }),
    {
        if interior.len() <= MAX_JUNCTIONS {
            Some(Location { parents, interior })
        } else {
            None
        }
    }

    /// The place where one stands: no step up, no junction.
    pub fn here() -> (r: Location)
        ensures
            r@ == (LocationView { parents: 0, interior: Seq::empty() }),
    {
        let r = Location { parents: 0, interior: Vec::new() };
        proof {
            assert(junction_views(r.interior@) =~= Seq::<JunctionView>::empty());
        }
        r
    }

    /// The account `id` of any network, seen from the chain that it is on.
    pub fn from_account(id: [u8; 32]) -> (r: Location)
        ensures
            r@ == account_location(id@),
            r@.wf(),
    {
        let mut interior: Vec<Junction> = Vec::new();
        interior.push(Junction::AccountId32 { network: NetworkId::Any, id });
        let r = Location { parents: 0, interior };
        proof {
            assert(junction_views(r.interior@) =~= account_location(id@).interior);
        }
        r
    }

    /// The number of steps up.
    pub fn parents(&self) -> (r: u8)
        ensures
            r == self@.parents,
    {
        self.parents
    }

    /// The junctions down, in order.
    pub fn interior(&self) -> (r: &Vec<Junction>)
        ensures
            junction_views(r@) == self@.interior,
            r@.len() <= MAX_JUNCTIONS,
    {
        proof {
            use_type_invariant(self);
        }
        &self.interior
    }

    /// Parts the location into all but its last junction, and that junction.
    /// Without a junction the location comes back whole, with nothing beside it.
    pub fn split_last(self) -> (r: (Location, Option<Junction>))
        ensures
            r.0@ == self@.split_last().0,
            match r.1 {
                Some(last) => self@.split_last().1 == Some(last@),
                None => self@.split_last().1 is None,
            },
    {
        proof {
            use_type_invariant(&self);
        }
        let Location { parents, interior } = self;
        let mut interior = interior;
        let ghost whole = interior@;
        let last = interior.pop();
        proof {
            if whole.len() > 0 {
                assert(junction_views(interior@) =~= junction_views(whole).drop_last());
            } else {
                assert(junction_views(interior@) =~= junction_views(whole));
            }
        }
        (Location { parents, interior }, last)
    }

    /// Appends the wire form.
    pub fn write(&self, out: &mut Vec<u8>)
        ensures
            final(out)@ == old(out)@ + encode_location(self@),
    {
        proof {
            use_type_invariant(self);
        }
        let ghost before = out@;
        let ghost views = junction_views(self.interior@);
        out.push(self.parents);
        out.push(self.interior.len() as u8);
        let ghost header = out@;
        let mut i: usize = 0;
        proof {
            assert(views.subrange(0, 0) =~= Seq::<JunctionView>::empty());
            assert(out@ =~= header + encode_junctions(views.subrange(0, 0)));
        }
        while i < self.interior.len()
            invariant
                i <= self.interior.len(),
                views == junction_views(self.interior@),
                out@ == header + encode_junctions(views.subrange(0, i as int)),
            decreases self.interior.len() - i,
        {
            let ghost so_far = out@;
            self.interior[i].write(out);
            proof {
                let next = views.subrange(0, i + 1);
                assert(next.drop_last() =~= views.subrange(0, i as int));
                assert(next.last() == self.interior@[i as int]@);
                assert(out@ =~= header + encode_junctions(next));
            }
            i = i + 1;
        }
        proof {
            assert(views.subrange(0, i as int) =~= views);
            assert(header =~= before + seq![self.parents] + seq![views.len() as u8]);
            assert(out@ =~= before + encode_location(self@));
        }
    }

    /// The wire form.
    pub fn encode(&self) -> (out: Vec<u8>)
        ensures
            out@ == encode_location(self@),
    {
        let mut out: Vec<u8> = Vec::new();
        self.write(&mut out);
        proof {
            assert(Seq::<u8>::empty() + encode_location(self@) =~= encode_location(self@));
        }
        out
    }

    /// Reads a location at `at`.
    pub fn read(input: &[u8], at: usize) -> (r: Option<(Location, usize)>)
        ensures
            match r {
                Some((v, next)) => decode_location(input@, at as int) == Some((v@, next as int)),
                None => decode_location(input@, at as int) is None,
            },
            r matches Some((v, next)) ==> v@.wf() && at < next <= input@.len(),
    {
        proof {
            if decode_location(input@, at as int) is Some {
                lemma_decode_location_bounds(input@, at as int);
            }
        }
        if at >= input.len() || at + 1 >= input.len() {
            return None;
        }
        let parents = input[at];
        let count = input[at + 1];
        if count as usize > MAX_JUNCTIONS {
            return None;
        }
        let mut interior: Vec<Junction> = Vec::new();
        let mut p: usize = at + 2;
        let mut i: u8 = 0;
        proof {
            assert(junction_views(interior@) =~= Seq::<JunctionView>::empty());
            match decode_junctions(input@, p as int, count as nat) {
                Some((rest, q)) => {
                    assert(junction_views(interior@) + rest =~= rest);
                },
                None => {},
            }
        }
        while i < count
            invariant
                i <= count <= MAX_JUNCTIONS,
                at + 1 < input.len(),
                count == input@[at + 1],
                interior@.len() == i,
                p <= input.len(),
                decode_junctions(input@, at + 2, count as nat) == match decode_junctions(
                    input@,
                    p as int,
                    (count - i) as nat,
                ) {
                    Some((rest, q)) => Some((junction_views(interior@) + rest, q)),
                    None => None,
                },
            decreases count - i,
        {
            let ghost done = junction_views(interior@);
            match Junction::read(input, p) {
                Some((junction, next)) => {
                    proof {
                        lemma_decode_junction_bounds(input@, p as int);
                        match decode_junctions(input@, next as int, (count - i - 1) as nat) {
                            Some((rest, q)) => {
                                assert(junction_views(interior@.push(junction)) + rest =~= done + (
                                seq![junction@] + rest));
                            },
                            None => {},
                        }
                    }
                    interior.push(junction);
                    p = next;
                },
                None => {
                    return None;
                },
            }
            i = i + 1;
        }
        proof {
            assert(junction_views(interior@) + Seq::<JunctionView>::empty() =~= junction_views(
                interior@,
            ));
        }
        Some((Location { parents, interior }, p))
    }
}

impl VersionedLocation {
    /// The location, whatever tag it came under.
    pub fn into_latest(self) -> (r: Location)
        ensures
            r@ == self@,
    {
        match self {
            VersionedLocation::V1(location) => location,
        }
    }

    /// Appends the version tag and the wire form.
    pub fn write(&self, out: &mut Vec<u8>)
        ensures
            final(out)@ == old(out)@ + encode_versioned_location(self@),
    {
        let ghost before = out@;
        match self {
            VersionedLocation::V1(location) => {
                out.push(LOCATION_VERSION);
                location.write(out);
            },
        }
        proof {
            assert(out@ =~= before + encode_versioned_location(self@));
        }
    }

    /// The version tag and the wire form.
    pub fn encode(&self) -> (out: Vec<u8>)
        ensures
            out@ == encode_versioned_location(self@),
    {
        let mut out: Vec<u8> = Vec::new();
        self.write(&mut out);
        proof {
            assert(Seq::<u8>::empty() + encode_versioned_location(self@)
                =~= encode_versioned_location(self@));
        }
        out
    }

    /// Reads a versioned location at `at`.
    pub fn read(input: &[u8], at: usize) -> (r: Result<(VersionedLocation, usize), Error>)
        ensures
            match r {
                Ok((v, next)) => decode_versioned_location(input@, at as int) == Ok::<
                    (LocationView, int),
                    Error,
                >((v@, next as int)),
                Err(e) => decode_versioned_location(input@, at as int) == Err::<
                    (LocationView, int),
                    Error,
                >(e),
            },
            r matches Ok((v, next)) ==> v@.wf() && at < next <= input@.len(),
    {
        if at >= input.len() {
            return Err(Error::DecodeError);
        }
        if input[at] != LOCATION_VERSION {
            return Err(Error::UnsupportedVersion);
        }
        match Location::read(input, at + 1) {
            Some((location, next)) => Ok((VersionedLocation::V1(location), next)),
            None => Err(Error::DecodeError),
        }
    }
}

} // verus!
