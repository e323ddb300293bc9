//! The `trip` query: journey planning between two coordinates.

use vstd::prelude::*;
use crate::text::{join, push_u64, views};
use crate::time::{seconds_between, spec_seconds_between, trunc_div, Time};
use super::transport_modes_arg;
use super::modes_arg_text;

verus! {

/// The planner's answer to a trip query.
#[derive(Clone, Debug)]
pub struct TripResponse {
    pub trip: Trip,
}

#[derive(Clone, Debug)]
pub struct Trip {
    pub trip_patterns: Vec<TripPattern>,
}

/// One suggested journey.
#[derive(Clone, Debug)]
pub struct TripPattern {
    pub expected_start_time: Time,
    pub expected_end_time: Time,
    /// Total journey time in seconds.
    pub duration: i64,
    /// Distance walked in all, in whole centimetres.
    pub walk_distance_cm: u64,
    pub legs: Vec<Leg>,
}

/// One stretch of a journey, on foot or aboard something.
#[derive(Clone, Debug)]
pub struct Leg {
    /// `foot`, `bus`, `tram`, `metro`, `rail`, `water`, ...
    pub mode: String,
    /// Distance covered, in whole centimetres.
    pub distance_cm: u64,
    /// Leg duration in seconds.
    pub duration: i64,
    pub aimed_start_time: Time,
    pub expected_start_time: Time,
    pub expected_end_time: Time,
    pub realtime: bool,
    pub from_place: Place,
    pub to_place: Place,
    /// `None` for walking legs.
    pub line: Option<Line>,
    pub situations: Vec<Situation>,
}

#[derive(Clone, Debug)]
pub struct Place {
    pub name: Option<String>,
    pub quay: Option<Quay>,
}

#[derive(Clone, Debug)]
pub struct Quay {
    /// The platform number as signposted, e.g. "2" or "L".
    pub public_code: Option<String>,
}

#[derive(Clone, Debug)]
pub struct Line {
    /// The number on the front of the vehicle, e.g. "21".
    pub public_code: Option<String>,
    pub name: Option<String>,
    pub presentation: Option<Presentation>,
}

#[derive(Clone, Debug)]
pub struct Presentation {
    /// Hex RGB with no leading `#`, e.g. "EC700C".
    pub colour: Option<String>,
    pub text_colour: Option<String>,
}

#[derive(Clone, Debug)]
pub struct Situation {
    pub summary: Vec<TranslatedString>,
}

#[derive(Clone, Debug)]
pub struct TranslatedString {
    pub value: String,
}

/// The tunable parts of a trip search.
///
/// Kept together because both the one-shot path and the watch poller need the
/// identical set.
#[derive(Clone, Debug)]
pub struct TripQuery {
    /// NSR stop ids the journey must pass through, in order. Empty means direct.
    pub via: Vec<String>,
    pub num_patterns: usize,
    pub max_walk_minutes: u32,
    pub modes: Vec<String>,
}

/// A leg that boards a vehicle: anything but walking or cycling.
pub open spec fn spec_is_transit(leg: Leg) -> bool {
    leg.mode@ != "foot"@ && leg.mode@ != "bicycle"@
}

/// Whole minutes from the planned to the expected departure, toward zero.
pub open spec fn spec_leg_delay(leg: Leg) -> int {
    trunc_div(spec_seconds_between(leg.expected_start_time, leg.aimed_start_time), 60)
}

impl Leg {
    /// All of the leg's times are within range, and its duration can be
    /// rounded to minutes.
    pub open spec fn wf(self) -> bool {
        &&& self.aimed_start_time.wf()
        &&& self.expected_start_time.wf()
        &&& self.expected_end_time.wf()
        &&& self.duration <= i64::MAX - 30
    }

    pub fn is_transit(&self) -> (r: bool)
        ensures
            r == spec_is_transit(*self),
    {
        !crate::text::str_eq(self.mode.as_str(), "foot") && !crate::text::str_eq(
            self.mode.as_str(),
            "bicycle",
        )
    }

    /// How many whole minutes late this leg departs. Negative means early.
    pub fn delay_minutes(&self) -> (r: i64)
        requires
            self.wf(),
        ensures
            r == spec_leg_delay(*self),
    {
        seconds_between(&self.expected_start_time, &self.aimed_start_time) / 60
    }
}

/// Whether any of `legs` carries live data.
pub open spec fn any_realtime(legs: Seq<Leg>) -> bool {
    exists|i: int| 0 <= i < legs.len() && #[trigger] legs[i].realtime
}

impl TripPattern {
    /// The pattern's own times and every leg's are within range, and the
    /// durations can be rounded to minutes.
    pub open spec fn wf(self) -> bool {
        &&& self.expected_start_time.wf()
        &&& self.expected_end_time.wf()
        &&& self.duration <= i64::MAX - 30
        &&& forall|i: int| 0 <= i < self.legs.len() ==> (#[trigger] self.legs@[i]).wf()
    }

    /// The legs that actually involve a vehicle, in order.
    pub fn transit_legs(&self) -> (out: Vec<&Leg>)
        ensures
            out@.map_values(|l: &Leg| *l) == self.legs@.filter(|l: Leg| spec_is_transit(l)),
    {
        let mut out: Vec<&Leg> = Vec::new();
        let mut i: usize = 0;
        while i < self.legs.len()
            invariant
                i <= self.legs.len(),
                out@.map_values(|l: &Leg| *l) == self.legs@.take(i as int).filter(
                    |l: Leg| spec_is_transit(l),
                ),
            decreases self.legs.len() - i,
        {
            proof {
                reveal_with_fuel(Seq::filter, 1);
                assert(self.legs@.take(i + 1).drop_last() =~= self.legs@.take(i as int));
            }
            let leg = &self.legs[i];
            if leg.is_transit() {
                out.push(leg);
            }
            assert(out@.map_values(|l: &Leg| *l) =~= self.legs@.take(i + 1).filter(
                |l: Leg| spec_is_transit(l),
            ));
            i += 1;
        }
        assert(self.legs@.take(self.legs.len() as int) =~= self.legs@);
        out
    }

    /// Where you first board something. `None` for an all-walking trip.
    pub fn first_boarding(&self) -> (out: Option<&Leg>)
        ensures
            match out {
                Some(l) => exists|i: int|
                    0 <= i < self.legs.len() && self.legs@[i] == *l && spec_is_transit(*l)
                        && forall|j: int| 0 <= j < i ==> !spec_is_transit(#[trigger] self.legs@[j]),
                None => forall|j: int|
                    0 <= j < self.legs.len() ==> !spec_is_transit(#[trigger] self.legs@[j]),
            },
    {
        let mut i: usize = 0;
        while i < self.legs.len()
            invariant
                i <= self.legs.len(),
                forall|j: int| 0 <= j < i ==> !spec_is_transit(#[trigger] self.legs@[j]),
            decreases self.legs.len() - i,
        {
            if self.legs[i].is_transit() {
                return Some(&self.legs[i]);
            }
            i += 1;
        }
        None
    }

    /// True if any leg carries live data, which decides the `●` / `○` marker.
    pub fn has_realtime(&self) -> (r: bool)
        ensures
            r == any_realtime(self.legs@),
    {
        let mut i: usize = 0;
        while i < self.legs.len()
            invariant
                i <= self.legs.len(),
                forall|j: int| 0 <= j < i ==> !(#[trigger] self.legs@[j]).realtime,
            decreases self.legs.len() - i,
        {
            if self.legs[i].realtime {
                return true;
            }
            i += 1;
        }
        false
    }
}

/// One waypoint of a `via` argument.
pub open spec fn visit_item(id: Seq<char>) -> Seq<char> {
    "{visit: {stopLocationIds: [\""@ + id + "\"]}}"@
}

/// The ordered waypoints as a `via` argument, or nothing at all when there are
/// none (Journey Planner rejects an empty `via` list).
pub open spec fn spec_via_arg(via: Seq<Seq<char>>) -> Seq<char> {
    if via.len() == 0 {
        Seq::empty()
    } else {
        "\n    via: ["@ + join(via.map_values(|id: Seq<char>| visit_item(id)), ", "@) + "]"@
    }
}

/// Render the ordered waypoints as a `via` argument.
pub fn via_arg(ids: &[String]) -> (out: String)
    ensures
        out@ == spec_via_arg(views(ids@)),
{
    if ids.len() == 0 {
        return String::new();
    }
    let mut items: Vec<String> = Vec::new();
    let mut i: usize = 0;
    while i < ids.len()
        invariant
            i <= ids.len(),
            views(items@) == views(ids@).take(i as int).map_values(|id: Seq<char>| visit_item(id)),
        decreases ids.len() - i,
    {
        let mut item = String::new();
        item.append("{visit: {stopLocationIds: [\"");
        item.append(ids[i].as_str());
        item.append("\"]}}");
        assert(item@ =~= visit_item(ids@[i as int]@));
        let ghost prev = items@;
        items.push(item);
        assert(views(items@) =~= views(prev).push(visit_item(ids@[i as int]@)));
        assert(views(ids@).take(i + 1).map_values(|id: Seq<char>| visit_item(id)) =~= views(ids@).take(i as int).map_values(
            |id: Seq<char>| visit_item(id),
        ).push(visit_item(ids@[i as int]@)));
        assert(views(items@) =~= views(ids@).take(i + 1).map_values(
            |id: Seq<char>| visit_item(id),
        ));
        i += 1;
    }
    assert(views(ids@).take(ids.len() as int) =~= views(ids@));
    let inner = crate::text::join_strings(items.as_slice(), ", ");
    let mut out = String::new();
    out.append("\n    via: [");
    out.append(inner.as_str());
    out.append("]");
    assert(out@ =~= spec_via_arg(views(ids@)));
    out
}

/// A coordinate as the decimal text the query carries, e.g. `59.9139`.
#[derive(Clone, Debug)]
pub struct CoordText {
    pub lat: String,
    pub lon: String,
}

/// The text of a trip query from `from` to `to`.
pub open spec fn spec_trip_query(from: CoordText, to: CoordText, query: TripQuery) -> Seq<char> {
    "{\n  trip(\n    from: {coordinates: {latitude: "@ + from.lat@ + ", longitude: "@ + from.lon@
        + "}}\n    to: {coordinates: {latitude: "@ + to.lat@ + ", longitude: "@ + to.lon@ + "}}"@
        + spec_via_arg(views(query.via@)) + "\n    numTripPatterns: "@ + crate::text::dec(
        query.num_patterns as nat,
    ) + "\n    maxAccessEgressDurationForMode: [{streetMode: foot, duration: \"PT"@
        + crate::text::dec(query.max_walk_minutes as nat)
        + "M\"}]\n    modes: {accessMode: foot, egressMode: foot, transportModes: "@
        + modes_arg_text(views(query.modes@)) + "}\n  ) "@ + TRIP_SELECTION@
}

/// The fields asked for on every pattern and leg.
pub const TRIP_SELECTION: &'static str = "{
    tripPatterns {
      expectedStartTime
      expectedEndTime
      duration
      walkDistance
      legs {
        mode
        distance
        duration
        aimedStartTime
        expectedStartTime
        expectedEndTime
        realtime
        fromPlace { name quay { publicCode } }
        toPlace { name quay { publicCode } }
        line { publicCode name presentation { colour textColour } }
        situations { summary { value } }
      }
    }
  }
}";

/// The GraphQL text of a trip search.
pub fn build_trip_query(from: &CoordText, to: &CoordText, query: &TripQuery) -> (out: String)
    ensures
        out@ == spec_trip_query(*from, *to, *query),
{
    let mut out = String::new();
    out.append("{\n  trip(\n    from: {coordinates: {latitude: ");
    out.append(from.lat.as_str());
    out.append(", longitude: ");
    out.append(from.lon.as_str());
    out.append("}}\n    to: {coordinates: {latitude: ");
    out.append(to.lat.as_str());
    out.append(", longitude: ");
    out.append(to.lon.as_str());
    out.append("}}");
    let via = via_arg(query.via.as_slice());
    out.append(via.as_str());
    out.append("\n    numTripPatterns: ");
    push_u64(&mut out, query.num_patterns as u64);
    out.append("\n    maxAccessEgressDurationForMode: [{streetMode: foot, duration: \"PT");
    push_u64(&mut out, query.max_walk_minutes as u64);
    out.append("M\"}]\n    modes: {accessMode: foot, egressMode: foot, transportModes: ");
    let modes = transport_modes_arg(query.modes.as_slice());
    out.append(modes.as_str());
    out.append("}\n  ) ");
    out.append(TRIP_SELECTION);
    assert(out@ =~= spec_trip_query(*from, *to, *query));
    out
}

/// A leg boards a vehicle exactly when it is neither a walk nor a bike ride:
/// rail, tram, bus, metro, water, air and coach legs are all rides.
pub proof fn law_every_vehicle_leg_is_a_ride(leg: Leg)
    ensures
        spec_is_transit(leg) <==> !(leg.mode@ == "foot"@ || leg.mode@ == "bicycle"@),
        (leg.mode@ == "rail"@ || leg.mode@ == "tram"@ || leg.mode@ == "bus"@ || leg.mode@ == "metro"@
            || leg.mode@ == "water"@ || leg.mode@ == "air"@ || leg.mode@ == "coach"@) ==> spec_is_transit(leg),
        (leg.mode@ == "foot"@ || leg.mode@ == "bicycle"@) ==> !spec_is_transit(leg),
{
    reveal_strlit("foot");
    reveal_strlit("bicycle");
    reveal_strlit("rail");
    reveal_strlit("tram");
    reveal_strlit("bus");
    reveal_strlit("metro");
    reveal_strlit("water");
    reveal_strlit("air");
    reveal_strlit("coach");
    let (f, b) = ("foot"@, "bicycle"@);
    assert("rail"@[0] != f[0] && "rail"@[0] != b[0]);
    assert("tram"@[0] != f[0] && "tram"@[0] != b[0]);
    assert("bus"@[0] != f[0] && "bus"@.len() != b.len());
    assert("metro"@[0] != f[0] && "metro"@[0] != b[0]);
    assert("water"@[0] != f[0] && "water"@[0] != b[0]);
    assert("air"@[0] != f[0] && "air"@[0] != b[0]);
    assert("coach"@[0] != f[0] && "coach"@[0] != b[0]);
}

/// A journey's first boarding is its first leg that is neither a walk nor a
/// bike ride; a journey has none exactly when all its legs are walks or rides
/// on a bike.
pub proof fn law_first_boarding_is_the_first_vehicle(p: TripPattern, i: int)
    requires
        0 <= i < p.legs.len(),
        !(p.legs@[i].mode@ == "foot"@ || p.legs@[i].mode@ == "bicycle"@),
        forall|j: int|
            0 <= j < i ==> (#[trigger] p.legs@[j]).mode@ == "foot"@ || p.legs@[j].mode@ == "bicycle"@,
    ensures
        spec_is_transit(p.legs@[i]),
        forall|j: int| 0 <= j < i ==> !spec_is_transit(#[trigger] p.legs@[j]),
{
}

} // verus!
