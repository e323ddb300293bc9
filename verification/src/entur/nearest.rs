//! Nearby stop places and their upcoming departures.

use vstd::prelude::*;
use crate::text::{clone_opt, clone_strings, dec, push_u64};
use crate::time::{seconds_between, spec_seconds_between, trunc_div, Time};
use super::trip::{CoordText, Presentation, Quay};

verus! {

/// One edge of a `nearest` answer: how far away, and the stop if it is one.
#[derive(Clone, Debug)]
pub struct NearestEdge {
    /// Metres from the query point, rounded and never negative.
    pub distance_m: u32,
    pub place: Option<PlaceNode>,
}

/// A stop place as `nearest` names it.
#[derive(Clone, Debug)]
pub struct PlaceNode {
    pub id: String,
    pub name: Option<String>,
    pub transport_mode: Vec<String>,
}

/// A stop near the user.
#[derive(Clone, Debug)]
pub struct NearbyStop {
    pub id: String,
    pub name: String,
    pub distance_m: u32,
    pub modes: Vec<String>,
}

/// The planner's answer to a departures query.
#[derive(Clone, Debug)]
pub struct StopPlaceResponse {
    pub stop_place: Option<StopPlace>,
}

/// A stop and its upcoming departures, ordered by expected departure.
#[derive(Clone, Debug)]
pub struct StopPlace {
    pub id: String,
    pub name: Option<String>,
    pub estimated_calls: Vec<EstimatedCall>,
}

/// One departure from a stop.
#[derive(Clone, Debug)]
pub struct EstimatedCall {
    pub realtime: bool,
    pub aimed_departure_time: Time,
    pub expected_departure_time: Time,
    pub cancellation: bool,
    pub destination_display: Option<DestinationDisplay>,
    pub quay: Option<Quay>,
    pub service_journey: Option<ServiceJourney>,
}

#[derive(Clone, Debug)]
pub struct DestinationDisplay {
    pub front_text: Option<String>,
}

#[derive(Clone, Debug)]
pub struct ServiceJourney {
    pub line: Option<DepartureLine>,
}

#[derive(Clone, Debug)]
pub struct DepartureLine {
    pub public_code: Option<String>,
    pub name: Option<String>,
    pub transport_mode: Option<String>,
    pub presentation: Option<Presentation>,
    /// The operator, e.g. "Ruter" or "Vy".
    pub authority: Option<Authority>,
}

#[derive(Clone, Debug)]
pub struct Authority {
    pub name: Option<String>,
}

/// The sign on the front of the vehicle, or a dash when it has none.
pub open spec fn spec_destination(call: EstimatedCall) -> Seq<char> {
    match call.destination_display {
        Some(d) => match d.front_text {
            Some(t) => t@,
            None => "—"@,
        },
        None => "—"@,
    }
}

/// The line a departure runs on, when the planner says.
pub open spec fn spec_call_line(call: EstimatedCall) -> Option<DepartureLine> {
    match call.service_journey {
        Some(j) => j.line,
        None => None,
    }
}

impl EstimatedCall {
    /// Both departure times are within range.
    pub open spec fn wf(self) -> bool {
        self.aimed_departure_time.wf() && self.expected_departure_time.wf()
    }

    /// Whole minutes from the planned to the expected departure, toward zero.
    pub fn delay_minutes(&self) -> (r: i64)
        requires
            self.wf(),
        ensures
            r == trunc_div(
                spec_seconds_between(self.expected_departure_time, self.aimed_departure_time),
                60,
            ),
    {
        seconds_between(&self.expected_departure_time, &self.aimed_departure_time) / 60
    }

    pub fn destination(&self) -> (r: &str)
        ensures
            r@ == spec_destination(*self),
    {
        match &self.destination_display {
            Some(d) => match &d.front_text {
                Some(t) => t.as_str(),
                None => "—",
            },
            None => "—",
        }
    }

    pub fn line(&self) -> (r: Option<&DepartureLine>)
        ensures
            match (r, spec_call_line(*self)) {
                (Some(a), Some(b)) => *a == b,
                (None, None) => true,
                _ => false,
            },
    {
        match &self.service_journey {
            Some(j) => match &j.line {
                Some(l) => Some(l),
                None => None,
            },
            None => None,
        }
    }
}

/// `stop` is what `edge` names: its id, its name or "Ukjent stopp" for a
/// nameless one, its distance and its modes.
pub open spec fn stop_from_edge(stop: NearbyStop, edge: NearestEdge) -> bool {
    match edge.place {
        Some(p) => {
            &&& stop.id == p.id
            &&& stop.name@ == match p.name {
                Some(n) => n@,
                None => "Ukjent stopp"@,
            }
            &&& stop.distance_m == edge.distance_m
            &&& stop.modes@ == p.transport_mode@
        },
        None => false,
    }
}

/// The edges that name a stop place.
pub open spec fn stop_edges(edges: Seq<NearestEdge>) -> Seq<NearestEdge> {
    edges.filter(|e: NearestEdge| e.place is Some)
}

/// Keep the edges that are stops, in the order the planner sorted them (by
/// distance).
pub fn collect_stops(edges: &Vec<NearestEdge>) -> (out: Vec<NearbyStop>)
    ensures
        out.len() == stop_edges(edges@).len(),
        forall|k: int| 0 <= k < out.len() ==> stop_from_edge(#[trigger] out@[k], stop_edges(edges@)[k]),
{
    let mut out: Vec<NearbyStop> = Vec::new();
    let mut i: usize = 0;
    while i < edges.len()
        invariant
            i <= edges.len(),
            out.len() == stop_edges(edges@.take(i as int)).len(),
            forall|k: int|
                0 <= k < out.len() ==> stop_from_edge(#[trigger] out@[k], stop_edges(edges@.take(i as int))[k]),
        decreases edges.len() - i,
    {
        proof {
            reveal_with_fuel(Seq::filter, 1);
            assert(edges@.take(i + 1).drop_last() =~= edges@.take(i as int));
        }
        let e = &edges[i];
        match &e.place {
            Some(p) => {
                let name = match &p.name {
                    Some(n) => n.clone(),
                    None => String::from_str("Ukjent stopp"),
                };
                out.push(
                    NearbyStop {
                        id: p.id.clone(),
                        name,
                        distance_m: e.distance_m,
                        modes: clone_strings(&p.transport_mode),
                    },
                );
            },
            None => {},
        }
        i += 1;
    }
    assert(edges@.take(edges.len() as int) =~= edges@);
    out
}

/// The text of a `nearest` query around `at`.
pub open spec fn spec_nearest_query(at: CoordText, max_distance_m: u32, limit: usize) -> Seq<char> {
    "{\n  nearest(\n    latitude: "@ + at.lat@ + "\n    longitude: "@ + at.lon@
        + "\n    maximumDistance: "@ + dec(max_distance_m as nat) + "\n    maximumResults: "@
        + dec(limit as nat)
        + "\n    filterByPlaceTypes: [stopPlace]\n  ) {\n    edges { node { distance place { ... on StopPlace { id name transportMode } } } }\n  }\n}"@
}

/// The GraphQL text asking for the stop places nearest `at`.
pub fn nearest_query(at: &CoordText, max_distance_m: u32, limit: usize) -> (out: String)
    ensures
        out@ == spec_nearest_query(*at, max_distance_m, limit),
{
    let mut out = String::new();
    out.append("{\n  nearest(\n    latitude: ");
    out.append(at.lat.as_str());
    out.append("\n    longitude: ");
    out.append(at.lon.as_str());
    out.append("\n    maximumDistance: ");
    push_u64(&mut out, max_distance_m as u64);
    out.append("\n    maximumResults: ");
    push_u64(&mut out, limit as u64);
    out.append(
        "\n    filterByPlaceTypes: [stopPlace]\n  ) {\n    edges { node { distance place { ... on StopPlace { id name transportMode } } } }\n  }\n}",
    );
    assert(out@ =~= spec_nearest_query(*at, max_distance_m, limit));
    out
}

/// The fields asked for on every departure.
pub const DEPARTURE_SELECTION: &'static str = "{
      realtime
      aimedDepartureTime
      expectedDepartureTime
      cancellation
      destinationDisplay { frontText }
      quay { publicCode }
      serviceJourney {
        line {
          publicCode
          name
          transportMode
          presentation { colour textColour }
          authority { name }
        }
      }
    }
  }
}";

/// The text of a departures query for one stop.
pub open spec fn spec_departures_query(stop_id: Seq<char>, count: usize) -> Seq<char> {
    "{\n  stopPlace(id: \""@ + stop_id + "\") {\n    id\n    name\n    estimatedCalls(numberOfDepartures: "@
        + dec(count as nat) + ", timeRange: 7200) "@ + DEPARTURE_SELECTION@
}

/// The GraphQL text asking for the next `count` departures from a stop within
/// two hours.
pub fn departures_query(stop_id: &str, count: usize) -> (out: String)
    ensures
        out@ == spec_departures_query(stop_id@, count),
{
    let mut out = String::new();
    out.append("{\n  stopPlace(id: \"");
    out.append(stop_id);
    out.append("\") {\n    id\n    name\n    estimatedCalls(numberOfDepartures: ");
    push_u64(&mut out, count as u64);
    out.append(", timeRange: 7200) ");
    out.append(DEPARTURE_SELECTION);
    assert(out@ =~= spec_departures_query(stop_id@, count));
    out
}

} // verus!
