//! Entur's open APIs: the transport-mode vocabulary, the text of queries, and
//! how a response status is judged.
//!
//! Every request must carry an `ET-Client-Name` header; unidentified clients
//! are aggressively rate-limited.

pub mod geocode;
pub mod nearest;
pub mod trip;

use vstd::prelude::*;
use crate::text::{join, join_strings, join_strs, push_u64, str_eq, str_views, views, dec};

verus! {

pub const JOURNEY_PLANNER_URL: &'static str = "https://api.entur.io/journey-planner/v3/graphql";

pub const GEOCODER_BASE: &'static str = "https://api.entur.io/geocoder/v1";

/// A WGS84 coordinate pair, each number held as the IEEE-754 bits of its
/// `f64`. Nothing here computes with them; they are carried from where they
/// were read to where they are written.
#[derive(Clone, Copy, Debug, PartialEq, Eq, Structural)]
pub struct Coord {
    pub lat_bits: u64,
    pub lon_bits: u64,
}

/// One `{transportMode:…}` entry.
pub open spec fn mode_item(m: Seq<char>) -> Seq<char> {
    "{transportMode:"@ + m + "}"@
}

/// A mode list as a GraphQL `transportModes` argument.
pub open spec fn modes_arg_text(modes: Seq<Seq<char>>) -> Seq<char> {
    "["@ + join(modes.map_values(|m: Seq<char>| mode_item(m)), ","@) + "]"@
}

/// Render a mode list as a GraphQL `transportModes` argument.
pub fn transport_modes_arg(modes: &[String]) -> (out: String)
    ensures
        out@ == modes_arg_text(views(modes@)),
{
    let mut items: Vec<String> = Vec::new();
    let mut i: usize = 0;
    while i < modes.len()
        invariant
            i <= modes.len(),
            views(items@) == views(modes@).take(i as int).map_values(|m: Seq<char>| mode_item(m)),
        decreases modes.len() - i,
    {
        let mut item = String::new();
        item.append("{transportMode:");
        item.append(modes[i].as_str());
        item.append("}");
        assert(item@ =~= mode_item(modes@[i as int]@));
        let ghost prev = items@;
        items.push(item);
        assert(views(items@) =~= views(prev).push(mode_item(modes@[i as int]@)));
        assert(views(modes@).take(i + 1).map_values(|m: Seq<char>| mode_item(m)) =~= views(modes@).take(i as int).map_values(
            |m: Seq<char>| mode_item(m),
        ).push(mode_item(modes@[i as int]@)));
        assert(views(items@) =~= views(modes@).take(i + 1).map_values(
            |m: Seq<char>| mode_item(m),
        ));
        i += 1;
    }
    assert(views(modes@).take(modes.len() as int) =~= views(modes@));
    let inner = join_strings(items.as_slice(), ",");
    let mut out = String::new();
    out.append("[");
    out.append(inner.as_str());
    out.append("]");
    assert(out@ =~= modes_arg_text(views(modes@)));
    out
}

/// Journey Planner v3's `TransportMode` enum, as introspected from the live
/// schema. Modes go into the query as bare enum literals, so an unknown one is
/// a schema validation error rather than an empty result.
pub open spec fn transport_modes() -> Seq<Seq<char>> {
    seq![
        "air"@,
        "bus"@,
        "cableway"@,
        "coach"@,
        "funicular"@,
        "lift"@,
        "metro"@,
        "monorail"@,
        "rail"@,
        "taxi"@,
        "tram"@,
        "trolleybus"@,
        "unknown"@,
        "water"@,
    ]
}

/// The transport modes the planner knows, in the order it lists them.
pub fn transport_mode_names() -> (out: Vec<&'static str>)
    ensures
        str_views(out@) == transport_modes(),
{
    let out = vec![
        "air",
        "bus",
        "cableway",
        "coach",
        "funicular",
        "lift",
        "metro",
        "monorail",
        "rail",
        "taxi",
        "tram",
        "trolleybus",
        "unknown",
        "water",
    ];
    assert(str_views(out@) =~= transport_modes());
    out
}

/// Whether `m` is one of the planner's transport modes.
pub open spec fn is_transport_mode(m: Seq<char>) -> bool {
    transport_modes().contains(m)
}

/// The modes of `modes` that the planner does not know, in order.
pub open spec fn unknown_modes(modes: Seq<Seq<char>>) -> Seq<Seq<char>> {
    modes.filter(|m: Seq<char>| !is_transport_mode(m))
}

/// Transport modes the planner would reject.
#[derive(Clone, Debug)]
pub struct UnknownModes {
    /// The offending modes, in the order they were given.
    pub unknown: Vec<String>,
}

/// The message for the modes `unknown`: the offenders, then the whole valid set.
pub open spec fn unknown_modes_message(unknown: Seq<Seq<char>>) -> Seq<char> {
    "ukjent transportmiddel: "@ + join(unknown, ", "@) + ".\nGyldige verdier er: "@ + join(
        transport_modes(),
        ", "@,
    )
}

impl UnknownModes {
    /// The message: the offenders, then the whole valid set.
    pub open spec fn spec_message(self) -> Seq<char> {
        unknown_modes_message(views(self.unknown@))
    }

    /// `ukjent transportmiddel: buss.\nGyldige verdier er: air, bus, …`
    pub fn message(&self) -> (out: String)
        ensures
            out@ == self.spec_message(),
    {
        let mut out = String::new();
        out.append("ukjent transportmiddel: ");
        let bad = join_strings(self.unknown.as_slice(), ", ");
        out.append(bad.as_str());
        out.append(".\nGyldige verdier er: ");
        let names = transport_mode_names();
        let all = join_strs(names.as_slice(), ", ");
        out.append(all.as_str());
        assert(out@ =~= self.spec_message());
        out
    }
}

/// Whether `m` is one of the planner's transport modes.
pub fn is_known_mode(m: &str) -> (r: bool)
    ensures
        r == is_transport_mode(m@),
{
    let names = transport_mode_names();
    let mut i: usize = 0;
    while i < names.len()
        invariant
            i <= names.len(),
            str_views(names@) == transport_modes(),
            forall|j: int| 0 <= j < i ==> transport_modes()[j] != m@,
        decreases names.len() - i,
    {
        if str_eq(names[i], m) {
            assert(transport_modes()[i as int] == m@);
            return true;
        }
        i += 1;
    }
    assert(!transport_modes().contains(m@));
    false
}

/// Reject unknown transport modes before they reach the query.
///
/// Entur answers an unknown mode with a paragraph of GraphQL validation text,
/// which tells a user nothing; the mode names are English while the rest of
/// the interface is Norwegian, so `--modes buss` deserves a real answer.
pub fn validate_modes(modes: &[String]) -> (out: Result<(), UnknownModes>)
    ensures
        out is Ok <==> unknown_modes(views(modes@)).len() == 0,
        out matches Err(e) ==> views(e.unknown@) == unknown_modes(views(modes@)),
{
    let mut unknown: Vec<String> = Vec::new();
    let mut i: usize = 0;
    while i < modes.len()
        invariant
            i <= modes.len(),
            views(unknown@) == unknown_modes(views(modes@).take(i as int)),
        decreases modes.len() - i,
    {
        proof {
            reveal_with_fuel(Seq::filter, 1);
            assert(views(modes@).take(i + 1).drop_last() =~= views(modes@).take(i as int));
        }
        if !is_known_mode(modes[i].as_str()) {
            unknown.push(modes[i].clone());
        }
        assert(views(unknown@) =~= unknown_modes(views(modes@).take(i + 1)));
        i += 1;
    }
    assert(views(modes@).take(modes.len() as int) =~= views(modes@));
    if unknown.len() == 0 {
        Ok(())
    } else {
        Err(UnknownModes { unknown })
    }
}

/// The error for an HTTP status outside 2xx: a hint the user can act on for
/// rate limiting, the bare code otherwise.
pub open spec fn status_message(status: u16, what: Seq<char>) -> Seq<char> {
    if status == 429 {
        what + " rate-limiter deg (HTTP 429). Sett en egen `client_name` i konfigurasjonen og øk `watch_interval_secs`."@
    } else {
        what + " svarte HTTP "@ + dec(status as nat)
    }
}

/// Rate limiting is the failure mode most likely to be hit in the wild, so it
/// gets a hint the user can actually act on.
pub fn check_status(status: u16, what: &str) -> (out: Result<(), String>)
    ensures
        out is Ok <==> 200 <= status <= 299,
        out matches Err(m) ==> m@ == status_message(status, what@),
{
    if 200 <= status && status <= 299 {
        return Ok(());
    }
    let mut m = String::new();
    m.append(what);
    if status == 429 {
        m.append(" rate-limiter deg (HTTP 429). Sett en egen `client_name` i konfigurasjonen og øk `watch_interval_secs`.");
    } else {
        m.append(" svarte HTTP ");
        push_u64(&mut m, status as u64);
    }
    assert(m@ =~= status_message(status, what@));
    Err(m)
}

/// What a GraphQL response envelope amounts to: its errors joined when there
/// are any, otherwise its data, or a complaint when there is none.
pub open spec fn spec_graphql_outcome<T>(data: Option<T>, errors: Seq<Seq<char>>) -> Result<T, Seq<char>> {
    if errors.len() > 0 {
        Err("Entur svarte med feil: "@ + join(errors, "; "@))
    } else {
        match data {
            Some(d) => Ok(d),
            None => Err("Entur returnerte et tomt svar"@),
        }
    }
}

/// Unwrap a GraphQL response envelope: any reported error wins over the data.
pub fn graphql_outcome<T>(data: Option<T>, errors: &[String]) -> (out: Result<T, String>)
    ensures
        match (out, spec_graphql_outcome(data, views(errors@))) {
            (Ok(a), Ok(b)) => a == b,
            (Err(a), Err(b)) => a@ == b,
            _ => false,
        },
{
    if errors.len() > 0 {
        let mut m = String::new();
        m.append("Entur svarte med feil: ");
        let joined = join_strings(errors, "; ");
        m.append(joined.as_str());
        return Err(m);
    }
    match data {
        Some(d) => Ok(d),
        None => Err(String::from_str("Entur returnerte et tomt svar")),
    }
}

} // verus!
