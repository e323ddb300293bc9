//! What each command decides between the lookups and the output: which
//! journey to plan, which match the user picked, and how saved places and
//! routes are listed, added and removed.

use vstd::prelude::*;
use crate::cli::Common;
use crate::config::{spec_lookup, Config, Place, Route, Waypoint};
use crate::entur::Coord;
use crate::entur::trip::TripQuery;
use crate::entur::{unknown_modes, unknown_modes_message, validate_modes};
use crate::location::{Options, Origin, Source};
use crate::text::{
    chars_of, clone_strings, dec, join, join_strings, pad_right, push_spaces, push_u64, spaces, trim, trimmed,
    views,
};
use crate::render::{pad, spec_paint, Style};
use crate::location::{row_views, spec_source_label};
use crate::text::push_padded;
use crate::upgrade::{parse_u64, spec_parse_u64};
use crate::entur::geocode::GeoMatch;

verus! {

/// Turn a saved place into an `Origin` without going back to the network.
pub fn place_origin(place: &Place, source: Source) -> (out: Origin)
    ensures
        out.coord == (Coord { lat_bits: place.lat_bits, lon_bits: place.lon_bits }),
        out.name@ == place.label@,
        out.source == source,
{
    Origin {
        coord: Coord { lat_bits: place.lat_bits, lon_bits: place.lon_bits },
        name: place.label.clone(),
        source,
    }
}

/// Where a journey starts.
#[derive(Clone, Debug)]
pub enum StartPlan {
    /// Resolve this saved place name, `lat,lon` pair or address.
    Named { raw: String, source: Source },
    /// A position already known.
    Known { origin: Origin },
    /// Find the current position, with these sources switched off.
    Locate { opts: Options },
}

/// Where a journey ends.
#[derive(Clone, Debug)]
pub enum EndPlan {
    /// Resolve this saved place name, `lat,lon` pair or address.
    Named { raw: String, source: Source },
    /// A position already known.
    Known { origin: Origin },
}

/// The transport modes a search uses: `--modes` when given, else the
/// configured ones.
pub open spec fn chosen_modes(common: Common, config: Config) -> Vec<String> {
    match common.modes {
        Some(m) => m,
        None => config.modes,
    }
}

/// Everything `ruter [DESTINATION]` needs before it goes to the network.
#[derive(Clone, Debug)]
pub struct TripPlan {
    pub start: StartPlan,
    pub end: EndPlan,
    pub query: TripQuery,
}

/// The message when neither the command line nor the config names a
/// destination.
pub open spec fn no_destination_message() -> Seq<char> {
    "ingen destinasjon oppgitt.\nBruk `ruter <sted>`, eller sett `default_destination` i konfigurasjonen."@
}

/// How many results to ask for: `-n` when given, else the configured number.
pub fn results_wanted(count: Option<usize>, config: &Config) -> (out: usize)
    ensures
        out == match count {
            Some(n) => n,
            None => config.num_results,
        },
{
    match count {
        Some(n) => n,
        None => config.num_results,
    }
}

/// The ids of a route's waypoints, in order.
fn waypoint_ids(stops: &Vec<Waypoint>) -> (out: Vec<String>)
    ensures
        views(out@) == stops@.map_values(|w: Waypoint| w.id@),
{
    let mut out: Vec<String> = Vec::new();
    let mut i: usize = 0;
    while i < stops.len()
        invariant
            i <= stops.len(),
            views(out@) == stops@.take(i as int).map_values(|w: Waypoint| w.id@),
        decreases stops.len() - i,
    {
        let ghost prev = out@;
        out.push(stops[i].id.clone());
        assert(views(out@) =~= views(prev).push(stops@[i as int].id@));
        assert(stops@.take(i + 1).map_values(|w: Waypoint| w.id@) =~= stops@.take(i as int).map_values(
            |w: Waypoint| w.id@,
        ).push(stops@[i as int].id@));
        i += 1;
    }
    assert(stops@.take(stops.len() as int) =~= stops@);
    out
}

/// Plan `ruter [DESTINATION]`.
///
/// The destination is the one given, else `default_destination`; with
/// neither there is nothing to plan. A saved route of that name (matched as
/// places are, ignoring ASCII case) wins over a place of the same name: the
/// journey ends at the route's end, passes its waypoints, and starts at its
/// saved start unless `--from` names another. Without a route the
/// destination is looked up by name, and the start is `--from` or the
/// current position. Transport modes the planner does not know are refused
/// before anything is looked up.
pub fn plan_trip(config: &Config, common: &Common, destination: Option<String>) -> (out: Result<
    TripPlan,
    String,
>)
    ensures
        out is Err <==> ((destination is None && config.default_destination is None) || unknown_modes(
            views(chosen_modes(*common, *config)@),
        ).len() > 0),
        out matches Err(e) ==> e@ == if destination is None && config.default_destination is None {
            no_destination_message()
        } else {
            unknown_modes_message(unknown_modes(views(chosen_modes(*common, *config)@)))
        },
        out matches Ok(plan) ==> {
            let dest = match destination {
                Some(d) => d@,
                None => config.default_destination->0@,
            };
            let route = spec_lookup(config.routes@, dest);
            &&& plan.query.num_patterns == match common.count {
                Some(n) => n,
                None => config.num_results,
            }
            &&& plan.query.max_walk_minutes == config.max_walk_minutes
            &&& views(plan.query.modes@) == views(
                match common.modes {
                    Some(m) => m,
                    None => config.modes,
                }@,
            )
            &&& match common.from {
                Some(f) => plan.start matches StartPlan::Named { raw, source } && raw@ == f@ && source
                    == Source::Explicit,
                None => match route {
                    Some(i) => match config.routes@[i].1.from {
                        Some(p) => plan.start matches StartPlan::Known { origin } && origin.coord == (Coord {
                            lat_bits: p.lat_bits,
                            lon_bits: p.lon_bits,
                        }) && origin.name@ == p.label@ && origin.source == Source::SavedPlace,
                        None => plan.start matches StartPlan::Locate { opts } && opts.no_gps
                            == common.no_gps && opts.no_ip == common.no_ip,
                    },
                    None => plan.start matches StartPlan::Locate { opts } && opts.no_gps == common.no_gps
                        && opts.no_ip == common.no_ip,
                },
            }
            &&& match route {
                Some(i) => {
                    let r = config.routes@[i].1;
                    &&& plan.end matches EndPlan::Known { origin } && origin.coord == (Coord {
                        lat_bits: r.to.lat_bits,
                        lon_bits: r.to.lon_bits,
                    }) && origin.name@ == r.to.label@ && origin.source == Source::SavedPlace
                    &&& views(plan.query.via@) == r.via@.map_values(|w: Waypoint| w.id@)
                },
                None => {
                    &&& plan.end matches EndPlan::Named { raw, source } && raw@ == dest && source
                        == Source::Explicit
                    &&& plan.query.via@.len() == 0
                },
            }
        },
{
    let destination = match destination {
        Some(d) => d,
        None => match &config.default_destination {
            Some(d) => d.clone(),
            None => {
                return Err(
                    String::from_str(
                        "ingen destinasjon oppgitt.\nBruk `ruter <sted>`, eller sett `default_destination` i konfigurasjonen.",
                    ),
                );
            },
        },
    };
    let modes = match &common.modes {
        Some(m) => clone_strings(m),
        None => clone_strings(&config.modes),
    };
    match validate_modes(modes.as_slice()) {
        Ok(()) => {},
        Err(e) => {
            return Err(e.message());
        },
    }
    let route = config.route(destination.as_str());
    let start = match &common.from {
        Some(explicit) => StartPlan::Named { raw: explicit.clone(), source: Source::Explicit },
        None => {
            let saved = match route {
                Some(r) => match &r.from {
                    Some(p) => Some(p),
                    None => None,
                },
                None => None,
            };
            match saved {
                Some(p) => StartPlan::Known { origin: place_origin(p, Source::SavedPlace) },
                None => StartPlan::Locate { opts: Options { no_gps: common.no_gps, no_ip: common.no_ip } },
            }
        },
    };
    let (end, via) = match route {
        Some(r) => (EndPlan::Known { origin: place_origin(&r.to, Source::SavedPlace) }, waypoint_ids(&r.via)),
        None => (EndPlan::Named { raw: destination, source: Source::Explicit }, Vec::new()),
    };
    let query = TripQuery {
        via,
        num_patterns: results_wanted(common.count, config),
        max_walk_minutes: config.max_walk_minutes,
        modes,
    };
    Ok(TripPlan { start, end, query })
}

} // verus!

verus! {

/// Whether the user has to pick among the matches: not with `--yes`, and not
/// when there is only one.
pub fn needs_choice(count: usize, yes: bool) -> (out: bool)
    ensures
        out == !(yes || count == 1),
{
    !(yes || count == 1)
}

/// The index of the match picked by typing `input`: the first one for an
/// empty line, else the 1-based number typed, which must be one of the
/// numbers shown.
pub open spec fn spec_parse_choice(input: Seq<char>, count: nat) -> Option<nat> {
    let t = trim(input);
    if t.len() == 0 {
        Some(0)
    } else {
        match spec_parse_u64(t) {
            Some(n) => if 1 <= n <= count {
                Some((n - 1) as nat)
            } else {
                None
            },
            None => None,
        }
    }
}

/// What the user picked by typing `input`; `ugyldig valg` for anything but
/// an empty line or one of the numbers shown.
pub fn parse_choice(input: &str, count: usize) -> (out: Result<usize, String>)
    ensures
        match (out, spec_parse_choice(input@, count as nat)) {
            (Ok(i), Some(j)) => i == j,
            (Err(e), None) => e@ == "ugyldig valg"@,
            _ => false,
        },
{
    let t = trimmed(input);
    let chars = chars_of(t.as_str());
    if chars.len() == 0 {
        return Ok(0);
    }
    match parse_u64(chars.as_slice()) {
        Some(n) => if 1 <= n && n <= count as u64 {
            Ok((n - 1) as usize)
        } else {
            Err(String::from_str("ugyldig valg"))
        },
        None => Err(String::from_str("ugyldig valg")),
    }
}

/// The list of matches to pick from, numbered from one, each with its layer.
pub open spec fn spec_choice_menu(query: Seq<char>, matches: Seq<GeoMatch>) -> Seq<char> {
    "Treff for \""@ + query + "\":\n"@ + menu_lines(matches)
}

/// One line per match: `  1. label  layer`.
pub open spec fn menu_lines(matches: Seq<GeoMatch>) -> Seq<char>
    decreases matches.len(),
{
    if matches.len() == 0 {
        Seq::empty()
    } else {
        let m = matches.last();
        menu_lines(matches.drop_last()) + "  "@ + dec(matches.len()) + ". "@ + m.label@ + "  "@ + match m.layer {
            Some(l) => l@,
            None => Seq::empty(),
        } + "\n"@
    }
}

/// The list of matches to pick from.
pub fn choice_menu(query: &str, matches: &Vec<GeoMatch>) -> (out: String)
    ensures
        out@ == spec_choice_menu(query@, matches@),
{
    let mut out = String::from_str("Treff for \"");
    out.append(query);
    out.append("\":\n");
    let ghost head = out@;
    let mut i: usize = 0;
    assert(matches@.take(0) =~= Seq::<GeoMatch>::empty());
    while i < matches.len()
        invariant
            i <= matches.len(),
            out@ == head + menu_lines(matches@.take(i as int)),
        decreases matches.len() - i,
    {
        let m = &matches[i];
        out.append("  ");
        push_u64(&mut out, (i + 1) as u64);
        out.append(". ");
        out.append(m.label.as_str());
        out.append("  ");
        match &m.layer {
            Some(l) => out.append(l.as_str()),
            None => {},
        }
        out.append("\n");
        assert(matches@.take(i + 1).drop_last() =~= matches@.take(i as int));
        assert(matches@.take(i + 1).last() == *m);
        i += 1;
    }
    assert(matches@.take(matches.len() as int) =~= matches@);
    out
}

/// The prompt under the list: `Velg [1-3] (Enter = 1): `.
pub fn choice_prompt(count: usize) -> (out: String)
    ensures
        out@ == "Velg [1-"@ + dec(count as nat) + "] (Enter = 1): "@,
{
    let mut out = String::from_str("Velg [1-");
    push_u64(&mut out, count as u64);
    out.append("] (Enter = 1): ");
    out
}

} // verus!

verus! {

/// Where a route without a saved start begins.
pub open spec fn here_label() -> Seq<char> {
    "der du er n\u{e5}"@
}

/// The stops of a route in the order travelled: its start (or "where you
/// are"), its waypoints and its end.
pub open spec fn route_chain(r: Route) -> Seq<Seq<char>> {
    seq![match r.from {
        Some(p) => p.label@,
        None => here_label(),
    }] + r.via@.map_values(|w: Waypoint| w.label@) + seq![r.to.label@]
}

/// What `ruter route list` prints for one route: its name and label, then
/// the chain of stops on the next line under the label.
pub open spec fn route_entry_text(name: Seq<char>, r: Route) -> Seq<char> {
    pad_right(name, 12) + " "@ + r.label@ + "\n"@ + spaces(12) + " "@ + join(route_chain(r), " \u{2192} "@) + "\n"@
}

/// The routes, one entry each, in name order.
pub open spec fn route_entries(rs: Seq<(Seq<char>, Route)>) -> Seq<char>
    decreases rs.len(),
{
    if rs.len() == 0 {
        Seq::empty()
    } else {
        route_entries(rs.drop_last()) + route_entry_text(rs.last().0, rs.last().1)
    }
}

/// The hint printed when no route is saved.
pub open spec fn no_routes_message() -> Seq<char> {
    "Ingen lagrede reiseveier enn\u{e5}. Legg til \u{e9}n med:\n  ruter route add sognsvann --to Sognsvann --via \"Ullev\u{e5}l stadion, Oslo\"\n"@
}

/// What `ruter route list` prints.
pub open spec fn spec_route_list(routes: Seq<(Seq<char>, Route)>) -> Seq<char> {
    if routes.len() == 0 {
        no_routes_message()
    } else {
        route_entries(routes)
    }
}

/// The labels along a route, in order.
fn chain_of(r: &Route) -> (out: Vec<String>)
    ensures
        views(out@) == route_chain(*r),
{
    let mut out: Vec<String> = Vec::new();
    match &r.from {
        Some(p) => out.push(p.label.clone()),
        None => out.push(String::from_str("der du er n\u{e5}")),
    }
    let ghost first = views(out@);
    let mut i: usize = 0;
    while i < r.via.len()
        invariant
            i <= r.via.len(),
            views(out@) == first + r.via@.take(i as int).map_values(|w: Waypoint| w.label@),
        decreases r.via.len() - i,
    {
        let ghost prev = out@;
        out.push(r.via[i].label.clone());
        assert(views(out@) =~= views(prev).push(r.via@[i as int].label@));
        assert(r.via@.take(i + 1).map_values(|w: Waypoint| w.label@) =~= r.via@.take(i as int).map_values(
            |w: Waypoint| w.label@,
        ).push(r.via@[i as int].label@));
        i += 1;
    }
    assert(r.via@.take(r.via.len() as int) =~= r.via@);
    let ghost prev = out@;
    out.push(r.to.label.clone());
    assert(views(out@) =~= views(prev).push(r.to.label@));
    assert(views(out@) =~= route_chain(*r));
    out
}

/// One entry of `ruter route list`.
fn route_entry(name: &str, r: &Route) -> (out: String)
    ensures
        out@ == route_entry_text(name@, *r),
{
    let mut out = pad(name, 12);
    out.append(" ");
    out.append(r.label.as_str());
    out.append("\n");
    push_spaces(&mut out, 12);
    out.append(" ");
    let chain = chain_of(r);
    out.append(join_strings(chain.as_slice(), " \u{2192} ").as_str());
    out.append("\n");
    out
}

/// What `ruter route list` prints.
pub fn route_list(config: &Config) -> (out: String)
    ensures
        out@ == spec_route_list(config.routes@),
{
    if config.routes.is_empty() {
        return String::from_str(
            "Ingen lagrede reiseveier enn\u{e5}. Legg til \u{e9}n med:\n  ruter route add sognsvann --to Sognsvann --via \"Ullev\u{e5}l stadion, Oslo\"\n",
        );
    }
    let mut out = String::new();
    let mut i: usize = 0;
    assert(config.routes@.take(0) =~= Seq::<(Seq<char>, Route)>::empty());
    while i < config.routes.len()
        invariant
            i <= config.routes@.len(),
            out@ == route_entries(config.routes@.take(i as int)),
        decreases config.routes@.len() - i,
    {
        let (name, r) = config.routes.entry(i);
        out.append(route_entry(name, r).as_str());
        assert(config.routes@.take(i + 1).drop_last() =~= config.routes@.take(i as int));
        assert(config.routes@.take(i + 1).last() == config.routes@[i as int]);
        i += 1;
    }
    assert(config.routes@.take(config.routes@.len() as int) =~= config.routes@);
    out
}

/// Every setting of `b` is that of `a`: all but the saved places and routes.
pub open spec fn same_settings(a: Config, b: Config) -> bool {
    &&& b.client_name == a.client_name
    &&& b.default_destination == a.default_destination
    &&& b.default_origin == a.default_origin
    &&& b.num_results == a.num_results
    &&& b.max_walk_minutes == a.max_walk_minutes
    &&& b.modes == a.modes
    &&& b.watch_interval_secs == a.watch_interval_secs
}

/// Remove the route named exactly `name`; the message when there is none.
pub fn remove_route(config: &mut Config, name: &str) -> (out: Result<(), String>)
    ensures
        same_settings(*old(config), *final(config)),
        final(config).routes@ == crate::config::spec_remove(old(config).routes@, name@),
        final(config).places@ == old(config).places@,
        out is Ok <==> crate::config::spec_get(old(config).routes@, name@) is Some,
        out matches Err(e) ==> e@ == "fant ingen lagret reisevei som heter \""@ + name@ + "\""@,
{
    match config.routes.remove(name) {
        Some(_) => Ok(()),
        None => {
            let mut e = String::from_str("fant ingen lagret reisevei som heter \"");
            e.append(name);
            e.append("\"");
            Err(e)
        },
    }
}

/// Remove the place named exactly `name`; the message when there is none.
pub fn remove_place(config: &mut Config, name: &str) -> (out: Result<(), String>)
    ensures
        same_settings(*old(config), *final(config)),
        final(config).places@ == crate::config::spec_remove(old(config).places@, name@),
        final(config).routes@ == old(config).routes@,
        out is Ok <==> crate::config::spec_get(old(config).places@, name@) is Some,
        out matches Err(e) ==> e@ == "fant ikke noe lagret sted som heter \""@ + name@ + "\""@,
{
    match config.places.remove(name) {
        Some(_) => Ok(()),
        None => {
            let mut e = String::from_str("fant ikke noe lagret sted som heter \"");
            e.append(name);
            e.append("\"");
            Err(e)
        },
    }
}

/// What is printed after a removal: `Fjernet "name" fra <path>`.
pub fn removed_message(name: &str, path: &str) -> (out: String)
    ensures
        out@ == "Fjernet \""@ + name@ + "\" fra "@ + path@,
{
    let mut out = String::from_str("Fjernet \"");
    out.append(name);
    out.append("\" fra ");
    out.append(path);
    out
}

} // verus!

verus! {

/// Refuse a route name that a saved place already answers to: names are
/// looked up as routes first, so the place would become unreachable.
pub fn check_route_name(config: &Config, name: &str) -> (out: Result<(), String>)
    ensures
        out is Ok <==> spec_lookup(config.places@, name@) is None,
        out matches Err(e) ==> e@ == "\""@ + name@
            + "\" er allerede et lagret sted. Velg et annet navn for reiseveien, ellers blir stedet utilgjengelig."@,
{
    match config.place(name) {
        Some(_) => {
            let mut e = String::from_str("\"");
            e.append(name);
            e.append(
                "\" er allerede et lagret sted. Velg et annet navn for reiseveien, ellers blir stedet utilgjengelig.",
            );
            Err(e)
        },
        None => Ok(()),
    }
}

/// Refuse a place name that a saved route already answers to: routes win the
/// lookup, so the place could never be reached.
pub fn check_place_name(config: &Config, name: &str) -> (out: Result<(), String>)
    ensures
        out is Ok <==> spec_lookup(config.routes@, name@) is None,
        out matches Err(e) ==> e@ == "\""@ + name@
            + "\" er allerede en lagret reisevei. Velg et annet navn for stedet, ellers blir det utilgjengelig."@,
{
    match config.route(name) {
        Some(_) => {
            let mut e = String::from_str("\"");
            e.append(name);
            e.append(
                "\" er allerede en lagret reisevei. Velg et annet navn for stedet, ellers blir det utilgjengelig.",
            );
            Err(e)
        },
        None => Ok(()),
    }
}

/// The address to look up for `ruter config add`: the words joined with
/// spaces, refused when that leaves nothing but whitespace.
pub fn place_query(words: &Vec<String>) -> (out: Result<String, String>)
    ensures
        match out {
            Ok(q) => q@ == join(views(words@), " "@) && trim(q@).len() > 0,
            Err(e) => trim(join(views(words@), " "@)).len() == 0 && e@
                == "oppgi en adresse, f.eks. `ruter config add hjem \"Dronningens gate 40, Oslo\"`"@,
        },
{
    let query = join_strings(words.as_slice(), " ");
    let t = trimmed(query.as_str());
    if chars_of(t.as_str()).len() == 0 {
        Err(String::from_str("oppgi en adresse, f.eks. `ruter config add hjem \"Dronningens gate 40, Oslo\"`"))
    } else {
        Ok(query)
    }
}

/// The label of a route: where it starts (or "where you are") and where it ends.
pub open spec fn route_label(start: Option<Place>, to: Place) -> Seq<char> {
    let from = match start {
        Some(p) => p.label@,
        None => here_label(),
    };
    from + " \u{2192} "@ + to.label@
}

/// A new route from its endpoints and waypoints, labelled by its endpoints.
pub fn new_route(start: Option<Place>, to: Place, stops: Vec<Waypoint>) -> (out: Route)
    ensures
        out.label@ == route_label(start, to),
        out.from == start,
        out.to == to,
        out.via == stops,
{
    let mut label = match &start {
        Some(p) => p.label.clone(),
        None => String::from_str("der du er n\u{e5}"),
    };
    label.append(" \u{2192} ");
    label.append(to.label.as_str());
    Route { label, from: start, to, via: stops }
}

/// Save `route` under `name`, replacing any route of exactly that name.
pub fn save_route(config: &mut Config, name: String, route: Route)
    ensures
        same_settings(*old(config), *final(config)),
        final(config).routes@ == crate::config::spec_insert(old(config).routes@, name@, route),
        final(config).places@ == old(config).places@,
{
    config.routes.insert(name, route);
}

/// Save `place` under `name`, replacing any place of exactly that name.
pub fn save_place(config: &mut Config, name: String, place: Place)
    ensures
        same_settings(*old(config), *final(config)),
        final(config).places@ == crate::config::spec_insert(old(config).places@, name@, place),
        final(config).routes@ == old(config).routes@,
{
    config.places.insert(name, place);
}

/// The place a geocoder match describes.
pub fn place_of_match(m: &GeoMatch) -> (out: Place)
    ensures
        out.label@ == m.label@,
        out.lat_bits == m.coord.lat_bits,
        out.lon_bits == m.coord.lon_bits,
{
    Place { label: m.label.clone(), lat_bits: m.coord.lat_bits, lon_bits: m.coord.lon_bits }
}

/// A place named on the command line when a route is being saved, where it can
/// be known without the network: a saved place (matched without regard to
/// case), else a `lat,lon` pair that the caller has read into `parsed`, which
/// keeps the text as its label. `None` means the geocoder has to be asked.
pub fn known_place(config: &Config, raw: &str, parsed: Option<Coord>) -> (out: Option<Place>)
    ensures
        match spec_lookup(config.places@, raw@) {
            Some(i) => {
                let saved = config.places@[i].1;
                &&& out matches Some(p)
                &&& p.label@ == saved.label@
                &&& p.lat_bits == saved.lat_bits
                &&& p.lon_bits == saved.lon_bits
            },
            None => match parsed {
                Some(c) => {
                    &&& out matches Some(p)
                    &&& p.label@ == raw@
                    &&& p.lat_bits == c.lat_bits
                    &&& p.lon_bits == c.lon_bits
                },
                None => out is None,
            },
        },
{
    match config.place(raw) {
        Some(p) => Some(Place { label: p.label.clone(), lat_bits: p.lat_bits, lon_bits: p.lon_bits }),
        None => match parsed {
            Some(c) => Some(Place { label: String::from_str(raw), lat_bits: c.lat_bits, lon_bits: c.lon_bits }),
            None => None,
        },
    }
}

/// What is printed once a route is saved: its name and label, its waypoints
/// when they name anything, where it was saved and how to run it.
pub open spec fn spec_route_saved(name: Seq<char>, r: Route, path: Seq<char>) -> Seq<char> {
    let chain = join(r.via@.map_values(|w: Waypoint| w.label@), " \u{2192} "@);
    "Lagret reiseveien \""@ + name + "\": "@ + r.label@ + "\n"@ + (if chain.len() > 0 {
        "Via: "@ + chain + "\n"@
    } else {
        Seq::empty()
    }) + path + "\nKj\u{f8}r den med: ruter "@ + name + "\n"@
}

/// The labels of the waypoints, in order.
fn waypoint_labels(stops: &Vec<Waypoint>) -> (out: Vec<String>)
    ensures
        views(out@) == stops@.map_values(|w: Waypoint| w.label@),
{
    let mut out: Vec<String> = Vec::new();
    let mut i: usize = 0;
    while i < stops.len()
        invariant
            i <= stops.len(),
            views(out@) == stops@.take(i as int).map_values(|w: Waypoint| w.label@),
        decreases stops.len() - i,
    {
        let ghost prev = out@;
        out.push(stops[i].label.clone());
        assert(views(out@) =~= views(prev).push(stops@[i as int].label@));
        assert(stops@.take(i + 1).map_values(|w: Waypoint| w.label@) =~= stops@.take(i as int).map_values(
            |w: Waypoint| w.label@,
        ).push(stops@[i as int].label@));
        i += 1;
    }
    assert(stops@.take(stops.len() as int) =~= stops@);
    out
}

/// What is printed once a route is saved.
pub fn route_saved_message(name: &str, r: &Route, path: &str) -> (out: String)
    ensures
        out@ == spec_route_saved(name@, *r, path@),
{
    let labels = waypoint_labels(&r.via);
    let chain = join_strings(labels.as_slice(), " \u{2192} ");
    let mut out = String::from_str("Lagret reiseveien \"");
    out.append(name);
    out.append("\": ");
    out.append(r.label.as_str());
    out.append("\n");
    if chars_of(chain.as_str()).len() > 0 {
        out.append("Via: ");
        out.append(chain.as_str());
        out.append("\n");
    }
    out.append(path);
    out.append("\nKj\u{f8}r den med: ruter ");
    out.append(name);
    out.append("\n");
    out
}

/// What is printed once a place is saved: its name, label and coordinates,
/// then where it was saved.
pub fn place_saved_message(name: &str, label: &str, coords: &str, path: &str) -> (out: String)
    ensures
        out@ == "Lagret \""@ + name@ + "\" \u{2192} "@ + label@ + " ("@ + coords@ + ")\n"@ + path@ + "\n"@,
{
    let mut out = String::from_str("Lagret \"");
    out.append(name);
    out.append("\" \u{2192} ");
    out.append(label);
    out.append(" (");
    out.append(coords);
    out.append(")\n");
    out.append(path);
    out.append("\n");
    out
}

/// The hint printed when no place is saved.
pub open spec fn no_places_message() -> Seq<char> {
    "Ingen lagrede steder enn\u{e5}. Legg til ett med:\n  ruter config add hjem \"Dronningens gate 40, Oslo\"\n"@
}

/// The places, one line each with its coordinates as given, in name order.
pub open spec fn place_entries(ps: Seq<(Seq<char>, Place)>, coords: Seq<Seq<char>>) -> Seq<char>
    decreases ps.len(),
{
    if ps.len() == 0 {
        Seq::empty()
    } else {
        let i = ps.len() - 1;
        place_entries(ps.drop_last(), coords) + pad_right(ps[i].0, 12) + " "@ + ps[i].1.label@ + "  ("@ + coords[i]
            + ")\n"@
    }
}

/// What `ruter config list` prints, with `coords[i]` the coordinates of the
/// `i`-th place in name order.
pub open spec fn spec_place_list(ps: Seq<(Seq<char>, Place)>, coords: Seq<Seq<char>>) -> Seq<char> {
    if ps.len() == 0 {
        no_places_message()
    } else {
        place_entries(ps, coords)
    }
}

/// What `ruter config list` prints.
pub fn place_list(config: &Config, coords: &Vec<String>) -> (out: String)
    requires
        coords.len() == config.places@.len(),
    ensures
        out@ == spec_place_list(config.places@, views(coords@)),
{
    if config.places.is_empty() {
        return String::from_str(
            "Ingen lagrede steder enn\u{e5}. Legg til ett med:\n  ruter config add hjem \"Dronningens gate 40, Oslo\"\n",
        );
    }
    let mut out = String::new();
    let mut i: usize = 0;
    assert(config.places@.take(0) =~= Seq::<(Seq<char>, Place)>::empty());
    while i < config.places.len()
        invariant
            i <= config.places@.len(),
            coords.len() == config.places@.len(),
            out@ == place_entries(config.places@.take(i as int), views(coords@)),
        decreases config.places@.len() - i,
    {
        let (name, p) = config.places.entry(i);
        out.append(pad(name, 12).as_str());
        out.append(" ");
        out.append(p.label.as_str());
        out.append("  (");
        out.append(coords[i].as_str());
        out.append(")\n");
        assert(config.places@.take(i + 1).drop_last() =~= config.places@.take(i as int));
        assert(config.places@.take(i + 1)[i as int] == config.places@[i as int]);
        assert(views(coords@)[i as int] == coords@[i as int]@);
        i += 1;
    }
    assert(config.places@.take(config.places@.len() as int) =~= config.places@);
    out
}

} // verus!

verus! {

/// One line of `ruter where`: the key and a colon padded to a column, then
/// the value.
pub open spec fn where_row(key: Seq<char>, value: Seq<char>) -> Seq<char> {
    "  "@ + pad_right(key, 28) + " "@ + value + "\n"@
}

/// The diagnostic rows, one line each.
pub open spec fn where_rows(rows: Seq<(Seq<char>, Seq<char>)>) -> Seq<char>
    decreases rows.len(),
{
    if rows.len() == 0 {
        Seq::empty()
    } else {
        where_rows(rows.drop_last()) + where_row(rows.last().0 + ":"@, rows.last().1)
    }
}

/// What `ruter where` prints: the Core Location diagnostics, then the
/// position found (its name, coordinates as given and source, with a warning
/// for a coarse one) or why none was.
pub open spec fn spec_where_report(
    rows: Seq<(Seq<char>, Seq<char>)>,
    resolved: Result<(Origin, Seq<char>), Seq<char>>,
    colour: bool,
) -> Seq<char> {
    let found = match resolved {
        Ok((o, coords)) => where_row("Posisjon:"@, spec_paint(colour, o.name@, "1"@)) + where_row(
            "Koordinater:"@,
            coords,
        ) + where_row("Kilde:"@, spec_source_label(o.source)) + if o.source == Source::Ip {
            "\n  "@ + spec_paint(
                colour,
                "\u{26a0} Dette er et IP-oppslag og kan bomme med flere kilometer."@,
                "33"@,
            ) + "\n"@
        } else {
            Seq::empty()
        },
        Err(e) => where_row("Posisjon:"@, e),
    };
    "\n"@ + where_rows(rows) + found + "\n"@
}

/// Appends one line of `ruter where`.
fn push_where_row(out: &mut String, key: &str, value: &str)
    ensures
        final(out)@ == old(out)@ + where_row(key@, value@),
{
    out.append("  ");
    push_padded(out, key, 28);
    out.append(" ");
    out.append(value);
    out.append("\n");
}

/// What `ruter where` prints.
pub fn where_report(rows: &Vec<(String, String)>, resolved: &Result<(Origin, String), String>, s: Style) -> (out:
    String)
    ensures
        out@ == spec_where_report(
            row_views(rows@),
            match resolved {
                Ok((o, c)) => Ok((*o, c@)),
                Err(e) => Err(e@),
            },
            s.colour,
        ),
{
    let mut out = String::from_str("\n");
    let mut i: usize = 0;
    assert(row_views(rows@).take(0) =~= Seq::<(Seq<char>, Seq<char>)>::empty());
    while i < rows.len()
        invariant
            i <= rows.len(),
            out@ == "\n"@ + where_rows(row_views(rows@).take(i as int)),
        decreases rows.len() - i,
    {
        let mut key = rows[i].0.clone();
        key.append(":");
        push_where_row(&mut out, key.as_str(), rows[i].1.as_str());
        assert(row_views(rows@).take(i + 1).drop_last() =~= row_views(rows@).take(i as int));
        assert(row_views(rows@)[i as int] == (rows@[i as int].0@, rows@[i as int].1@));
        i += 1;
    }
    assert(row_views(rows@).take(rows.len() as int) =~= row_views(rows@));
    match resolved {
        Ok((o, coords)) => {
            push_where_row(&mut out, "Posisjon:", s.bold(o.name.as_str()).as_str());
            push_where_row(&mut out, "Koordinater:", coords.as_str());
            push_where_row(&mut out, "Kilde:", o.source.label());
            if o.source.is_coarse() {
                out.append("\n  ");
                out.append(s.yellow("\u{26a0} Dette er et IP-oppslag og kan bomme med flere kilometer.").as_str());
                out.append("\n");
            }
        },
        Err(e) => {
            push_where_row(&mut out, "Posisjon:", e.as_str());
        },
    }
    out.append("\n");
    out
}

} // verus!
