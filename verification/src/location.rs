//! Working out where the user currently is.
//!
//! Sources are tried in descending order of trustworthiness and the winner is
//! reported alongside the coordinate: GPS puts you on the right street corner,
//! IP geolocation can put you in the wrong town, so an IP-derived origin is
//! always labelled as such.

use vstd::prelude::*;
use crate::entur::Coord;
use crate::text::{int_dec, push_i64};

verus! {

/// Where a position came from.
#[derive(Clone, Copy, Debug, PartialEq, Eq, Structural)]
pub enum Source {
    /// Explicit `--from`, either coordinates or a geocoded address.
    Explicit,
    /// A named place from the config file.
    SavedPlace,
    /// macOS Core Location.
    Gps,
    /// IP geolocation. Coarse: city level at best.
    Ip,
    /// `default_origin` from the config, used when everything else failed.
    ConfigDefault,
}

/// The Norwegian name of a source.
pub open spec fn spec_source_label(s: Source) -> Seq<char> {
    match s {
        Source::Explicit => "oppgitt"@,
        Source::SavedPlace => "lagret sted"@,
        Source::Gps => "GPS"@,
        Source::Ip => "IP (unøyaktig)"@,
        Source::ConfigDefault => "standard fra config"@,
    }
}

impl Source {
    pub fn label(self) -> (out: &'static str)
        ensures
            out@ == spec_source_label(self),
    {
        match self {
            Source::Explicit => "oppgitt",
            Source::SavedPlace => "lagret sted",
            Source::Gps => "GPS",
            Source::Ip => "IP (unøyaktig)",
            Source::ConfigDefault => "standard fra config",
        }
    }

    /// Whether the user should be warned that this position may be far off.
    pub fn is_coarse(self) -> (r: bool)
        ensures
            r == (self == Source::Ip),
    {
        match self {
            Source::Ip => true,
            _ => false,
        }
    }
}

/// A resolved position, what to call it, and where it came from.
#[derive(Clone, Debug)]
pub struct Origin {
    pub coord: Coord,
    pub name: String,
    pub source: Source,
}

/// Options that let the caller switch individual sources off.
#[derive(Clone, Copy, Debug, Default)]
pub struct Options {
    pub no_gps: bool,
    pub no_ip: bool,
}

/// One way of finding the origin, in the order they are tried.
#[derive(Clone, Debug)]
pub enum Attempt {
    /// Resolve a saved place name, `lat,lon` pair or address, crediting `source`.
    Named { raw: String, source: Source },
    /// Ask Core Location.
    Gps,
    /// Ask an IP geolocation service.
    Ip,
}

/// What an attempt is, its text by view.
pub enum AttemptView {
    Named { raw: Seq<char>, source: Source },
    Gps,
    Ip,
}

impl View for Attempt {
    type V = AttemptView;

    open spec fn view(&self) -> AttemptView {
        match self {
            Attempt::Named { raw, source } => AttemptView::Named { raw: raw@, source: *source },
            Attempt::Gps => AttemptView::Gps,
            Attempt::Ip => AttemptView::Ip,
        }
    }
}

/// The sources to try: an explicit `--from` alone; otherwise GPS and IP
/// unless switched off, then the configured default origin if there is one.
pub open spec fn spec_origin_attempts(
    explicit: Option<Seq<char>>,
    opts: Options,
    default_origin: Option<Seq<char>>,
) -> Seq<AttemptView> {
    match explicit {
        Some(raw) => seq![AttemptView::Named { raw, source: Source::Explicit }],
        None => {
            let gps = if opts.no_gps { Seq::empty() } else { seq![AttemptView::Gps] };
            let ip = if opts.no_ip { Seq::empty() } else { seq![AttemptView::Ip] };
            let fallback = match default_origin {
                Some(raw) => seq![AttemptView::Named { raw, source: Source::ConfigDefault }],
                None => Seq::empty(),
            };
            gps + ip + fallback
        },
    }
}

/// Where the origin is looked for. An explicit `--from` is the only source
/// tried. Without one, GPS is tried exactly when it is not switched off and IP
/// exactly when it is not, each whatever the other switch says; GPS comes
/// before IP; the configured default comes last, when there is one.
pub proof fn law_origin_sources_follow_their_own_switches(
    explicit: Option<Seq<char>>,
    opts: Options,
    default_origin: Option<Seq<char>>,
)
    ensures
        explicit matches Some(raw) ==> spec_origin_attempts(explicit, opts, default_origin) == seq![
            AttemptView::Named { raw, source: Source::Explicit },
        ],
        explicit is None ==> {
            let a = spec_origin_attempts(explicit, opts, default_origin);
            let no_ip_flipped = spec_origin_attempts(explicit, Options { no_ip: !opts.no_ip, ..opts }, default_origin);
            &&& a.contains(AttemptView::Gps) <==> !opts.no_gps
            &&& a.contains(AttemptView::Ip) <==> !opts.no_ip
            &&& no_ip_flipped.contains(AttemptView::Gps) <==> !opts.no_gps
            &&& (!opts.no_gps ==> a[0] == AttemptView::Gps)
            &&& (!opts.no_ip && opts.no_gps ==> a[0] == AttemptView::Ip)
            &&& (!opts.no_ip && !opts.no_gps ==> a[1] == AttemptView::Ip)
            &&& a.len() == (if opts.no_gps { 0int } else { 1int }) + (if opts.no_ip { 0int } else { 1int })
                + (if default_origin is Some { 1int } else { 0int })
            &&& (default_origin matches Some(raw) ==> a.last() == AttemptView::Named {
                raw,
                source: Source::ConfigDefault,
            })
        },
{
    if explicit is None {
        let a = spec_origin_attempts(explicit, opts, default_origin);
        let b = spec_origin_attempts(explicit, Options { no_ip: !opts.no_ip, ..opts }, default_origin);
        if !opts.no_gps {
            assert(a[0] == AttemptView::Gps);
            assert(b[0] == AttemptView::Gps);
        }
        if !opts.no_ip {
            let k: int = if opts.no_gps { 0 } else { 1 };
            assert(a[k] == AttemptView::Ip);
        }
        assert(a.contains(AttemptView::Gps) ==> !opts.no_gps);
        assert(b.contains(AttemptView::Gps) ==> !opts.no_gps);
        assert(a.contains(AttemptView::Ip) ==> !opts.no_ip);
    }
}

/// The views of a list of attempts.
pub open spec fn attempt_views(v: Seq<Attempt>) -> Seq<AttemptView> {
    v.map_values(|a: Attempt| a@)
}

/// The order in which the origin is looked for; the first that answers wins.
pub fn origin_attempts(explicit: Option<&str>, opts: Options, default_origin: Option<&str>) -> (out:
    Vec<Attempt>)
    ensures
        attempt_views(out@) == spec_origin_attempts(
            crate::render::opt_view(explicit),
            opts,
            crate::render::opt_view(default_origin),
        ),
{
    let mut out: Vec<Attempt> = Vec::new();
    match explicit {
        Some(raw) => {
            out.push(Attempt::Named { raw: String::from_str(raw), source: Source::Explicit });
        },
        None => {
            if !opts.no_gps {
                out.push(Attempt::Gps);
            }
            if !opts.no_ip {
                out.push(Attempt::Ip);
            }
            match default_origin {
                Some(raw) => {
                    out.push(Attempt::Named { raw: String::from_str(raw), source: Source::ConfigDefault });
                },
                None => {},
            }
        },
    }
    assert(attempt_views(out@) =~= spec_origin_attempts(
        crate::render::opt_view(explicit),
        opts,
        crate::render::opt_view(default_origin),
    ));
    out
}

/// The message when every source has failed.
pub fn no_origin_message() -> (out: &'static str)
    ensures
        out@ == "fant ikke posisjonen din.\nPrøv `--from \"<adresse>\"`, eller lagre et sted med `ruter config add hjem \"<adresse>\"` og sett `default_origin`."@,
{
    "fant ikke posisjonen din.\nPrøv `--from \"<adresse>\"`, eller lagre et sted med `ruter config add hjem \"<adresse>\"` og sett `default_origin`."
}

/// The source credited when a name turns out to be a saved place: an explicit
/// `--from` becomes "saved place", anything else keeps its own source.
pub fn saved_place_source(requested: Source) -> (out: Source)
    ensures
        out == if requested == Source::Explicit {
            Source::SavedPlace
        } else {
            requested
        },
{
    if requested == Source::Explicit {
        Source::SavedPlace
    } else {
        requested
    }
}

/// What the `CLError` codes a user can act on mean.
pub open spec fn spec_cl_error_text(code: i64) -> Seq<char> {
    if code == 0 {
        "fant ingen posisjon (kCLErrorLocationUnknown). Vanlig innendørs, uten Wi-Fi, eller rett etter oppstart"@
    } else if code == 1 {
        "tilgang avslått (kCLErrorDenied)"@
    } else if code == 2 {
        "nettverksfeil (kCLErrorNetwork)"@
    } else {
        "Core Location-feil "@ + int_dec(code as int)
    }
}

/// Translate the `CLError` codes a user can actually act on.
pub fn cl_error_text(code: i64) -> (out: String)
    ensures
        out@ == spec_cl_error_text(code),
{
    if code == 0 {
        String::from_str(
            "fant ingen posisjon (kCLErrorLocationUnknown). Vanlig innendørs, uten Wi-Fi, eller rett etter oppstart",
        )
    } else if code == 1 {
        String::from_str("tilgang avslått (kCLErrorDenied)")
    } else if code == 2 {
        String::from_str("nettverksfeil (kCLErrorNetwork)")
    } else {
        let mut out = String::from_str("Core Location-feil ");
        push_i64(&mut out, code);
        out
    }
}

/// How to get a Location Services grant: macOS will not prompt for a process
/// it cannot name, which the app-bundle install fixes.
pub fn permission_hint() -> (out: &'static str)
    ensures
        out@ == "kjør `scripts/install-macos.sh` for å installere ruter som app-bundle, som er det som gir den egen tilgang til stedstjenester. Se så etter «ruter» under Systeminnstillinger > Personvern og sikkerhet > Stedstjenester. Bruk `--no-gps` for å hoppe over GPS."@,
{
    "kjør `scripts/install-macos.sh` for å installere ruter som app-bundle, som er det som gir den egen tilgang til stedstjenester. Se så etter «ruter» under Systeminnstillinger > Personvern og sikkerhet > Stedstjenester. Bruk `--no-gps` for å hoppe over GPS."
}

/// Location Services state on a platform without Core Location.
pub fn gps_diagnostics() -> (out: Vec<(String, String)>)
    ensures
        out.len() == 1,
        out@[0].0@ == "Stedstjenester"@,
        out@[0].1@ == "støttes bare på macOS"@,
{
    let mut out: Vec<(String, String)> = Vec::new();
    out.push((String::from_str("Stedstjenester"), String::from_str("støttes bare på macOS")));
    out
}

/// What an authorization status means for ruter, for the five statuses Core
/// Location defines (not determined, restricted, denied, always, when in use).
pub open spec fn spec_auth_status_text(status: i32) -> Option<Seq<char>> {
    if status == 0 {
        Some("ikke avgjort — macOS har ikke spurt ennå"@)
    } else if status == 1 {
        Some("begrenset av systemet"@)
    } else if status == 2 {
        Some("avslått"@)
    } else if status == 3 {
        Some("innvilget (alltid)"@)
    } else if status == 4 {
        Some("innvilget (ved bruk)"@)
    } else {
        None
    }
}

/// The row pairs of the Core Location report, by view.
pub open spec fn row_views(rows: Seq<(String, String)>) -> Seq<(Seq<char>, Seq<char>)> {
    rows.map_values(|r: (String, String)| (r.0@, r.1@))
}

/// The Core Location report: an unknown status on its own; otherwise whether
/// location services are on machine-wide, the status, whether ruter runs as
/// an app bundle, how the last attempt ended if there was one, and a note
/// when macOS asked for permission during this run.
pub open spec fn spec_core_location_rows(
    status: i32,
    services_on: bool,
    bundled: bool,
    last_attempt: Option<Seq<char>>,
    prompted: bool,
) -> Seq<(Seq<char>, Seq<char>)> {
    match spec_auth_status_text(status) {
        None => seq![("Stedstjenester"@, "ukjent status "@ + int_dec(status as int))],
        Some(text) => {
            let base = seq![
                (
                    "Stedstjenester på maskinen"@,
                    if services_on {
                        "på"@
                    } else {
                        "AV — slå på under Systeminnstillinger > Personvern og sikkerhet > Stedstjenester. Ingenting annet her hjelper før den står på"@
                    },
                ),
                ("Tilgang for ruter"@, text),
                (
                    "Kjører som app-bundle"@,
                    if bundled {
                        "ja"@
                    } else {
                        "nei — kjør scripts/install-macos.sh, ellers spør ikke macOS om tilgang"@
                    },
                ),
            ];
            let with_attempt = match last_attempt {
                Some(a) => base.push(("Siste GPS-forsøk"@, a)),
                None => base,
            };
            if prompted {
                with_attempt.push(
                    (
                        "Merk"@,
                        "macOS spurte om tilgang under dette forsøket. Er den nå innvilget, finner neste kjøring posisjonen uten å spørre."@,
                    ),
                )
            } else {
                with_attempt
            }
        },
    }
}

/// A pair of owned strings.
fn row(key: &str, value: &str) -> (out: (String, String))
    ensures
        out.0@ == key@,
        out.1@ == value@,
{
    (String::from_str(key), String::from_str(value))
}

/// Human-readable Core Location state, for `ruter where`, from what was
/// observed: the authorization status, whether location services are on,
/// whether ruter runs from an app bundle, the last attempt, and whether macOS
/// prompted during it.
pub fn core_location_rows(
    status: i32,
    services_on: bool,
    bundled: bool,
    last_attempt: Option<&str>,
    prompted: bool,
) -> (out: Vec<(String, String)>)
    ensures
        row_views(out@) == spec_core_location_rows(
            status,
            services_on,
            bundled,
            crate::render::opt_view(last_attempt),
            prompted,
        ),
{
    let mut out: Vec<(String, String)> = Vec::new();
    let text: &str = if status == 0 {
        "ikke avgjort — macOS har ikke spurt ennå"
    } else if status == 1 {
        "begrenset av systemet"
    } else if status == 2 {
        "avslått"
    } else if status == 3 {
        "innvilget (alltid)"
    } else if status == 4 {
        "innvilget (ved bruk)"
    } else {
        let mut v = String::from_str("ukjent status ");
        push_i64(&mut v, status as i64);
        out.push((String::from_str("Stedstjenester"), v));
        assert(row_views(out@) =~= spec_core_location_rows(
            status,
            services_on,
            bundled,
            crate::render::opt_view(last_attempt),
            prompted,
        ));
        return out;
    };
    out.push(
        row(
            "Stedstjenester på maskinen",
            if services_on {
                "på"
            } else {
                "AV — slå på under Systeminnstillinger > Personvern og sikkerhet > Stedstjenester. Ingenting annet her hjelper før den står på"
            },
        ),
    );
    out.push(row("Tilgang for ruter", text));
    out.push(
        row(
            "Kjører som app-bundle",
            if bundled {
                "ja"
            } else {
                "nei — kjør scripts/install-macos.sh, ellers spør ikke macOS om tilgang"
            },
        ),
    );
    match last_attempt {
        Some(a) => out.push(row("Siste GPS-forsøk", a)),
        None => {},
    }
    if prompted {
        out.push(
            row(
                "Merk",
                "macOS spurte om tilgang under dette forsøket. Er den nå innvilget, finner neste kjøring posisjonen uten å spørre.",
            ),
        );
    }
    assert(row_views(out@) =~= spec_core_location_rows(
        status,
        services_on,
        bundled,
        crate::render::opt_view(last_attempt),
        prompted,
    ));
    out
}

} // verus!

verus! {

/// How a GPS attempt ends: a fix; no fix within the time allowed, which is
/// no position rather than a failure; or a failure with the message to show.
/// Each with a sentence on how it went for `ruter where`.
#[derive(Clone, Debug)]
pub enum GpsEnd {
    Fix { note: String },
    NoFix { note: String },
    Failed { note: String, error: String },
}

/// What a GPS outcome says, by view.
pub enum GpsEndView {
    Fix { note: Seq<char> },
    NoFix { note: Seq<char> },
    Failed { note: Seq<char>, error: Seq<char> },
}

impl View for GpsEnd {
    type V = GpsEndView;

    open spec fn view(&self) -> GpsEndView {
        match self {
            GpsEnd::Fix { note } => GpsEndView::Fix { note: note@ },
            GpsEnd::NoFix { note } => GpsEndView::NoFix { note: note@ },
            GpsEnd::Failed { note, error } => GpsEndView::Failed { note: note@, error: error@ },
        }
    }
}

/// Core Location's "not determined" authorization status.
pub const AUTH_NOT_DETERMINED: i32 = 0;

/// Core Location's "restricted" authorization status.
pub const AUTH_RESTRICTED: i32 = 1;

/// Core Location's "denied" authorization status.
pub const AUTH_DENIED: i32 = 2;

/// The hint for a refused grant, as a view.
pub open spec fn permission_hint_text() -> Seq<char> {
    "kjør `scripts/install-macos.sh` for å installere ruter som app-bundle, som er det som gir den egen tilgang til stedstjenester. Se så etter «ruter» under Systeminnstillinger > Personvern og sikkerhet > Stedstjenester. Bruk `--no-gps` for å hoppe over GPS."@
}

/// Before asking anything: a grant already refused ends the attempt at once,
/// rather than making the user wait out the timeout on every run.
pub fn refused_up_front(status: i32) -> (out: Option<GpsEnd>)
    ensures
        (status == AUTH_DENIED || status == AUTH_RESTRICTED) <==> out is Some,
        out matches Some(e) ==> e@ == (GpsEndView::Failed {
            note: "tilgang til stedstjenester er avslått for ruter"@,
            error: permission_hint_text(),
        }),
{
    if status == AUTH_DENIED || status == AUTH_RESTRICTED {
        Some(
            GpsEnd::Failed {
                note: String::from_str("tilgang til stedstjenester er avslått for ruter"),
                error: String::from_str(permission_hint()),
            },
        )
    } else {
        None
    }
}

/// Whether macOS has yet to ask the user, so that the grant has to be
/// settled before a position is asked for.
pub fn must_ask_first(status: i32) -> (out: bool)
    ensures
        out == (status == AUTH_NOT_DETERMINED),
{
    status == AUTH_NOT_DETERMINED
}

/// After the permission dialog: refused, or never answered, ends the
/// attempt; any grant lets it go on.
pub fn refused_after_asking(status: i32) -> (out: Option<GpsEnd>)
    ensures
        (status == AUTH_DENIED || status == AUTH_RESTRICTED || status == AUTH_NOT_DETERMINED) <==> out is Some,
        (status == AUTH_DENIED || status == AUTH_RESTRICTED) ==> (out matches Some(e) && e@ == (GpsEndView::Failed {
            note: "du avslo tilgangsdialogen"@,
            error: permission_hint_text(),
        })),
        status == AUTH_NOT_DETERMINED ==> (out matches Some(e) && e@ == (GpsEndView::Failed {
            note: "tilgangsdialogen ble ikke besvart"@,
            error: "ingen svar på tilgangsdialogen. Kjør kommandoen på nytt, eller bruk `--no-gps`."@,
        })),
{
    if status == AUTH_DENIED || status == AUTH_RESTRICTED {
        Some(
            GpsEnd::Failed {
                note: String::from_str("du avslo tilgangsdialogen"),
                error: String::from_str(permission_hint()),
            },
        )
    } else if status == AUTH_NOT_DETERMINED {
        Some(
            GpsEnd::Failed {
                note: String::from_str("tilgangsdialogen ble ikke besvart"),
                error: String::from_str(
                    "ingen svar på tilgangsdialogen. Kjør kommandoen på nytt, eller bruk `--no-gps`.",
                ),
            },
        )
    } else {
        None
    }
}

/// The `CLError` code of a refused grant: the one failure not worth waiting out.
pub const CL_ERROR_DENIED: i64 = 1;

/// How long to wait for a fix, in milliseconds.
pub const FIX_TIMEOUT_MS: u64 = 10000;

/// How long to leave the permission dialog open, in milliseconds.
pub const PROMPT_TIMEOUT_MS: u64 = 60000;

/// Whether to keep waiting for a fix, `elapsed_ms` into the wait: not past
/// the timeout, nor once one has arrived, the system's cached one is at hand,
/// or Core Location has said access is denied. A "location unknown" error is
/// not final, per Apple's guidance.
pub fn keep_waiting(elapsed_ms: u64, fix_arrived: bool, cached_fix: bool, fail_code: i64) -> (out: bool)
    ensures
        out == (elapsed_ms < FIX_TIMEOUT_MS && !(fix_arrived || cached_fix || fail_code == CL_ERROR_DENIED)),
{
    elapsed_ms < FIX_TIMEOUT_MS && !(fix_arrived || cached_fix || fail_code == CL_ERROR_DENIED)
}

/// Whether to keep the permission dialog open, `elapsed_ms` after asking:
/// while it is unanswered and the timeout has not passed.
pub fn keep_asking(elapsed_ms: u64, status: i32) -> (out: bool)
    ensures
        out == (elapsed_ms < PROMPT_TIMEOUT_MS && status == AUTH_NOT_DETERMINED),
{
    elapsed_ms < PROMPT_TIMEOUT_MS && must_ask_first(status)
}

/// How the wait for a fix ended: with a fix, fresh or from the system's
/// cache; with the error Core Location reported (`i64::MIN` meaning none);
/// or with no fix within `timeout_secs` seconds, which is no position rather
/// than a failure.
pub open spec fn spec_wait_outcome(found: Option<bool>, fail_code: i64, timeout_secs: u64) -> GpsEndView {
    match found {
        Some(from_cache) => GpsEndView::Fix {
            note: if from_cache {
                "fikk posisjon fra systemets mellomlagrede måling"@
            } else {
                "fikk posisjon fra Core Location"@
            },
        },
        None => if fail_code != i64::MIN {
            GpsEndView::Failed {
                note: spec_cl_error_text(fail_code),
                error: spec_cl_error_text(fail_code) + ". Bruk `--no-gps` for å hoppe over GPS."@,
            }
        } else {
            GpsEndView::NoFix {
                note: "tidsavbrudd etter "@ + crate::text::dec(timeout_secs as nat)
                    + " sekunder uten svar fra Core Location"@,
            }
        },
    }
}

/// How the wait for a fix ended.
pub fn wait_outcome(found: Option<bool>, fail_code: i64, timeout_secs: u64) -> (out: GpsEnd)
    ensures
        out@ == spec_wait_outcome(found, fail_code, timeout_secs),
{
    match found {
        Some(from_cache) => GpsEnd::Fix {
            note: if from_cache {
                String::from_str("fikk posisjon fra systemets mellomlagrede måling")
            } else {
                String::from_str("fikk posisjon fra Core Location")
            },
        },
        None => if fail_code != i64::MIN {
            let text = cl_error_text(fail_code);
            let mut error = text.clone();
            error.append(". Bruk `--no-gps` for å hoppe over GPS.");
            GpsEnd::Failed { note: text, error }
        } else {
            let mut note = String::from_str("tidsavbrudd etter ");
            crate::text::push_u64(&mut note, timeout_secs);
            note.append(" sekunder uten svar fra Core Location");
            GpsEnd::NoFix { note }
        },
    }
}

/// A saved place as the origin it names, credited to the source asked for
/// (an explicit `--from` naming a saved place counts as the saved place).
pub fn saved_origin(place: &crate::config::Place, requested: Source) -> (out: Origin)
    ensures
        out.coord == (Coord { lat_bits: place.lat_bits, lon_bits: place.lon_bits }),
        out.name@ == place.label@,
        out.source == if requested == Source::Explicit {
            Source::SavedPlace
        } else {
            requested
        },
{
    Origin {
        coord: Coord { lat_bits: place.lat_bits, lon_bits: place.lon_bits },
        name: place.label.clone(),
        source: saved_place_source(requested),
    }
}

/// What a name given for the origin is, decided before anything is asked of
/// the network.
pub enum NamedStep {
    /// A saved place: the origin is known.
    Saved(Origin),
    /// A `lat,lon` pair: the position is known, its name is still to be found.
    Coordinates(Coord),
    /// Anything else is an address for the geocoder.
    Lookup,
}

/// Resolves a name in the order the user is promised: a saved place (matched
/// without regard to case) first, then a `lat,lon` pair, which the caller has
/// read into `parsed`, and otherwise a geocoder lookup.
pub fn named_step(config: &crate::config::Config, raw: &str, parsed: Option<Coord>, source: Source) -> (out:
    NamedStep)
    ensures
        match crate::config::spec_lookup(config.places@, raw@) {
            Some(i) => {
                let place = config.places@[i].1;
                &&& out matches NamedStep::Saved(o)
                &&& o.coord == (Coord { lat_bits: place.lat_bits, lon_bits: place.lon_bits })
                &&& o.name@ == place.label@
                &&& o.source == (if source == Source::Explicit {
                    Source::SavedPlace
                } else {
                    source
                })
            },
            None => match parsed {
                Some(c) => out == NamedStep::Coordinates(c),
                None => out == NamedStep::Lookup,
            },
        },
{
    match config.place(raw) {
        Some(place) => NamedStep::Saved(saved_origin(place, source)),
        None => match parsed {
            Some(c) => NamedStep::Coordinates(c),
            None => NamedStep::Lookup,
        },
    }
}

} // verus!
