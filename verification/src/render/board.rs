//! The one-shot boards printed to stdout.

use vstd::prelude::*;
use super::{
    delay_marker, duration_human, mode_label, pad, relative, relative_text, spec_badge,
    spec_delay_marker, spec_duration_human, spec_paint, Badge, BadgeView, Step, StepView, Style,
    CONNECTOR, POINT_STOP, RULE_WIDTH, leg_rows, leg_step, spec_timeline, spec_trip_summary, step_views,
};
use crate::text::{pad_right, push_char, push_padded, push_u64, dec, join, trim, trimmed, views};
use crate::entur::nearest::{EstimatedCall, NearbyStop, StopPlace};
use crate::entur::trip::{any_realtime, spec_is_transit, Leg, Situation, TripPattern};
use crate::time::{hhmm, spec_hhmm, spec_seconds_between, Time};
use crate::location::{spec_source_label, Origin, Source};

verus! {

/// Realtime marker: a filled circle.
pub const REALTIME: &'static str = "\u{25cf}";

/// Scheduled-only marker: a hollow circle.
pub const SCHEDULED: &'static str = "\u{25cb}";

/// `n` copies of `c`.
pub open spec fn repeat_char(c: char, n: nat) -> Seq<char> {
    Seq::new(n, |i: int| c)
}

/// Appends `n` copies of `c`.
fn push_repeat(s: &mut String, c: char, n: usize)
    ensures
        final(s)@ == old(s)@ + repeat_char(c, n as nat),
{
    let mut i: usize = 0;
    while i < n
        invariant
            i <= n,
            s@ == old(s)@ + repeat_char(c, i as nat),
        decreases n - i,
    {
        push_char(s, c);
        assert(repeat_char(c, (i + 1) as nat) =~= repeat_char(c, i as nat).push(c));
        i += 1;
    }
}

/// A full-width horizontal rule, doubled for the one under the header.
pub open spec fn spec_rule(colour: bool, heavy: bool) -> Seq<char> {
    let glyph = if heavy { '\u{2550}' } else { '\u{2500}' };
    "  "@ + spec_paint(colour, repeat_char(glyph, RULE_WIDTH as nat), "2"@) + "\n"@
}

/// A full-width horizontal rule.
pub fn rule(s: Style, heavy: bool) -> (out: String)
    ensures
        out@ == spec_rule(s.colour, heavy),
{
    let glyph = if heavy { '\u{2550}' } else { '\u{2500}' };
    let mut line = String::new();
    push_repeat(&mut line, glyph, RULE_WIDTH);
    let mut out = String::from_str("  ");
    let painted = s.dim(line.as_str());
    out.append(painted.as_str());
    out.append("\n");
    assert(out@ =~= spec_rule(s.colour, heavy));
    out
}

/// The key to the markers: realtime, scheduled and delay, each word dimmed
/// and each marker in its own colour.
pub open spec fn spec_legend(colour: bool) -> Seq<char> {
    "  "@ + spec_paint(colour, REALTIME@, "32"@) + " "@ + spec_paint(colour, "sanntid"@, "2"@) + "   "@
        + spec_paint(colour, SCHEDULED@, "2"@) + " "@ + spec_paint(colour, "rutetid"@, "2"@) + "   "@
        + spec_paint(colour, "+2"@, "33"@) + " "@ + spec_paint(colour, "min forsinket"@, "2"@) + "\n"@
}

/// The markers are the only part of a board that has to be learned rather
/// than read, so both boards spell them out.
pub fn legend(s: Style) -> (out: String)
    ensures
        out@ == spec_legend(s.colour),
{
    let mut out = String::from_str("  ");
    out.append(s.green(REALTIME).as_str());
    out.append(" ");
    out.append(s.dim("sanntid").as_str());
    out.append("   ");
    out.append(s.dim(SCHEDULED).as_str());
    out.append(" ");
    out.append(s.dim("rutetid").as_str());
    out.append("   ");
    out.append(s.yellow("+2").as_str());
    out.append(" ");
    out.append(s.dim("min forsinket").as_str());
    out.append("\n");
    assert(out@ =~= spec_legend(s.colour));
    out
}

/// The header of both boards: origin and destination with the clock, a
/// warning when the position may be kilometres off, and a heavy rule.
pub open spec fn spec_header(origin_name: Seq<char>, source: Source, destination: Seq<char>, now: Time, colour: bool) -> Seq<
    char,
> {
    let title = origin_name + "  \u{2192}  "@ + destination;
    let top = "\n  "@ + spec_paint(colour, pad_right(title, (RULE_WIDTH - 5) as nat), "1"@) + spec_paint(
        colour,
        spec_hhmm(now),
        "2"@,
    ) + "\n"@;
    let warning = if source == Source::Ip {
        "  "@ + spec_paint(
            colour,
            "\u{26a0} posisjon fra "@ + spec_source_label(source) + " \u{2014} kan bomme med flere kilometer"@,
            "33"@,
        ) + "\n"@
    } else {
        Seq::empty()
    };
    top + warning + spec_rule(colour, true)
}

/// Header shown above both boards.
pub fn header(origin: &Origin, destination: &str, now: &Time, s: Style) -> (out: String)
    requires
        now.wf(),
    ensures
        out@ == spec_header(origin.name@, origin.source, destination@, *now, s.colour),
{
    let mut title = origin.name.clone();
    title.append("  \u{2192}  ");
    title.append(destination);
    let mut out = String::from_str("\n  ");
    let padded = pad(title.as_str(), RULE_WIDTH - 5);
    out.append(s.bold(padded.as_str()).as_str());
    let clock = hhmm(now);
    out.append(s.dim(clock.as_str()).as_str());
    out.append("\n");
    let ghost top = out@;
    if origin.source.is_coarse() {
        let mut w = String::from_str("\u{26a0} posisjon fra ");
        w.append(origin.source.label());
        w.append(" \u{2014} kan bomme med flere kilometer");
        out.append("  ");
        out.append(s.yellow(w.as_str()).as_str());
        out.append("\n");
    }
    out.append(rule(s, true).as_str());
    assert(out@ =~= spec_header(origin.name@, origin.source, destination@, *now, s.colour));
    out
}

} // verus!

verus! {

/// The realtime marker for a live or a scheduled time.
pub open spec fn spec_realtime_marker(realtime: bool, colour: bool) -> Seq<char> {
    if realtime {
        spec_paint(colour, REALTIME@, "32"@)
    } else {
        spec_paint(colour, SCHEDULED@, "2"@)
    }
}

/// The realtime marker.
fn realtime_marker(realtime: bool, s: Style) -> (out: String)
    ensures
        out@ == spec_realtime_marker(realtime, s.colour),
{
    if realtime {
        s.green(REALTIME)
    } else {
        s.dim(SCHEDULED)
    }
}

/// A row the boards can draw: its time is in range and a walk's duration can
/// be rounded to minutes.
pub open spec fn step_wf(st: StepView) -> bool {
    match st {
        StepView::Point { time, .. } => time.wf(),
        StepView::Walk { seconds, .. } => seconds <= i64::MAX - 30,
    }
}

/// One row of the timeline. The time column is the spine: every row starts
/// with either a time or the connector that stands in for one.
pub open spec fn spec_step_line(st: StepView, colour: bool) -> Seq<char> {
    match st {
        StepView::Walk { mode, seconds } => "        "@ + spec_paint(colour, CONNECTOR@, "2"@) + "    "@
            + spec_paint(colour, mode + " "@ + spec_duration_human(seconds as int), "2"@) + "\n"@,
        StepView::Point { time, place, ride } => match ride {
            None => "      "@ + spec_hhmm(time) + "     "@ + place + "\n"@,
            Some(r) => "      "@ + spec_hhmm(time) + " "@ + spec_delay_marker(r.delay_minutes as int, colour)
                + " "@ + pad_right(place, POINT_STOP as nat) + " "@ + spec_realtime_marker(r.realtime, colour)
                + " "@ + spec_badge(colour, r.badge.text, r.badge.bg, r.badge.fg) + " "@ + pad_right(r.mode, 6)
                + " "@ + spec_paint(colour, "\u{2192} "@ + r.to, "2"@) + "\n"@,
        },
    }
}

/// One row of the timeline, ready to print.
pub fn step_line(step: &Step, s: Style) -> (out: String)
    requires
        step_wf(step@),
    ensures
        out@ == spec_step_line(step@, s.colour),
{
    let mut out = String::new();
    match step {
        Step::Walk { mode, seconds } => {
            out.append("        ");
            out.append(s.dim(CONNECTOR).as_str());
            out.append("    ");
            let mut w = mode.clone();
            w.append(" ");
            w.append(duration_human(*seconds).as_str());
            out.append(s.dim(w.as_str()).as_str());
            out.append("\n");
        },
        Step::Point { time, place, ride } => match ride {
            None => {
                out.append("      ");
                out.append(hhmm(time).as_str());
                out.append("     ");
                out.append(place.as_str());
                out.append("\n");
            },
            Some(r) => {
                out.append("      ");
                out.append(hhmm(time).as_str());
                out.append(" ");
                out.append(delay_marker(r.delay_minutes, s).as_str());
                out.append(" ");
                push_padded(&mut out, place.as_str(), POINT_STOP);
                out.append(" ");
                out.append(realtime_marker(r.realtime, s).as_str());
                out.append(" ");
                out.append(s.badge(r.badge.text.as_str(), r.badge.bg, r.badge.fg).as_str());
                out.append(" ");
                push_padded(&mut out, r.mode.as_str(), 6);
                out.append(" ");
                let mut to = String::from_str("\u{2192} ");
                to.append(r.to.as_str());
                out.append(s.dim(to.as_str()).as_str());
                out.append("\n");
            },
        },
    }
    assert(out@ =~= spec_step_line(step@, s.colour));
    out
}

/// The signposted platform of a departure: `spor E`, or nothing.
pub open spec fn call_platform(call: crate::entur::nearest::EstimatedCall) -> Seq<char> {
    match call.quay {
        Some(q) => match q.public_code {
            Some(c) => if c@.len() > 0 {
                "spor "@ + c@
            } else {
                Seq::empty()
            },
            None => Seq::empty(),
        },
        None => Seq::empty(),
    }
}

/// The start of a departure row: badge, destination and platform.
pub open spec fn departure_lead(call: crate::entur::nearest::EstimatedCall, colour: bool) -> Seq<char> {
    let b = super::spec_call_badge(call);
    "      "@ + spec_badge(colour, b.text, b.bg, b.fg) + " "@ + pad_right(
        crate::entur::nearest::spec_destination(call),
        26,
    ) + " "@ + spec_paint(colour, pad_right(call_platform(call), 8), "2"@) + " "@
}

/// In a timeline row where something is boarded, the time, delay and stop
/// are followed by `●` (green) when the ride carries live data and by `○`
/// (dim) when it does not.
pub proof fn law_ride_rows_tell_live_from_scheduled(
    time: Time,
    place: Seq<char>,
    r: super::RideView,
    colour: bool,
)
    ensures
        ({
            let line = spec_step_line(StepView::Point { time, place, ride: Some(r) }, colour);
            let start = "      "@ + spec_hhmm(time) + " "@ + spec_delay_marker(r.delay_minutes as int, colour)
                + " "@ + pad_right(place, POINT_STOP as nat) + " "@ + (if r.realtime {
                spec_paint(colour, seq!['\u{25cf}'], "32"@)
            } else {
                spec_paint(colour, seq!['\u{25cb}'], "2"@)
            });
            start.len() <= line.len() && line.subrange(0, start.len() as int) == start
        }),
{
    reveal_strlit("\u{25cf}");
    reveal_strlit("\u{25cb}");
    assert(REALTIME@ =~= seq!['\u{25cf}']);
    assert(SCHEDULED@ =~= seq!['\u{25cb}']);
    let line = spec_step_line(StepView::Point { time, place, ride: Some(r) }, colour);
    let head = "      "@ + spec_hhmm(time) + " "@ + spec_delay_marker(r.delay_minutes as int, colour) + " "@
        + pad_right(place, POINT_STOP as nat) + " "@ + spec_realtime_marker(r.realtime, colour);
    let rest = line.subrange(head.len() as int, line.len() as int);
    assert(line =~= head + rest);
    assert(line.subrange(0, head.len() as int) =~= head);
}

/// One departure row: badge, destination and platform; then `AVLYST` for a
/// cancelled departure, or the expected time, realtime marker, delay and
/// countdown.
pub open spec fn spec_departure_line(call: crate::entur::nearest::EstimatedCall, now: Time, colour: bool) -> Seq<
    char,
> {
    let lead = departure_lead(call, colour);
    if call.cancellation {
        lead + spec_paint(colour, "AVLYST"@, "31"@) + "\n"@
    } else {
        lead + spec_hhmm(call.expected_departure_time) + " "@ + spec_realtime_marker(call.realtime, colour) + " "@
            + spec_delay_marker(
            crate::time::trunc_div(
                spec_seconds_between(call.expected_departure_time, call.aimed_departure_time),
                60,
            ),
            colour,
        ) + " "@ + spec_paint(
            colour,
            relative_text(spec_seconds_between(call.expected_departure_time, now)),
            "2"@,
        ) + "\n"@
    }
}

/// In a near-board row of a departure that runs, the expected time is followed
/// by `●` (green) when the call carries live data and by `○` (dim) when it
/// does not; a cancelled departure shows `AVLYST` (red) and nothing after it,
/// whether or not it carries live data.
pub proof fn law_departure_marker_tells_live_from_scheduled(
    call: crate::entur::nearest::EstimatedCall,
    now: Time,
    colour: bool,
)
    ensures
        !call.cancellation ==> {
            let line = spec_departure_line(call, now, colour);
            let start = departure_lead(call, colour) + spec_hhmm(call.expected_departure_time) + " "@ + (
            if call.realtime {
                spec_paint(colour, seq!['\u{25cf}'], "32"@)
            } else {
                spec_paint(colour, seq!['\u{25cb}'], "2"@)
            }) + " "@;
            start.len() <= line.len() && line.subrange(0, start.len() as int) == start
        },
        call.cancellation ==> spec_departure_line(call, now, colour) == departure_lead(call, colour) + spec_paint(
            colour,
            "AVLYST"@,
            "31"@,
        ) + "\n"@,
        call.cancellation ==> spec_departure_line(
            crate::entur::nearest::EstimatedCall { realtime: !call.realtime, ..call },
            now,
            colour,
        ) == spec_departure_line(call, now, colour),
{
    reveal_strlit("\u{25cf}");
    reveal_strlit("\u{25cb}");
    assert(REALTIME@ =~= seq!['\u{25cf}']);
    assert(SCHEDULED@ =~= seq!['\u{25cb}']);
    if !call.cancellation {
        let line = spec_departure_line(call, now, colour);
        let head = departure_lead(call, colour) + spec_hhmm(call.expected_departure_time) + " "@
            + spec_realtime_marker(call.realtime, colour) + " "@;
        let rest = line.subrange(head.len() as int, line.len() as int);
        assert(line =~= head + rest);
        assert(line.subrange(0, head.len() as int) =~= head);
    }
}

/// One departure row of the near board.
pub fn departure_line(call: &crate::entur::nearest::EstimatedCall, now: &Time, s: Style) -> (out: String)
    requires
        call.wf(),
        now.wf(),
    ensures
        out@ == spec_departure_line(*call, *now, s.colour),
{
    let badge = Badge::for_call(call);
    let mut platform = String::new();
    match &call.quay {
        Some(q) => match &q.public_code {
            Some(c) => if crate::text::char_count(c.as_str()) > 0 {
                platform.append("spor ");
                platform.append(c.as_str());
            },
            None => {},
        },
        None => {},
    }
    let mut out = String::from_str("      ");
    out.append(s.badge(badge.text.as_str(), badge.bg, badge.fg).as_str());
    out.append(" ");
    push_padded(&mut out, call.destination(), 26);
    out.append(" ");
    out.append(s.dim(pad(platform.as_str(), 8).as_str()).as_str());
    out.append(" ");
    if call.cancellation {
        out.append(s.red("AVLYST").as_str());
        out.append("\n");
    } else {
        out.append(hhmm(&call.expected_departure_time).as_str());
        out.append(" ");
        out.append(realtime_marker(call.realtime, s).as_str());
        out.append(" ");
        out.append(delay_marker(call.delay_minutes(), s).as_str());
        out.append(" ");
        out.append(s.dim(relative(&call.expected_departure_time, now).as_str()).as_str());
        out.append("\n");
    }
    assert(platform@ =~= call_platform(*call));
    assert(out@ =~= spec_departure_line(*call, *now, s.colour));
    out
}

} // verus!

verus! {

/// The notice a situation contributes to the footnotes: its first summary,
/// trimmed, when that leaves any text.
pub open spec fn situation_note(s: Situation) -> Option<Seq<char>> {
    if s.summary@.len() > 0 && trim(s.summary@[0].value@).len() > 0 {
        Some(trim(s.summary@[0].value@))
    } else {
        None
    }
}

/// The notices of `sits`, in order.
pub open spec fn situation_notes(sits: Seq<Situation>) -> Seq<Seq<char>>
    decreases sits.len(),
{
    if sits.len() == 0 {
        Seq::empty()
    } else {
        let rest = situation_notes(sits.drop_last());
        match situation_note(sits.last()) {
            Some(t) => rest.push(t),
            None => rest,
        }
    }
}

/// The notices of every leg, leg by leg.
pub open spec fn leg_notes(legs: Seq<Leg>) -> Seq<Seq<char>>
    decreases legs.len(),
{
    if legs.len() == 0 {
        Seq::empty()
    } else {
        leg_notes(legs.drop_last()) + situation_notes(legs.last().situations@)
    }
}

/// `s` with every repeat of an earlier item left out.
pub open spec fn first_occurrences(s: Seq<Seq<char>>) -> Seq<Seq<char>>
    decreases s.len(),
{
    if s.len() == 0 {
        Seq::empty()
    } else {
        let rest = first_occurrences(s.drop_last());
        if rest.contains(s.last()) {
            rest
        } else {
            rest.push(s.last())
        }
    }
}

/// The distinct notices of one journey, in the order they first appear.
pub open spec fn pattern_notes(p: TripPattern) -> Seq<Seq<char>> {
    first_occurrences(leg_notes(p.legs@))
}

/// Every journey's distinct notices, journey after journey.
pub open spec fn all_notes(ps: Seq<TripPattern>) -> Seq<Seq<char>>
    decreases ps.len(),
{
    if ps.len() == 0 {
        Seq::empty()
    } else {
        all_notes(ps.drop_last()) + pattern_notes(ps.last())
    }
}

/// How many of the journeys carry the notice `t`.
pub open spec fn note_count(ps: Seq<TripPattern>, t: Seq<char>) -> nat
    decreases ps.len(),
{
    if ps.len() == 0 {
        0
    } else {
        note_count(ps.drop_last(), t) + if pattern_notes(ps.last()).contains(t) {
            1nat
        } else {
            0nat
        }
    }
}

/// Each distinct notice of the journeys, in first-seen order, with the
/// number of journeys it concerns.
pub open spec fn spec_footnotes(ps: Seq<TripPattern>) -> Seq<(Seq<char>, nat)> {
    let order = first_occurrences(all_notes(ps));
    Seq::new(order.len(), |i: int| (order[i], note_count(ps, order[i])))
}

/// The footnotes as text and count.
pub open spec fn footnote_views(v: Seq<(String, usize)>) -> Seq<(Seq<char>, nat)> {
    v.map_values(|e: (String, usize)| (e.0@, e.1 as nat))
}

/// Leaving out repeats keeps exactly the same items, each once.
pub proof fn lemma_first_occurrences(s: Seq<Seq<char>>)
    ensures
        forall|x: Seq<char>| #[trigger] first_occurrences(s).contains(x) <==> s.contains(x),
        first_occurrences(s).no_duplicates(),
    decreases s.len(),
{
    broadcast use vstd::seq_lib::lemma_seq_contains_after_push;
    if s.len() > 0 {
        let init = s.drop_last();
        lemma_first_occurrences(init);
        assert(s =~= init.push(s.last()));
        let rest = first_occurrences(init);
        if !rest.contains(s.last()) {
            assert forall|i: int, j: int|
                0 <= i < rest.push(s.last()).len() && 0 <= j < rest.push(s.last()).len() && i != j
                    implies rest.push(s.last())[i] != rest.push(s.last())[j] by {
                if i == rest.len() {
                    assert(rest[j] == rest.push(s.last())[j]);
                } else if j == rest.len() {
                    assert(rest[i] == rest.push(s.last())[i]);
                }
            }
        }
    }
}

/// The count of a notice is at most the number of journeys, and nothing for
/// a notice that no journey carries.
pub proof fn lemma_note_count(ps: Seq<TripPattern>, t: Seq<char>)
    ensures
        note_count(ps, t) <= ps.len(),
        !all_notes(ps).contains(t) ==> note_count(ps, t) == 0,
    decreases ps.len(),
{
    if ps.len() > 0 {
        let init = ps.drop_last();
        lemma_note_count(init, t);
        let a = all_notes(init);
        let b = pattern_notes(ps.last());
        if a.contains(t) {
            let i = choose|i: int| 0 <= i < a.len() && a[i] == t;
            assert((a + b)[i] == t);
        }
        if b.contains(t) {
            let i = choose|i: int| 0 <= i < b.len() && b[i] == t;
            assert((a + b)[a.len() + i] == t);
        }
    }
}

/// Where `t` stands in `v`, if anywhere.
fn position_of(v: &Vec<String>, t: &str) -> (out: Option<usize>)
    ensures
        match out {
            Some(i) => i < v.len() && v@[i as int]@ == t@,
            None => !views(v@).contains(t@),
        },
{
    let mut i: usize = 0;
    while i < v.len()
        invariant
            i <= v.len(),
            forall|k: int| 0 <= k < i ==> (#[trigger] v@[k])@ != t@,
        decreases v.len() - i,
    {
        if crate::text::str_eq(v[i].as_str(), t) {
            return Some(i);
        }
        i += 1;
    }
    proof {
        if views(v@).contains(t@) {
            let k = choose|k: int| 0 <= k < views(v@).len() && views(v@)[k] == t@;
            assert(v@[k]@ == t@);
        }
    }
    None
}

/// The distinct notices of one journey, in the order they first appear.
fn journey_notes(p: &TripPattern) -> (out: Vec<String>)
    ensures
        views(out@) == pattern_notes(*p),
{
    let mut out: Vec<String> = Vec::new();
    let mut i: usize = 0;
    while i < p.legs.len()
        invariant
            i <= p.legs.len(),
            views(out@) == first_occurrences(leg_notes(p.legs@.take(i as int))),
        decreases p.legs.len() - i,
    {
        let sits = &p.legs[i].situations;
        let ghost before = leg_notes(p.legs@.take(i as int));
        let mut j: usize = 0;
        assert(situation_notes(sits@.take(0)) =~= Seq::<Seq<char>>::empty());
        assert(before + situation_notes(sits@.take(0)) =~= before);
        while j < sits.len()
            invariant
                j <= sits.len(),
                views(out@) == first_occurrences(before + situation_notes(sits@.take(j as int))),
            decreases sits.len() - j,
        {
            let ghost raw = before + situation_notes(sits@.take(j as int));
            assert(sits@.take(j + 1).drop_last() =~= sits@.take(j as int));
            assert(sits@.take(j + 1).last() == sits@[j as int]);
            let sit = &sits[j];
            if sit.summary.len() > 0 {
                let t = trimmed(sit.summary[0].value.as_str());
                if crate::text::char_count(t.as_str()) > 0 {
                    assert(before + situation_notes(sits@.take(j + 1)) =~= raw.push(t@));
                    assert(raw.push(t@).drop_last() =~= raw);
                    match position_of(&out, t.as_str()) {
                        Some(k) => {
                            assert(views(out@)[k as int] == t@);
                        },
                        None => {
                            let ghost prev = out@;
                            out.push(t);
                            assert(views(out@) =~= views(prev).push(t@));
                        },
                    }
                } else {
                    assert(before + situation_notes(sits@.take(j + 1)) =~= raw);
                }
            } else {
                assert(before + situation_notes(sits@.take(j + 1)) =~= raw);
            }
            j += 1;
        }
        assert(sits@.take(sits.len() as int) =~= sits@);
        assert(p.legs@.take(i + 1).drop_last() =~= p.legs@.take(i as int));
        assert(p.legs@.take(i + 1).last() == p.legs@[i as int]);
        i += 1;
    }
    assert(p.legs@.take(p.legs.len() as int) =~= p.legs@);
    out
}

/// Situations repeat across every journey that touches the affected stop, so
/// each distinct notice becomes one footnote: in first-seen order, with the
/// number of journeys it concerns. A notice on several legs of one journey
/// still counts once.
pub fn situation_footnotes(patterns: &[TripPattern]) -> (out: Vec<(String, usize)>)
    ensures
        footnote_views(out@) == spec_footnotes(patterns@),
{
    let mut order: Vec<String> = Vec::new();
    let mut counts: Vec<usize> = Vec::new();
    let mut k: usize = 0;
    assert(all_notes(patterns@.take(0)) =~= Seq::<Seq<char>>::empty());
    while k < patterns.len()
        invariant
            k <= patterns.len(),
            order.len() == counts.len(),
            views(order@) == first_occurrences(all_notes(patterns@.take(k as int))),
            forall|i: int|
                0 <= i < counts.len() ==> #[trigger] counts@[i] == note_count(
                    patterns@.take(k as int),
                    order@[i]@,
                ),
        decreases patterns.len() - k,
    {
        let ghost done = patterns@.take(k as int);
        let ghost before = all_notes(done);
        let notes = journey_notes(&patterns[k]);
        proof {
            lemma_first_occurrences(leg_notes(patterns@[k as int].legs@));
        }
        let mut j: usize = 0;
        assert(before + views(notes@).take(0) =~= before);
        while j < notes.len()
            invariant
                k < patterns.len(),
                done == patterns@.take(k as int),
                before == all_notes(done),
                j <= notes.len(),
                order.len() == counts.len(),
                views(notes@) == pattern_notes(patterns@[k as int]),
                views(notes@).no_duplicates(),
                views(order@) == first_occurrences(before + views(notes@).take(j as int)),
                forall|i: int|
                    0 <= i < counts.len() ==> #[trigger] counts@[i] == note_count(done, order@[i]@)
                        + if views(notes@).take(j as int).contains(order@[i]@) {
                        1nat
                    } else {
                        0nat
                    },
            decreases notes.len() - j,
        {
            broadcast use vstd::seq_lib::lemma_seq_contains_after_push;
            let ghost raw = before + views(notes@).take(j as int);
            let ghost t = notes@[j as int]@;
            assert(views(notes@).take(j + 1) =~= views(notes@).take(j as int).push(t));
            assert(before + views(notes@).take(j + 1) =~= raw.push(t));
            assert(raw.push(t).drop_last() =~= raw);
            proof {
                lemma_first_occurrences(raw);
                lemma_note_count(done, t);
                assert(!views(notes@).take(j as int).contains(t)) by {
                    if views(notes@).take(j as int).contains(t) {
                        let q = choose|q: int| 0 <= q < j && views(notes@).take(j as int)[q] == t;
                        assert(views(notes@)[q] == views(notes@)[j as int]);
                    }
                }
            }
            match position_of(&order, notes[j].as_str()) {
                Some(idx) => {
                    assert(views(order@)[idx as int] == t);
                    assert(counts@[idx as int] == note_count(done, t));
                    let c = counts[idx] + 1;
                    let ghost prev = counts@;
                    counts.set(idx, c);
                    assert forall|i: int| 0 <= i < counts.len() implies #[trigger] counts@[i] == note_count(
                        done,
                        order@[i]@,
                    ) + if views(notes@).take(j + 1).contains(order@[i]@) {
                        1nat
                    } else {
                        0nat
                    } by {
                        if i != idx {
                            assert(views(order@)[i] == order@[i]@);
                            assert(views(order@)[i] != views(order@)[idx as int]);
                            assert(prev[i] == counts@[i]);
                        }
                    }
                },
                None => {
                    proof {
                        if before.contains(t) {
                            let q = choose|q: int| 0 <= q < before.len() && before[q] == t;
                            assert(raw[q] == t);
                        }
                    }
                    let ghost prev_order = order@;
                    let ghost prev_counts = counts@;
                    order.push(notes[j].clone());
                    counts.push(1);
                    assert(views(order@) =~= views(prev_order).push(t));
                    assert forall|i: int| 0 <= i < counts.len() implies #[trigger] counts@[i] == note_count(
                        done,
                        order@[i]@,
                    ) + if views(notes@).take(j + 1).contains(order@[i]@) {
                        1nat
                    } else {
                        0nat
                    } by {
                        if i < prev_counts.len() {
                            assert(prev_counts[i] == counts@[i]);
                            assert(prev_order[i] == order@[i]);
                            assert(views(prev_order)[i] == order@[i]@);
                        }
                    }
                },
            }
            j += 1;
        }
        proof {
            assert(views(notes@).take(notes.len() as int) =~= views(notes@));
            assert(patterns@.take(k + 1).drop_last() =~= done);
            assert(patterns@.take(k + 1).last() == patterns@[k as int]);
        }
        k += 1;
    }
    assert(patterns@.take(patterns.len() as int) =~= patterns@);
    let mut out: Vec<(String, usize)> = Vec::new();
    let mut i: usize = 0;
    while i < order.len()
        invariant
            i <= order.len(),
            order.len() == counts.len(),
            views(order@) == first_occurrences(all_notes(patterns@)),
            forall|q: int| 0 <= q < counts.len() ==> #[trigger] counts@[q] == note_count(patterns@, order@[q]@),
            footnote_views(out@) == spec_footnotes(patterns@).take(i as int),
        decreases order.len() - i,
    {
        let ghost prev = out@;
        let text = order[i].clone();
        assert(text@ == order@[i as int]@);
        out.push((text, counts[i]));
        assert(views(order@)[i as int] == order@[i as int]@);
        assert(footnote_views(out@) =~= footnote_views(prev).push((text@, counts@[i as int] as nat)));
        assert(footnote_views(out@) =~= spec_footnotes(patterns@).take(i + 1));
        i += 1;
    }
    assert(spec_footnotes(patterns@).take(order.len() as int) =~= spec_footnotes(patterns@));
    out
}

} // verus!

verus! {

/// Each timeline row is drawable when the journey is in range.
pub proof fn lemma_timeline_drawable(p: TripPattern, origin: Seq<char>, destination: Seq<char>)
    requires
        p.wf(),
    ensures
        forall|i: int|
            0 <= i < spec_timeline(p, origin, destination).len() ==> step_wf(
                #[trigger] spec_timeline(p, origin, destination)[i],
            ),
{
    lemma_leg_rows(p.legs@, origin, destination);
    let legs = p.legs@;
    let rows = leg_rows(legs, origin, destination);
    let t = spec_timeline(p, origin, destination);
    let off: int = if legs.len() > 0 && !spec_is_transit(legs[0]) {
        1
    } else {
        0
    };
    assert forall|i: int| 0 <= i < t.len() implies step_wf(#[trigger] t[i]) by {
        if off <= i < off + rows.len() {
            assert(t[i] == rows[i - off]);
            assert(legs[i - off].wf());
        }
    }
}

/// The rows of the legs, one per leg and in order.
pub proof fn lemma_leg_rows(legs: Seq<Leg>, origin: Seq<char>, destination: Seq<char>)
    ensures
        leg_rows(legs, origin, destination).len() == legs.len(),
        forall|i: int|
            0 <= i < legs.len() ==> #[trigger] leg_rows(legs, origin, destination)[i] == leg_step(
                legs[i],
                origin,
                destination,
            ),
    decreases legs.len(),
{
    if legs.len() > 0 {
        lemma_leg_rows(legs.drop_last(), origin, destination);
        assert forall|i: int| 0 <= i < legs.len() implies #[trigger] leg_rows(legs, origin, destination)[i]
            == leg_step(legs[i], origin, destination) by {
            if i < legs.len() - 1 {
                assert(leg_rows(legs.drop_last(), origin, destination)[i] == leg_step(
                    legs.drop_last()[i],
                    origin,
                    destination,
                ));
            }
        }
    }
}

/// Rows drawn one after another.
pub open spec fn step_lines(steps: Seq<StepView>, colour: bool) -> Seq<char>
    decreases steps.len(),
{
    if steps.len() == 0 {
        Seq::empty()
    } else {
        step_lines(steps.drop_last(), colour) + spec_step_line(steps.last(), colour)
    }
}

/// A journey's headline: realtime marker, countdown, departure and arrival,
/// duration, and the changes-and-walking summary.
pub open spec fn summary_row(p: TripPattern, now: Time, colour: bool) -> Seq<char> {
    "  "@ + spec_realtime_marker(any_realtime(p.legs@), colour) + " "@ + spec_paint(
        colour,
        pad_right(relative_text(spec_seconds_between(p.expected_start_time, now)), 12),
        "1"@,
    ) + " "@ + spec_hhmm(p.expected_start_time) + " \u{2192} "@ + spec_hhmm(p.expected_end_time) + "   "@
        + pad_right(spec_duration_human(p.duration as int), 7) + spec_paint(
        colour,
        "\u{00b7} "@ + spec_trip_summary(p),
        "2"@,
    ) + "\n"@
}

/// One journey: its headline and its timeline.
#[verifier::opaque]
pub open spec fn journey_block(
    p: TripPattern,
    origin: Seq<char>,
    destination: Seq<char>,
    now: Time,
    colour: bool,
) -> Seq<char> {
    summary_row(p, now, colour) + step_lines(spec_timeline(p, origin, destination), colour)
}

/// The journeys, a light rule between each two.
pub open spec fn journey_blocks(
    ps: Seq<TripPattern>,
    origin: Seq<char>,
    destination: Seq<char>,
    now: Time,
    colour: bool,
) -> Seq<char>
    decreases ps.len(),
{
    if ps.len() == 0 {
        Seq::empty()
    } else {
        journey_blocks(ps.drop_last(), origin, destination, now, colour) + (if ps.len() > 1 {
            spec_rule(colour, false)
        } else {
            Seq::empty()
        }) + journey_block(ps.last(), origin, destination, now, colour)
    }
}

/// One footnote: the notice, and how many journeys it concerns when more
/// than one.
pub open spec fn footnote_line(text: Seq<char>, count: nat, colour: bool) -> Seq<char> {
    let suffix = if count > 1 {
        " ("@ + dec(count) + " reiser)"@
    } else {
        Seq::empty()
    };
    "  "@ + spec_paint(colour, "\u{26a0} "@ + text + suffix, "33"@) + "\n"@
}

/// The footnotes, one line each.
pub open spec fn footnote_lines(notes: Seq<(Seq<char>, nat)>, colour: bool) -> Seq<char>
    decreases notes.len(),
{
    if notes.len() == 0 {
        Seq::empty()
    } else {
        footnote_lines(notes.drop_last(), colour) + footnote_line(notes.last().0, notes.last().1, colour)
    }
}

/// The foot of both boards: the legend and where the position came from.
pub open spec fn board_footer(source: Source, colour: bool) -> Seq<char> {
    "\n"@ + spec_legend(colour) + "  "@ + spec_paint(
        colour,
        "posisjon: "@ + spec_source_label(source) + " \u{00b7} sanntid fra Entur"@,
        "2"@,
    ) + "\n\n"@
}

/// The trip board: the header, then each journey with its timeline, the
/// footnotes of the situations, and the legend; or a short message when no
/// journey was found.
pub open spec fn spec_trip_board(
    ps: Seq<TripPattern>,
    origin_name: Seq<char>,
    source: Source,
    destination: Seq<char>,
    now: Time,
    colour: bool,
) -> Seq<char> {
    let head = spec_header(origin_name, source, destination, now, colour);
    if ps.len() == 0 {
        head + "\n  "@ + spec_paint(colour, "Fant ingen reiser."@, "2"@) + "\n\n"@
    } else {
        head + journey_blocks(ps, origin_name, destination, now, colour) + spec_rule(colour, false)
            + footnote_lines(spec_footnotes(ps), colour) + board_footer(source, colour)
    }
}

/// Appends the rows of a timeline.
fn push_step_lines(out: &mut String, steps: &Vec<Step>, s: Style)
    requires
        forall|i: int| 0 <= i < steps.len() ==> step_wf(#[trigger] step_views(steps@)[i]),
    ensures
        final(out)@ == old(out)@ + step_lines(step_views(steps@), s.colour),
{
    let mut i: usize = 0;
    assert(step_views(steps@).take(0) =~= Seq::<StepView>::empty());
    while i < steps.len()
        invariant
            i <= steps.len(),
            forall|k: int| 0 <= k < steps.len() ==> step_wf(#[trigger] step_views(steps@)[k]),
            out@ == old(out)@ + step_lines(step_views(steps@).take(i as int), s.colour),
        decreases steps.len() - i,
    {
        assert(step_views(steps@)[i as int] == steps@[i as int]@);
        out.append(step_line(&steps[i], s).as_str());
        assert(step_views(steps@).take(i + 1).drop_last() =~= step_views(steps@).take(i as int));
        i += 1;
    }
    assert(step_views(steps@).take(steps.len() as int) =~= step_views(steps@));
}

/// One footnote line, ready to print.
fn footnote_text(text: &String, count: usize, s: Style) -> (out: String)
    ensures
        out@ == footnote_line(text@, count as nat, s.colour),
{
    let mut w = String::from_str("\u{26a0} ");
    w.append(text.as_str());
    if count > 1 {
        w.append(" (");
        push_u64(&mut w, count as u64);
        w.append(" reiser)");
    }
    let mut out = String::from_str("  ");
    out.append(s.yellow(w.as_str()).as_str());
    out.append("\n");
    out
}

/// Appends the footnote lines.
fn push_footnotes(out: &mut String, notes: &Vec<(String, usize)>, s: Style)
    ensures
        final(out)@ == old(out)@ + footnote_lines(footnote_views(notes@), s.colour),
{
    let mut i: usize = 0;
    assert(footnote_views(notes@).take(0) =~= Seq::<(Seq<char>, nat)>::empty());
    while i < notes.len()
        invariant
            i <= notes.len(),
            out@ == old(out)@ + footnote_lines(footnote_views(notes@).take(i as int), s.colour),
        decreases notes.len() - i,
    {
        let line = footnote_text(&notes[i].0, notes[i].1, s);
        out.append(line.as_str());
        assert(footnote_views(notes@).take(i + 1).drop_last() =~= footnote_views(notes@).take(i as int));
        assert(footnote_views(notes@)[i as int] == (notes@[i as int].0@, notes@[i as int].1 as nat));
        i += 1;
    }
    assert(footnote_views(notes@).take(notes.len() as int) =~= footnote_views(notes@));
}

/// Appends the legend and the position source.
fn push_footer(out: &mut String, source: Source, s: Style)
    ensures
        final(out)@ == old(out)@ + board_footer(source, s.colour),
{
    out.append("\n");
    out.append(legend(s).as_str());
    let mut w = String::from_str("posisjon: ");
    w.append(source.label());
    w.append(" \u{00b7} sanntid fra Entur");
    out.append("  ");
    out.append(s.dim(w.as_str()).as_str());
    out.append("\n\n");
}

/// The headline of one journey.
fn summary_line(p: &TripPattern, now: &Time, s: Style) -> (out: String)
    requires
        p.wf(),
        now.wf(),
    ensures
        out@ == summary_row(*p, *now, s.colour),
{
    let mut out = String::from_str("  ");
    out.append(realtime_marker(p.has_realtime(), s).as_str());
    out.append(" ");
    let countdown = relative(&p.expected_start_time, now);
    out.append(s.bold(pad(countdown.as_str(), 12).as_str()).as_str());
    out.append(" ");
    out.append(hhmm(&p.expected_start_time).as_str());
    out.append(" \u{2192} ");
    out.append(hhmm(&p.expected_end_time).as_str());
    out.append("   ");
    push_padded(&mut out, duration_human(p.duration).as_str(), 7);
    let mut w = String::from_str("\u{00b7} ");
    w.append(super::trip_summary(p).as_str());
    out.append(s.dim(w.as_str()).as_str());
    out.append("\n");
    out
}

/// The journeys up to and including the `i`-th: those before it, a rule
/// unless it is the first, and its block.
pub proof fn lemma_journey_blocks_step(
    ps: Seq<TripPattern>,
    i: int,
    origin: Seq<char>,
    destination: Seq<char>,
    now: Time,
    colour: bool,
)
    requires
        0 <= i < ps.len(),
    ensures
        journey_blocks(ps.take(i + 1), origin, destination, now, colour) == journey_blocks(
            ps.take(i),
            origin,
            destination,
            now,
            colour,
        ) + (if i > 0 {
            spec_rule(colour, false)
        } else {
            Seq::empty()
        }) + journey_block(ps[i], origin, destination, now, colour),
{
    assert(ps.take(i + 1).drop_last() =~= ps.take(i));
    assert(ps.take(i + 1).last() == ps[i]);
}

/// One journey with its timeline, ready to print.
fn journey_text(p: &TripPattern, origin: &str, destination: &str, now: &Time, s: Style) -> (out: String)
    requires
        p.wf(),
        now.wf(),
    ensures
        out@ == journey_block(*p, origin@, destination@, *now, s.colour),
{
    let mut out = summary_line(p, now, s);
    let steps = super::timeline(p, origin, destination);
    proof {
        lemma_timeline_drawable(*p, origin@, destination@);
        reveal(journey_block);
    }
    push_step_lines(&mut out, &steps, s);
    out
}

/// The trip board.
pub fn trip_board(patterns: &[TripPattern], origin: &Origin, destination: &str, now: &Time, s: Style) -> (out:
    String)
    requires
        now.wf(),
        forall|i: int| 0 <= i < patterns@.len() ==> (#[trigger] patterns@[i]).wf(),
    ensures
        out@ == spec_trip_board(patterns@, origin.name@, origin.source, destination@, *now, s.colour),
{
    let mut out = header(origin, destination, now, s);
    if patterns.len() == 0 {
        out.append("\n  ");
        out.append(s.dim("Fant ingen reiser.").as_str());
        out.append("\n\n");
        return out;
    }
    let ghost head = out@;
    let mut i: usize = 0;
    assert(patterns@.take(0) =~= Seq::<TripPattern>::empty());
    while i < patterns.len()
        invariant
            i <= patterns.len(),
            now.wf(),
            forall|k: int| 0 <= k < patterns@.len() ==> (#[trigger] patterns@[k]).wf(),
            out@ == head + journey_blocks(patterns@.take(i as int), origin.name@, destination@, *now, s.colour),
        decreases patterns.len() - i,
    {
        let p = &patterns[i];
        let sep = if i > 0 {
            rule(s, false)
        } else {
            String::new()
        };
        let block = journey_text(p, origin.name.as_str(), destination, now, s);
        proof {
            lemma_journey_blocks_step(patterns@, i as int, origin.name@, destination@, *now, s.colour);
        }
        let ghost prev = out@;
        out.append(sep.as_str());
        out.append(block.as_str());
        assert(out@ =~= prev + sep@ + block@);
        i += 1;
    }
    assert(patterns@.take(patterns.len() as int) =~= patterns@);
    out.append(rule(s, false).as_str());
    let notes = situation_footnotes(patterns);
    push_footnotes(&mut out, &notes, s);
    push_footer(&mut out, origin.source, s);
    out
}

} // verus!

verus! {

/// Departure rows drawn one after another.
pub open spec fn departure_lines(calls: Seq<EstimatedCall>, now: Time, colour: bool) -> Seq<char>
    decreases calls.len(),
{
    if calls.len() == 0 {
        Seq::empty()
    } else {
        departure_lines(calls.drop_last(), now, colour) + spec_departure_line(calls.last(), now, colour)
    }
}

/// The departures known for a stop: none when the board could not be had.
pub open spec fn stop_calls(board: Option<StopPlace>) -> Seq<EstimatedCall> {
    match board {
        Some(b) => b.estimated_calls@,
        None => Seq::empty(),
    }
}

/// One stop of the near board: its name, distance and modes, then its
/// departures or a line saying there are none in the next two hours.
pub open spec fn stop_block(stop: NearbyStop, board: Option<StopPlace>, now: Time, colour: bool) -> Seq<char> {
    let head = "  "@ + spec_paint(colour, pad_right(stop.name@, 28), "1"@) + spec_paint(
        colour,
        dec(stop.distance_m as nat) + " m \u{00b7} "@ + join(views(stop.modes@), ", "@),
        "2"@,
    ) + "\n"@;
    let calls = stop_calls(board);
    if calls.len() == 0 {
        head + "      "@ + spec_paint(colour, "ingen avganger de neste to timene"@, "2"@) + "\n"@
    } else {
        head + departure_lines(calls, now, colour)
    }
}

/// The stops, a light rule between each two.
pub open spec fn stop_blocks(stops: Seq<(NearbyStop, Option<StopPlace>)>, now: Time, colour: bool) -> Seq<char>
    decreases stops.len(),
{
    if stops.len() == 0 {
        Seq::empty()
    } else {
        stop_blocks(stops.drop_last(), now, colour) + (if stops.len() > 1 {
            spec_rule(colour, false)
        } else {
            Seq::empty()
        }) + stop_block(stops.last().0, stops.last().1, now, colour)
    }
}

/// Every departure of a stop's board is within range.
pub open spec fn board_wf(board: Option<StopPlace>) -> bool {
    forall|i: int| 0 <= i < stop_calls(board).len() ==> (#[trigger] stop_calls(board)[i]).wf()
}

/// The near board: the header, then each stop with its departures, and the
/// legend; or a short message when no stop is near.
pub open spec fn spec_near_board(
    stops: Seq<(NearbyStop, Option<StopPlace>)>,
    origin_name: Seq<char>,
    source: Source,
    now: Time,
    colour: bool,
) -> Seq<char> {
    let head = spec_header(origin_name, source, "avganger i n\u{e6}rheten"@, now, colour);
    if stops.len() == 0 {
        head + "\n  "@ + spec_paint(colour, "Fant ingen holdeplasser i n\u{e6}rheten."@, "2"@) + "\n\n"@
    } else {
        head + stop_blocks(stops, now, colour) + spec_rule(colour, false) + board_footer(source, colour)
    }
}

/// Appends one stop of the near board.
fn push_stop(out: &mut String, stop: &NearbyStop, board: &Option<StopPlace>, now: &Time, s: Style)
    requires
        now.wf(),
        board_wf(*board),
    ensures
        final(out)@ == old(out)@ + stop_block(*stop, *board, *now, s.colour),
{
    out.append("  ");
    out.append(s.bold(pad(stop.name.as_str(), 28).as_str()).as_str());
    let mut w = String::new();
    push_u64(&mut w, stop.distance_m as u64);
    w.append(" m \u{00b7} ");
    w.append(crate::text::join_strings(stop.modes.as_slice(), ", ").as_str());
    out.append(s.dim(w.as_str()).as_str());
    out.append("\n");
    let ghost head = out@;
    let empty: Vec<EstimatedCall> = Vec::new();
    let calls: &Vec<EstimatedCall> = match board {
        Some(b) => &b.estimated_calls,
        None => &empty,
    };
    assert(calls@ == stop_calls(*board));
    if calls.len() == 0 {
        out.append("      ");
        out.append(s.dim("ingen avganger de neste to timene").as_str());
        out.append("\n");
        return;
    }
    let mut i: usize = 0;
    assert(calls@.take(0) =~= Seq::<EstimatedCall>::empty());
    while i < calls.len()
        invariant
            i <= calls.len(),
            now.wf(),
            forall|k: int| 0 <= k < calls.len() ==> (#[trigger] calls@[k]).wf(),
            out@ == head + departure_lines(calls@.take(i as int), *now, s.colour),
        decreases calls.len() - i,
    {
        out.append(departure_line(&calls[i], now, s).as_str());
        assert(calls@.take(i + 1).drop_last() =~= calls@.take(i as int));
        i += 1;
    }
    assert(calls@.take(calls.len() as int) =~= calls@);
}

/// The near board.
pub fn near_board(stops: &[(NearbyStop, Option<StopPlace>)], origin: &Origin, now: &Time, s: Style) -> (out:
    String)
    requires
        now.wf(),
        forall|i: int| 0 <= i < stops@.len() ==> board_wf(#[trigger] stops@[i].1),
    ensures
        out@ == spec_near_board(stops@, origin.name@, origin.source, *now, s.colour),
{
    let mut out = header(origin, "avganger i n\u{e6}rheten", now, s);
    if stops.len() == 0 {
        out.append("\n  ");
        out.append(s.dim("Fant ingen holdeplasser i n\u{e6}rheten.").as_str());
        out.append("\n\n");
        return out;
    }
    let ghost head = out@;
    let mut i: usize = 0;
    assert(stops@.take(0) =~= Seq::<(NearbyStop, Option<StopPlace>)>::empty());
    while i < stops.len()
        invariant
            i <= stops.len(),
            now.wf(),
            forall|k: int| 0 <= k < stops@.len() ==> board_wf(#[trigger] stops@[k].1),
            out@ == head + stop_blocks(stops@.take(i as int), *now, s.colour),
        decreases stops.len() - i,
    {
        if i > 0 {
            out.append(rule(s, false).as_str());
        }
        let (stop, board) = &stops[i];
        push_stop(&mut out, stop, board, now, s);
        assert(stops@.take(i + 1).drop_last() =~= stops@.take(i as int));
        assert(stops@.take(i + 1).last() == stops@[i as int]);
        i += 1;
    }
    assert(stops@.take(stops.len() as int) =~= stops@);
    out.append(rule(s, false).as_str());
    push_footer(&mut out, origin.source, s);
    out
}

} // verus!

verus! {

/// A notice that some journey carries is counted at least once.
proof fn lemma_note_counted(ps: Seq<TripPattern>, t: Seq<char>)
    requires
        all_notes(ps).contains(t),
    ensures
        note_count(ps, t) >= 1,
    decreases ps.len(),
{
    let init = ps.drop_last();
    let a = all_notes(init);
    let b = pattern_notes(ps.last());
    let i = choose|i: int| 0 <= i < (a + b).len() && (a + b)[i] == t;
    if i < a.len() {
        assert(a[i] == t);
        lemma_note_counted(init, t);
    } else {
        assert(b[i - a.len()] == t);
    }
}

/// Each notice becomes one footnote: no two footnotes say the same, and each
/// counts between one and all of the journeys.
pub proof fn law_one_footnote_per_notice(ps: Seq<TripPattern>)
    ensures
        spec_footnotes(ps).map_values(|f: (Seq<char>, nat)| f.0).no_duplicates(),
        forall|i: int|
            0 <= i < spec_footnotes(ps).len() ==> 1 <= (#[trigger] spec_footnotes(ps)[i]).1 <= ps.len(),
{
    let order = first_occurrences(all_notes(ps));
    lemma_first_occurrences(all_notes(ps));
    assert(spec_footnotes(ps).map_values(|f: (Seq<char>, nat)| f.0) =~= order);
    assert forall|i: int| 0 <= i < spec_footnotes(ps).len() implies 1 <= (#[trigger] spec_footnotes(ps)[i]).1
        <= ps.len() by {
        assert(order.contains(order[i]));
        lemma_note_counted(ps, order[i]);
        lemma_note_count(ps, order[i]);
    }
}

} // verus!
