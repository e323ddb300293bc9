//! `--watch`: what the live board shows between network polls.
//!
//! A transient network blip must never blank the board: the last good data
//! stays on screen with a banner saying how old it is.

use vstd::prelude::*;
use crate::text::{center3, chars_of, dec, join, pad_right, push_center3, push_char, push_u64, string_of_range, views};
use crate::time::{hhmm, spec_hhmm, spec_seconds_between, Time};
use crate::render::{
    delay_marker, duration_human, mode_label, pad, place_name, relative, relative_text, spec_delay_marker,
    spec_duration_human, spec_leg_badge, spec_call_badge, spec_mode_label, spec_place_name, spec_readable_text,
    Badge, BadgeView, Rgb, Style, LEG_PREFIX, RULE_WIDTH, STOP_COLUMN,
};
use crate::render::board::{board_wf, repeat_char, stop_calls, REALTIME, SCHEDULED};
use crate::entur::nearest::{spec_destination, EstimatedCall, NearbyStop, StopPlace};
use crate::time::{seconds_between, trunc_div};
use crate::location::{spec_source_label, Source};
use crate::text::{as_deref, opt_string_view};
use crate::entur::trip::{any_realtime, spec_is_transit, spec_leg_delay, Leg, TripPattern};

verus! {

/// Whatever the current board is showing.
#[derive(Clone, Debug)]
pub enum State<T> {
    Loading,
    Ready { data: T, at: Time },
    Stale { data: T, at: Time, err: String },
    Failed { err: String },
}

/// The state after a poll answered `incoming` at `now`: new data is always
/// shown; a failure keeps data already shown, marked stale, and is final only
/// when there was nothing to keep.
pub open spec fn spec_apply<T>(s: State<T>, incoming: Result<T, String>, now: Time) -> State<T> {
    match incoming {
        Ok(data) => State::Ready { data, at: now },
        Err(err) => match s {
            State::Ready { data, at } => State::Stale { data, at, err },
            State::Stale { data, at, .. } => State::Stale { data, at, err },
            _ => State::Failed { err },
        },
    }
}

/// The data a state shows, if any.
pub open spec fn spec_data<T>(s: State<T>) -> Option<T> {
    match s {
        State::Ready { data, .. } => Some(data),
        State::Stale { data, .. } => Some(data),
        _ => None,
    }
}

impl<T> State<T> {
    /// Take in the result of one poll.
    pub fn apply(&mut self, incoming: Result<T, String>, now: Time)
        ensures
            *final(self) == spec_apply(*old(self), incoming, now),
    {
        match incoming {
            Ok(data) => {
                *self = State::Ready { data, at: now };
            },
            Err(err) => {
                let mut prev: State<T> = State::Loading;
                std::mem::swap(&mut prev, self);
                match prev {
                    State::Ready { data, at } => {
                        *self = State::Stale { data, at, err };
                    },
                    State::Stale { data, at, .. } => {
                        *self = State::Stale { data, at, err };
                    },
                    _ => {
                        *self = State::Failed { err };
                    },
                }
            },
        }
    }

    /// The data on screen, if any.
    pub fn data(&self) -> (out: Option<&T>)
        ensures
            match (out, spec_data(*self)) {
                (Some(a), Some(b)) => *a == b,
                (None, None) => true,
                _ => false,
            },
    {
        match self {
            State::Ready { data, .. } => Some(data),
            State::Stale { data, .. } => Some(data),
            _ => None,
        }
    }
}

/// The state after a run of polls, in order.
pub open spec fn apply_all<T>(s: State<T>, polls: Seq<(Result<T, String>, Time)>) -> State<T>
    decreases polls.len(),
{
    if polls.len() == 0 {
        s
    } else {
        spec_apply(apply_all(s, polls.drop_last()), polls.last().0, polls.last().1)
    }
}

/// The last poll that brought data, by its position, if any did.
pub open spec fn last_success<T>(polls: Seq<(Result<T, String>, Time)>) -> Option<int>
    decreases polls.len(),
{
    if polls.len() == 0 {
        None
    } else if polls.last().0 is Ok {
        Some(polls.len() - 1)
    } else {
        last_success(polls.drop_last())
    }
}

/// The last successful poll is one of the polls.
proof fn lemma_last_success_in_range<T>(polls: Seq<(Result<T, String>, Time)>)
    ensures
        last_success(polls) matches Some(i) ==> 0 <= i < polls.len() && polls[i].0 is Ok,
    decreases polls.len(),
{
    if polls.len() > 0 && polls.last().0 is Err {
        lemma_last_success_in_range(polls.drop_last());
    }
}

/// Once the board has shown data, no run of failed polls blanks it: the data
/// shown stays the data of the last poll that brought any, or what was shown
/// before when none did.
pub proof fn law_failures_never_blank_the_board<T>(s: State<T>, polls: Seq<(Result<T, String>, Time)>)
    requires
        spec_data(s) is Some || last_success(polls) is Some,
    ensures
        spec_data(apply_all(s, polls)) is Some,
        spec_data(apply_all(s, polls)) == match last_success(polls) {
            Some(i) => Some(polls[i].0->Ok_0),
            None => spec_data(s),
        },
    decreases polls.len(),
{
    if polls.len() > 0 {
        let rest = polls.drop_last();
        if polls.last().0 is Err {
            law_failures_never_blank_the_board(s, rest);
            lemma_last_success_in_range(rest);
            assert(last_success(polls) == last_success(rest));
            if let Some(i) = last_success(rest) {
                assert(rest[i] == polls[i]);
            }
        }
    }
}

/// A failure with nothing on screen is final until a poll succeeds; a
/// success always shows its data, fresh.
pub proof fn law_apply_outcomes<T>(s: State<T>, incoming: Result<T, String>, now: Time)
    ensures
        (incoming matches Ok(d) ==> spec_apply(s, incoming, now) == (State::<T>::Ready { data: d, at: now })),
        ((incoming is Err && spec_data(s) is None) ==> (spec_apply(s, incoming, now) is Failed)),
        ((incoming is Err && spec_data(s) is Some) ==> (spec_apply(s, incoming, now) is Stale)),
        ((incoming is Err && spec_data(s) is Some) ==> spec_data(spec_apply(s, incoming, now)) == spec_data(s)),
{
}

/// The first line of `s` as `str::lines` yields it: up to the first newline,
/// without a carriage return before it; all of `s` when it has no newline.
pub open spec fn spec_first_line(s: Seq<char>) -> Seq<char> {
    if exists|i: int| 0 <= i < s.len() && s[i] == '\n' {
        let k = choose|i: int| 0 <= i < s.len() && s[i] == '\n' && forall|j: int| 0 <= j < i ==> s[j] != '\n';
        if k > 0 && s[k - 1] == '\r' {
            s.take(k - 1)
        } else {
            s.take(k)
        }
    } else {
        s
    }
}

/// Error chains can be several lines; the header only has room for the first.
pub fn first_line(s: &str) -> (out: String)
    ensures
        out@ == spec_first_line(s@),
{
    let v = chars_of(s);
    let mut i: usize = 0;
    while i < v.len()
        invariant
            v@ == s@,
            i <= v.len(),
            forall|j: int| 0 <= j < i ==> v@[j] != '\n',
        decreases v.len() - i,
    {
        if v[i] == '\n' {
            proof {
                let k = choose|k: int| 0 <= k < s@.len() && s@[k] == '\n' && forall|j: int| 0 <= j < k ==> s@[j] != '\n';
                assert(k == i);
            }
            if i > 0 && v[i - 1] == '\r' {
                return string_of_range(&v, 0, i - 1);
            }
            return string_of_range(&v, 0, i);
        }
        i += 1;
    }
    assert(v@.subrange(0, v.len() as int) =~= v@);
    string_of_range(&v, 0, v.len())
}

} // verus!

verus! {

/// How a piece of the live board is drawn.
#[derive(Clone, Copy, Debug, PartialEq, Eq, Structural)]
pub enum Tone {
    Plain,
    Dim,
    Bold,
    Green,
    Yellow,
    Red,
    Cyan,
    /// Reverse video, for a badge without a colour of its own.
    Reversed,
    /// Bold `fg` on `bg`, for a coloured line badge.
    Badge { bg: Rgb, fg: Rgb },
}

/// A piece of text in one tone.
#[derive(Clone, Debug)]
pub struct Span {
    pub text: String,
    pub tone: Tone,
}

/// What a span shows.
pub struct SpanView {
    pub text: Seq<char>,
    pub tone: Tone,
}

impl View for Span {
    type V = SpanView;

    open spec fn view(&self) -> SpanView {
        SpanView { text: self.text@, tone: self.tone }
    }
}

/// A span of `text` in `tone`.
pub open spec fn sv(tone: Tone, text: Seq<char>) -> SpanView {
    SpanView { text, tone }
}

/// The spans of one line.
pub open spec fn line_view(l: Seq<Span>) -> Seq<SpanView> {
    l.map_values(|s: Span| s@)
}

/// The spans of each line.
pub open spec fn lines_view(ls: Seq<Vec<Span>>) -> Seq<Seq<SpanView>> {
    ls.map_values(|l: Vec<Span>| line_view(l@))
}

/// The tone of a line badge: its own colours, with the text colour made
/// legible; reverse video when the line has no colour.
pub open spec fn spec_badge_style(colour: Option<Rgb>, declared_fg: Option<Rgb>) -> Tone {
    match colour {
        Some(bg) => Tone::Badge { bg, fg: spec_readable_text(bg, declared_fg) },
        None => Tone::Reversed,
    }
}

/// The tone of a line badge.
pub fn badge_style(colour: Option<Rgb>, declared_fg: Option<Rgb>) -> (out: Tone)
    ensures
        out == spec_badge_style(colour, declared_fg),
{
    match colour {
        Some(bg) => Tone::Badge { bg, fg: bg.readable_text(declared_fg) },
        None => Tone::Reversed,
    }
}

/// A span of `text` in `tone`.
fn span(text: String, tone: Tone) -> (out: Span)
    ensures
        out@ == sv(tone, text@),
{
    Span { text, tone }
}

/// A span of the literal `text` in `tone`.
fn span_str(text: &str, tone: Tone) -> (out: Span)
    ensures
        out@ == sv(tone, text@),
{
    Span { text: String::from_str(text), tone }
}

/// The realtime marker: a green dot for live data, a dim ring otherwise.
pub open spec fn spec_realtime_span(realtime: bool) -> SpanView {
    if realtime {
        sv(Tone::Green, REALTIME@)
    } else {
        sv(Tone::Dim, SCHEDULED@)
    }
}

/// The realtime marker.
pub fn realtime_span(realtime: bool) -> (out: Span)
    ensures
        out@ == spec_realtime_span(realtime),
{
    if realtime {
        span_str(REALTIME, Tone::Green)
    } else {
        span_str(SCHEDULED, Tone::Dim)
    }
}

/// The delay column: three blanks on time, otherwise the signed minutes in
/// red from five late, yellow below that, cyan early.
pub open spec fn spec_delay_span(minutes: int) -> SpanView {
    let text = spec_delay_marker(minutes, false);
    if minutes == 0 {
        sv(Tone::Plain, "   "@)
    } else if minutes >= 5 {
        sv(Tone::Red, text)
    } else if minutes > 0 {
        sv(Tone::Yellow, text)
    } else {
        sv(Tone::Cyan, text)
    }
}

/// The delay column.
pub fn delay_span(minutes: i64) -> (out: Span)
    ensures
        out@ == spec_delay_span(minutes as int),
{
    let text = delay_marker(minutes, Style::plain());
    if minutes == 0 {
        span_str("   ", Tone::Plain)
    } else if minutes >= 5 {
        span(text, Tone::Red)
    } else if minutes > 0 {
        span(text, Tone::Yellow)
    } else {
        span(text, Tone::Cyan)
    }
}

/// A badge as a span: the label centred in three columns with a space each
/// side, in the badge's tone.
pub open spec fn spec_badge_span(b: BadgeView) -> SpanView {
    sv(spec_badge_style(b.bg, b.fg), " "@ + center3(b.text) + " "@)
}

/// A badge as a span.
fn badge_span(b: &Badge) -> (out: Span)
    ensures
        out@ == spec_badge_span(b@),
{
    let mut t = String::from_str(" ");
    push_center3(&mut t, b.text.as_str());
    t.append(" ");
    span(t, badge_style(b.bg, b.fg))
}

/// The rule between journeys, as the one-shot board draws it.
pub open spec fn spec_rule_line() -> Seq<SpanView> {
    seq![sv(Tone::Dim, "  "@ + repeat_char('\u{2500}', RULE_WIDTH as nat))]
}

/// The rule between journeys.
pub fn rule_line() -> (out: Vec<Span>)
    ensures
        line_view(out@) == spec_rule_line(),
{
    let mut t = String::from_str("  ");
    let mut i: usize = 0;
    while i < RULE_WIDTH
        invariant
            i <= RULE_WIDTH,
            t@ == "  "@ + repeat_char('\u{2500}', i as nat),
        decreases RULE_WIDTH - i,
    {
        push_char(&mut t, '\u{2500}');
        assert(repeat_char('\u{2500}', (i + 1) as nat) =~= repeat_char('\u{2500}', i as nat).push('\u{2500}'));
        i += 1;
    }
    let mut out: Vec<Span> = Vec::new();
    out.push(span(t, Tone::Dim));
    assert(line_view(out@) =~= spec_rule_line());
    out
}

} // verus!

verus! {

/// A journey's headline in the live view: realtime marker, countdown, the
/// departure and arrival times, and the duration.
pub open spec fn watch_headline(p: TripPattern, now: Time) -> Seq<SpanView> {
    seq![
        sv(Tone::Plain, "  "@),
        spec_realtime_span(any_realtime(p.legs@)),
        sv(Tone::Plain, " "@),
        sv(Tone::Bold, pad_right(relative_text(spec_seconds_between(p.expected_start_time, now)), 12)),
        sv(Tone::Plain, spec_hhmm(p.expected_start_time) + " \u{2192} "@ + spec_hhmm(p.expected_end_time) + "   "@),
        sv(Tone::Dim, spec_duration_human(p.duration as int)),
    ]
}

/// One leg in the live view. A walk is its mode and duration padded to the
/// width of a ride's columns, so every arrow stands in one column; a ride is
/// its badge, mode, boarding stop, time, realtime marker and delay.
pub open spec fn watch_leg_line(leg: Leg, origin: Seq<char>, destination: Seq<char>) -> Seq<SpanView> {
    let to = spec_place_name(opt_string_view(leg.to_place.name), origin, destination);
    if !spec_is_transit(leg) {
        seq![
            sv(Tone::Plain, "      "@),
            sv(
                Tone::Dim,
                pad_right(
                    "\u{21b3} "@ + spec_mode_label(leg.mode@) + " "@ + spec_duration_human(leg.duration as int),
                    LEG_PREFIX as nat,
                ),
            ),
            sv(Tone::Dim, " \u{2192} "@ + to),
        ]
    } else {
        let from = spec_place_name(opt_string_view(leg.from_place.name), origin, destination);
        seq![
            sv(Tone::Plain, "      "@),
            spec_badge_span(spec_leg_badge(leg)),
            sv(Tone::Plain, " "@ + pad_right(spec_mode_label(leg.mode@), 6) + " "@),
            sv(Tone::Dim, pad_right(from, STOP_COLUMN as nat)),
            sv(Tone::Plain, " "@ + spec_hhmm(leg.expected_start_time) + " "@),
            spec_realtime_span(leg.realtime),
            sv(Tone::Plain, " "@),
            spec_delay_span(spec_leg_delay(leg)),
            sv(Tone::Dim, " \u{2192} "@ + to),
        ]
    }
}

/// A journey in the live view: its headline, then one line per leg.
pub open spec fn watch_journey(p: TripPattern, now: Time, origin: Seq<char>, destination: Seq<char>) -> Seq<
    Seq<SpanView>,
> {
    seq![watch_headline(p, now)] + Seq::new(
        p.legs@.len(),
        |i: int| watch_leg_line(p.legs@[i], origin, destination),
    )
}

/// The journeys, a rule between each two.
pub open spec fn watch_journeys(ps: Seq<TripPattern>, now: Time, origin: Seq<char>, destination: Seq<char>) -> Seq<
    Seq<SpanView>,
>
    decreases ps.len(),
{
    if ps.len() == 0 {
        Seq::empty()
    } else {
        watch_journeys(ps.drop_last(), now, origin, destination) + (if ps.len() > 1 {
            seq![spec_rule_line()]
        } else {
            Seq::empty()
        }) + watch_journey(ps.last(), now, origin, destination)
    }
}

/// The live trip view: the journeys and a closing rule, or one line saying
/// that none were found.
pub open spec fn spec_trip_lines(ps: Seq<TripPattern>, now: Time, origin: Seq<char>, destination: Seq<char>) -> Seq<
    Seq<SpanView>,
> {
    if ps.len() == 0 {
        seq![seq![sv(Tone::Dim, "  Fant ingen reiser."@)]]
    } else {
        watch_journeys(ps, now, origin, destination) + seq![spec_rule_line()]
    }
}

/// A span of `a` followed by `b`.
fn span_join(a: &str, b: &str, tone: Tone) -> (out: Span)
    ensures
        out@ == sv(tone, a@ + b@),
{
    let mut t = String::from_str(a);
    t.append(b);
    span(t, tone)
}

/// A journey's headline.
fn headline(p: &TripPattern, now: &Time) -> (out: Vec<Span>)
    requires
        p.wf(),
        now.wf(),
    ensures
        line_view(out@) == watch_headline(*p, *now),
{
    let mut out: Vec<Span> = Vec::new();
    out.push(span_str("  ", Tone::Plain));
    out.push(realtime_span(p.has_realtime()));
    out.push(span_str(" ", Tone::Plain));
    out.push(span(pad(relative(&p.expected_start_time, now).as_str(), 12), Tone::Bold));
    let mut t = hhmm(&p.expected_start_time);
    t.append(" \u{2192} ");
    t.append(hhmm(&p.expected_end_time).as_str());
    t.append("   ");
    out.push(span(t, Tone::Plain));
    out.push(span(duration_human(p.duration), Tone::Dim));
    assert(line_view(out@) =~= watch_headline(*p, *now));
    out
}

/// One leg of the live itinerary.
fn leg_line(leg: &Leg, origin: &str, destination: &str) -> (out: Vec<Span>)
    requires
        leg.wf(),
    ensures
        line_view(out@) == watch_leg_line(*leg, origin@, destination@),
{
    let to = place_name(as_deref(&leg.to_place.name), origin, destination);
    let mut out: Vec<Span> = Vec::new();
    out.push(span_str("      ", Tone::Plain));
    if !leg.is_transit() {
        let mut t = String::from_str("\u{21b3} ");
        t.append(mode_label(leg.mode.as_str()));
        t.append(" ");
        t.append(duration_human(leg.duration).as_str());
        out.push(span(pad(t.as_str(), LEG_PREFIX), Tone::Dim));
        out.push(span_join(" \u{2192} ", to, Tone::Dim));
        assert(line_view(out@) =~= watch_leg_line(*leg, origin@, destination@));
        return out;
    }
    let from = place_name(as_deref(&leg.from_place.name), origin, destination);
    out.push(badge_span(&Badge::for_leg(leg)));
    let mut m = String::from_str(" ");
    m.append(pad(mode_label(leg.mode.as_str()), 6).as_str());
    m.append(" ");
    out.push(span(m, Tone::Plain));
    out.push(span(pad(from, STOP_COLUMN), Tone::Dim));
    let mut t = String::from_str(" ");
    t.append(hhmm(&leg.expected_start_time).as_str());
    t.append(" ");
    out.push(span(t, Tone::Plain));
    out.push(realtime_span(leg.realtime));
    out.push(span_str(" ", Tone::Plain));
    out.push(delay_span(leg.delay_minutes()));
    out.push(span_join(" \u{2192} ", to, Tone::Dim));
    assert(line_view(out@) =~= watch_leg_line(*leg, origin@, destination@));
    out
}

/// Appends a journey's lines.
fn push_journey(lines: &mut Vec<Vec<Span>>, p: &TripPattern, now: &Time, origin: &str, destination: &str)
    requires
        p.wf(),
        now.wf(),
    ensures
        lines_view(final(lines)@) == lines_view(old(lines)@) + watch_journey(*p, *now, origin@, destination@),
{
    let ghost start = lines_view(lines@);
    lines.push(headline(p, now));
    let ghost head = lines_view(lines@);
    assert(head =~= start + seq![watch_headline(*p, *now)]);
    let mut i: usize = 0;
    while i < p.legs.len()
        invariant
            p.wf(),
            i <= p.legs.len(),
            lines_view(lines@) == head + Seq::new(
                i as nat,
                |k: int| watch_leg_line(p.legs@[k], origin@, destination@),
            ),
        decreases p.legs.len() - i,
    {
        assert(p.legs@[i as int].wf());
        let ghost prev = lines_view(lines@);
        let l = leg_line(&p.legs[i], origin, destination);
        let ghost lv = line_view(l@);
        lines.push(l);
        assert(lines_view(lines@) =~= prev.push(lv));
        assert(lines_view(lines@) =~= head + Seq::new(
            (i + 1) as nat,
            |k: int| watch_leg_line(p.legs@[k], origin@, destination@),
        ));
        i += 1;
    }
    assert(lines_view(lines@) =~= start + watch_journey(*p, *now, origin@, destination@));
}

/// The journeys up to and including the `i`-th: those before it, a rule
/// unless it is the first, and its lines.
pub proof fn lemma_watch_journeys_step(
    ps: Seq<TripPattern>,
    i: int,
    now: Time,
    origin: Seq<char>,
    destination: Seq<char>,
)
    requires
        0 <= i < ps.len(),
    ensures
        watch_journeys(ps.take(i + 1), now, origin, destination) == watch_journeys(
            ps.take(i),
            now,
            origin,
            destination,
        ) + (if i > 0 {
            seq![spec_rule_line()]
        } else {
            Seq::empty()
        }) + watch_journey(ps[i], now, origin, destination),
{
    assert(ps.take(i + 1).drop_last() =~= ps.take(i));
    assert(ps.take(i + 1).last() == ps[i]);
}

/// The rows of the live trip view.
pub fn trip_lines(patterns: &[TripPattern], now: &Time, origin: &str, destination: &str) -> (out: Vec<Vec<Span>>)
    requires
        now.wf(),
        forall|i: int| 0 <= i < patterns@.len() ==> (#[trigger] patterns@[i]).wf(),
    ensures
        lines_view(out@) == spec_trip_lines(patterns@, *now, origin@, destination@),
{
    let mut lines: Vec<Vec<Span>> = Vec::new();
    if patterns.len() == 0 {
        let mut l: Vec<Span> = Vec::new();
        l.push(span_str("  Fant ingen reiser.", Tone::Dim));
        assert(line_view(l@) =~= seq![sv(Tone::Dim, "  Fant ingen reiser."@)]);
        lines.push(l);
        assert(lines_view(lines@) =~= spec_trip_lines(patterns@, *now, origin@, destination@));
        return lines;
    }
    let mut i: usize = 0;
    assert(patterns@.take(0) =~= Seq::<TripPattern>::empty());
    assert(lines_view(lines@) =~= Seq::<Seq<SpanView>>::empty());
    while i < patterns.len()
        invariant
            i <= patterns.len(),
            now.wf(),
            forall|k: int| 0 <= k < patterns@.len() ==> (#[trigger] patterns@[k]).wf(),
            lines_view(lines@) == watch_journeys(patterns@.take(i as int), *now, origin@, destination@),
        decreases patterns.len() - i,
    {
        proof {
            lemma_watch_journeys_step(patterns@, i as int, *now, origin@, destination@);
        }
        if i > 0 {
            let ghost prev = lines_view(lines@);
            lines.push(rule_line());
            assert(lines_view(lines@) =~= prev + seq![spec_rule_line()]);
        } else {
            assert(lines_view(lines@) =~= lines_view(lines@) + Seq::<Seq<SpanView>>::empty());
        }
        push_journey(&mut lines, &patterns[i], now, origin, destination);
        i += 1;
    }
    assert(patterns@.take(patterns.len() as int) =~= patterns@);
    let ghost prev = lines_view(lines@);
    lines.push(rule_line());
    assert(lines_view(lines@) =~= prev + seq![spec_rule_line()]);
    lines
}

} // verus!

verus! {

/// One departure in the live view: badge and destination, then `AVLYST` for
/// a cancelled one, or its time, realtime marker, delay and countdown.
pub open spec fn watch_call_line(call: EstimatedCall, now: Time) -> Seq<SpanView> {
    let lead = seq![
        sv(Tone::Plain, "      "@),
        spec_badge_span(spec_call_badge(call)),
        sv(Tone::Plain, " "@ + pad_right(spec_destination(call), 26) + " "@),
    ];
    if call.cancellation {
        lead.push(sv(Tone::Red, "AVLYST"@))
    } else {
        lead + seq![
            sv(Tone::Plain, spec_hhmm(call.expected_departure_time) + " "@),
            spec_realtime_span(call.realtime),
            sv(Tone::Plain, " "@),
            spec_delay_span(
                trunc_div(spec_seconds_between(call.expected_departure_time, call.aimed_departure_time), 60),
            ),
            sv(Tone::Dim, relative_text(spec_seconds_between(call.expected_departure_time, now))),
        ]
    }
}

/// In the live view a cancelled departure ends in a red `AVLYST` and shows no
/// time, marker, delay or countdown, whatever its live data and times say; a
/// departure that runs shows its expected time and four spans after it.
pub proof fn law_cancelled_departures_show_avlyst(call: EstimatedCall, now: Time, other: EstimatedCall)
    ensures
        call.cancellation ==> {
            let line = watch_call_line(call, now);
            &&& line.len() == 4
            &&& line[3] == sv(Tone::Red, "AVLYST"@)
            &&& forall|k: int| 0 <= k < 3 ==> (#[trigger] line[k]).tone != Tone::Red
        },
        call.cancellation && other.cancellation && other.quay == call.quay && other.destination_display
            == call.destination_display && other.service_journey == call.service_journey
            ==> watch_call_line(other, now) == watch_call_line(call, now),
        !call.cancellation ==> {
            let line = watch_call_line(call, now);
            &&& line.len() == 8
            &&& line[3] == sv(Tone::Plain, spec_hhmm(call.expected_departure_time) + " "@)
        },
{
    reveal_strlit("AVLYST");
    let line = watch_call_line(call, now);
    if call.cancellation {
        assert(line[0].tone == Tone::Plain && line[2].tone == Tone::Plain);
        assert(spec_badge_span(spec_call_badge(call)).tone != Tone::Red);
    }
}

/// A stop in the live view: its name, distance and modes, then one line per
/// departure or a line saying there are none in the next two hours.
pub open spec fn watch_stop(stop: NearbyStop, board: Option<StopPlace>, now: Time) -> Seq<Seq<SpanView>> {
    let head = seq![
        sv(Tone::Plain, "  "@),
        sv(Tone::Bold, pad_right(stop.name@, 28)),
        sv(Tone::Dim, dec(stop.distance_m as nat) + " m \u{00b7} "@ + join(views(stop.modes@), ", "@)),
    ];
    let calls = stop_calls(board);
    if calls.len() == 0 {
        seq![head, seq![sv(Tone::Plain, "      "@), sv(Tone::Dim, "ingen avganger de neste to timene"@)]]
    } else {
        seq![head] + Seq::new(calls.len(), |i: int| watch_call_line(calls[i], now))
    }
}

/// The stops, a rule between each two.
pub open spec fn watch_stops(stops: Seq<(NearbyStop, Option<StopPlace>)>, now: Time) -> Seq<Seq<SpanView>>
    decreases stops.len(),
{
    if stops.len() == 0 {
        Seq::empty()
    } else {
        watch_stops(stops.drop_last(), now) + (if stops.len() > 1 {
            seq![spec_rule_line()]
        } else {
            Seq::empty()
        }) + watch_stop(stops.last().0, stops.last().1, now)
    }
}

/// The live near view: the stops, or one line saying none are near.
pub open spec fn spec_near_lines(stops: Seq<(NearbyStop, Option<StopPlace>)>, now: Time) -> Seq<Seq<SpanView>> {
    if stops.len() == 0 {
        seq![seq![sv(Tone::Dim, "  Fant ingen holdeplasser i n\u{e6}rheten."@)]]
    } else {
        watch_stops(stops, now)
    }
}

/// One departure of the live view.
fn call_line(call: &EstimatedCall, now: &Time) -> (out: Vec<Span>)
    requires
        call.wf(),
        now.wf(),
    ensures
        line_view(out@) == watch_call_line(*call, *now),
{
    let mut out: Vec<Span> = Vec::new();
    out.push(span_str("      ", Tone::Plain));
    out.push(badge_span(&Badge::for_call(call)));
    let mut d = String::from_str(" ");
    d.append(pad(call.destination(), 26).as_str());
    d.append(" ");
    out.push(span(d, Tone::Plain));
    if call.cancellation {
        out.push(span_str("AVLYST", Tone::Red));
        assert(line_view(out@) =~= watch_call_line(*call, *now));
        return out;
    }
    let mut t = hhmm(&call.expected_departure_time);
    t.append(" ");
    out.push(span(t, Tone::Plain));
    out.push(realtime_span(call.realtime));
    out.push(span_str(" ", Tone::Plain));
    out.push(delay_span(call.delay_minutes()));
    out.push(span(relative(&call.expected_departure_time, now), Tone::Dim));
    assert(line_view(out@) =~= watch_call_line(*call, *now));
    out
}

/// Appends a stop's lines.
fn push_stop_lines(lines: &mut Vec<Vec<Span>>, stop: &NearbyStop, board: &Option<StopPlace>, now: &Time)
    requires
        now.wf(),
        board_wf(*board),
    ensures
        lines_view(final(lines)@) == lines_view(old(lines)@) + watch_stop(*stop, *board, *now),
{
    let ghost start = lines_view(lines@);
    let mut head: Vec<Span> = Vec::new();
    head.push(span_str("  ", Tone::Plain));
    head.push(span(pad(stop.name.as_str(), 28), Tone::Bold));
    let mut w = String::new();
    push_u64(&mut w, stop.distance_m as u64);
    w.append(" m \u{00b7} ");
    w.append(crate::text::join_strings(stop.modes.as_slice(), ", ").as_str());
    head.push(span(w, Tone::Dim));
    let ghost hv = line_view(head@);
    assert(hv =~= seq![
        sv(Tone::Plain, "  "@),
        sv(Tone::Bold, pad_right(stop.name@, 28)),
        sv(Tone::Dim, dec(stop.distance_m as nat) + " m \u{00b7} "@ + join(views(stop.modes@), ", "@)),
    ]);
    lines.push(head);
    assert(lines_view(lines@) =~= start.push(hv));
    let empty: Vec<EstimatedCall> = Vec::new();
    let calls: &Vec<EstimatedCall> = match board {
        Some(b) => &b.estimated_calls,
        None => &empty,
    };
    assert(calls@ == stop_calls(*board));
    if calls.len() == 0 {
        let mut l: Vec<Span> = Vec::new();
        l.push(span_str("      ", Tone::Plain));
        l.push(span_str("ingen avganger de neste to timene", Tone::Dim));
        let ghost lv = line_view(l@);
        assert(lv =~= seq![sv(Tone::Plain, "      "@), sv(Tone::Dim, "ingen avganger de neste to timene"@)]);
        let ghost mid = lines_view(lines@);
        lines.push(l);
        assert(lines_view(lines@) =~= mid.push(lv));
        assert(lines_view(lines@) =~= start + seq![hv, lv]);
        assert(lines_view(lines@) =~= start + watch_stop(*stop, *board, *now));
        return;
    }
    let ghost head_lines = lines_view(lines@);
    assert(head_lines =~= start + seq![hv]);
    let mut i: usize = 0;
    while i < calls.len()
        invariant
            i <= calls.len(),
            now.wf(),
            forall|k: int| 0 <= k < calls.len() ==> (#[trigger] calls@[k]).wf(),
            lines_view(lines@) == head_lines + Seq::new(i as nat, |k: int| watch_call_line(calls@[k], *now)),
        decreases calls.len() - i,
    {
        let ghost prev = lines_view(lines@);
        let l = call_line(&calls[i], now);
        let ghost lv = line_view(l@);
        lines.push(l);
        assert(lines_view(lines@) =~= prev.push(lv));
        assert(lines_view(lines@) =~= head_lines + Seq::new(
            (i + 1) as nat,
            |k: int| watch_call_line(calls@[k], *now),
        ));
        i += 1;
    }
    assert(lines_view(lines@) =~= start + watch_stop(*stop, *board, *now));
}

/// The rows of the live near view.
pub fn near_lines(stops: &[(NearbyStop, Option<StopPlace>)], now: &Time) -> (out: Vec<Vec<Span>>)
    requires
        now.wf(),
        forall|i: int| 0 <= i < stops@.len() ==> board_wf(#[trigger] stops@[i].1),
    ensures
        lines_view(out@) == spec_near_lines(stops@, *now),
{
    let mut lines: Vec<Vec<Span>> = Vec::new();
    if stops.len() == 0 {
        let mut l: Vec<Span> = Vec::new();
        l.push(span_str("  Fant ingen holdeplasser i n\u{e6}rheten.", Tone::Dim));
        assert(line_view(l@) =~= seq![sv(Tone::Dim, "  Fant ingen holdeplasser i n\u{e6}rheten."@)]);
        lines.push(l);
        assert(lines_view(lines@) =~= spec_near_lines(stops@, *now));
        return lines;
    }
    let mut i: usize = 0;
    assert(stops@.take(0) =~= Seq::<(NearbyStop, Option<StopPlace>)>::empty());
    assert(lines_view(lines@) =~= Seq::<Seq<SpanView>>::empty());
    while i < stops.len()
        invariant
            i <= stops.len(),
            now.wf(),
            forall|k: int| 0 <= k < stops@.len() ==> board_wf(#[trigger] stops@[k].1),
            lines_view(lines@) == watch_stops(stops@.take(i as int), *now),
        decreases stops.len() - i,
    {
        proof {
            assert(stops@.take(i + 1).drop_last() =~= stops@.take(i as int));
            assert(stops@.take(i + 1).last() == stops@[i as int]);
        }
        if i > 0 {
            let ghost prev = lines_view(lines@);
            lines.push(rule_line());
            assert(lines_view(lines@) =~= prev + seq![spec_rule_line()]);
        } else {
            assert(lines_view(lines@) =~= lines_view(lines@) + Seq::<Seq<SpanView>>::empty());
        }
        let (stop, board) = &stops[i];
        push_stop_lines(&mut lines, stop, board, now);
        i += 1;
    }
    assert(stops@.take(stops.len() as int) =~= stops@);
    lines
}

} // verus!

verus! {

/// Seconds until the next scheduled poll, as whole seconds rounded down:
/// `interval_secs` less the time since the last one, and none once it is due.
pub open spec fn spec_next_poll_in(interval_secs: u64, elapsed_secs: u64, elapsed_nanos: u32) -> int {
    let left = interval_secs * 1_000_000_000 - (elapsed_secs * 1_000_000_000 + elapsed_nanos);
    if left <= 0 {
        0
    } else {
        left / 1_000_000_000
    }
}

/// Seconds until the next scheduled poll.
pub fn next_poll_in(interval_secs: u64, elapsed_secs: u64, elapsed_nanos: u32) -> (out: u64)
    requires
        elapsed_nanos < 1_000_000_000,
    ensures
        out == spec_next_poll_in(interval_secs, elapsed_secs, elapsed_nanos),
{
    if elapsed_secs >= interval_secs {
        return 0;
    }
    let whole: u64 = interval_secs - elapsed_secs;
    proof {
        let left = interval_secs * 1_000_000_000 - (elapsed_secs * 1_000_000_000 + elapsed_nanos);
        assert(left == whole * 1_000_000_000 - elapsed_nanos) by (nonlinear_arith)
            requires
                whole == interval_secs - elapsed_secs,
                left == interval_secs * 1_000_000_000 - (elapsed_secs * 1_000_000_000 + elapsed_nanos),
        ;
        if elapsed_nanos == 0 {
            assert((whole * 1_000_000_000) / 1_000_000_000 == whole) by (nonlinear_arith);
        } else {
            assert((whole * 1_000_000_000 - elapsed_nanos) / 1_000_000_000 == whole - 1) by (nonlinear_arith)
                requires
                    whole >= 1,
                    0 < elapsed_nanos < 1_000_000_000,
            ;
        }
    }
    if elapsed_nanos == 0 {
        whole
    } else {
        whole - 1
    }
}

/// The poll interval actually used: never under ten seconds, so a careless
/// setting cannot get the client rate-limited.
pub fn poll_interval_secs(configured: u64) -> (out: u64)
    ensures
        out == if configured < 10 {
            10
        } else {
            configured
        },
{
    if configured < 10 {
        10
    } else {
        configured
    }
}

/// The header line of the live board: the title and the clock; how old the
/// data is and why when the last poll failed, or when the next poll comes;
/// and a warning when the position may be kilometres off.
pub open spec fn spec_header_spans<T>(
    title: Seq<char>,
    source: Source,
    state: State<T>,
    now: Time,
    next_poll_in: int,
) -> Seq<SpanView> {
    let lead = seq![sv(Tone::Bold, title), sv(Tone::Plain, "   "@), sv(Tone::Dim, spec_hhmm(now))];
    let status = match state {
        State::Stale { at, err, .. } => {
            let age = spec_seconds_between(now, at);
            seq![
                sv(Tone::Plain, "   "@),
                sv(
                    Tone::Yellow,
                    "\u{26a0} data "@ + dec((if age < 0 {
                        0
                    } else {
                        age
                    }) as nat) + " s gammel \u{b7} "@ + spec_first_line(err@),
                ),
            ]
        },
        State::Ready { .. } => seq![
            sv(Tone::Plain, "   "@),
            sv(Tone::Dim, "oppdaterer om "@ + dec(next_poll_in as nat) + " s"@),
        ],
        _ => Seq::empty(),
    };
    let coarse = if source == Source::Ip {
        seq![sv(Tone::Plain, "   "@), sv(Tone::Yellow, "\u{26a0} posisjon: "@ + spec_source_label(source))]
    } else {
        Seq::empty()
    };
    lead + status + coarse
}

/// The header line of the live board.
pub fn header_spans<T>(title: &str, source: Source, state: &State<T>, now: &Time, next_poll_in: u64) -> (out: Vec<
    Span,
>)
    requires
        now.wf(),
        state matches State::Stale { at, .. } ==> at.wf(),
    ensures
        line_view(out@) == spec_header_spans(title@, source, *state, *now, next_poll_in as int),
{
    let mut out: Vec<Span> = Vec::new();
    out.push(span_str(title, Tone::Bold));
    out.push(span_str("   ", Tone::Plain));
    out.push(span(hhmm(now), Tone::Dim));
    match state {
        State::Stale { at, err, .. } => {
            let age = seconds_between(now, at);
            let mut t = String::from_str("\u{26a0} data ");
            push_u64(&mut t, if age < 0 { 0 } else { age as u64 });
            t.append(" s gammel \u{b7} ");
            t.append(first_line(err.as_str()).as_str());
            out.push(span_str("   ", Tone::Plain));
            out.push(span(t, Tone::Yellow));
        },
        State::Ready { .. } => {
            let mut t = String::from_str("oppdaterer om ");
            push_u64(&mut t, next_poll_in);
            t.append(" s");
            out.push(span_str("   ", Tone::Plain));
            out.push(span(t, Tone::Dim));
        },
        _ => {},
    }
    if source.is_coarse() {
        let mut t = String::from_str("\u{26a0} posisjon: ");
        t.append(source.label());
        out.push(span_str("   ", Tone::Plain));
        out.push(span(t, Tone::Yellow));
    }
    assert(line_view(out@) =~= spec_header_spans(title@, source, *state, *now, next_poll_in as int));
    out
}

/// What the body shows in place of data: a loading line, or the error with a
/// hint to retry; nothing while there is data to draw.
pub open spec fn spec_placeholder_lines<T>(state: State<T>) -> Option<Seq<Seq<SpanView>>> {
    match state {
        State::Loading => Some(seq![seq![sv(Tone::Dim, "  Henter avganger \u{2026}"@)]]),
        State::Failed { err } => Some(
            seq![
                seq![sv(Tone::Red, "  "@ + err@)],
                Seq::empty(),
                seq![sv(Tone::Dim, "  Trykk r for \u{e5} pr\u{f8}ve igjen."@)],
            ],
        ),
        _ => None,
    }
}

/// What the body shows in place of data, if anything.
pub fn placeholder_lines<T>(state: &State<T>) -> (out: Option<Vec<Vec<Span>>>)
    ensures
        match (out, spec_placeholder_lines(*state)) {
            (Some(o), Some(s)) => lines_view(o@) == s,
            (None, None) => true,
            _ => false,
        },
{
    match state {
        State::Loading => {
            let mut l: Vec<Span> = Vec::new();
            l.push(span_str("  Henter avganger \u{2026}", Tone::Dim));
            assert(line_view(l@) =~= seq![sv(Tone::Dim, "  Henter avganger \u{2026}"@)]);
            let mut lines: Vec<Vec<Span>> = Vec::new();
            lines.push(l);
            assert(lines_view(lines@) =~= seq![seq![sv(Tone::Dim, "  Henter avganger \u{2026}"@)]]);
            Some(lines)
        },
        State::Failed { err } => {
            let mut a: Vec<Span> = Vec::new();
            a.push(span_join("  ", err.as_str(), Tone::Red));
            let b: Vec<Span> = Vec::new();
            let mut c: Vec<Span> = Vec::new();
            c.push(span_str("  Trykk r for \u{e5} pr\u{f8}ve igjen.", Tone::Dim));
            assert(line_view(a@) =~= seq![sv(Tone::Red, "  "@ + err@)]);
            assert(line_view(b@) =~= Seq::<SpanView>::empty());
            assert(line_view(c@) =~= seq![sv(Tone::Dim, "  Trykk r for \u{e5} pr\u{f8}ve igjen."@)]);
            let mut lines: Vec<Vec<Span>> = Vec::new();
            lines.push(a);
            lines.push(b);
            lines.push(c);
            assert(lines_view(lines@) =~= spec_placeholder_lines(*state)->0);
            Some(lines)
        },
        _ => None,
    }
}

/// The key help under the live board.
pub fn footer_line() -> (out: Vec<Span>)
    ensures
        line_view(out@) == seq![sv(Tone::Dim, "  q avslutt   r oppdater n\u{e5}"@)],
{
    let mut out: Vec<Span> = Vec::new();
    out.push(span_str("  q avslutt   r oppdater n\u{e5}", Tone::Dim));
    assert(line_view(out@) =~= seq![sv(Tone::Dim, "  q avslutt   r oppdater n\u{e5}"@)]);
    out
}

/// The title of the live trip board.
pub fn trip_title(origin: &str, destination: &str) -> (out: String)
    ensures
        out@ == origin@ + "  \u{2192}  "@ + destination@,
{
    let mut t = String::from_str(origin);
    t.append("  \u{2192}  ");
    t.append(destination);
    t
}

/// The title of the live near board.
pub fn near_title(origin: &str) -> (out: String)
    ensures
        out@ == "Avganger n\u{e6}r "@ + origin@,
{
    let mut t = String::from_str("Avganger n\u{e6}r ");
    t.append(origin);
    t
}

/// A key press, as far as the live board tells keys apart.
#[derive(Clone, Copy, Debug, PartialEq, Eq, Structural)]
pub enum Key {
    Char(char),
    Esc,
    Other,
}

/// What a key press asks of the live board.
#[derive(Clone, Copy, Debug, PartialEq, Eq, Structural)]
pub enum KeyAction {
    Quit,
    Refresh,
    Ignore,
}

/// `q`, Escape and Ctrl-C leave; `r` polls at once; anything else is ignored.
pub open spec fn spec_key_action(key: Key, control: bool) -> KeyAction {
    match key {
        Key::Char(c) => if c == 'q' {
            KeyAction::Quit
        } else if c == 'c' && control {
            KeyAction::Quit
        } else if c == 'r' {
            KeyAction::Refresh
        } else {
            KeyAction::Ignore
        },
        Key::Esc => KeyAction::Quit,
        Key::Other => KeyAction::Ignore,
    }
}

/// What a key press asks of the live board.
pub fn key_action(key: Key, control: bool) -> (out: KeyAction)
    ensures
        out == spec_key_action(key, control),
{
    match key {
        Key::Char(c) => if c == 'q' {
            KeyAction::Quit
        } else if c == 'c' && control {
            KeyAction::Quit
        } else if c == 'r' {
            KeyAction::Refresh
        } else {
            KeyAction::Ignore
        },
        Key::Esc => KeyAction::Quit,
        Key::Other => KeyAction::Ignore,
    }
}

/// What the poller hears while it waits for the next poll.
#[derive(Clone, Copy, Debug, PartialEq, Eq, Structural)]
pub enum PollWake {
    /// The interval ran out.
    Timeout,
    /// The user asked for fresh data.
    RefreshNow,
    /// The board is closing.
    Quit,
    /// The board has gone away without a word.
    Disconnected,
}

/// Whether the poller goes on to poll again: after the interval or on
/// request; not once the board is closing or gone.
pub fn poll_again(wake: PollWake) -> (out: bool)
    ensures
        out <==> (wake == PollWake::Timeout || wake == PollWake::RefreshNow),
{
    match wake {
        PollWake::Timeout | PollWake::RefreshNow => true,
        PollWake::Quit | PollWake::Disconnected => false,
    }
}

/// What the poller does next.
#[derive(Clone, Copy, Debug, PartialEq, Eq, Structural)]
pub enum PollerAction {
    /// Fetch fresh data.
    Fetch,
    /// Hand what was fetched to the board.
    Send,
    /// Wait for the interval or a word from the board.
    Wait,
    /// Stop for good.
    Stop,
}

/// What the poller learns from doing it.
#[derive(Clone, Copy, Debug, PartialEq, Eq, Structural)]
pub enum PollerEvent {
    /// A fetch finished, well or badly: either way it is sent on.
    Fetched,
    /// The board took the data.
    Sent,
    /// The board is gone, so the data could not be handed over.
    SendFailed,
    /// The wait ended.
    Woke(PollWake),
}

/// The poller's first action: fetch at once, before any wait.
pub open spec fn poller_first() -> PollerAction {
    PollerAction::Fetch
}

/// The poller's next action after `event` answered `last`. An event that does
/// not answer the action leaves it pending; nothing follows a stop.
pub open spec fn spec_poller_next(last: PollerAction, event: PollerEvent) -> PollerAction {
    match (last, event) {
        (PollerAction::Fetch, PollerEvent::Fetched) => PollerAction::Send,
        (PollerAction::Send, PollerEvent::Sent) => PollerAction::Wait,
        (PollerAction::Send, PollerEvent::SendFailed) => PollerAction::Stop,
        (PollerAction::Wait, PollerEvent::Woke(w)) => if w == PollWake::Timeout || w == PollWake::RefreshNow {
            PollerAction::Fetch
        } else {
            PollerAction::Stop
        },
        _ => last,
    }
}

/// The poller's first action.
pub fn poller_start() -> (out: PollerAction)
    ensures
        out == poller_first(),
{
    PollerAction::Fetch
}

/// The poller's next action after `event` answered `last`.
pub fn poller_next(last: PollerAction, event: PollerEvent) -> (out: PollerAction)
    ensures
        out == spec_poller_next(last, event),
{
    match (last, event) {
        (PollerAction::Fetch, PollerEvent::Fetched) => PollerAction::Send,
        (PollerAction::Send, PollerEvent::Sent) => PollerAction::Wait,
        (PollerAction::Send, PollerEvent::SendFailed) => PollerAction::Stop,
        (PollerAction::Wait, PollerEvent::Woke(w)) => if poll_again(w) {
            PollerAction::Fetch
        } else {
            PollerAction::Stop
        },
        _ => last,
    }
}

/// The actions a poller takes as it hears `events`, one more than the events:
/// the first action, then the one after each event.
pub open spec fn poller_trace(events: Seq<PollerEvent>) -> Seq<PollerAction>
    decreases events.len(),
{
    if events.len() == 0 {
        seq![poller_first()]
    } else {
        let before = poller_trace(events.drop_last());
        before.push(spec_poller_next(before.last(), events.last()))
    }
}

proof fn lemma_poller_trace_steps(events: Seq<PollerEvent>)
    ensures
        poller_trace(events).len() == events.len() + 1,
        poller_trace(events)[0] == poller_first(),
        forall|i: int|
            0 <= i < events.len() ==> poller_trace(events)[i + 1] == spec_poller_next(
                poller_trace(events)[i],
                #[trigger] events[i],
            ),
    decreases events.len(),
{
    if events.len() > 0 {
        let init = events.drop_last();
        lemma_poller_trace_steps(init);
        let before = poller_trace(init);
        assert forall|i: int| 0 <= i < events.len() implies poller_trace(events)[i + 1] == spec_poller_next(
            poller_trace(events)[i],
            #[trigger] events[i],
        ) by {
            if i < init.len() {
                assert(poller_trace(events)[i] == before[i]);
                assert(poller_trace(events)[i + 1] == before[i + 1]);
                assert(events[i] == init[i]);
            }
        }
    }
}

/// The poller, over any run of events: it fetches at once; each fetch is sent
/// to the board before any wait, and it waits only after a send; a wait that
/// ends on the interval or a refresh request leads to a fresh fetch, one that
/// ends on quit or disconnection stops it, and so does a send the board can
/// no longer take; once stopped it never fetches again.
pub proof fn law_poller_fetches_sends_then_waits(events: Seq<PollerEvent>)
    ensures
        ({
            let acts = poller_trace(events);
            &&& acts.len() == events.len() + 1
            &&& acts[0] == PollerAction::Fetch
            &&& forall|i: int|
                #![trigger events[i]]
                0 <= i < events.len() && acts[i] == PollerAction::Fetch && events[i]
                    == PollerEvent::Fetched ==> acts[i + 1] == PollerAction::Send
            &&& forall|i: int|
                #![trigger events[i]]
                0 <= i < events.len() && acts[i] == PollerAction::Send ==> (events[i]
                    == PollerEvent::Sent ==> acts[i + 1] == PollerAction::Wait) && (events[i]
                    == PollerEvent::SendFailed ==> acts[i + 1] == PollerAction::Stop)
            &&& forall|i: int|
                #![trigger events[i]]
                0 <= i < events.len() && acts[i] == PollerAction::Wait ==> ((events[i]
                    == PollerEvent::Woke(PollWake::Timeout) || events[i] == PollerEvent::Woke(
                    PollWake::RefreshNow,
                )) ==> acts[i + 1] == PollerAction::Fetch) && ((events[i] == PollerEvent::Woke(
                    PollWake::Quit,
                ) || events[i] == PollerEvent::Woke(PollWake::Disconnected)) ==> acts[i + 1]
                    == PollerAction::Stop)
            &&& forall|i: int|
                #![trigger events[i]]
                0 <= i < events.len() && acts[i + 1] == PollerAction::Wait ==> (acts[i]
                    == PollerAction::Send && events[i] == PollerEvent::Sent) || acts[i] == PollerAction::Wait
            &&& forall|i: int|
                #![trigger events[i]]
                0 <= i < events.len() && acts[i + 1] == PollerAction::Fetch ==> (acts[i]
                    == PollerAction::Wait && (events[i] == PollerEvent::Woke(PollWake::Timeout) || events[i]
                    == PollerEvent::Woke(PollWake::RefreshNow))) || acts[i] == PollerAction::Fetch
            &&& forall|i: int, j: int|
                0 <= i <= j < acts.len() && #[trigger] acts[i] == PollerAction::Stop ==> #[trigger] acts[j]
                    == PollerAction::Stop
        }),
{
    lemma_poller_trace_steps(events);
    let acts = poller_trace(events);
    assert forall|i: int, j: int|
        0 <= i <= j < acts.len() && #[trigger] acts[i] == PollerAction::Stop implies #[trigger] acts[j]
        == PollerAction::Stop by {
        lemma_stop_is_final(events, i, j);
    }
}

proof fn lemma_stop_is_final(events: Seq<PollerEvent>, i: int, j: int)
    requires
        0 <= i <= j < events.len() + 1,
        poller_trace(events)[i] == PollerAction::Stop,
    ensures
        poller_trace(events)[j] == PollerAction::Stop,
    decreases j - i,
{
    lemma_poller_trace_steps(events);
    if i < j {
        assert(poller_trace(events)[i + 1] == spec_poller_next(poller_trace(events)[i], events[i]));
        lemma_stop_is_final(events, i + 1, j);
    }
}

} // verus!

verus! {

/// The widths of the spans' texts, added up.
pub open spec fn text_width(spans: Seq<SpanView>) -> int
    decreases spans.len(),
{
    if spans.len() == 0 {
        0
    } else {
        text_width(spans.drop_last()) + spans.last().text.len()
    }
}

/// A leg whose every field fits its column of the live itinerary: a walk's
/// text within `LEG_PREFIX`; a ride's badge within three characters, its
/// mode within six and its boarding stop within `STOP_COLUMN`.
pub open spec fn leg_fits_columns(leg: Leg, origin: Seq<char>, destination: Seq<char>) -> bool {
    if !spec_is_transit(leg) {
        ("\u{21b3} "@ + spec_mode_label(leg.mode@) + " "@ + spec_duration_human(leg.duration as int)).len()
            <= LEG_PREFIX
    } else {
        &&& spec_leg_badge(leg).text.len() <= 3
        &&& spec_mode_label(leg.mode@).len() <= 6
        &&& spec_place_name(opt_string_view(leg.from_place.name), origin, destination).len() <= STOP_COLUMN
    }
}

/// Decimal text below a hundred is one or two characters long.
proof fn lemma_dec_short(n: nat)
    requires
        n < 100,
    ensures
        n < 10 ==> dec(n).len() == 1,
        10 <= n ==> dec(n).len() == 2,
{
    if n >= 10 {
        assert(dec(n / 10).len() == 1);
    }
}

/// A clock time is five characters: `HH:MM`.
proof fn lemma_hhmm_len(t: Time)
    requires
        t.wf(),
    ensures
        spec_hhmm(t).len() == 5,
{
    let sod = t.second_of_day();
    assert(0 <= sod < 86400);
    lemma_dec_short((sod / 3600) as nat);
    lemma_dec_short(((sod % 3600) / 60) as nat);
}

/// Padding never shortens, and fills up to the width.
proof fn lemma_pad_len(t: Seq<char>, w: nat)
    ensures
        pad_right(t, w).len() == if t.len() >= w {
            t.len()
        } else {
            w
        },
{
}

/// Walking and riding rows of the live itinerary put their arrow in the same
/// column, when each field fits its column: everything before the last span
/// is `6 + LEG_PREFIX` wide, and the last span begins with the arrow.
pub proof fn law_watch_arrows_share_one_column(leg: Leg, origin: Seq<char>, destination: Seq<char>)
    requires
        leg.wf(),
        leg_fits_columns(leg, origin, destination),
    ensures
        text_width(watch_leg_line(leg, origin, destination).drop_last()) == 6 + LEG_PREFIX,
        watch_leg_line(leg, origin, destination).last().text.take(2) == " \u{2192}"@,
{
    reveal_strlit("      ");
    reveal_strlit(" ");
    reveal_strlit(" \u{2192} ");
    reveal_strlit(" \u{2192}");
    reveal_strlit("\u{25cf}");
    reveal_strlit("\u{25cb}");
    let line = watch_leg_line(leg, origin, destination);
    let to = spec_place_name(opt_string_view(leg.to_place.name), origin, destination);
    assert((" \u{2192} "@ + to).take(2) =~= " \u{2192}"@);
    if !spec_is_transit(leg) {
        let walk = "\u{21b3} "@ + spec_mode_label(leg.mode@) + " "@ + spec_duration_human(leg.duration as int);
        lemma_pad_len(walk, LEG_PREFIX as nat);
        assert(line.drop_last() =~= seq![sv(Tone::Plain, "      "@), sv(Tone::Dim, pad_right(walk, LEG_PREFIX as nat))]);
        assert(text_width(line.drop_last()) == 6 + LEG_PREFIX) by {
            reveal_with_fuel(text_width, 3);
        }
    } else {
        let b = spec_leg_badge(leg);
        let from = spec_place_name(opt_string_view(leg.from_place.name), origin, destination);
        lemma_pad_len(spec_mode_label(leg.mode@), 6);
        lemma_pad_len(from, STOP_COLUMN as nat);
        lemma_hhmm_len(leg.expected_start_time);
        crate::render::law_delay_column_is_three_wide(spec_leg_delay(leg));
        assert(center3(b.text).len() == 3);
        let front = line.drop_last();
        assert(front.len() == 8);
        assert(text_width(front) == 6 + 5 + 8 + STOP_COLUMN + 7 + 1 + 1 + 3) by {
            reveal_with_fuel(text_width, 9);
            assert(spec_realtime_span(leg.realtime).text.len() == 1);
        }
    }
}

} // verus!
