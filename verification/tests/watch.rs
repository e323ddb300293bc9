use ruter::entur::trip::{Leg, Line, Place, TripPattern};
use ruter::location::Source;
use ruter::render::LEG_PREFIX;
use ruter::time::Time;
use ruter::watch::{
    delay_span, first_line, footer_line, header_spans, key_action, near_lines, next_poll_in, placeholder_lines,
    poll_again, poll_interval_secs, poller_next, poller_start, PollerAction, PollerEvent, trip_lines, trip_title, Key, KeyAction, PollWake, Span, State, Tone,
};

fn now() -> Time {
    Time { secs: 1785448800 + 13 * 3600 + 50 * 60, nanos: 0, offset: 7200 }
}

fn at(h: i64, m: i64) -> Time {
    Time { secs: 1785448800 + h * 3600 + m * 60, nanos: 0, offset: 7200 }
}

#[test]
fn network_failure_downgrades_ready_to_stale_keeping_data() {
    let mut state: State<u32> = State::Loading;
    state.apply(Ok(42), now());
    assert!(matches!(state, State::Ready { .. }));
    state.apply(Err("nettverket er nede".to_string()), now());
    assert!(matches!(state, State::Stale { .. }));
    assert_eq!(state.data(), Some(&42));
}

#[test]
fn failure_before_any_data_is_terminal() {
    let mut state: State<u32> = State::Loading;
    state.apply(Err("boom".to_string()), now());
    assert!(matches!(state, State::Failed { .. }));
    assert_eq!(state.data(), None);
}

#[test]
fn recovering_from_stale_returns_to_ready() {
    let mut state: State<u32> = State::Loading;
    state.apply(Ok(1), now());
    state.apply(Err("blip".to_string()), now());
    state.apply(Ok(2), now());
    assert!(matches!(state, State::Ready { .. }));
    assert_eq!(state.data(), Some(&2));
}

#[test]
fn empty_results_still_render_a_row() {
    assert_eq!(trip_lines(&[], &now(), "A", "B").len(), 1);
    assert_eq!(near_lines(&[], &now()).len(), 1);
}

fn leg(mode: &str, code: Option<&str>, from: &str, to: &str, start: Time) -> Leg {
    Leg {
        mode: mode.to_string(),
        distance_cm: 0,
        duration: 300,
        aimed_start_time: start,
        expected_start_time: start,
        expected_end_time: start,
        realtime: code.is_some(),
        from_place: Place { name: Some(from.to_string()), quay: None },
        to_place: Place { name: Some(to.to_string()), quay: None },
        line: code.map(|c| Line { public_code: Some(c.to_string()), name: None, presentation: None }),
        situations: Vec::new(),
    }
}

fn journey() -> TripPattern {
    TripPattern {
        expected_start_time: at(14, 0),
        expected_end_time: at(14, 30),
        duration: 1800,
        walk_distance_cm: 50000,
        legs: vec![
            leg("foot", None, "Origin", "Jernbanetorget", at(14, 0)),
            leg("metro", Some("1"), "Jernbanetorget", "Gaustad", at(14, 7)),
            leg("foot", None, "Gaustad", "Destination", at(14, 25)),
        ],
    }
}

fn text(line: &[Span]) -> String {
    line.iter().map(|s| s.text.as_str()).collect()
}

#[test]
fn builds_rows_for_a_recorded_trip() {
    let lines = trip_lines(&[journey(), journey()], &now(), "Storgata", "Hjemme");
    // Headline and three legs per journey, a rule between and after them.
    assert_eq!(lines.len(), 10);
    assert!(text(&lines[0]).starts_with("  \u{25cf} om 10 min"), "{}", text(&lines[0]));
}

#[test]
fn itinerary_legs_share_one_destination_column() {
    let lines = trip_lines(&[journey()], &now(), "Storgata", "Hjemme");
    let columns: Vec<usize> = lines
        .iter()
        .map(|l| text(l))
        .filter(|t| t.starts_with("      ") && t.contains('\u{2192}'))
        .map(|t| t.chars().take_while(|c| *c != '\u{2192}').count())
        .collect();
    assert_eq!(columns.len(), 3);
    assert!(columns.windows(2).all(|w| w[0] == w[1]), "destination arrows are not in one column: {columns:?}");
    assert_eq!(columns[0], 6 + LEG_PREFIX + 1);
}

#[test]
fn watch_rows_substitute_endpoint_placeholders() {
    let lines = trip_lines(&[journey()], &now(), "Storgata", "Hjemme");
    let all: String = lines.iter().map(|l| text(l)).collect();
    assert!(!all.contains("Destination"), "raw Entur placeholder leaked:\n{all}");
    assert!(!all.contains("Origin"), "raw Entur placeholder leaked:\n{all}");
    assert!(all.contains("Hjemme"));
}

#[test]
fn delays_are_coloured_by_how_late() {
    assert_eq!(delay_span(0).tone, Tone::Plain);
    assert_eq!(delay_span(0).text, "   ");
    assert_eq!(delay_span(7).tone, Tone::Red);
    assert_eq!(delay_span(2).tone, Tone::Yellow);
    assert_eq!(delay_span(-1).tone, Tone::Cyan);
    assert_eq!(delay_span(-1).text, "-1 ");
}

#[test]
fn the_header_tells_how_fresh_the_board_is() {
    let stale: State<u32> = State::Stale { data: 1, at: Time { secs: now().secs - 95, ..now() }, err: "nede\ndetaljer".to_string() };
    let spans = header_spans("A  →  B", Source::Ip, &stale, &now(), 0);
    let t = text(&spans);
    assert_eq!(t, "A  →  B   13:50   \u{26a0} data 95 s gammel \u{b7} nede   \u{26a0} posisjon: IP (unøyaktig)");
    let ready: State<u32> = State::Ready { data: 1, at: now() };
    assert_eq!(text(&header_spans("T", Source::Gps, &ready, &now(), 12)), "T   13:50   oppdaterer om 12 s");
    assert_eq!(first_line("a\r\nb"), "a");
    assert_eq!(trip_title("Storgata", "Hjemme"), "Storgata  →  Hjemme");
}

#[test]
fn the_next_poll_counts_down_in_whole_seconds() {
    assert_eq!(next_poll_in(30, 0, 0), 30);
    assert_eq!(next_poll_in(30, 12, 500_000_000), 17);
    assert_eq!(next_poll_in(30, 30, 1), 0);
    assert_eq!(next_poll_in(30, 45, 0), 0);
    assert_eq!(poll_interval_secs(3), 10);
    assert_eq!(poll_interval_secs(45), 45);
}

#[test]
fn keys_and_wakeups_drive_the_loop() {
    assert_eq!(key_action(Key::Char('q'), false), KeyAction::Quit);
    assert_eq!(key_action(Key::Esc, false), KeyAction::Quit);
    assert_eq!(key_action(Key::Char('c'), true), KeyAction::Quit);
    assert_eq!(key_action(Key::Char('c'), false), KeyAction::Ignore);
    assert_eq!(key_action(Key::Char('r'), false), KeyAction::Refresh);
    assert!(poll_again(PollWake::Timeout));
    assert!(poll_again(PollWake::RefreshNow));
    assert!(!poll_again(PollWake::Quit));
    assert!(!poll_again(PollWake::Disconnected));
}

#[test]
fn the_body_waits_or_explains_before_there_is_data() {
    let loading: State<u32> = State::Loading;
    assert_eq!(text(&placeholder_lines(&loading).unwrap()[0]), "  Henter avganger …");
    let failed: State<u32> = State::Failed { err: "boom".to_string() };
    let lines = placeholder_lines(&failed).unwrap();
    assert_eq!(lines.len(), 3);
    assert_eq!(lines[0][0].tone, Tone::Red);
    assert!(placeholder_lines(&State::Ready { data: 1u32, at: now() }).is_none());
    assert_eq!(text(&footer_line()), "  q avslutt   r oppdater nå");
}

#[test]
fn the_poller_fetches_sends_and_waits_until_told_to_stop() {
    let mut a = poller_start();
    assert_eq!(a, PollerAction::Fetch);
    let run = [
        (PollerEvent::Fetched, PollerAction::Send),
        (PollerEvent::Sent, PollerAction::Wait),
        (PollerEvent::Woke(PollWake::Timeout), PollerAction::Fetch),
        (PollerEvent::Fetched, PollerAction::Send),
        (PollerEvent::Sent, PollerAction::Wait),
        (PollerEvent::Woke(PollWake::RefreshNow), PollerAction::Fetch),
        (PollerEvent::Fetched, PollerAction::Send),
        (PollerEvent::SendFailed, PollerAction::Stop),
        (PollerEvent::Fetched, PollerAction::Stop),
    ];
    for (event, expected) in run {
        a = poller_next(a, event);
        assert_eq!(a, expected);
    }
    assert_eq!(poller_next(PollerAction::Wait, PollerEvent::Woke(PollWake::Quit)), PollerAction::Stop);
    assert_eq!(poller_next(PollerAction::Wait, PollerEvent::Woke(PollWake::Disconnected)), PollerAction::Stop);
}
