//! `ruter doctor`: a report to paste into a bug report.
//!
//! It must never leak where the user lives: saved places and routes appear
//! only as counts and set-or-not flags, and the home directory is written `~`.

use vstd::prelude::*;
use crate::text::{chars_of, dec, pad_right, push_u64, push_char, push_padded, push_spaces, spaces, split_chars, split_on};

verus! {

/// `s` with every occurrence of `pat` replaced by `rep`, scanning from the
/// left and never overlapping, as `str::replace` does; an empty `pat`
/// matches before every character and at the end.
pub open spec fn replace_all(s: Seq<char>, pat: Seq<char>, rep: Seq<char>) -> Seq<char>
    decreases s.len(),
{
    if pat.len() == 0 {
        if s.len() == 0 {
            rep
        } else {
            rep + seq![s[0]] + replace_all(s.drop_first(), pat, rep)
        }
    } else if s.len() >= pat.len() && s.take(pat.len() as int) == pat {
        rep + replace_all(s.skip(pat.len() as int), pat, rep)
    } else if s.len() == 0 {
        Seq::empty()
    } else {
        seq![s[0]] + replace_all(s.drop_first(), pat, rep)
    }
}

/// `s` with the home directory written as `~`, when there is one.
pub open spec fn spec_redact(s: Seq<char>, home: Option<Seq<char>>) -> Seq<char> {
    match home {
        Some(h) => replace_all(s, h, "~"@),
        None => s,
    }
}

/// Whether `s` starts with `p`.
fn starts_with_at(s: &Vec<char>, i: usize, p: &Vec<char>) -> (out: bool)
    requires
        i <= s.len(),
    ensures
        out == (s@.len() - i >= p@.len() && s@.skip(i as int).take(p@.len() as int) == p@),
{
    if s.len() - i < p.len() {
        return false;
    }
    let mut k: usize = 0;
    while k < p.len()
        invariant
            i <= s.len(),
            s.len() - i >= p.len(),
            k <= p.len(),
            forall|j: int| 0 <= j < k ==> s@[i + j] == p@[j],
        decreases p.len() - k,
    {
        if s[i + k] != p[k] {
            assert(s@.skip(i as int).take(p@.len() as int)[k as int] != p@[k as int]);
            return false;
        }
        k += 1;
    }
    assert(s@.skip(i as int).take(p@.len() as int) =~= p@);
    true
}

/// `s` with every occurrence of `pat` replaced by `rep`.
pub fn replace_text(s: &str, pat: &str, rep: &str) -> (out: String)
    ensures
        out@ == replace_all(s@, pat@, rep@),
{
    let v = chars_of(s);
    let p = chars_of(pat);
    let mut out = String::new();
    let mut i: usize = 0;
    assert(v@.skip(0) =~= v@);
    while i < v.len()
        invariant
            v@ == s@,
            p@ == pat@,
            i <= v.len(),
            out@ + replace_all(v@.skip(i as int), p@, rep@) == replace_all(s@, pat@, rep@),
        decreases v.len() - i,
    {
        let ghost rest = v@.skip(i as int);
        if p.len() == 0 {
            out.append(rep);
            push_char(&mut out, v[i]);
            assert(rest.drop_first() =~= v@.skip(i + 1));
            assert(rest[0] == v@[i as int]);
            i += 1;
        } else if starts_with_at(&v, i, &p) {
            out.append(rep);
            assert(rest.skip(p@.len() as int) =~= v@.skip(i + p.len()));
            i += p.len();
        } else {
            push_char(&mut out, v[i]);
            assert(rest.drop_first() =~= v@.skip(i + 1));
            assert(rest[0] == v@[i as int]);
            i += 1;
        }
    }
    if p.len() == 0 {
        out.append(rep);
    }
    proof {
        assert(v@.skip(v.len() as int) =~= Seq::<char>::empty());
    }
    out
}

/// The user's home directory, as text: whatever `dirs::home_dir` finds.
///
/// Nothing is stated of the answer: it depends on the environment and the
/// machine.
#[verifier::external_body]
fn home_dir_text() -> Option<String> {
    match dirs::home_dir() {
        Some(h) => Some(h.display().to_string()),
        None => None,
    }
}

/// `s` with the home directory written as `~`, for `home` the home
/// directory's text.
pub fn redact_with(s: &str, home: &Option<String>) -> (out: String)
    ensures
        out@ == spec_redact(s@, crate::text::opt_string_view(*home)),
{
    match home {
        Some(h) => replace_text(s, h.as_str(), "~"),
        None => String::from_str(s),
    }
}

/// Swap the home directory for `~`: the username is not the point of the
/// report and has no place in a public issue.
pub fn redact(s: &str) -> (out: String)
    ensures
        exists|home: Option<Seq<char>>| out@ == spec_redact(s@, home),
{
    let home = home_dir_text();
    redact_with(s, &home)
}

} // verus!

verus! {

/// Whether `pat` occurs in `s` starting at `i`.
pub open spec fn occurs_at(s: Seq<char>, pat: Seq<char>, i: int) -> bool {
    0 <= i && i + pat.len() <= s.len() && s.subrange(i, i + pat.len()) == pat
}

/// A prefix of a redacted text without `~` in it was already a prefix of the
/// text.
proof fn lemma_tilde_free_prefix(t: Seq<char>, pat: Seq<char>, w: Seq<char>)
    requires
        pat.len() > 0,
        !w.contains('~'),
        replace_all(t, pat, "~"@).len() >= w.len(),
        replace_all(t, pat, "~"@).take(w.len() as int) == w,
    ensures
        t.len() >= w.len(),
        t.take(w.len() as int) == w,
    decreases t.len(),
{
    reveal_strlit("~");
    let r = replace_all(t, pat, "~"@);
    if w.len() > 0 {
        if t.len() >= pat.len() && t.take(pat.len() as int) == pat {
            assert(r[0] == '~');
            assert(w[0] == r.take(w.len() as int)[0]);
            assert(w.contains(w[0]));
        } else if t.len() == 0 {
        } else {
            let t1 = t.drop_first();
            let r1 = replace_all(t1, pat, "~"@);
            assert(r == seq![t[0]] + r1);
            let w1 = w.drop_first();
            assert(r1.take(w1.len() as int) =~= r.take(w.len() as int).drop_first());
            assert forall|c: char| w1.contains(c) implies w.contains(c) by {
                let k = choose|k: int| 0 <= k < w1.len() && w1[k] == c;
                assert(w[k + 1] == c);
            }
            lemma_tilde_free_prefix(t1, pat, w1);
            assert(w[0] == r.take(w.len() as int)[0]);
            assert forall|j: int| 0 <= j < w.len() implies t[j] == w[j] by {
                if j > 0 {
                    assert(t[j] == t1[j - 1]);
                    assert(t1.take(w1.len() as int)[j - 1] == w1[j - 1]);
                }
            }
            assert(t.take(w.len() as int) =~= w);
        }
    } else {
        assert(t.take(0) =~= w);
    }
}

/// Once every occurrence of a `~`-free `pat` is replaced by `~`, none is
/// left: what the replacement leaves never spells `pat` again.
pub proof fn law_redacted_text_never_holds_the_home(s: Seq<char>, pat: Seq<char>)
    requires
        pat.len() > 0,
        !pat.contains('~'),
    ensures
        forall|i: int| !occurs_at(#[trigger] replace_all(s, pat, "~"@), pat, i),
    decreases s.len(),
{
    reveal_strlit("~");
    let r = replace_all(s, pat, "~"@);
    if s.len() >= pat.len() && s.take(pat.len() as int) == pat {
        let rest = s.skip(pat.len() as int);
        law_redacted_text_never_holds_the_home(rest, pat);
        let r1 = replace_all(rest, pat, "~"@);
        assert(r == "~"@ + r1);
        assert forall|i: int| !occurs_at(r, pat, i) by {
            if occurs_at(r, pat, i) {
                if i == 0 {
                    assert(r[0] == '~');
                    assert(pat[0] == r.subrange(0, pat.len() as int)[0]);
                    assert(pat.contains(pat[0]));
                } else {
                    assert(r1.subrange(i - 1, i - 1 + pat.len()) =~= r.subrange(i, i + pat.len()));
                    assert(occurs_at(r1, pat, i - 1));
                }
            }
        }
    } else if s.len() == 0 {
        assert(r.len() == 0);
    } else {
        let s1 = s.drop_first();
        law_redacted_text_never_holds_the_home(s1, pat);
        let r1 = replace_all(s1, pat, "~"@);
        assert(r == seq![s[0]] + r1);
        assert forall|i: int| !occurs_at(r, pat, i) by {
            if occurs_at(r, pat, i) {
                if i == 0 {
                    let w = pat.drop_first();
                    assert forall|c: char| w.contains(c) implies pat.contains(c) by {
                        let k = choose|k: int| 0 <= k < w.len() && w[k] == c;
                        assert(pat[k + 1] == c);
                    }
                    assert(r1.take(w.len() as int) =~= r.subrange(0, pat.len() as int).drop_first());
                    lemma_tilde_free_prefix(s1, pat, w);
                    assert(pat[0] == r.subrange(0, pat.len() as int)[0]);
                    assert forall|j: int| 0 <= j < pat.len() implies s[j] == pat[j] by {
                        if j > 0 {
                            assert(s[j] == s1[j - 1]);
                            assert(s1.take(w.len() as int)[j - 1] == w[j - 1]);
                        }
                    }
                    assert(s.take(pat.len() as int) =~= pat);
                } else {
                    assert(r1.subrange(i - 1, i - 1 + pat.len()) =~= r.subrange(i, i + pat.len()));
                    assert(occurs_at(r1, pat, i - 1));
                }
            }
        }
    }
}

} // verus!

verus! {

/// `l` without one carriage return at its end.
pub open spec fn strip_cr(l: Seq<char>) -> Seq<char> {
    if l.len() > 0 && l.last() == '\r' {
        l.drop_last()
    } else {
        l
    }
}

/// The lines of `s` as `str::lines` yields them: split at each newline, a
/// carriage return before a newline dropped, and no empty line after a
/// final newline.
pub open spec fn text_lines(s: Seq<char>) -> Seq<Seq<char>> {
    let p = split_on(s, '\n');
    let ended = Seq::new((p.len() - 1) as nat, |i: int| strip_cr(p[i]));
    if p.last().len() == 0 {
        ended
    } else {
        ended.push(p.last())
    }
}

/// Width of the key column: the longest key, Core Location's
/// "stedstjenester på maskinen", is 26 characters.
pub const KEY_WIDTH: usize = 27;

/// Lines under the first, each indented to the value column.
pub open spec fn continuation_lines(ls: Seq<Seq<char>>) -> Seq<char>
    decreases ls.len(),
{
    if ls.len() == 0 {
        Seq::empty()
    } else {
        continuation_lines(ls.drop_last()) + spaces(KEY_WIDTH as nat) + ls.last() + "\n"@
    }
}

/// One fact of the report: the key padded to the value column and the
/// value's first line, then each further line of the value indented to the
/// same column, so a multi-line value keeps its shape.
pub open spec fn spec_row(key: Seq<char>, value: Seq<char>) -> Seq<char> {
    let ls = text_lines(value);
    if ls.len() == 0 {
        pad_right(key, KEY_WIDTH as nat) + "\n"@
    } else {
        pad_right(key, KEY_WIDTH as nat) + ls[0] + "\n"@ + continuation_lines(ls.drop_first())
    }
}

/// A section heading, after a blank line unless it opens the report.
pub open spec fn spec_head(text: Seq<char>, title: Seq<char>) -> Seq<char> {
    (if text.len() > 0 {
        text.push('\n')
    } else {
        text
    }) + "== "@ + title + "\n"@
}

/// The report as it is built up.
#[derive(Debug)]
pub struct Report {
    pub text: String,
}

impl Default for Report {
    fn default() -> (out: Report)
        ensures
            out.text@.len() == 0,
    {
        Report { text: String::new() }
    }
}

/// The lines of `value`.
fn lines_of(value: &str) -> (out: Vec<Vec<char>>)
    ensures
        out@.map_values(|l: Vec<char>| l@) == text_lines(value@),
{
    let v = chars_of(value);
    let pieces = split_chars(v.as_slice(), '\n');
    proof {
        crate::text::lemma_split_nonempty(value@, '\n');
    }
    let ghost p = split_on(value@, '\n');
    assert(pieces@.map_values(|q: Vec<char>| q@) == p);
    let n = pieces.len();
    let mut out: Vec<Vec<char>> = Vec::new();
    let mut i: usize = 0;
    while i + 1 < n
        invariant
            n == pieces.len(),
            n >= 1,
            n == p.len(),
            pieces@.map_values(|q: Vec<char>| q@) == p,
            i + 1 <= n,
            out@.map_values(|l: Vec<char>| l@) == Seq::new(i as nat, |k: int| strip_cr(p[k])),
        decreases n - i,
    {
        let mut line = pieces[i].clone();
        assert(line@ == p[i as int]);
        let len = line.len();
        if len > 0 && line[len - 1] == '\r' {
            line.pop();
        }
        assert(line@ == strip_cr(p[i as int]));
        let ghost prev = out@;
        let ghost lv = line@;
        out.push(line);
        assert(out@.map_values(|l: Vec<char>| l@) =~= prev.map_values(|l: Vec<char>| l@).push(lv));
        assert(out@.map_values(|l: Vec<char>| l@) =~= Seq::new((i + 1) as nat, |k: int| strip_cr(p[k])));
        i += 1;
    }
    let last = pieces[n - 1].clone();
    assert(last@ == p.last());
    if last.len() > 0 {
        let ghost prev = out@;
        out.push(last);
        assert(out@.map_values(|l: Vec<char>| l@) =~= prev.map_values(|l: Vec<char>| l@).push(p.last()));
    }
    out
}

impl Report {
    /// Start a section.
    pub fn head(&mut self, title: &str)
        ensures
            final(self).text@ == spec_head(old(self).text@, title@),
    {
        if chars_of(self.text.as_str()).len() > 0 {
            push_char(&mut self.text, '\n');
        }
        self.text.append("== ");
        self.text.append(title);
        self.text.append("\n");
    }

    /// Add one fact.
    pub fn row(&mut self, key: &str, value: &str)
        ensures
            final(self).text@ == old(self).text@ + spec_row(key@, value@),
    {
        let ls = lines_of(value);
        let ghost lv = ls@.map_values(|l: Vec<char>| l@);
        push_padded(&mut self.text, key, KEY_WIDTH);
        if ls.len() == 0 {
            self.text.append("\n");
            return;
        }
        crate::text::push_chars(&mut self.text, ls[0].as_slice());
        assert(lv[0] == ls@[0]@);
        self.text.append("\n");
        let ghost head = self.text@;
        let mut i: usize = 1;
        assert(lv.drop_first().take(0) =~= Seq::<Seq<char>>::empty());
        while i < ls.len()
            invariant
                1 <= i <= ls.len(),
                lv == ls@.map_values(|l: Vec<char>| l@),
                self.text@ == head + continuation_lines(lv.drop_first().take(i - 1)),
            decreases ls.len() - i,
        {
            push_spaces(&mut self.text, KEY_WIDTH);
            crate::text::push_chars(&mut self.text, ls[i].as_slice());
            self.text.append("\n");
            assert(lv.drop_first().take(i as int).drop_last() =~= lv.drop_first().take(i - 1));
            assert(lv.drop_first().take(i as int).last() == ls@[i as int]@);
            i += 1;
        }
        assert(lv.drop_first().take(ls.len() - 1) =~= lv.drop_first());
    }
}

/// `ja` or `nei`.
pub fn yes_no(b: bool) -> (out: String)
    ensures
        out@ == if b {
            "ja"@
        } else {
            "nei"@
        },
{
    if b {
        String::from_str("ja")
    } else {
        String::from_str("nei")
    }
}

/// `satt` or `ikke satt`.
pub fn set_or_not(b: bool) -> (out: String)
    ensures
        out@ == if b {
            "satt"@
        } else {
            "ikke satt"@
        },
{
    if b {
        String::from_str("satt")
    } else {
        String::from_str("ikke satt")
    }
}

} // verus!

verus! {

/// What `str::to_lowercase` makes of a string: the full Unicode lower-case
/// mapping, in which a capital sigma depends on its neighbours.
pub uninterp spec fn lowercase(s: Seq<char>) -> Seq<char>;

/// `s` in lower case, by `str::to_lowercase`, which depends on nothing but `s`.
#[verifier::external_body]
fn to_lower(s: &str) -> (out: String)
    ensures
        out@ == lowercase(s@),
{
    s.to_lowercase()
}

/// How a reachability check went and how long it took; a failure's message
/// with the home directory written `~`.
pub open spec fn spec_probe_text(outcome: Result<(), Seq<char>>, ms: u64, home: Option<Seq<char>>) -> Seq<char> {
    match outcome {
        Ok(()) => "OK ("@ + dec(ms as nat) + " ms)"@,
        Err(e) => "FEIL etter "@ + dec(ms as nat) + " ms: "@ + spec_redact(e, home),
    }
}

/// The value of an environment variable for the report: `ikke satt` when it
/// is unset or empty, else the value with the home directory written `~`.
pub open spec fn spec_env_text(value: Option<Seq<char>>, home: Option<Seq<char>>) -> Seq<char> {
    match value {
        Some(v) => if v.len() > 0 {
            spec_redact(v, home)
        } else {
            "ikke satt"@
        },
        None => "ikke satt"@,
    }
}

/// Everything the report states, gathered before it is written.
#[derive(Debug)]
pub struct DoctorFacts {
    /// The version of ruter running.
    pub version: String,
    /// `os arch`.
    pub platform: String,
    /// The macOS version, or why there is none.
    pub macos: String,
    /// Where the running binary lives, or why that is unknown.
    pub exe: Result<String, String>,
    /// Which source answered a real position lookup; `None` when none did.
    /// Why is left out on purpose: the reason can quote the saved origin.
    pub lookup: Option<crate::location::Source>,
    /// The Core Location diagnostics.
    pub gps_rows: Vec<(String, String)>,
    /// Where the config file belongs and whether it is there, or why that is
    /// unknown.
    pub config_path: Result<(String, bool), String>,
    /// Whether the config file could be read, and why not.
    pub loaded: Result<(), String>,
    /// The config in effect: the one read, or the defaults.
    pub config: crate::config::Config,
    /// The journey planner check: its outcome and milliseconds taken.
    pub journey_probe: (Result<(), String>, u64),
    /// The geocoder check: its outcome and milliseconds taken.
    pub geocoder_probe: (Result<(), String>, u64),
    /// `TERM`, `TERM_PROGRAM`, `NO_COLOR` and `XDG_CONFIG_HOME` with their values.
    pub env: Vec<(String, Option<String>)>,
    /// Whether the boards would be drawn in colour.
    pub colour: bool,
}

/// The facts of one section, each a key and its value.
pub open spec fn rows_text(rows: Seq<(Seq<char>, Seq<char>)>) -> Seq<char>
    decreases rows.len(),
{
    if rows.len() == 0 {
        Seq::empty()
    } else {
        rows_text(rows.drop_last()) + spec_row(rows.last().0, rows.last().1)
    }
}

/// The Core Location rows, their keys in lower case.
pub open spec fn gps_report_rows(rows: Seq<(Seq<char>, Seq<char>)>) -> Seq<(Seq<char>, Seq<char>)> {
    rows.map_values(|r: (Seq<char>, Seq<char>)| (lowercase(r.0), r.1))
}

/// The terminal rows: each variable's name in lower case and its value.
pub open spec fn env_report_rows(env: Seq<(String, Option<String>)>, home: Option<Seq<char>>) -> Seq<
    (Seq<char>, Seq<char>),
> {
    env.map_values(
        |e: (String, Option<String>)| (lowercase(e.0@), spec_env_text(crate::text::opt_string_view(e.1), home)),
    )
}

/// `yes` or `no` in Norwegian.
pub open spec fn yes_no_text(b: bool) -> Seq<char> {
    if b {
        "ja"@
    } else {
        "nei"@
    }
}

/// `set` or `not set` in Norwegian.
pub open spec fn set_text(b: bool) -> Seq<char> {
    if b {
        "satt"@
    } else {
        "ikke satt"@
    }
}

/// The facts of the first section: versions, platform and the binary.
pub open spec fn about_rows(f: DoctorFacts, home: Option<Seq<char>>) -> Seq<(Seq<char>, Seq<char>)> {
    seq![
        ("ruter"@, f.version@),
        ("plattform"@, f.platform@),
        ("macOS"@, f.macos@),
        (
            "app-bundle"@,
            match f.exe {
                Ok(path) => yes_no_text(contains_text(path@, ".app/Contents/MacOS/"@)) + " ("@ + spec_redact(
                    path@,
                    home,
                ) + ")"@,
                Err(e) => "ukjent ("@ + e@ + ")"@,
            },
        ),
    ]
}

/// Whether `pat` occurs anywhere in `s`.
pub open spec fn contains_text(s: Seq<char>, pat: Seq<char>) -> bool {
    exists|i: int| occurs_at(s, pat, i)
}

/// The facts of the configuration section: where it is and whether it
/// reads, the settings, and the saved places and routes as counts only.
pub open spec fn config_rows(f: DoctorFacts, home: Option<Seq<char>>) -> Seq<(Seq<char>, Seq<char>)> {
    let path = match f.config_path {
        Ok((p, exists)) => seq![("sti"@, spec_redact(p@, home)), ("finnes"@, yes_no_text(exists))],
        Err(e) => seq![("sti"@, "ukjent ("@ + e@ + ")"@)],
    };
    let c = f.config;
    path + seq![
        (
            "lesing"@,
            match f.loaded {
                Ok(()) => "OK"@,
                Err(e) => "FEIL: "@ + spec_redact(e@, home),
            },
        ),
        ("client_name"@, c.client_name@),
        ("num_results"@, dec(c.num_results as nat)),
        ("max_walk_minutes"@, dec(c.max_walk_minutes as nat)),
        ("modes"@, crate::text::join(crate::text::views(c.modes@), ", "@)),
        ("watch_interval_secs"@, dec(c.watch_interval_secs as nat)),
        ("lagrede steder"@, dec(c.places@.len())),
        ("lagrede reiseveier"@, dec(c.routes@.len())),
        ("default_origin"@, set_text(c.default_origin is Some)),
        ("default_destination"@, set_text(c.default_destination is Some)),
    ]
}

/// How the position lookup went: which source answered, or only that none
/// did, never why, since the reason can quote the saved origin.
pub open spec fn lookup_text(lookup: Option<crate::location::Source>) -> Seq<char> {
    match lookup {
        Some(s) => "OK, kilde: "@ + crate::location::spec_source_label(s),
        None => "FEIL: fant ingen posisjon"@,
    }
}

/// The report body: five sections of facts.
pub open spec fn spec_report_text(f: DoctorFacts, home: Option<Seq<char>>) -> Seq<char> {
    let lookup = lookup_text(f.lookup);
    let t1 = spec_head(Seq::empty(), "ruter doctor"@) + rows_text(about_rows(f, home));
    let t2 = spec_head(t1, "Posisjon"@) + rows_text(
        seq![("oppslag"@, lookup)] + gps_report_rows(crate::location::row_views(f.gps_rows@)),
    );
    let t3 = spec_head(t2, "Konfigurasjon"@) + rows_text(config_rows(f, home));
    let t4 = spec_head(t3, "Nett"@) + rows_text(
        seq![
            ("journey planner"@, spec_probe_text(
                match f.journey_probe.0 {
                    Ok(()) => Ok(()),
                    Err(e) => Err(e@),
                },
                f.journey_probe.1,
                home,
            )),
            ("geocoder"@, spec_probe_text(
                match f.geocoder_probe.0 {
                    Ok(()) => Ok(()),
                    Err(e) => Err(e@),
                },
                f.geocoder_probe.1,
                home,
            )),
        ],
    );
    spec_head(t4, "Terminal"@) + rows_text(env_report_rows(f.env@, home) + seq![("farger"@, yes_no_text(f.colour))])
}

/// The whole output of `ruter doctor`: a note on what it leaves out, then the
/// report fenced as a code block, ready to paste into an issue.
pub open spec fn spec_doctor_output(f: DoctorFacts, home: Option<Seq<char>>) -> Seq<char> {
    "\nLim inn alt under i issuen. Ingen koordinater, adresser eller stedsnavn er tatt med.\n\n```\n"@
        + spec_report_text(f, home) + "```\n"@
}

} // verus!

verus! {

/// Whether `pat` occurs anywhere in `s`.
pub fn text_contains(s: &str, pat: &str) -> (out: bool)
    ensures
        out == contains_text(s@, pat@),
{
    let v = chars_of(s);
    let p = chars_of(pat);
    if v.len() < p.len() {
        proof {
            assert forall|i: int| !occurs_at(s@, pat@, i) by {}
        }
        return false;
    }
    if p.len() == 0 {
        assert(s@.subrange(0, 0) =~= pat@);
        assert(occurs_at(s@, pat@, 0));
        return true;
    }
    let mut i: usize = 0;
    while p.len() <= v.len() - i
        invariant
            v@ == s@,
            p@ == pat@,
            v.len() >= p.len(),
            p.len() > 0,
            i <= v.len(),
            forall|j: int| 0 <= j < i ==> !occurs_at(s@, pat@, j),
        decreases v.len() - i,
    {
        assert(v@.skip(i as int).take(p@.len() as int) =~= v@.subrange(i as int, i + p@.len()));
        if starts_with_at(&v, i, &p) {
            assert(occurs_at(s@, pat@, i as int));
            return true;
        }
        assert(p.len() > 0);
        i += 1;
    }
    proof {
        assert forall|j: int| !occurs_at(s@, pat@, j) by {
            if j >= i {
                assert(j + pat@.len() > s@.len());
            }
        }
    }
    false
}

/// How a reachability check went.
pub fn probe_text(outcome: &Result<(), String>, ms: u64, home: &Option<String>) -> (out: String)
    ensures
        out@ == spec_probe_text(
            match outcome {
                Ok(()) => Ok(()),
                Err(e) => Err(e@),
            },
            ms,
            crate::text::opt_string_view(*home),
        ),
{
    match outcome {
        Ok(()) => {
            let mut t = String::from_str("OK (");
            push_u64(&mut t, ms);
            t.append(" ms)");
            t
        },
        Err(e) => {
            let mut t = String::from_str("FEIL etter ");
            push_u64(&mut t, ms);
            t.append(" ms: ");
            t.append(redact_with(e.as_str(), home).as_str());
            t
        },
    }
}

/// An environment variable's value for the report.
pub fn env_text(value: &Option<String>, home: &Option<String>) -> (out: String)
    ensures
        out@ == spec_env_text(crate::text::opt_string_view(*value), crate::text::opt_string_view(*home)),
{
    match value {
        Some(v) => if chars_of(v.as_str()).len() > 0 {
            redact_with(v.as_str(), home)
        } else {
            String::from_str("ikke satt")
        },
        None => String::from_str("ikke satt"),
    }
}

/// Adds the rows, in order.
fn push_rows(r: &mut Report, rows: &Vec<(String, String)>)
    ensures
        final(r).text@ == old(r).text@ + rows_text(crate::location::row_views(rows@)),
{
    let ghost start = r.text@;
    let ghost rv = crate::location::row_views(rows@);
    let mut i: usize = 0;
    assert(rv.take(0) =~= Seq::<(Seq<char>, Seq<char>)>::empty());
    while i < rows.len()
        invariant
            i <= rows.len(),
            rv == crate::location::row_views(rows@),
            r.text@ == start + rows_text(rv.take(i as int)),
        decreases rows.len() - i,
    {
        r.row(rows[i].0.as_str(), rows[i].1.as_str());
        assert(rv.take(i + 1).drop_last() =~= rv.take(i as int));
        assert(rv[i as int] == (rows@[i as int].0@, rows@[i as int].1@));
        i += 1;
    }
    assert(rv.take(rows.len() as int) =~= rv);
}

/// A row from two owned strings.
fn pair(key: &str, value: String) -> (out: (String, String))
    ensures
        out.0@ == key@,
        out.1@ == value@,
{
    (String::from_str(key), value)
}

/// The first section's rows.
fn about_rows_of(f: &DoctorFacts, home: &Option<String>) -> (out: Vec<(String, String)>)
    ensures
        crate::location::row_views(out@) == about_rows(*f, crate::text::opt_string_view(*home)),
{
    let bundle = match &f.exe {
        Ok(path) => {
            let mut t = yes_no(text_contains(path.as_str(), ".app/Contents/MacOS/"));
            t.append(" (");
            t.append(redact_with(path.as_str(), home).as_str());
            t.append(")");
            t
        },
        Err(e) => {
            let mut t = String::from_str("ukjent (");
            t.append(e.as_str());
            t.append(")");
            t
        },
    };
    let out = vec![
        pair("ruter", f.version.clone()),
        pair("plattform", f.platform.clone()),
        pair("macOS", f.macos.clone()),
        pair("app-bundle", bundle),
    ];
    assert(crate::location::row_views(out@) =~= about_rows(*f, crate::text::opt_string_view(*home)));
    out
}

/// The position section's rows.
fn position_rows_of(f: &DoctorFacts, home: &Option<String>) -> (out: Vec<(String, String)>)
    ensures
        crate::location::row_views(out@) == seq![
            (
                "oppslag"@,
                lookup_text(f.lookup),
            ),
        ] + gps_report_rows(crate::location::row_views(f.gps_rows@)),
{
    let lookup = match &f.lookup {
        Some(s) => {
            let mut t = String::from_str("OK, kilde: ");
            t.append(s.label());
            t
        },
        None => String::from_str("FEIL: fant ingen posisjon"),
    };
    let mut out: Vec<(String, String)> = Vec::new();
    out.push(pair("oppslag", lookup));
    let ghost first = crate::location::row_views(out@);
    let ghost g = crate::location::row_views(f.gps_rows@);
    let mut i: usize = 0;
    while i < f.gps_rows.len()
        invariant
            i <= f.gps_rows.len(),
            g == crate::location::row_views(f.gps_rows@),
            crate::location::row_views(out@) == first + gps_report_rows(g.take(i as int)),
        decreases f.gps_rows.len() - i,
    {
        let ghost prev = out@;
        let row = (to_lower(f.gps_rows[i].0.as_str()), f.gps_rows[i].1.clone());
        let ghost rv = (row.0@, row.1@);
        out.push(row);
        assert(crate::location::row_views(out@) =~= crate::location::row_views(prev).push(rv));
        assert(g[i as int] == (f.gps_rows@[i as int].0@, f.gps_rows@[i as int].1@));
        assert(gps_report_rows(g.take(i + 1)) =~= gps_report_rows(g.take(i as int)).push(rv));
        i += 1;
    }
    assert(g.take(f.gps_rows.len() as int) =~= g);
    out
}

/// The configuration section's rows.
fn config_rows_of(f: &DoctorFacts, home: &Option<String>) -> (out: Vec<(String, String)>)
    ensures
        crate::location::row_views(out@) == config_rows(*f, crate::text::opt_string_view(*home)),
{
    let mut out: Vec<(String, String)> = Vec::new();
    match &f.config_path {
        Ok((p, exists)) => {
            out.push(pair("sti", redact_with(p.as_str(), home)));
            out.push(pair("finnes", yes_no(*exists)));
        },
        Err(e) => {
            let mut t = String::from_str("ukjent (");
            t.append(e.as_str());
            t.append(")");
            out.push(pair("sti", t));
        },
    }
    let loaded = match &f.loaded {
        Ok(()) => String::from_str("OK"),
        Err(e) => {
            let mut t = String::from_str("FEIL: ");
            t.append(redact_with(e.as_str(), home).as_str());
            t
        },
    };
    let c = &f.config;
    let mut n1 = String::new();
    push_u64(&mut n1, c.num_results as u64);
    let mut n2 = String::new();
    push_u64(&mut n2, c.max_walk_minutes as u64);
    let mut n3 = String::new();
    push_u64(&mut n3, c.watch_interval_secs);
    let mut n4 = String::new();
    push_u64(&mut n4, c.places.len() as u64);
    let mut n5 = String::new();
    push_u64(&mut n5, c.routes.len() as u64);
    let ghost before = out@;
    out.push(pair("lesing", loaded));
    out.push(pair("client_name", c.client_name.clone()));
    out.push(pair("num_results", n1));
    out.push(pair("max_walk_minutes", n2));
    out.push(pair("modes", crate::text::join_strings(c.modes.as_slice(), ", ")));
    out.push(pair("watch_interval_secs", n3));
    out.push(pair("lagrede steder", n4));
    out.push(pair("lagrede reiseveier", n5));
    out.push(pair("default_origin", set_or_not(c.default_origin.is_some())));
    out.push(pair("default_destination", set_or_not(c.default_destination.is_some())));
    assert(crate::location::row_views(out@) =~= config_rows(*f, crate::text::opt_string_view(*home)));
    out
}

/// The network section's rows.
fn network_rows_of(f: &DoctorFacts, home: &Option<String>) -> (out: Vec<(String, String)>)
    ensures
        crate::location::row_views(out@) == seq![
            ("journey planner"@, spec_probe_text(
                match f.journey_probe.0 {
                    Ok(()) => Ok(()),
                    Err(e) => Err(e@),
                },
                f.journey_probe.1,
                crate::text::opt_string_view(*home),
            )),
            ("geocoder"@, spec_probe_text(
                match f.geocoder_probe.0 {
                    Ok(()) => Ok(()),
                    Err(e) => Err(e@),
                },
                f.geocoder_probe.1,
                crate::text::opt_string_view(*home),
            )),
        ],
{
    let out = vec![
        pair("journey planner", probe_text(&f.journey_probe.0, f.journey_probe.1, home)),
        pair("geocoder", probe_text(&f.geocoder_probe.0, f.geocoder_probe.1, home)),
    ];
    assert(crate::location::row_views(out@) =~= seq![
        ("journey planner"@, spec_probe_text(
            match f.journey_probe.0 {
                Ok(()) => Ok(()),
                Err(e) => Err(e@),
            },
            f.journey_probe.1,
            crate::text::opt_string_view(*home),
        )),
        ("geocoder"@, spec_probe_text(
            match f.geocoder_probe.0 {
                Ok(()) => Ok(()),
                Err(e) => Err(e@),
            },
            f.geocoder_probe.1,
            crate::text::opt_string_view(*home),
        )),
    ]);
    out
}

/// The terminal section's rows.
fn terminal_rows_of(f: &DoctorFacts, home: &Option<String>) -> (out: Vec<(String, String)>)
    ensures
        crate::location::row_views(out@) == env_report_rows(f.env@, crate::text::opt_string_view(*home)) + seq![
            ("farger"@, yes_no_text(f.colour)),
        ],
{
    let ghost h = crate::text::opt_string_view(*home);
    let mut out: Vec<(String, String)> = Vec::new();
    let mut i: usize = 0;
    while i < f.env.len()
        invariant
            i <= f.env.len(),
            h == crate::text::opt_string_view(*home),
            crate::location::row_views(out@) == env_report_rows(f.env@.take(i as int), h),
        decreases f.env.len() - i,
    {
        let ghost prev = out@;
        let row = (to_lower(f.env[i].0.as_str()), env_text(&f.env[i].1, home));
        let ghost rv = (row.0@, row.1@);
        out.push(row);
        assert(crate::location::row_views(out@) =~= crate::location::row_views(prev).push(rv));
        assert(env_report_rows(f.env@.take(i + 1), h) =~= env_report_rows(f.env@.take(i as int), h).push(rv));
        i += 1;
    }
    assert(f.env@.take(f.env.len() as int) =~= f.env@);
    let ghost prev = out@;
    out.push(pair("farger", yes_no(f.colour)));
    assert(crate::location::row_views(out@) =~= crate::location::row_views(prev).push(
        ("farger"@, yes_no_text(f.colour)),
    ));
    out
}

/// The report, for `home` the home directory's text.
pub fn doctor_output_with(f: &DoctorFacts, home: &Option<String>) -> (out: String)
    ensures
        out@ == spec_doctor_output(*f, crate::text::opt_string_view(*home)),
{
    let ghost h = crate::text::opt_string_view(*home);
    let mut r = Report::default();
    r.head("ruter doctor");
    push_rows(&mut r, &about_rows_of(f, home));
    r.head("Posisjon");
    push_rows(&mut r, &position_rows_of(f, home));
    r.head("Konfigurasjon");
    push_rows(&mut r, &config_rows_of(f, home));
    r.head("Nett");
    push_rows(&mut r, &network_rows_of(f, home));
    r.head("Terminal");
    push_rows(&mut r, &terminal_rows_of(f, home));
    proof {
        assert(r.text@ == spec_report_text(*f, h));
    }
    let mut out = String::from_str(
        "\nLim inn alt under i issuen. Ingen koordinater, adresser eller stedsnavn er tatt med.\n\n```\n",
    );
    out.append(r.text.as_str());
    out.append("```\n");
    out
}

/// The report, with the home directory as `dirs::home_dir` finds it.
pub fn doctor_output(f: &DoctorFacts) -> (out: String)
    ensures
        exists|home: Option<Seq<char>>| out@ == spec_doctor_output(*f, home),
{
    let home = home_dir_text();
    doctor_output_with(f, &home)
}

} // verus!

verus! {

/// The report never spells out a saved place or route: two sets of facts
/// that differ only in what the saved places and routes are, not in how
/// many there are, give the same report.
pub proof fn law_report_shows_counts_not_contents(f: DoctorFacts, g: DoctorFacts, home: Option<Seq<char>>)
    requires
        f.version@ == g.version@,
        f.platform@ == g.platform@,
        f.macos@ == g.macos@,
        f.exe == g.exe,
        f.lookup == g.lookup,
        f.gps_rows@ == g.gps_rows@,
        f.config_path == g.config_path,
        f.loaded == g.loaded,
        f.journey_probe == g.journey_probe,
        f.geocoder_probe == g.geocoder_probe,
        f.env@ == g.env@,
        f.colour == g.colour,
        f.config.client_name@ == g.config.client_name@,
        f.config.default_destination is Some <==> g.config.default_destination is Some,
        f.config.default_origin is Some <==> g.config.default_origin is Some,
        f.config.num_results == g.config.num_results,
        f.config.max_walk_minutes == g.config.max_walk_minutes,
        f.config.modes@ == g.config.modes@,
        f.config.watch_interval_secs == g.config.watch_interval_secs,
        f.config.places@.len() == g.config.places@.len(),
        f.config.routes@.len() == g.config.routes@.len(),
    ensures
        spec_doctor_output(f, home) == spec_doctor_output(g, home),
{
    assert(about_rows(f, home) =~= about_rows(g, home));
    assert(config_rows(f, home) =~= config_rows(g, home));
}

} // verus!
