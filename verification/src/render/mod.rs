//! Shared formatting: colours, time helpers and line badges.

use vstd::prelude::*;

pub mod board;
use crate::text::{
    center3, chars_of, char_count, dec, int_dec, pad_right, push_center3, push_char, push_i64,
    push_padded, push_u64, str_eq,
};
use crate::time::{seconds_between, spec_seconds_between, trunc_div, Time};
use crate::text::{as_deref, opt_string_view};
use crate::entur::trip::{spec_is_transit, spec_leg_delay, Leg, Presentation, TripPattern};
use crate::entur::nearest::{spec_call_line, EstimatedCall};

verus! {

/// Fixed width of the horizontal rules, shared by the one-shot boards and the
/// `--watch` view so the two line up.
pub const RULE_WIDTH: usize = 72;

/// Minimum width of the place-name column on an itinerary row. A minimum:
/// `pad` never truncates, so a long stop name pushes its own row right.
pub const POINT_STOP: usize = 22;

/// Width of the boarding-stop column in the `--watch` itinerary.
pub const STOP_COLUMN: usize = 22;

/// Width a walking row of the `--watch` itinerary is padded to, so that its
/// arrow lines up with a ride's: the badge (5), the mode column (8), the stop
/// column, the time (7), the realtime marker with its gap (2) and the delay (3).
pub const LEG_PREFIX: usize = 47;

/// The vertical connector drawn between two points of a journey.
pub const CONNECTOR: &'static str = "\u{254e}";

/// A 24-bit colour.
#[derive(Clone, Copy, Debug, PartialEq, Eq, Structural)]
pub struct Rgb {
    pub r: u8,
    pub g: u8,
    pub b: u8,
}

/// Black.
pub open spec fn black() -> Rgb {
    Rgb { r: 0, g: 0, b: 0 }
}

/// White.
pub open spec fn white() -> Rgb {
    Rgb { r: 255, g: 255, b: 255 }
}

/// Whether `c` is an ASCII hexadecimal digit.
pub open spec fn is_hex_char(c: char) -> bool {
    let x = c as u32;
    (48 <= x <= 57) || (65 <= x <= 70) || (97 <= x <= 102)
}

/// The value of a hexadecimal digit.
pub open spec fn hex_value(c: char) -> int {
    let x = c as u32;
    if 48 <= x <= 57 {
        x - 48
    } else if 65 <= x <= 70 {
        x - 55
    } else {
        x - 87
    }
}

/// `s` without one leading `#`.
pub open spec fn strip_hash(s: Seq<char>) -> Seq<char> {
    if s.len() > 0 && s[0] == '#' {
        s.drop_first()
    } else {
        s
    }
}

/// The byte written by the two hexadecimal digits at `i` and `i + 1`.
pub open spec fn hex_byte(t: Seq<char>, i: int) -> u8 {
    (hex_value(t[i]) * 16 + hex_value(t[i + 1])) as u8
}

/// The colour a six-digit hex string names, with or without a leading `#`.
pub open spec fn spec_from_hex(s: Seq<char>) -> Option<Rgb> {
    let t = strip_hash(s);
    if t.len() == 6 && forall|i: int| 0 <= i < 6 ==> is_hex_char(#[trigger] t[i]) {
        Some(Rgb { r: hex_byte(t, 0), g: hex_byte(t, 2), b: hex_byte(t, 4) })
    } else {
        None
    }
}

/// The sRGB transfer function of each channel value in units of 10^-18, as the
/// WCAG definition of relative luminance gives it, rounded to the nearest unit.
pub const LINEAR: [u64; 256] = [
    0, 303526983548837, 607053967097675, 910580950646512,
    1214107934195350, 1517634917744187, 1821161901293025, 2124688884841862,
    2428215868390700, 2731742851939537, 3035269835488375, 3346535763899158,
    3676507324047435, 4024717018496304, 4391442037410293, 4776953480693727,
    5181516702338385, 5605391624202721, 6048833022857053, 6512090792594472,
    6995410187265386, 7499032043226170, 8023192985384993, 8568125618069302,
    9134058702220786, 9721217320237844, 10329823029626937, 10960094006488241,
    11612245179743881, 12286488356915867, 12983032342173008, 13702083047289683,
    14443843596092541, 15208514422912706, 15996293365509628, 16807375752887377,
    17641954488384077, 18500220128379688, 19382360956935723, 20288563056652391,
    21219010376003555, 22173884793387376, 23153366178110404, 24157632448504748,
    25186859627361622, 26241221894849890, 27320891639074889, 28426039504420788,
    29556834437808797, 30713443732993622, 31896033073011516, 33104766570885046,
    34339806808682166, 35601314875020322, 36889450401100016, 38204371595346483,
    39546235276732833, 40915196906853168, 42311410620809654, 43735029256973448,
    45186204385675544, 46665086336880077, 48171824226889403, 49706565984127216,
    51269458374043221, 52860647023180253, 54480276442442354, 56128490049600077,
    57805430191067211, 59511238162981183, 61246054231617592, 63010017653167654,
    64803266692905761, 66625938643772875, 68478169844400158, 70360095696595872,
    72271850682317472, 74213568380149619, 76185381481307806, 78187421805186325,
    80219820314468312, 82282707129814791, 84376211544148777, 86500462036549731,
    88655586285772937, 90841711183407678, 93058962846687423, 95307466630964665,
    97587347141862422, 99898728247113897, 102241733088101282, 104616484091104165,
    107023102978267592, 109461710778299337, 111932427836905573, 114435373826973712,
    116970667758510810, 119538427988345597, 122138772229601846, 124771817560950466,
    127437680435647420, 130136476690364278, 132868321553817914, 135633329655205648,
    138431615032451823, 141263291140271627, 144128470858057717, 147027266497594971,
    149959789810608546, 152926151996150155, 155926463707827348, 158960835060880363,
    162029375639110977, 165132194501667599, 168269400189690700, 171441100732822542,
    174647403655584994, 177888415983629129, 181164244249860124, 184474994500440897,
    187820772300677772, 191201682740791357, 194617830441575717, 198069319559948815,
    201556253794397080, 205078736390316892, 208636870145255662, 212230757414055096,
    215860500113899164, 219526199729269190, 223227957316808422, 226965873510098342,
    230740048524348944, 234550582161005074, 238397573812270936, 242281122465554733,
    246201326707835398, 250158284729953292, 254152094330826684, 258182852921595781,
    262250657529696026, 266355604802862317, 270497791013065761, 274677312060384528,
    278894263476810327, 283148740429991964, 287440837726917428, 291770649817535885,
    296138270798320928, 300543794415776405, 304987314069886084, 309468922817508403,
    313988713375717506, 318546778125091733, 323143209112950700, 327778098056542082,
    332451536346179169, 337163615048330236, 341914424908660765, 346704056355029482,
    351532599500439206, 356400144145943415, 361306779783509471, 366252595598839380,
    371237680474148954, 376262122990906229, 381326011432529949, 386429433787048930,
    391572477749723070, 396755230725626786, 401977779832195602, 407240211901736624,
    412542613483903596, 417885070848137239, 423267669986071527, 428690496613906579,
    434153636174748768, 439657173840918716, 445201194516227739, 450785782838223371,
    456411023180404518, 462076999654406829, 467783796112158823, 473531496148009313,
    479320183100826657, 485149940056070352, 491020849847835460, 496932995060870372,
    502886458032568385, 508881320854933552, 514917665376521274, 520995573204354070,
    527115125705812980, 533276404010505004, 539479489012107016, 545724461370186550,
    552011401511999863, 558340389634267664, 564711505704928890, 571124829464872903,
    577580440429650479, 584078417891163941, 590618840919336787, 597201788363763157,
    603827338855337481, 610495570807864619, 617206562419650837, 623960391675075915,
    630757136346146703, 637596873994032431, 644479681970582058, 651405637419823962,
    658374817279448239, 665387298282271905, 672443156957687265, 679542469633093708,
    686685312435313212, 693871761291989784, 701101891932973115, 708375779891686675,
    715693500506480502, 723055128921968915, 730460740090353380, 737910408772730765,
    745404209540387203, 752942216776077770, 760524504675292214, 768151147247506926,
    775822218317423366, 783537791526193153, 791297940332630001, 799102738014408709,
    806952257669251397, 814846572216101156, 822785754396283329, 830769876774654563,
    838799011740739849, 846873231509857688, 854992608124233586, 863157213454102015,
    871367119198797029, 879622396887831685, 887923117881966420, 896269353374266563,
    904661174391149107, 913098651793418913, 921581856277294476, 930110858375423420,
    938685728457887833, 947306536733199616, 955973353249285955, 964686247894465069,
    973445290398412358, 982250550333117081, 991102097113829699, 1000000000000000000,
];

/// Half of WCAG's 0.05 flare term, in the units of [`luminance`].
pub open spec fn flare() -> int {
    500_000_000_000_000_000_000
}

/// WCAG relative luminance in units of 10^-22:
/// 0.2126 R + 0.7152 G + 0.0722 B over the linearised channels.
pub open spec fn luminance(c: Rgb) -> int {
    2126 * LINEAR@[c.r as int] + 7152 * LINEAR@[c.g as int] + 722 * LINEAR@[c.b as int]
}

/// WCAG contrast ratio (lighter + 0.05) / (darker + 0.05) of two colours, as a
/// numerator and a denominator.
pub open spec fn contrast(a: Rgb, b: Rgb) -> (int, int) {
    let (x, y) = (luminance(a), luminance(b));
    if x > y {
        (x + flare(), y + flare())
    } else {
        (y + flare(), x + flare())
    }
}

/// Whether the ratio `p` is at least the ratio `q`.
pub open spec fn ratio_at_least(p: (int, int), q: (int, int)) -> bool {
    p.0 * q.1 >= q.0 * p.1
}

/// The declared text colour when it reaches a contrast of 3 against `bg`,
/// otherwise whichever of black and white contrasts more (black on a tie).
pub open spec fn spec_readable_text(bg: Rgb, declared: Option<Rgb>) -> Rgb {
    if declared is Some && ratio_at_least(contrast(bg, declared->0), (3, 1)) {
        declared->0
    } else if ratio_at_least(contrast(bg, black()), contrast(bg, white())) {
        black()
    } else {
        white()
    }
}

/// Every entry of the table is at most one.
proof fn lemma_linear_bounded(v: u8)
    ensures
        0 <= LINEAR@[v as int] <= 1_000_000_000_000_000_000,
{
    assert(LINEAR@.len() == 256);
    assert(forall|i: int| 0 <= i < 256 ==> LINEAR@[i] <= 1_000_000_000_000_000_000);
}

} // verus!

verus! {

/// Luminance of the two-digit bound: the square of `k` reaches `x` and the
/// square of `k - 1` does not, so a non-negative `y` squares to at least `x`
/// exactly when `y` is at least `k`.
proof fn lemma_square_threshold(y: int, k: int, x: int)
    requires
        y >= 0,
        k >= 1,
        k * k >= x,
        (k - 1) * (k - 1) < x,
    ensures
        (y * y >= x) == (y >= k),
{
    if y >= k {
        assert(y * y >= k * k) by (nonlinear_arith)
            requires
                y >= k,
                k >= 1,
        ;
    } else {
        assert(y * y <= (k - 1) * (k - 1)) by (nonlinear_arith)
            requires
                0 <= y <= k - 1,
        ;
    }
}

/// Relative luminance of `c`, in units of 10^-22.
fn luminance_of(c: Rgb) -> (l: u128)
    ensures
        l == luminance(c),
        l <= 10_000_000_000_000_000_000_000,
{
    proof {
        lemma_linear_bounded(c.r);
        lemma_linear_bounded(c.g);
        lemma_linear_bounded(c.b);
    }
    2126 * (LINEAR[c.r as usize] as u128) + 7152 * (LINEAR[c.g as usize] as u128) + 722 * (
    LINEAR[c.b as usize] as u128)
}

impl Rgb {
    /// Parse Entur's `presentation.colour`, which is hex with no leading `#`.
    /// Wire data must never panic, so anything unexpected yields `None`.
    pub fn from_hex(s: &str) -> (out: Option<Rgb>)
        ensures
            out == spec_from_hex(s@),
    {
        let v = chars_of(s);
        let start: usize = if v.len() > 0 && v[0] == '#' { 1 } else { 0 };
        let ghost t = strip_hash(s@);
        assert(t =~= v@.subrange(start as int, v@.len() as int));
        if v.len() - start != 6 {
            return None;
        }
        let mut vals: Vec<u8> = Vec::new();
        let mut i: usize = 0;
        while i < 6
            invariant
                0 <= start <= 1,
                v@ == s@,
                v.len() == start + 6,
                t =~= v@.subrange(start as int, v@.len() as int),
                i <= 6,
                vals.len() == i,
                forall|j: int| 0 <= j < i ==> is_hex_char(#[trigger] t[j]) && vals@[j] == hex_value(t[j]),
            decreases 6 - i,
        {
            let c = v[start + i];
            let x = c as u32;
            let d: u8 = if 48 <= x && x <= 57 {
                (x - 48) as u8
            } else if 65 <= x && x <= 70 {
                (x - 55) as u8
            } else if 97 <= x && x <= 102 {
                (x - 87) as u8
            } else {
                assert(!is_hex_char(t[i as int]));
                return None;
            };
            vals.push(d);
            i += 1;
        }
        assert(forall|j: int| 0 <= j < 6 ==> is_hex_char(#[trigger] t[j]));
        Some(Rgb { r: vals[0] * 16 + vals[1], g: vals[2] * 16 + vals[3], b: vals[4] * 16 + vals[5] })
    }

    /// Pick a readable foreground for this background.
    ///
    /// Some operators publish a `textColour` that fails contrast against their
    /// own `colour` (light yellow lines are the usual offender), so the declared
    /// value is only honoured when it reaches a WCAG contrast of 3.
    ///
    /// Luminance is computed in integers, in units of 1e-18, from a table of
    /// the linearised sRGB channel values; contrasts are compared as exact
    /// ratios of those integers.
    pub fn readable_text(self, declared: Option<Rgb>) -> (out: Rgb)
        ensures
            out == spec_readable_text(self, declared),
    {
        let e: u128 = 500_000_000_000_000_000_000;
        let lb = luminance_of(self);
        if let Some(d) = declared {
            let ld = luminance_of(d);
            let hi = if lb > ld { lb } else { ld };
            let lo = if lb > ld { ld } else { lb };
            assert(contrast(self, d) == (hi + flare(), lo + flare()));
            assert(ratio_at_least(contrast(self, d), (3, 1)) == ((hi + e) * 1 >= 3 * (lo + e)));
            assert((hi + e) * 1 == hi + e);
            if hi + e >= 3 * (lo + e) {
                return d;
            }
        }
        let k: u128 = 2_291_287_847_477_920_003_295;
        proof {
            let l = luminance(self);
            let lw = luminance(white());
            assert(luminance(black()) == 0);
            assert(lw == 10_000_000_000_000_000_000_000);
            lemma_linear_bounded(self.r);
            lemma_linear_bounded(self.g);
            lemma_linear_bounded(self.b);
            assert(l <= lw);
            assert(contrast(self, black()) == (l + flare(), flare()));
            assert(contrast(self, white()) == (lw + flare(), l + flare()));
            assert(ratio_at_least(contrast(self, black()), contrast(self, white())) == ((l + flare())
                * (l + flare()) >= (lw + flare()) * flare()));
            lemma_square_threshold(l + flare(), k as int, (lw + flare()) * flare());
        }
        if lb + e >= k {
            Rgb { r: 0, g: 0, b: 0 }
        } else {
            Rgb { r: 255, g: 255, b: 255 }
        }
    }
}

} // verus!

verus! {

/// Whether to emit ANSI escapes at all.
#[derive(Clone, Copy, Debug, PartialEq, Eq, Structural)]
pub struct Style {
    pub colour: bool,
}

/// `text` wrapped in the SGR escape `code` when colour is on, else as it is.
pub open spec fn spec_paint(colour: bool, text: Seq<char>, code: Seq<char>) -> Seq<char> {
    if colour {
        "\x1b["@ + code + "m"@ + text + "\x1b[0m"@
    } else {
        text
    }
}

/// `r;g;b` in decimal.
pub open spec fn rgb_text(c: Rgb) -> Seq<char> {
    dec(c.r as nat) + ";"@ + dec(c.g as nat) + ";"@ + dec(c.b as nat)
}

/// A line badge: the label centred in three columns; with colour on, drawn on
/// its background in a legible foreground, or in reverse video when it has no
/// colour; without colour, in square brackets.
pub open spec fn spec_badge(colour: bool, text: Seq<char>, bg: Option<Rgb>, fg: Option<Rgb>) -> Seq<
    char,
> {
    let padded = " "@ + center3(text) + " "@;
    if colour {
        match bg {
            Some(b) => "\x1b[48;2;"@ + rgb_text(b) + "m\x1b[38;2;"@ + rgb_text(
                spec_readable_text(b, fg),
            ) + "m\x1b[1m"@ + padded + "\x1b[0m"@,
            None => "\x1b[7m"@ + padded + "\x1b[0m"@,
        }
    } else {
        "["@ + center3(text) + "]"@
    }
}

/// Appends `r;g;b`.
fn push_rgb(s: &mut String, c: Rgb)
    ensures
        final(s)@ == old(s)@ + rgb_text(c),
{
    push_u64(s, c.r as u64);
    push_char(s, ';');
    push_u64(s, c.g as u64);
    push_char(s, ';');
    push_u64(s, c.b as u64);
    proof {
        reveal_strlit(";");
    }
    assert(s@ =~= old(s)@ + rgb_text(c));
}

impl Style {
    /// Colour when forced; otherwise only when `NO_COLOR` is unset or empty and
    /// stdout is a terminal, per the usual conventions.
    pub fn detect(force: Option<bool>, no_color: bool, stdout_is_terminal: bool) -> (out: Style)
        ensures
            out.colour == match force {
                Some(f) => f,
                None => !no_color && stdout_is_terminal,
            },
    {
        match force {
            Some(f) => Style { colour: f },
            None => Style { colour: !no_color && stdout_is_terminal },
        }
    }

    /// No escapes at all.
    pub fn plain() -> (out: Style)
        ensures
            !out.colour,
    {
        Style { colour: false }
    }

    /// Render a line badge. `fg` is the operator's declared `textColour`, which
    /// is honoured when legible and overridden when it is not.
    ///
    /// Line codes run from "1" to "34X", so the label is centred in a fixed
    /// three-character field to keep the columns after it aligned.
    pub fn badge(self, text: &str, bg: Option<Rgb>, fg: Option<Rgb>) -> (out: String)
        ensures
            out@ == spec_badge(self.colour, text@, bg, fg),
    {
        let mut out = String::new();
        if self.colour {
            match bg {
                Some(b) => {
                    let f = b.readable_text(fg);
                    out.append("\x1b[48;2;");
                    push_rgb(&mut out, b);
                    out.append("m\x1b[38;2;");
                    push_rgb(&mut out, f);
                    out.append("m\x1b[1m");
                    out.append(" ");
                    push_center3(&mut out, text);
                    out.append(" ");
                    out.append("\x1b[0m");
                },
                None => {
                    out.append("\x1b[7m");
                    out.append(" ");
                    push_center3(&mut out, text);
                    out.append(" ");
                    out.append("\x1b[0m");
                },
            }
        } else {
            out.append("[");
            push_center3(&mut out, text);
            out.append("]");
        }
        assert(out@ =~= spec_badge(self.colour, text@, bg, fg));
        out
    }

    /// `text` in the SGR colour or weight `code`, or plain without colour.
    pub fn paint(self, text: &str, code: &str) -> (out: String)
        ensures
            out@ == spec_paint(self.colour, text@, code@),
    {
        let mut out = String::new();
        if self.colour {
            out.append("\x1b[");
            out.append(code);
            out.append("m");
            out.append(text);
            out.append("\x1b[0m");
        } else {
            out.append(text);
        }
        assert(out@ =~= spec_paint(self.colour, text@, code@));
        out
    }

    pub fn dim(self, text: &str) -> (out: String)
        ensures
            out@ == spec_paint(self.colour, text@, "2"@),
    {
        self.paint(text, "2")
    }

    pub fn bold(self, text: &str) -> (out: String)
        ensures
            out@ == spec_paint(self.colour, text@, "1"@),
    {
        self.paint(text, "1")
    }

    pub fn green(self, text: &str) -> (out: String)
        ensures
            out@ == spec_paint(self.colour, text@, "32"@),
    {
        self.paint(text, "32")
    }

    pub fn yellow(self, text: &str) -> (out: String)
        ensures
            out@ == spec_paint(self.colour, text@, "33"@),
    {
        self.paint(text, "33")
    }

    pub fn red(self, text: &str) -> (out: String)
        ensures
            out@ == spec_paint(self.colour, text@, "31"@),
    {
        self.paint(text, "31")
    }

    pub fn cyan(self, text: &str) -> (out: String)
        ensures
            out@ == spec_paint(self.colour, text@, "36"@),
    {
        self.paint(text, "36")
    }
}

/// Pad before styling. ANSI escapes count toward `{:<n}`, so padding an
/// already-styled string silently misaligns every column once colour is on.
pub fn pad(text: &str, width: usize) -> (out: String)
    ensures
        out@ == pad_right(text@, width as nat),
{
    let mut out = String::new();
    push_padded(&mut out, text, width);
    out
}

/// `1 t` or `1 t 5 min` for a count of at least sixty minutes.
pub open spec fn hours_text(mins: int) -> Seq<char> {
    let h = mins / 60;
    let m = mins % 60;
    if m == 0 {
        dec(h as nat) + " t"@
    } else {
        dec(h as nat) + " t "@ + dec(m as nat) + " min"@
    }
}

/// Appends [`hours_text`].
fn push_hours(s: &mut String, mins: i64)
    requires
        mins >= 60,
    ensures
        final(s)@ == old(s)@ + hours_text(mins as int),
{
    let h = mins / 60;
    let m = mins % 60;
    push_u64(s, h as u64);
    if m == 0 {
        s.append(" t");
    } else {
        s.append(" t ");
        push_u64(s, m as u64);
        s.append(" min");
    }
    assert(s@ =~= old(s)@ + hours_text(mins as int));
}

/// Whole minutes, rounded half up (toward zero for negative counts as integer
/// division does), then `27 min` below an hour and `1 t 5 min` above.
pub open spec fn spec_duration_human(seconds: int) -> Seq<char> {
    let mins = trunc_div(seconds + 30, 60);
    if mins < 60 {
        int_dec(mins) + " min"@
    } else {
        hours_text(mins)
    }
}

/// `27 min`, `1 t 5 min`
pub fn duration_human(seconds: i64) -> (out: String)
    requires
        seconds <= i64::MAX - 30,
    ensures
        out@ == spec_duration_human(seconds as int),
{
    let mins = (seconds + 30) / 60;
    let mut out = String::new();
    if mins < 60 {
        push_i64(&mut out, mins);
        out.append(" min");
    } else {
        push_hours(&mut out, mins);
    }
    assert(out@ =~= spec_duration_human(seconds as int));
    out
}

/// The countdown for a difference of `secs` seconds: `for 3 min siden` more
/// than a minute ago, `nå` until half a minute ahead, then `om 4 min` or
/// `om 1 t 5 min` rounded to the nearest minute.
pub open spec fn relative_text(secs: int) -> Seq<char> {
    if secs < -60 {
        "for "@ + dec(((-secs) / 60) as nat) + " min siden"@
    } else if secs < 30 {
        "nå"@
    } else {
        let mins = (secs + 30) / 60;
        if mins < 60 {
            "om "@ + dec(mins as nat) + " min"@
        } else {
            "om "@ + hours_text(mins)
        }
    }
}

/// A countdown relative to `now`: `nå`, `om 4 min`, `om 1 t 5 min`.
pub fn relative(target: &Time, now: &Time) -> (out: String)
    requires
        target.wf(),
        now.wf(),
    ensures
        out@ == relative_text(spec_seconds_between(*target, *now)),
{
    let secs = seconds_between(target, now);
    let mut out = String::new();
    if secs < -60 {
        out.append("for ");
        push_u64(&mut out, ((0 - secs) / 60) as u64);
        out.append(" min siden");
    } else if secs < 30 {
        out.append("nå");
    } else {
        let mins = (secs + 30) / 60;
        out.append("om ");
        if mins < 60 {
            push_u64(&mut out, mins as u64);
            out.append(" min");
        } else {
            push_hours(&mut out, mins);
        }
    }
    assert(out@ =~= relative_text(secs as int));
    out
}

/// A delay as the column can hold it: at most two digits either way, so
/// anything beyond 99 minutes shows as 99.
pub open spec fn shown_delay(d: int) -> int {
    if d > 99 {
        99
    } else if d < -99 {
        -99
    } else {
        d
    }
}

/// The delay column: blank when on time, otherwise the signed minutes (at most
/// two digits) padded to three columns, red from five minutes late, yellow
/// below that, cyan early.
pub open spec fn spec_delay_marker(d: int, colour: bool) -> Seq<char> {
    let m = shown_delay(d);
    if d == 0 {
        "   "@
    } else if d >= 5 {
        spec_paint(colour, pad_right("+"@ + dec(m as nat), 3), "31"@)
    } else if d > 0 {
        spec_paint(colour, pad_right("+"@ + dec(m as nat), 3), "33"@)
    } else {
        spec_paint(colour, pad_right(int_dec(m), 3), "36"@)
    }
}

/// Render a delay as `+3` / `-1`, or nothing when it rounds away.
///
/// Always three columns wide, including when there is no delay to show and
/// when the delay runs past 99 minutes either way. The callers print it
/// mid-line, so a variable width here shifts every column after it.
pub fn delay_marker(delay_minutes: i64, style: Style) -> (out: String)
    ensures
        out@ == spec_delay_marker(delay_minutes as int, style.colour),
{
    if delay_minutes == 0 {
        return String::from_str("   ");
    }
    let shown: i64 = if delay_minutes > 99 {
        99
    } else if delay_minutes < -99 {
        -99
    } else {
        delay_minutes
    };
    let mut t = String::new();
    if delay_minutes > 0 {
        t.append("+");
        push_u64(&mut t, shown as u64);
    } else {
        push_i64(&mut t, shown);
    }
    let padded = pad(t.as_str(), 3);
    if delay_minutes >= 5 {
        style.red(padded.as_str())
    } else if delay_minutes > 0 {
        style.yellow(padded.as_str())
    } else {
        style.cyan(padded.as_str())
    }
}

/// Entur's coordinate-search endpoint names replaced by the user's own, and a
/// dash for a missing name.
pub open spec fn spec_place_name(raw: Option<Seq<char>>, origin: Seq<char>, destination: Seq<char>) -> Seq<
    char,
> {
    match raw {
        Some(r) => if r == "Origin"@ {
            origin
        } else if r == "Destination"@ {
            destination
        } else {
            r
        },
        None => "\u{2014}"@,
    }
}

/// The characters of an optional string slice.
pub open spec fn opt_view(o: Option<&str>) -> Option<Seq<char>> {
    match o {
        Some(s) => Some(s@),
        None => None,
    }
}

/// Resolve a place name from a leg.
///
/// For a coordinate-based search Entur names the endpoints with the literal
/// strings "Origin" and "Destination", which are not useful to show, so they
/// get substituted for the names the user actually asked for.
pub fn place_name<'a>(raw: Option<&'a str>, origin: &'a str, destination: &'a str) -> (out: &'a str)
    ensures
        out@ == spec_place_name(opt_view(raw), origin@, destination@),
{
    match raw {
        Some(r) => if str_eq(r, "Origin") {
            origin
        } else if str_eq(r, "Destination") {
            destination
        } else {
            r
        },
        None => "\u{2014}",
    }
}

/// The Norwegian label of a transport mode; unknown modes pass through.
pub open spec fn spec_mode_label(mode: Seq<char>) -> Seq<char> {
    if mode == "foot"@ {
        "gå"@
    } else if mode == "bus"@ {
        "buss"@
    } else if mode == "tram"@ {
        "trikk"@
    } else if mode == "metro"@ {
        "T-bane"@
    } else if mode == "rail"@ {
        "tog"@
    } else if mode == "water"@ {
        "båt"@
    } else if mode == "coach"@ {
        "ekspressbuss"@
    } else if mode == "air"@ {
        "fly"@
    } else if mode == "bicycle"@ {
        "sykkel"@
    } else {
        mode
    }
}

/// A short human label for a transport mode.
pub fn mode_label(mode: &str) -> (out: &str)
    ensures
        out@ == spec_mode_label(mode@),
{
    if str_eq(mode, "foot") {
        "gå"
    } else if str_eq(mode, "bus") {
        "buss"
    } else if str_eq(mode, "tram") {
        "trikk"
    } else if str_eq(mode, "metro") {
        "T-bane"
    } else if str_eq(mode, "rail") {
        "tog"
    } else if str_eq(mode, "water") {
        "båt"
    } else if str_eq(mode, "coach") {
        "ekspressbuss"
    } else if str_eq(mode, "air") {
        "fly"
    } else if str_eq(mode, "bicycle") {
        "sykkel"
    } else {
        mode
    }
}

} // verus!

verus! {

/// The text and colours of a line badge, resolved from the wire data.
///
/// `publicCode` is genuinely null for some rail services, and a colour that
/// fails to parse leaves the badge uncoloured rather than dropping the row.
#[derive(Clone, Debug)]
pub struct Badge {
    pub text: String,
    pub bg: Option<Rgb>,
    pub fg: Option<Rgb>,
}

/// What a badge shows.
pub struct BadgeView {
    pub text: Seq<char>,
    pub bg: Option<Rgb>,
    pub fg: Option<Rgb>,
}

impl View for Badge {
    type V = BadgeView;

    open spec fn view(&self) -> BadgeView {
        BadgeView { text: self.text@, bg: self.bg, fg: self.fg }
    }
}

/// The colour an optional hex string names, if it parses.
pub open spec fn opt_colour(s: Option<String>) -> Option<Rgb> {
    match s {
        Some(c) => spec_from_hex(c@),
        None => None,
    }
}

/// The badge colours of a line's presentation: background, then declared text.
pub open spec fn presentation_colours(p: Option<Presentation>) -> (Option<Rgb>, Option<Rgb>) {
    match p {
        Some(p) => (opt_colour(p.colour), opt_colour(p.text_colour)),
        None => (None, None),
    }
}

/// The badge of a leg: the line's public code, or the mode's label for an
/// unnumbered service.
pub open spec fn spec_leg_badge(leg: Leg) -> BadgeView {
    let text = match leg.line {
        Some(l) => match l.public_code {
            Some(c) => c@,
            None => spec_mode_label(leg.mode@),
        },
        None => spec_mode_label(leg.mode@),
    };
    let pres = match leg.line {
        Some(l) => l.presentation,
        None => None,
    };
    BadgeView {
        text,
        bg: presentation_colours(pres).0,
        fg: presentation_colours(pres).1,
    }
}

/// The badge of a departure: the line's public code, then its transport mode,
/// then nothing.
pub open spec fn spec_call_badge(call: EstimatedCall) -> BadgeView {
    let line = spec_call_line(call);
    let text = match line {
        Some(l) => match l.public_code {
            Some(c) => c@,
            None => match l.transport_mode {
                Some(m) => m@,
                None => Seq::empty(),
            },
        },
        None => Seq::empty(),
    };
    let pres = match line {
        Some(l) => l.presentation,
        None => None,
    };
    BadgeView {
        text,
        bg: presentation_colours(pres).0,
        fg: presentation_colours(pres).1,
    }
}

/// The colour an optional hex string names.
fn parse_opt_colour(s: &Option<String>) -> (out: Option<Rgb>)
    ensures
        out == opt_colour(*s),
{
    match s {
        Some(c) => Rgb::from_hex(c.as_str()),
        None => None,
    }
}

impl Badge {
    fn new(text: String, presentation: Option<&Presentation>) -> (out: Badge)
        ensures
            out.text == text,
            (out.bg, out.fg) == presentation_colours(
                match presentation {
                    Some(p) => Some(*p),
                    None => None,
                },
            ),
    {
        match presentation {
            Some(p) => Badge {
                text,
                bg: parse_opt_colour(&p.colour),
                fg: parse_opt_colour(&p.text_colour),
            },
            None => Badge { text, bg: None, fg: None },
        }
    }

    /// For an itinerary leg, falling back to the mode name for an unnumbered
    /// service.
    pub fn for_leg(leg: &Leg) -> (out: Badge)
        ensures
            out@ == spec_leg_badge(*leg),
    {
        match &leg.line {
            Some(l) => {
                let text = match &l.public_code {
                    Some(c) => c.clone(),
                    None => String::from_str(mode_label(leg.mode.as_str())),
                };
                match &l.presentation {
                    Some(p) => Badge::new(text, Some(p)),
                    None => Badge::new(text, None),
                }
            },
            None => Badge::new(String::from_str(mode_label(leg.mode.as_str())), None),
        }
    }

    /// For a departure, falling back to the transport mode and then to nothing.
    pub fn for_call(call: &EstimatedCall) -> (out: Badge)
        ensures
            out@ == spec_call_badge(*call),
    {
        match call.line() {
            Some(l) => {
                let text = match &l.public_code {
                    Some(c) => c.clone(),
                    None => match &l.transport_mode {
                        Some(m) => m.clone(),
                        None => String::new(),
                    },
                };
                match &l.presentation {
                    Some(p) => Badge::new(text, Some(p)),
                    None => Badge::new(text, None),
                }
            },
            None => Badge::new(String::new(), None),
        }
    }
}

/// What you board at a point, absent at the start and end of the journey.
#[derive(Clone, Debug)]
pub struct Ride {
    pub badge: Badge,
    /// Already put into Norwegian by `mode_label`.
    pub mode: String,
    /// Where this vehicle takes you.
    pub to: String,
    pub realtime: bool,
    pub delay_minutes: i64,
}

/// One row of an itinerary drawn as a timeline.
#[derive(Clone, Debug)]
pub enum Step {
    /// A place, the time you are there, and what you board if anything.
    Point { time: Time, place: String, ride: Option<Ride> },
    /// The stretch between two points under your own power.
    Walk { mode: String, seconds: i64 },
}

/// What a ride shows.
pub struct RideView {
    pub badge: BadgeView,
    pub mode: Seq<char>,
    pub to: Seq<char>,
    pub realtime: bool,
    pub delay_minutes: i64,
}

/// What a timeline row shows.
pub enum StepView {
    Point { time: Time, place: Seq<char>, ride: Option<RideView> },
    Walk { mode: Seq<char>, seconds: i64 },
}

impl View for Ride {
    type V = RideView;

    open spec fn view(&self) -> RideView {
        RideView {
            badge: self.badge@,
            mode: self.mode@,
            to: self.to@,
            realtime: self.realtime,
            delay_minutes: self.delay_minutes,
        }
    }
}

impl View for Step {
    type V = StepView;

    open spec fn view(&self) -> StepView {
        match self {
            Step::Point { time, place, ride } => StepView::Point {
                time: *time,
                place: place@,
                ride: match ride {
                    Some(r) => Some(r@),
                    None => None,
                },
            },
            Step::Walk { mode, seconds } => StepView::Walk { mode: mode@, seconds: *seconds },
        }
    }
}

/// The views of a list of rows.
pub open spec fn step_views(steps: Seq<Step>) -> Seq<StepView> {
    steps.map_values(|s: Step| s@)
}

/// The signposted platform of a place: ` spor 2`, or nothing when it has none.
pub open spec fn platform_suffix(p: crate::entur::trip::Place) -> Seq<char> {
    match p.quay {
        Some(q) => match q.public_code {
            Some(c) => if c@.len() > 0 {
                " spor "@ + c@
            } else {
                Seq::empty()
            },
            None => Seq::empty(),
        },
        None => Seq::empty(),
    }
}

/// The row of one leg: a walk is just its duration; a ride is the place you
/// board at, with its platform, the time, and what you board.
pub open spec fn leg_step(leg: Leg, origin: Seq<char>, destination: Seq<char>) -> StepView {
    if !spec_is_transit(leg) {
        StepView::Walk { mode: spec_mode_label(leg.mode@), seconds: leg.duration }
    } else {
        StepView::Point {
            time: leg.expected_start_time,
            place: spec_place_name(opt_string_view(leg.from_place.name), origin, destination)
                + platform_suffix(leg.from_place),
            ride: Some(
                RideView {
                    badge: spec_leg_badge(leg),
                    mode: spec_mode_label(leg.mode@),
                    to: spec_place_name(opt_string_view(leg.to_place.name), origin, destination),
                    realtime: leg.realtime,
                    delay_minutes: spec_leg_delay(leg) as i64,
                },
            ),
        }
    }
}

/// A journey flattened into rows: where you set off (unless the journey opens
/// by boarding, whose own row names that place), one row per leg, and where
/// you end up with the arrival time.
pub open spec fn spec_timeline(p: TripPattern, origin: Seq<char>, destination: Seq<char>) -> Seq<
    StepView,
> {
    let legs = p.legs@;
    let start = if legs.len() > 0 && !spec_is_transit(legs[0]) {
        seq![
            StepView::Point {
                time: p.expected_start_time,
                place: spec_place_name(opt_string_view(legs[0].from_place.name), origin, destination),
                ride: None,
            },
        ]
    } else {
        Seq::empty()
    };
    let end = if legs.len() > 0 {
        seq![
            StepView::Point {
                time: p.expected_end_time,
                place: spec_place_name(
                    opt_string_view(legs.last().to_place.name),
                    origin,
                    destination,
                ),
                ride: None,
            },
        ]
    } else {
        Seq::empty()
    };
    start + leg_rows(legs, origin, destination) + end
}

/// One row per leg, in order.
pub open spec fn leg_rows(legs: Seq<Leg>, origin: Seq<char>, destination: Seq<char>) -> Seq<StepView>
    decreases legs.len(),
{
    if legs.len() == 0 {
        Seq::empty()
    } else {
        leg_rows(legs.drop_last(), origin, destination).push(leg_step(legs.last(), origin, destination))
    }
}

/// A place name as an owned string.
fn place_text(raw: &Option<String>, origin: &str, destination: &str) -> (out: String)
    ensures
        out@ == spec_place_name(opt_string_view(*raw), origin@, destination@),
{
    String::from_str(place_name(as_deref(raw), origin, destination))
}

/// The row of one leg.
fn leg_row(leg: &Leg, origin: &str, destination: &str) -> (out: Step)
    requires
        leg.wf(),
    ensures
        out@ == leg_step(*leg, origin@, destination@),
{
    if !leg.is_transit() {
        return Step::Walk {
            mode: String::from_str(mode_label(leg.mode.as_str())),
            seconds: leg.duration,
        };
    }
    let mut place = place_text(&leg.from_place.name, origin, destination);
    match &leg.from_place.quay {
        Some(q) => match &q.public_code {
            Some(c) => if char_count(c.as_str()) > 0 {
                place.append(" spor ");
                place.append(c.as_str());
            },
            None => {},
        },
        None => {},
    }
    let ride = Ride {
        badge: Badge::for_leg(leg),
        mode: String::from_str(mode_label(leg.mode.as_str())),
        to: place_text(&leg.to_place.name, origin, destination),
        realtime: leg.realtime,
        delay_minutes: leg.delay_minutes(),
    };
    let out = Step::Point { time: leg.expected_start_time, place, ride: Some(ride) };
    assert(out@ == leg_step(*leg, origin@, destination@)) by {
        assert(out@->place =~= leg_step(*leg, origin@, destination@)->place);
    }
    out
}

/// Flatten a journey into the rows both boards draw.
///
/// A walking leg always ends where the next leg begins, so a walk is just its
/// duration and each place is named once, on the row that gives its time.
pub fn timeline(pattern: &TripPattern, origin: &str, destination: &str) -> (steps: Vec<Step>)
    requires
        pattern.wf(),
    ensures
        step_views(steps@) == spec_timeline(*pattern, origin@, destination@),
{
    let mut steps: Vec<Step> = Vec::new();
    if pattern.legs.len() > 0 && !pattern.legs[0].is_transit() {
        steps.push(
            Step::Point {
                time: pattern.expected_start_time,
                place: place_text(&pattern.legs[0].from_place.name, origin, destination),
                ride: None,
            },
        );
    }
    let ghost start = step_views(steps@);
    let mut i: usize = 0;
    while i < pattern.legs.len()
        invariant
            pattern.wf(),
            i <= pattern.legs.len(),
            step_views(steps@) == start + leg_rows(pattern.legs@.take(i as int), origin@, destination@),
        decreases pattern.legs.len() - i,
    {
        let row = leg_row(&pattern.legs[i], origin, destination);
        assert(row@ == leg_step(pattern.legs@[i as int], origin@, destination@));
        let ghost prev = steps@;
        steps.push(row);
        assert(step_views(steps@) =~= step_views(prev).push(row@));
        assert(pattern.legs@.take(i + 1).drop_last() =~= pattern.legs@.take(i as int));
        assert(step_views(steps@) =~= start + leg_rows(pattern.legs@.take(i + 1), origin@, destination@));
        i += 1;
    }
    assert(pattern.legs@.take(pattern.legs.len() as int) =~= pattern.legs@);
    let n = pattern.legs.len();
    if n > 0 {
        let ghost prev = steps@;
        steps.push(
            Step::Point {
                time: pattern.expected_end_time,
                place: place_text(&pattern.legs[n - 1].to_place.name, origin, destination),
                ride: None,
            },
        );
        assert(step_views(steps@) =~= step_views(prev).push(steps@.last()@));
    }
    assert(step_views(steps@) =~= spec_timeline(*pattern, origin@, destination@));
    steps
}

} // verus!

verus! {

/// How many changes a journey with `rides` boardings takes, in words.
pub open spec fn transfers_text(rides: nat) -> Seq<char> {
    let changes = if rides > 0 { (rides - 1) as nat } else { 0nat };
    if changes == 0 {
        "direkte"@
    } else if changes == 1 {
        "1 bytte"@
    } else {
        dec(changes) + " bytter"@
    }
}

/// The walk of a journey: metres rounded to the nearest ten below a
/// kilometre, kilometres with one decimal (comma) from there on.
pub open spec fn walk_text(cm: nat) -> Seq<char> {
    let metres = ((cm + 500) / 1000) * 10;
    if metres < 1000 {
        dec(metres) + " m til fots"@
    } else {
        let tenths = (cm + 5000) / 10000;
        dec(tenths / 10) + ","@ + dec(tenths % 10) + " km til fots"@
    }
}

/// The short description after a journey's times: how many changes, and how
/// far on foot when there is any walking at all.
pub open spec fn spec_trip_summary(p: TripPattern) -> Seq<char> {
    let rides = p.legs@.filter(|l: Leg| spec_is_transit(l)).len();
    if p.walk_distance_cm == 0 {
        transfers_text(rides)
    } else {
        transfers_text(rides) + " · "@ + walk_text(p.walk_distance_cm as nat)
    }
}

/// `direkte · 570 m til fots`, `1 bytte`, `2 bytter · 1,1 km til fots`.
pub fn trip_summary(p: &TripPattern) -> (out: String)
    ensures
        out@ == spec_trip_summary(*p),
{
    let rides_of = p.transit_legs();
    let rides = rides_of.len();
    assert(rides_of@.map_values(|l: &Leg| *l).len() == rides);
    let mut out = String::new();
    let changes: usize = if rides > 0 { rides - 1 } else { 0 };
    if changes == 0 {
        out.append("direkte");
    } else if changes == 1 {
        out.append("1 bytte");
    } else {
        push_u64(&mut out, changes as u64);
        out.append(" bytter");
    }
    let cm = p.walk_distance_cm;
    if cm != 0 {
        out.append(" · ");
        let whole: u64 = cm / 1000 + if cm % 1000 >= 500 { 1 } else { 0 };
        let metres: u64 = whole * 10;
        if metres < 1000 {
            push_u64(&mut out, metres);
            out.append(" m til fots");
        } else {
            let tenths: u64 = cm / 10000 + if cm % 10000 >= 5000 { 1 } else { 0 };
            push_u64(&mut out, tenths / 10);
            out.append(",");
            push_u64(&mut out, tenths % 10);
            out.append(" km til fots");
        }
    }
    assert(out@ =~= spec_trip_summary(*p));
    out
}

} // verus!

verus! {

/// Line codes of up to three characters, "1" to "34X", take the same five
/// columns as a plain badge, so the columns after a badge never drift.
pub proof fn law_badges_have_a_fixed_width(text: Seq<char>, bg: Option<Rgb>, fg: Option<Rgb>)
    requires
        text.len() <= 3,
    ensures
        spec_badge(false, text, bg, fg).len() == 5,
{
    reveal_strlit("[");
    reveal_strlit("]");
}

/// Decimal text below a hundred is one or two characters long.
proof fn lemma_dec_below_hundred(n: nat)
    requires
        n < 100,
    ensures
        1 <= dec(n).len() <= 2,
{
    if n >= 10 {
        assert(dec(n / 10).len() == 1);
    }
}

/// The delay column is three characters wide for every delay, on time
/// included, so it never shifts the columns after it.
pub proof fn law_delay_column_is_three_wide(d: int)
    ensures
        spec_delay_marker(d, false).len() == 3,
{
    reveal_strlit("   ");
    reveal_strlit("+");
    let m = shown_delay(d);
    if d > 0 {
        lemma_dec_below_hundred(m as nat);
    } else if d < 0 {
        lemma_dec_below_hundred((-m) as nat);
    }
}

/// Entur's endpoint placeholders never reach the screen: whatever the raw
/// name, the name shown is neither "Origin" nor "Destination", as long as the

/// A leg's row in the timeline is a walk exactly when the leg goes on foot or
/// by bicycle; any other leg is a ride row that boards at the leg's expected
/// start, carries the leg's own live-data flag, and is late by the whole
/// minutes from its planned to its expected start.
pub proof fn law_leg_rows_are_rides_for_vehicles(leg: Leg, origin: Seq<char>, destination: Seq<char>)
    ensures
        (leg_step(leg, origin, destination) is Walk) <==> (leg.mode@ == "foot"@ || leg.mode@ == "bicycle"@),
        leg_step(leg, origin, destination) matches StepView::Point { time, ride, .. } ==> {
            &&& time == leg.expected_start_time
            &&& ride matches Some(r)
            &&& r.realtime == leg.realtime
            &&& r.delay_minutes == trunc_div(
                spec_seconds_between(leg.expected_start_time, leg.aimed_start_time),
                60,
            ) as i64
        },
{
    crate::entur::trip::law_every_vehicle_leg_is_a_ride(leg);
}

/// names the user gave are not those words themselves.
pub proof fn law_placeholders_never_survive(raw: Option<Seq<char>>, origin: Seq<char>, destination: Seq<char>)
    requires
        origin != "Origin"@ && origin != "Destination"@,
        destination != "Origin"@ && destination != "Destination"@,
    ensures
        spec_place_name(raw, origin, destination) != "Origin"@,
        spec_place_name(raw, origin, destination) != "Destination"@,
{
    reveal_strlit("Origin");
    reveal_strlit("Destination");
    reveal_strlit("\u{2014}");
    assert("\u{2014}"@.len() != "Origin"@.len());
    assert("\u{2014}"@.len() != "Destination"@.len());
}

} // verus!

verus! {

/// The colour chosen for text on `bg` always reads, in the luminance model
/// above: its contrast against `bg` is at least 3. Choosing again with it as
/// the declared colour keeps it.
pub proof fn law_readable_text_is_legible_and_stable(bg: Rgb, declared: Option<Rgb>)
    ensures
        ratio_at_least(contrast(bg, spec_readable_text(bg, declared)), (3, 1)),
        spec_readable_text(bg, Some(spec_readable_text(bg, declared))) == spec_readable_text(bg, declared),
{
    lemma_linear_bounded(bg.r);
    lemma_linear_bounded(bg.g);
    lemma_linear_bounded(bg.b);
    assert(LINEAR@[0] == 0);
    assert(LINEAR@[255] == 1_000_000_000_000_000_000);
    let l = luminance(bg);
    let f = flare();
    let w = luminance(white());
    assert(luminance(black()) == 0);
    assert(w == 10_000_000_000_000_000_000_000);
    assert(0 <= l <= w);
    let r = spec_readable_text(bg, declared);
    if !(declared is Some && ratio_at_least(contrast(bg, declared->0), (3, 1))) {
        let x = l + f;
        assert(contrast(bg, white()) == (w + f, x));
        if ratio_at_least(contrast(bg, black()), contrast(bg, white())) {
            if l == 0 {
                assert(contrast(bg, black()) == (f, f));
                assert(f * x < (w + f) * f) by (nonlinear_arith)
                    requires
                        x == f,
                        f == 500_000_000_000_000_000_000,
                        w == 10_000_000_000_000_000_000_000,
                ;
            }
            assert(contrast(bg, black()) == (x, f));
            assert(x * x >= (w + f) * f);
            assert(x * 1 >= 3 * f) by (nonlinear_arith)
                requires
                    x * x >= (w + f) * f,
                    x > 0,
                    f == 500_000_000_000_000_000_000,
                    w == 10_000_000_000_000_000_000_000,
            ;
        } else {
            if l == 0 {
                assert(contrast(bg, black()) == (f, f));
            } else {
                assert(contrast(bg, black()) == (x, f));
            }
            assert(x * x < (w + f) * f);
            assert((w + f) * 1 >= 3 * x) by (nonlinear_arith)
                requires
                    x * x < (w + f) * f,
                    x > 0,
                    f == 500_000_000_000_000_000_000,
                    w == 10_000_000_000_000_000_000_000,
            ;
        }
    }
    assert(ratio_at_least(contrast(bg, r), (3, 1)));
}

} // verus!
