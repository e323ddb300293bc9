//! `ruter upgrade`: which release is newest, and whether it is newer than the
//! one running.

use vstd::prelude::*;
use crate::text::{chars_of, split_chars, split_on, string_of_range};

verus! {

/// Whether `c` is an ASCII decimal digit.
pub open spec fn is_digit(c: char) -> bool {
    48 <= c as u32 <= 57
}

/// The number the decimal digits of `s` spell.
pub open spec fn digits_value(s: Seq<char>) -> int
    decreases s.len(),
{
    if s.len() == 0 {
        0
    } else {
        digits_value(s.drop_last()) * 10 + (s.last() as u32 - 48)
    }
}

/// `s` without one leading `+`, when something follows it.
pub open spec fn strip_plus(s: Seq<char>) -> Seq<char> {
    if s.len() > 1 && s[0] == '+' {
        s.drop_first()
    } else {
        s
    }
}

/// The value of a non-empty run of decimal digits that fits in a `u64`.
pub open spec fn parse_digits(d: Seq<char>) -> Option<u64> {
    if d.len() > 0 && (forall|i: int| 0 <= i < d.len() ==> is_digit(#[trigger] d[i])) && digits_value(d)
        <= u64::MAX {
        Some(digits_value(d) as u64)
    } else {
        None
    }
}

/// What `str::parse::<u64>` returns: one optional leading `+`, then at least
/// one decimal digit and nothing else, for a value that fits.
pub open spec fn spec_parse_u64(s: Seq<char>) -> Option<u64> {
    parse_digits(strip_plus(s))
}

/// Parse a decimal `u64` the way `str::parse::<u64>` does.
pub fn parse_u64(s: &[char]) -> (out: Option<u64>)
    ensures
        out == spec_parse_u64(s@),
{
    let start: usize = if s.len() > 1 && s[0] == '+' { 1 } else { 0 };
    let ghost d = strip_plus(s@);
    assert(d =~= s@.subrange(start as int, s@.len() as int));
    if s.len() == start {
        return None;
    }
    let mut value: u64 = 0;
    let mut i: usize = start;
    while i < s.len()
        invariant
            start <= i <= s.len(),
            d == strip_plus(s@),
            d =~= s@.subrange(start as int, s@.len() as int),
            forall|j: int| 0 <= j < i - start ==> is_digit(#[trigger] d[j]),
            value as int == digits_value(d.take(i - start)),
        decreases s.len() - i,
    {
        assert(d.take(i - start + 1).drop_last() =~= d.take(i - start));
        let c = s[i];
        assert(d[i - start] == c);
        let x = c as u32;
        if x < 48 || x > 57 {
            assert(!is_digit(d[i - start]));
            return None;
        }
        let digit = (x - 48) as u64;
        if value > (u64::MAX - digit) / 10 {
            proof {
                let k = (i - start + 1) as int;
                assert(d.take(k).drop_last() =~= d.take(k - 1));
                assert(d.take(k).last() == c);
                assert(digits_value(d.take(k)) == value * 10 + digit);
                if forall|j: int| 0 <= j < d.len() ==> is_digit(#[trigger] d[j]) {
                    lemma_digits_value_grows(d, k);
                }
            }
            return None;
        }
        value = value * 10 + digit;
        i += 1;
    }
    assert(d.take(d.len() as int) =~= d);
    Some(value)
}

/// A run of digits spells a number no smaller than any of its prefixes.
proof fn lemma_digits_value_grows(d: Seq<char>, k: int)
    requires
        0 <= k <= d.len(),
        forall|j: int| 0 <= j < d.len() ==> is_digit(#[trigger] d[j]),
    ensures
        0 <= digits_value(d.take(k)) <= digits_value(d),
    decreases d.len(),
{
    if k == d.len() {
        assert(d.take(k) =~= d);
        lemma_digits_value_nonneg(d);
    } else {
        let p = d.drop_last();
        assert(p.take(k) =~= d.take(k));
        lemma_digits_value_grows(p, k);
        lemma_digits_value_nonneg(p);
    }
}

/// A run of digits spells a non-negative number.
proof fn lemma_digits_value_nonneg(d: Seq<char>)
    requires
        forall|j: int| 0 <= j < d.len() ==> is_digit(#[trigger] d[j]),
    ensures
        digits_value(d) >= 0,
    decreases d.len(),
{
    if d.len() > 0 {
        lemma_digits_value_nonneg(d.drop_last());
    }
}

} // verus!

verus! {

/// The part of a version before any pre-release (`-`) or build (`+`) suffix.
pub open spec fn version_core(v: Seq<char>) -> Seq<char>
    decreases v.len(),
{
    if v.len() == 0 {
        Seq::empty()
    } else if v[0] == '-' || v[0] == '+' {
        Seq::empty()
    } else {
        seq![v[0]] + version_core(v.drop_first())
    }
}

/// The number of the `i`-th dotted field, or 0 when it is missing or is not a
/// number.
pub open spec fn field_or_zero(fields: Seq<Seq<char>>, i: int) -> u64 {
    if i < fields.len() {
        match spec_parse_u64(fields[i]) {
            Some(n) => n,
            None => 0,
        }
    } else {
        0
    }
}

/// Major, minor and patch of an `X.Y.Z` version, each 0 where unparseable.
pub open spec fn spec_parts(v: Seq<char>) -> (u64, u64, u64) {
    let fields = split_on(version_core(v), '.');
    (field_or_zero(fields, 0), field_or_zero(fields, 1), field_or_zero(fields, 2))
}

/// Lexicographic order on version triples.
pub open spec fn triple_gt(a: (u64, u64, u64), b: (u64, u64, u64)) -> bool {
    a.0 > b.0 || (a.0 == b.0 && (a.1 > b.1 || (a.1 == b.1 && a.2 > b.2)))
}

/// Whether `candidate` is a later version than `current`.
pub open spec fn spec_is_newer(candidate: Seq<char>, current: Seq<char>) -> bool {
    triple_gt(spec_parts(candidate), spec_parts(current))
}

/// The characters of `v` before its first `-` or `+`.
fn core_chars(v: &[char]) -> (out: Vec<char>)
    ensures
        out@ == version_core(v@),
{
    let mut out: Vec<char> = Vec::new();
    let mut i: usize = 0;
    assert(v@.skip(0) =~= v@);
    assert(out@ + version_core(v@.skip(0)) =~= version_core(v@));
    while i < v.len()
        invariant
            i <= v.len(),
            out@ + version_core(v@.skip(i as int)) == version_core(v@),
        decreases v.len() - i,
    {
        assert(v@.skip(i as int).drop_first() =~= v@.skip(i + 1));
        let c = v[i];
        if c == '-' || c == '+' {
            assert(version_core(v@.skip(i as int)) =~= Seq::<char>::empty());
            assert(out@ =~= version_core(v@));
            return out;
        }
        out.push(c);
        i += 1;
    }
    assert(version_core(v@.skip(i as int)) =~= Seq::<char>::empty());
    assert(out@ =~= version_core(v@));
    out
}

/// The number a field spells, or 0.
fn field_value(fields: &Vec<Vec<char>>, i: usize) -> (out: u64)
    ensures
        out == field_or_zero(fields@.map_values(|p: Vec<char>| p@), i as int),
{
    if i < fields.len() {
        match parse_u64(fields[i].as_slice()) {
            Some(n) => n,
            None => 0,
        }
    } else {
        0
    }
}

/// Major, minor and patch of an `X.Y.Z` string. Anything unparseable counts
/// as 0, and a pre-release or build suffix is ignored.
pub fn parts(version: &str) -> (out: (u64, u64, u64))
    ensures
        out == spec_parts(version@),
{
    let v = chars_of(version);
    let core = core_chars(v.as_slice());
    let fields = split_chars(core.as_slice(), '.');
    (field_value(&fields, 0), field_value(&fields, 1), field_value(&fields, 2))
}

/// Compare two `X.Y.Z` strings. Anything unparseable sorts as 0, so a
/// malformed tag can only ever look older: it never triggers an upgrade on its
/// own.
pub fn is_newer(candidate: &str, current: &str) -> (out: bool)
    ensures
        out == spec_is_newer(candidate@, current@),
{
    let a = parts(candidate);
    let b = parts(current);
    a.0 > b.0 || (a.0 == b.0 && (a.1 > b.1 || (a.1 == b.1 && a.2 > b.2)))
}

/// No version is newer than itself.
pub proof fn law_not_newer_than_itself(v: Seq<char>)
    ensures
        !spec_is_newer(v, v),
{
}

/// Of two versions, at most one is newer than the other.
pub proof fn law_newer_is_asymmetric(a: Seq<char>, b: Seq<char>)
    ensures
        !(spec_is_newer(a, b) && spec_is_newer(b, a)),
{
}

/// Newer than something newer is newer still.
pub proof fn law_newer_is_transitive(a: Seq<char>, b: Seq<char>, c: Seq<char>)
    requires
        spec_is_newer(a, b),
        spec_is_newer(b, c),
    ensures
        spec_is_newer(a, c),
{
}

/// A tag with no readable number in it is never newer than anything.
pub proof fn law_unreadable_tag_never_newer(tag: Seq<char>, current: Seq<char>)
    requires
        spec_parts(tag) == (0u64, 0u64, 0u64),
    ensures
        !spec_is_newer(tag, current),
{
}

/// A pre-release or build suffix does not change what a version counts as.
pub proof fn law_suffix_is_ignored(v: Seq<char>, sep: char, suffix: Seq<char>)
    requires
        sep == '-' || sep == '+',
        forall|i: int| 0 <= i < v.len() ==> v[i] != '-' && v[i] != '+',
    ensures
        spec_parts(v + seq![sep] + suffix) == spec_parts(v),
{
    lemma_core_of_suffixed(v, sep, suffix);
}

/// The core of a suffix-free version followed by a suffix is the version.
proof fn lemma_core_of_suffixed(v: Seq<char>, sep: char, suffix: Seq<char>)
    requires
        sep == '-' || sep == '+',
        forall|i: int| 0 <= i < v.len() ==> v[i] != '-' && v[i] != '+',
    ensures
        version_core(v + seq![sep] + suffix) == v,
        version_core(v) == v,
    decreases v.len(),
{
    let w = v + seq![sep] + suffix;
    if v.len() == 0 {
        assert(w[0] == sep);
    } else {
        assert(w.drop_first() =~= v.drop_first() + seq![sep] + suffix);
        lemma_core_of_suffixed(v.drop_first(), sep, suffix);
        assert(version_core(w) =~= seq![v[0]] + v.drop_first());
        assert(v =~= seq![v[0]] + v.drop_first());
    }
}

/// A non-empty run of decimal digits whose value fits in a `u64`.
pub open spec fn is_number(d: Seq<char>) -> bool {
    &&& d.len() > 0
    &&& forall|i: int| 0 <= i < d.len() ==> is_digit(#[trigger] d[i])
    &&& digits_value(d) <= u64::MAX
}

/// The version `x.y.z`.
pub open spec fn dotted(x: Seq<char>, y: Seq<char>, z: Seq<char>) -> Seq<char> {
    x + seq!['.'] + y + seq!['.'] + z
}

/// Text without the separator splits into itself alone.
proof fn lemma_split_without_sep(s: Seq<char>, sep: char)
    requires
        forall|i: int| 0 <= i < s.len() ==> s[i] != sep,
    ensures
        split_on(s, sep) == seq![s],
    decreases s.len(),
{
    if s.len() == 0 {
        assert(s =~= Seq::<char>::empty());
    } else {
        lemma_split_without_sep(s.drop_last(), sep);
        assert(s.drop_last().push(s.last()) =~= s);
        assert(seq![s.drop_last()].update(0, s.drop_last().push(s.last())) =~= seq![s]);
    }
}

/// Splitting text joined by the separator gives the pieces of each side.
proof fn lemma_split_joined(a: Seq<char>, b: Seq<char>, sep: char)
    ensures
        split_on(a + seq![sep] + b, sep) =~= split_on(a, sep) + split_on(b, sep),
    decreases b.len(),
{
    let w = a + seq![sep] + b;
    if b.len() == 0 {
        assert(w.drop_last() =~= a);
        assert(b =~= Seq::<char>::empty());
    } else {
        assert(w.drop_last() =~= a + seq![sep] + b.drop_last());
        lemma_split_joined(a, b.drop_last(), sep);
        crate::text::lemma_split_nonempty(b.drop_last(), sep);
        let pa = split_on(a, sep);
        let pb = split_on(b.drop_last(), sep);
        if b.last() != sep {
            let x = pb.last().push(b.last());
            assert((pa + pb).last() == pb.last());
            assert((pa + pb).update((pa + pb).len() - 1, x) =~= pa + pb.update(pb.len() - 1, x));
        }
    }
}

/// The three fields of a dotted version of plain numbers are those numbers.
proof fn lemma_dotted_fields(x: Seq<char>, y: Seq<char>, z: Seq<char>)
    requires
        is_number(x),
        is_number(y),
        is_number(z),
    ensures
        spec_parts(dotted(x, y, z)).0 == digits_value(x),
        spec_parts(dotted(x, y, z)).1 == digits_value(y),
        spec_parts(dotted(x, y, z)).2 == digits_value(z),
{
    let v = dotted(x, y, z);
    assert forall|i: int| 0 <= i < v.len() implies v[i] != '-' && v[i] != '+' by {
        if i < x.len() {
            assert(is_digit(x[i]));
        } else if i == x.len() {
        } else if i < x.len() + 1 + y.len() {
            assert(is_digit(y[i - x.len() - 1]));
        } else if i == x.len() + 1 + y.len() {
        } else {
            assert(is_digit(z[i - x.len() - 2 - y.len()]));
        }
    }
    lemma_core_of_suffixed(v, '-', Seq::empty());
    assert forall|i: int| 0 <= i < x.len() implies x[i] != '.' by {
        assert(is_digit(x[i]));
    }
    assert forall|i: int| 0 <= i < y.len() implies y[i] != '.' by {
        assert(is_digit(y[i]));
    }
    assert forall|i: int| 0 <= i < z.len() implies z[i] != '.' by {
        assert(is_digit(z[i]));
    }
    lemma_split_without_sep(x, '.');
    lemma_split_without_sep(y, '.');
    lemma_split_without_sep(z, '.');
    lemma_split_joined(x, y, '.');
    lemma_split_joined(x + seq!['.'] + y, z, '.');
    let fields = split_on(v, '.');
    assert(fields =~= seq![x, y, z]);
    assert(is_digit(x[0]) && is_digit(y[0]) && is_digit(z[0]));
    assert(strip_plus(x) == x && strip_plus(y) == y && strip_plus(z) == z);
    lemma_digits_value_nonneg(x);
    lemma_digits_value_nonneg(y);
    lemma_digits_value_nonneg(z);
}

/// Each field of an `x.y.z` version counts for the whole number it spells,
/// and versions compare field by field, major first: `0.10.0` is newer than
/// `0.9.0`, and `1.0.0` newer than `0.99.99`.
pub proof fn law_versions_compare_by_their_numbers(
    x1: Seq<char>,
    y1: Seq<char>,
    z1: Seq<char>,
    x2: Seq<char>,
    y2: Seq<char>,
    z2: Seq<char>,
)
    requires
        is_number(x1),
        is_number(y1),
        is_number(z1),
        is_number(x2),
        is_number(y2),
        is_number(z2),
    ensures
        spec_parts(dotted(x1, y1, z1)).0 == digits_value(x1),
        spec_parts(dotted(x1, y1, z1)).1 == digits_value(y1),
        spec_parts(dotted(x1, y1, z1)).2 == digits_value(z1),
        spec_is_newer(dotted(x1, y1, z1), dotted(x2, y2, z2)) <==> (digits_value(x1) > digits_value(x2) || (
        digits_value(x1) == digits_value(x2) && (digits_value(y1) > digits_value(y2) || (digits_value(y1)
            == digits_value(y2) && digits_value(z1) > digits_value(z2))))),
{
    lemma_dotted_fields(x1, y1, z1);
    lemma_dotted_fields(x2, y2, z2);
}

} // verus!

verus! {

/// `pat` occurs in `s` starting at `i`.
pub open spec fn occurs_at(s: Seq<char>, pat: Seq<char>, i: int) -> bool {
    0 <= i && i + pat.len() <= s.len() && s.subrange(i, i + pat.len()) == pat
}

/// Where the last occurrence of `pat` in `s` starts, if it occurs.
pub open spec fn last_occurrence(s: Seq<char>, pat: Seq<char>) -> Option<int> {
    if exists|i: int| occurs_at(s, pat, i) {
        Some(choose|i: int| occurs_at(s, pat, i) && forall|j: int| i < j ==> !occurs_at(s, pat, j))
    } else {
        None
    }
}

/// The release tag a `releases/latest` redirect points at: what follows the
/// last `/tag/` in the location, when that is not empty.
pub open spec fn spec_release_tag(location: Seq<char>) -> Option<Seq<char>> {
    match last_occurrence(location, "/tag/"@) {
        Some(i) => {
            let t = location.skip(i + 5);
            if t.len() > 0 {
                Some(t)
            } else {
                None
            }
        },
        None => None,
    }
}

/// Whether `pat` occurs in `s` at `i`.
fn occurs_here(s: &Vec<char>, pat: &Vec<char>, i: usize) -> (r: bool)
    requires
        i + pat.len() <= s.len(),
    ensures
        r == occurs_at(s@, pat@, i as int),
{
    let mut k: usize = 0;
    while k < pat.len()
        invariant
            i + pat.len() <= s.len(),
            k <= pat.len(),
            forall|j: int| 0 <= j < k ==> s@[i + j] == pat@[j],
        decreases pat.len() - k,
    {
        if s[i + k] != pat[k] {
            assert(s@.subrange(i as int, i + pat.len())[k as int] != pat@[k as int]);
            return false;
        }
        k += 1;
    }
    assert(s@.subrange(i as int, i + pat.len()) =~= pat@);
    true
}

/// The tag named by the `location` of GitHub's `releases/latest` redirect.
///
/// Reading the redirect rather than the JSON API needs no parsing and does not
/// spend the unauthenticated API rate limit.
pub fn release_tag(location: &str) -> (out: Option<String>)
    ensures
        match (out, spec_release_tag(location@)) {
            (Some(a), Some(b)) => a@ == b,
            (None, None) => true,
            _ => false,
        },
{
    let s = chars_of(location);
    let pat = chars_of("/tag/");
    proof {
        reveal_strlit("/tag/");
    }
    if s.len() < 5 {
        assert(!exists|i: int| occurs_at(s@, pat@, i));
        return None;
    }
    let mut i: usize = s.len() - 5 + 1;
    while i > 0
        invariant
            s@ == location@,
            pat@ == "/tag/"@,
            pat.len() == 5,
            i <= s.len() - 4,
            s.len() >= 5,
            forall|j: int| i <= j ==> !occurs_at(s@, pat@, j),
        decreases i,
    {
        let k = i - 1;
        if occurs_here(&s, &pat, k) {
            proof {
                let c = choose|c: int| occurs_at(s@, pat@, c) && forall|j: int| c < j ==> !occurs_at(s@, pat@, j);
                assert(occurs_at(s@, pat@, k as int) && forall|j: int| k < j ==> !occurs_at(s@, pat@, j));
                assert(c == k);
            }
            if k + 5 < s.len() {
                return Some(string_of_range(&s, k + 5, s.len()));
            }
            return None;
        }
        i = k;
    }
    None
}

} // verus!

verus! {

/// `s` without any leading `c`.
pub open spec fn trim_leading(s: Seq<char>, c: char) -> Seq<char>
    decreases s.len(),
{
    if s.len() > 0 && s[0] == c {
        trim_leading(s.drop_first(), c)
    } else {
        s
    }
}

/// The version a tag names: the tag without its leading `v`s.
pub fn version_of_tag(tag: &str) -> (out: String)
    ensures
        out@ == trim_leading(tag@, 'v'),
{
    let v = chars_of(tag);
    let mut i: usize = 0;
    assert(v@.skip(0) =~= v@);
    while i < v.len() && v[i] == 'v'
        invariant
            i <= v.len(),
            trim_leading(v@.skip(i as int), 'v') == trim_leading(tag@, 'v'),
            v@ == tag@,
        decreases v.len() - i,
    {
        assert(v@.skip(i as int).drop_first() =~= v@.skip(i + 1));
        i += 1;
    }
    assert(v@.subrange(i as int, v.len() as int) =~= v@.skip(i as int));
    string_of_range(&v, i, v.len())
}

/// What `ruter upgrade` does once it knows the newest version.
#[derive(Clone, Copy, Debug, PartialEq, Eq, Structural)]
pub enum UpgradeAction {
    /// The running version is already the newest.
    AlreadyNewest,
    /// A newer version exists, and the user only asked to be told.
    Announce,
    /// A newer version exists: install it.
    Install,
}

/// Decide what to do about the newest version `latest`.
pub fn upgrade_action(latest: &str, current: &str, check_only: bool) -> (out: UpgradeAction)
    ensures
        out == if !spec_is_newer(latest@, current@) {
            UpgradeAction::AlreadyNewest
        } else if check_only {
            UpgradeAction::Announce
        } else {
            UpgradeAction::Install
        },
{
    if !is_newer(latest, current) {
        UpgradeAction::AlreadyNewest
    } else if check_only {
        UpgradeAction::Announce
    } else {
        UpgradeAction::Install
    }
}


/// What `ruter upgrade` prints before it acts: both versions, then whether
/// there is nothing to do, a newer version to install with `ruter upgrade`,
/// or the upgrade starting.
pub open spec fn spec_upgrade_report(latest: Seq<char>, current: Seq<char>, action: UpgradeAction) -> Seq<char> {
    "Installert versjon: "@ + current + "\nNyeste versjon:     "@ + latest + "\n"@ + match action {
        UpgradeAction::AlreadyNewest => "\nDu har allerede nyeste versjon.\n"@,
        UpgradeAction::Announce => "\nNy versjon tilgjengelig. Oppgrader med `ruter upgrade`.\n"@,
        UpgradeAction::Install => "\n==> Oppgraderer til "@ + latest + "\n"@,
    }
}

/// What `ruter upgrade` prints before it acts.
pub fn upgrade_report(latest: &str, current: &str, action: UpgradeAction) -> (out: String)
    ensures
        out@ == spec_upgrade_report(latest@, current@, action),
{
    let mut out = String::from_str("Installert versjon: ");
    out.append(current);
    out.append("\nNyeste versjon:     ");
    out.append(latest);
    out.append("\n");
    match action {
        UpgradeAction::AlreadyNewest => out.append("\nDu har allerede nyeste versjon.\n"),
        UpgradeAction::Announce => out.append("\nNy versjon tilgjengelig. Oppgrader med `ruter upgrade`.\n"),
        UpgradeAction::Install => {
            out.append("\n==> Oppgraderer til ");
            out.append(latest);
            out.append("\n");
        },
    }
    out
}

} // verus!
