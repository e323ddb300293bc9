//! Entur geocoder: free-text address to coordinates, and the reverse.
//!
//! Responses are GeoJSON, so coordinates arrive as `[lon, lat]`.

use vstd::prelude::*;
use vstd::string::StringSliceAdditionalSpecFns;
use crate::text::{clone_opt, dec, hex_digit, hex_upper, push_char, push_u64};
use super::trip::CoordText;
use super::{Coord, GEOCODER_BASE};

verus! {

/// A geocoder hit.
#[derive(Clone, Debug)]
pub struct GeoMatch {
    pub label: String,
    pub coord: Coord,
    /// e.g. "address", "venue", "stop place", which helps the user pick.
    pub layer: Option<String>,
    /// The NSR id of a stop place, e.g. "NSR:StopPlace:58273".
    pub id: Option<String>,
}

/// One GeoJSON feature of a geocoder answer.
#[derive(Clone, Debug)]
pub struct Feature {
    /// GeoJSON order: longitude, then latitude (IEEE-754 bits of each).
    pub coordinates: [u64; 2],
    pub label: Option<String>,
    pub name: Option<String>,
    pub layer: Option<String>,
    pub id: Option<String>,
}

/// `m` is the hit `f` describes: its label, or its name when it has no label;
/// latitude from the second coordinate and longitude from the first; its layer.
pub open spec fn match_of_feature(m: GeoMatch, f: Feature) -> bool {
    &&& m.label == match f.label {
        Some(l) => l,
        None => f.name->0,
    }
    &&& m.coord == Coord { lat_bits: f.coordinates@[1], lon_bits: f.coordinates@[0] }
    &&& m.layer == f.layer
    &&& m.id == f.id
}

/// The features that carry a label or a name.
pub open spec fn named_features(fs: Seq<Feature>) -> Seq<Feature> {
    fs.filter(|f: Feature| f.label is Some || f.name is Some)
}

/// The hits of a feature collection, in order, skipping features with neither
/// a label nor a name.
pub fn into_matches(features: &Vec<Feature>) -> (out: Vec<GeoMatch>)
    ensures
        out.len() == named_features(features@).len(),
        forall|k: int|
            0 <= k < out.len() ==> match_of_feature(#[trigger] out@[k], named_features(features@)[k]),
{
    let mut out: Vec<GeoMatch> = Vec::new();
    let mut i: usize = 0;
    while i < features.len()
        invariant
            i <= features.len(),
            out.len() == named_features(features@.take(i as int)).len(),
            forall|k: int|
                0 <= k < out.len() ==> match_of_feature(
                    #[trigger] out@[k],
                    named_features(features@.take(i as int))[k],
                ),
        decreases features.len() - i,
    {
        proof {
            reveal_with_fuel(Seq::filter, 1);
            assert(features@.take(i + 1).drop_last() =~= features@.take(i as int));
        }
        let f = &features[i];
        let label = match &f.label {
            Some(l) => Some(l.clone()),
            None => clone_opt(&f.name),
        };
        match label {
            Some(label) => {
                out.push(
                    GeoMatch {
                        label,
                        coord: Coord { lat_bits: f.coordinates[1], lon_bits: f.coordinates[0] },
                        layer: clone_opt(&f.layer),
                        id: clone_opt(&f.id),
                    },
                );
            },
            None => {},
        }
        i += 1;
    }
    assert(features@.take(features.len() as int) =~= features@);
    out
}

/// A geocoder answer for `query`, refused when it holds no hit.
pub fn geocode_result(features: &Vec<Feature>, query: &str) -> (out: Result<Vec<GeoMatch>, String>)
    ensures
        named_features(features@).len() == 0 <==> out is Err,
        out matches Err(m) ==> m@ == "fant ingen treff for \""@ + query@ + "\""@,
        out matches Ok(v) ==> v.len() == named_features(features@).len() && forall|k: int|
            0 <= k < v.len() ==> match_of_feature(#[trigger] v@[k], named_features(features@)[k]),
{
    let matches = into_matches(features);
    if matches.len() == 0 {
        let mut m = String::new();
        m.append("fant ingen treff for \"");
        m.append(query);
        m.append("\"");
        return Err(m);
    }
    Ok(matches)
}

/// Whether a byte passes through percent-encoding unchanged.
pub open spec fn is_unreserved(b: u8) -> bool {
    (65 <= b <= 90) || (97 <= b <= 122) || (48 <= b <= 57) || b == 45 || b == 95 || b == 46
        || b == 126
}

/// The encoding of one byte: itself when unreserved, `%20` for a space, and
/// `%XX` in upper-case hex otherwise.
pub open spec fn encode_byte(b: u8) -> Seq<char> {
    if is_unreserved(b) {
        seq![b as char]
    } else if b == 32 {
        "%20"@
    } else {
        seq!['%', hex_upper((b / 16) as nat), hex_upper((b % 16) as nat)]
    }
}

/// The percent-encoding of a byte string.
pub open spec fn percent_encoded(bytes: Seq<u8>) -> Seq<char>
    decreases bytes.len(),
{
    if bytes.len() == 0 {
        Seq::empty()
    } else {
        percent_encoded(bytes.drop_last()) + encode_byte(bytes.last())
    }
}

/// Minimal percent-encoding for query strings, over the UTF-8 bytes of `s`.
pub fn urlencode(s: &str) -> (out: String)
    ensures
        out@ == percent_encoded(s.spec_bytes()),
{
    let bytes = s.as_bytes();
    let mut out = String::new();
    let mut i: usize = 0;
    while i < bytes.len()
        invariant
            bytes@ == s.spec_bytes(),
            i <= bytes.len(),
            out@ == percent_encoded(bytes@.take(i as int)),
        decreases bytes.len() - i,
    {
        assert(bytes@.take(i + 1).drop_last() =~= bytes@.take(i as int));
        let b = bytes[i];
        if (65 <= b && b <= 90) || (97 <= b && b <= 122) || (48 <= b && b <= 57) || b == 45 || b
            == 95 || b == 46 || b == 126 {
            push_char(&mut out, b as char);
        } else if b == 32 {
            out.append("%20");
        } else {
            push_char(&mut out, '%');
            push_char(&mut out, hex_digit(b / 16));
            push_char(&mut out, hex_digit(b % 16));
        }
        assert(out@ =~= percent_encoded(bytes@.take(i + 1)));
        i += 1;
    }
    assert(bytes@.take(bytes.len() as int) =~= bytes@);
    out
}

/// The value of a hexadecimal digit of either case, or -1 for any other character.
pub open spec fn hex_value(c: char) -> int {
    let v = c as int;
    if 48 <= v <= 57 {
        v - 48
    } else if 65 <= v <= 70 {
        v - 55
    } else if 97 <= v <= 102 {
        v - 87
    } else {
        -1
    }
}

/// Percent-decoding, read from the front: `%` and two hex digits stand for one
/// byte, any other character for its own code.
pub open spec fn percent_decoded(s: Seq<char>) -> Seq<u8>
    decreases s.len(),
{
    if s.len() == 0 {
        Seq::empty()
    } else if s.len() >= 3 && s[0] == '%' && hex_value(s[1]) >= 0 && hex_value(s[2]) >= 0 {
        seq![(hex_value(s[1]) * 16 + hex_value(s[2])) as u8] + percent_decoded(s.skip(3))
    } else {
        seq![s[0] as u8] + percent_decoded(s.skip(1))
    }
}

/// The number of characters the encoding of `bytes` takes: one for each byte
/// that passes unchanged, three for each other byte.
pub open spec fn encoded_width(bytes: Seq<u8>) -> nat
    decreases bytes.len(),
{
    if bytes.len() == 0 {
        0
    } else {
        encoded_width(bytes.drop_last()) + if is_unreserved(bytes.last()) {
            1nat
        } else {
            3nat
        }
    }
}

proof fn lemma_hex_round_trip(d: nat)
    requires
        d < 16,
    ensures
        hex_value(hex_upper(d)) == d,
{
}

/// The encoding of a non-empty byte string starts with that of its first byte.
proof fn lemma_encoded_front(bytes: Seq<u8>)
    requires
        bytes.len() > 0,
    ensures
        percent_encoded(bytes) =~= encode_byte(bytes[0]) + percent_encoded(bytes.skip(1)),
    decreases bytes.len(),
{
    if bytes.len() > 1 {
        let init = bytes.drop_last();
        lemma_encoded_front(init);
        assert(init.skip(1) =~= bytes.skip(1).drop_last());
        assert(bytes.skip(1).last() == bytes.last());
    } else {
        assert(bytes.drop_last() =~= Seq::<u8>::empty());
        assert(bytes.skip(1) =~= Seq::<u8>::empty());
    }
}

/// Decoding an encoded byte followed by anything gives the byte, then the
/// decoding of the rest.
proof fn lemma_decode_step(b: u8, rest: Seq<char>)
    ensures
        percent_decoded(encode_byte(b) + rest) =~= seq![b] + percent_decoded(rest),
{
    let s = encode_byte(b) + rest;
    if is_unreserved(b) {
        assert(s[0] == b as char);
        assert(s.skip(1) =~= rest);
    } else if b == 32 {
        reveal_strlit("%20");
        assert(s[0] == '%' && s[1] == '2' && s[2] == '0');
        assert(s.skip(3) =~= rest);
    } else {
        lemma_hex_round_trip((b / 16) as nat);
        lemma_hex_round_trip((b % 16) as nat);
        assert(s[0] == '%');
        assert(s[1] == hex_upper((b / 16) as nat));
        assert(s[2] == hex_upper((b % 16) as nat));
        assert(s.skip(3) =~= rest);
    }
}

/// Percent-decoding the encoding of any byte string gives back exactly those
/// bytes; the encoding is plain ASCII, and its length is one character for each
/// byte that passes unchanged and three for each other byte.
pub proof fn law_percent_encoding_round_trips(bytes: Seq<u8>)
    ensures
        percent_decoded(percent_encoded(bytes)) == bytes,
        forall|i: int|
            0 <= i < percent_encoded(bytes).len() ==> ((#[trigger] percent_encoded(bytes)[i]) as int)
                < 128,
        percent_encoded(bytes).len() == encoded_width(bytes),
    decreases bytes.len(),
{
    if bytes.len() == 0 {
        assert(percent_encoded(bytes) =~= Seq::<char>::empty());
    } else {
        law_percent_encoding_round_trips(bytes.drop_last());
        law_percent_encoding_round_trips(bytes.skip(1));
        lemma_encoded_front(bytes);
        lemma_decode_step(bytes[0], percent_encoded(bytes.skip(1)));
        assert(seq![bytes[0]] + bytes.skip(1) =~= bytes);
        let last = bytes.last();
        let e = encode_byte(last);
        reveal_strlit("%20");
        assert forall|i: int| 0 <= i < e.len() implies ((#[trigger] e[i]) as int) < 128 by {
            if !is_unreserved(last) && last != 32 {
                assert(last / 16 < 16);
            }
        }
        let whole = percent_encoded(bytes);
        let init = percent_encoded(bytes.drop_last());
        assert(whole =~= init + e);
        assert forall|i: int| 0 <= i < whole.len() implies ((#[trigger] whole[i]) as int) < 128 by {
            if i < init.len() {
                assert(whole[i] == init[i]);
            } else {
                assert(whole[i] == e[i - init.len()]);
            }
        }
    }
}

/// The autocomplete URL for a free-text query.
pub fn geocode_url(query: &str, size: usize) -> (out: String)
    ensures
        out@ == GEOCODER_BASE@ + "/autocomplete?text="@ + percent_encoded(query.spec_bytes())
            + "&size="@ + dec(size as nat) + "&lang=no"@,
{
    let mut out = String::new();
    out.append(GEOCODER_BASE);
    out.append("/autocomplete?text=");
    let q = urlencode(query);
    out.append(q.as_str());
    out.append("&size=");
    push_u64(&mut out, size as u64);
    out.append("&lang=no");
    out
}

/// The reverse-geocoding URL for a coordinate: the single nearest name.
pub fn reverse_url(at: &CoordText) -> (out: String)
    ensures
        out@ == GEOCODER_BASE@ + "/reverse?point.lat="@ + at.lat@ + "&point.lon="@ + at.lon@
            + "&size=1&lang=no"@,
{
    let mut out = String::new();
    out.append(GEOCODER_BASE);
    out.append("/reverse?point.lat=");
    out.append(at.lat.as_str());
    out.append("&point.lon=");
    out.append(at.lon.as_str());
    out.append("&size=1&lang=no");
    out
}


/// The autocomplete URL for a stop search: the venue layer only, where the
/// stop places are.
pub fn stop_search_url(query: &str, size: usize) -> (out: String)
    ensures
        out@ == GEOCODER_BASE@ + "/autocomplete?text="@ + percent_encoded(query.spec_bytes())
            + "&size="@ + dec(size as nat) + "&lang=no"@ + "&layers=venue"@,
{
    let mut out = geocode_url(query, size);
    out.append("&layers=venue");
    out
}

/// The hits that carry a stop-place id, in order: the only ones a route can
/// be told to pass through.
pub fn stops_only(matches: Vec<GeoMatch>) -> (out: Vec<GeoMatch>)
    ensures
        out@ == matches@.filter(|m: GeoMatch| m.id is Some),
{
    let ghost all = matches@;
    let mut rest = matches;
    let mut out: Vec<GeoMatch> = Vec::new();
    while rest.len() > 0
        invariant
            all == all.take(all.len() - rest@.len()) + rest@,
            rest@.len() <= all.len(),
            out@ == all.take(all.len() - rest@.len()).filter(|m: GeoMatch| m.id is Some),
        decreases rest.len(),
    {
        let ghost done = all.len() - rest@.len();
        proof {
            reveal_with_fuel(Seq::filter, 1);
            assert(all[done] == rest@[0]);
            assert(all.take(done + 1).drop_last() =~= all.take(done));
            assert(all.take(done + 1).last() == rest@[0]);
        }
        let m = rest.remove(0);
        if m.id.is_some() {
            out.push(m);
        }
        proof {
            assert(all =~= all.take(all.len() - rest@.len()) + rest@) by {
                assert(all.take(done + 1) =~= all.take(done).push(all[done]));
            }
        }
        assert(out@ =~= all.take(all.len() - rest@.len()).filter(|m: GeoMatch| m.id is Some));
    }
    assert(all.take(all.len() as int) =~= all);
    out
}

/// The hits that carry a stop-place id, in order.
pub open spec fn with_stop_ids(all: Seq<GeoMatch>) -> Seq<GeoMatch> {
    all.filter(|m: GeoMatch| m.id is Some)
}

/// The named features that carry a stop-place id, in order: the ones a stop
/// search answers with.
pub open spec fn stop_features(fs: Seq<Feature>) -> Seq<Feature> {
    named_features(fs).filter(|f: Feature| f.id is Some)
}

/// Keeping the hits with a stop-place id keeps exactly the hits of the
/// features with one, in the same order.
proof fn lemma_stop_ids_follow_features(all: Seq<GeoMatch>, fs: Seq<Feature>)
    requires
        all.len() == fs.len(),
        forall|k: int| 0 <= k < all.len() ==> match_of_feature(#[trigger] all[k], fs[k]),
    ensures
        with_stop_ids(all).len() == fs.filter(|f: Feature| f.id is Some).len(),
        forall|k: int|
            0 <= k < with_stop_ids(all).len() ==> match_of_feature(
                #[trigger] with_stop_ids(all)[k],
                fs.filter(|f: Feature| f.id is Some)[k],
            ),
    decreases all.len(),
{
    reveal_with_fuel(Seq::filter, 1);
    if all.len() > 0 {
        let (a, f) = (all.drop_last(), fs.drop_last());
        assert forall|k: int| 0 <= k < a.len() implies match_of_feature(#[trigger] a[k], f[k]) by {
            assert(a[k] == all[k] && f[k] == fs[k]);
        }
        lemma_stop_ids_follow_features(a, f);
        assert(match_of_feature(all[all.len() - 1], fs[fs.len() - 1]));
    }
}

/// A stop search's answer for `query`: the hits that carry a stop-place id,
/// in order, refused exactly when there is none.
pub fn stop_result(features: &Vec<Feature>, query: &str) -> (out: Result<Vec<GeoMatch>, String>)
    ensures
        stop_features(features@).len() == 0 <==> out is Err,
        out matches Err(m) ==> m@ == "fant ingen treff for \""@ + query@ + "\""@,
        out matches Ok(v) ==> v.len() == stop_features(features@).len() && forall|k: int|
            0 <= k < v.len() ==> match_of_feature(#[trigger] v@[k], stop_features(features@)[k]),
{
    let matches = into_matches(features);
    let ghost all = matches@;
    let stops = stops_only(matches);
    proof {
        lemma_stop_ids_follow_features(all, named_features(features@));
        assert(with_stop_ids(all) == stops@);
    }
    if stops.len() == 0 {
        let mut m = String::new();
        m.append("fant ingen treff for \"");
        m.append(query);
        m.append("\"");
        return Err(m);
    }
    Ok(stops)
}

} // verus!
