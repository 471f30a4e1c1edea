//! The URL decoder: recovers the media address (and an optional subtitle
//! address) from a handler URL, and the session parameters from the media
//! address itself.
use vstd::prelude::*;
use vstd::utf8::valid_utf8;

use crate::codec;
use crate::error::DecodeError;
use crate::error::ExtractError;
use crate::error::Field;
use crate::text;

verus! {

/// The scheme prefix every handler URL must begin with: `mpv://play/`.
pub open spec fn scheme_prefix() -> Seq<u8> {
    seq![109u8, 112u8, 118u8, 58u8, 47u8, 47u8, 112u8, 108u8, 97u8, 121u8, 47u8]
}

/// The delimiter marking an attached subtitle segment: `/?subfile=`.
pub open spec fn subfile_marker() -> Seq<u8> {
    seq![47u8, 63u8, 115u8, 117u8, 98u8, 102u8, 105u8, 108u8, 101u8, 61u8]
}

fn scheme_prefix_bytes() -> (r: Vec<u8>)
    ensures
        r@ == scheme_prefix(),
{
    let r: [u8; 11] = [109, 112, 118, 58, 47, 47, 112, 108, 97, 121, 47];
    let v = vstd::slice::slice_to_vec(r.as_slice());
    proof {
        assert(v@ =~= scheme_prefix());
    }
    v
}

fn subfile_marker_bytes() -> (r: Vec<u8>)
    ensures
        r@ == subfile_marker(),
{
    let r: [u8; 10] = [47, 63, 115, 117, 98, 102, 105, 108, 101, 61];
    let v = vstd::slice::slice_to_vec(r.as_slice());
    proof {
        assert(v@ =~= subfile_marker());
    }
    v
}

/// What decoding a handler URL yields: trailing `=` padding is ignored, the
/// scheme prefix must be present, the remainder is either one encoded
/// segment or two separated by the subtitle delimiter (the subtitle segment
/// ending at the first `&`), and each decoded segment must be UTF-8 text.
pub open spec fn extract_urls_spec(input: Seq<u8>) -> Result<(Seq<u8>, Seq<u8>), DecodeError> {
    let t = text::trim_trailing(input, 61);
    if !text::has_prefix(t, scheme_prefix()) {
        Err(DecodeError::InvalidScheme)
    } else {
        let rest = t.skip(scheme_prefix().len() as int);
        match text::find_sub_spec(rest, subfile_marker()) {
            Some(k) => {
                let video_part = rest.take(k);
                let after = rest.skip(k + subfile_marker().len());
                let sub_part = match text::find_sub_spec(after, seq![38u8]) {
                    Some(j) => after.take(j),
                    None => after,
                };
                match (codec::decode_spec(video_part), codec::decode_spec(sub_part)) {
                    (Some(v), Some(s)) => {
                        if valid_utf8(v) && valid_utf8(s) {
                            Ok((v, s))
                        } else {
                            Err(DecodeError::EncodingFailed)
                        }
                    },
                    _ => Err(DecodeError::DecodeFailed),
                }
            },
            None => match codec::decode_spec(rest) {
                Some(v) => {
                    if valid_utf8(v) {
                        Ok((v, Seq::empty()))
                    } else {
                        Err(DecodeError::EncodingFailed)
                    }
                },
                None => Err(DecodeError::DecodeFailed),
            },
        }
    }
}

/// Decode a handler URL into the media address and the subtitle address
/// (empty when no subtitle segment is attached). Both are UTF-8 text.
pub fn extract_urls(mpv_url: &[u8]) -> (r: Result<(Vec<u8>, Vec<u8>), DecodeError>)
    ensures
        match r {
            Ok(p) => extract_urls_spec(mpv_url@) == Ok::<(Seq<u8>, Seq<u8>), DecodeError>(
                (p.0@, p.1@),
            ) && valid_utf8(p.0@) && valid_utf8(p.1@),
            Err(e) => extract_urls_spec(mpv_url@) == Err::<(Seq<u8>, Seq<u8>), DecodeError>(e),
        },
{
    let trimmed = text::trim_trailing_byte(mpv_url, 61);
    let prefix = scheme_prefix_bytes();
    if !text::starts_with(trimmed.as_slice(), prefix.as_slice()) {
        return Err(DecodeError::InvalidScheme);
    }
    let rest = vstd::slice::slice_subrange(trimmed.as_slice(), prefix.len(), trimmed.len());
    proof {
        assert(rest@ =~= trimmed@.skip(scheme_prefix().len() as int));
    }
    let marker = subfile_marker_bytes();
    match text::find_sub(rest, marker.as_slice()) {
        Some(k) => {
            proof {
                text::lemma_find_from_props(rest@, marker@, 0);
            }
            let video_part = vstd::slice::slice_subrange(rest, 0, k);
            proof {
                assert(video_part@ =~= rest@.take(k as int));
            }
            let after = vstd::slice::slice_subrange(rest, k + marker.len(), rest.len());
            proof {
                assert(after@ =~= rest@.skip(k + subfile_marker().len()));
            }
            let amp: [u8; 1] = [38];
            let sub_part: &[u8] = match text::find_sub(after, amp.as_slice()) {
                Some(j) => {
                    proof {
                        assert(amp@ =~= seq![38u8]);
                        text::lemma_find_from_props(after@, amp@, 0);
                    }
                    let sp = vstd::slice::slice_subrange(after, 0, j);
                    proof {
                        assert(sp@ =~= after@.take(j as int));
                    }
                    sp
                },
                None => {
                    proof {
                        assert(amp@ =~= seq![38u8]);
                    }
                    after
                },
            };
            let video = match codec::decode(video_part) {
                Some(v) => v,
                None => {
                    return Err(DecodeError::DecodeFailed);
                },
            };
            let sub = match codec::decode(sub_part) {
                Some(s) => s,
                None => {
                    return Err(DecodeError::DecodeFailed);
                },
            };
            if !crate::unicode::is_valid_utf8(video.as_slice()) {
                return Err(DecodeError::EncodingFailed);
            }
            if !crate::unicode::is_valid_utf8(sub.as_slice()) {
                return Err(DecodeError::EncodingFailed);
            }
            Ok((video, sub))
        },
        None => {
            let video = match codec::decode(rest) {
                Some(v) => v,
                None => {
                    return Err(DecodeError::DecodeFailed);
                },
            };
            if !crate::unicode::is_valid_utf8(video.as_slice()) {
                return Err(DecodeError::EncodingFailed);
            }
            let empty: Vec<u8> = Vec::new();
            proof {
                assert(empty@ =~= Seq::<u8>::empty());
            }
            Ok((video, empty))
        },
    }
}

/// Decoding recovers what was encoded, single-segment form: a handler URL
/// built from the scheme prefix and the encoding of any UTF-8 media
/// address decodes to exactly that address, with no subtitle.
pub proof fn lemma_round_trip_single(media: Seq<u8>)
    requires
        valid_utf8(media),
    ensures
        extract_urls_spec(scheme_prefix() + codec::encode_spec(media)) == Ok::<
            (Seq<u8>, Seq<u8>),
            DecodeError,
        >((media, Seq::empty())),
{
    let enc = codec::encode_spec(media);
    let input = scheme_prefix() + enc;
    codec::lemma_encode_alphabet(media);
    // nothing to trim: the input never ends in `=`
    if enc.len() > 0 {
        assert(input.last() == enc.last());
        assert(codec::is_alphabet_byte(enc.last()));
    } else {
        assert(input.last() == 47);
    }
    assert(text::trim_trailing(input, 61) == input);
    // the prefix is in place
    assert(text::has_prefix(input, scheme_prefix()));
    let rest = input.skip(scheme_prefix().len() as int);
    assert(rest =~= enc);
    // the subtitle delimiter cannot occur inside an encoding: its first
    // byte is not of the alphabet
    text::lemma_find_from_props(rest, subfile_marker(), 0);
    if text::find_sub_spec(rest, subfile_marker()) is Some {
        let j = text::find_sub_spec(rest, subfile_marker()).unwrap();
        assert(text::is_match_at(rest, subfile_marker(), j));
        assert(rest[j + 0] == subfile_marker()[0]);
        assert(codec::is_alphabet_byte(enc[j]));
        assert(false);
    }
    codec::lemma_decode_of_encode(media);
}

/// Decoding recovers what was encoded, subtitle-attached form: a handler
/// URL built from the scheme prefix, the encoded media address, the
/// subtitle delimiter and a non-empty encoded subtitle address decodes to
/// exactly those two addresses.
pub proof fn lemma_round_trip_subtitle(media: Seq<u8>, sub: Seq<u8>)
    requires
        valid_utf8(media),
        valid_utf8(sub),
        sub.len() > 0,
    ensures
        extract_urls_spec(
            scheme_prefix() + codec::encode_spec(media) + subfile_marker() + codec::encode_spec(
                sub,
            ),
        ) == Ok::<(Seq<u8>, Seq<u8>), DecodeError>((media, sub)),
{
    let enc_m = codec::encode_spec(media);
    let enc_s = codec::encode_spec(sub);
    let input = scheme_prefix() + enc_m + subfile_marker() + enc_s;
    codec::lemma_encode_alphabet(media);
    codec::lemma_encode_alphabet(sub);
    codec::lemma_encode_len(sub);
    // nothing to trim: the encoding of a non-empty subtitle is non-empty
    // and never ends in `=`
    assert(enc_s.len() > 0);
    assert(input.last() == enc_s.last());
    assert(codec::is_alphabet_byte(enc_s.last()));
    assert(text::trim_trailing(input, 61) == input);
    assert(text::has_prefix(input, scheme_prefix()));
    let rest = input.skip(scheme_prefix().len() as int);
    assert(rest =~= enc_m + subfile_marker() + enc_s);
    let m = enc_m.len() as int;
    // the delimiter stands right after the media segment ...
    assert(text::is_match_at(rest, subfile_marker(), m)) by {
        assert(forall|j: int|
            0 <= j < subfile_marker().len() ==> rest[m + j] == #[trigger] subfile_marker()[j]);
    }
    // ... and nowhere earlier: its second byte `?` is neither of the
    // alphabet nor the delimiter's own first byte
    assert(forall|k: int| 0 <= k < m ==> !text::is_match_at(rest, subfile_marker(), k)) by {
        assert forall|k: int| 0 <= k < m implies !text::is_match_at(rest, subfile_marker(), k) by {
            if text::is_match_at(rest, subfile_marker(), k) {
                assert(rest[k + 1] == subfile_marker()[1]);
                if k + 1 < m {
                    assert(codec::is_alphabet_byte(enc_m[k + 1]));
                } else {
                    assert(k + 1 == m);
                    assert(rest[m] == subfile_marker()[0]);
                }
            }
        }
    }
    text::lemma_find_from_props(rest, subfile_marker(), 0);
    match text::find_sub_spec(rest, subfile_marker()) {
        Some(j) => {
            assert(!(j < m));
            assert(!(j > m));
            assert(j == m);
        },
        None => {
            assert(false);
        },
    }
    let video_part = rest.take(m);
    assert(video_part =~= enc_m);
    let after = rest.skip(m + subfile_marker().len());
    assert(after =~= enc_s);
    // no `&` occurs inside an encoding
    text::lemma_find_from_props(after, seq![38u8], 0);
    if text::find_sub_spec(after, seq![38u8]) is Some {
        let j = text::find_sub_spec(after, seq![38u8]).unwrap();
        assert(text::is_match_at(after, seq![38u8], j));
        assert(after[j + 0] == seq![38u8][0]);
        assert(codec::is_alphabet_byte(enc_s[j]));
        assert(false);
    }
    codec::lemma_decode_of_encode(media);
    codec::lemma_decode_of_encode(sub);
}

/// The connection parameters a media URL must supply: host (scheme and
/// authority), item identifier, media-source identifier and access token.
/// All four are non-empty.
#[derive(Debug, PartialEq, Eq)]
pub struct M4 {
    pub host: Vec<u8>,
    pub item_id: Vec<u8>,
    pub media_source_id: Vec<u8>,
    pub api_key: Vec<u8>,
}

/// The scheme separator `://`.
pub open spec fn sep_marker() -> Seq<u8> {
    seq![58u8, 47u8, 47u8]
}

/// The path segment marker `/videos/` whose following digits name the item.
pub open spec fn videos_marker() -> Seq<u8> {
    seq![47u8, 118u8, 105u8, 100u8, 101u8, 111u8, 115u8, 47u8]
}

/// The query key `api_key`.
pub open spec fn api_key_name() -> Seq<u8> {
    seq![97u8, 112u8, 105u8, 95u8, 107u8, 101u8, 121u8]
}

/// The query key `MediaSourceId`.
pub open spec fn media_source_id_name() -> Seq<u8> {
    seq![77u8, 101u8, 100u8, 105u8, 97u8, 83u8, 111u8, 117u8, 114u8, 99u8, 101u8, 73u8, 100u8]
}

fn sep_marker_bytes() -> (r: Vec<u8>)
    ensures
        r@ == sep_marker(),
{
    let r: [u8; 3] = [58, 47, 47];
    let v = vstd::slice::slice_to_vec(r.as_slice());
    proof {
        assert(v@ =~= sep_marker());
    }
    v
}

fn videos_marker_bytes() -> (r: Vec<u8>)
    ensures
        r@ == videos_marker(),
{
    let r: [u8; 8] = [47, 118, 105, 100, 101, 111, 115, 47];
    let v = vstd::slice::slice_to_vec(r.as_slice());
    proof {
        assert(v@ =~= videos_marker());
    }
    v
}

fn api_key_name_bytes() -> (r: Vec<u8>)
    ensures
        r@ == api_key_name(),
{
    let r: [u8; 7] = [97, 112, 105, 95, 107, 101, 121];
    let v = vstd::slice::slice_to_vec(r.as_slice());
    proof {
        assert(v@ =~= api_key_name());
    }
    v
}

fn media_source_id_name_bytes() -> (r: Vec<u8>)
    ensures
        r@ == media_source_id_name(),
{
    let r: [u8; 13] = [77, 101, 100, 105, 97, 83, 111, 117, 114, 99, 101, 73, 100];
    let v = vstd::slice::slice_to_vec(r.as_slice());
    proof {
        assert(v@ =~= media_source_id_name());
    }
    v
}

/// True for bytes a URL scheme may contain: letters, digits, `+`, `-`, `.`.
pub open spec fn is_scheme_char(c: u8) -> bool {
    ||| 65 <= c <= 90
    ||| 97 <= c <= 122
    ||| 48 <= c <= 57
    ||| c == 43
    ||| c == 45
    ||| c == 46
}

/// True when `s` is a well-formed URL scheme: non-empty, a letter first.
pub open spec fn valid_scheme(s: Seq<u8>) -> bool {
    &&& s.len() >= 1
    &&& (65 <= s[0] <= 90 || 97 <= s[0] <= 122)
    &&& forall|i: int| 0 <= i < s.len() ==> is_scheme_char(#[trigger] s[i])
}

/// First position at or after `j` holding `a` or `b`, or the length of `s`.
pub open spec fn scan_stop2(s: Seq<u8>, j: int, a: u8, b: u8) -> int
    decreases s.len() - j,
{
    if j < 0 || j >= s.len() {
        s.len() as int
    } else if s[j] == a || s[j] == b {
        j
    } else {
        scan_stop2(s, j + 1, a, b)
    }
}

proof fn lemma_scan_stop2_bounds(s: Seq<u8>, j: int, a: u8, b: u8)
    requires
        0 <= j <= s.len(),
    ensures
        j <= scan_stop2(s, j, a, b) <= s.len(),
    decreases s.len() - j,
{
    if j < s.len() && s[j] != a && s[j] != b {
        lemma_scan_stop2_bounds(s, j + 1, a, b);
    }
}

/// True when `path` holds `/videos/` at `i`, followed by a non-empty run of
/// digits and then another `/`.
pub open spec fn valid_videos_at(path: Seq<u8>, i: int) -> bool {
    &&& text::is_match_at(path, videos_marker(), i)
    &&& text::digit_run_end(path, i + 8) > i + 8
    &&& text::digit_run_end(path, i + 8) < path.len()
    &&& path[text::digit_run_end(path, i + 8)] == 47
}

/// The last position `<= i` where an item identifier can be read, if any.
pub open spec fn find_videos_last(path: Seq<u8>, i: int) -> Option<int>
    decreases i + 1,
{
    if i < 0 {
        None
    } else if valid_videos_at(path, i) {
        Some(i)
    } else {
        find_videos_last(path, i - 1)
    }
}

/// Every answer of `find_videos_last` points at the last valid position.
pub proof fn lemma_find_videos_last_props(path: Seq<u8>, i: int)
    ensures
        match find_videos_last(path, i) {
            Some(j) => 0 <= j <= i && valid_videos_at(path, j) && (forall|k: int|
                j < k <= i ==> !valid_videos_at(path, k)),
            None => forall|k: int| 0 <= k <= i ==> !valid_videos_at(path, k),
        },
    decreases i + 1,
{
    if i >= 0 && !valid_videos_at(path, i) {
        lemma_find_videos_last_props(path, i - 1);
    }
}

/// The item identifier the path supplies: the digits of the last
/// `/videos/<digits>/` segment, if any.
pub open spec fn item_id_of(path: Seq<u8>) -> Option<Seq<u8>> {
    match find_videos_last(path, path.len() - 1) {
        Some(i) => Some(path.subrange(i + 8, text::digit_run_end(path, i + 8))),
        None => None,
    }
}

/// First position at or after `j` holding `&`, or the length of `q`.
pub open spec fn pair_end(q: Seq<u8>, j: int) -> int
    decreases q.len() - j,
{
    if j < 0 || j >= q.len() {
        q.len() as int
    } else if q[j] == 38 {
        j
    } else {
        pair_end(q, j + 1)
    }
}

proof fn lemma_pair_end_bounds(q: Seq<u8>, j: int)
    requires
        0 <= j <= q.len(),
    ensures
        j <= pair_end(q, j) <= q.len(),
    decreases q.len() - j,
{
    if j < q.len() && q[j] != 38 {
        lemma_pair_end_bounds(q, j + 1);
    }
}

/// The key of one `key=value` pair: everything before the first `=`, or the
/// whole pair when it has no `=`.
pub open spec fn pair_key(pair: Seq<u8>) -> Seq<u8> {
    match text::find_sub_spec(pair, seq![61u8]) {
        Some(e) => pair.take(e),
        None => pair,
    }
}

/// The value of one `key=value` pair: everything after the first `=`, or
/// empty when it has no `=`.
pub open spec fn pair_value(pair: Seq<u8>) -> Seq<u8> {
    match text::find_sub_spec(pair, seq![61u8]) {
        Some(e) => pair.skip(e + 1),
        None => Seq::empty(),
    }
}

/// The value of the first `&`-separated pair of `q` at or after `o` whose
/// key is `key`, if any.
pub open spec fn query_lookup_from(q: Seq<u8>, key: Seq<u8>, o: int) -> Option<Seq<u8>>
    decreases q.len() - o,
    when 0 <= o <= q.len()
    via query_lookup_from_decreases
{
    let pe = pair_end(q, o);
    if pair_key(q.subrange(o, pe)) == key {
        Some(pair_value(q.subrange(o, pe)))
    } else if pe >= q.len() {
        None
    } else {
        query_lookup_from(q, key, pe + 1)
    }
}

#[via_fn]
proof fn query_lookup_from_decreases(q: Seq<u8>, key: Seq<u8>, o: int) {
    lemma_pair_end_bounds(q, o);
}

/// The value of the first pair of the query `q` whose key is `key`, if any.
pub open spec fn query_lookup(q: Seq<u8>, key: Seq<u8>) -> Option<Seq<u8>> {
    query_lookup_from(q, key, 0)
}

/// What extracting session parameters from a media URL yields. The URL is
/// read as `scheme://authority/path?query`; the host is the prefix through
/// the authority (any port kept), the item identifier is the digit run of
/// the last `/videos/<digits>/` path segment, and the access token and
/// media-source identifier are the query values named `api_key` and
/// `MediaSourceId`. A missing or empty part names the field that failed.
pub open spec fn extract_params_spec(url: Seq<u8>) -> Result<
    (Seq<u8>, Seq<u8>, Seq<u8>, Seq<u8>),
    ExtractError,
> {
    match text::find_sub_spec(url, sep_marker()) {
        None => Err(ExtractError::MissingField(Field::Host)),
        Some(p) => {
            if !valid_scheme(url.take(p)) {
                Err(ExtractError::MissingField(Field::Host))
            } else {
                let ae = scan_stop2(url, p + 3, 47, 63);
                if ae == p + 3 {
                    Err(ExtractError::MissingField(Field::Host))
                } else {
                    let host = url.take(ae);
                    let qs = scan_stop2(url, ae, 63, 63);
                    let path = url.subrange(ae, qs);
                    let query = if qs < url.len() {
                        url.skip(qs + 1)
                    } else {
                        Seq::empty()
                    };
                    match query_lookup(query, media_source_id_name()) {
                        None => Err(ExtractError::MissingField(Field::MediaSourceId)),
                        Some(msid) => {
                            if msid.len() == 0 {
                                Err(ExtractError::MissingField(Field::MediaSourceId))
                            } else {
                                match query_lookup(query, api_key_name()) {
                                    None => Err(ExtractError::MissingField(Field::ApiKey)),
                                    Some(key) => {
                                        if key.len() == 0 {
                                            Err(ExtractError::MissingField(Field::ApiKey))
                                        } else {
                                            match item_id_of(path) {
                                                None => Err(ExtractError::MissingField(
                                                    Field::ItemId,
                                                )),
                                                Some(item) => Ok((host, item, msid, key)),
                                            }
                                        }
                                    },
                                }
                            }
                        },
                    }
                }
            }
        },
    }
}

/// An input lacking the scheme prefix (once trailing `=` padding is
/// ignored) is always answered with `InvalidScheme`: an error value, never
/// a crash — the decoder is a total verified function.
pub proof fn lemma_missing_scheme_rejected(input: Seq<u8>)
    requires
        !text::has_prefix(text::trim_trailing(input, 61), scheme_prefix()),
    ensures
        extract_urls_spec(input) == Err::<(Seq<u8>, Seq<u8>), DecodeError>(
            DecodeError::InvalidScheme,
        ),
{
}

/// A media URL missing any of its four parameters always fails with the
/// field that is missing, and success never hands out a partially-empty
/// tuple: every field of an `Ok` answer is non-empty.
pub proof fn lemma_missing_field_rejected(url: Seq<u8>)
    ensures
        match extract_params_spec(url) {
            Ok(p) => p.0.len() > 0 && p.1.len() > 0 && p.2.len() > 0 && p.3.len() > 0,
            Err(e) => e matches ExtractError::MissingField(_),
        },
{
    if extract_params_spec(url) is Ok {
        let p = text::find_sub_spec(url, sep_marker()).unwrap();
        text::lemma_find_from_props(url, sep_marker(), 0);
        lemma_scan_stop2_bounds(url, p + 3, 47, 63);
        let ae = scan_stop2(url, p + 3, 47, 63);
        lemma_scan_stop2_bounds(url, ae, 63, 63);
        let qs = scan_stop2(url, ae, 63, 63);
        let path = url.subrange(ae, qs);
        lemma_find_videos_last_props(path, path.len() - 1);
    }
}

fn scan_stop2_exec(s: &[u8], j: usize, a: u8, b: u8) -> (r: usize)
    requires
        j <= s@.len(),
    ensures
        r == scan_stop2(s@, j as int, a, b),
        j <= r <= s@.len(),
{
    let n = s.len();
    let mut k = j;
    while k < n && s[k] != a && s[k] != b
        invariant
            j <= k <= n,
            n == s@.len(),
            scan_stop2(s@, j as int, a, b) == scan_stop2(s@, k as int, a, b),
        decreases n - k,
    {
        k += 1;
    }
    k
}

fn valid_scheme_exec(s: &[u8]) -> (b: bool)
    ensures
        b == valid_scheme(s@),
{
    if s.len() == 0 {
        return false;
    }
    let c0 = s[0];
    if !(65 <= c0 && c0 <= 90 || 97 <= c0 && c0 <= 122) {
        return false;
    }
    let mut i: usize = 0;
    while i < s.len()
        invariant
            i <= s@.len(),
            forall|k: int| 0 <= k < i ==> is_scheme_char(#[trigger] s@[k]),
            65 <= s@[0] <= 90 || 97 <= s@[0] <= 122,
        decreases s@.len() - i,
    {
        let c = s[i];
        if !(65 <= c && c <= 90 || 97 <= c && c <= 122 || 48 <= c && c <= 57 || c == 43 || c == 45
            || c == 46) {
            assert(!is_scheme_char(s@[i as int]));
            return false;
        }
        i += 1;
    }
    true
}

fn is_videos_at(path: &[u8], i: usize) -> (b: bool)
    requires
        i <= path@.len(),
    ensures
        b == valid_videos_at(path@, i as int),
{
    let n = path.len();
    if n - i < 8 {
        proof {
            assert(!text::is_match_at(path@, videos_marker(), i as int));
        }
        return false;
    }
    let marker = videos_marker_bytes();
    if !text::match_at(path, marker.as_slice(), i) {
        return false;
    }
    let dre = text::digit_run_end_exec(path, i + 8);
    dre > i + 8 && dre < n && path[dre] == 47
}

fn find_videos_last_exec(path: &[u8]) -> (r: Option<usize>)
    ensures
        match r {
            Some(i) => find_videos_last(path@, path@.len() - 1) == Some(i as int),
            None => find_videos_last(path@, path@.len() - 1) is None,
        },
{
    let n = path.len();
    if n == 0 {
        return None;
    }
    let mut i: usize = n;
    while i > 0
        invariant
            i <= n,
            n == path@.len(),
            find_videos_last(path@, n - 1) == find_videos_last(path@, i - 1),
        decreases i,
    {
        if is_videos_at(path, i - 1) {
            return Some(i - 1);
        }
        i -= 1;
    }
    None
}

fn query_lookup_exec(q: &[u8], key: &[u8]) -> (r: Option<Vec<u8>>)
    ensures
        match r {
            Some(v) => query_lookup(q@, key@) == Some(v@),
            None => query_lookup(q@, key@) is None,
        },
{
    let n = q.len();
    let mut o: usize = 0;
    loop
        invariant
            o <= n,
            n == q@.len(),
            query_lookup(q@, key@) == query_lookup_from(q@, key@, o as int),
        decreases n - o,
    {
        let pe = pair_end_exec(q, o);
        let pair = vstd::slice::slice_subrange(q, o, pe);
        let eq_mark: [u8; 1] = [61];
        proof {
            assert(pair@ =~= q@.subrange(o as int, pair_end(q@, o as int)));
            assert(eq_mark@ =~= seq![61u8]);
        }
        let kv = text::find_sub(pair, eq_mark.as_slice());
        let (pk_end, has_value): (usize, bool) = match kv {
            Some(e) => (e, true),
            None => (pair.len(), false),
        };
        proof {
            if kv is Some {
                text::lemma_find_from_props(pair@, eq_mark@, 0);
                assert(pair_key(pair@) == pair@.take(pk_end as int));
            } else {
                assert(pair_key(pair@) == pair@);
                assert(pair@.take(pk_end as int) =~= pair@);
            }
        }
        let pk = vstd::slice::slice_subrange(pair, 0, pk_end);
        proof {
            assert(pk@ =~= pair@.take(pk_end as int));
        }
        if text::bytes_eq(pk, key) {
            if has_value {
                let v = vstd::slice::slice_to_vec(
                    vstd::slice::slice_subrange(pair, pk_end + 1, pair.len()),
                );
                proof {
                    assert(v@ =~= pair_value(pair@));
                }
                return Some(v);
            } else {
                let v: Vec<u8> = Vec::new();
                proof {
                    assert(v@ =~= pair_value(pair@));
                }
                return Some(v);
            }
        }
        if pe >= n {
            return None;
        }
        o = pe + 1;
    }
}

fn pair_end_exec(q: &[u8], j: usize) -> (r: usize)
    requires
        j <= q@.len(),
    ensures
        r == pair_end(q@, j as int),
        j <= r <= q@.len(),
{
    let n = q.len();
    let mut k = j;
    while k < n && q[k] != 38
        invariant
            j <= k <= n,
            n == q@.len(),
            pair_end(q@, j as int) == pair_end(q@, k as int),
        decreases n - k,
    {
        k += 1;
    }
    k
}

/// Extract the session parameters from a media URL. `Ok` exactly when the
/// URL supplies all four, each then non-empty.
pub fn extract_params(video_url: &[u8]) -> (r: Result<M4, ExtractError>)
    ensures
        match r {
            Ok(m) => extract_params_spec(video_url@) == Ok::<
                (Seq<u8>, Seq<u8>, Seq<u8>, Seq<u8>),
                ExtractError,
            >((m.host@, m.item_id@, m.media_source_id@, m.api_key@)) && m.host@.len() > 0
                && m.item_id@.len() > 0 && m.media_source_id@.len() > 0 && m.api_key@.len() > 0,
            Err(e) => extract_params_spec(video_url@) == Err::<
                (Seq<u8>, Seq<u8>, Seq<u8>, Seq<u8>),
                ExtractError,
            >(e),
        },
{
    let n = video_url.len();
    let sep = sep_marker_bytes();
    let p = match text::find_sub(video_url, sep.as_slice()) {
        Some(p) => p,
        None => {
            return Err(ExtractError::MissingField(Field::Host));
        },
    };
    proof {
        text::lemma_find_from_props(video_url@, sep_marker(), 0);
    }
    let scheme = vstd::slice::slice_subrange(video_url, 0, p);
    proof {
        assert(scheme@ =~= video_url@.take(p as int));
    }
    if !valid_scheme_exec(scheme) {
        return Err(ExtractError::MissingField(Field::Host));
    }
    let ae = scan_stop2_exec(video_url, p + 3, 47, 63);
    if ae == p + 3 {
        return Err(ExtractError::MissingField(Field::Host));
    }
    let host = vstd::slice::slice_to_vec(vstd::slice::slice_subrange(video_url, 0, ae));
    proof {
        assert(host@ =~= video_url@.take(ae as int));
    }
    let qs = scan_stop2_exec(video_url, ae, 63, 63);
    let path = vstd::slice::slice_subrange(video_url, ae, qs);
    proof {
        assert(path@ =~= video_url@.subrange(ae as int, qs as int));
    }
    let query: &[u8] = if qs < n {
        let q = vstd::slice::slice_subrange(video_url, qs + 1, n);
        proof {
            assert(q@ =~= video_url@.skip(qs + 1));
        }
        q
    } else {
        let q = vstd::slice::slice_subrange(video_url, n, n);
        proof {
            assert(q@ =~= Seq::<u8>::empty());
        }
        q
    };
    let msid_name = media_source_id_name_bytes();
    let msid = match query_lookup_exec(query, msid_name.as_slice()) {
        Some(v) => v,
        None => {
            return Err(ExtractError::MissingField(Field::MediaSourceId));
        },
    };
    if msid.len() == 0 {
        return Err(ExtractError::MissingField(Field::MediaSourceId));
    }
    let key_name = api_key_name_bytes();
    let key = match query_lookup_exec(query, key_name.as_slice()) {
        Some(v) => v,
        None => {
            return Err(ExtractError::MissingField(Field::ApiKey));
        },
    };
    if key.len() == 0 {
        return Err(ExtractError::MissingField(Field::ApiKey));
    }
    let item = match find_videos_last_exec(path) {
        Some(i) => {
            proof {
                lemma_find_videos_last_props(path@, path@.len() - 1);
                assert(valid_videos_at(path@, i as int));
            }
            let dre = text::digit_run_end_exec(path, i + 8);
            let it = vstd::slice::slice_to_vec(vstd::slice::slice_subrange(path, i + 8, dre));
            proof {
                assert(it@ =~= path@.subrange(i + 8, text::digit_run_end(path@, i + 8)));
            }
            it
        },
        None => {
            return Err(ExtractError::MissingField(Field::ItemId));
        },
    };
    Ok(M4 { host, item_id: item, media_source_id: msid, api_key: key })
}

} // verus!
