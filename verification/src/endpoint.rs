//! The addresses that the upstream resolver asks: where the access token
//! of a channel is had, and where its multivariant playlist is.

use url::Url;
use vstd::prelude::*;
use vstd::utf8::{encode_utf8, is_ascii_chars_encode_utf8};

verus! {

/// Where access tokens are had: the channel name and `access_token` follow
/// as path segments.
pub const ACCESS_TOKEN_ENDPOINT: &'static str = "https://api.twitch.tv/api/channels";

/// Where multivariant playlists are had: the signature and the token
/// follow as query pairs, the playlist's file name as a path segment.
pub const MANIFEST_ENDPOINT: &'static str = "https://usher.ttvnw.net/api/channel/hls";

/// The most bytes that a part of an address may take in UTF-8.
pub const MAX_PART_BYTES: usize = 65536;

/// The most path segments, and the most query pairs, of an address.
pub const MAX_PARTS: usize = 8;

/// The number of bytes that `text` takes in UTF-8, as `str::len` counts
/// them.
pub open spec fn byte_len(text: Seq<char>) -> usize {
    encode_utf8(text).len() as usize
}

/// Whether `text` is short enough to be a part of an address.
pub open spec fn short(text: Seq<char>) -> bool {
    byte_len(text) <= MAX_PART_BYTES
}

/// The serialisation of the URL that `url::Url::parse` makes of `base`
/// after `url::PathSegmentsMut::extend` has appended `segments` to its
/// path; nothing where `base` is refused or cannot have path segments.
pub uninterp spec fn url_with_segments(base: Seq<char>, segments: Seq<Seq<char>>) -> Option<
    Seq<char>,
>;

/// The serialisation of the URL that `url::Url::parse_with_params` makes of
/// `base` and `pairs` after `url::PathSegmentsMut::extend` has appended
/// `segments` to its path; nothing where `base` is refused or cannot have
/// path segments.
pub uninterp spec fn url_with_query_and_segments(
    base: Seq<char>,
    pairs: Seq<(Seq<char>, Seq<char>)>,
    segments: Seq<Seq<char>>,
) -> Option<Seq<char>>;

/// The characters of each of `parts`.
pub open spec fn texts(parts: Seq<&str>) -> Seq<Seq<char>> {
    parts.map_values(|part: &str| part@)
}

/// The characters of each pair of `pairs`.
pub open spec fn text_pairs(pairs: Seq<(&str, &str)>) -> Seq<(Seq<char>, Seq<char>)> {
    pairs.map_values(|pair: (&str, &str)| (pair.0@, pair.1@))
}

/// The characters of `text`, if there is one.
pub open spec fn text_of(text: Option<String>) -> Option<Seq<char>> {
    match text {
        Some(text) => Some(text@),
        None => None,
    }
}

/// The file name of the multivariant playlist of `channel`.
pub open spec fn manifest_file(channel: Seq<char>) -> Seq<char> {
    channel + ".m3u8"@
}

/// `url::Url::parse`, then `url::PathSegmentsMut::extend` with `segments`,
/// then the URL's serialisation. Trusted: the result is what
/// `url_with_segments` names. The parts are short, since the crate stops
/// the process where a URL grows past 4 GiB.
#[verifier::external_body]
fn extend_path(base: &str, segments: &Vec<&str>) -> (built: Option<String>)
    requires
        short(base@),
        segments@.len() <= MAX_PARTS,
        forall|i: int| 0 <= i < segments@.len() ==> short(#[trigger] segments@[i]@),
    ensures
        text_of(built) == url_with_segments(base@, texts(segments@)),
{
    let mut url = Url::parse(base).ok()?;
    url.path_segments_mut().ok()?.extend(segments);
    Some(url.into())
}

/// `url::Url::parse_with_params` with `pairs`, then
/// `url::PathSegmentsMut::extend` with `segments`, then the URL's
/// serialisation. Trusted: the result is what `url_with_query_and_segments`
/// names. The parts are short, since the crate stops the process where a
/// URL grows past 4 GiB.
#[verifier::external_body]
fn extend_query_and_path(base: &str, pairs: &Vec<(&str, &str)>, segments: &Vec<&str>) -> (built:
    Option<String>)
    requires
        short(base@),
        pairs@.len() <= MAX_PARTS,
        forall|i: int|
            0 <= i < pairs@.len() ==> short((#[trigger] pairs@[i]).0@) && short(pairs@[i].1@),
        segments@.len() <= MAX_PARTS,
        forall|i: int| 0 <= i < segments@.len() ==> short(#[trigger] segments@[i]@),
    ensures
        text_of(built) == url_with_query_and_segments(
            base@,
            text_pairs(pairs@),
            texts(segments@),
        ),
{
    let mut url = Url::parse_with_params(base, pairs).ok()?;
    url.path_segments_mut().ok()?.extend(segments);
    Some(url.into())
}

/// `String::push_str`: appends `tail` to `text`.
#[verifier::external_body]
fn push_text(text: &mut String, tail: &str)
    ensures
        final(text)@ == old(text)@ + tail@,
{
    text.push_str(tail)
}

/// Whether `text` is short enough to be a part of an address.
fn is_short(text: &str) -> (fits: bool)
    ensures
        fits == short(text@),
{
    text.len() <= MAX_PART_BYTES
}

/// The fixed parts of the addresses are short.
proof fn lemma_fixed_parts_are_short()
    ensures
        short(ACCESS_TOKEN_ENDPOINT@),
        short(MANIFEST_ENDPOINT@),
        short("access_token"@),
        short("sig"@),
        short("token"@),
{
    reveal_strlit("https://api.twitch.tv/api/channels");
    reveal_strlit("https://usher.ttvnw.net/api/channel/hls");
    reveal_strlit("access_token");
    reveal_strlit("sig");
    reveal_strlit("token");
    is_ascii_chars_encode_utf8(ACCESS_TOKEN_ENDPOINT@);
    is_ascii_chars_encode_utf8(MANIFEST_ENDPOINT@);
    is_ascii_chars_encode_utf8("access_token"@);
    is_ascii_chars_encode_utf8("sig"@);
    is_ascii_chars_encode_utf8("token"@);
}

/// The address at which the access token of `channel_name` is had.
///
/// There is none where the name is not short. Else it is the endpoint with
/// the segments `channel_name` and `access_token` appended to its path.
pub fn access_token_url(channel_name: &str) -> (url: Option<String>)
    ensures
        !short(channel_name@) ==> url is None,
        short(channel_name@) ==> text_of(url) == url_with_segments(
            ACCESS_TOKEN_ENDPOINT@,
            seq![channel_name@, "access_token"@],
        ),
{
    if !is_short(channel_name) {
        return None;
    }
    let mut segments: Vec<&str> = Vec::new();
    segments.push(channel_name);
    segments.push("access_token");
    proof {
        lemma_fixed_parts_are_short();
        assert(texts(segments@) =~= seq![channel_name@, "access_token"@]);
    }
    extend_path(ACCESS_TOKEN_ENDPOINT, &segments)
}

/// The address at which the multivariant playlist of `channel_name` is
/// had, for a signature and a token.
///
/// There is none where the name with `.m3u8` after it, the signature or the
/// token is not short. Else it is the endpoint with the query pairs `sig`
/// and `token`, and with the playlist's file name appended to its path.
pub fn master_manifest_url(channel_name: &str, sig: &str, token: &str) -> (url: Option<String>)
    ensures
        if short(manifest_file(channel_name@)) && short(sig@) && short(token@) {
            text_of(url) == url_with_query_and_segments(
                MANIFEST_ENDPOINT@,
                seq![("sig"@, sig@), ("token"@, token@)],
                seq![manifest_file(channel_name@)],
            )
        } else {
            url is None
        },
{
    let mut file = channel_name.to_owned();
    push_text(&mut file, ".m3u8");
    if !is_short(file.as_str()) || !is_short(sig) || !is_short(token) {
        return None;
    }
    let mut pairs: Vec<(&str, &str)> = Vec::new();
    pairs.push(("sig", sig));
    pairs.push(("token", token));
    let mut segments: Vec<&str> = Vec::new();
    segments.push(file.as_str());
    proof {
        lemma_fixed_parts_are_short();
        assert(text_pairs(pairs@) =~= seq![("sig"@, sig@), ("token"@, token@)]);
        assert(texts(segments@) =~= seq![manifest_file(channel_name@)]);
    }
    extend_query_and_path(MANIFEST_ENDPOINT, &pairs, &segments)
}

} // verus!
