use gif_relay::endpoint::{access_token_url, master_manifest_url, MAX_PART_BYTES};
use gif_relay::rendition::{pick_rendition, select_rendition, Rendition, ResolveError};
use gif_relay::route::{parse_height, parse_route};

fn rendition(height: Option<u64>, uri: &str) -> Rendition {
    Rendition { iframes_only: false, height, uri: uri.to_string() }
}

fn iframes(height: Option<u64>, uri: &str) -> Rendition {
    Rendition { iframes_only: true, height, uri: uri.to_string() }
}

fn ladder() -> Vec<Rendition> {
    vec![
        rendition(Some(1080), "source"),
        rendition(Some(360), "low"),
        rendition(None, "audio"),
        rendition(Some(720), "high"),
        rendition(Some(160), "tiny"),
    ]
}

#[test]
fn lowest_rendition_at_least_as_high_is_chosen() {
    let renditions = ladder();
    assert_eq!(select_rendition(&renditions, 0), Some(4));
    assert_eq!(select_rendition(&renditions, 160), Some(4));
    assert_eq!(select_rendition(&renditions, 161), Some(1));
    assert_eq!(select_rendition(&renditions, 480), Some(3));
    assert_eq!(select_rendition(&renditions, 720), Some(3));
    assert_eq!(select_rendition(&renditions, 721), Some(0));
    assert_eq!(select_rendition(&renditions, 1080), Some(0));
}

#[test]
fn highest_rendition_is_the_fallback() {
    let renditions = ladder();
    assert_eq!(select_rendition(&renditions, 1081), Some(0));
    assert_eq!(select_rendition(&renditions, u32::MAX), Some(0));
}

#[test]
fn no_rendition_gives_no_choice() {
    let none: Vec<Rendition> = Vec::new();
    assert_eq!(select_rendition(&none, 0), None);
    let only_iframes = vec![iframes(Some(720), "i")];
    assert_eq!(select_rendition(&only_iframes, 0), None);
}

#[test]
fn rendition_without_height_never_qualifies_but_can_be_the_fallback() {
    let bare = vec![rendition(None, "a"), rendition(None, "b")];
    assert_eq!(select_rendition(&bare, 0), Some(1));
    let mixed = vec![rendition(Some(100), "a"), rendition(None, "b")];
    assert_eq!(select_rendition(&mixed, 0), Some(0));
    assert_eq!(select_rendition(&mixed, 500), Some(0));
}

#[test]
fn equal_heights_keep_their_order() {
    let twins = vec![rendition(Some(720), "a"), rendition(Some(720), "b")];
    assert_eq!(select_rendition(&twins, 700), Some(0));
    assert_eq!(select_rendition(&twins, 1000), Some(1));
}

#[test]
fn iframe_renditions_are_passed_over() {
    let renditions =
        vec![iframes(Some(480), "i"), rendition(Some(1080), "v"), iframes(Some(2160), "j")];
    assert_eq!(select_rendition(&renditions, 400), Some(1));
    assert_eq!(select_rendition(&renditions, 2000), Some(1));
}

#[test]
fn picked_rendition_is_handed_out() {
    let picked = pick_rendition(ladder(), 480);
    match picked {
        Ok(rendition) => {
            assert_eq!(rendition.uri, "high");
            assert_eq!(rendition.height, Some(720));
        },
        Err(error) => panic!("unexpected error: {:?}", error),
    }
    let nothing = pick_rendition(Vec::new(), 0);
    match nothing {
        Err(error) => {
            assert!(matches!(error, ResolveError::NoRendition));
            assert_eq!(error.message(), "no rendition available");
        },
        Ok(_) => panic!("nothing to pick"),
    }
}

#[test]
fn heights_are_read() {
    assert_eq!(parse_height(b"720"), Some(720));
    assert_eq!(parse_height(b"0"), Some(0));
    assert_eq!(parse_height(b"007"), Some(7));
    assert_eq!(parse_height(b"+12"), Some(12));
    assert_eq!(parse_height(b"4294967295"), Some(u32::MAX));
    assert_eq!(parse_height(b"4294967296"), None);
    assert_eq!(parse_height(b"99999999999999999999999"), None);
    assert_eq!(parse_height(b""), None);
    assert_eq!(parse_height(b"+"), None);
    assert_eq!(parse_height(b"-1"), None);
    assert_eq!(parse_height(b"12a"), None);
    assert_eq!(parse_height(b" 12"), None);
    assert_eq!(parse_height(b"++1"), None);
}

#[test]
fn heights_are_read_as_the_standard_library_reads_them() {
    let texts: [&str; 12] =
        ["720", "0", "007", "+12", "4294967295", "4294967296", "", "+", "-1", "12a", "1 2", "+0"];
    for text in texts {
        assert_eq!(parse_height(text.as_bytes()), text.parse::<u32>().ok());
    }
}

#[test]
fn routes_are_read() {
    let route = parse_route(b"/somechannel/720");
    assert_eq!(route.channel, b"somechannel");
    assert_eq!(route.minimum_height, 720);
    let route = parse_route(b"/somechannel");
    assert_eq!(route.channel, b"somechannel");
    assert_eq!(route.minimum_height, 0);
    let route = parse_route(b"/somechannel/");
    assert_eq!(route.channel, b"somechannel");
    assert_eq!(route.minimum_height, 0);
    let route = parse_route(b"/somechannel/720/more");
    assert_eq!(route.channel, b"somechannel");
    assert_eq!(route.minimum_height, 720);
    let route = parse_route(b"/somechannel/best");
    assert_eq!(route.channel, b"somechannel");
    assert_eq!(route.minimum_height, 0);
}

#[test]
fn missing_parts_take_their_defaults() {
    let route = parse_route(b"/");
    assert_eq!(route.channel, b"hungry");
    assert_eq!(route.minimum_height, 0);
    let route = parse_route(b"");
    assert_eq!(route.channel, b"hungry");
    assert_eq!(route.minimum_height, 0);
    let route = parse_route(b"//480");
    assert_eq!(route.channel, b"hungry");
    assert_eq!(route.minimum_height, 480);
    let route = parse_route(b"no-slash");
    assert_eq!(route.channel, b"hungry");
    assert_eq!(route.minimum_height, 0);
    let route = parse_route(b"ignored/name/5");
    assert_eq!(route.channel, b"name");
    assert_eq!(route.minimum_height, 5);
}

#[test]
fn access_token_address_holds_the_channel() {
    assert_eq!(
        access_token_url("somechannel").unwrap(),
        "https://api.twitch.tv/api/channels/somechannel/access_token"
    );
    assert_eq!(
        access_token_url("a b/c").unwrap(),
        "https://api.twitch.tv/api/channels/a%20b%2Fc/access_token"
    );
}

#[test]
fn manifest_address_holds_channel_signature_and_token() {
    assert_eq!(
        master_manifest_url("somechannel", "abc123", "{\"x\":1}").unwrap(),
        "https://usher.ttvnw.net/api/channel/hls/somechannel.m3u8?sig=abc123&token=%7B%22x%22%3A1%7D"
    );
}

#[test]
fn overlong_parts_give_no_address() {
    let long = "x".repeat(MAX_PART_BYTES + 1);
    assert!(access_token_url(&long).is_none());
    assert!(master_manifest_url(&long, "s", "t").is_none());
    assert!(master_manifest_url("c", &long, "t").is_none());
    assert!(master_manifest_url("c", "s", &long).is_none());
    let edge = "x".repeat(MAX_PART_BYTES);
    assert!(access_token_url(&edge).is_some());
    assert!(master_manifest_url(&edge, "s", "t").is_none());
    let fits = "x".repeat(MAX_PART_BYTES - 5);
    assert!(master_manifest_url(&fits, "s", "t").is_some());
}
