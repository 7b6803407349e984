use tui_musicplayer::lyrics::{lrc_content_is_safe, parse_lrc, parse_timestamp};
use tui_musicplayer::xspf::{parse_xspf, xspf_location_path, XspfError};

const MS: u128 = 1_000_000;

fn tag(s: &str) -> Option<u128> {
    let cs: Vec<char> = s.chars().collect();
    parse_timestamp(&cs, 0, cs.len())
}

#[test]
fn timestamps_read_minutes_seconds_and_fraction() {
    assert_eq!(tag("01:23.45"), Some((83_000 + 450) * MS));
    assert_eq!(tag("1:02.5"), Some((62_000 + 500) * MS));
    assert_eq!(tag("0:00.1234"), Some(123 * MS));
    assert_eq!(tag("10:00.000"), Some(600_000 * MS));
    assert_eq!(tag("+1:+2.+3"), Some((62_000 + 30) * MS));
}

#[test]
fn timestamps_without_fraction_are_whole_seconds() {
    assert_eq!(tag("01:05"), Some(65_000 * MS));
    assert_eq!(tag("00:05"), Some(5_000 * MS));
    assert_eq!(tag("01:05.5"), Some(65_500 * MS));
    assert_eq!(tag("00:12.345678"), Some(12_345 * MS));
    assert_eq!(tag("1:xx"), None);
    let lines = parse_lrc("[00:05]five\n[00:01.50]one\n").unwrap();
    assert_eq!(lines.len(), 2);
    assert_eq!(lines[0].timestamp_ns, 1_500 * MS);
    assert_eq!(lines[1].timestamp_ns, 5_000 * MS);
    assert_eq!(lines[1].text, "five");
}

#[test]
fn timestamps_without_digits_are_refused() {
    assert_eq!(tag("ar:Someone"), None);
    assert_eq!(tag("1:xx.5"), None);
    assert_eq!(tag(""), None);
    assert_eq!(tag("1:2."), None);
}

#[test]
fn lrc_lines_are_sorted_by_time() {
    let content = "[ti:Song]\n[00:01.50]Hello\n[00:00.20][00:03.00]World\n\n";
    let lines = parse_lrc(content).unwrap();
    let got: Vec<(u128, String)> = lines.iter().map(|l| (l.timestamp_ns, l.text.clone())).collect();
    assert_eq!(
        got,
        vec![
            (200 * MS, "World".to_string()),
            (1_500 * MS, "Hello".to_string()),
            (3_000 * MS, "World".to_string()),
        ]
    );
}

#[test]
fn lrc_keeps_first_text_for_a_repeated_time() {
    let content = "[00:02.00]first\r\n[00:02.00]second\r\n[00:01.00]  padded text  \r\n";
    let lines = parse_lrc(content).unwrap();
    assert_eq!(lines.len(), 2);
    assert_eq!(lines[0].timestamp_ns, 1_000 * MS);
    assert_eq!(lines[0].text, "padded text");
    assert_eq!(lines[1].text, "first");
}

#[test]
fn lrc_text_is_after_the_last_bracket() {
    let lines = parse_lrc("[00:04.00]a [b] c").unwrap();
    assert_eq!(lines.len(), 1);
    assert_eq!(lines[0].text, "c");
    assert_eq!(lines[0].timestamp_ns, 4_000 * MS);
}

#[test]
fn lrc_without_timed_text_gives_nothing() {
    assert!(parse_lrc("").is_none());
    assert!(parse_lrc("[ar:x]no time\n").is_none());
    assert!(parse_lrc("[00:01.00]\n[ar:x]text\n").is_none());
}

#[test]
fn lrc_safety_check_rejects_a_split_character() {
    assert!(lrc_content_is_safe("[00:01.00]ok"));
    assert!(!lrc_content_is_safe("[00:01.ab€]x"));
    assert!(lrc_content_is_safe("[00:01.€]x"));
}

#[test]
fn xspf_locations_become_paths() {
    assert_eq!(xspf_location_path("file:///home/me/a%20b.mp3", false), "/home/me/a b.mp3");
    assert_eq!(xspf_location_path("  file://host/x.mp3 ", false), "host/x.mp3");
    assert_eq!(xspf_location_path("file:rel.mp3", false), "rel.mp3");
    assert_eq!(xspf_location_path("/plain/path.ogg", false), "/plain/path.ogg");
    assert_eq!(xspf_location_path("file:///C:/Music/a.mp3", false), "/C:/Music/a.mp3");
    assert_eq!(xspf_location_path("file:///C:/Music/a.mp3", true), "C:/Music/a.mp3");
    assert_eq!(xspf_location_path("/1:/Music/a.mp3", true), "/1:/Music/a.mp3");
    assert_eq!(xspf_location_path("/C:/Music/a.mp3", true), "C:/Music/a.mp3");
    assert_eq!(xspf_location_path("/C:/Music/a.mp3", false), "/C:/Music/a.mp3");
    assert_eq!(xspf_location_path("/C:", true), "/C:");
}

#[test]
fn xspf_reads_first_location_of_each_track() {
    let xml = r#"<?xml version="1.0" encoding="UTF-8"?>
<playlist version="1" xmlns="http://xspf.org/ns/0/">
  <trackList>
    <track><title>One</title><location>file:///m/one.mp3</location><location>file:///m/ignored.mp3</location></track>
    <track><title>No location</title></track>
    <track><location>/m/two%20b.flac</location></track>
  </trackList>
</playlist>"#;
    let paths = parse_xspf(xml, false).unwrap();
    assert_eq!(paths, vec!["/m/one.mp3".to_string(), "/m/two b.flac".to_string()]);
}

#[test]
fn xspf_locations_decode_every_percent_escape() {
    assert_eq!(xspf_location_path("file:///m/a%23b%26c.mp3", false), "/m/a#b&c.mp3");
    assert_eq!(xspf_location_path("/m/caf%C3%A9.mp3", false), "/m/café.mp3");
    assert_eq!(xspf_location_path("/m/%e4%b9%90.mp3", false), "/m/乐.mp3");
    assert_eq!(xspf_location_path("/m/%F0%9F%8E%B5.mp3", false), "/m/🎵.mp3");
    // escapes that encode no character stay as they are
    assert_eq!(xspf_location_path("/m/100%.mp3", false), "/m/100%.mp3");
    assert_eq!(xspf_location_path("/m/%E9t%C3.mp3", false), "/m/%E9t%C3.mp3");
    assert_eq!(xspf_location_path("/m/%zz%2", false), "/m/%zz%2");
    assert_eq!(xspf_location_path("/m/%C0%80", false), "/m/%C0%80");
    assert_eq!(xspf_location_path("/m/%ED%A0%80", false), "/m/%ED%A0%80");
}

#[test]
fn xspf_refuses_broken_xml() {
    assert_eq!(parse_xspf("<playlist><track>", false).unwrap_err(), XspfError::InvalidXml);
    assert_eq!(parse_xspf("", false).unwrap_err(), XspfError::InvalidXml);
}
