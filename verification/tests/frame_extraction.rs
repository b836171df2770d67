use regex::Regex;
use serial_monitor::decode::extract_from_bytes;
use serial_monitor::frame::extract;

fn name(text: &str) -> Option<String> {
    Some(text.to_string())
}

#[test]
fn extracts_name_from_frame() {
    assert_eq!(extract("*#ESD_ABC#"), name("ABC"));
}

#[test]
fn empty_name_is_a_match() {
    assert_eq!(extract("*#ESD_#"), name(""));
}

#[test]
fn text_without_marker_has_no_match() {
    assert_eq!(extract("hello world"), None);
    assert_eq!(extract("ESD_ABC#"), None);
    assert_eq!(extract("#ABC#"), None);
}

#[test]
fn empty_text_has_no_match() {
    assert_eq!(extract(""), None);
}

#[test]
fn marker_without_closing_has_no_match() {
    assert_eq!(extract("*#ESD_ABC"), None);
    assert_eq!(extract("*#ESD_"), None);
}

#[test]
fn text_shorter_than_marker_has_no_match() {
    assert_eq!(extract("*#ESD"), None);
    assert_eq!(extract("#"), None);
}

#[test]
fn first_of_two_frames_wins() {
    assert_eq!(extract("*#ESD_ONE#*#ESD_TWO#"), name("ONE"));
}

#[test]
fn frame_inside_noise_is_found() {
    assert_eq!(extract("noise\r\n*#ESD_X1#tail"), name("X1"));
}

#[test]
fn name_ends_at_first_closing_mark() {
    assert_eq!(extract("*#ESD_AB#CD#"), name("AB"));
}

#[test]
fn name_may_hold_anything_but_the_closing_mark() {
    assert_eq!(extract("*#ESD_a b\r\n*_\u{e9}\u{1F496}#"), name("a b\r\n*_\u{e9}\u{1F496}"));
}

#[test]
fn broken_marker_is_passed_over() {
    assert_eq!(extract("*#ESD*#ESD_OK#"), name("OK"));
    assert_eq!(extract("*#esd_NO#*#ESD_YES#"), name("YES"));
}

#[test]
fn marker_inside_a_name_belongs_to_the_earlier_frame() {
    assert_eq!(extract("*#ESD_*#ESD_Z#"), name("*"));
}

#[test]
fn empty_frame_before_a_named_one_wins() {
    assert_eq!(extract("*#ESD_#*#ESD_X#"), name(""));
}

#[test]
fn characters_before_the_frame_may_be_wide() {
    assert_eq!(extract("\u{1F496}\u{e9}*#ESD_N#"), name("N"));
}

#[test]
fn extract_agrees_with_the_pattern_engine() {
    let pattern = Regex::new(r"\*#ESD_(?P<name>[^#]*)#").unwrap();
    let samples = [
        "",
        "#",
        "*#ESD_",
        "*#ESD_#",
        "*#ESD_ABC#",
        "*#ESD_ABC",
        "x*#ESD_ABC#y",
        "*#ESD_ONE#*#ESD_TWO#",
        "*#ESD_*#ESD_Z#",
        "*#ESD*#ESD_OK#",
        "**#ESD_A#",
        "*#*#ESD_B#",
        "*#ESD_a\nb#",
        "*#ESD_\u{fffd}\u{1F496}#",
        "\u{1F496}*#ESD_wide#",
        "*#ESD_OFF#\r\n",
        "*#ESD__#",
        "* #ESD_A#",
        "*#ESD_A #",
        "######",
        "*#ESD_#####",
    ];
    for text in samples {
        let expected = pattern
            .captures(text)
            .and_then(|found| found.name("name"))
            .map(|found| found.as_str().to_string());
        assert_eq!(extract(text), expected, "on {:?}", text);
    }
}

#[test]
fn bytes_of_a_frame_give_its_name() {
    assert_eq!(extract_from_bytes(b"*#ESD_ABC#"), name("ABC"));
    assert_eq!(extract_from_bytes(b"*#ESD_#"), name(""));
    assert_eq!(extract_from_bytes(b"no marker here"), None);
    assert_eq!(extract_from_bytes(b""), None);
}

#[test]
fn invalid_bytes_are_replaced_not_refused() {
    assert_eq!(extract_from_bytes(b"*#ESD_A\xffB#"), name("A\u{fffd}B"));
    assert_eq!(extract_from_bytes(b"\xff\xfe*#ESD_OK#"), name("OK"));
}

#[test]
fn character_cut_at_the_end_of_a_read_is_replaced() {
    // The first two bytes of a three-byte character, then the closing mark.
    assert_eq!(extract_from_bytes(b"*#ESD_N\xe2\x82#"), name("N\u{fffd}"));
    // A whole three-byte character is kept.
    assert_eq!(extract_from_bytes(b"*#ESD_\xe2\x82\xac#"), name("\u{20ac}"));
}
