use llm_gateway::frame::{classify_frame, next_frame, Frame};

fn parts(frame: &str, rest: &str) -> Option<(String, String)> {
    Some((frame.to_string(), rest.to_string()))
}

#[test]
fn next_frame_needs_a_blank_line() {
    assert_eq!(next_frame(""), None);
    assert_eq!(next_frame("data: x"), None);
    assert_eq!(next_frame("data: x\n"), None);
    assert_eq!(next_frame("data: x\ndata: y\n"), None);
    assert_eq!(next_frame("data: x\r\n\r\n"), None);
}

#[test]
fn next_frame_cuts_at_the_first_blank_line() {
    assert_eq!(next_frame("data: x\n\n"), parts("data: x", ""));
    assert_eq!(next_frame("data: x\n\ndata: y\n\n"), parts("data: x", "data: y\n\n"));
    assert_eq!(next_frame("\n\n"), parts("", ""));
    assert_eq!(next_frame("\n\n\n"), parts("", "\n"));
    assert_eq!(next_frame("a\n\n\n\nb"), parts("a", "\n\nb"));
    assert_eq!(next_frame("a\nb\n\nc"), parts("a\nb", "c"));
}

#[test]
fn next_frame_keeps_characters_beyond_ascii() {
    assert_eq!(
        next_frame("h\u{e9}\u{1F600}\n\n\u{4F60}\u{597D}"),
        parts("h\u{e9}\u{1F600}", "\u{4F60}\u{597D}")
    );
}

#[test]
fn frames_without_the_marker_are_ignored() {
    assert_eq!(classify_frame(""), Frame::Ignored);
    assert_eq!(classify_frame("event: ping"), Frame::Ignored);
    assert_eq!(classify_frame(": keep-alive"), Frame::Ignored);
    assert_eq!(classify_frame("data:{\"a\":1}"), Frame::Ignored);
    assert_eq!(classify_frame("data:"), Frame::Ignored);
    assert_eq!(classify_frame(" data: [DONE]"), Frame::Ignored);
    assert_eq!(classify_frame("DATA: [DONE]"), Frame::Ignored);
    assert_eq!(classify_frame("[DONE]"), Frame::Ignored);
}

#[test]
fn the_sentinel_is_the_terminator() {
    assert_eq!(classify_frame("data: [DONE]"), Frame::Terminator);
    assert_eq!(classify_frame("data:   [DONE]  "), Frame::Terminator);
    assert_eq!(classify_frame("data: [DONE]\n"), Frame::Terminator);
    assert_eq!(classify_frame("data: \t[DONE]\r"), Frame::Terminator);
    assert_eq!(classify_frame("data: \u{A0}[DONE]\u{3000}"), Frame::Terminator);
}

#[test]
fn what_is_not_exactly_the_sentinel_is_data() {
    assert_eq!(classify_frame("data: [done]"), Frame::Data("[done]".to_string()));
    assert_eq!(classify_frame("data: [DONE] x"), Frame::Data("[DONE] x".to_string()));
    assert_eq!(classify_frame("data: [ DONE ]"), Frame::Data("[ DONE ]".to_string()));
    assert_eq!(classify_frame("data: "), Frame::Data(String::new()));
    assert_eq!(classify_frame("data:  \t "), Frame::Data(String::new()));
}

#[test]
fn the_payload_is_trimmed_at_both_ends_only() {
    assert_eq!(
        classify_frame("data:  {\"a\": \" b \"} \n"),
        Frame::Data("{\"a\": \" b \"}".to_string())
    );
    assert_eq!(
        classify_frame("data: first\ndata: second"),
        Frame::Data("first\ndata: second".to_string())
    );
    assert_eq!(
        classify_frame("data: \u{2003}h\u{e9}\u{1F600}\u{2028}"),
        Frame::Data("h\u{e9}\u{1F600}".to_string())
    );
}
