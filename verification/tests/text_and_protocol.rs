use asciidesk::protocol::{negotiate_capabilities, Capability};
use asciidesk::text::{push_decimal_text, trim_text};
use asciidesk::transport::{frame_step, FrameStep, WsFrame};

#[test]
fn trimming() {
    assert_eq!(trim_text("  abc \r\n"), "abc");
    assert_eq!(trim_text("\u{3000}x y\u{2028}"), "x y");
    assert_eq!(trim_text(" \t "), "");
    assert_eq!(trim_text(""), "");
}

#[test]
fn negotiation_keeps_common_capabilities_in_our_order() {
    let ours = vec![Capability::TerminalPty, Capability::TerminalResize, Capability::DesktopStreaming];
    let theirs = vec![Capability::DesktopStreaming, Capability::TerminalPty];
    assert_eq!(negotiate_capabilities(&ours, &theirs), vec![Capability::TerminalPty, Capability::DesktopStreaming]);
    assert!(negotiate_capabilities(&ours, &vec![]).is_empty());
}

#[test]
fn frames() {
    assert!(matches!(frame_step(WsFrame::Text("{}".to_string())), FrameStep::DecodeText(t) if t == "{}"));
    assert!(matches!(frame_step(WsFrame::Binary(vec![1])), FrameStep::DecodeBytes(b) if b == vec![1]));
    assert!(matches!(frame_step(WsFrame::Ping(vec![7, 8])), FrameStep::SendPong(p) if p == vec![7, 8]));
    assert!(matches!(frame_step(WsFrame::Pong(vec![])), FrameStep::Skip));
    assert!(matches!(frame_step(WsFrame::Other), FrameStep::Skip));
    assert!(matches!(frame_step(WsFrame::Close), FrameStep::Closed));
}

#[test]
fn decimal_texts() {
    let mut s = String::from("n=");
    push_decimal_text(&mut s, 0);
    assert_eq!(s, "n=0");
    let mut s = String::new();
    push_decimal_text(&mut s, 1234567890);
    assert_eq!(s, "1234567890");
}
