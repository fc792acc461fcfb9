//! The keep-alive transform and the message parse boundary.
use irc_bot::message::{parse_message, ping_reply, pong_for};

#[test]
fn parse_ping_exposes_raw_and_command() {
    let m = parse_message("PING :serverhost").unwrap();
    assert_eq!(m.raw_text(), "PING :serverhost");
    assert_eq!(m.command_text(), "PING");
    assert!(m.is_ping());
}

#[test]
fn parse_non_ping_is_not_ping() {
    let m = parse_message("PRIVMSG #chan :hi there").unwrap();
    assert_eq!(m.command_text(), "PRIVMSG");
    assert!(!m.is_ping());
}

#[test]
fn parse_rejects_garbage() {
    assert!(parse_message("").is_err());
}

#[test]
fn parse_rejects_a_lone_at_sign() {
    assert!(parse_message("@").is_err());
}

#[test]
fn ping_reply_replaces_only_first_i() {
    assert_eq!(ping_reply("PING :serverhost"), "PONG :serverhost");
}

#[test]
fn ping_reply_leaves_later_is_alone() {
    assert_eq!(ping_reply("PING :sIgnal"), "PONG :sIgnal");
}

#[test]
fn ping_reply_without_i_is_identity() {
    assert_eq!(ping_reply("PONG :xyz"), "PONG :xyz");
    assert_eq!(ping_reply(""), "");
}

#[test]
fn ping_reply_is_a_textual_first_match_transform() {
    // The transform touches the first "I" wherever it stands, even in a
    // prefix before the command token.
    assert_eq!(ping_reply(":Ibot PING :x"), ":Obot PING :x");
}

#[test]
fn pong_for_ping_parses_back() {
    let m = parse_message("PING :serverhost").unwrap();
    let pong = pong_for(&m).unwrap();
    assert_eq!(pong.raw_text(), "PONG :serverhost");
    assert_eq!(pong.command_text(), "PONG");
}

#[test]
fn pong_for_keeps_trailing_i() {
    let m = parse_message("PING :sIgnal").unwrap();
    let pong = pong_for(&m).unwrap();
    assert_eq!(pong.raw_text(), "PONG :sIgnal");
}
