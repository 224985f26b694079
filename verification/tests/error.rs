use std::io;
use std::sync::mpsc;

use termoxide::error::{Error, ErrorSource, Event, PanicPayload};

#[test]
fn display_channel_error_describes_dropped_receiver() {
    let error = Error::Channel(mpsc::SendError(Event::ChannelReady));
    assert_eq!(
        error.to_string(),
        "event channel receiver was dropped: sending on a closed channel"
    );
}

#[test]
fn error_display_channel_error_describes_dropped_receiver() {
    let error = Error::Channel(mpsc::SendError(Event::ChannelReady));
    assert_eq!(
        error.to_string(),
        "event channel receiver was dropped: sending on a closed channel"
    );
}

#[test]
fn display_terminal_error_wraps_inner_message() {
    let inner = io::Error::other("boom");
    let error = Error::Terminal(inner);
    assert_eq!(error.to_string(), "terminal operation failed: boom");
}

#[test]
fn error_display_terminal_error_wraps_inner_message() {
    let inner = io::Error::other("boom");
    let error = Error::Terminal(inner);
    assert_eq!(error.to_string(), "terminal operation failed: boom");
}

#[test]
fn source_exposes_the_inner_error() {
    let channel = Error::Channel(mpsc::SendError(Event::ChannelReady));
    assert!(
        matches!(channel.source(), Some(ErrorSource::Channel(mpsc::SendError(Event::ChannelReady)))),
        "Channel source should be the inner SendError"
    );

    let terminal = Error::Terminal(io::Error::other("boom"));
    assert!(
        matches!(terminal.source(), Some(ErrorSource::Terminal(e)) if e.to_string() == "boom"),
        "Terminal source should be the inner io::Error"
    );
}

#[test]
fn error_source_exposes_the_inner_error() {
    let channel = Error::Channel(mpsc::SendError(Event::ChannelReady));
    assert!(
        matches!(channel.source(), Some(ErrorSource::Channel(mpsc::SendError(Event::ChannelReady)))),
        "Channel source should be the inner SendError"
    );

    let terminal = Error::Terminal(io::Error::other("boom"));
    assert!(
        matches!(terminal.source(), Some(ErrorSource::Terminal(e)) if e.to_string() == "boom"),
        "Terminal source should be the inner io::Error"
    );
}

#[test]
fn source_is_empty_for_a_reader_panic() {
    assert!(Error::ReaderPanicked(Some("boom".to_owned())).source().is_none());
}

#[test]
fn error_source_is_empty_for_a_reader_panic() {
    assert!(Error::ReaderPanicked(Some("boom".to_owned())).source().is_none());
}

#[test]
fn display_reader_panic_with_and_without_message() {
    assert_eq!(
        Error::ReaderPanicked(Some("boom".to_owned())).to_string(),
        "terminal input reader thread panicked: boom"
    );
    assert_eq!(
        Error::ReaderPanicked(None).to_string(),
        "terminal input reader thread panicked"
    );
}

#[test]
fn error_display_reader_panic_with_and_without_message() {
    assert_eq!(
        Error::ReaderPanicked(Some("boom".to_owned())).to_string(),
        "terminal input reader thread panicked: boom"
    );
    assert_eq!(
        Error::ReaderPanicked(None).to_string(),
        "terminal input reader thread panicked"
    );
}

#[test]
fn from_panic_keeps_a_literal_message() {
    let error = Error::from_panic(PanicPayload::Literal("boom"));
    assert!(matches!(error, Error::ReaderPanicked(Some(ref message)) if message == "boom"));
}

#[test]
fn from_panic_keeps_a_formatted_message() {
    let error = Error::from_panic(PanicPayload::Formatted(format!("boom {}", 42)));
    assert!(matches!(error, Error::ReaderPanicked(Some(ref message)) if message == "boom 42"));
}

#[test]
fn from_panic_drops_a_non_string_payload() {
    let error = Error::from_panic(PanicPayload::Other);
    assert!(matches!(error, Error::ReaderPanicked(None)));
}

#[test]
fn message_with_detail_puts_the_detail_after_the_description() {
    let channel = Error::Channel(mpsc::SendError(Event::ChannelReady));
    assert_eq!(channel.message_with_detail("gone"), "event channel receiver was dropped: gone");
    let terminal = Error::Terminal(io::Error::other("x"));
    assert_eq!(terminal.message_with_detail("disk"), "terminal operation failed: disk");
    let panicked = Error::ReaderPanicked(Some("m".to_owned()));
    assert_eq!(panicked.message_with_detail("ignored"), "terminal input reader thread panicked: m");
    assert_eq!(
        Error::ReaderPanicked(None).message_with_detail("ignored"),
        "terminal input reader thread panicked"
    );
}

#[test]
fn terminal_error_with_an_empty_message() {
    let error = Error::Terminal(io::Error::other(""));
    assert_eq!(error.to_string(), "terminal operation failed: ");
}

#[test]
fn result_alias_defaults_to_the_reader_error() {
    let failed: termoxide::error::Result<u8> = Err(Error::ReaderPanicked(None));
    assert!(matches!(failed, Err(Error::ReaderPanicked(None))));
}
