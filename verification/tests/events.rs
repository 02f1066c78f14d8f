//! Events and their stream.

use zaccounts_web::api::set_hub;
use zaccounts_web::events::{
    page_left, sse_frame, sse_head, sse_next, Hub, PageRead, Wait, PING_SECONDS,
};
use zaccounts_web::json::Json;

fn open_streams(h: &Hub) -> Vec<u64> {
    h.emit("x", &Json::Null).to
}

#[test]
fn a_number_is_given_once() {
    let mut h = Hub::new();
    assert!(open_streams(&h).is_empty());
    assert!(h.can_subscribe());
    assert_eq!(h.subscribe(), 1);
    assert_eq!(h.subscribe(), 2);
    assert_eq!(h.subscribe(), 3);
    h.unsubscribe(2);
    assert_eq!(open_streams(&h), vec![1, 3]);
    assert_eq!(h.subscribe(), 4);
    h.drop_streams(&vec![4, 1, 9]);
    assert_eq!(open_streams(&h), vec![3]);
    h.unsubscribe(3);
    assert_eq!(h.subscribe(), 5);
}

#[test]
fn closing_the_last_stream_undoes_opening_it() {
    let mut h = Hub::new();
    h.subscribe();
    h.subscribe();
    let before = open_streams(&h);
    let id = h.subscribe();
    h.unsubscribe(id);
    assert_eq!(open_streams(&h), before);
}

#[test]
fn closing_twice_touches_no_other() {
    let mut h = Hub::new();
    let a = h.subscribe();
    h.unsubscribe(a);
    let b = h.subscribe();
    assert_ne!(a, b);
    h.unsubscribe(a);
    assert_eq!(open_streams(&h), vec![b]);
}

#[test]
fn a_silent_page_has_not_left() {
    assert!(page_left(PageRead::Closed));
    assert!(page_left(PageRead::Failed));
    assert!(!page_left(PageRead::TimedOut));
    assert!(!page_left(PageRead::Data));
}

#[test]
fn an_event_goes_to_every_stream_as_one_frame() {
    let mut h = Hub::new();
    h.subscribe();
    h.subscribe();
    let payload = Json::parse_text(r#"{"text":"two\nlines","n":1}"#).unwrap();
    let b = h.emit("claim://result", &payload);
    assert_eq!(b.to, vec![1, 2]);
    assert_eq!(
        b.frame,
        "data: {\"event\":\"claim://result\",\"payload\":{\"n\":1,\"text\":\"two\\nlines\"}}\n\n"
    );
    let line = b.frame.strip_prefix("data: ").unwrap().strip_suffix("\n\n").unwrap();
    let read = Json::parse_text(line).unwrap();
    assert_eq!(read.get_text("event"), Some("claim://result"));
    assert_eq!(read.get("payload").unwrap().to_value(), payload.to_value());
}

#[test]
fn a_stream_starts_with_its_head() {
    assert_eq!(
        sse_head(),
        "HTTP/1.1 200 OK\r\nContent-Type: text/event-stream\r\nCache-Control: no-store\r\nConnection: keep-alive\r\n\r\n"
    );
    assert_eq!(PING_SECONDS, 20);
    assert_eq!(sse_frame("{}"), "data: {}\n\n");
}

#[test]
fn a_stream_sends_events_and_pings_until_it_ends() {
    let m = Wait::Message("data: {}\n\n".to_string());
    assert_eq!(sse_next(m), Some("data: {}\n\n".to_string()));
    assert_eq!(sse_next(Wait::Timeout), Some(": ping\n\n".to_string()));
    assert_eq!(sse_next(Wait::Disconnected), None);
}

/// What a stream sends, where each write goes as it is told.
fn sent(head_written: bool, beats: Vec<(Wait, bool)>) -> Vec<String> {
    let mut out = vec![sse_head().to_string()];
    if !head_written {
        return out;
    }
    for (wait, written) in beats {
        match sse_next(wait) {
            Some(words) => out.push(words),
            None => break,
        }
        if !written {
            break;
        }
    }
    out
}

#[test]
fn a_stream_sends_in_order() {
    let message = |m: &str| Wait::Message(m.to_string());
    let all = |last: (Wait, bool)| {
        sent(
            true,
            vec![
                (message("a"), true),
                (Wait::Timeout, true),
                (message("b"), true),
                last,
                (message("d"), true),
            ],
        )
    };
    let start = vec![sse_head(), "a", ": ping\n\n", "b"];
    assert_eq!(all((Wait::Disconnected, true)), start);
    assert_eq!(all((message("c"), false)), [start.clone(), vec!["c"]].concat());
    assert_eq!(all((message("c"), true)), [start, vec!["c", "d"]].concat());
    assert_eq!(sent(false, vec![(message("a"), true)]), vec![sse_head()]);
}

#[test]
fn the_hub_is_set_once() {
    let mut slot: Option<u8> = None;
    set_hub(&mut slot, 1);
    set_hub(&mut slot, 2);
    assert_eq!(slot, Some(1));
}
