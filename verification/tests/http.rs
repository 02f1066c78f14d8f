//! Requests, answers and connections.

use zaccounts_web::httpsrv::{
    answer, body_length, complete_request, goes_on, header_line, open_request, reason, to_answer,
    write_response, FirstLine, Head, HeaderStep, Opening, Received, Reply, Request, Response, Turn,
    MAX_BODY_BYTES, MAX_HEADER_BYTES,
};
use zaccounts_web::json::Json;

fn opened(line: &str) -> Head {
    match open_request(FirstLine::Read(line.to_string())) {
        Opening::Head(h) => h,
        other => panic!("no head: {:?}", other),
    }
}

fn more(head: Head, line: &str) -> Head {
    match header_line(head, line) {
        HeaderStep::More(h) => h,
        other => panic!("no more: {:?}", other),
    }
}

fn request(method: &str, headers: &[(&str, &str)]) -> Request {
    Request {
        method: method.to_string(),
        path: "/".to_string(),
        query: String::new(),
        headers: headers
            .iter()
            .map(|(k, v)| (k.to_string(), v.to_string()))
            .collect(),
        body: vec![],
    }
}

#[test]
fn headers_are_found_whatever_their_case() {
    let r = request("GET", &[("Host", "a"), ("HOST", "b")]);
    assert_eq!(r.header("host"), Some("a"));
    assert_eq!(r.header("accept"), None);
}

#[test]
fn a_connection_stays_open_unless_it_is_to_close() {
    assert!(request("GET", &[]).wants_keepalive());
    assert!(request("GET", &[("Connection", "keep-alive")]).wants_keepalive());
    assert!(!request("GET", &[("connection", "Close")]).wants_keepalive());
    assert!(!request("GET", &[("Connection", "x, closed")]).wants_keepalive());
    assert!(request("GET", &[("Connection", ""), ("Connection", "close")]).wants_keepalive());
}

#[test]
fn a_request_line_is_taken_apart() {
    let h = opened("GET /a%20b?x=%20?y HTTP/1.1\r\n");
    assert_eq!(h.method, "GET");
    assert_eq!(h.path, "/a b");
    assert_eq!(h.query, "x=%20?y");
    assert_eq!(h.total, 27);
    assert!(h.headers.is_empty());
}

#[test]
fn a_request_line_without_a_target_asks_for_the_root() {
    let h = opened("GET\r\n");
    assert_eq!(h.method, "GET");
    assert_eq!(h.path, "/");
    assert_eq!(h.query, "");
}

#[test]
fn no_request_follows_the_end_or_an_empty_line() {
    assert!(matches!(open_request(FirstLine::Eof), Opening::Closed));
    assert!(matches!(open_request(FirstLine::TimedOut), Opening::Closed));
    assert!(matches!(open_request(FirstLine::Failed), Opening::Failed));
    let empty = FirstLine::Read("\r\n".to_string());
    assert!(matches!(open_request(empty), Opening::Closed));
    let cut = FirstLine::Read("GET /%2账 HTTP/1.1\r\n".to_string());
    assert!(matches!(open_request(cut), Opening::SplitsCharacter));
    let in_query = FirstLine::Read("GET /?%2账 HTTP/1.1\r\n".to_string());
    assert!(matches!(open_request(in_query), Opening::Head(_)));
}

#[test]
fn header_lines_are_taken_in() {
    let h = opened("POST /api/get_state HTTP/1.1\r\n");
    let h = more(h, " Content-Length : 3 \r\n");
    let h = more(h, "no colon here\r\n");
    let h = more(h, "X: a:b\r\n");
    assert_eq!(
        h.headers,
        vec![
            ("Content-Length".to_string(), "3".to_string()),
            ("X".to_string(), "a:b".to_string()),
        ]
    );
    assert_eq!(body_length(&h), Some(3));
    let h = match header_line(h, "\r\n") {
        HeaderStep::Complete(h) => h,
        other => panic!("not complete: {:?}", other),
    };
    let r = complete_request(h, b"{} ".to_vec());
    assert_eq!(r.method, "POST");
    assert_eq!(r.path, "/api/get_state");
    assert_eq!(r.query, "");
    assert_eq!(r.headers.len(), 2);
    assert_eq!(r.body, b"{} ".to_vec());
}

#[test]
fn the_end_of_the_input_completes_a_head() {
    let h = opened("GET / HTTP/1.1\r\n");
    assert!(matches!(header_line(h, ""), HeaderStep::Complete(_)));
}

#[test]
fn lines_may_be_so_long_together_and_no_longer() {
    let h = opened("GET / HTTP/1.1\r\n");
    let left = MAX_HEADER_BYTES - h.total;
    let fits = "x".repeat(left - 2) + "\r\n";
    let h = more(h, &fits);
    assert_eq!(h.total, MAX_HEADER_BYTES);
    assert!(matches!(header_line(h, "\n"), HeaderStep::TooLarge));
}

/// The end of a head, taken in line by line.
fn head_end(first: &str, lines: &[String]) -> HeaderStep {
    let mut head = opened(first);
    for l in lines {
        match header_line(head, l) {
            HeaderStep::More(h) => head = h,
            end => return end,
        }
    }
    HeaderStep::More(head)
}

#[test]
fn the_lines_of_a_head_count_together() {
    let first = "GET / HTTP/1.1  \r\n";
    let used = "GET / HTTP/1.1".len() + "A: 1\r\n".len() + "\r\n".len();
    let filler = |n: usize| "B:".to_string() + &"x".repeat(n - 4) + "\r\n";
    let lines = |n: usize| {
        vec!["A: 1\r\n".to_string(), filler(n), "\r\n".to_string(), "C: 3\r\n".to_string()]
    };
    let room = MAX_HEADER_BYTES - used;
    match head_end(first, &lines(room)) {
        HeaderStep::Complete(h) => {
            assert_eq!(h.total, MAX_HEADER_BYTES);
            let names: Vec<&str> = h.headers.iter().map(|(k, _)| k.as_str()).collect();
            assert_eq!(names, vec!["A", "B"]);
        }
        other => panic!("{:?}", other),
    }
    assert!(matches!(head_end(first, &lines(room + 1)), HeaderStep::TooLarge));
    assert!(matches!(head_end(first, &lines(room)[..2]), HeaderStep::More(_)));
}

#[test]
fn the_length_of_a_body_is_read() {
    let with = |v: &str| {
        let h = opened("POST / HTTP/1.1\r\n");
        body_length(&more(h, &format!("content-length: {}\r\n", v)))
    };
    assert_eq!(with("12"), Some(12));
    assert_eq!(with("+12"), Some(12));
    assert_eq!(with("twelve"), Some(0));
    assert_eq!(with("-1"), Some(0));
    assert_eq!(with("99999999999999999999999999"), Some(0));
    assert_eq!(with("67108864"), Some(MAX_BODY_BYTES));
    assert_eq!(with("67108865"), None);
    assert_eq!(body_length(&opened("GET / HTTP/1.1\r\n")), Some(0));
}

#[test]
fn the_length_that_an_answer_announces_is_read() {
    let bytes = write_response(&Response::text(200, "账号"), true, true);
    let text = String::from_utf8(bytes).unwrap();
    let mut h = opened("POST / HTTP/1.1\r\n");
    for l in text.lines().skip(1).filter(|l| !l.is_empty()) {
        h = more(h, l);
    }
    assert_eq!(body_length(&h), Some("账号".len()));
}

#[test]
fn the_first_length_counts() {
    let h = opened("POST / HTTP/1.1\r\n");
    let h = more(h, "Content-Length: x\r\n");
    let h = more(h, "Content-Length: 5\r\n");
    assert_eq!(body_length(&h), Some(0));
}

#[test]
fn words_go_with_a_status() {
    assert_eq!(reason(200), "OK");
    assert_eq!(reason(204), "No Content");
    assert_eq!(reason(304), "Not Modified");
    assert_eq!(reason(400), "Bad Request");
    assert_eq!(reason(404), "Not Found");
    assert_eq!(reason(405), "Method Not Allowed");
    assert_eq!(reason(500), "Internal Server Error");
    assert_eq!(reason(418), "OK");
}

#[test]
fn an_answer_is_written_out() {
    let r = Response::text(404, "not found");
    assert_eq!(
        String::from_utf8(write_response(&r, true, false)).unwrap(),
        "HTTP/1.1 404 Not Found\r\nContent-Type: text/plain; charset=utf-8\r\nContent-Length: 9\r\nConnection: keep-alive\r\n\r\nnot found"
    );
}

#[test]
fn a_header_that_is_set_comes_last() {
    let mut r = Response::bytes(200, "image/png", vec![0, 255]);
    r.set_header("Cache-Control", "no-store");
    r.set_header("X", "y");
    let mut expected = b"HTTP/1.1 200 OK\r\nContent-Type: image/png\r\nContent-Length: 2\r\nConnection: close\r\nCache-Control: no-store\r\nX: y\r\n\r\n".to_vec();
    expected.extend([0u8, 255u8]);
    assert_eq!(write_response(&r, false, false), expected);
}

#[test]
fn the_answer_to_head_is_the_start_of_the_answer() {
    let r = Response::text(200, "body");
    let whole = write_response(&r, true, false);
    let head = write_response(&r, true, true);
    assert_eq!(whole, [head, b"body".to_vec()].concat());
}

#[test]
fn answers_to_commands_tell_success() {
    let plain = Response::json("[]");
    assert_eq!((plain.status, plain.content_type.as_str()), (200, "application/json"));
    assert_eq!(plain.body, b"[]".to_vec());
    let ok = Response::json_ok(Json::parse_text("[1]").unwrap());
    assert_eq!(ok.status, 200);
    assert_eq!(ok.content_type, "application/json");
    assert_eq!(ok.body, b"{\"data\":[1],\"ok\":true}".to_vec());
    let err = Response::json_err("store: \"gone\"");
    assert_eq!(err.status, 200);
    assert_eq!(err.body, b"{\"error\":\"store: \\\"gone\\\"\",\"ok\":false}".to_vec());
    let read = Json::parse(&err.body).unwrap();
    assert_eq!(read.get_bool("ok"), Some(false));
    assert_eq!(read.get_text("error"), Some("store: \"gone\""));
}

/// What is written in the course of a connection, and how many requests are met with a reply.
fn course(rounds: Vec<(Received, Reply, bool)>) -> (Vec<String>, Vec<String>) {
    let mut routed = vec![];
    let mut written = vec![];
    for (received, reply, ok) in rounds {
        let Some(req) = to_answer(received) else {
            break;
        };
        routed.push(req.path.clone());
        match answer(&req, &reply) {
            Turn::Write { bytes, keep } => {
                let text = String::from_utf8(bytes).unwrap();
                written.push(text.rsplit("\r\n\r\n").next().unwrap().to_string());
                if !goes_on(ok, keep) {
                    break;
                }
            }
            Turn::TakeOver => break,
        }
    }
    (routed, written)
}

#[test]
fn requests_are_answered_in_order() {
    let read = |path: &str, headers: &[(&str, &str)]| {
        let mut r = request("GET", headers);
        r.path = path.to_string();
        Received::Request(r)
    };
    let text = |t: &str| Reply::respond(Response::text(200, t));
    let close = [("Connection", "close")];
    let ends: Vec<(Received, Reply, bool, usize, usize)> = vec![
        (read("/2", &close), text("2"), true, 2, 2),
        (read("/2", &[]), text("2"), false, 2, 2),
        (read("/2", &[]), Reply::take_over(), true, 2, 1),
        (Received::Ended, text("2"), true, 1, 1),
        (Received::Failed, text("2"), true, 1, 1),
    ];
    for (received, reply, ok, routed, written) in ends {
        let (paths, bodies) = course(vec![
            (read("/1", &[]), text("1"), true),
            (received, reply, ok),
            (read("/3", &[]), text("3"), true),
        ]);
        assert_eq!(paths, ["/1", "/2"][..routed].to_vec());
        assert_eq!(bodies, ["1", "2"][..written].to_vec());
    }
    let (paths, bodies) = course(vec![
        (read("/1", &[]), text("1"), true),
        (read("/2", &[]), text("2"), true),
        (read("/3", &[]), text("3"), true),
    ]);
    assert_eq!(paths, vec!["/1", "/2", "/3"]);
    assert_eq!(bodies, vec!["1", "2", "3"]);
}

#[test]
fn a_connection_goes_on_behind_an_answer() {
    let reply = Reply::respond(Response::text(200, "x"));
    match answer(&request("GET", &[]), &reply) {
        Turn::Write { bytes, keep } => {
            assert!(keep);
            assert!(bytes.ends_with(b"\r\n\r\nx"));
        }
        Turn::TakeOver => panic!("taken over"),
    }
    match answer(&request("HEAD", &[("Connection", "close")]), &reply) {
        Turn::Write { bytes, keep } => {
            assert!(!keep);
            assert!(bytes.ends_with(b"Connection: close\r\n\r\n"));
        }
        Turn::TakeOver => panic!("taken over"),
    }
    assert!(matches!(
        answer(&request("GET", &[]), &Reply::take_over()),
        Turn::TakeOver
    ));
    assert!(goes_on(true, true));
    assert!(!goes_on(true, false));
    assert!(!goes_on(false, true));
}
