//! Routes, files and the start.

use zaccounts_web::httpsrv::{Reply, Request, Response};
use zaccounts_web::json::Json;
use zaccounts_web::router::{
    command_reply, content_type, download_candidates, download_dir, emit_reply, flag,
    frontend_root, host, join_path, not_found, port, root_argument, root_candidates, route, route_value, serve_static,
    static_file, FoundFile, Root, Route, EXECUTABLE_DEPTH,
};

fn request(method: &str, path: &str, body: &str) -> Request {
    Request {
        method: method.to_string(),
        path: path.to_string(),
        query: String::new(),
        headers: vec![],
        body: body.as_bytes().to_vec(),
    }
}

fn args(list: &[&str]) -> Vec<String> {
    list.iter().map(|s| s.to_string()).collect()
}

fn response(reply: Reply) -> Response {
    match reply {
        Reply::Respond(r) => r,
        Reply::TakeOver => panic!("taken over"),
    }
}

#[test]
fn commands_come_by_post() {
    match route(&request("POST", "/api/get_state", "{\"a\":1}")) {
        Route::Command { name, body } => {
            assert_eq!(name, "get_state");
            assert_eq!(body.get_int("a"), Some(1));
        }
        other => panic!("{:?}", other),
    }
    assert!(matches!(route(&request("GET", "/api/get_state", "")), Route::NotFound));
    assert!(matches!(route(&request("post", "/api/get_state", "")), Route::NotFound));
    assert!(matches!(route(&request("POST", "/src/main.js", "")), Route::NotFound));
}

#[test]
fn a_slash_at_the_end_makes_no_difference() {
    for path in ["/api/get_state", "/api/get_state/", "/api/get_state///"] {
        match route(&request("POST", path, "not json")) {
            Route::Command { name, body } => {
                assert_eq!(name, "get_state");
                assert_eq!(body.to_text(), "{}");
            }
            other => panic!("{:?}", other),
        }
    }
    assert!(matches!(route(&request("POST", "/api/emit/", "{}")), Route::Command { .. }));
}

#[test]
fn pages_announce_events() {
    match route(&request("POST", "/api/emit", "{\"event\":\"captcha://interactive\",\"payload\":[2]}")) {
        Route::Emit(Some((event, payload))) => {
            assert_eq!(event, "captcha://interactive");
            assert_eq!(payload.to_text(), "[2]");
        }
        other => panic!("{:?}", other),
    }
    match route(&request("POST", "/api/emit", "{}")) {
        Route::Emit(Some((event, payload))) => {
            assert_eq!(event, "");
            assert_eq!(payload.to_text(), "null");
        }
        other => panic!("{:?}", other),
    }
    assert!(matches!(route(&request("POST", "/api/emit", "x")), Route::Emit(None)));
    assert_eq!(response(emit_reply()).body, b"{\"data\":{},\"ok\":true}".to_vec());
}

#[test]
fn a_route_goes_by_the_value_of_the_body() {
    let value = || Json::parse_text("{\"event\":\"e\",\"id\":\"1\"}").ok();
    assert!(matches!(
        route_value("POST", "/api/emit", value()),
        Route::Emit(Some((event, Json::Null))) if event == "e"
    ));
    assert!(matches!(
        route_value("POST", "/api/delete_account", value()),
        Route::Command { name, body } if name == "delete_account" && body.get_text("id") == Some("1")
    ));
    assert!(matches!(route_value("POST", "/api/emit", None), Route::Emit(None)));
    assert!(matches!(route_value("POST", "/api/", None), Route::Command { name, .. } if name.is_empty()));
    assert!(matches!(route_value("GET", "/src/a.js", value()), Route::File(f) if f == "src/a.js"));
}

#[test]
fn the_stream_of_events_is_asked_for() {
    assert!(matches!(route(&request("GET", "/api/events", "")), Route::Events));
    assert!(matches!(route(&request("GET", "/api/events/", "")), Route::Events));
    assert!(matches!(route(&request("HEAD", "/api/events", "")), Route::NotFound));
}

#[test]
fn files_are_asked_for() {
    match route(&request("HEAD", "/", "")) {
        Route::File(rel) => assert_eq!(rel, "index.html"),
        other => panic!("{:?}", other),
    }
    assert!(matches!(route(&request("GET", "/Cargo.toml", "")), Route::NotFound));
    assert!(matches!(route(&request("PUT", "/", "")), Route::NotFound));
}

#[test]
fn served_files_stay_below_the_root() {
    let file = |p: &str| static_file(p);
    let some = |s: &str| Some(s.to_string());
    assert_eq!(file("/"), some("index.html"));
    assert_eq!(file("/index.html"), some("index.html"));
    assert_eq!(file("/settings.html"), some("settings.html"));
    assert_eq!(file("/captcha.html"), some("captcha.html"));
    assert_eq!(file("/brand-icon.png"), some("public/brand-icon.png"));
    assert_eq!(file("/src/lib/a.js"), some("src/lib/a.js"));
    assert_eq!(file("//src/a.js"), some("src/a.js"));
    assert_eq!(file("/public/x.svg"), None);
    assert_eq!(file("/public/notes.txt"), None);
    assert_eq!(file("/public/brand-icon.png"), None);
    assert_eq!(file("/src/../Cargo.toml"), None);
    assert_eq!(file("/src/a\\b"), None);
    assert_eq!(file("/srcs/a"), None);
    assert_eq!(file("/web/src/main.rs"), None);
    assert_eq!(file(""), None);
}

#[test]
fn content_types_go_by_the_extension() {
    assert_eq!(content_type(Some("html")), "text/html; charset=utf-8");
    assert_eq!(content_type(Some("js")), "text/javascript; charset=utf-8");
    assert_eq!(content_type(Some("mjs")), "text/javascript; charset=utf-8");
    assert_eq!(content_type(Some("css")), "text/css; charset=utf-8");
    assert_eq!(content_type(Some("png")), "image/png");
    assert_eq!(content_type(Some("svg")), "image/svg+xml");
    assert_eq!(content_type(Some("json")), "application/json");
    assert_eq!(content_type(Some("HTML")), "application/octet-stream");
    assert_eq!(content_type(None), "application/octet-stream");
}

#[test]
fn a_file_is_served_where_it_is_one_below_the_root() {
    let found = |inside_root: bool, is_file: bool| {
        Some(FoundFile {
            ext: Some("css".to_string()),
            inside_root,
            is_file,
            data: b"a{}".to_vec(),
        })
    };
    let r = response(serve_static(found(true, true)));
    assert_eq!(r.status, 200);
    assert_eq!(r.content_type, "text/css; charset=utf-8");
    assert_eq!(
        r.extra_headers,
        vec![("Cache-Control".to_string(), "no-store".to_string())]
    );
    assert_eq!(r.body, b"a{}".to_vec());
    assert_eq!(response(serve_static(found(false, true))).status, 404);
    assert_eq!(response(serve_static(found(true, false))).status, 404);
    assert_eq!(response(serve_static(None)).body, b"not found".to_vec());
    assert_eq!(response(not_found()).status, 404);
}

#[test]
fn a_command_is_answered() {
    let ok = response(command_reply(Ok(Json::Null)));
    assert_eq!(ok.body, b"{\"data\":null,\"ok\":true}".to_vec());
    let err = response(command_reply(Err("unknown command: x".to_string())));
    assert_eq!(err.body, b"{\"error\":\"unknown command: x\",\"ok\":false}".to_vec());
}

#[test]
fn the_page_reads_the_answer_back() {
    let read = |reply: Reply| Json::parse(&response(reply).body).unwrap();
    let value = Json::parse_text("{\"a\":[1,\"x\\n\"]}").unwrap();
    let ok = read(command_reply(Ok(value.copy())));
    assert_eq!(ok.get_bool("ok"), Some(true));
    assert_eq!(ok.get("data").unwrap().to_value(), value.to_value());
    let err = read(command_reply(Err("store: \"gone\"\n".to_string())));
    assert_eq!(err.get_bool("ok"), Some(false));
    assert_eq!(err.get_text("error"), Some("store: \"gone\"\n"));
    assert_eq!(read(emit_reply()).get("data").unwrap().to_text(), "{}");
}

#[test]
fn arguments_are_read() {
    let a = args(&["web", "--port", "99", "--host", "0.0.0.0", "--root"]);
    assert_eq!(port(&a), 99);
    assert_eq!(host(&a), "0.0.0.0");
    assert_eq!(root_argument(&a), None);
    assert_eq!(flag(&a, "web"), Some("--port".to_string()));
    assert_eq!(port(&args(&[])), 8790);
    assert_eq!(host(&args(&["web"])), "127.0.0.1");
    assert_eq!(port(&args(&["--port", "65536"])), 8790);
    assert_eq!(port(&args(&["--port", "65535"])), 65535);
    assert_eq!(port(&args(&["--port", "x", "--port", "5"])), 8790);
    assert_eq!(root_argument(&args(&["--root", "/w"])), Some("/w".to_string()));
}

#[test]
fn the_root_of_the_pages_is_picked() {
    assert_eq!(frontend_root(true, &vec![true]), Root::Argument);
    assert_eq!(frontend_root(false, &vec![false, true, true]), Root::Candidate(1));
    assert_eq!(frontend_root(false, &vec![false]), Root::Here);
    assert_eq!(frontend_root(false, &vec![]), Root::Here);
    assert_eq!(EXECUTABLE_DEPTH, 4);
}

#[test]
fn the_places_for_the_pages_have_an_order() {
    assert_eq!(root_candidates(Some("v"), Some("w"), Some("x")), vec!["v", "w", "x"]);
    assert_eq!(root_candidates(None, Some("w"), Some("x")), vec!["w", "x"]);
    assert_eq!(root_candidates(Some("v"), None, None), vec!["v"]);
    assert!(root_candidates::<&str>(None, None, None).is_empty());
}

#[test]
fn an_export_goes_to_the_best_directory() {
    assert_eq!(
        download_candidates("/home/u"),
        vec![
            "/home/u/storage/downloads",
            "/storage/emulated/0/Download",
            "/home/u/downloads",
        ]
    );
    assert_eq!(join_path("/home/u/", "a"), "/home/u/a");
    assert_eq!(join_path("", "a"), "a");
    assert_eq!(join_path(".", "a"), "./a");
    let pick = |d: [bool; 3]| {
        let r = download_dir(d);
        (r.index, r.create)
    };
    assert_eq!(pick([true, true, true]), (0, false));
    assert_eq!(pick([false, true, true]), (1, false));
    assert_eq!(pick([false, false, true]), (2, false));
    assert_eq!(pick([false, false, false]), (2, true));
}
