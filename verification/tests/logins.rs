//! Logins: how they are begun, asked about and stored.

use zaccounts_web::failure::Failure;
use zaccounts_web::json::Json;
use zaccounts_web::login::{
    assembled, base_name, got_access, got_business, got_profile, got_user_info, locked,
    login_name, matched, named, named_with, start_login, stored, Account, Found, Login,
    LoginStep, Naming, TextLoginStep,
};
use zaccounts_web::oauth::{
    begin, begin_with, finalize_oauth_result, got_auth_proxy, got_flow, got_providers, ours,
    persisted, poll_clock, poll_deadline, poll_replied, poll_turn, polling, proxy_checked,
    LoginFlow, PollNext, PollReply,
};
use zaccounts_web::step::{new_session, Note, PendingOAuth, Step, TextSession, TextStep};

fn json(text: &str) -> Json {
    Json::parse_text(text).unwrap()
}

fn text(s: &str) -> String {
    s.to_string()
}

fn waiting(flow: &str) -> TextSession {
    let mut s = new_session();
    s.oauth = Some(PendingOAuth {
        provider: text("zai"),
        state: text("st"),
        flow: text(flow),
    });
    s
}

fn line(n: &Note<String>) -> (&str, &str, &str) {
    (n.flow.as_str(), n.stage.as_str(), n.detail.as_str())
}

fn looks_random(id: &str) -> bool {
    let c: Vec<char> = id.chars().collect();
    c.len() == 36
        && c.iter().enumerate().all(|(i, x)| match i {
            8 | 13 | 18 | 23 => *x == '-',
            14 => *x == '4',
            19 => matches!(x, '8' | '9' | 'a' | 'b'),
            _ => x.is_ascii_digit() || ('a'..='f').contains(x),
        })
}

fn failure_text(step: TextStep) -> String {
    match step {
        Step::Done(d) => match d.result {
            Err(Failure::Text(e)) => e,
            other => panic!("{:?}", other),
        },
        other => panic!("{:?}", other),
    }
}

// The begin.

#[test]
fn the_service_has_to_be_known() {
    let known = vec![text("zai"), text("bigmodel")];
    assert!(matches!(
        got_providers(text("bigmodel"), &known),
        Step::AuthProxy { provider } if provider == "bigmodel"
    ));
    match got_providers(text("other"), &known) {
        Step::Done(d) => {
            assert!(matches!(d.result, Err(Failure::UnknownProvider(p)) if p == "other"))
        }
        other => panic!("{:?}", other),
    }
}

#[test]
fn a_login_begins_under_random_identifiers() {
    let mut s = waiting("before");
    match begin(text("zai"), &mut s) {
        Step::InitFlow { provider, flow, mid, note } => {
            assert_eq!(provider, "zai");
            assert!(looks_random(&flow));
            assert!(looks_random(&mid));
            assert_ne!(flow, mid);
            assert_eq!(line(&note), (flow.as_str(), "begin", "provider=zai channel=poll"));
        }
        other => panic!("{:?}", other),
    }
    assert!(s.oauth.is_none());
}

#[test]
fn a_login_begins_under_given_identifiers() {
    let mut s = waiting("before");
    match begin_with(text("p"), text("f"), text("m"), &mut s) {
        Step::InitFlow { provider, flow, mid, note } => {
            assert_eq!((provider.as_str(), flow.as_str(), mid.as_str()), ("p", "f", "m"));
            assert_eq!(line(&note), ("f", "begin", "provider=p channel=poll"));
        }
        other => panic!("{:?}", other),
    }
    assert!(s.oauth.is_none());
}

#[test]
fn the_proxy_is_checked_first() {
    let mut s = waiting("before");
    assert!(matches!(
        got_auth_proxy(text("zai"), Some(text("u")), &mut s),
        Step::CheckProxy { provider, url } if provider == "zai" && url == "u"
    ));
    assert_eq!(failure_text(proxy_checked(text("zai"), Err(text("bad")), &mut s)), "bad");
    assert!(s.oauth.is_some());
    assert!(matches!(
        proxy_checked(text("zai"), Ok(text("u")), &mut s),
        Step::InitFlow { .. }
    ));
    assert!(s.oauth.is_none());
    assert!(matches!(got_auth_proxy(text("zai"), None, &mut s), Step::InitFlow { .. }));
}

fn flow_of(expires_at_ms: u128) -> LoginFlow<String> {
    LoginFlow {
        state: text("st"),
        authorize_url: text("https://login"),
        poll_url: text("https://host/flows/77"),
        poll_token: text("tok"),
        expires_at_ms,
        poll_interval_ms: 2000,
    }
}

#[test]
fn an_opened_login_is_waited_for() {
    let mut s = new_session();
    let step = got_flow(text("zai"), text("f"), text("m"), 1_000, Ok(flow_of(62_999)), &mut s);
    match step {
        Step::SpawnPoll { job, authorize_url, note } => {
            assert_eq!(job.provider, "zai");
            assert_eq!(job.flow, "f");
            assert_eq!(job.mid, "m");
            assert_eq!(job.url, "https://host/flows/77");
            assert_eq!(job.token, "tok");
            assert_eq!(job.expires_at_ms, 62_999);
            assert_eq!(job.interval_ms, 2000);
            assert_eq!(authorize_url, "https://login");
            assert_eq!(
                line(&note),
                ("f", "init-ok", "server_flow=77 expires_in=61s interval=2000ms")
            );
        }
        other => panic!("{:?}", other),
    }
    assert!(ours(&s, "f"));
    assert!(!ours(&s, "g"));
    let p = s.oauth.unwrap();
    assert_eq!(p.provider, "zai");
    assert_eq!(p.state, "st");
}

#[test]
fn a_login_that_has_expired_has_no_time_left() {
    let mut s = new_session();
    match got_flow(text("p"), text("f"), text("m"), 5_000, Ok(flow_of(4_000)), &mut s) {
        Step::SpawnPoll { note, .. } => {
            assert_eq!(note.detail, "server_flow=77 expires_in=0s interval=2000ms")
        }
        other => panic!("{:?}", other),
    }
}

#[test]
fn a_login_that_is_not_opened_is_logged() {
    let mut s = new_session();
    match got_flow(text("p"), text("f"), text("m"), 0, Err(text("down")), &mut s) {
        Step::Done(d) => {
            assert_eq!(line(&d.note.unwrap()), ("f", "init-fail", "down"));
            assert!(matches!(d.result, Err(Failure::Text(e)) if e == "down"));
        }
        other => panic!("{:?}", other),
    }
    assert!(s.oauth.is_none());
}

#[test]
fn the_page_is_told_where_to_log_in() {
    match polling(text("zai"), text("https://login")) {
        Step::Done(d) => assert_eq!(
            d.result.unwrap().to_text(),
            "{\"authorizeUrl\":\"https://login\",\"provider\":\"zai\"}"
        ),
        other => panic!("{:?}", other),
    }
}

// Asking.

#[test]
fn the_deadline_is_the_earlier_end() {
    assert_eq!(poll_deadline(500, 100, 300), 400);
    assert_eq!(poll_deadline(350, 100, 300), 350);
    assert_eq!(poll_deadline(u128::MAX, u128::MAX, 300), u128::MAX);
}

#[test]
fn a_login_is_asked_about_while_it_is_waited_for() {
    assert!(matches!(poll_turn(&waiting("f"), "f"), PollNext::Request));
    for s in [waiting("g"), new_session()] {
        match poll_turn(&s, "f") {
            PollNext::Exit(Some(n)) => {
                assert_eq!(line(&n), ("f", "poll-exit", "flow-done-or-replaced"))
            }
            other => panic!("{:?}", other),
        }
    }
}

#[test]
fn what_the_service_says_decides() {
    let mut s = waiting("f");
    assert!(matches!(
        poll_replied(&mut s, "f", PollReply::Pending),
        PollNext::CheckClock
    ));
    match poll_replied(&mut s, "f", PollReply::Ready(json(r#"{"token":"t"}"#))) {
        PollNext::Persist { note, raw } => {
            assert_eq!(line(&note), ("f", "poll-ready", ""));
            assert_eq!(raw.to_text(), "{\"code\":0,\"data\":{\"token\":\"t\"}}");
        }
        other => panic!("{:?}", other),
    }
    assert!(ours(&s, "f"));
}

#[test]
fn a_failed_login_is_forgotten() {
    let mut s = waiting("f");
    match poll_replied(&mut s, "f", PollReply::Failed(text("denied"))) {
        PollNext::Fail { note, failure } => {
            assert_eq!(line(&note), ("f", "poll-fail", "denied"));
            assert!(matches!(failure, Failure::Text(e) if e == "denied"));
        }
        other => panic!("{:?}", other),
    }
    assert!(s.oauth.is_none());
}

#[test]
fn a_replaced_login_touches_nothing() {
    let mut s = waiting("g");
    match poll_replied(&mut s, "f", PollReply::Failed(text("denied"))) {
        PollNext::Exit(Some(n)) => assert_eq!(line(&n), ("f", "poll-exit", "superseded")),
        other => panic!("{:?}", other),
    }
    assert!(matches!(poll_clock(&mut s, "f", 10, 10, 5), PollNext::Exit(None)));
    assert!(ours(&s, "g"));
}

#[test]
fn pauses_end_in_time() {
    let mut s = waiting("f");
    assert!(matches!(poll_clock(&mut s, "f", 100, 10, 50), PollNext::Sleep { ms: 50 }));
    assert!(matches!(poll_clock(&mut s, "f", 100, 90, 50), PollNext::Sleep { ms: 10 }));
    match poll_clock(&mut s, "f", 100, 100, 50) {
        PollNext::Fail { note, failure } => {
            assert_eq!(line(&note), ("f", "poll-timeout", ""));
            assert!(matches!(failure, Failure::LoginExpired));
        }
        other => panic!("{:?}", other),
    }
    assert!(s.oauth.is_none());
}

#[test]
fn the_end_of_a_login_is_logged_and_told() {
    let told = |r: &Result<Json, String>| {
        finalize_oauth_result(r).map(|(e, p)| (e, p.to_text()))
    };
    let fresh = Ok(json(r#"{"id":"1"}"#));
    assert_eq!(
        line(&persisted("f", &fresh).unwrap()),
        ("f", "persist-ok", "channel=poll duplicate=false")
    );
    assert_eq!(told(&fresh), Some((text("oauth://done"), text("{\"id\":\"1\"}"))));
    let known = Ok(json(r#"{"duplicate":null}"#));
    assert_eq!(
        line(&persisted("f", &known).unwrap()),
        ("f", "persist-ok", "channel=poll duplicate=true")
    );
    let failed = Err(text("full"));
    assert_eq!(
        line(&persisted("f", &failed).unwrap()),
        ("f", "persist-fail", "channel=poll full")
    );
    assert_eq!(
        told(&failed),
        Some((text("oauth://done"), text("{\"error\":\"full\",\"ok\":false}")))
    );
    let replaced = Err(text("__superseded__"));
    assert!(persisted("f", &replaced).is_none());
    assert_eq!(told(&replaced), None);
    let attributed = Err(text("__attribution__"));
    assert_eq!(
        line(&persisted("f", &attributed).unwrap()),
        ("f", "persist-fail", "channel=poll __attribution__")
    );
    assert_eq!(told(&attributed), None);
}

// Storing.

fn login(provider: &str) -> Login<String, Json> {
    Login {
        provider: text(provider),
        raw: json("{}"),
        flow: text("f"),
        mid: text("dev"),
        poll_ready: true,
        jwt: text("j"),
    }
}

fn is_superseded(step: TextLoginStep) -> bool {
    matches!(step, LoginStep::Failed(Failure::Text(e)) if e == "__superseded__")
}

#[test]
fn a_login_needs_a_token() {
    let start = |raw: &str| {
        start_login(&waiting("f"), text("zai"), json(raw), text("f"), text("dev"), true)
    };
    match start(r#"{"data":{"token":" jwt \n"}}"#) {
        LoginStep::AccessToken(l) => {
            assert_eq!(l.jwt, "jwt");
            assert_eq!(l.provider, "zai");
            assert_eq!(l.flow, "f");
            assert_eq!(l.mid, "dev");
            assert!(l.poll_ready);
            assert_eq!(l.raw.to_text(), "{\"data\":{\"token\":\" jwt \\n\"}}");
        }
        other => panic!("{:?}", other),
    }
    for raw in ["{}", r#"{"data":{"token":"  "}}"#, r#"{"data":{"token":1}}"#] {
        assert!(matches!(start(raw), LoginStep::Failed(Failure::NoToken)));
    }
}

#[test]
fn a_ready_login_brings_its_token() {
    let mut s = waiting("f");
    let raw = match poll_replied(&mut s, "f", PollReply::Ready(json(r#"{"token":" t "}"#))) {
        PollNext::Persist { raw, .. } => raw,
        other => panic!("{:?}", other),
    };
    assert!(matches!(
        start_login(&s, text("zai"), raw, text("f"), text("dev"), true),
        LoginStep::AccessToken(l) if l.jwt == "t"
    ));
}

#[test]
fn access_tokens_of_zai_are_traded() {
    assert!(matches!(
        got_access(login("zai"), Some(text("t"))),
        LoginStep::BusinessToken { raw_access, .. } if raw_access == "t"
    ));
    assert!(matches!(
        got_access(login("zai"), None),
        LoginStep::Profile { access, .. } if access.is_empty()
    ));
    assert!(matches!(
        got_access(login("bigmodel"), Some(text("t"))),
        LoginStep::Profile { access, .. } if access == "t"
    ));
    assert!(matches!(
        got_business(login("zai"), Some(text("b"))),
        LoginStep::Profile { access, .. } if access == "b"
    ));
    assert!(matches!(
        got_business(login("zai"), None),
        LoginStep::Failed(Failure::NoBusinessToken)
    ));
}

#[test]
fn the_profile_is_asked_for_where_it_is_missing() {
    assert!(matches!(
        got_profile(login("zai"), text("t"), None),
        LoginStep::UserInfo { access, .. } if access == "t"
    ));
    assert!(matches!(
        got_profile(login("zai"), text("t"), Some(json("1"))),
        LoginStep::Assemble { access, token: Some(t), profile: Some(p), .. }
            if access == "t" && t == "t" && p.to_text() == "1"
    ));
    assert!(matches!(
        got_profile(login("zai"), text(""), None),
        LoginStep::Assemble { token: None, profile: None, .. }
    ));
    assert!(matches!(
        got_user_info(login("zai"), text("t"), None),
        LoginStep::Assemble { token: Some(_), profile: None, .. }
    ));
}

#[test]
fn a_replaced_login_is_not_saved() {
    let other = waiting("g");
    assert!(is_superseded(start_login(
        &other,
        text("zai"),
        json(r#"{"data":{"token":"t"}}"#),
        text("f"),
        text("dev"),
        true,
    )));
    assert!(is_superseded(locked(&other, login("zai"), json("{}"), json("{}"))));
    let known = Found::Known { account: account(None), hash: text("h"), now: text("n") };
    assert!(is_superseded(matched(&other, login("zai"), json("{}"), json("{}"), Ok(known))));
    assert!(is_superseded(named(
        &other,
        login("zai"),
        json("{}"),
        json("{}"),
        text("h"),
        naming(),
    )));
}

#[test]
fn the_library_is_locked_before_the_search() {
    assert!(matches!(
        assembled(login("zai"), json("1"), json("2")),
        LoginStep::Lock { credentials, config, .. }
            if credentials.to_text() == "1" && config.to_text() == "2"
    ));
    assert!(matches!(
        locked(&waiting("f"), login("zai"), json("1"), json("2")),
        LoginStep::Match { credentials, config, .. }
            if credentials.to_text() == "1" && config.to_text() == "2"
    ));
}

fn account(mid: Option<&str>) -> Account<String, Json> {
    Account {
        id: text("a1"),
        name: text("Ada"),
        created_at: text("c"),
        updated_at: text("u"),
        hash: text("old"),
        credentials: json("0"),
        config: None,
        virtual_device_mid: mid.map(String::from),
        virtual_arms_uid: Some(text("uid")),
    }
}

fn naming() -> Naming<String> {
    Naming { name: text("Ada 2"), now: text("now"), arms_uid: text("new uid") }
}

fn saved(step: TextLoginStep) -> (Account<String, Json>, String) {
    match step {
        LoginStep::Save { account, answer } => (account, answer.to_text()),
        other => panic!("{:?}", other),
    }
}

fn refreshed(mid: Option<&str>) -> Account<String, Json> {
    let found = Found::Known { account: account(mid), hash: text("h"), now: text("n") };
    saved(matched(&waiting("f"), login("zai"), json("1"), json("2"), Ok(found))).0
}

#[test]
fn a_known_account_stays_itself() {
    let found = Found::Known { account: account(Some("own")), hash: text("h"), now: text("n") };
    let (a, answer) = saved(matched(&waiting("f"), login("zai"), json("1"), json("2"), Ok(found)));
    assert_eq!(a.id, "a1");
    assert_eq!(a.name, "Ada");
    assert_eq!(a.created_at, "c");
    assert_eq!(a.updated_at, "n");
    assert_eq!(a.hash, "h");
    assert_eq!(a.credentials.to_text(), "1");
    assert_eq!(a.config.unwrap().to_text(), "2");
    assert_eq!(a.virtual_device_mid, Some(text("own")));
    assert_eq!(a.virtual_arms_uid, Some(text("uid")));
    assert_eq!(
        answer,
        "{\"duplicate\":true,\"id\":\"a1\",\"name\":\"Ada\",\"provider\":\"zai\"}"
    );
}

#[test]
fn a_saved_account_has_a_device() {
    assert_eq!(refreshed(None).virtual_device_mid, Some(text("dev")));
    assert_eq!(refreshed(Some(" ")).virtual_device_mid, Some(text("dev")));
    assert_eq!(refreshed(Some(" x")).virtual_device_mid, Some(text(" x")));
}

#[test]
fn refreshing_twice_is_refreshing_once() {
    let once = refreshed(None);
    let shown = format!("{:?}", once);
    let found = Found::Known { account: once, hash: text("h"), now: text("n") };
    let twice = saved(matched(&waiting("f"), login("zai"), json("1"), json("2"), Ok(found))).0;
    assert_eq!(format!("{:?}", twice), shown);
}

#[test]
fn a_new_account_is_named() {
    let credentials = r#"{"oauth:zai:user_info":"{\"username\":\"ada\"}"}"#;
    let found = Found::Unknown { hash: text("h") };
    match matched(&waiting("f"), login("zai"), json(credentials), json("2"), Ok(found)) {
        LoginStep::Name { hash, base, credentials: c, .. } => {
            assert_eq!(hash, "h");
            assert_eq!(base, "ada");
            assert_eq!(c.to_value(), json(credentials).to_value());
        }
        other => panic!("{:?}", other),
    }
    let failed = matched(&waiting("f"), login("zai"), json("1"), json("2"), Err(text("e")));
    assert!(matches!(failed, LoginStep::Failed(Failure::Text(e)) if e == "e"));
}

#[test]
fn a_name_is_the_users_or_the_services() {
    assert_eq!(login_name("zai", Some(&json(r#"{"username":"ada"}"#))), "ada");
    assert_eq!(login_name("zai", Some(&json("{}"))), "z.ai");
    assert_eq!(login_name("bigmodel", None), "BigModel");
    assert_eq!(base_name("zai", &json(r#"{"oauth:zai:user_info":"not json"}"#)), "z.ai");
    assert_eq!(
        base_name("x", &json(r#"{"oauth:x:user_info":"{\"username\":\"\"}"}"#)),
        ""
    );
    assert_eq!(base_name("x", &json(r#"{"oauth:zai:user_info":"{}"}"#)), "BigModel");
}

#[test]
fn a_new_account_is_made() {
    let (a, answer) = saved(named_with(
        &waiting("f"),
        login("zai"),
        json("1"),
        json("2"),
        text("h"),
        naming(),
        text("id"),
    ));
    assert_eq!(a.id, "id");
    assert_eq!(a.name, "Ada 2");
    assert_eq!(a.created_at, "now");
    assert_eq!(a.updated_at, "now");
    assert_eq!(a.hash, "h");
    assert_eq!(a.credentials.to_text(), "1");
    assert_eq!(a.config.unwrap().to_text(), "2");
    assert_eq!(a.virtual_device_mid, Some(text("dev")));
    assert_eq!(a.virtual_arms_uid, Some(text("new uid")));
    assert_eq!(answer, "{\"id\":\"id\",\"name\":\"Ada 2\",\"provider\":\"zai\"}");
    let random = saved(named(
        &waiting("f"),
        login("zai"),
        json("1"),
        json("2"),
        text("h"),
        naming(),
    ));
    assert!(looks_random(&random.0.id));
}

#[test]
fn a_stored_login_is_forgotten() {
    let mut s = waiting("f");
    assert!(matches!(
        stored(&mut s, json("1"), Err(text("full"))),
        LoginStep::Failed(Failure::Text(e)) if e == "full"
    ));
    assert!(ours(&s, "f"));
    assert!(matches!(
        stored(&mut s, json("1"), Ok(())),
        LoginStep::Done(v) if v.to_text() == "1"
    ));
    assert!(s.oauth.is_none());
}

/// The rounds of asking about the login `f`, with the deadline at 100 and pauses of 40.
fn rounds(s: &mut TextSession, list: Vec<(PollReply<String, Json>, u128)>) -> Vec<String> {
    let mut out = vec![];
    for (reply, now_ms) in list {
        let mut next = poll_turn(s, "f");
        if let PollNext::Request = next {
            next = poll_replied(s, "f", reply);
        }
        if let PollNext::CheckClock = next {
            next = poll_clock(s, "f", 100, now_ms, 40);
        }
        match next {
            PollNext::Sleep { ms } => out.push(format!("sleep {}", ms)),
            PollNext::Persist { note, .. } | PollNext::Fail { note, .. } => {
                out.push(note.stage);
                break;
            }
            PollNext::Exit(note) => {
                out.push(note.map_or(text("exit"), |n| n.stage));
                break;
            }
            other => panic!("{:?}", other),
        }
    }
    out
}

#[test]
fn a_login_is_asked_about_until_it_ends() {
    let pending = || PollReply::Pending;
    let start = || vec![(pending(), 0), (pending(), 70)];
    let with = |last: PollReply<String, Json>, now: u128| {
        let mut list = start();
        list.push((last, now));
        list.push((pending(), 0));
        rounds(&mut waiting("f"), list)
    };
    assert_eq!(with(PollReply::Ready(json("{}")), 0), vec!["sleep 40", "sleep 30", "poll-ready"]);
    assert_eq!(with(PollReply::Failed(text("e")), 0), vec!["sleep 40", "sleep 30", "poll-fail"]);
    assert_eq!(with(pending(), 100), vec!["sleep 40", "sleep 30", "poll-timeout"]);
    assert_eq!(rounds(&mut waiting("g"), start()), vec!["poll-exit"]);
}

/// Stores a login from its first step to its end, and tells which account was saved.
fn store(
    found: Found<String, Json>,
    business: Option<&str>,
    replaced_at_lock: bool,
    reply: Result<(), String>,
) -> (Option<String>, TextLoginStep) {
    let mut s = waiting("f");
    let mut saved = None;
    let mut found = Some(found);
    let mut reply = Some(reply);
    let raw = json(r#"{"data":{"token":"t"}}"#);
    let mut step = start_login(&s, text("zai"), raw, text("f"), text("dev"), true);
    for _ in 0..9 {
        step = match step {
            LoginStep::AccessToken(l) => got_access(l, Some(text("a"))),
            LoginStep::BusinessToken { login, .. } => {
                got_business(login, business.map(String::from))
            }
            LoginStep::Profile { login, access } => got_profile(login, access, None),
            LoginStep::UserInfo { login, access } => got_user_info(login, access, None),
            LoginStep::Assemble { login, .. } => assembled(login, json("1"), json("2")),
            LoginStep::Lock { login, credentials, config } => {
                if replaced_at_lock {
                    s = waiting("g");
                }
                locked(&s, login, credentials, config)
            }
            LoginStep::Match { login, credentials, config } => {
                matched(&s, login, credentials, config, Ok(found.take().unwrap()))
            }
            LoginStep::Name { login, credentials, config, hash, .. } => {
                named_with(&s, login, credentials, config, hash, naming(), text("id"))
            }
            LoginStep::Save { account, answer } => {
                saved = Some(account.id);
                stored(&mut s, answer, reply.take().unwrap())
            }
            end => end,
        };
    }
    (saved, step)
}

#[test]
fn storing_a_login_ends() {
    let unknown = || Found::Unknown { hash: text("h") };
    let known = Found::Known { account: account(None), hash: text("h"), now: text("n") };
    let (saved, end) = store(unknown(), Some("b"), false, Ok(()));
    assert_eq!(saved, Some(text("id")));
    assert!(matches!(end, LoginStep::Done(v) if v.get_text("id") == Some("id")));
    let (saved, end) = store(known, Some("b"), false, Ok(()));
    assert_eq!(saved, Some(text("a1")));
    assert!(matches!(end, LoginStep::Done(v) if v.get_bool("duplicate") == Some(true)));
    let (saved, end) = store(unknown(), Some("b"), false, Err(text("full")));
    assert_eq!(saved, Some(text("id")));
    assert!(matches!(end, LoginStep::Failed(Failure::Text(e)) if e == "full"));
    let (saved, end) = store(unknown(), None, false, Ok(()));
    assert_eq!(saved, None);
    assert!(matches!(end, LoginStep::Failed(Failure::NoBusinessToken)));
    let (saved, end) = store(unknown(), Some("b"), true, Ok(()));
    assert_eq!(saved, None);
    assert!(is_superseded(end));
}
