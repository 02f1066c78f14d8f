//! Commands: what they ask for, claims, settings and failures.

use zaccounts_web::api::{
    answered, client_path, dispatch, get_bool, get_str, got_hot_switch, killed, model_status,
    opt_bool, opt_str, sanitize_filename, told,
};
use zaccounts_web::claim::{
    claim_told, got_account, got_device, got_plans, got_submission, to_ms, PlanList,
};
use zaccounts_web::failure::{wording, Failure, Wording};
use zaccounts_web::json::Json;
use zaccounts_web::settings::{
    apply_change, got_client_path, got_language, got_proxy, language_set, saved, Settings,
};
use zaccounts_web::step::{
    new_session, AfterSave, Ask, Change, ClaimAccount, ClaimOutcome, Done, Goal, PendingClaim,
    Source, Step, Tell, TextSession, TextStep,
};

fn json(text: &str) -> Json {
    Json::parse_text(text).unwrap()
}

fn text(s: &str) -> String {
    s.to_string()
}

fn run(cmd: &str, body: &str) -> TextStep {
    dispatch(cmd, &json(body), &mut new_session())
}

fn ended(step: TextStep) -> Done<String, Json> {
    match step {
        Step::Done(d) => d,
        other => panic!("not at its end: {:?}", other),
    }
}

fn failure(step: TextStep) -> Failure<String> {
    ended(step).result.unwrap_err()
}

fn failure_text(step: TextStep) -> String {
    match failure(step) {
        Failure::Text(s) => s,
        other => panic!("{:?}", other),
    }
}

fn result(step: TextStep) -> String {
    ended(step).result.unwrap().to_text()
}

fn event(step: TextStep) -> Option<(String, String)> {
    ended(step).emit.map(|(e, p)| (e, p.to_text()))
}

#[test]
fn parameters_are_read() {
    let b = json(r#"{"s":"x","t":true}"#);
    assert_eq!(get_str(&b, "s").unwrap(), "x");
    assert!(matches!(get_str(&b, "t"), Err(Failure::Text(e)) if e == "missing param: t"));
    assert!(get_bool(&b, "t").unwrap());
    assert!(matches!(get_bool(&b, "u"), Err(Failure::Text(e)) if e == "missing param: u"));
    assert_eq!(opt_str(&b, "s"), Some(text("x")));
    assert_eq!(opt_str(&b, "t"), None);
    assert_eq!(opt_bool(&b, "t"), Some(true));
    assert_eq!(opt_bool(&b, "s"), None);
}

#[test]
fn file_names_are_clean() {
    assert_eq!(sanitize_filename("a\\b/c:d*e?f\"g<h>i|j"), "a_b_c_d_e_f_g_h_i_j");
    assert_eq!(sanitize_filename("账号 1"), "账号 1");
    let once = sanitize_filename("../x");
    assert_eq!(once, ".._x");
    assert_eq!(sanitize_filename(&once), once);
}

#[test]
fn account_commands() {
    assert!(matches!(run("get_state", "{}"), Step::Ask(Ask::State)));
    assert!(matches!(run("app_version", "{}"), Step::Ask(Ask::AppVersion)));
    assert!(matches!(
        run("capture_current", "{}"),
        Step::Ask(Ask::CaptureCurrent { label: None })
    ));
    assert!(matches!(
        run("capture_current", r#"{"name":"n"}"#),
        Step::Ask(Ask::CaptureCurrent { label: Some(n) }) if n == "n"
    ));
    assert!(matches!(
        run("rename_account", r#"{"id":"1","name":"n"}"#),
        Step::Ask(Ask::Rename { id, name }) if id == "1" && name == "n"
    ));
    assert!(matches!(
        run("delete_account", r#"{"id":"1"}"#),
        Step::Tell(Tell::Delete { id }) if id == "1"
    ));
    assert!(matches!(
        run("update_account_from_live", r#"{"id":"1"}"#),
        Step::Ask(Ask::UpdateFromLive { id }) if id == "1"
    ));
    assert!(matches!(
        run("switch_to", r#"{"id":"1","force":true,"restart":false}"#),
        Step::HotSwitch { id, force: true, restart: false } if id == "1"
    ));
    assert!(matches!(
        got_hot_switch(text("1"), true, false, true),
        Step::Ask(Ask::SwitchTo { id, force: true, restart: false, hot: true }) if id == "1"
    ));
    assert!(matches!(run("get_live_quota", "{}"), Step::Ask(Ask::LiveQuota)));
    assert!(matches!(
        run("get_account_quota", r#"{"id":"1"}"#),
        Step::Ask(Ask::AccountQuota { id }) if id == "1"
    ));
    assert!(matches!(run("get_recent_model_status", "{}"), Step::ModelStatus));
}

#[test]
fn missing_parameters_are_named_in_order() {
    assert_eq!(failure_text(run("rename_account", "{}")), "missing param: id");
    assert_eq!(
        failure_text(run("rename_account", r#"{"id":"1"}"#)),
        "missing param: name"
    );
    assert_eq!(
        failure_text(run("switch_to", r#"{"id":"1","force":1}"#)),
        "missing param: force"
    );
    assert_eq!(
        failure_text(run("switch_to", r#"{"id":"1","force":true}"#)),
        "missing param: restart"
    );
    assert_eq!(failure_text(run("oauth_begin", "[]")), "missing param: provider");
    assert_eq!(failure_text(run("claim_captcha_submit", "{}")), "missing param: param");
    assert_eq!(
        failure_text(run("export_finalize", r#"{"path":"p"}"#)),
        "missing param: id"
    );
    assert_eq!(failure_text(run("import_pick_files", r#"{"files":"x"}"#)), "missing param: files");
}

#[test]
fn an_unknown_command_fails() {
    assert_eq!(failure_text(run("format_disk", "{}")), "unknown command: format_disk");
    assert_eq!(failure_text(run("", "{}")), "unknown command: ");
}

#[test]
fn every_command_is_known() {
    let commands = [
        "get_state", "app_version", "capture_current", "rename_account", "delete_account",
        "update_account_from_live", "switch_to", "get_live_quota", "get_account_quota",
        "get_recent_model_status", "claim_preview", "claim_refresh", "claim_start",
        "claim_captcha_config", "claim_captcha_submit", "claim_cancel", "oauth_providers",
        "oauth_begin", "set_auth_proxy", "kill_zcode", "set_behavior", "set_language",
        "set_theme", "autostart_status", "autostart_set", "reveal_main", "open_settings",
        "open_external", "export_pick_path", "export_finalize", "export_all_pick_path",
        "export_all_finalize", "import_pick_files", "import_sealed", "pick_zcode_path",
        "set_zcode_path", "launch_zcode",
    ];
    assert_eq!(commands.len(), 37);
    for cmd in commands {
        if let Step::Done(Done { result: Err(Failure::Text(e)), .. }) = run(cmd, "{}") {
            assert!(e.starts_with("missing param: "), "{}", e);
        }
    }
}

#[test]
fn commands_without_work_in_a_browser() {
    assert_eq!(result(run("autostart_status", "{}")), "false");
    assert_eq!(result(run("autostart_set", "{}")), "false");
    assert_eq!(result(run("reveal_main", "{}")), "null");
    assert_eq!(result(run("open_settings", "{}")), "null");
    assert_eq!(result(run("pick_zcode_path", "{}")), "{\"picked\":false}");
    assert!(matches!(
        run("open_external", r#"{"url":"u"}"#),
        Step::Tell(Tell::OpenUrl { url }) if url == "u"
    ));
}

#[test]
fn transfer_commands() {
    assert!(matches!(
        run("export_pick_path", r#"{"id":"1"}"#),
        Step::ExportName { id } if id == "1"
    ));
    assert!(matches!(
        run("export_finalize", r#"{"path":"p","id":"1","password":"w"}"#),
        Step::Bundle { source: Source::One { id }, path, password }
            if id == "1" && path == "p" && password == "w"
    ));
    assert!(matches!(run("export_all_pick_path", "{}"), Step::CountAccounts));
    assert!(matches!(
        run("export_all_finalize", r#"{"path":"p","password":"w"}"#),
        Step::Bundle { source: Source::All, path, password } if path == "p" && password == "w"
    ));
    assert!(matches!(
        run("import_pick_files", r#"{"files":[]}"#),
        Step::ImportFiles { files } if files.to_text() == "[]"
    ));
    assert!(matches!(
        run("import_sealed", r#"{"files":[["a",{}]],"password":"w"}"#),
        Step::ImportSealed { files, password }
            if files.to_text() == "[[\"a\",{}]]" && password == "w"
    ));
    assert_eq!(
        failure_text(run("import_sealed", r#"{"files":[["a"]],"password":"w"}"#)),
        "missing param: files"
    );
    assert_eq!(
        failure_text(run("import_sealed", r#"{"files":[]}"#)),
        "missing param: password"
    );
}

#[test]
fn answers_end_a_command() {
    assert_eq!(result(answered(Ok(json("[1]")))), "[1]");
    assert_eq!(failure_text(answered(Err(text("e")))), "e");
    assert_eq!(result(told(Ok(()))), "null");
    assert_eq!(failure_text(told(Err(text("e")))), "e");
    assert_eq!(result(model_status(Some(json("{}")))), "{}");
    assert_eq!(result(model_status(None)), "null");
    assert_eq!(result(killed(Ok(true))), "null");
    assert!(matches!(failure(killed(Ok(false))), Failure::KillTimeout));
    assert_eq!(failure_text(killed(Err(text("e")))), "e");
    assert!(matches!(
        client_path(text("/z"), true),
        Step::Tell(Tell::Launch { path }) if path == "/z"
    ));
    assert!(matches!(
        failure(client_path(text("/z"), false)),
        Failure::ClientPathInvalid(p) if p == "/z"
    ));
}

// Claims.

fn claim_account() -> ClaimAccount<String, Json> {
    ClaimAccount {
        id: text("a1"),
        name: text("Ada"),
        credentials: json(r#"{"k":"v"}"#),
        config: Some(json("{}")),
    }
}

fn plans() -> PlanList {
    PlanList {
        shown: json(r#"[{"planId":"p"}]"#),
        plans: vec![
            (text("p0"), text("Zero")),
            (text("p1"), text("")),
            (text("p1"), text("later")),
        ],
    }
}

fn start(plan_id: &str, session: &mut TextSession) -> TextStep {
    let goal = Goal::Start { plan_id: text(plan_id) };
    got_plans(claim_account(), text("m"), goal, Ok(plans()), session)
}

#[test]
fn a_claim_needs_a_device_an_account_and_plans() {
    assert!(matches!(
        run("claim_preview", r#"{"id":"1"}"#),
        Step::DeviceMid { id, goal: Goal::Preview } if id == "1"
    ));
    assert!(matches!(
        run("claim_refresh", r#"{"id":"1"}"#),
        Step::DeviceMid { id, goal: Goal::Refresh } if id == "1"
    ));
    assert!(matches!(
        run("claim_start", r#"{"id":"1","planId":"p"}"#),
        Step::DeviceMid { id, goal: Goal::Start { plan_id } } if id == "1" && plan_id == "p"
    ));
    assert!(matches!(run("claim_captcha_config", "{}"), Step::Ask(Ask::CaptchaConfig)));
    assert!(matches!(
        got_device(text("1"), Goal::Preview, Ok(text("m"))),
        Step::ClaimAccount { id, mid, goal: Goal::Preview } if id == "1" && mid == "m"
    ));
    assert_eq!(failure_text(got_device(text("1"), Goal::Preview, Err(text("e")))), "e");
    assert!(matches!(
        got_account(text("m"), Goal::Refresh, Ok(claim_account())),
        Step::Plans { account, mid, goal: Goal::Refresh } if account.id == "a1" && mid == "m"
    ));
    assert_eq!(failure_text(got_account(text("m"), Goal::Refresh, Err(text("e")))), "e");
}

#[test]
fn plans_are_shown() {
    let mut s = new_session();
    let shown = |goal: Goal<String>, s: &mut TextSession| {
        result(got_plans(claim_account(), text("m"), goal, Ok(plans()), s))
    };
    assert_eq!(shown(Goal::Preview, &mut s), "[{\"planId\":\"p\"}]");
    assert_eq!(
        shown(Goal::Refresh, &mut s),
        "{\"activated\":false,\"activationError\":null,\"plans\":[{\"planId\":\"p\"}]}"
    );
    assert!(s.claim.is_none());
    let failed = got_plans(claim_account(), text("m"), Goal::Preview, Err(text("e")), &mut s);
    assert_eq!(failure_text(failed), "e");
}

#[test]
fn a_started_claim_is_submitted_once() {
    let mut s = new_session();
    assert_eq!(result(start("p1", &mut s)), "{\"account\":\"Ada\",\"plan\":\"p1\"}");
    let b = json(r#"{"param":"c","region":"cn"}"#);
    match dispatch("claim_captcha_submit", &b, &mut s) {
        Step::SubmitClaim { pending, param, region } => {
            assert_eq!(pending.account_id, "a1");
            assert_eq!(pending.account_name, "Ada");
            assert_eq!(pending.plan_id, "p1");
            assert_eq!(pending.plan_name, "p1");
            assert_eq!(pending.credentials.to_text(), "{\"k\":\"v\"}");
            assert_eq!(pending.config.unwrap().to_text(), "{}");
            assert_eq!(pending.device_mid, "m");
            assert_eq!(param, "c");
            assert_eq!(region, Some(text("cn")));
        }
        other => panic!("{:?}", other),
    }
    let again = dispatch("claim_captcha_submit", &b, &mut s);
    assert!(matches!(failure(again), Failure::NoClaimPending));
}

#[test]
fn a_claim_names_its_plan_or_fails() {
    let mut s = new_session();
    assert_eq!(result(start("p0", &mut s)), "{\"account\":\"Ada\",\"plan\":\"Zero\"}");
    assert!(matches!(failure(start("p9", &mut s)), Failure::PlanGone));
    assert_eq!(s.claim.as_ref().unwrap().plan_id, "p0");
}

#[test]
fn a_cancelled_claim_is_gone() {
    let mut s = new_session();
    start("p0", &mut s);
    assert_eq!(result(dispatch("claim_cancel", &json("{}"), &mut s)), "null");
    let b = json(r#"{"param":"c"}"#);
    assert!(matches!(
        failure(dispatch("claim_captcha_submit", &b, &mut s)),
        Failure::NoClaimPending
    ));
}

#[test]
fn a_command_leaves_the_claim_that_waits() {
    let mut s = new_session();
    start("p0", &mut s);
    dispatch("get_state", &json("{}"), &mut s);
    dispatch("claim_captcha_submit", &json("{}"), &mut s);
    assert!(s.claim.is_some());
}

fn pending() -> PendingClaim<String, Json> {
    PendingClaim {
        account_id: text("a1"),
        account_name: text("Ada"),
        plan_id: text("p0"),
        plan_name: text("Zero"),
        credentials: json("{}"),
        config: None,
        device_mid: text("m"),
    }
}

fn outcome(reply: &str) -> ClaimOutcome<String> {
    match got_submission(pending(), Ok(json(reply))) {
        Step::ClaimOutcome(c) => c,
        other => panic!("{:?}", other),
    }
}

#[test]
fn a_claim_is_told_in_milliseconds() {
    let c = outcome(
        r#"{"data":{"plan":{"starts_at":1700000000,"ends_at":"x"},"server_time":-2}}"#,
    );
    assert_eq!(c.account_id, "a1");
    assert_eq!(c.account_name, "Ada");
    assert_eq!(c.plan_name, "Zero");
    assert_eq!(c.starts_at, Some(1700000000000));
    assert_eq!(c.ends_at, None);
    assert_eq!(c.server_time, Some(-2000));
    let c = outcome("[]");
    assert_eq!(c.starts_at, None);
    assert_eq!(c.server_time, None);
    assert_eq!(outcome(r#"{"data":{"server_time":1.5}}"#).server_time, None);
}

#[test]
fn seconds_become_milliseconds() {
    assert_eq!(to_ms(Some(12)), Some(12_000));
    assert_eq!(to_ms(Some(-1)), Some(-1_000));
    assert_eq!(to_ms(None), None);
    assert_eq!(to_ms(Some(i64::MAX)), Some(-1_000));
}

#[test]
fn a_failed_claim_is_told() {
    match got_submission(pending(), Err(text("captcha"))) {
        Step::ClaimFailure { account_id, account_name, plan_name, error } => {
            assert_eq!(account_id, "a1");
            assert_eq!(account_name, "Ada");
            assert_eq!(plan_name, "Zero");
            assert_eq!(error, "captcha");
        }
        other => panic!("{:?}", other),
    }
    let told = || claim_told(json("[1]"));
    assert_eq!(event(told()), Some((text("claim://result"), text("[1]"))));
    assert_eq!(result(told()), "[1]");
}

// Settings.

fn no_settings() -> Settings<String> {
    Settings {
        launch_after_switch: None,
        close_to_tray: None,
        hot_switch: None,
        auto_claim: None,
        auto_switch: None,
        auth_proxy_on: None,
        auth_proxy_url: None,
        language: None,
        theme: None,
        zcode_path: None,
    }
}

#[test]
fn a_proxy_needs_an_address() {
    assert!(matches!(
        failure(run("set_auth_proxy", r#"{"on":true,"url":"  "}"#)),
        Failure::ProxyNeedsUrl
    ));
    assert!(matches!(
        run("set_auth_proxy", r#"{"on":true,"url":" http://p "}"#),
        Step::ParseProxy { on: true, url } if url == "http://p"
    ));
    assert!(matches!(
        run("set_auth_proxy", r#"{"on":false}"#),
        Step::SaveSettings {
            change: Change::Proxy { on: false, url: None },
            after: AfterSave::TellIfSaved,
        }
    ));
    assert_eq!(failure_text(run("set_auth_proxy", "{}")), "missing param: on");
    assert!(matches!(
        got_proxy(true, Ok(text("http://p:1"))),
        Step::SaveSettings {
            change: Change::Proxy { on: true, url: Some(u) },
            after: AfterSave::TellIfSaved,
        } if u == "http://p:1"
    ));
    assert_eq!(failure_text(got_proxy(true, Err(text("bad")))), "bad");
}

#[test]
fn settings_are_changed() {
    let s = apply_change(no_settings(), Change::Proxy { on: true, url: Some(text("u")) });
    let s = apply_change(s, Change::Language(text("en")));
    let s = apply_change(s, Change::Theme(text("dark")));
    let s = apply_change(s, Change::ClientPath(Some(text("/z"))));
    assert_eq!(s.auth_proxy_on, Some(true));
    assert_eq!(s.auth_proxy_url, Some(text("u")));
    assert_eq!(s.language, Some(text("en")));
    assert_eq!(s.theme, Some(text("dark")));
    assert_eq!(s.zcode_path, Some(text("/z")));
    assert_eq!(s.hot_switch, None);
    assert_eq!(apply_change(s, Change::ClientPath(None)).zcode_path, None);
}

#[test]
fn behaviour_is_changed_where_it_is_given() {
    let change = match run("set_behavior", r#"{"hotSwitch":true,"autoSwitch":false,"autoClaim":1}"#) {
        Step::SaveSettings { change, after: AfterSave::TellAlways } => change,
        other => panic!("{:?}", other),
    };
    let mut s = no_settings();
    s.auto_claim = Some(true);
    s.close_to_tray = Some(true);
    let s = apply_change(s, change);
    assert_eq!(s.hot_switch, Some(true));
    assert_eq!(s.auto_switch, Some(false));
    assert_eq!(s.auto_claim, Some(true));
    assert_eq!(s.close_to_tray, Some(true));
    assert_eq!(s.launch_after_switch, None);
}

#[test]
fn a_change_made_twice_is_made_once() {
    let change = || Change::Behavior {
        launch_after_switch: Some(false),
        close_to_tray: None,
        hot_switch: Some(true),
        auto_claim: None,
        auto_switch: None,
    };
    let once = apply_change(no_settings(), change());
    let shown = format!("{:?}", once);
    assert_eq!(format!("{:?}", apply_change(once, change())), shown);
    let none = Change::Behavior {
        launch_after_switch: None,
        close_to_tray: None,
        hot_switch: None,
        auto_claim: None,
        auto_switch: None,
    };
    assert_eq!(
        format!("{:?}", apply_change(no_settings(), none)),
        format!("{:?}", no_settings())
    );
}

#[test]
fn themes_and_languages() {
    assert!(matches!(
        run("set_theme", r#"{"theme":"dark"}"#),
        Step::SaveSettings { change: Change::Theme(t), after: AfterSave::TellIfSaved } if t == "dark"
    ));
    assert_eq!(failure_text(run("set_theme", r#"{"theme":"Dark"}"#)), "Unsupported theme");
    assert!(matches!(
        run("set_language", r#"{"lang":"EN"}"#),
        Step::ParseLanguage { lang } if lang == "EN"
    ));
    assert!(matches!(
        got_language(text("EN"), Some(text("en"))),
        Step::SaveSettings { change: Change::Language(a), after: AfterSave::UseLanguage(b) }
            if a == "en" && b == "en"
    ));
    assert!(matches!(
        failure(got_language(text("xx"), None)),
        Failure::UnknownLanguage(l) if l == "xx"
    ));
    assert_eq!(
        event(language_set()),
        Some((text("state-changed"), text("null")))
    );
}

#[test]
fn the_path_of_the_client() {
    assert!(matches!(
        run("set_zcode_path", r#"{"path":" x "}"#),
        Step::NormalizePath { path } if path == " x "
    ));
    assert!(matches!(
        got_client_path(None),
        Step::SaveSettings { change: Change::ClientPath(None), after: AfterSave::TellAlways }
    ));
    assert!(matches!(run("launch_zcode", "{}"), Step::ClientPath));
    assert!(matches!(run("kill_zcode", "{}"), Step::KillClient));
    assert!(matches!(run("oauth_providers", "{}"), Step::Ask(Ask::OAuthProviders)));
}

#[test]
fn the_pages_are_told_of_saved_settings() {
    let changed = Some((text("state-changed"), text("null")));
    assert_eq!(event(saved(AfterSave::TellIfSaved, Ok(()))), changed);
    assert_eq!(event(saved(AfterSave::TellAlways, Ok(()))), changed);
    assert_eq!(result(saved(AfterSave::TellAlways, Ok(()))), "null");
    assert_eq!(event(saved(AfterSave::TellAlways, Err(text("e")))), changed);
    assert_eq!(failure_text(saved(AfterSave::TellAlways, Err(text("e")))), "e");
    assert_eq!(event(saved(AfterSave::TellIfSaved, Err(text("e")))), None);
    assert_eq!(failure_text(saved(AfterSave::TellIfSaved, Err(text("e")))), "e");
    assert!(matches!(
        saved(AfterSave::UseLanguage(text("zh")), Ok(())),
        Step::UseLanguage { lang } if lang == "zh"
    ));
    assert_eq!(
        failure_text(saved(AfterSave::UseLanguage(text("zh")), Err(text("e")))),
        "e"
    );
}

// Words for failures.

fn message(f: Failure<String>) -> (&'static str, Vec<(&'static str, String)>) {
    match wording(f) {
        Wording::Message { key, fills } => (key, fills),
        other => panic!("{:?}", other),
    }
}

#[test]
fn failures_have_words() {
    assert!(matches!(wording(Failure::Text(text("as is"))), Wording::Text(t) if t == "as is"));
    let none: Vec<(&'static str, String)> = vec![];
    assert_eq!(message(Failure::PlanGone), ("err.claim.gone", none.clone()));
    assert_eq!(message(Failure::NoClaimPending), ("err.claim.none_pending", none.clone()));
    assert_eq!(message(Failure::ProxyNeedsUrl), ("err.proxy.need_url", none.clone()));
    assert_eq!(message(Failure::KillTimeout), ("err.zcode.kill_timeout", none.clone()));
    assert_eq!(message(Failure::NothingToExport), ("err.export.empty", none.clone()));
    assert_eq!(message(Failure::NoAccountToWrite), ("err.export.empty_short", none.clone()));
    assert_eq!(message(Failure::LoginExpired), ("err.oauth.expired", none.clone()));
    assert_eq!(message(Failure::NoToken), ("err.oauth.no_token", none.clone()));
    assert_eq!(message(Failure::NoBusinessToken), ("err.oauth.zai_business", none));
}

#[test]
fn words_are_filled_in() {
    let one = |k: &'static str, v: &str| vec![(k, text(v))];
    assert_eq!(
        message(Failure::UnknownLanguage(text("xx"))),
        ("err.lang.unknown", one("lang", "xx"))
    );
    assert_eq!(
        message(Failure::ClientPathInvalid(text("/z"))),
        ("err.zcode.path_invalid_hint", one("p", "/z"))
    );
    assert_eq!(
        message(Failure::CannotWrite(text("full"))),
        ("err.write", one("e", "full"))
    );
    assert_eq!(
        message(Failure::UnknownProvider(text("p"))),
        ("err.oauth.unknown_provider", one("provider", "p"))
    );
    assert_eq!(
        message(Failure::NotSealed { file: text("f") }),
        ("err.import.not_sealed", one("fname", "f"))
    );
    assert_eq!(
        message(Failure::NotBundle { file: text("f") }),
        ("err.import.not_bundle", one("fname", "f"))
    );
    let two = vec![("fname", text("f")), ("e", text("r"))];
    assert_eq!(
        message(Failure::CannotRead { file: text("f"), reason: text("r") }),
        ("err.import.read", two.clone())
    );
    assert_eq!(
        message(Failure::NotJson { file: text("f"), reason: text("r") }),
        ("err.import.json", two.clone())
    );
    assert_eq!(
        message(Failure::CannotOpen { file: text("f"), reason: text("r") }),
        ("err.import.wrap", two)
    );
}
