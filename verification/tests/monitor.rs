//! Switching by itself.

use zaccounts_web::json::Json;
use zaccounts_web::monitor::{
    got_candidate_quota, got_live_quota, got_snapshot, new_monitor, rechecked, switched, woke,
    Availability, Candidate, MonitorStep, Recheck, Snapshot, Switched, TextMonitor,
    CHECK_INTERVAL_NANOS, WAKE_SECONDS,
};
use zaccounts_web::step::{new_session, PendingClaim};

fn text(s: &str) -> String {
    s.to_string()
}

fn accounts(list: &[(&str, bool)]) -> Vec<Candidate<String>> {
    list.iter()
        .map(|(id, has_config)| Candidate { id: text(id), has_config: *has_config })
        .collect()
}

fn events(step: MonitorStep) -> Vec<(String, String)> {
    match step {
        MonitorStep::Pause { log: None, events } => {
            events.into_iter().map(|(e, p)| (e, p.to_text())).collect()
        }
        other => panic!("{:?}", other),
    }
}

fn used_up(id: &str) -> TextMonitor {
    let mut m = new_monitor();
    m.exhausted_once = Some(text(id));
    m
}

#[test]
fn switching_off_forgets() {
    let mut m = used_up("a");
    m.last_check = Some(1);
    m.notified = Some(text("a"));
    assert!(events(woke(&mut m, false, &new_session(), 5)).is_empty());
    assert!(m.last_check.is_none() && m.exhausted_once.is_none() && m.notified.is_none());
}

#[test]
fn checks_are_apart() {
    assert_eq!(WAKE_SECONDS, 10);
    assert_eq!(CHECK_INTERVAL_NANOS, 90_000_000_000);
    let s = new_session();
    let mut m = new_monitor();
    assert!(matches!(woke(&mut m, true, &s, 7), MonitorStep::Snapshot));
    assert_eq!(m.last_check, Some(7));
    assert!(events(woke(&mut m, true, &s, 90_000_000_006)).is_empty());
    assert_eq!(m.last_check, Some(7));
    assert!(matches!(woke(&mut m, true, &s, 90_000_000_007), MonitorStep::Snapshot));
    assert_eq!(m.last_check, Some(90_000_000_007));
}

#[test]
fn no_check_while_a_claim_waits() {
    let mut s = new_session();
    s.claim = Some(PendingClaim {
        account_id: text("a"),
        account_name: text("a"),
        plan_id: text("p"),
        plan_name: text("p"),
        credentials: Json::Null,
        config: None,
        device_mid: text("m"),
    });
    let mut m = used_up("a");
    assert!(events(woke(&mut m, true, &s, 5)).is_empty());
    assert_eq!(m.exhausted_once, Some(text("a")));
}

#[test]
fn there_has_to_be_another_account() {
    let two = || accounts(&[("a", true), ("b", true)]);
    let snapshot = |active: Option<&str>, running: bool, accounts: Vec<Candidate<String>>| {
        Some(Snapshot { active: active.map(String::from), running, accounts })
    };
    let mut m = used_up("a");
    match got_snapshot(&mut m, snapshot(Some("a"), true, two())) {
        MonitorStep::LiveQuota { active, accounts } => {
            assert_eq!(active, "a");
            assert_eq!(accounts.len(), 2);
        }
        other => panic!("{:?}", other),
    }
    assert_eq!(m.exhausted_once, Some(text("a")));
    for reply in [
        None,
        snapshot(None, true, two()),
        snapshot(Some("a"), false, two()),
        snapshot(Some("a"), true, accounts(&[("a", true)])),
    ] {
        let mut m = used_up("a");
        assert!(events(got_snapshot(&mut m, reply)).is_empty());
        assert!(m.exhausted_once.is_none());
    }
}

#[test]
fn two_checks_come_before_a_switch() {
    let two = || accounts(&[("a", true), ("b", true)]);
    let exhausted = Some(Availability::Exhausted);
    let mut m = new_monitor();
    assert!(events(got_live_quota(&mut m, text("a"), two(), exhausted)).is_empty());
    assert_eq!(m.exhausted_once, Some(text("a")));
    match got_live_quota(&mut m, text("a"), two(), exhausted) {
        MonitorStep::CandidateQuota { id, .. } => assert_eq!(id, "b"),
        other => panic!("{:?}", other),
    }
    assert!(events(got_live_quota(&mut m, text("b"), two(), exhausted)).is_empty());
    assert_eq!(m.exhausted_once, Some(text("b")));
}

#[test]
fn other_answers_forget_the_first_check() {
    let two = || accounts(&[("a", true), ("b", true)]);
    let mut m = used_up("a");
    m.notified = Some(text("a"));
    got_live_quota(&mut m, text("a"), two(), None);
    assert!(m.exhausted_once.is_none());
    assert!(m.notified.is_some());
    for a in [Availability::Available, Availability::Unknown] {
        let mut m = used_up("a");
        m.notified = Some(text("a"));
        got_live_quota(&mut m, text("a"), two(), Some(a));
        assert!(m.exhausted_once.is_none() && m.notified.is_none());
    }
    let mut m = used_up("x");
    let step = got_live_quota(&mut m, text("x"), two(), Some(Availability::Exhausted));
    assert!(events(step).is_empty());
    assert!(m.exhausted_once.is_none());
}

/// The accounts that are asked about, and the end of the search.
fn search(
    m: &mut TextMonitor,
    active: &str,
    list: &[(&str, bool)],
    quota: impl Fn(&str) -> Option<Availability>,
) -> (Vec<String>, MonitorStep) {
    let mut asked = vec![];
    let mut step =
        got_live_quota(m, text(active), accounts(list), Some(Availability::Exhausted));
    while let MonitorStep::CandidateQuota { id, search } = step {
        let reply = quota(&id);
        asked.push(id);
        step = got_candidate_quota(m, search, reply);
    }
    (asked, step)
}

#[test]
fn the_search_finds_the_next_available() {
    let list = [("a", true), ("b", true), ("c", true), ("d", false), ("e", true)];
    let mut m = used_up("c");
    let (asked, end) = search(&mut m, "c", &list, |id| match id {
        "b" => Some(Availability::Available),
        "a" => Some(Availability::Unknown),
        _ => None,
    });
    assert_eq!(asked, vec!["e", "a", "b"]);
    assert!(matches!(
        end,
        MonitorStep::Recheck { active, target } if active == "c" && target == "b"
    ));
}

#[test]
fn the_pages_are_told_once_that_there_is_no_candidate() {
    let list = [("a", true), ("b", true), ("c", false)];
    let none = |_: &str| Some(Availability::Exhausted);
    let mut m = used_up("a");
    let (asked, end) = search(&mut m, "a", &list, none);
    assert_eq!(asked, vec!["b"]);
    assert_eq!(
        events(end),
        vec![(text("auto-switch-result"), text("{\"status\":\"no-candidate\"}"))]
    );
    assert_eq!(m.notified, Some(text("a")));
    assert_eq!(m.exhausted_once, Some(text("a")));
    assert!(events(search(&mut m, "a", &list, none).1).is_empty());
}

#[test]
fn a_switch_is_rechecked() {
    let check = |auto_switch: bool, running: bool, active: &str| {
        Some(Recheck { auto_switch, running, active: Some(text(active)) })
    };
    let mut m = used_up("a");
    assert!(matches!(
        rechecked(&mut m, text("a"), text("b"), check(true, true, "a")),
        MonitorStep::Switch { active, target, force: true, restart: true, hot: false }
            if active == "a" && target == "b"
    ));
    assert_eq!(m.exhausted_once, Some(text("a")));
    for reply in [
        None,
        check(false, true, "a"),
        check(true, false, "a"),
        check(true, true, "b"),
    ] {
        let mut m = used_up("a");
        m.notified = Some(text("a"));
        assert!(events(rechecked(&mut m, text("a"), text("b"), reply)).is_empty());
        assert!(m.exhausted_once.is_none() && m.notified.is_none());
    }
}

fn outcome(switched: bool) -> Switched<Json> {
    Switched {
        switched,
        name: Json::Text(text("B")),
        launch_error: Json::Null,
        config_stale: Json::Bool(false),
    }
}

#[test]
fn a_switch_is_told_and_starts_anew() {
    let mut m = used_up("a");
    m.notified = Some(text("a"));
    assert_eq!(
        events(switched(&mut m, text("a"), Ok(outcome(true)))),
        vec![
            (text("state-changed"), text("null")),
            (
                text("auto-switch-result"),
                text("{\"configStale\":false,\"launchError\":null,\"name\":\"B\",\"status\":\"switched\"}")
            ),
        ]
    );
    assert!(m.exhausted_once.is_none() && m.notified.is_none());
    assert_eq!(
        events(switched(&mut m, text("a"), Ok(outcome(false)))),
        vec![(text("state-changed"), text("null"))]
    );
}

#[test]
fn a_failed_switch_is_told_once() {
    let mut m = used_up("a");
    match switched(&mut m, text("a"), Err(text("busy"))) {
        MonitorStep::Pause { log, events } => {
            assert_eq!(log, Some(text("auto switch failed: busy")));
            assert_eq!(events[0].0, "auto-switch-result");
            assert_eq!(events[0].1.to_text(), "{\"error\":\"busy\",\"status\":\"error\"}");
        }
        other => panic!("{:?}", other),
    }
    assert!(m.exhausted_once.is_none());
    assert_eq!(m.notified, Some(text("a")));
    assert!(matches!(
        switched(&mut m, text("a"), Err(text("busy"))),
        MonitorStep::Pause { log: Some(_), events } if events.is_empty()
    ));
}

/// A wake-up of an account `a` beside `b`, and whether it ends in a switch.
fn wake_up(m: &mut TextMonitor, now_ns: u128, auto_switch: bool, live: Availability) -> bool {
    let list = || accounts(&[("a", true), ("b", true)]);
    let mut step = woke(m, auto_switch, &new_session(), now_ns);
    loop {
        step = match step {
            MonitorStep::Pause { .. } => return false,
            MonitorStep::Snapshot => {
                let s = Snapshot { active: Some(text("a")), running: true, accounts: list() };
                got_snapshot(m, Some(s))
            }
            MonitorStep::LiveQuota { active, accounts } => {
                got_live_quota(m, active, accounts, Some(live))
            }
            MonitorStep::CandidateQuota { search, .. } => {
                got_candidate_quota(m, search, Some(Availability::Available))
            }
            MonitorStep::Recheck { active, target } => {
                let c = Recheck { auto_switch: true, running: true, active: Some(text("a")) };
                rechecked(m, active, target, Some(c))
            }
            MonitorStep::Switch { active, target, .. } => {
                assert_eq!(target, "b");
                assert!(matches!(
                    switched(m, active, Ok(outcome(true))),
                    MonitorStep::Pause { .. }
                ));
                return true;
            }
        };
    }
}

#[test]
fn the_course_of_a_switch() {
    let (available, exhausted, unknown) =
        (Availability::Available, Availability::Exhausted, Availability::Unknown);
    let t = |n: u128| n * CHECK_INTERVAL_NANOS;
    let run = |course: &[(u128, bool, Availability)]| {
        let mut m = new_monitor();
        course.iter().map(|(now, on, live)| wake_up(&mut m, *now, *on, *live)).collect::<Vec<_>>()
    };
    assert_eq!(
        run(&[(t(1), true, exhausted), (t(2), true, exhausted), (t(3), true, exhausted)]),
        vec![false, true, false]
    );
    assert_eq!(
        run(&[(t(1), true, exhausted), (t(2) - 1, true, exhausted), (t(2), true, exhausted)]),
        vec![false, false, true]
    );
    for between in [(t(2), true, available), (t(2), true, unknown), (t(2), false, exhausted)] {
        assert_eq!(
            run(&[(t(1), true, exhausted), between, (t(3), true, exhausted)]),
            vec![false, false, false]
        );
    }
}
