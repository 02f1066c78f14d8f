//! Claims of the plans that are on offer to an account.

use vstd::prelude::*;

use crate::failure::Failure;
use crate::json::Json;
use crate::step::{
    done, fail, fail_text, ClaimAccount, ClaimOutcome, Done, Goal, PendingClaim, Session, Step,
    TextSession, TextStep,
};
use crate::text::same;

verus! {

/// The account is loaded once its device is known.
pub fn got_device(id: String, goal: Goal<String>, reply: Result<String, String>) -> (r: TextStep)
    ensures
        crate::step::step_view(r) == match reply {
            Ok(mid) => Step::ClaimAccount {
                id: id@,
                mid: mid@,
                goal: crate::step::goal_view(goal),
            },
            Err(e) => crate::step::failed(Failure::Text(e@)),
        },
{
    match reply {
        Ok(mid) => Step::ClaimAccount { id, mid, goal },
        Err(e) => fail_text(e),
    }
}

/// The plans are looked up once the account is loaded.
pub fn got_account(
    mid: String,
    goal: Goal<String>,
    reply: Result<ClaimAccount<String, Json>, String>,
) -> (r: TextStep)
    ensures
        crate::step::step_view(r) == match reply {
            Ok(account) => Step::Plans {
                account: crate::step::claim_account_view(account),
                mid: mid@,
                goal: crate::step::goal_view(goal),
            },
            Err(e) => crate::step::failed(Failure::Text(e@)),
        },
{
    match reply {
        Ok(account) => Step::Plans { account, mid, goal },
        Err(e) => fail_text(e),
    }
}

/// The plans on offer: as they are shown, and the identifier and the name of each.
#[derive(Debug)]
pub struct PlanList {
    pub shown: Json,
    pub plans: Vec<(String, String)>,
}

/// The name of the first plan with an identifier.
pub open spec fn plan_named(
    plans: Seq<(Seq<char>, Seq<char>)>,
    id: Seq<char>,
) -> Option<Seq<char>>
    decreases plans.len(),
{
    if plans.len() == 0 {
        None
    } else if plans[0].0 == id {
        Some(plans[0].1)
    } else {
        plan_named(plans.skip(1), id)
    }
}

/// The words for a plan: its name, or its identifier where it has none.
pub open spec fn plan_words(id: Seq<char>, name: Seq<char>) -> Seq<char> {
    if name.len() == 0 {
        id
    } else {
        name
    }
}

/// The claim that is started on a plan of an account.
pub open spec fn claim_on(
    account: ClaimAccount<Seq<char>, crate::json::JsonView>,
    mid: Seq<char>,
    plan_id: Seq<char>,
    plan_name: Seq<char>,
) -> PendingClaim<Seq<char>, crate::json::JsonView> {
    PendingClaim {
        account_id: account.id,
        account_name: account.name,
        plan_id,
        plan_name,
        credentials: account.credentials,
        config: account.config,
        device_mid: mid,
    }
}

/// What follows when the plans of an account are known, and what is remembered then: they are
/// shown, or a claim on one of them is started.
pub open spec fn with_plans(
    account: ClaimAccount<Seq<char>, crate::json::JsonView>,
    mid: Seq<char>,
    goal: Goal<Seq<char>>,
    shown: crate::json::JsonView,
    plans: Seq<(Seq<char>, Seq<char>)>,
    s: crate::step::SessionView,
) -> (crate::step::StepView, crate::step::SessionView) {
    match goal {
        Goal::Preview => (crate::step::ended(shown), s),
        Goal::Refresh => (
            crate::step::ended(
                crate::json::object(
                    seq![
                        ("plans"@, shown),
                        ("activated"@, crate::json::JsonView::Bool(false)),
                        ("activationError"@, crate::json::JsonView::Null),
                    ],
                ),
            ),
            s,
        ),
        Goal::Start { plan_id } => match plan_named(plans, plan_id) {
            Some(name) => {
                let words = plan_words(plan_id, name);
                (
                    crate::step::ended(
                        crate::json::object(
                            seq![
                                ("account"@, crate::json::JsonView::Text(account.name)),
                                ("plan"@, crate::json::JsonView::Text(words)),
                            ],
                        ),
                    ),
                    Session {
                        claim: Some(claim_on(account, mid, plan_id, words)),
                        oauth: s.oauth,
                    },
                )
            },
            None => (crate::step::failed(Failure::PlanGone), s),
        },
    }
}

fn find_plan(plans: &Vec<(String, String)>, id: &str) -> (r: Option<usize>)
    ensures
        match r {
            Some(i) => i < plans@.len() && plans@[i as int].0@ == id@ && plan_named(
                crate::httpsrv::pairs(plans@),
                id@,
            ) == Some(plans@[i as int].1@),
            None => plan_named(crate::httpsrv::pairs(plans@), id@) is None,
        },
{
    let ghost all = crate::httpsrv::pairs(plans@);
    let mut i: usize = 0;
    assert(all.skip(0) =~= all);
    while i < plans.len()
        invariant
            i <= plans@.len(),
            all == crate::httpsrv::pairs(plans@),
            plan_named(all.skip(i as int), id@) == plan_named(all, id@),
        decreases plans@.len() - i,
    {
        assert(all.skip(i as int)[0] == (plans@[i as int].0@, plans@[i as int].1@));
        assert(all.skip(i as int).skip(1) =~= all.skip(i + 1));
        if same(plans[i].0.as_str(), id) {
            return Some(i);
        }
        i = i + 1;
    }
    None
}

/// Shows the plans of an account, or starts a claim on one of them.
pub fn got_plans(
    account: ClaimAccount<String, Json>,
    mid: String,
    goal: Goal<String>,
    reply: Result<PlanList, String>,
    session: &mut TextSession,
) -> (r: TextStep)
    ensures
        (crate::step::step_view(r), crate::step::session_view(*final(session))) == match reply {
            Ok(list) => with_plans(
                crate::step::claim_account_view(account),
                mid@,
                crate::step::goal_view(goal),
                list.shown@,
                crate::httpsrv::pairs(list.plans@),
                crate::step::session_view(*old(session)),
            ),
            Err(e) => (
                crate::step::failed(Failure::Text(e@)),
                crate::step::session_view(*old(session)),
            ),
        },
{
    let list = match reply {
        Ok(list) => list,
        Err(e) => {
            return fail_text(e);
        },
    };
    match goal {
        Goal::Preview => done(list.shown),
        Goal::Refresh => {
            let ghost shown = list.shown@;
            let entries = vec![
                ("plans".to_owned(), list.shown),
                ("activated".to_owned(), Json::Bool(false)),
                ("activationError".to_owned(), Json::Null),
            ];
            proof {
                assert(crate::json::entry_views(entries@) =~= seq![
                    ("plans"@, shown),
                    ("activated"@, crate::json::JsonView::Bool(false)),
                    ("activationError"@, crate::json::JsonView::Null),
                ]);
            }
            done(Json::Object(entries))
        },
        Goal::Start { plan_id } => {
            let i = match find_plan(&list.plans, plan_id.as_str()) {
                Some(i) => i,
                None => {
                    return fail(Failure::PlanGone);
                },
            };
            let words = if list.plans[i].1.as_str().is_empty() {
                list.plans[i].0.clone()
            } else {
                list.plans[i].1.clone()
            };
            let entries = vec![
                ("account".to_owned(), Json::Text(account.name.clone())),
                ("plan".to_owned(), Json::Text(words.clone())),
            ];
            proof {
                assert(crate::json::entry_views(entries@) =~= seq![
                    ("account"@, crate::json::JsonView::Text(account.name@)),
                    ("plan"@, crate::json::JsonView::Text(words@)),
                ]);
            }
            session.claim = Some(
                PendingClaim {
                    account_id: account.id,
                    account_name: account.name,
                    plan_id,
                    plan_name: words,
                    credentials: account.credentials,
                    config: account.config,
                    device_mid: mid,
                },
            );
            done(Json::Object(entries))
        },
    }
}

/// Milliseconds of seconds, as the machine multiplies.
pub open spec fn in_ms(seconds: Option<i64>) -> Option<i64> {
    match seconds {
        Some(s) => Some(s.wrapping_mul(1000)),
        None => None,
    }
}

/// Milliseconds of seconds, as the machine multiplies.
pub fn to_ms(seconds: Option<i64>) -> (r: Option<i64>)
    ensures
        r == in_ms(seconds),
{
    match seconds {
        Some(s) => Some(s.wrapping_mul(1000)),
        None => None,
    }
}

/// Seconds whose milliseconds fit are told in milliseconds.
pub proof fn law_milliseconds(s: i64)
    requires
        i64::MIN <= s * 1000 <= i64::MAX,
    ensures
        in_ms(Some(s)) == Some((s * 1000) as i64),
{
}

/// Seconds are told in milliseconds up to a whole number of times around what the machine can hold.
pub proof fn law_milliseconds_wrap(s: i64)
    ensures
        in_ms(None) is None,
        in_ms(Some(s)) matches Some(t) && (t - s * 1000) % 0x1_0000_0000_0000_0000 == 0,
{
}

/// The member `data` of a reply, then its member `plan`.
pub open spec fn plan_part(v: crate::json::JsonView) -> Option<crate::json::JsonView> {
    match v.member("data"@) {
        Some(data) => data.member("plan"@),
        None => None,
    }
}

/// A whole number in the plan of a reply.
pub open spec fn plan_int(v: crate::json::JsonView, key: Seq<char>) -> Option<i64> {
    match plan_part(v) {
        Some(plan) => plan.int_member(key),
        None => None,
    }
}

/// What a claim led to, by the reply to it.
pub open spec fn outcome_of(
    pending: PendingClaim<Seq<char>, crate::json::JsonView>,
    v: crate::json::JsonView,
) -> ClaimOutcome<Seq<char>> {
    ClaimOutcome {
        account_id: pending.account_id,
        account_name: pending.account_name,
        plan_name: pending.plan_name,
        starts_at: in_ms(plan_int(v, "starts_at"@)),
        ends_at: in_ms(plan_int(v, "ends_at"@)),
        server_time: in_ms(
            match v.member("data"@) {
                Some(data) => data.int_member("server_time"@),
                None => None,
            },
        ),
    }
}

fn plan_time(v: &Json, key: &str) -> (r: Option<i64>)
    ensures
        r == in_ms(plan_int(v@, key@)),
{
    match v.get("data") {
        Some(data) => match data.get("plan") {
            Some(plan) => to_ms(plan.get_int(key)),
            None => None,
        },
        None => None,
    }
}

/// What follows the reply to a claim: what it led to is told, whether it went well or not.
pub open spec fn after_submission(
    pending: PendingClaim<Seq<char>, crate::json::JsonView>,
    reply: Result<crate::json::JsonView, Seq<char>>,
) -> crate::step::StepView {
    match reply {
        Ok(v) => Step::ClaimOutcome(outcome_of(pending, v)),
        Err(e) => Step::ClaimFailure {
            account_id: pending.account_id,
            account_name: pending.account_name,
            plan_name: pending.plan_name,
            error: e,
        },
    }
}

/// What a claim led to is told, whether it went well or not.
pub fn got_submission(
    pending: PendingClaim<String, Json>,
    reply: Result<Json, String>,
) -> (r: TextStep)
    ensures
        crate::step::step_view(r) == after_submission(
            crate::step::pending_claim_view(pending),
            crate::step::json_result(reply),
        ),
{
    match reply {
        Ok(v) => {
            let server_time = match v.get("data") {
                Some(data) => to_ms(data.get_int("server_time")),
                None => None,
            };
            Step::ClaimOutcome(
                ClaimOutcome {
                    account_id: pending.account_id,
                    account_name: pending.account_name,
                    plan_name: pending.plan_name,
                    starts_at: plan_time(&v, "starts_at"),
                    ends_at: plan_time(&v, "ends_at"),
                    server_time,
                },
            )
        },
        Err(e) => Step::ClaimFailure {
            account_id: pending.account_id,
            account_name: pending.account_name,
            plan_name: pending.plan_name,
            error: e,
        },
    }
}

/// The end of a claim: the pages are told the same as the one that asked.
pub fn claim_told(told: Json) -> (r: TextStep)
    ensures
        crate::step::step_view(r) == Step::<Seq<char>, crate::json::JsonView>::Done(
            Done { note: None, emit: Some(("claim://result"@, told@)), result: Ok(told@) },
        ),
{
    let payload = told.copy();
    Step::Done(
        Done { note: None, emit: Some(("claim://result".to_owned(), payload)), result: Ok(told) },
    )
}

// Laws.

/// A claim that was started waits to be handed in: the next captcha submits it, as it was started,
/// and it can be handed in once only.
pub proof fn law_started_claim_is_submitted_once(
    account: ClaimAccount<Seq<char>, crate::json::JsonView>,
    mid: Seq<char>,
    plan_id: Seq<char>,
    shown: crate::json::JsonView,
    plans: Seq<(Seq<char>, Seq<char>)>,
    b: crate::json::JsonView,
    s: crate::step::SessionView,
)
    requires
        plan_named(plans, plan_id) is Some,
        b.text_member("param"@) is Some,
    ensures
        ({
            let started = with_plans(account, mid, Goal::Start { plan_id }, shown, plans, s).1;
            let words = plan_words(plan_id, plan_named(plans, plan_id)->0);
            let first = crate::api::first_step("claim_captcha_submit"@, b, started);
            let second = crate::api::first_step("claim_captcha_submit"@, b, first.1);
            &&& first.0 == Step::SubmitClaim {
                pending: claim_on(account, mid, plan_id, words),
                param: b.text_member("param"@)->0,
                region: b.text_member("region"@),
            }
            &&& second.0 == crate::step::failed(Failure::NoClaimPending)
            &&& second.1 == first.1
        }),
{
}

/// A claim that was given up cannot be handed in.
pub proof fn law_cancelled_claim_is_gone(
    b: crate::json::JsonView,
    c: crate::json::JsonView,
    s: crate::step::SessionView,
)
    requires
        b.text_member("param"@) is Some,
    ensures
        crate::api::first_step(
            "claim_captcha_submit"@,
            b,
            crate::api::first_step("claim_cancel"@, c, s).1,
        ).0 == crate::step::failed(Failure::NoClaimPending),
{
    reveal_strlit("claim_captcha_submit");
    reveal_strlit("claim_cancel");
    assert("claim_captcha_submit"@.len() != "claim_cancel"@.len());
}

/// The whole number that is found under a key of an object, where there is one.
pub open spec fn number_at(v: Option<crate::json::JsonView>, key: Seq<char>) -> Option<i64> {
    match v {
        Some(o) => match o.member(key) {
            Some(crate::json::JsonView::Number(n)) => crate::json::number_i64(n),
            _ => None,
        },
        None => None,
    }
}

/// Whether seconds, where there are any, are told in milliseconds.
pub open spec fn told_in_ms(seconds: Option<i64>, told: Option<i64>) -> bool {
    match seconds {
        Some(s) => told matches Some(t) && (i64::MIN <= s * 1000 <= i64::MAX ==> t == s * 1000),
        None => told is None,
    }
}

/// A claim that went well is told for the account and the plan that it was made for, with the time
/// of the service and the start and the end of the plan, each a thousand times the seconds in the
/// reply and each missing exactly where the reply holds no whole number for it.
pub proof fn law_outcome(
    pending: PendingClaim<Seq<char>, crate::json::JsonView>,
    v: crate::json::JsonView,
)
    ensures
        ({
            let data = v.member("data"@);
            let plan = match data {
                Some(d) => d.member("plan"@),
                None => None,
            };
            after_submission(pending, Ok(v)) matches Step::ClaimOutcome(o) && {
                &&& o.account_id == pending.account_id
                &&& o.account_name == pending.account_name
                &&& o.plan_name == pending.plan_name
                &&& told_in_ms(number_at(plan, "starts_at"@), o.starts_at)
                &&& told_in_ms(number_at(plan, "ends_at"@), o.ends_at)
                &&& told_in_ms(number_at(data, "server_time"@), o.server_time)
            }
        }),
{
}

/// The times of a reply whose plan holds seconds for its start and its end, beside seconds for the
/// time of the service, are told in milliseconds.
pub proof fn law_outcome_times(
    pending: PendingClaim<Seq<char>, crate::json::JsonView>,
    v: crate::json::JsonView,
    data: crate::json::JsonView,
    plan: crate::json::JsonView,
    s: i64,
    e: i64,
    t: i64,
)
    requires
        v.member("data"@) == Some(data),
        data.member("plan"@) == Some(plan),
        i64::MIN <= s * 1000 <= i64::MAX,
        i64::MIN <= e * 1000 <= i64::MAX,
        i64::MIN <= t * 1000 <= i64::MAX,
    ensures
        plan.int_member("starts_at"@) == Some(s) ==> outcome_of(pending, v).starts_at == Some(
            (s * 1000) as i64,
        ),
        plan.int_member("ends_at"@) == Some(e) ==> outcome_of(pending, v).ends_at == Some(
            (e * 1000) as i64,
        ),
        data.int_member("server_time"@) == Some(t) ==> outcome_of(pending, v).server_time == Some(
            (t * 1000) as i64,
        ),
        plan.int_member("starts_at"@) is None ==> outcome_of(pending, v).starts_at is None,
        plan.int_member("ends_at"@) is None ==> outcome_of(pending, v).ends_at is None,
        data.int_member("server_time"@) is None ==> outcome_of(pending, v).server_time is None,
{
}

/// A claim that failed is told for the account and the plan that it was made for, with the reason.
pub proof fn law_failed_claim(
    pending: PendingClaim<Seq<char>, crate::json::JsonView>,
    e: Seq<char>,
)
    ensures
        after_submission(pending, Err(e)) matches Step::ClaimFailure {
            account_id,
            account_name,
            plan_name,
            error,
        } && account_id == pending.account_id && account_name == pending.account_name && plan_name
            == pending.plan_name && error == e,
{
}

/// The plan with an identifier is the first that has it, and there is none where no plan has it.
pub proof fn law_first_plan(plans: Seq<(Seq<char>, Seq<char>)>, id: Seq<char>, i: int)
    requires
        0 <= i <= plans.len(),
        forall|k: int| 0 <= k < i ==> (#[trigger] plans[k]).0 != id,
    ensures
        i < plans.len() && plans[i].0 == id ==> plan_named(plans, id) == Some(plans[i].1),
        i == plans.len() ==> plan_named(plans, id) is None,
    decreases i,
{
    if i > 0 {
        let rest = plans.skip(1);
        assert(plans[0].0 != id);
        assert forall|k: int| 0 <= k < i - 1 implies (#[trigger] rest[k]).0 != id by {
            assert(rest[k] == plans[k + 1]);
        }
        law_first_plan(rest, id, i - 1);
        if i < plans.len() {
            assert(rest[i - 1] == plans[i]);
        }
    }
}

/// The plans are shown as they are, or with word that none was activated; either leaves what is
/// remembered.
pub proof fn law_shown_plans(
    account: ClaimAccount<Seq<char>, crate::json::JsonView>,
    mid: Seq<char>,
    shown: crate::json::JsonView,
    plans: Seq<(Seq<char>, Seq<char>)>,
    s: crate::step::SessionView,
    other: Seq<char>,
)
    ensures
        with_plans(account, mid, Goal::Preview, shown, plans, s) == (crate::step::ended(shown), s),
        with_plans(account, mid, Goal::Refresh, shown, plans, s).1 == s,
        with_plans(account, mid, Goal::Refresh, shown, plans, s).0 matches Step::Done(d) && d.note
            is None && d.emit is None && (d.result matches Ok(v) && {
            &&& v.member("plans"@) == Some(shown)
            &&& v.bool_member("activated"@) == Some(false)
            &&& v.member("activationError"@) == Some(crate::json::JsonView::Null)
            &&& other != "plans"@ && other != "activated"@ && other != "activationError"@
                ==> v.member(
                other,
            ) is None
        }),
{
    reveal_strlit("plans");
    reveal_strlit("activated");
    reveal_strlit("activationError");
    assert("plans"@.len() == 5 && "activated"@.len() == 9 && "activationError"@.len() == 15);
    let entries = seq![
        ("plans"@, shown),
        ("activated"@, crate::json::JsonView::Bool(false)),
        ("activationError"@, crate::json::JsonView::Null),
    ];
    crate::json::lemma_entries_map_at(entries, 0);
    crate::json::lemma_entries_map_at(entries, 1);
    crate::json::lemma_entries_map_at(entries, 2);
    crate::json::lemma_entries_map(entries, other);
}

/// A claim is started on the first plan with the identifier of the command: it is told and waits
/// with the account, its credentials and configuration, the device, and the plan by its identifier
/// and its name, or its identifier where the name is empty. The login that waits stays. Where there
/// is no such plan the command fails, and what is remembered stays.
pub proof fn law_started_claim(
    account: ClaimAccount<Seq<char>, crate::json::JsonView>,
    mid: Seq<char>,
    plan_id: Seq<char>,
    shown: crate::json::JsonView,
    plans: Seq<(Seq<char>, Seq<char>)>,
    s: crate::step::SessionView,
    i: int,
    other: Seq<char>,
)
    requires
        0 <= i <= plans.len(),
        forall|k: int| 0 <= k < i ==> (#[trigger] plans[k]).0 != plan_id,
        i < plans.len() ==> plans[i].0 == plan_id,
    ensures
        i < plans.len() ==> {
            let (step, after) = with_plans(account, mid, Goal::Start { plan_id }, shown, plans, s);
            let words = if plans[i].1.len() > 0 { plans[i].1 } else { plan_id };
            &&& step matches Step::Done(d) && d.note is None && d.emit is None
                && (d.result matches Ok(v)
                && v.text_member("account"@) == Some(account.name)
                    && v.text_member("plan"@) == Some(
                words,
            ) && (other != "account"@ && other != "plan"@ ==> v.member(other) is None))
            &&& after.oauth == s.oauth
            &&& after.claim matches Some(p) && p.account_id == account.id && p.account_name
                == account.name && p.plan_id == plan_id && p.plan_name == words && p.credentials
                == account.credentials && p.config == account.config && p.device_mid == mid
        },
        i == plans.len() ==> with_plans(account, mid, Goal::Start { plan_id }, shown, plans, s) == (
            crate::step::failed(Failure::PlanGone),
            s,
        ),
{
    law_first_plan(plans, plan_id, i);
    reveal_strlit("account");
    reveal_strlit("plan");
    assert("account"@.len() == 7 && "plan"@.len() == 4);
    if i < plans.len() {
        let words = plan_words(plan_id, plans[i].1);
        let entries = seq![
            ("account"@, crate::json::JsonView::Text(account.name)),
            ("plan"@, crate::json::JsonView::Text(words)),
        ];
        crate::json::lemma_entries_map_at(entries, 0);
        crate::json::lemma_entries_map_at(entries, 1);
        crate::json::lemma_entries_map(entries, other);
    }
}

} // verus!
