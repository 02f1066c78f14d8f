//! Logins that are completed elsewhere: how one is begun, and how it is asked about until it is
//! completed, fails or expires.

use vstd::prelude::*;

use crate::failure::Failure;
use crate::json::Json;
use crate::step::{
    done, fail, fail_text, Done, Note, PendingOAuth, PollJob, Session, Step, TextSession, TextStep,
};
use crate::text::{after_last, concat, concat3, same, to_decimal};

verus! {

// Identifiers.

/// A digit of an identifier.
pub open spec fn is_hex(c: char) -> bool {
    '0' <= c <= '9' || 'a' <= c <= 'f'
}

/// The text of a random identifier: five groups of hexadecimal digits, and the marks of its kind.
pub open spec fn is_uuid(s: Seq<char>) -> bool {
    &&& s.len() == 36
    &&& forall|i: int|
        0 <= i < 36 ==> if i == 8 || i == 13 || i == 18 || i == 23 {
            s[i] == '-'
        } else {
            is_hex(#[trigger] s[i])
        }
    &&& s[14] == '4'
    &&& s[19] == '8' || s[19] == '9' || s[19] == 'a' || s[19] == 'b'
}

/// `uuid::Uuid::new_v4` makes a random identifier, and its text has the hyphens, the version and
/// the variant in their places. Which identifier it is, is left to chance. It panics where the
/// system has no random bytes to give, which no argument decides.
#[verifier::external_body]
pub(crate) fn fresh_id() -> (r: String)
    ensures
        is_uuid(r@),
{
    uuid::Uuid::new_v4().to_string()
}

// The begin.

/// Whether a text is in a list.
fn listed(ids: &Vec<String>, id: &str) -> (r: bool)
    ensures
        r == crate::router::texts(ids@).contains(id@),
{
    let ghost all = crate::router::texts(ids@);
    let mut i: usize = 0;
    while i < ids.len()
        invariant
            i <= ids@.len(),
            all == crate::router::texts(ids@),
            forall|k: int| 0 <= k < i ==> #[trigger] all[k] != id@,
        decreases ids@.len() - i,
    {
        assert(all[i as int] == ids@[i as int]@);
        if same(ids[i].as_str(), id) {
            return true;
        }
        i = i + 1;
    }
    false
}

/// The login service has to be known.
pub fn got_providers(provider: String, ids: &Vec<String>) -> (r: TextStep)
    ensures
        crate::step::step_view(r) == (if crate::router::texts(ids@).contains(provider@) {
            Step::AuthProxy { provider: provider@ }
        } else {
            crate::step::failed(Failure::UnknownProvider(provider@))
        }),
{
    if listed(ids, provider.as_str()) {
        Step::AuthProxy { provider }
    } else {
        fail(Failure::UnknownProvider(provider))
    }
}

/// The step that opens a login under the given identifiers.
pub open spec fn opening_step(
    provider: Seq<char>,
    flow: Seq<char>,
    mid: Seq<char>,
) -> crate::step::StepView {
    Step::InitFlow {
        provider,
        flow,
        mid,
        note: Note { flow, stage: "begin"@, detail: "provider="@ + provider + " channel=poll"@ },
    }
}

/// Whether a step opens a login under random identifiers.
pub open spec fn opens_login(step: crate::step::StepView, provider: Seq<char>) -> bool {
    exists|flow: Seq<char>, mid: Seq<char>|
        is_uuid(flow) && is_uuid(mid) && step == #[trigger] opening_step(provider, flow, mid)
}

/// Opens a login under the given identifiers. The login that waited before is given up.
pub fn begin_with(
    provider: String,
    flow: String,
    mid: String,
    session: &mut TextSession,
) -> (r: TextStep)
    ensures
        crate::step::step_view(r) == opening_step(provider@, flow@, mid@),
        crate::step::session_view(*final(session)) == (Session {
            oauth: None,
            ..crate::step::session_view(*old(session))
        }),
{
    session.oauth = None;
    let note = Note {
        flow: flow.clone(),
        stage: "begin".to_owned(),
        detail: concat3("provider=", provider.as_str(), " channel=poll"),
    };
    Step::InitFlow { provider, flow, mid, note }
}

/// Opens a login under random identifiers. The login that waited before is given up.
pub fn begin(provider: String, session: &mut TextSession) -> (r: TextStep)
    ensures
        opens_login(crate::step::step_view(r), provider@),
        crate::step::session_view(*final(session)) == (Session {
            oauth: None,
            ..crate::step::session_view(*old(session))
        }),
{
    let flow = fresh_id();
    let mid = fresh_id();
    begin_with(provider, flow, mid, session)
}

/// The proxy for logins is checked where there is one, and else the login is opened.
pub fn got_auth_proxy(
    provider: String,
    proxy: Option<String>,
    session: &mut TextSession,
) -> (r: TextStep)
    ensures
        match proxy {
            Some(url) => crate::step::step_view(r) == (Step::<
                Seq<char>,
                crate::json::JsonView,
            >::CheckProxy { provider: provider@, url: url@ }) && *final(session) == *old(session),
            None => opens_login(crate::step::step_view(r), provider@) && crate::step::session_view(
                *final(session),
            ) == (Session { oauth: None, ..crate::step::session_view(*old(session)) }),
        },
{
    match proxy {
        Some(url) => Step::CheckProxy { provider, url },
        None => begin(provider, session),
    }
}

/// The login is opened where the address of the proxy is in order.
pub fn proxy_checked(
    provider: String,
    reply: Result<String, String>,
    session: &mut TextSession,
) -> (r: TextStep)
    ensures
        match reply {
            Err(e) => crate::step::step_view(r) == crate::step::failed(Failure::Text(e@))
                && *final(session) == *old(session),
            Ok(url) => opens_login(crate::step::step_view(r), provider@) && crate::step::session_view(
                *final(session),
            ) == (Session { oauth: None, ..crate::step::session_view(*old(session)) }),
        },
{
    match reply {
        Err(e) => fail_text(e),
        Ok(_) => begin(provider, session),
    }
}

/// A login that was opened at the service.
#[derive(Debug)]
pub struct LoginFlow<S> {
    pub state: S,
    pub authorize_url: S,
    pub poll_url: S,
    pub poll_token: S,
    pub expires_at_ms: u128,
    pub poll_interval_ms: u64,
}

/// What an opened login is.
pub open spec fn login_flow_view(f: LoginFlow<String>) -> LoginFlow<Seq<char>> {
    LoginFlow {
        state: f.state@,
        authorize_url: f.authorize_url@,
        poll_url: f.poll_url@,
        poll_token: f.poll_token@,
        expires_at_ms: f.expires_at_ms,
        poll_interval_ms: f.poll_interval_ms,
    }
}

/// How many whole seconds are left until a time.
pub open spec fn seconds_left(at_ms: u128, now_ms: u128) -> nat {
    if at_ms > now_ms {
        ((at_ms - now_ms) / 1000) as nat
    } else {
        0
    }
}

/// What is logged of a login that was opened.
pub open spec fn opened_detail(init: LoginFlow<Seq<char>>, now_ms: u128) -> Seq<char> {
    "server_flow="@ + crate::text::behind_last(init.poll_url, '/') + " expires_in="@
        + crate::text::decimal(seconds_left(init.expires_at_ms, now_ms)) + "s interval="@
        + crate::text::decimal(init.poll_interval_ms as nat) + "ms"@
}

/// What follows when a login was opened at the service, or could not be, and what is remembered
/// then.
pub open spec fn with_flow(
    provider: Seq<char>,
    flow: Seq<char>,
    mid: Seq<char>,
    now_ms: u128,
    reply: Result<LoginFlow<Seq<char>>, Seq<char>>,
    s: crate::step::SessionView,
) -> (crate::step::StepView, crate::step::SessionView) {
    match reply {
        Ok(init) => (
            Step::SpawnPoll {
                job: PollJob {
                    provider,
                    flow,
                    mid,
                    url: init.poll_url,
                    token: init.poll_token,
                    expires_at_ms: init.expires_at_ms,
                    interval_ms: init.poll_interval_ms,
                },
                authorize_url: init.authorize_url,
                note: Note { flow, stage: "init-ok"@, detail: opened_detail(init, now_ms) },
            },
            Session { oauth: Some(PendingOAuth { provider, state: init.state, flow }), ..s },
        ),
        Err(e) => (
            Step::Done(
                Done {
                    note: Some(Note { flow, stage: "init-fail"@, detail: e }),
                    emit: None,
                    result: Err(Failure::Text(e)),
                },
            ),
            s,
        ),
    }
}

/// The login waits to be completed once it was opened at the service.
pub fn got_flow(
    provider: String,
    flow: String,
    mid: String,
    now_ms: u128,
    reply: Result<LoginFlow<String>, String>,
    session: &mut TextSession,
) -> (r: TextStep)
    ensures
        (crate::step::step_view(r), crate::step::session_view(*final(session))) == with_flow(
            provider@,
            flow@,
            mid@,
            now_ms,
            match reply {
                Ok(init) => Ok(login_flow_view(init)),
                Err(e) => Err(e@),
            },
            crate::step::session_view(*old(session)),
        ),
{
    match reply {
        Ok(init) => {
            let server_flow = after_last(init.poll_url.as_str(), '/');
            let left = init.expires_at_ms.saturating_sub(now_ms) / 1000;
            let mut detail = concat("server_flow=", server_flow.as_str());
            detail.append(" expires_in=");
            detail.append(to_decimal(left).as_str());
            detail.append("s interval=");
            detail.append(to_decimal(init.poll_interval_ms as u128).as_str());
            detail.append("ms");
            let note = Note { flow: flow.clone(), stage: "init-ok".to_owned(), detail };
            session.oauth = Some(
                PendingOAuth {
                    provider: provider.clone(),
                    state: init.state,
                    flow: flow.clone(),
                },
            );
            Step::SpawnPoll {
                job: PollJob {
                    provider,
                    flow,
                    mid,
                    url: init.poll_url,
                    token: init.poll_token,
                    expires_at_ms: init.expires_at_ms,
                    interval_ms: init.poll_interval_ms,
                },
                authorize_url: init.authorize_url,
                note,
            }
        },
        Err(e) => {
            let note = Note { flow, stage: "init-fail".to_owned(), detail: e.clone() };
            Step::Done(Done { note: Some(note), emit: None, result: Err(Failure::Text(e)) })
        },
    }
}

/// The page is told where the login is to be completed.
pub fn polling(provider: String, authorize_url: String) -> (r: TextStep)
    ensures
        crate::step::step_view(r) == crate::step::ended(
            crate::json::object(
                seq![
                    ("authorizeUrl"@, crate::json::JsonView::Text(authorize_url@)),
                    ("provider"@, crate::json::JsonView::Text(provider@)),
                ],
            ),
        ),
{
    let entries = vec![
        ("authorizeUrl".to_owned(), Json::Text(authorize_url)),
        ("provider".to_owned(), Json::Text(provider)),
    ];
    proof {
        assert(crate::json::entry_views(entries@) =~= seq![
            ("authorizeUrl"@, crate::json::JsonView::Text(authorize_url@)),
            ("provider"@, crate::json::JsonView::Text(provider@)),
        ]);
    }
    done(Json::Object(entries))
}

// Asking.

/// Whether a login is still the one that is waited for.
pub open spec fn still_ours(s: crate::step::SessionView, flow: Seq<char>) -> bool {
    match s.oauth {
        Some(p) => p.flow == flow,
        None => false,
    }
}

/// Whether a login is still the one that is waited for.
pub fn ours(session: &TextSession, flow: &str) -> (r: bool)
    ensures
        r == still_ours(crate::step::session_view(*session), flow@),
{
    match &session.oauth {
        Some(p) => same(p.flow.as_str(), flow),
        None => false,
    }
}

/// When a login is given up: when it expires, or when it was waited for long enough.
pub fn poll_deadline(expires_at_ms: u128, now_ms: u128, timeout_ms: u64) -> (r: u128)
    ensures
        r == (if expires_at_ms <= now_ms + timeout_ms {
            expires_at_ms as int
        } else {
            now_ms + timeout_ms
        }),
{
    let end = now_ms.saturating_add(timeout_ms as u128);
    if expires_at_ms <= end {
        expires_at_ms
    } else {
        end
    }
}

/// What is done about a login that is asked about.
#[derive(Debug)]
pub enum PollNext<S, J> {
    /// Nothing more; a line for the log.
    Exit(Option<Note<S>>),
    /// The service is asked; `poll_replied` goes on.
    Request,
    /// The time is looked up; `poll_clock` goes on.
    CheckClock,
    /// A line for the log, and the login is stored; `login::start_login` goes on.
    Persist { note: Note<S>, raw: J },
    /// A line for the log, and the pages are told of the failure.
    Fail { note: Note<S>, failure: Failure<S> },
    /// A while passes before the service is asked again.
    Sleep { ms: u64 },
}

/// What is done about a login, as contracts speak of it.
pub type PollView = PollNext<Seq<char>, crate::json::JsonView>;

/// What is done about a login.
pub open spec fn poll_view(p: PollNext<String, Json>) -> PollView {
    match p {
        PollNext::Exit(n) => PollNext::Exit(crate::step::opt_note(n)),
        PollNext::Request => PollNext::Request,
        PollNext::CheckClock => PollNext::CheckClock,
        PollNext::Persist { note, raw } => PollNext::Persist {
            note: crate::step::note_view(note),
            raw: raw@,
        },
        PollNext::Fail { note, failure } => PollNext::Fail {
            note: crate::step::note_view(note),
            failure: crate::failure::failure_view(failure),
        },
        PollNext::Sleep { ms } => PollNext::Sleep { ms },
    }
}

/// What the service says of a login.
#[derive(Debug)]
pub enum PollReply<S, J> {
    Pending,
    Ready(J),
    Failed(S),
}

/// What the service says of a login.
pub open spec fn poll_reply_view(
    p: PollReply<String, Json>,
) -> PollReply<Seq<char>, crate::json::JsonView> {
    match p {
        PollReply::Pending => PollReply::Pending,
        PollReply::Ready(v) => PollReply::Ready(v@),
        PollReply::Failed(e) => PollReply::Failed(e@),
    }
}

fn note(flow: &str, stage: &str, detail: &str) -> (r: Note<String>)
    ensures
        crate::step::note_view(r) == (Note { flow: flow@, stage: stage@, detail: detail@ }),
{
    Note { flow: flow.to_owned(), stage: stage.to_owned(), detail: detail.to_owned() }
}

/// What starts a round.
pub open spec fn next_poll(s: crate::step::SessionView, flow: Seq<char>) -> PollView {
    if still_ours(s, flow) {
        PollNext::Request
    } else {
        PollNext::Exit(
            Some(Note { flow, stage: "poll-exit"@, detail: "flow-done-or-replaced"@ }),
        )
    }
}

/// The start of a round: the service is asked as long as the login is waited for.
pub fn poll_turn(session: &TextSession, flow: &str) -> (r: PollNext<String, Json>)
    ensures
        poll_view(r) == next_poll(crate::step::session_view(*session), flow@),
{
    if ours(session, flow) {
        PollNext::Request
    } else {
        PollNext::Exit(Some(note(flow, "poll-exit", "flow-done-or-replaced")))
    }
}

/// The data of a login, as the service would send them.
pub open spec fn login_value(data: crate::json::JsonView) -> crate::json::JsonView {
    crate::json::object(
        seq![
            ("code"@, crate::json::JsonView::Number(crate::json::number_of(0))),
            ("data"@, data),
        ],
    )
}

/// What follows what the service says, and what is remembered then.
pub open spec fn after_poll(
    s: crate::step::SessionView,
    flow: Seq<char>,
    reply: PollReply<Seq<char>, crate::json::JsonView>,
) -> (PollView, crate::step::SessionView) {
    match reply {
        PollReply::Pending => (PollNext::CheckClock, s),
        PollReply::Ready(data) => (
            PollNext::Persist {
                note: Note { flow, stage: "poll-ready"@, detail: ""@ },
                raw: login_value(data),
            },
            s,
        ),
        PollReply::Failed(e) => if still_ours(s, flow) {
            (
                PollNext::Fail {
                    note: Note { flow, stage: "poll-fail"@, detail: e },
                    failure: Failure::Text(e),
                },
                Session { oauth: None, ..s },
            )
        } else {
            (
                PollNext::Exit(
                    Some(Note { flow, stage: "poll-exit"@, detail: "superseded"@ }),
                ),
                s,
            )
        },
    }
}

/// Goes on with what the service says of a login.
pub fn poll_replied(
    session: &mut TextSession,
    flow: &str,
    reply: PollReply<String, Json>,
) -> (r: PollNext<String, Json>)
    ensures
        (poll_view(r), crate::step::session_view(*final(session))) == after_poll(
            crate::step::session_view(*old(session)),
            flow@,
            poll_reply_view(reply),
        ),
{
    match reply {
        PollReply::Pending => PollNext::CheckClock,
        PollReply::Ready(data) => {
            let ghost d = data@;
            let entries = vec![("code".to_owned(), Json::number(0)), ("data".to_owned(), data)];
            proof {
                assert(crate::json::entry_views(entries@) =~= seq![
                    ("code"@, crate::json::JsonView::Number(crate::json::number_of(0))),
                    ("data"@, d),
                ]);
            }
            PollNext::Persist { note: note(flow, "poll-ready", ""), raw: Json::Object(entries) }
        },
        PollReply::Failed(e) => {
            if !ours(session, flow) {
                return PollNext::Exit(Some(note(flow, "poll-exit", "superseded")));
            }
            session.oauth = None;
            PollNext::Fail { note: note(flow, "poll-fail", e.as_str()), failure: Failure::Text(e) }
        },
    }
}

/// What follows when the service has nothing to say yet, and what is remembered then.
pub open spec fn after_clock(
    s: crate::step::SessionView,
    flow: Seq<char>,
    deadline_ms: u128,
    now_ms: u128,
    interval_ms: u64,
) -> (PollView, crate::step::SessionView) {
    if now_ms < deadline_ms {
        (
            PollNext::Sleep {
                ms: if deadline_ms - now_ms < interval_ms {
                    (deadline_ms - now_ms) as u64
                } else {
                    interval_ms
                },
            },
            s,
        )
    } else if still_ours(s, flow) {
        (
            PollNext::Fail {
                note: Note { flow, stage: "poll-timeout"@, detail: ""@ },
                failure: Failure::LoginExpired,
            },
            Session { oauth: None, ..s },
        )
    } else {
        (PollNext::Exit(None), s)
    }
}

/// Waits for the next round, or gives up when the time has come.
pub fn poll_clock(
    session: &mut TextSession,
    flow: &str,
    deadline_ms: u128,
    now_ms: u128,
    interval_ms: u64,
) -> (r: PollNext<String, Json>)
    ensures
        (poll_view(r), crate::step::session_view(*final(session))) == after_clock(
            crate::step::session_view(*old(session)),
            flow@,
            deadline_ms,
            now_ms,
            interval_ms,
        ),
{
    if now_ms >= deadline_ms {
        if !ours(session, flow) {
            return PollNext::Exit(None);
        }
        session.oauth = None;
        return PollNext::Fail {
            note: note(flow, "poll-timeout", ""),
            failure: Failure::LoginExpired,
        };
    }
    let left = deadline_ms - now_ms;
    let ms = if left < interval_ms as u128 {
        left as u64
    } else {
        interval_ms
    };
    PollNext::Sleep { ms }
}

// The end.

/// What is said of a login that another one took the place of.
pub open spec fn superseded() -> Seq<char> {
    "__superseded__"@
}

/// What is logged of a login that was stored, or could not be.
pub open spec fn stored_note(
    flow: Seq<char>,
    result: Result<crate::json::JsonView, Seq<char>>,
) -> Option<Note<Seq<char>>> {
    match result {
        Ok(v) => Some(
            Note {
                flow,
                stage: "persist-ok"@,
                detail: "channel=poll duplicate="@ + if v.member("duplicate"@) is Some {
                    "true"@
                } else {
                    "false"@
                },
            },
        ),
        Err(e) => if e == superseded() {
            None
        } else {
            Some(Note { flow, stage: "persist-fail"@, detail: "channel=poll "@ + e })
        },
    }
}

/// The line for the log of a login that was stored, or could not be.
pub fn persisted(flow: &str, result: &Result<Json, String>) -> (r: Option<Note<String>>)
    ensures
        crate::step::opt_note(r) == stored_note(flow@, crate::step::json_result(*result)),
{
    match result {
        Ok(v) => {
            let detail = concat(
                "channel=poll duplicate=",
                if v.get("duplicate").is_some() {
                    "true"
                } else {
                    "false"
                },
            );
            Some(note(flow, "persist-ok", detail.as_str()))
        },
        Err(e) => {
            if same(e.as_str(), "__superseded__") {
                None
            } else {
                let detail = concat("channel=poll ", e.as_str());
                Some(note(flow, "persist-fail", detail.as_str()))
            }
        },
    }
}

/// What the pages are told of the end of a login: nothing, where it ended because of another.
pub open spec fn login_event(
    result: Result<crate::json::JsonView, Seq<char>>,
) -> Option<(Seq<char>, crate::json::JsonView)> {
    match result {
        Ok(v) => Some(("oauth://done"@, v)),
        Err(e) => if e == superseded() || e == "__attribution__"@ {
            None
        } else {
            Some(
                (
                    "oauth://done"@,
                    crate::json::object(
                        seq![
                            ("ok"@, crate::json::JsonView::Bool(false)),
                            ("error"@, crate::json::JsonView::Text(e)),
                        ],
                    ),
                ),
            )
        },
    }
}

/// The event that tells the pages of the end of a login.
pub fn finalize_oauth_result(result: &Result<Json, String>) -> (r: Option<(String, Json)>)
    ensures
        match r {
            Some(e) => login_event(crate::step::json_result(*result)) == Some((e.0@, e.1@)),
            None => login_event(crate::step::json_result(*result)) is None,
        },
{
    match result {
        Ok(v) => Some(("oauth://done".to_owned(), v.copy())),
        Err(e) => {
            if same(e.as_str(), "__superseded__") || same(e.as_str(), "__attribution__") {
                return None;
            }
            let entries = vec![
                ("ok".to_owned(), Json::Bool(false)),
                ("error".to_owned(), Json::Text(e.clone())),
            ];
            proof {
                assert(crate::json::entry_views(entries@) =~= seq![
                    ("ok"@, crate::json::JsonView::Bool(false)),
                    ("error"@, crate::json::JsonView::Text(e@)),
                ]);
            }
            Some(("oauth://done".to_owned(), Json::Object(entries)))
        },
    }
}

// Laws.

/// A login that was opened is the one that is waited for, and any other is not.
pub proof fn law_opened_login_is_ours(
    provider: Seq<char>,
    flow: Seq<char>,
    mid: Seq<char>,
    now_ms: u128,
    init: LoginFlow<Seq<char>>,
    other: Seq<char>,
    s: crate::step::SessionView,
)
    ensures
        ({
            let after = with_flow(provider, flow, mid, now_ms, Ok(init), s).1;
            &&& still_ours(after, flow)
            &&& other != flow ==> !still_ours(after, other)
        }),
{
}

/// A login that another one took the place of touches nothing: whatever the service says and
/// whatever the time, what is remembered stays, and the pages are told of no failure.
pub proof fn law_replaced_login_touches_nothing(
    s: crate::step::SessionView,
    flow: Seq<char>,
    reply: PollReply<Seq<char>, crate::json::JsonView>,
    deadline_ms: u128,
    now_ms: u128,
    interval_ms: u64,
)
    requires
        !still_ours(s, flow),
    ensures
        after_poll(s, flow, reply).1 == s,
        !(after_poll(s, flow, reply).0 is Fail),
        after_clock(s, flow, deadline_ms, now_ms, interval_ms).1 == s,
        !(after_clock(s, flow, deadline_ms, now_ms, interval_ms).0 is Fail),
{
}

/// A login that failed or expired is not waited for any more.
pub proof fn law_failed_login_is_forgotten(
    s: crate::step::SessionView,
    flow: Seq<char>,
    reply: PollReply<Seq<char>, crate::json::JsonView>,
    deadline_ms: u128,
    now_ms: u128,
    interval_ms: u64,
)
    ensures
        after_poll(s, flow, reply).0 is Fail ==> !still_ours(after_poll(s, flow, reply).1, flow),
        after_clock(s, flow, deadline_ms, now_ms, interval_ms).0 is Fail ==> !still_ours(
            after_clock(s, flow, deadline_ms, now_ms, interval_ms).1,
            flow,
        ),
{
}

/// No pause is longer than the service asks for, and none goes beyond the deadline.
pub proof fn law_pauses_end_in_time(
    s: crate::step::SessionView,
    flow: Seq<char>,
    deadline_ms: u128,
    now_ms: u128,
    interval_ms: u64,
)
    ensures
        after_clock(s, flow, deadline_ms, now_ms, interval_ms).0 matches PollNext::Sleep { ms }
            ==> ms <= interval_ms && now_ms + ms <= deadline_ms,
{
}

/// A login that another one took the place of ends silently: nothing is logged of storing it, and
/// the pages are told nothing.
pub proof fn law_replaced_login_ends_silently(flow: Seq<char>)
    ensures
        stored_note(flow, Err(superseded())) is None,
        login_event(Err(superseded())) is None,
{
}

// The course of a login that is asked about.

/// A round of asking about a login: what is remembered when it starts, when the service has
/// answered, and when the time is looked up, and what the answer and the time are.
pub struct PollRound {
    pub before: crate::step::SessionView,
    pub reply: PollReply<Seq<char>, crate::json::JsonView>,
    pub answered: crate::step::SessionView,
    pub clock: crate::step::SessionView,
    pub now_ms: u128,
}

/// What a round of asking about a login leads to.
pub open spec fn polled(
    flow: Seq<char>,
    deadline_ms: u128,
    interval_ms: u64,
    r: PollRound,
) -> PollView {
    match next_poll(r.before, flow) {
        PollNext::Request => match after_poll(r.answered, flow, r.reply).0 {
            PollNext::CheckClock => after_clock(
                r.clock,
                flow,
                deadline_ms,
                r.now_ms,
                interval_ms,
            ).0,
            end => end,
        },
        end => end,
    }
}

/// What the rounds of asking about a login lead to, one after the other until one that is no pause.
pub open spec fn poll_course(
    flow: Seq<char>,
    deadline_ms: u128,
    interval_ms: u64,
    rounds: Seq<PollRound>,
) -> Seq<PollView>
    decreases rounds.len(),
{
    if rounds.len() == 0 {
        Seq::empty()
    } else {
        let first = polled(flow, deadline_ms, interval_ms, rounds[0]);
        if first is Sleep {
            seq![first] + poll_course(flow, deadline_ms, interval_ms, rounds.skip(1))
        } else {
            seq![first]
        }
    }
}

/// Whether a round leads to a pause: of a login that is waited for and that the service has nothing
/// to say of, no longer than the interval and not beyond the deadline.
pub open spec fn is_pause(
    flow: Seq<char>,
    deadline_ms: u128,
    interval_ms: u64,
    r: PollRound,
    p: PollView,
) -> bool {
    match p {
        PollNext::Sleep { ms } => {
            &&& ms <= interval_ms
            &&& r.now_ms + ms <= deadline_ms
            &&& still_ours(r.before, flow)
            &&& r.reply is Pending
        },
        _ => false,
    }
}

/// Whether a round leads to an end: the login is stored where the service has its data, and failed
/// where the service says so or the time has come, if it is waited for; else it is left alone.
pub open spec fn is_end(flow: Seq<char>, deadline_ms: u128, r: PollRound, p: PollView) -> bool {
    match p {
        PollNext::Exit(note) => {
            ||| !still_ours(r.before, flow)
            ||| r.reply is Failed && !still_ours(r.answered, flow)
            ||| r.reply is Pending && r.now_ms >= deadline_ms && !still_ours(r.clock, flow)
        },
        PollNext::Persist { note, raw } => still_ours(r.before, flow) && match r.reply {
            PollReply::Ready(data) => raw == login_value(data),
            _ => false,
        },
        PollNext::Fail { note, failure } => still_ours(r.before, flow) && match r.reply {
            PollReply::Failed(e) => failure == Failure::Text(e) && still_ours(r.answered, flow),
            PollReply::Pending => failure == Failure::<Seq<char>>::LoginExpired && r.now_ms
                >= deadline_ms && still_ours(r.clock, flow),
            PollReply::Ready(data) => false,
        },
        _ => false,
    }
}

/// A login is asked about until it ends, and then no more: every round but the last leads to a
/// pause, and the last, where rounds are left, to an end. So a login is stored or failed once at
/// most.
pub proof fn law_login_is_asked_about_until_it_ends(
    flow: Seq<char>,
    deadline_ms: u128,
    interval_ms: u64,
    rounds: Seq<PollRound>,
)
    ensures
        ({
            let course = poll_course(flow, deadline_ms, interval_ms, rounds);
            let n = course.len() as int;
            &&& n <= rounds.len()
            &&& rounds.len() > 0 ==> n > 0
            &&& forall|i: int|
                0 <= i < n - 1 ==> is_pause(
                    flow,
                    deadline_ms,
                    interval_ms,
                    rounds[i],
                    #[trigger] course[i],
                )
            &&& n > 0 ==> is_end(flow, deadline_ms, rounds[n - 1], course[n - 1]) || is_pause(
                flow,
                deadline_ms,
                interval_ms,
                rounds[n - 1],
                course[n - 1],
            )
            &&& n < rounds.len() ==> is_end(flow, deadline_ms, rounds[n - 1], course[n - 1])
        }),
    decreases rounds.len(),
{
    if rounds.len() > 0 {
        let course = poll_course(flow, deadline_ms, interval_ms, rounds);
        let n = course.len() as int;
        let first = polled(flow, deadline_ms, interval_ms, rounds[0]);
        assert(course[0] == first);
        if first is Sleep {
            let rest = rounds.skip(1);
            let others = poll_course(flow, deadline_ms, interval_ms, rest);
            law_login_is_asked_about_until_it_ends(flow, deadline_ms, interval_ms, rest);
            assert forall|i: int| 0 <= i < n - 1 implies is_pause(
                flow,
                deadline_ms,
                interval_ms,
                rounds[i],
                #[trigger] course[i],
            ) by {
                if i > 0 {
                    assert(course[i] == others[i - 1]);
                    assert(rounds[i] == rest[i - 1]);
                }
            }
            if n > 1 {
                assert(course[n - 1] == others[n - 2]);
                assert(rounds[n - 1] == rest[n - 2]);
            }
        }
    }
}

// Laws of single steps, in terms of what is known of the login.

/// An identifier has thirty-six characters: hyphens in four places, a four for its version, one of
/// four digits for its variant, and small hexadecimal digits everywhere else.
pub proof fn law_identifiers(s: Seq<char>, i: int)
    requires
        is_uuid(s),
    ensures
        s.len() == 36,
        s[8] == '-' && s[13] == '-' && s[18] == '-' && s[23] == '-',
        s[14] == '4',
        s[19] == '8' || s[19] == '9' || s[19] == 'a' || s[19] == 'b',
        0 <= i < 36 && i != 8 && i != 13 && i != 18 && i != 23
            ==> ('0' <= s[i] && s[i] <= '9') || ('a'
            <= s[i] && s[i] <= 'f'),
{
    if 0 <= i < 36 && i != 8 && i != 13 && i != 18 && i != 23 {
        assert(is_hex(s[i]));
    }
}

/// A login is opened with the service that was named and under the identifiers that were given, and
/// its begin is logged with the service; a login under random identifiers has two of them.
pub proof fn law_begin(
    provider: Seq<char>,
    flow: Seq<char>,
    mid: Seq<char>,
    step: crate::step::StepView,
)
    ensures
        opening_step(
            provider, flow, mid) matches Step::InitFlow { provider: p, flow: f, mid: m, note }
            && p == provider && f == flow && m == mid && note.flow == flow && note.stage == "begin"@
            && note.detail == "provider="@ + provider + " channel=poll"@,
        opens_login(step, provider)
            ==> (step matches Step::InitFlow { provider: p, flow: f, mid: m, note }
            && p == provider && is_uuid(f) && is_uuid(m) && note.flow == f && note.stage == "begin"@
            && note.detail == "provider="@ + provider + " channel=poll"@),
{
}

/// The seconds that are left are the whole seconds until the time, and none when it has come.
pub proof fn law_seconds_left(at_ms: u128, now_ms: u128, n: nat, rest: int)
    ensures
        at_ms == now_ms + 1000 * n + rest && 0 <= rest < 1000 ==> seconds_left(at_ms, now_ms) == n,
        at_ms <= now_ms ==> seconds_left(at_ms, now_ms) == 0,
{
}

/// A login that was opened is logged with what stands behind the last slash of the address to ask
/// at, the seconds that are left, and the interval.
pub proof fn law_opened_login_is_logged(
    init: LoginFlow<Seq<char>>,
    now_ms: u128,
    a: Seq<char>,
    b: Seq<char>,
)
    requires
        init.poll_url == a.push('/') + b,
        !b.contains('/'),
    ensures
        opened_detail(init, now_ms) == "server_flow="@ + b + " expires_in="@ + crate::text::decimal(
            seconds_left(init.expires_at_ms, now_ms),
        ) + "s interval="@ + crate::text::decimal(init.poll_interval_ms as nat) + "ms"@,
{
    crate::text::law_behind_last(a, '/', b);
}

/// A login that was opened is asked about at the address, with the token, until the time and at the
/// interval that the service gave, under its own identifiers; the page gets the address to go to,
/// and the login is remembered with its service and its state. The claim that waits stays.
pub proof fn law_opened_login(
    provider: Seq<char>,
    flow: Seq<char>,
    mid: Seq<char>,
    now_ms: u128,
    init: LoginFlow<Seq<char>>,
    s: crate::step::SessionView,
)
    ensures
        ({
            let (step, after) = with_flow(provider, flow, mid, now_ms, Ok(init), s);
            &&& step matches Step::SpawnPoll { job, authorize_url, note } && {
                &&& job.provider == provider
                &&& job.flow == flow
                &&& job.mid == mid
                &&& job.url == init.poll_url
                &&& job.token == init.poll_token
                &&& job.expires_at_ms == init.expires_at_ms
                &&& job.interval_ms == init.poll_interval_ms
                &&& authorize_url == init.authorize_url
                &&& note.flow == flow
                &&& note.stage == "init-ok"@
                &&& note.detail == opened_detail(init, now_ms)
            }
            &&& after.claim == s.claim
            &&& after.oauth matches Some(p) && p.provider == provider && p.state == init.state
                && p.flow
                == flow
        }),
{
}

/// A login that could not be opened is logged and fails in the same words, and what is remembered
/// stays.
pub proof fn law_login_not_opened(
    provider: Seq<char>,
    flow: Seq<char>,
    mid: Seq<char>,
    now_ms: u128,
    e: Seq<char>,
    s: crate::step::SessionView,
)
    ensures
        ({
            let (step, after) = with_flow(provider, flow, mid, now_ms, Err(e), s);
            &&& step matches Step::Done(d) && d.emit is None && (d.note matches Some(n)
                && n.flow == flow
                && n.stage == "init-fail"@ && n.detail == e) && (d.result matches Err(f) && f
                == Failure::Text(e))
            &&& after == s
        }),
{
}

/// A login is the one that is waited for exactly where one is waited for that has its identifier.
pub proof fn law_awaited(s: crate::step::SessionView, flow: Seq<char>)
    ensures
        s.oauth is None ==> !still_ours(s, flow),
        s.oauth is Some && s.oauth->0.flow == flow ==> still_ours(s, flow),
        s.oauth is Some && s.oauth->0.flow != flow ==> !still_ours(s, flow),
{
}

/// The service is asked about a login that is waited for; the asking about any other ends and is
/// logged.
pub proof fn law_round(s: crate::step::SessionView, flow: Seq<char>)
    ensures
        s.oauth is Some && s.oauth->0.flow == flow ==> next_poll(s, flow) is Request,
        !(s.oauth is Some && s.oauth->0.flow == flow)
            ==> (next_poll(s, flow) matches PollNext::Exit(n)
            && (n matches Some(l) && l.flow == flow && l.stage == "poll-exit"@ && l.detail
            == "flow-done-or-replaced"@)),
{
}

/// A login that the service has nothing to say of waits; one whose data are there is stored with
/// them; one that failed, if it is waited for, fails in the words of the service and is forgotten,
/// and else is left alone. Each but the first is logged.
pub proof fn law_service_says(
    s: crate::step::SessionView,
    flow: Seq<char>,
    data: crate::json::JsonView,
    e: Seq<char>,
)
    ensures
        after_poll(s, flow, PollReply::Pending) == (
            PollNext::<Seq<char>, crate::json::JsonView>::CheckClock,
            s,
        ),
        after_poll(s, flow, PollReply::Ready(data)).1 == s,
        after_poll(s, flow, PollReply::Ready(data)).0 matches PollNext::Persist { note, raw }
            && note.flow
            == flow && note.stage == "poll-ready"@ && note.detail.len() == 0 && raw.member("data"@)
            == Some(data) && raw.member("code"@) == Some(
            crate::json::JsonView::Number(crate::json::number_of(0)),
        ),
        s.oauth is Some && s.oauth->0.flow == flow ==> {
            let (next, after) = after_poll(s, flow, PollReply::Failed(e));
            &&& next matches PollNext::Fail { note, failure } && note.flow == flow && note.stage
                == "poll-fail"@ && note.detail == e && failure == Failure::Text(e)
            &&& after.oauth is None
            &&& after.claim == s.claim
        },
        !(s.oauth is Some && s.oauth->0.flow == flow) ==> {
            let (next, after) = after_poll(s, flow, PollReply::Failed(e));
            &&& next matches PollNext::Exit(n) && (n matches Some(l) && l.flow == flow && l.stage
                == "poll-exit"@ && l.detail == "superseded"@)
            &&& after == s
        },
{
    reveal_strlit("");
    reveal_strlit("code");
    reveal_strlit("data");
    assert("code"@[0] == 'c' && "data"@[0] == 'd');
    let entries = seq![
        ("code"@, crate::json::JsonView::Number(crate::json::number_of(0))),
        ("data"@, data),
    ];
    crate::json::lemma_entries_map_at(entries, 0);
    crate::json::lemma_entries_map_at(entries, 1);
}

/// Before the deadline the asking pauses for the interval, or for what is left where that is less.
/// From the deadline on a login that is waited for expires and is forgotten, and any other is left
/// alone.
pub proof fn law_clock(
    s: crate::step::SessionView,
    flow: Seq<char>,
    deadline_ms: u128,
    now_ms: u128,
    interval_ms: u64,
)
    ensures
        now_ms < deadline_ms ==> {
            let (next, after) = after_clock(s, flow, deadline_ms, now_ms, interval_ms);
            &&& next matches PollNext::Sleep { ms } && (deadline_ms - now_ms >= interval_ms ==> ms
                == interval_ms) && (deadline_ms - now_ms < interval_ms
                    ==> ms == deadline_ms - now_ms)
            &&& after == s
        },
        now_ms >= deadline_ms && s.oauth is Some && s.oauth->0.flow == flow ==> {
            let (next, after) = after_clock(s, flow, deadline_ms, now_ms, interval_ms);
            &&& next matches PollNext::Fail { note, failure } && note.flow == flow && note.stage
                == "poll-timeout"@ && note.detail.len() == 0 && failure is LoginExpired
            &&& after.oauth is None
            &&& after.claim == s.claim
        },
        now_ms >= deadline_ms && !(s.oauth is Some && s.oauth->0.flow == flow) ==> {
            let (next, after) = after_clock(s, flow, deadline_ms, now_ms, interval_ms);
            &&& next matches PollNext::Exit(n) && n is None
            &&& after == s
        },
{
    reveal_strlit("");
}

/// A login that was stored is logged with whether its account was there before; one that could not
/// be is logged with the reason, unless another took its place.
pub proof fn law_stored_login_is_logged(
    flow: Seq<char>,
    v: crate::json::JsonView,
    e: Seq<char>,
)
    ensures
        v.member("duplicate"@) is Some
            ==> (stored_note(flow, Ok(v)) matches Some(n) && n.flow == flow
            && n.stage == "persist-ok"@ && n.detail == "channel=poll duplicate="@ + "true"@),
        v.member("duplicate"@) is None
            ==> (stored_note(flow, Ok(v)) matches Some(n) && n.flow == flow
            && n.stage == "persist-ok"@ && n.detail == "channel=poll duplicate="@ + "false"@),
        e != "__superseded__"@
            ==> (stored_note(flow, Err(e)) matches Some(n) && n.flow == flow && n.stage
            == "persist-fail"@ && n.detail == "channel=poll "@ + e),
        stored_note(flow, Err("__superseded__"@)) is None,
{
}

/// The pages are told of the end of a login: of one that was stored its answer, and of one that
/// failed the reason, but nothing where another login took its place or it was not theirs.
pub proof fn law_end_is_told(v: crate::json::JsonView, e: Seq<char>, other: Seq<char>)
    ensures
        login_event(Ok(v)) == Some(("oauth://done"@, v)),
        e != "__superseded__"@ && e != "__attribution__"@
            ==> (login_event(Err(e)) matches Some((name, p))
            && name == "oauth://done"@ && p.bool_member("ok"@) == Some(false)
                && p.text_member("error"@)
            == Some(e) && (other != "ok"@ && other != "error"@ ==> p.member(other) is None)),
        e == "__superseded__"@ || e == "__attribution__"@ ==> login_event(Err(e)) is None,
{
    reveal_strlit("ok");
    reveal_strlit("error");
    assert("ok"@.len() == 2 && "error"@.len() == 5);
    let entries = seq![
        ("ok"@, crate::json::JsonView::Bool(false)),
        ("error"@, crate::json::JsonView::Text(e)),
    ];
    crate::json::lemma_entries_map_at(entries, 0);
    crate::json::lemma_entries_map_at(entries, 1);
    crate::json::lemma_entries_map(entries, other);
}

/// What is carried shows each of its parts.
pub proof fn law_oauth_parts(
    f: LoginFlow<String>, p: PollNext<String, Json>, r: PollReply<String, Json>)
    ensures
        login_flow_view(f).state == f.state@,
        login_flow_view(f).authorize_url == f.authorize_url@,
        login_flow_view(f).poll_url == f.poll_url@,
        login_flow_view(f).poll_token == f.poll_token@,
        login_flow_view(f).expires_at_ms == f.expires_at_ms,
        login_flow_view(f).poll_interval_ms == f.poll_interval_ms,
        match p {
            PollNext::Exit(n) => poll_view(p) matches PollNext::Exit(m)
                && m == crate::step::opt_note(n),
            PollNext::Request => poll_view(p) is Request,
            PollNext::CheckClock => poll_view(p) is CheckClock,
            PollNext::Persist { note, raw } =>
                poll_view(p) matches PollNext::Persist { note: n, raw: w }
                && n == crate::step::note_view(note) && w == raw@,
            PollNext::Fail { note, failure } =>
                poll_view(p) matches PollNext::Fail { note: n, failure: g }
                && n == crate::step::note_view(note) && g == crate::failure::failure_view(failure),
            PollNext::Sleep { ms } => poll_view(p) matches PollNext::Sleep { ms: m } && m == ms,
        },
        match r {
            PollReply::Pending => poll_reply_view(r) is Pending,
            PollReply::Ready(v) => poll_reply_view(r) matches PollReply::Ready(w) && w == v@,
            PollReply::Failed(e) => poll_reply_view(r) matches PollReply::Failed(w) && w == e@,
        },
{
}

} // verus!
