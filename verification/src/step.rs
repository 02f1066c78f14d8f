//! The steps of a command: what is to be done outside, and what is known when it is done.
//!
//! A command starts as a step. A step that is not `Done` names one piece of outside work; the
//! function that its description names takes what came of the work and gives the next step.

use vstd::prelude::*;

use crate::failure::Failure;
use crate::json::Json;

verus! {

/// A text that may be missing.
pub open spec fn opt_text(o: Option<String>) -> Option<Seq<char>> {
    match o {
        Some(s) => Some(s@),
        None => None,
    }
}

/// A JSON value that may be missing.
pub open spec fn opt_json(o: Option<Json>) -> Option<crate::json::JsonView> {
    match o {
        Some(j) => Some(j@),
        None => None,
    }
}

/// Outside work that gives a text or says why not.
pub open spec fn text_result(r: Result<String, String>) -> Result<Seq<char>, Seq<char>> {
    match r {
        Ok(s) => Ok(s@),
        Err(e) => Err(e@),
    }
}

/// Outside work that gives a JSON value or says why not.
pub open spec fn json_result(r: Result<Json, String>) -> Result<crate::json::JsonView, Seq<char>> {
    match r {
        Ok(j) => Ok(j@),
        Err(e) => Err(e@),
    }
}

/// Outside work that succeeds or says why not.
pub open spec fn unit_result(r: Result<(), String>) -> Result<(), Seq<char>> {
    match r {
        Ok(u) => Ok(u),
        Err(e) => Err(e@),
    }
}

/// A line for the log of a login: the login, the stage that it is in, and details.
#[derive(Debug)]
pub struct Note<S> {
    pub flow: S,
    pub stage: S,
    pub detail: S,
}

/// What a line for the log is.
pub open spec fn note_view(n: Note<String>) -> Note<Seq<char>> {
    Note { flow: n.flow@, stage: n.stage@, detail: n.detail@ }
}

/// A line for the log that may be missing.
pub open spec fn opt_note(n: Option<Note<String>>) -> Option<Note<Seq<char>>> {
    match n {
        Some(n) => Some(note_view(n)),
        None => None,
    }
}

/// The end of a command: a line for the log, an event for the pages, and then the result.
#[derive(Debug)]
pub struct Done<S, J> {
    pub note: Option<Note<S>>,
    pub emit: Option<(S, J)>,
    pub result: Result<J, Failure<S>>,
}

/// What the end of a command is.
pub open spec fn done_view(d: Done<String, Json>) -> Done<Seq<char>, crate::json::JsonView> {
    Done {
        note: opt_note(d.note),
        emit: match d.emit {
            Some((event, payload)) => Some((event@, payload@)),
            None => None,
        },
        result: match d.result {
            Ok(v) => Ok(v@),
            Err(f) => Err(crate::failure::failure_view(f)),
        },
    }
}

/// A question to the account library whose answer is the answer to the command.
#[derive(Debug)]
pub enum Ask<S> {
    State,
    AppVersion,
    CaptureCurrent { label: Option<S> },
    Rename { id: S, name: S },
    UpdateFromLive { id: S },
    /// Switch to an account; `hot` is whether while the client runs.
    SwitchTo { id: S, force: bool, restart: bool, hot: bool },
    LiveQuota,
    AccountQuota { id: S },
    CaptchaConfig,
    OAuthProviders,
}

/// What a question is.
pub open spec fn ask_view(a: Ask<String>) -> Ask<Seq<char>> {
    match a {
        Ask::State => Ask::State,
        Ask::AppVersion => Ask::AppVersion,
        Ask::CaptureCurrent { label } => Ask::CaptureCurrent { label: opt_text(label) },
        Ask::Rename { id, name } => Ask::Rename { id: id@, name: name@ },
        Ask::UpdateFromLive { id } => Ask::UpdateFromLive { id: id@ },
        Ask::SwitchTo { id, force, restart, hot } => Ask::SwitchTo { id: id@, force, restart, hot },
        Ask::LiveQuota => Ask::LiveQuota,
        Ask::AccountQuota { id } => Ask::AccountQuota { id: id@ },
        Ask::CaptchaConfig => Ask::CaptchaConfig,
        Ask::OAuthProviders => Ask::OAuthProviders,
    }
}

/// An order to the account library that has no answer but that it was carried out.
#[derive(Debug)]
pub enum Tell<S> {
    Delete { id: S },
    OpenUrl { url: S },
    Launch { path: S },
}

/// What an order is.
pub open spec fn tell_view(t: Tell<String>) -> Tell<Seq<char>> {
    match t {
        Tell::Delete { id } => Tell::Delete { id: id@ },
        Tell::OpenUrl { url } => Tell::OpenUrl { url: url@ },
        Tell::Launch { path } => Tell::Launch { path: path@ },
    }
}

/// What the plans of an account are looked up for.
#[derive(Debug)]
pub enum Goal<S> {
    /// To show them.
    Preview,
    /// To show them anew.
    Refresh,
    /// To claim one of them.
    Start { plan_id: S },
}

/// What a goal is.
pub open spec fn goal_view(g: Goal<String>) -> Goal<Seq<char>> {
    match g {
        Goal::Preview => Goal::Preview,
        Goal::Refresh => Goal::Refresh,
        Goal::Start { plan_id } => Goal::Start { plan_id: plan_id@ },
    }
}

/// What a claim needs of an account.
#[derive(Debug)]
pub struct ClaimAccount<S, J> {
    pub id: S,
    pub name: S,
    pub credentials: J,
    pub config: Option<J>,
}

/// What a claim needs of an account.
pub open spec fn claim_account_view(
    a: ClaimAccount<String, Json>,
) -> ClaimAccount<Seq<char>, crate::json::JsonView> {
    ClaimAccount {
        id: a.id@,
        name: a.name@,
        credentials: a.credentials@,
        config: opt_json(a.config),
    }
}

/// A claim that waits for its captcha.
#[derive(Debug)]
pub struct PendingClaim<S, J> {
    pub account_id: S,
    pub account_name: S,
    pub plan_id: S,
    pub plan_name: S,
    pub credentials: J,
    pub config: Option<J>,
    pub device_mid: S,
}

/// What a waiting claim is.
pub open spec fn pending_claim_view(
    p: PendingClaim<String, Json>,
) -> PendingClaim<Seq<char>, crate::json::JsonView> {
    PendingClaim {
        account_id: p.account_id@,
        account_name: p.account_name@,
        plan_id: p.plan_id@,
        plan_name: p.plan_name@,
        credentials: p.credentials@,
        config: opt_json(p.config),
        device_mid: p.device_mid@,
    }
}

/// A login that waits to be completed elsewhere.
#[derive(Debug)]
pub struct PendingOAuth<S> {
    pub provider: S,
    pub state: S,
    pub flow: S,
}

/// What a waiting login is.
pub open spec fn pending_oauth_view(p: PendingOAuth<String>) -> PendingOAuth<Seq<char>> {
    PendingOAuth { provider: p.provider@, state: p.state@, flow: p.flow@ }
}

/// What is remembered from one command to the next.
#[derive(Debug)]
pub struct Session<S, J> {
    pub claim: Option<PendingClaim<S, J>>,
    pub oauth: Option<PendingOAuth<S>>,
}

/// What is remembered, as it is carried.
pub type TextSession = Session<String, Json>;

/// What is remembered, as contracts speak of it.
pub type SessionView = Session<Seq<char>, crate::json::JsonView>;

/// What is remembered.
pub open spec fn session_view(s: TextSession) -> SessionView {
    Session {
        claim: match s.claim {
            Some(p) => Some(pending_claim_view(p)),
            None => None,
        },
        oauth: match s.oauth {
            Some(p) => Some(pending_oauth_view(p)),
            None => None,
        },
    }
}

/// Nothing is remembered at first.
pub fn new_session() -> (r: TextSession)
    ensures
        r.claim is None,
        r.oauth is None,
{
    Session { claim: None, oauth: None }
}

/// What a claim led to. The times are in milliseconds.
#[derive(Debug)]
pub struct ClaimOutcome<S> {
    pub account_id: S,
    pub account_name: S,
    pub plan_name: S,
    pub starts_at: Option<i64>,
    pub ends_at: Option<i64>,
    pub server_time: Option<i64>,
}

/// What a claim led to.
pub open spec fn claim_outcome_view(c: ClaimOutcome<String>) -> ClaimOutcome<Seq<char>> {
    ClaimOutcome {
        account_id: c.account_id@,
        account_name: c.account_name@,
        plan_name: c.plan_name@,
        starts_at: c.starts_at,
        ends_at: c.ends_at,
        server_time: c.server_time,
    }
}

/// A change of the settings.
#[derive(Debug)]
pub enum Change<S> {
    Proxy { on: bool, url: Option<S> },
    /// Each setting that is given is changed.
    Behavior {
        launch_after_switch: Option<bool>,
        close_to_tray: Option<bool>,
        hot_switch: Option<bool>,
        auto_claim: Option<bool>,
        auto_switch: Option<bool>,
    },
    Language(S),
    Theme(S),
    ClientPath(Option<S>),
}

/// What a change of the settings is.
pub open spec fn change_view(c: Change<String>) -> Change<Seq<char>> {
    match c {
        Change::Proxy { on, url } => Change::Proxy { on, url: opt_text(url) },
        Change::Behavior {
            launch_after_switch,
            close_to_tray,
            hot_switch,
            auto_claim,
            auto_switch,
        } => Change::Behavior {
            launch_after_switch,
            close_to_tray,
            hot_switch,
            auto_claim,
            auto_switch,
        },
        Change::Language(s) => Change::Language(s@),
        Change::Theme(s) => Change::Theme(s@),
        Change::ClientPath(p) => Change::ClientPath(opt_text(p)),
    }
}

/// What follows when the settings have been saved, or could not be.
#[derive(Debug)]
pub enum AfterSave<S> {
    /// The pages are told, where they were saved.
    TellIfSaved,
    /// The pages are told in any case.
    TellAlways,
    /// The language is put to use and the pages are told, where they were saved.
    UseLanguage(S),
}

/// What follows a save.
pub open spec fn after_save_view(a: AfterSave<String>) -> AfterSave<Seq<char>> {
    match a {
        AfterSave::TellIfSaved => AfterSave::TellIfSaved,
        AfterSave::TellAlways => AfterSave::TellAlways,
        AfterSave::UseLanguage(s) => AfterSave::UseLanguage(s@),
    }
}

/// Which accounts are exported.
#[derive(Debug)]
pub enum Source<S> {
    One { id: S },
    All,
}

/// Which accounts are exported.
pub open spec fn source_view(s: Source<String>) -> Source<Seq<char>> {
    match s {
        Source::One { id } => Source::One { id: id@ },
        Source::All => Source::All,
    }
}

/// A login that is asked about until it is completed.
#[derive(Debug)]
pub struct PollJob<S> {
    pub provider: S,
    pub flow: S,
    pub mid: S,
    pub url: S,
    pub token: S,
    pub expires_at_ms: u128,
    pub interval_ms: u64,
}

/// What a login that is asked about is.
pub open spec fn poll_job_view(p: PollJob<String>) -> PollJob<Seq<char>> {
    PollJob {
        provider: p.provider@,
        flow: p.flow@,
        mid: p.mid@,
        url: p.url@,
        token: p.token@,
        expires_at_ms: p.expires_at_ms,
        interval_ms: p.interval_ms,
    }
}

/// A step of a command.
#[derive(Debug)]
pub enum Step<S, J> {
    /// The command is at its end.
    Done(Done<S, J>),
    /// Ask the account library; `api::answered` goes on.
    Ask(Ask<S>),
    /// Give the account library an order; `api::told` goes on.
    Tell(Tell<S>),
    /// Lock the library until the command is at its end, and look up in the stored settings whether
    /// to switch while the client runs; `api::got_hot_switch` goes on.
    HotSwitch { id: S, force: bool, restart: bool },
    /// Look up the latest state of the models; `api::model_status` goes on.
    ModelStatus,
    /// End the client and say whether it ended; `api::killed` goes on.
    KillClient,
    /// Look up the client's path and whether it is there; `api::client_path` goes on.
    ClientPath,
    /// Look up the device that stands for an account; `claim::got_device` goes on.
    DeviceMid { id: S, goal: Goal<S> },
    /// Load an account for a claim; `claim::got_account` goes on.
    ClaimAccount { id: S, mid: S, goal: Goal<S> },
    /// Look up the plans of an account; `claim::got_plans` goes on.
    Plans { account: ClaimAccount<S, J>, mid: S, goal: Goal<S> },
    /// Submit a claim; `claim::got_submission` goes on.
    SubmitClaim { pending: PendingClaim<S, J>, param: S, region: Option<S> },
    /// Write down what a claim led to; `claim::claim_told` goes on.
    ClaimOutcome(ClaimOutcome<S>),
    /// Write down why a claim failed; `claim::claim_told` goes on.
    ClaimFailure { account_id: S, account_name: S, plan_name: S, error: S },
    /// Bring the address of a proxy into its usual form; `settings::got_proxy` goes on.
    ParseProxy { on: bool, url: S },
    /// Look up the code of a language; `settings::got_language` goes on.
    ParseLanguage { lang: S },
    /// Bring the path of the client into its usual form; `settings::got_client_path` goes on.
    NormalizePath { path: S },
    /// Load the settings, change them with `settings::apply_change`, and save them;
    /// `settings::saved` goes on.
    SaveSettings { change: Change<S>, after: AfterSave<S> },
    /// Put a language to use; `settings::language_set` goes on.
    UseLanguage { lang: S },
    /// Look up the name of an account; `transfer::got_export_name` goes on.
    ExportName { id: S },
    /// Find the directory for exports; `transfer::got_export_dir` goes on.
    ExportDir { name: S },
    /// Count the accounts; `transfer::counted` goes on.
    CountAccounts,
    /// Find the directory for exports; `transfer::got_export_all_dir` goes on.
    ExportAllDir { accounts: u64 },
    /// Load and bundle accounts; `transfer::got_bundle` goes on.
    Bundle { source: Source<S>, path: S, password: S },
    /// Seal a bundle with a password; `transfer::got_sealed` goes on.
    Seal { payload: J, password: S, path: S, count: Option<u64> },
    /// Write a file; `transfer::written` goes on.
    WriteExport { path: S, body: S, count: Option<u64> },
    /// Look into files that were sent; `transfer::import_candidates` goes on.
    ImportFiles { files: J },
    /// Open sealed files and import what they hold; `transfer::sealed_files`, `sort_opened` and
    /// `imported` go on.
    ImportSealed { files: J, password: S },
    /// Look up the login services; `oauth::got_providers` goes on.
    Providers { provider: S },
    /// Look up the proxy for logins; `oauth::got_auth_proxy` goes on.
    AuthProxy { provider: S },
    /// Check the address of the proxy; `oauth::proxy_checked` goes on.
    CheckProxy { provider: S, url: S },
    /// Log the line and open a login at the service; `oauth::got_flow` goes on.
    InitFlow { provider: S, flow: S, mid: S, note: Note<S> },
    /// Log the line and start asking about the login; `oauth::polling` goes on.
    SpawnPoll { job: PollJob<S>, authorize_url: S, note: Note<S> },
}

/// A step as it is carried.
pub type TextStep = Step<String, Json>;

/// A step as contracts speak of it.
pub type StepView = Step<Seq<char>, crate::json::JsonView>;

/// What a step is.
pub open spec fn step_view(s: TextStep) -> StepView {
    match s {
        Step::Done(d) => Step::Done(done_view(d)),
        Step::Ask(a) => Step::Ask(ask_view(a)),
        Step::Tell(t) => Step::Tell(tell_view(t)),
        Step::HotSwitch { id, force, restart } => Step::HotSwitch { id: id@, force, restart },
        Step::ModelStatus => Step::ModelStatus,
        Step::KillClient => Step::KillClient,
        Step::ClientPath => Step::ClientPath,
        Step::DeviceMid { id, goal } => Step::DeviceMid { id: id@, goal: goal_view(goal) },
        Step::ClaimAccount { id, mid, goal } => Step::ClaimAccount {
            id: id@,
            mid: mid@,
            goal: goal_view(goal),
        },
        Step::Plans { account, mid, goal } => Step::Plans {
            account: claim_account_view(account),
            mid: mid@,
            goal: goal_view(goal),
        },
        Step::SubmitClaim { pending, param, region } => Step::SubmitClaim {
            pending: pending_claim_view(pending),
            param: param@,
            region: opt_text(region),
        },
        Step::ClaimOutcome(c) => Step::ClaimOutcome(claim_outcome_view(c)),
        Step::ClaimFailure { account_id, account_name, plan_name, error } => Step::ClaimFailure {
            account_id: account_id@,
            account_name: account_name@,
            plan_name: plan_name@,
            error: error@,
        },
        Step::ParseProxy { on, url } => Step::ParseProxy { on, url: url@ },
        Step::ParseLanguage { lang } => Step::ParseLanguage { lang: lang@ },
        Step::NormalizePath { path } => Step::NormalizePath { path: path@ },
        Step::SaveSettings { change, after } => Step::SaveSettings {
            change: change_view(change),
            after: after_save_view(after),
        },
        Step::UseLanguage { lang } => Step::UseLanguage { lang: lang@ },
        Step::ExportName { id } => Step::ExportName { id: id@ },
        Step::ExportDir { name } => Step::ExportDir { name: name@ },
        Step::CountAccounts => Step::CountAccounts,
        Step::ExportAllDir { accounts } => Step::ExportAllDir { accounts },
        Step::Bundle { source, path, password } => Step::Bundle {
            source: source_view(source),
            path: path@,
            password: password@,
        },
        Step::Seal { payload, password, path, count } => Step::Seal {
            payload: payload@,
            password: password@,
            path: path@,
            count,
        },
        Step::WriteExport { path, body, count } => Step::WriteExport {
            path: path@,
            body: body@,
            count,
        },
        Step::ImportFiles { files } => Step::ImportFiles { files: files@ },
        Step::ImportSealed { files, password } => Step::ImportSealed {
            files: files@,
            password: password@,
        },
        Step::Providers { provider } => Step::Providers { provider: provider@ },
        Step::AuthProxy { provider } => Step::AuthProxy { provider: provider@ },
        Step::CheckProxy { provider, url } => Step::CheckProxy { provider: provider@, url: url@ },
        Step::InitFlow { provider, flow, mid, note } => Step::InitFlow {
            provider: provider@,
            flow: flow@,
            mid: mid@,
            note: note_view(note),
        },
        Step::SpawnPoll { job, authorize_url, note } => Step::SpawnPoll {
            job: poll_job_view(job),
            authorize_url: authorize_url@,
            note: note_view(note),
        },
    }
}

/// The end of a command that went well.
pub open spec fn ended(v: crate::json::JsonView) -> StepView {
    Step::Done(Done { note: None, emit: None, result: Ok(v) })
}

/// The end of a command that failed.
pub open spec fn failed(f: Failure<Seq<char>>) -> StepView {
    Step::Done(Done { note: None, emit: None, result: Err(f) })
}

/// The end of a command that went well.
pub fn done(v: Json) -> (r: TextStep)
    ensures
        step_view(r) == ended(v@),
{
    Step::Done(Done { note: None, emit: None, result: Ok(v) })
}

/// The end of a command that failed.
pub fn fail(f: Failure<String>) -> (r: TextStep)
    ensures
        step_view(r) == failed(crate::failure::failure_view(f)),
{
    Step::Done(Done { note: None, emit: None, result: Err(f) })
}

/// The end of a command that failed in words that are told as they are.
pub fn fail_text(e: String) -> (r: TextStep)
    ensures
        step_view(r) == failed(Failure::Text(e@)),
{
    fail(Failure::Text(e))
}

// Laws.

/// A command that went well ends with its answer, and one that failed with its failure; neither
/// logs a line or tells the pages anything.
pub proof fn law_ends(v: crate::json::JsonView, f: Failure<Seq<char>>)
    ensures
        ended(v) matches Step::Done(d) && d.note is None && d.emit is None
            && (d.result matches Ok(w)
            && w == v),
        failed(f) matches Step::Done(d) && d.note is None && d.emit is None
            && (d.result matches Err(g)
            && g == f),
{
}

/// What is carried of a text, a value or an answer from outside is shown as it is.
pub proof fn law_plain_parts(s: String, j: Json, n: Note<String>)
    ensures
        opt_text(Some(s)) == Some(s@),
        opt_text(None) is None,
        opt_json(Some(j)) == Some(j@),
        opt_json(None) is None,
        text_result(Ok(s)) matches Ok(t) && t == s@,
        text_result(Err(s)) matches Err(t) && t == s@,
        json_result(Ok(j)) matches Ok(v) && v == j@,
        json_result(Err(s)) matches Err(t) && t == s@,
        unit_result(Ok(())) is Ok,
        unit_result(Err(s)) matches Err(t) && t == s@,
        note_view(n).flow == n.flow@,
        note_view(n).stage == n.stage@,
        note_view(n).detail == n.detail@,
        opt_note(Some(n)) == Some(note_view(n)),
        opt_note(None) is None,
{
}

/// The end of a command that is carried shows its line for the log, its event and its result.
pub proof fn law_done_parts(d: Done<String, Json>)
    ensures
        done_view(d).note == opt_note(d.note),
        d.emit matches Some((event, payload)) ==> done_view(d).emit == Some((event@, payload@)),
        d.emit is None ==> done_view(d).emit is None,
        d.result matches Ok(v) ==> (done_view(d).result matches Ok(w) && w == v@),
        d.result matches Err(f) ==> (done_view(d).result matches Err(g) && g
            == crate::failure::failure_view(f)),
{
}

/// What is remembered and what a claim needs, waits with and leads to show each of their parts.
pub proof fn law_session_parts(
    s: TextSession,
    a: ClaimAccount<String, Json>,
    p: PendingClaim<String, Json>,
    o: PendingOAuth<String>,
    c: ClaimOutcome<String>,
)
    ensures
        s.claim is None ==> session_view(s).claim is None,
        s.claim matches Some(w) ==> session_view(s).claim == Some(pending_claim_view(w)),
        s.oauth is None ==> session_view(s).oauth is None,
        s.oauth matches Some(w) ==> session_view(s).oauth == Some(pending_oauth_view(w)),
        claim_account_view(a).id == a.id@,
        claim_account_view(a).name == a.name@,
        claim_account_view(a).credentials == a.credentials@,
        claim_account_view(a).config == opt_json(a.config),
        pending_claim_view(p).account_id == p.account_id@,
        pending_claim_view(p).account_name == p.account_name@,
        pending_claim_view(p).plan_id == p.plan_id@,
        pending_claim_view(p).plan_name == p.plan_name@,
        pending_claim_view(p).credentials == p.credentials@,
        pending_claim_view(p).config == opt_json(p.config),
        pending_claim_view(p).device_mid == p.device_mid@,
        pending_oauth_view(o).provider == o.provider@,
        pending_oauth_view(o).state == o.state@,
        pending_oauth_view(o).flow == o.flow@,
        claim_outcome_view(c).account_id == c.account_id@,
        claim_outcome_view(c).account_name == c.account_name@,
        claim_outcome_view(c).plan_name == c.plan_name@,
        claim_outcome_view(c).starts_at == c.starts_at,
        claim_outcome_view(c).ends_at == c.ends_at,
        claim_outcome_view(c).server_time == c.server_time,
{
}

/// A login that is asked about shows each of its parts.
pub proof fn law_poll_job_parts(p: PollJob<String>)
    ensures
        poll_job_view(p).provider == p.provider@,
        poll_job_view(p).flow == p.flow@,
        poll_job_view(p).mid == p.mid@,
        poll_job_view(p).url == p.url@,
        poll_job_view(p).token == p.token@,
        poll_job_view(p).expires_at_ms == p.expires_at_ms,
        poll_job_view(p).interval_ms == p.interval_ms,
{
}

/// A question shows each of its parts.
pub proof fn law_ask_parts(x: Ask<String>)
    ensures
        match x {
            Ask::State => ask_view(x) is State,
            Ask::AppVersion => ask_view(x) is AppVersion,
            Ask::CaptureCurrent { label } => ask_view(x) matches Ask::CaptureCurrent { label: v0 }
                && v0 == opt_text(label),
            Ask::Rename { id, name } => ask_view(x) matches Ask::Rename { id: v0, name: v1 }
                && v0 == id@ && v1 == name@,
            Ask::UpdateFromLive { id } => ask_view(x) matches Ask::UpdateFromLive { id: v0 }
                && v0 == id@,
            Ask::SwitchTo { id, force, restart, hot } =>
                ask_view(x) matches Ask::SwitchTo { id: v0, force: v1, restart: v2, hot: v3 }
                && v0 == id@ && v1 == force && v2 == restart && v3 == hot,
            Ask::LiveQuota => ask_view(x) is LiveQuota,
            Ask::AccountQuota { id } => ask_view(x) matches Ask::AccountQuota { id: v0 }
                && v0 == id@,
            Ask::CaptchaConfig => ask_view(x) is CaptchaConfig,
            Ask::OAuthProviders => ask_view(x) is OAuthProviders,
        },
{
}

/// An order shows each of its parts.
pub proof fn law_tell_parts(x: Tell<String>)
    ensures
        match x {
            Tell::Delete { id } => tell_view(x) matches Tell::Delete { id: v0 } && v0 == id@,
            Tell::OpenUrl { url } => tell_view(x) matches Tell::OpenUrl { url: v0 } && v0 == url@,
            Tell::Launch { path } => tell_view(x) matches Tell::Launch { path: v0 } && v0 == path@,
        },
{
}

/// A goal shows each of its parts.
pub proof fn law_goal_parts(x: Goal<String>)
    ensures
        match x {
            Goal::Preview => goal_view(x) is Preview,
            Goal::Refresh => goal_view(x) is Refresh,
            Goal::Start { plan_id } => goal_view(x) matches Goal::Start { plan_id: v0 }
                && v0 == plan_id@,
        },
{
}

/// A change of the settings shows each of its parts.
pub proof fn law_change_parts(x: Change<String>)
    ensures
        match x {
            Change::Proxy { on, url } => change_view(x) matches Change::Proxy { on: v0, url: v1 }
                && v0 == on && v1 == opt_text(url),
            Change::Behavior { launch_after_switch, close_to_tray, hot_switch, auto_claim,
                auto_switch } =>
                change_view(
                x) matches Change::Behavior { launch_after_switch: v0, close_to_tray: v1,
                hot_switch: v2, auto_claim: v3, auto_switch: v4 } && v0 == launch_after_switch
                && v1 == close_to_tray && v2 == hot_switch && v3 == auto_claim && v4 == auto_switch,
            Change::Language(a) => change_view(x) matches Change::Language(v) && v == a@,
            Change::Theme(a) => change_view(x) matches Change::Theme(v) && v == a@,
            Change::ClientPath(a) => change_view(x) matches Change::ClientPath(v)
                && v == opt_text(a),
        },
{
}

/// What follows a save shows each of its parts.
pub proof fn law_after_save_parts(x: AfterSave<String>)
    ensures
        match x {
            AfterSave::TellIfSaved => after_save_view(x) is TellIfSaved,
            AfterSave::TellAlways => after_save_view(x) is TellAlways,
            AfterSave::UseLanguage(a) => after_save_view(x) matches AfterSave::UseLanguage(v)
                && v == a@,
        },
{
}

/// Which accounts are exported shows each of its parts.
pub proof fn law_source_parts(x: Source<String>)
    ensures
        match x {
            Source::One { id } => source_view(x) matches Source::One { id: v0 } && v0 == id@,
            Source::All => source_view(x) is All,
        },
{
}

/// A step that is carried shows each of its parts.
pub proof fn law_step_parts(x: TextStep)
    ensures
        match x {
            Step::Done(a) => step_view(x) matches Step::Done(v) && v == done_view(a),
            Step::Ask(a) => step_view(x) matches Step::Ask(v) && v == ask_view(a),
            Step::Tell(a) => step_view(x) matches Step::Tell(v) && v == tell_view(a),
            Step::HotSwitch { id, force, restart } =>
                step_view(x) matches Step::HotSwitch { id: v0, force: v1, restart: v2 } && v0 == id@
                && v1 == force && v2 == restart,
            Step::ModelStatus => step_view(x) is ModelStatus,
            Step::KillClient => step_view(x) is KillClient,
            Step::ClientPath => step_view(x) is ClientPath,
            Step::DeviceMid { id, goal } =>
                step_view(x) matches Step::DeviceMid { id: v0, goal: v1 } && v0 == id@
                && v1 == goal_view(goal),
            Step::ClaimAccount { id, mid, goal } =>
                step_view(x) matches Step::ClaimAccount { id: v0, mid: v1, goal: v2 } && v0 == id@
                && v1 == mid@ && v2 == goal_view(goal),
            Step::Plans { account, mid, goal } =>
                step_view(x) matches Step::Plans { account: v0, mid: v1, goal: v2 }
                && v0 == claim_account_view(account) && v1 == mid@ && v2 == goal_view(goal),
            Step::SubmitClaim { pending, param, region } =>
                step_view(x) matches Step::SubmitClaim { pending: v0, param: v1, region: v2 }
                && v0 == pending_claim_view(pending) && v1 == param@ && v2 == opt_text(region),
            Step::ClaimOutcome(a) => step_view(x) matches Step::ClaimOutcome(v)
                && v == claim_outcome_view(a),
            Step::ClaimFailure { account_id, account_name, plan_name, error } =>
                step_view(
                x) matches Step::ClaimFailure { account_id: v0, account_name: v1, plan_name: v2,
                error: v3 } && v0 == account_id@ && v1 == account_name@ && v2 == plan_name@
                && v3 == error@,
            Step::ParseProxy { on, url } =>
                step_view(x) matches Step::ParseProxy { on: v0, url: v1 } && v0 == on && v1 == url@,
            Step::ParseLanguage { lang } => step_view(x) matches Step::ParseLanguage { lang: v0 }
                && v0 == lang@,
            Step::NormalizePath { path } => step_view(x) matches Step::NormalizePath { path: v0 }
                && v0 == path@,
            Step::SaveSettings { change, after } =>
                step_view(x) matches Step::SaveSettings { change: v0, after: v1 }
                && v0 == change_view(change) && v1 == after_save_view(after),
            Step::UseLanguage { lang } => step_view(x) matches Step::UseLanguage { lang: v0 }
                && v0 == lang@,
            Step::ExportName { id } => step_view(x) matches Step::ExportName { id: v0 }
                && v0 == id@,
            Step::ExportDir { name } => step_view(x) matches Step::ExportDir { name: v0 }
                && v0 == name@,
            Step::CountAccounts => step_view(x) is CountAccounts,
            Step::ExportAllDir { accounts } =>
                step_view(x) matches Step::ExportAllDir { accounts: v0 } && v0 == accounts,
            Step::Bundle { source, path, password } =>
                step_view(x) matches Step::Bundle { source: v0, path: v1, password: v2 }
                && v0 == source_view(source) && v1 == path@ && v2 == password@,
            Step::Seal { payload, password, path, count } =>
                step_view(x) matches Step::Seal { payload: v0, password: v1, path: v2, count: v3 }
                && v0 == payload@ && v1 == password@ && v2 == path@ && v3 == count,
            Step::WriteExport { path, body, count } =>
                step_view(x) matches Step::WriteExport { path: v0, body: v1, count: v2 }
                && v0 == path@ && v1 == body@ && v2 == count,
            Step::ImportFiles { files } => step_view(x) matches Step::ImportFiles { files: v0 }
                && v0 == files@,
            Step::ImportSealed { files, password } =>
                step_view(x) matches Step::ImportSealed { files: v0, password: v1 } && v0 == files@
                && v1 == password@,
            Step::Providers { provider } => step_view(x) matches Step::Providers { provider: v0 }
                && v0 == provider@,
            Step::AuthProxy { provider } => step_view(x) matches Step::AuthProxy { provider: v0 }
                && v0 == provider@,
            Step::CheckProxy { provider, url } =>
                step_view(x) matches Step::CheckProxy { provider: v0, url: v1 } && v0 == provider@
                && v1 == url@,
            Step::InitFlow { provider, flow, mid, note } =>
                step_view(x) matches Step::InitFlow { provider: v0, flow: v1, mid: v2, note: v3 }
                && v0 == provider@ && v1 == flow@ && v2 == mid@ && v3 == note_view(note),
            Step::SpawnPoll { job, authorize_url, note } =>
                step_view(x) matches Step::SpawnPoll { job: v0, authorize_url: v1, note: v2 }
                && v0 == poll_job_view(job) && v1 == authorize_url@ && v2 == note_view(note),
        },
{
}

} // verus!
