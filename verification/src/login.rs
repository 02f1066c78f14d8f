//! Storing a login that was completed: what is made of its data, and which account it becomes.

use vstd::prelude::*;

use crate::failure::Failure;
use crate::json::Json;
use crate::oauth::{fresh_id, ours};
use crate::step::{Session, TextSession};
use crate::text::{concat3, same, trim};

verus! {

/// An account of the library.
#[derive(Debug)]
pub struct Account<S, J> {
    pub id: S,
    pub name: S,
    pub created_at: S,
    pub updated_at: S,
    pub hash: S,
    pub credentials: J,
    pub config: Option<J>,
    pub virtual_device_mid: Option<S>,
    pub virtual_arms_uid: Option<S>,
}

/// An account as contracts speak of it.
pub type AccountView = Account<Seq<char>, crate::json::JsonView>;

/// What an account is.
pub open spec fn account_view(a: Account<String, Json>) -> AccountView {
    Account {
        id: a.id@,
        name: a.name@,
        created_at: a.created_at@,
        updated_at: a.updated_at@,
        hash: a.hash@,
        credentials: a.credentials@,
        config: crate::step::opt_json(a.config),
        virtual_device_mid: crate::step::opt_text(a.virtual_device_mid),
        virtual_arms_uid: crate::step::opt_text(a.virtual_arms_uid),
    }
}

/// A login that was completed. `raw` is what the service sent, `jwt` the token in it.
#[derive(Debug)]
pub struct Login<S, J> {
    pub provider: S,
    pub raw: J,
    pub flow: S,
    pub mid: S,
    pub poll_ready: bool,
    pub jwt: S,
}

/// A login as it is carried.
pub type TextLogin = Login<String, Json>;

/// A login as contracts speak of it.
pub type LoginView = Login<Seq<char>, crate::json::JsonView>;

/// What a login is.
pub open spec fn login_view(l: TextLogin) -> LoginView {
    Login {
        provider: l.provider@,
        raw: l.raw@,
        flow: l.flow@,
        mid: l.mid@,
        poll_ready: l.poll_ready,
        jwt: l.jwt@,
    }
}

/// A step of storing a login. From `Lock` on, the library of accounts is locked until the end.
#[derive(Debug)]
pub enum LoginStep<S, J> {
    /// The login was not stored.
    Failed(Failure<S>),
    /// The login was stored; the answer for the pages.
    Done(J),
    /// Look for the access token in the login; `got_access` goes on.
    AccessToken(Login<S, J>),
    /// Get the business token for an access token; `got_business` goes on.
    BusinessToken { login: Login<S, J>, raw_access: S },
    /// Look for the profile in the login, in the way of an asked-about login if `poll_ready`;
    /// `got_profile` goes on.
    Profile { login: Login<S, J>, access: S },
    /// Ask the service for the profile; `got_user_info` goes on.
    UserInfo { login: Login<S, J>, access: S },
    /// Make the credentials of the login, its profile, the token and the refresh token in the
    /// login, and the configuration of the login and the access token; `assembled` goes on.
    Assemble { login: Login<S, J>, access: S, token: Option<S>, profile: Option<J> },
    /// Lock the library; `locked` goes on.
    Lock { login: Login<S, J>, credentials: J, config: J },
    /// Look for the account of the credentials; `matched` goes on.
    Match { login: Login<S, J>, credentials: J, config: J },
    /// Find a name like `base` that no account has, and look up the time; `named` goes on.
    Name { login: Login<S, J>, credentials: J, config: J, hash: S, base: S },
    /// Save the account; `stored` goes on.
    Save { account: Account<S, J>, answer: J },
}

/// A step of storing a login, as it is carried.
pub type TextLoginStep = LoginStep<String, Json>;

/// A step of storing a login, as contracts speak of it.
pub type LoginStepView = LoginStep<Seq<char>, crate::json::JsonView>;

/// What a step of storing a login is.
pub open spec fn login_step_view(s: TextLoginStep) -> LoginStepView {
    match s {
        LoginStep::Failed(f) => LoginStep::Failed(crate::failure::failure_view(f)),
        LoginStep::Done(v) => LoginStep::Done(v@),
        LoginStep::AccessToken(l) => LoginStep::AccessToken(login_view(l)),
        LoginStep::BusinessToken { login, raw_access } => LoginStep::BusinessToken {
            login: login_view(login),
            raw_access: raw_access@,
        },
        LoginStep::Profile { login, access } => LoginStep::Profile {
            login: login_view(login),
            access: access@,
        },
        LoginStep::UserInfo { login, access } => LoginStep::UserInfo {
            login: login_view(login),
            access: access@,
        },
        LoginStep::Assemble { login, access, token, profile } => LoginStep::Assemble {
            login: login_view(login),
            access: access@,
            token: crate::step::opt_text(token),
            profile: crate::step::opt_json(profile),
        },
        LoginStep::Lock { login, credentials, config } => LoginStep::Lock {
            login: login_view(login),
            credentials: credentials@,
            config: config@,
        },
        LoginStep::Match { login, credentials, config } => LoginStep::Match {
            login: login_view(login),
            credentials: credentials@,
            config: config@,
        },
        LoginStep::Name { login, credentials, config, hash, base } => LoginStep::Name {
            login: login_view(login),
            credentials: credentials@,
            config: config@,
            hash: hash@,
            base: base@,
        },
        LoginStep::Save { account, answer } => LoginStep::Save {
            account: account_view(account),
            answer: answer@,
        },
    }
}

/// The failure of a login that another one took the place of.
pub open spec fn superseded_step() -> LoginStepView {
    LoginStep::Failed(Failure::Text(crate::oauth::superseded()))
}

fn superseded() -> (r: TextLoginStep)
    ensures
        login_step_view(r) == superseded_step(),
{
    LoginStep::Failed(Failure::Text("__superseded__".to_owned()))
}

// What the login holds.

/// The token of a login: the text at `data`, `token`, without white space around it.
pub open spec fn token_of(raw: crate::json::JsonView) -> Option<Seq<char>> {
    match raw.member("data"@) {
        Some(data) => match data.text_member("token"@) {
            Some(t) => if crate::text::trimmed(t).len() > 0 {
                Some(crate::text::trimmed(t))
            } else {
                None
            },
            None => None,
        },
        None => None,
    }
}

fn token(raw: &Json) -> (r: Option<String>)
    ensures
        crate::step::opt_text(r) == token_of(raw@),
{
    match raw.get("data") {
        Some(data) => match data.get_text("token") {
            Some(t) => {
                let jwt = trim(t);
                if jwt.as_str().is_empty() {
                    None
                } else {
                    Some(jwt)
                }
            },
            None => None,
        },
        None => None,
    }
}

/// The first step of storing a login.
pub open spec fn login_start(
    s: crate::step::SessionView,
    provider: Seq<char>,
    raw: crate::json::JsonView,
    flow: Seq<char>,
    mid: Seq<char>,
    poll_ready: bool,
) -> LoginStepView {
    if !crate::oauth::still_ours(s, flow) {
        superseded_step()
    } else {
        match token_of(raw) {
            Some(jwt) => LoginStep::AccessToken(
                Login { provider, raw, flow, mid, poll_ready, jwt },
            ),
            None => LoginStep::Failed(Failure::NoToken),
        }
    }
}

/// Starts to store a login that was completed.
pub fn start_login(
    session: &TextSession,
    provider: String,
    raw: Json,
    flow: String,
    mid: String,
    poll_ready: bool,
) -> (r: TextLoginStep)
    ensures
        login_step_view(r) == login_start(
            crate::step::session_view(*session),
            provider@,
            raw@,
            flow@,
            mid@,
            poll_ready,
        ),
{
    if !ours(session, flow.as_str()) {
        return superseded();
    }
    match token(&raw) {
        Some(jwt) => LoginStep::AccessToken(Login { provider, raw, flow, mid, poll_ready, jwt }),
        None => LoginStep::Failed(Failure::NoToken),
    }
}

/// What follows the access token: a `zai` login is traded for a business token.
pub open spec fn with_access(login: LoginView, reply: Option<Seq<char>>) -> LoginStepView {
    let access = match reply {
        Some(t) => t,
        None => Seq::empty(),
    };
    if login.provider == "zai"@ && access.len() > 0 {
        LoginStep::BusinessToken { login, raw_access: access }
    } else {
        LoginStep::Profile { login, access }
    }
}

/// Goes on with the access token in a login. A login without one has an empty one.
pub fn got_access(login: TextLogin, reply: Option<String>) -> (r: TextLoginStep)
    ensures
        login_step_view(r) == with_access(login_view(login), crate::step::opt_text(reply)),
{
    let access = match reply {
        Some(t) => t,
        None => String::new(),
    };
    if same(login.provider.as_str(), "zai") && !access.as_str().is_empty() {
        LoginStep::BusinessToken { login, raw_access: access }
    } else {
        LoginStep::Profile { login, access }
    }
}

/// What follows the business token.
pub open spec fn with_business(login: LoginView, reply: Option<Seq<char>>) -> LoginStepView {
    match reply {
        Some(access) => LoginStep::Profile { login, access },
        None => LoginStep::Failed(Failure::NoBusinessToken),
    }
}

/// Goes on with the business token, which takes the place of the access token.
pub fn got_business(login: TextLogin, reply: Option<String>) -> (r: TextLoginStep)
    ensures
        login_step_view(r) == with_business(login_view(login), crate::step::opt_text(reply)),
{
    match reply {
        Some(access) => LoginStep::Profile { login, access },
        None => LoginStep::Failed(Failure::NoBusinessToken),
    }
}

/// The step that makes the credentials; an empty access token is left out of them.
pub open spec fn assembling(
    login: LoginView,
    access: Seq<char>,
    profile: Option<crate::json::JsonView>,
) -> LoginStepView {
    LoginStep::Assemble {
        login,
        access,
        token: if access.len() > 0 {
            Some(access)
        } else {
            None
        },
        profile,
    }
}

fn assemble(login: TextLogin, access: String, profile: Option<Json>) -> (r: TextLoginStep)
    ensures
        login_step_view(r) == assembling(
            login_view(login),
            access@,
            crate::step::opt_json(profile),
        ),
{
    let token = if access.as_str().is_empty() {
        None
    } else {
        Some(access.clone())
    };
    LoginStep::Assemble { login, access, token, profile }
}

/// What follows the search for a profile: the service is asked where there is none, if there is
/// an access token to ask with.
pub open spec fn with_profile(
    login: LoginView,
    access: Seq<char>,
    reply: Option<crate::json::JsonView>,
) -> LoginStepView {
    if reply is None && access.len() > 0 {
        LoginStep::UserInfo { login, access }
    } else {
        assembling(login, access, reply)
    }
}

/// Goes on with the profile in a login.
pub fn got_profile(login: TextLogin, access: String, reply: Option<Json>) -> (r: TextLoginStep)
    ensures
        login_step_view(r) == with_profile(
            login_view(login),
            access@,
            crate::step::opt_json(reply),
        ),
{
    if reply.is_none() && !access.as_str().is_empty() {
        LoginStep::UserInfo { login, access }
    } else {
        assemble(login, access, reply)
    }
}

/// Goes on with the profile that the service knows.
pub fn got_user_info(login: TextLogin, access: String, reply: Option<Json>) -> (r: TextLoginStep)
    ensures
        login_step_view(r) == assembling(
            login_view(login),
            access@,
            crate::step::opt_json(reply),
        ),
{
    assemble(login, access, reply)
}

/// Goes on when the credentials and the configuration are made.
pub fn assembled(login: TextLogin, credentials: Json, config: Json) -> (r: TextLoginStep)
    ensures
        login_step_view(r) == (LoginStep::Lock {
            login: login_view(login),
            credentials: credentials@,
            config: config@,
        }),
{
    LoginStep::Lock { login, credentials, config }
}

// Which account it becomes.

/// What follows when the library is locked.
pub open spec fn with_lock(
    s: crate::step::SessionView,
    login: LoginView,
    credentials: crate::json::JsonView,
    config: crate::json::JsonView,
) -> LoginStepView {
    if crate::oauth::still_ours(s, login.flow) {
        LoginStep::Match { login, credentials, config }
    } else {
        superseded_step()
    }
}

/// Goes on when the library is locked.
pub fn locked(
    session: &TextSession,
    login: TextLogin,
    credentials: Json,
    config: Json,
) -> (r: TextLoginStep)
    ensures
        login_step_view(r) == with_lock(
            crate::step::session_view(*session),
            login_view(login),
            credentials@,
            config@,
        ),
{
    if ours(session, login.flow.as_str()) {
        LoginStep::Match { login, credentials, config }
    } else {
        superseded()
    }
}

/// What is found for credentials. `hash` is theirs, and `now` the time.
#[derive(Debug)]
pub enum Found<S, J> {
    /// The account of the same login.
    Known { account: Account<S, J>, hash: S, now: S },
    /// No account.
    Unknown { hash: S },
}

/// What is found for credentials.
pub open spec fn found_view(f: Found<String, Json>) -> Found<Seq<char>, crate::json::JsonView> {
    match f {
        Found::Known { account, hash, now } => Found::Known {
            account: account_view(account),
            hash: hash@,
            now: now@,
        },
        Found::Unknown { hash } => Found::Unknown { hash: hash@ },
    }
}

/// The device of an account; `mid`, where it has none.
pub open spec fn device_of(own: Option<Seq<char>>, mid: Seq<char>) -> Seq<char> {
    match own {
        Some(m) => if crate::text::trimmed(m).len() > 0 {
            m
        } else {
            mid
        },
        None => mid,
    }
}

/// A known account after a new login.
pub open spec fn refreshed(
    account: AccountView,
    login: LoginView,
    credentials: crate::json::JsonView,
    config: crate::json::JsonView,
    hash: Seq<char>,
    now: Seq<char>,
) -> AccountView {
    Account {
        hash,
        credentials,
        config: Some(config),
        updated_at: now,
        virtual_device_mid: Some(device_of(account.virtual_device_mid, login.mid)),
        ..account
    }
}

/// The answer for the pages of a login to a known account.
pub open spec fn known_answer(account: AccountView, provider: Seq<char>) -> crate::json::JsonView {
    crate::json::object(
        seq![
            ("id"@, crate::json::JsonView::Text(account.id)),
            ("name"@, crate::json::JsonView::Text(account.name)),
            ("provider"@, crate::json::JsonView::Text(provider)),
            ("duplicate"@, crate::json::JsonView::Bool(true)),
        ],
    )
}

/// The answer for the pages of a login to a new account.
pub open spec fn new_answer(account: AccountView, provider: Seq<char>) -> crate::json::JsonView {
    crate::json::object(
        seq![
            ("id"@, crate::json::JsonView::Text(account.id)),
            ("name"@, crate::json::JsonView::Text(account.name)),
            ("provider"@, crate::json::JsonView::Text(provider)),
        ],
    )
}

/// The name for the account of a login: the user's, or else the service's.
pub open spec fn name_of(
    provider: Seq<char>,
    user: Option<crate::json::JsonView>,
) -> Seq<char> {
    match user {
        Some(u) => match u.text_member("username"@) {
            Some(name) => name,
            None => service_name(provider),
        },
        None => service_name(provider),
    }
}

/// The name of a service.
pub open spec fn service_name(provider: Seq<char>) -> Seq<char> {
    if provider == "zai"@ {
        "z.ai"@
    } else {
        "BigModel"@
    }
}

/// The name for the account of a login.
pub fn login_name(provider: &str, user: Option<&Json>) -> (r: String)
    ensures
        r@ == name_of(
            provider@,
            match user {
                Some(u) => Some(u@),
                None => None,
            },
        ),
{
    match user {
        Some(u) => match u.get_text("username") {
            Some(name) => {
                return name.to_owned();
            },
            None => {},
        },
        None => {},
    }
    if same(provider, "zai") {
        "z.ai".to_owned()
    } else {
        "BigModel".to_owned()
    }
}

/// The user in credentials: JSON in a text of its own.
pub open spec fn user_of(
    provider: Seq<char>,
    credentials: crate::json::JsonView,
) -> Option<crate::json::JsonView> {
    match credentials.text_member("oauth:"@ + provider + ":user_info"@) {
        Some(text) => match crate::json::parsed_text(text) {
            Ok(u) => Some(u),
            Err(e) => None,
        },
        None => None,
    }
}

/// The name for the account of credentials.
pub fn base_name(provider: &str, credentials: &Json) -> (r: String)
    ensures
        r@ == name_of(provider@, user_of(provider@, credentials@)),
{
    let key = concat3("oauth:", provider, ":user_info");
    match credentials.get_text(key.as_str()) {
        Some(text) => match Json::parse_text(text) {
            Ok(u) => login_name(provider, Some(&u)),
            Err(_) => login_name(provider, None),
        },
        None => login_name(provider, None),
    }
}

/// What follows the search for the account.
pub open spec fn with_match(
    s: crate::step::SessionView,
    login: LoginView,
    credentials: crate::json::JsonView,
    config: crate::json::JsonView,
    reply: Result<Found<Seq<char>, crate::json::JsonView>, Seq<char>>,
) -> LoginStepView {
    match reply {
        Err(e) => LoginStep::Failed(Failure::Text(e)),
        Ok(Found::Known { account, hash, now }) => if crate::oauth::still_ours(s, login.flow) {
            let a = refreshed(account, login, credentials, config, hash, now);
            LoginStep::Save { account: a, answer: known_answer(a, login.provider) }
        } else {
            superseded_step()
        },
        Ok(Found::Unknown { hash }) => LoginStep::Name {
            login,
            credentials,
            config,
            hash,
            base: name_of(login.provider, user_of(login.provider, credentials)),
        },
    }
}

fn device(own: Option<String>, mid: &str) -> (r: String)
    ensures
        r@ == device_of(crate::step::opt_text(own), mid@),
{
    match own {
        Some(m) => {
            let t = trim(m.as_str());
            if t.as_str().is_empty() {
                mid.to_owned()
            } else {
                m
            }
        },
        None => mid.to_owned(),
    }
}

/// Goes on with the account of the same login, or with none. A known account takes the new
/// credentials and keeps the rest.
pub fn matched(
    session: &TextSession,
    login: TextLogin,
    credentials: Json,
    config: Json,
    reply: Result<Found<String, Json>, String>,
) -> (r: TextLoginStep)
    ensures
        login_step_view(r) == with_match(
            crate::step::session_view(*session),
            login_view(login),
            credentials@,
            config@,
            match reply {
                Ok(f) => Ok(found_view(f)),
                Err(e) => Err(e@),
            },
        ),
{
    match reply {
        Err(e) => LoginStep::Failed(Failure::Text(e)),
        Ok(Found::Known { account, hash, now }) => {
            if !ours(session, login.flow.as_str()) {
                return superseded();
            }
            let ghost before = account_view(account);
            let ghost l = login_view(login);
            let ghost (cred, conf) = (credentials@, config@);
            let mid = device(account.virtual_device_mid, login.mid.as_str());
            let account = Account {
                id: account.id,
                name: account.name,
                created_at: account.created_at,
                updated_at: now,
                hash,
                credentials,
                config: Some(config),
                virtual_device_mid: Some(mid),
                virtual_arms_uid: account.virtual_arms_uid,
            };
            let entries = vec![
                ("id".to_owned(), Json::Text(account.id.clone())),
                ("name".to_owned(), Json::Text(account.name.clone())),
                ("provider".to_owned(), Json::Text(login.provider)),
                ("duplicate".to_owned(), Json::Bool(true)),
            ];
            proof {
                assert(account_view(account) == refreshed(before, l, cred, conf, hash@, now@));
                assert(crate::json::entry_views(entries@) =~= seq![
                    ("id"@, crate::json::JsonView::Text(before.id)),
                    ("name"@, crate::json::JsonView::Text(before.name)),
                    ("provider"@, crate::json::JsonView::Text(l.provider)),
                    ("duplicate"@, crate::json::JsonView::Bool(true)),
                ]);
            }
            LoginStep::Save { account, answer: Json::Object(entries) }
        },
        Ok(Found::Unknown { hash }) => {
            let base = base_name(login.provider.as_str(), &credentials);
            LoginStep::Name { login, credentials, config, hash, base }
        },
    }
}

/// What a new account is given: a name that no other has, the time, and a fresh user number.
#[derive(Debug)]
pub struct Naming<S> {
    pub name: S,
    pub now: S,
    pub arms_uid: S,
}

/// What a new account is given.
pub open spec fn naming_view(n: Naming<String>) -> Naming<Seq<char>> {
    Naming { name: n.name@, now: n.now@, arms_uid: n.arms_uid@ }
}

/// The account of a login that no account has.
pub open spec fn new_account(
    login: LoginView,
    credentials: crate::json::JsonView,
    config: crate::json::JsonView,
    hash: Seq<char>,
    naming: Naming<Seq<char>>,
    id: Seq<char>,
) -> AccountView {
    Account {
        id,
        name: naming.name,
        created_at: naming.now,
        updated_at: naming.now,
        hash,
        credentials,
        config: Some(config),
        virtual_device_mid: Some(login.mid),
        virtual_arms_uid: Some(naming.arms_uid),
    }
}

/// What follows the naming of a new account.
pub open spec fn with_name(
    s: crate::step::SessionView,
    login: LoginView,
    credentials: crate::json::JsonView,
    config: crate::json::JsonView,
    hash: Seq<char>,
    naming: Naming<Seq<char>>,
    id: Seq<char>,
) -> LoginStepView {
    if crate::oauth::still_ours(s, login.flow) {
        let a = new_account(login, credentials, config, hash, naming, id);
        LoginStep::Save { account: a, answer: new_answer(a, login.provider) }
    } else {
        superseded_step()
    }
}

/// Goes on with the name of a new account and its identifier.
pub fn named_with(
    session: &TextSession,
    login: TextLogin,
    credentials: Json,
    config: Json,
    hash: String,
    naming: Naming<String>,
    id: String,
) -> (r: TextLoginStep)
    ensures
        login_step_view(r) == with_name(
            crate::step::session_view(*session),
            login_view(login),
            credentials@,
            config@,
            hash@,
            naming_view(naming),
            id@,
        ),
{
    if !ours(session, login.flow.as_str()) {
        return superseded();
    }
    let ghost l = login_view(login);
    let account = Account {
        id,
        name: naming.name,
        created_at: naming.now.clone(),
        updated_at: naming.now,
        hash,
        credentials,
        config: Some(config),
        virtual_device_mid: Some(login.mid),
        virtual_arms_uid: Some(naming.arms_uid),
    };
    let entries = vec![
        ("id".to_owned(), Json::Text(account.id.clone())),
        ("name".to_owned(), Json::Text(account.name.clone())),
        ("provider".to_owned(), Json::Text(login.provider)),
    ];
    proof {
        assert(crate::json::entry_views(entries@) =~= seq![
            ("id"@, crate::json::JsonView::Text(id@)),
            ("name"@, crate::json::JsonView::Text(naming.name@)),
            ("provider"@, crate::json::JsonView::Text(l.provider)),
        ]);
    }
    LoginStep::Save { account, answer: Json::Object(entries) }
}

/// Goes on with the name of a new account, which gets a random identifier.
pub fn named(
    session: &TextSession,
    login: TextLogin,
    credentials: Json,
    config: Json,
    hash: String,
    naming: Naming<String>,
) -> (r: TextLoginStep)
    ensures
        exists|id: Seq<char>|
            crate::oauth::is_uuid(id) && login_step_view(r) == #[trigger] with_name(
                crate::step::session_view(*session),
                login_view(login),
                credentials@,
                config@,
                hash@,
                naming_view(naming),
                id,
            ),
{
    let id = fresh_id();
    named_with(session, login, credentials, config, hash, naming, id)
}

/// What follows when the account was saved, or could not be, and what is remembered then.
pub open spec fn after_store(
    s: crate::step::SessionView,
    answer: crate::json::JsonView,
    reply: Result<(), Seq<char>>,
) -> (LoginStepView, crate::step::SessionView) {
    match reply {
        Ok(_) => (LoginStep::Done(answer), Session { oauth: None, ..s }),
        Err(e) => (LoginStep::Failed(Failure::Text(e)), s),
    }
}

/// The login is not waited for any more once its account was saved.
pub fn stored(
    session: &mut TextSession,
    answer: Json,
    reply: Result<(), String>,
) -> (r: TextLoginStep)
    ensures
        (login_step_view(r), crate::step::session_view(*final(session))) == after_store(
            crate::step::session_view(*old(session)),
            answer@,
            crate::step::unit_result(reply),
        ),
{
    match reply {
        Ok(_) => {
            session.oauth = None;
            LoginStep::Done(answer)
        },
        Err(e) => LoginStep::Failed(Failure::Text(e)),
    }
}

// Laws.

/// A login that another one took the place of is never saved: at each place where the next step
/// could be to save, it fails instead, or the next place is reached.
pub proof fn law_replaced_login_is_not_saved(
    s: crate::step::SessionView,
    login: LoginView,
    credentials: crate::json::JsonView,
    config: crate::json::JsonView,
    reply: Result<Found<Seq<char>, crate::json::JsonView>, Seq<char>>,
    hash: Seq<char>,
    naming: Naming<Seq<char>>,
    id: Seq<char>,
)
    requires
        !crate::oauth::still_ours(s, login.flow),
    ensures
        login_start(s, login.provider, login.raw, login.flow, login.mid, login.poll_ready)
            == superseded_step(),
        with_lock(s, login, credentials, config) == superseded_step(),
        !(with_match(s, login, credentials, config, reply) is Save),
        with_name(s, login, credentials, config, hash, naming, id) == superseded_step(),
{
}

/// A login that was asked about and is ready brings its token: the text under `token` in what the
/// service sent.
pub proof fn law_ready_login_brings_its_token(data: crate::json::JsonView)
    ensures
        token_of(crate::oauth::login_value(data)) == match data.text_member("token"@) {
            Some(t) => if crate::text::trimmed(t).len() > 0 {
                Some(crate::text::trimmed(t))
            } else {
                None
            },
            None => None,
        },
{
    let entries = seq![
        ("code"@, crate::json::JsonView::Number(crate::json::number_of(0))),
        ("data"@, data),
    ];
    crate::json::lemma_entries_map_at(entries, 1);
}

/// A login that was stored is not waited for any more; one that could not be stored still is.
pub proof fn law_stored_login_is_forgotten(
    s: crate::step::SessionView,
    flow: Seq<char>,
    answer: crate::json::JsonView,
    error: Seq<char>,
)
    ensures
        !crate::oauth::still_ours(after_store(s, answer, Ok(())).1, flow),
        after_store(s, answer, Err(error)).1 == s,
{
}

/// A login to a known account keeps who the account is, and takes everything that the login
/// brought.
pub proof fn law_known_account_stays_itself(
    s: crate::step::SessionView,
    login: LoginView,
    credentials: crate::json::JsonView,
    config: crate::json::JsonView,
    account: AccountView,
    hash: Seq<char>,
    now: Seq<char>,
)
    ensures
        with_match(
            s,
            login,
            credentials,
            config,
            Ok(Found::Known { account, hash, now }),
        ) matches LoginStep::Save { account: saved, answer } ==> {
            &&& saved.id == account.id
            &&& saved.name == account.name
            &&& saved.created_at == account.created_at
            &&& saved.virtual_arms_uid == account.virtual_arms_uid
            &&& saved.hash == hash
            &&& saved.credentials == credentials
            &&& saved.config == Some(config)
            &&& saved.updated_at == now
        },
{
}

/// Logging in once more changes nothing: the account after a login, refreshed by the same login at
/// the same time, is itself.
pub proof fn law_refreshing_is_idempotent(
    account: AccountView,
    login: LoginView,
    credentials: crate::json::JsonView,
    config: crate::json::JsonView,
    hash: Seq<char>,
    now: Seq<char>,
)
    ensures
        ({
            let once = refreshed(account, login, credentials, config, hash, now);
            refreshed(once, login, credentials, config, hash, now) == once
        }),
{
}

/// An account that a login leads to has a device: its own, or the login's.
pub proof fn law_saved_account_has_a_device(
    s: crate::step::SessionView,
    login: LoginView,
    credentials: crate::json::JsonView,
    config: crate::json::JsonView,
    reply: Result<Found<Seq<char>, crate::json::JsonView>, Seq<char>>,
    hash: Seq<char>,
    naming: Naming<Seq<char>>,
    id: Seq<char>,
)
    requires
        crate::text::trimmed(login.mid).len() > 0,
    ensures
        with_match(s, login, credentials, config, reply) matches LoginStep::Save { account, answer }
            ==> account.virtual_device_mid is Some && crate::text::trimmed(
            account.virtual_device_mid->0,
        ).len() > 0,
        with_name(s, login, credentials, config, hash, naming, id) matches LoginStep::Save {
            account,
            answer,
        } ==> account.virtual_device_mid == Some(login.mid),
{
}

/// The pages can tell a login to a known account from one to a new account.
pub proof fn law_answers_differ(account: AccountView, provider: Seq<char>)
    ensures
        known_answer(account, provider).member("duplicate"@) is Some,
        new_answer(account, provider).member("duplicate"@) is None,
{
    reveal_strlit("id");
    reveal_strlit("name");
    reveal_strlit("provider");
    reveal_strlit("duplicate");
    let known = seq![
        ("id"@, crate::json::JsonView::Text(account.id)),
        ("name"@, crate::json::JsonView::Text(account.name)),
        ("provider"@, crate::json::JsonView::Text(provider)),
        ("duplicate"@, crate::json::JsonView::Bool(true)),
    ];
    let fresh = seq![
        ("id"@, crate::json::JsonView::Text(account.id)),
        ("name"@, crate::json::JsonView::Text(account.name)),
        ("provider"@, crate::json::JsonView::Text(provider)),
    ];
    crate::json::lemma_entries_map_at(known, 3);
    crate::json::lemma_entries_map(fresh, "duplicate"@);
    assert("duplicate"@.len() == 9 && "id"@.len() == 2 && "name"@.len() == 4 && "provider"@.len()
        == 8);
}

// The course of storing a login.

/// Everything that is found in the course of storing a login: what is remembered at each look, and
/// what each piece of outside work gives.
pub struct Findings {
    pub at_start: crate::step::SessionView,
    pub access: Option<Seq<char>>,
    pub business: Option<Seq<char>>,
    pub profile: Option<crate::json::JsonView>,
    pub user_info: Option<crate::json::JsonView>,
    pub credentials: crate::json::JsonView,
    pub config: crate::json::JsonView,
    pub at_lock: crate::step::SessionView,
    pub found: Result<Found<Seq<char>, crate::json::JsonView>, Seq<char>>,
    pub at_match: crate::step::SessionView,
    pub naming: Naming<Seq<char>>,
    pub id: Seq<char>,
    pub at_name: crate::step::SessionView,
    pub at_save: crate::step::SessionView,
    pub stored: Result<(), Seq<char>>,
}

/// The step behind a step.
pub open spec fn next_step(step: LoginStepView, f: Findings) -> LoginStepView {
    match step {
        LoginStep::AccessToken(login) => with_access(login, f.access),
        LoginStep::BusinessToken { login, raw_access } => with_business(login, f.business),
        LoginStep::Profile { login, access } => with_profile(login, access, f.profile),
        LoginStep::UserInfo { login, access } => assembling(login, access, f.user_info),
        LoginStep::Assemble { login, access, token, profile } => LoginStep::Lock {
            login,
            credentials: f.credentials,
            config: f.config,
        },
        LoginStep::Lock { login, credentials, config } => with_lock(
            f.at_lock,
            login,
            credentials,
            config,
        ),
        LoginStep::Match { login, credentials, config } => with_match(
            f.at_match,
            login,
            credentials,
            config,
            f.found,
        ),
        LoginStep::Name { login, credentials, config, hash, base } => with_name(
            f.at_name,
            login,
            credentials,
            config,
            hash,
            f.naming,
            f.id,
        ),
        LoginStep::Save { account, answer } => after_store(f.at_save, answer, f.stored).0,
        end => end,
    }
}

/// The step that some steps later is reached.
pub open spec fn later_step(step: LoginStepView, f: Findings, steps: nat) -> LoginStepView
    decreases steps,
{
    if steps == 0 {
        step
    } else {
        later_step(next_step(step, f), f, (steps - 1) as nat)
    }
}

/// How many steps storing a login takes at most.
pub open spec fn most_steps() -> nat {
    9
}

/// The account that a login becomes and the answer for the pages, or why it becomes none.
pub open spec fn becomes(login: LoginView, f: Findings) -> Result<
    (AccountView, crate::json::JsonView),
    Failure<Seq<char>>,
> {
    let gone = Failure::Text(crate::oauth::superseded());
    if login.provider == "zai"@ && f.access is Some && f.access->0.len() > 0 && f.business is None {
        Err(Failure::NoBusinessToken)
    } else if !crate::oauth::still_ours(f.at_lock, login.flow) {
        Err(gone)
    } else {
        match f.found {
            Err(e) => Err(Failure::Text(e)),
            Ok(Found::Known { account, hash, now }) => if crate::oauth::still_ours(
                f.at_match,
                login.flow,
            ) {
                let a = refreshed(account, login, f.credentials, f.config, hash, now);
                Ok((a, known_answer(a, login.provider)))
            } else {
                Err(gone)
            },
            Ok(Found::Unknown { hash }) => if crate::oauth::still_ours(f.at_name, login.flow) {
                let a = new_account(login, f.credentials, f.config, hash, f.naming, f.id);
                Ok((a, new_answer(a, login.provider)))
            } else {
                Err(gone)
            },
        }
    }
}

/// Storing a login ends. It fails where the login is not waited for or brings no token, where no
/// business token can be had, where the accounts cannot be listed, and where the account cannot be
/// saved; else the pages are answered with the account.
pub proof fn law_storing_a_login_ends(
    provider: Seq<char>,
    raw: crate::json::JsonView,
    flow: Seq<char>,
    mid: Seq<char>,
    poll_ready: bool,
    f: Findings,
)
    ensures
        later_step(
            login_start(f.at_start, provider, raw, flow, mid, poll_ready),
            f,
            most_steps(),
        ) == if !crate::oauth::still_ours(f.at_start, flow) {
            superseded_step()
        } else {
            match token_of(raw) {
                None => LoginStep::Failed(Failure::NoToken),
                Some(jwt) => match becomes(
                    Login { provider, raw, flow, mid, poll_ready, jwt },
                    f,
                ) {
                    Err(why) => LoginStep::Failed(why),
                    Ok((account, answer)) => match f.stored {
                        Ok(_) => LoginStep::Done(answer),
                        Err(e) => LoginStep::Failed(Failure::Text(e)),
                    },
                },
            }
        },
{
    let s0 = login_start(f.at_start, provider, raw, flow, mid, poll_ready);
    let s1 = next_step(s0, f);
    let s2 = next_step(s1, f);
    let s3 = next_step(s2, f);
    let s4 = next_step(s3, f);
    let s5 = next_step(s4, f);
    let s6 = next_step(s5, f);
    let s7 = next_step(s6, f);
    let s8 = next_step(s7, f);
    let s9 = next_step(s8, f);
    assert(later_step(s0, f, 9) == s9) by {
        reveal_with_fuel(later_step, 10);
    }
}

/// The account that is saved in the course of storing a login is the one that the login becomes,
/// and none is saved where it becomes none.
pub proof fn law_saved_account_is_what_the_login_becomes(
    provider: Seq<char>,
    raw: crate::json::JsonView,
    flow: Seq<char>,
    mid: Seq<char>,
    poll_ready: bool,
    f: Findings,
    steps: nat,
)
    requires
        steps <= most_steps(),
    ensures
        later_step(
            login_start(f.at_start, provider, raw, flow, mid, poll_ready),
            f,
            steps,
        ) matches LoginStep::Save { account, answer } ==> {
            &&& crate::oauth::still_ours(f.at_start, flow)
            &&& token_of(raw) matches Some(jwt) && becomes(
                Login { provider, raw, flow, mid, poll_ready, jwt },
                f,
            ) == Ok::<(AccountView, crate::json::JsonView), Failure<Seq<char>>>((account, answer))
        },
{
    reveal_with_fuel(later_step, 10);
    let s0 = login_start(f.at_start, provider, raw, flow, mid, poll_ready);
    let s1 = next_step(s0, f);
    let s2 = next_step(s1, f);
    let s3 = next_step(s2, f);
    let s4 = next_step(s3, f);
    let s5 = next_step(s4, f);
    let s6 = next_step(s5, f);
    let s7 = next_step(s6, f);
    let s8 = next_step(s7, f);
    let s9 = next_step(s8, f);
    let s = later_step(s0, f, steps);
    assert(s == s0 || s == s1 || s == s2 || s == s3 || s == s4 || s == s5 || s == s6 || s == s7 || s
        == s8 || s == s9);
}

// Laws of single steps, in terms of what the login brought.

/// Whether a login is the one that is waited for.
pub open spec fn is_awaited(s: crate::step::SessionView, flow: Seq<char>) -> bool {
    s.oauth is Some && s.oauth->0.flow == flow
}

/// The token of a login is the text under `token` in its `data`, without the white space around it;
/// a login whose `data` has no such text, or one of white space alone, has none.
pub proof fn law_token(
    raw: crate::json::JsonView,
    data: crate::json::JsonView,
    a: Seq<char>,
    t: Seq<char>,
    b: Seq<char>,
)
    requires
        crate::text::blank(a),
        crate::text::blank(b),
        t.len() > 0,
        !crate::text::is_space(t[0]),
        !crate::text::is_space(t.last()),
    ensures
        raw.member("data"@) is None ==> token_of(raw) is None,
        raw.member("data"@) == Some(data) && data.text_member("token"@) is None ==> token_of(
            raw,
        ) is None,
        raw.member("data"@) == Some(data) && data.text_member("token"@) == Some(a + t + b)
            ==> token_of(raw) == Some(t),
        raw.member("data"@) == Some(data) && data.text_member("token"@) == Some(a) ==> token_of(
            raw,
        ) is None,
{
    crate::text::law_trimmed(a, t, b);
    crate::text::law_trimmed(a, Seq::empty(), Seq::empty());
    assert(a + Seq::empty() + Seq::empty() =~= a);
}

/// A login that is waited for and brings a token is looked into with all that came with it; one
/// that is not waited for is given up, and one without a token fails.
pub proof fn law_start_of_a_login(
    s: crate::step::SessionView,
    provider: Seq<char>,
    raw: crate::json::JsonView,
    flow: Seq<char>,
    mid: Seq<char>,
    poll_ready: bool,
)
    ensures
        is_awaited(s, flow) && token_of(raw) is Some ==> (login_start(
            s,
            provider,
            raw,
            flow,
            mid,
            poll_ready,
        ) matches LoginStep::AccessToken(l) && l.provider == provider && l.raw == raw
            && l.flow == flow
            && l.mid == mid && l.poll_ready == poll_ready && Some(l.jwt) == token_of(raw)),
        is_awaited(s, flow) && token_of(raw) is None ==> (login_start(
            s,
            provider,
            raw,
            flow,
            mid,
            poll_ready,
        ) matches LoginStep::Failed(f) && f is NoToken),
        !is_awaited(s, flow) ==> (login_start(
            s,
            provider,
            raw,
            flow,
            mid,
            poll_ready,
        ) matches LoginStep::Failed(f) && f == Failure::Text("__superseded__"@)),
{
}

/// An access token of a `zai` login is traded for a business token, which takes its place; with
/// every other service, and without one, the login goes on with what it has.
pub proof fn law_access_token(login: LoginView, access: Seq<char>)
    ensures
        login.provider == "zai"@ && access.len() > 0 ==> with_access(login, Some(access)) == (
        LoginStep::BusinessToken { login, raw_access: access }),
        login.provider != "zai"@ || access.len() == 0 ==> with_access(login, Some(access)) == (
        LoginStep::Profile { login, access }),
        with_access(login, None) == with_access(login, Some(Seq::empty())),
        with_business(login, Some(access)) == (LoginStep::Profile { login, access }),
        with_business(login, None) matches LoginStep::Failed(f) && f is NoBusinessToken,
{
}

/// The credentials are made with the access token where there is one, whichever service the login
/// is of, and without one exactly where it is empty; and with the profile as it was found.
pub proof fn law_credentials_hold_the_token(
    login: LoginView,
    access: Seq<char>,
    profile: Option<crate::json::JsonView>,
)
    ensures
        assembling(login, access, profile) matches LoginStep::Assemble {
            login: l,
            access: a,
            token,
            profile: p,
        } && {
            &&& l == login
            &&& a == access
            &&& access.len() > 0 ==> token == Some(access)
            &&& access.len() == 0 ==> token is None
            &&& p == profile
        },
{
}

/// The service is asked for the profile exactly where the login holds none and there is an access
/// token to ask with.
pub proof fn law_profile(
    login: LoginView,
    access: Seq<char>,
    reply: Option<crate::json::JsonView>,
)
    ensures
        reply is None && access.len() > 0 ==> with_profile(login, access, reply) == (
        LoginStep::UserInfo { login, access }),
        reply is Some || access.len() == 0 ==> (with_profile(
            login,
            access,
            reply,
        ) matches LoginStep::Assemble { login: l, access: a, token, profile } && l == login && a
            == access && (token is Some <==> access.len() > 0) && (token is Some
                ==> token->0 == access)
            && profile == reply),
{
}

/// A login goes on under the lock with its own data exactly where it is still waited for.
pub proof fn law_locked_login(
    s: crate::step::SessionView,
    login: LoginView,
    credentials: crate::json::JsonView,
    config: crate::json::JsonView,
)
    ensures
        is_awaited(s, login.flow)
            ==> with_lock(s, login, credentials, config) == (LoginStep::Match {
            login,
            credentials,
            config,
        }),
        !is_awaited(s, login.flow) ==> (with_lock(
            s,
            login,
            credentials,
            config,
        ) matches LoginStep::Failed(f) && f == Failure::Text("__superseded__"@)),
{
}

/// An account keeps its own device unless that is white space alone or missing; then it gets the
/// login's.
pub proof fn law_device(
    a: Seq<char>,
    t: Seq<char>,
    b: Seq<char>,
    mid: Seq<char>,
)
    requires
        crate::text::blank(a),
        crate::text::blank(b),
        t.len() > 0,
        !crate::text::is_space(t[0]),
        !crate::text::is_space(t.last()),
    ensures
        device_of(Some(a + t + b), mid) == a + t + b,
        device_of(Some(a), mid) == mid,
        device_of(None, mid) == mid,
{
    crate::text::law_trimmed(a, t, b);
    crate::text::law_trimmed(a, Seq::empty(), Seq::empty());
    assert(a + Seq::empty() + Seq::empty() =~= a);
}

/// The account of a known login is saved, where the login is still waited for, with the new
/// credentials, configuration, hash and time, its device, and otherwise as it was; the answer names
/// it and says that it was there before.
pub proof fn law_known_account(
    s: crate::step::SessionView,
    login: LoginView,
    credentials: crate::json::JsonView,
    config: crate::json::JsonView,
    account: AccountView,
    hash: Seq<char>,
    now: Seq<char>,
    other: Seq<char>,
)
    ensures
        is_awaited(s, login.flow) ==> (with_match(
            s,
            login,
            credentials,
            config,
            Ok(Found::Known { account, hash, now }),
        ) matches LoginStep::Save { account: saved, answer } && {
            &&& saved.id == account.id
            &&& saved.name == account.name
            &&& saved.created_at == account.created_at
            &&& saved.updated_at == now
            &&& saved.hash == hash
            &&& saved.credentials == credentials
            &&& saved.config == Some(config)
            &&& saved.virtual_device_mid == Some(device_of(account.virtual_device_mid, login.mid))
            &&& saved.virtual_arms_uid == account.virtual_arms_uid
            &&& answer.text_member("id"@) == Some(account.id)
            &&& answer.text_member("name"@) == Some(account.name)
            &&& answer.text_member("provider"@) == Some(login.provider)
            &&& answer.bool_member("duplicate"@) == Some(true)
            &&& other != "id"@ && other != "name"@ && other != "provider"@ && other != "duplicate"@
                ==> answer.member(other) is None
        }),
        !is_awaited(s, login.flow) ==> (with_match(
            s,
            login,
            credentials,
            config,
            Ok(Found::Known { account, hash, now }),
        ) matches LoginStep::Failed(f) && f == Failure::Text("__superseded__"@)),
{
    reveal_strlit("id");
    reveal_strlit("name");
    reveal_strlit("provider");
    reveal_strlit("duplicate");
    let a = refreshed(account, login, credentials, config, hash, now);
    let known = seq![
        ("id"@, crate::json::JsonView::Text(a.id)),
        ("name"@, crate::json::JsonView::Text(a.name)),
        ("provider"@, crate::json::JsonView::Text(login.provider)),
        ("duplicate"@, crate::json::JsonView::Bool(true)),
    ];
    assert("duplicate"@.len() == 9 && "id"@.len() == 2 && "name"@.len() == 4 && "provider"@.len()
        == 8);
    crate::json::lemma_entries_map_at(known, 0);
    crate::json::lemma_entries_map_at(known, 1);
    crate::json::lemma_entries_map_at(known, 2);
    crate::json::lemma_entries_map_at(known, 3);
    crate::json::lemma_entries_map(known, other);
}

/// A login without an account gets a name from its user or its service; a search that fails is told
/// in its words.
pub proof fn law_unknown_account(
    s: crate::step::SessionView,
    login: LoginView,
    credentials: crate::json::JsonView,
    config: crate::json::JsonView,
    h: Seq<char>,
    e: Seq<char>,
)
    ensures
        with_match(
            s,
            login,
            credentials,
            config,
            Ok(Found::Unknown { hash: h }),
        ) matches LoginStep::Name { login: l, credentials: c, config: k, hash, base } && l == login
            && c
            == credentials && k == config && hash == h && base == name_of(
            login.provider,
            user_of(login.provider, credentials),
        ),
        with_match(s, login, credentials, config, Err(e)) == LoginStep::<
            Seq<char>,
            crate::json::JsonView,
        >::Failed(Failure::Text(e)),
{
}

/// The user in credentials is the JSON in the text under `oauth:`, the service and `:user_info`;
/// the name is the user's, and without one it is the service's, `z.ai` or `BigModel`.
pub proof fn law_names(
    provider: Seq<char>,
    credentials: crate::json::JsonView,
    text: Seq<char>,
    user: crate::json::JsonView,
    name: Seq<char>,
)
    ensures
        credentials.text_member("oauth:"@ + provider + ":user_info"@) == Some(text)
            && crate::json::parsed_text(text) is Ok ==> user_of(provider, credentials) == Some(
            crate::json::parsed_text(text)->Ok_0,
        ),
        credentials.text_member("oauth:"@ + provider + ":user_info"@) == Some(text)
            && crate::json::parsed_text(text) is Err ==> user_of(provider, credentials) is None,
        credentials.text_member("oauth:"@ + provider + ":user_info"@) is None ==> user_of(
            provider,
            credentials,
        ) is None,
        user.text_member("username"@) == Some(name) ==> name_of(provider, Some(user)) == name,
        user.text_member("username"@) is None ==> name_of(provider, Some(user)) == name_of(
            provider,
            None,
        ),
        provider == "zai"@ ==> name_of(provider, None) == "z.ai"@,
        provider != "zai"@ ==> name_of(provider, None) == "BigModel"@,
{
}

/// A new account is saved, where the login is still waited for, with all that it was given and the
/// login's device, made and changed at the same time; the answer names it.
pub proof fn law_new_account(
    s: crate::step::SessionView,
    login: LoginView,
    credentials: crate::json::JsonView,
    config: crate::json::JsonView,
    hash: Seq<char>,
    naming: Naming<Seq<char>>,
    id: Seq<char>,
    other: Seq<char>,
)
    ensures
        is_awaited(s, login.flow) ==> (with_name(
            s,
            login,
            credentials,
            config,
            hash,
            naming,
            id,
        ) matches LoginStep::Save { account, answer } && {
            &&& account.id == id
            &&& account.name == naming.name
            &&& account.created_at == naming.now
            &&& account.updated_at == naming.now
            &&& account.hash == hash
            &&& account.credentials == credentials
            &&& account.config == Some(config)
            &&& account.virtual_device_mid == Some(login.mid)
            &&& account.virtual_arms_uid == Some(naming.arms_uid)
            &&& answer.text_member("id"@) == Some(id)
            &&& answer.text_member("name"@) == Some(naming.name)
            &&& answer.text_member("provider"@) == Some(login.provider)
            &&& other != "id"@ && other != "name"@ && other != "provider"@ ==> answer.member(
                other,
            ) is None
        }),
        !is_awaited(s, login.flow) ==> (with_name(
            s,
            login,
            credentials,
            config,
            hash,
            naming,
            id,
        ) matches LoginStep::Failed(f) && f == Failure::Text("__superseded__"@)),
{
    reveal_strlit("id");
    reveal_strlit("name");
    reveal_strlit("provider");
    let fresh = seq![
        ("id"@, crate::json::JsonView::Text(id)),
        ("name"@, crate::json::JsonView::Text(naming.name)),
        ("provider"@, crate::json::JsonView::Text(login.provider)),
    ];
    assert("id"@.len() == 2 && "name"@.len() == 4 && "provider"@.len() == 8);
    crate::json::lemma_entries_map_at(fresh, 0);
    crate::json::lemma_entries_map_at(fresh, 1);
    crate::json::lemma_entries_map_at(fresh, 2);
    crate::json::lemma_entries_map(fresh, other);
}

/// When the account was saved, its answer is the end, the login is forgotten and the claim that
/// waits stays; when it could not be, the login fails in those words and nothing is forgotten.
pub proof fn law_end_of_a_login(
    s: crate::step::SessionView,
    answer: crate::json::JsonView,
    e: Seq<char>,
)
    ensures
        after_store(s, answer, Ok(())).0 == LoginStep::<Seq<char>, crate::json::JsonView>::Done(
            answer),
        after_store(s, answer, Ok(())).1.oauth is None,
        after_store(s, answer, Ok(())).1.claim == s.claim,
        after_store(s, answer, Err(e)).0 == LoginStep::<Seq<char>, crate::json::JsonView>::Failed(
            Failure::Text(e),
        ),
        after_store(s, answer, Err(e)).1 == s,
{
}

/// What is carried shows each of its parts.
pub proof fn law_login_parts(
    a: Account<String, Json>,
    l: TextLogin,
    n: Naming<String>,
    hash: String,
    now: String,
)
    ensures
        account_view(a).id == a.id@,
        account_view(a).name == a.name@,
        account_view(a).created_at == a.created_at@,
        account_view(a).updated_at == a.updated_at@,
        account_view(a).hash == a.hash@,
        account_view(a).credentials == a.credentials@,
        account_view(a).config == crate::step::opt_json(a.config),
        account_view(a).virtual_device_mid == crate::step::opt_text(a.virtual_device_mid),
        account_view(a).virtual_arms_uid == crate::step::opt_text(a.virtual_arms_uid),
        login_view(l).provider == l.provider@,
        login_view(l).raw == l.raw@,
        login_view(l).flow == l.flow@,
        login_view(l).mid == l.mid@,
        login_view(l).poll_ready == l.poll_ready,
        login_view(l).jwt == l.jwt@,
        naming_view(n).name == n.name@,
        naming_view(n).now == n.now@,
        naming_view(n).arms_uid == n.arms_uid@,
        found_view(Found::Known { account: a, hash, now }) matches Found::Known {
            account: b,
            hash: h,
            now: t,
        } && b == account_view(a) && h == hash@ && t == now@,
        found_view(Found::Unknown { hash }) matches Found::Unknown { hash: h } && h == hash@,
{
}

/// A step that is carried shows each of its parts.
pub proof fn law_login_step_parts(s: TextLoginStep)
    ensures
        match s {
            LoginStep::Failed(f) => login_step_view(s) matches LoginStep::Failed(g) && g
                == crate::failure::failure_view(f),
            LoginStep::Done(v) => login_step_view(s) matches LoginStep::Done(w) && w == v@,
            LoginStep::AccessToken(l) => login_step_view(s) matches LoginStep::AccessToken(m) && m
                == login_view(l),
            LoginStep::BusinessToken { login, raw_access } => login_step_view(
                s,
            ) matches LoginStep::BusinessToken { login: l, raw_access: r } && l == login_view(login)
                && r == raw_access@,
            LoginStep::Profile { login, access } => login_step_view(s) matches LoginStep::Profile {
                login: l,
                access: a,
            } && l == login_view(login) && a == access@,
            LoginStep::UserInfo { login, access } =>
                login_step_view(s) matches LoginStep::UserInfo {
                login: l,
                access: a,
            } && l == login_view(login) && a == access@,
            LoginStep::Assemble { login, access, token, profile } => login_step_view(
                s,
            ) matches LoginStep::Assemble { login: l, access: a, token: t, profile: p } && l
                == login_view(login) && a == access@ && t == crate::step::opt_text(token) && p
                == crate::step::opt_json(profile),
            LoginStep::Lock { login, credentials, config } => login_step_view(
                s,
            ) matches LoginStep::Lock { login: l, credentials: c, config: k }
                && l == login_view(login)
                && c == credentials@ && k == config@,
            LoginStep::Match { login, credentials, config } => login_step_view(
                s,
            ) matches LoginStep::Match { login: l, credentials: c, config: k }
                && l == login_view(login)
                && c == credentials@ && k == config@,
            LoginStep::Name { login, credentials, config, hash, base } => login_step_view(
                s,
            ) matches LoginStep::Name { login: l, credentials: c, config: k, hash: h, base: b } && l
                == login_view(login) && c == credentials@ && k == config@ && h == hash@
                    && b == base@,
            LoginStep::Save { account, answer } => login_step_view(s) matches LoginStep::Save {
                account: a,
                answer: v,
            } && a == account_view(account) && v == answer@,
        },
{
}

/// Where storing a login comes to making the credentials, they are made for the login as it came,
/// with the business token of a `zai` login that brought an access token and else the access token
/// that it brought, left out where that is empty, and with the profile in the login or else, where
/// there is a token to ask with, the one that the service gave. And it comes to that unless the
/// login is not waited for, brings no token, or has no business token where one is needed.
pub proof fn law_what_credentials_are_made_of(
    provider: Seq<char>,
    raw: crate::json::JsonView,
    flow: Seq<char>,
    mid: Seq<char>,
    poll_ready: bool,
    f: Findings,
    steps: nat,
)
    requires
        steps <= most_steps(),
    ensures
        ({
            let brought = if f.access is Some { f.access->0 } else { Seq::empty() };
            let traded = provider == "zai"@ && brought.len() > 0;
            let used = if traded && f.business is Some { f.business->0 } else { brought };
            let asked = f.profile is None && used.len() > 0;
            let start = login_start(f.at_start, provider, raw, flow, mid, poll_ready);
            let turns = 2 + (if traded { 1nat } else { 0 }) + (if asked { 1nat } else { 0 });
            &&& later_step(start, f, steps) matches LoginStep::Assemble {
                login,
                access,
                token,
                profile,
            } ==> {
                &&& is_awaited(f.at_start, flow)
                &&& traded ==> f.business is Some
                &&& login.provider == provider
                &&& login.raw == raw
                &&& login.flow == flow
                &&& login.mid == mid
                &&& login.poll_ready == poll_ready
                &&& token_of(raw) == Some(login.jwt)
                &&& access == used
                &&& used.len() > 0 ==> token == Some(used)
                &&& used.len() == 0 ==> token is None
                &&& f.profile is Some ==> profile == f.profile
                &&& f.profile is None && used.len() > 0 ==> profile == f.user_info
                &&& f.profile is None && used.len() == 0 ==> profile is None
            }
            &&& is_awaited(f.at_start, flow) && token_of(raw) is Some && (traded
                ==> f.business is Some)
                ==> later_step(start, f, turns) is Assemble
        }),
{
    reveal_with_fuel(later_step, 10);
    let s0 = login_start(f.at_start, provider, raw, flow, mid, poll_ready);
    let s1 = next_step(s0, f);
    let s2 = next_step(s1, f);
    let s3 = next_step(s2, f);
    let s4 = next_step(s3, f);
    let s5 = next_step(s4, f);
    let s6 = next_step(s5, f);
    let s7 = next_step(s6, f);
    let s8 = next_step(s7, f);
    let s9 = next_step(s8, f);
    let s = later_step(s0, f, steps);
    assert(s == s0 || s == s1 || s == s2 || s == s3 || s == s4 || s == s5 || s == s6 || s == s7 || s
        == s8 || s == s9);
}

/// In the course of storing a login an account is saved only where the login is waited for all
/// along and brings a token, and the accounts could be searched. What is saved holds the
/// credentials and the configuration that were made, under the identifier of the account that was
/// found, or the new one.
pub proof fn law_what_is_saved(
    provider: Seq<char>,
    raw: crate::json::JsonView,
    flow: Seq<char>,
    mid: Seq<char>,
    poll_ready: bool,
    f: Findings,
    steps: nat,
)
    requires
        steps <= most_steps(),
    ensures
        later_step(
            login_start(f.at_start, provider, raw, flow, mid, poll_ready),
            f,
            steps,
        ) matches LoginStep::Save { account, answer } ==> {
            &&& is_awaited(f.at_start, flow)
            &&& is_awaited(f.at_lock, flow)
            &&& token_of(raw) is Some
            &&& f.found is Ok
            &&& account.credentials == f.credentials
            &&& account.config == Some(f.config)
            &&& f.found matches Ok(Found::Known { account: known, hash, now }) ==> is_awaited(
                f.at_match,
                flow,
            ) && account.id == known.id && account.hash == hash && account.updated_at == now
                && account.virtual_device_mid == Some(device_of(known.virtual_device_mid, mid))
            &&& f.found matches Ok(Found::Unknown { hash }) ==> is_awaited(f.at_name, flow)
                && account.id == f.id && account.hash == hash && account.virtual_device_mid == Some(
                mid,
            )
        },
{
    law_saved_account_is_what_the_login_becomes(provider, raw, flow, mid, poll_ready, f, steps);
}

} // verus!
