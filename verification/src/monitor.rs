//! Switching to another account by itself when the quota of the active one is used up.

use vstd::prelude::*;

use crate::json::Json;
use crate::step::TextSession;
use crate::text::{concat, same};

verus! {

/// How long the monitor pauses between two looks at the settings, in seconds.
pub const WAKE_SECONDS: u64 = 10;

/// How far apart two checks of the quota are at least, in nanoseconds.
pub const CHECK_INTERVAL_NANOS: u128 = 90_000_000_000;

/// What the monitor remembers from one check to the next.
#[derive(Debug)]
pub struct Monitor<S> {
    /// When the last check was.
    pub last_check: Option<u128>,
    /// The account that the last check found used up.
    pub exhausted_once: Option<S>,
    /// The account for which the pages were told that no switch is possible.
    pub notified: Option<S>,
}

/// What the monitor remembers, as it is carried.
pub type TextMonitor = Monitor<String>;

/// What the monitor remembers, as contracts speak of it.
pub type MonitorView = Monitor<Seq<char>>;

/// What the monitor remembers.
pub open spec fn monitor_view(m: TextMonitor) -> MonitorView {
    Monitor {
        last_check: m.last_check,
        exhausted_once: crate::step::opt_text(m.exhausted_once),
        notified: crate::step::opt_text(m.notified),
    }
}

/// The monitor remembers nothing at first.
pub fn new_monitor() -> (r: TextMonitor)
    ensures
        r.last_check is None,
        r.exhausted_once is None,
        r.notified is None,
{
    Monitor { last_check: None, exhausted_once: None, notified: None }
}

/// An account that could be switched to.
#[derive(Debug)]
pub struct Candidate<S> {
    pub id: S,
    pub has_config: bool,
}

/// The accounts that could be switched to.
pub open spec fn candidates_view(accounts: Seq<Candidate<String>>) -> Seq<Candidate<Seq<char>>> {
    Seq::new(
        accounts.len(),
        |i: int| Candidate { id: accounts[i].id@, has_config: accounts[i].has_config },
    )
}

/// The state of the account library.
#[derive(Debug)]
pub struct Snapshot {
    pub active: Option<String>,
    pub running: bool,
    pub accounts: Vec<Candidate<String>>,
}

/// Whether the quota of an account allows a conversation.
#[derive(Debug, Clone, Copy, PartialEq, Eq, Structural)]
pub enum Availability {
    Available,
    Exhausted,
    Unknown,
}

/// The search for an account to switch to: the one at `offset` behind the active one is next.
#[derive(Debug)]
pub struct Search {
    active: String,
    accounts: Vec<Candidate<String>>,
    active_index: usize,
    offset: usize,
}

/// The search as contracts speak of it.
pub struct SearchView {
    pub active: Seq<char>,
    pub accounts: Seq<Candidate<Seq<char>>>,
    pub active_index: int,
    pub offset: int,
}

impl Search {
    /// What the search is.
    pub closed spec fn view(&self) -> SearchView {
        SearchView {
            active: self.active@,
            accounts: candidates_view(self.accounts@),
            active_index: self.active_index as int,
            offset: self.offset as int,
        }
    }

    /// The search is at one of the accounts.
    pub closed spec fn wf(&self) -> bool {
        &&& self.active_index < self.accounts@.len()
        &&& self.offset < self.accounts@.len()
    }
}

impl SearchView {
    /// The account at an offset behind the active one, in a circle.
    pub open spec fn at(self, offset: int) -> Candidate<Seq<char>> {
        self.accounts[(self.active_index + offset) % (self.accounts.len() as int)]
    }

    /// The account that is next.
    pub open spec fn current(self) -> Candidate<Seq<char>> {
        self.at(self.offset)
    }
}

/// A step of the monitor.
#[derive(Debug)]
pub enum MonitorStep {
    /// Log the line and tell the pages the events, then pause; `woke` goes on.
    Pause { log: Option<String>, events: Vec<(String, Json)> },
    /// Look up the state of the account library; `got_snapshot` goes on.
    Snapshot,
    /// Look up the quota in use; `got_live_quota` goes on.
    LiveQuota { active: String, accounts: Vec<Candidate<String>> },
    /// Look up the quota of the account `id`; `got_candidate_quota` goes on.
    CandidateQuota { id: String, search: Search },
    /// Lock the library until the switch is made, and look up its state and the settings;
    /// `rechecked` goes on.
    Recheck { active: String, target: String },
    /// Switch to `target`; `switched` goes on.
    Switch { active: String, target: String, force: bool, restart: bool, hot: bool },
}

/// A step of the monitor as contracts speak of it.
pub enum MonitorStepView {
    Pause { log: Option<Seq<char>>, events: Seq<(Seq<char>, crate::json::JsonView)> },
    Snapshot,
    LiveQuota { active: Seq<char>, accounts: Seq<Candidate<Seq<char>>> },
    CandidateQuota { id: Seq<char>, search: SearchView },
    Recheck { active: Seq<char>, target: Seq<char> },
    Switch { active: Seq<char>, target: Seq<char>, force: bool, restart: bool, hot: bool },
}

impl MonitorStep {
    /// What the step is.
    pub open spec fn view(&self) -> MonitorStepView {
        match *self {
            MonitorStep::Pause { log, events } => MonitorStepView::Pause {
                log: crate::step::opt_text(log),
                events: crate::json::entry_views(events@),
            },
            MonitorStep::Snapshot => MonitorStepView::Snapshot,
            MonitorStep::LiveQuota { active, accounts } => MonitorStepView::LiveQuota {
                active: active@,
                accounts: candidates_view(accounts@),
            },
            MonitorStep::CandidateQuota { id, search } => MonitorStepView::CandidateQuota {
                id: id@,
                search: search.view(),
            },
            MonitorStep::Recheck { active, target } => MonitorStepView::Recheck {
                active: active@,
                target: target@,
            },
            MonitorStep::Switch { active, target, force, restart, hot } => MonitorStepView::Switch {
                active: active@,
                target: target@,
                force,
                restart,
                hot,
            },
        }
    }

    /// A search that is under way is at one of the accounts.
    pub open spec fn wf(&self) -> bool {
        self matches MonitorStep::CandidateQuota { id, search } ==> search.wf()
    }
}

/// A pause with nothing to tell.
pub open spec fn quiet() -> MonitorStepView {
    MonitorStepView::Pause { log: None, events: Seq::empty() }
}

fn pause() -> (r: MonitorStep)
    ensures
        r.view() == quiet(),
{
    let events: Vec<(String, Json)> = Vec::new();
    assert(crate::json::entry_views(events@) =~= Seq::empty());
    MonitorStep::Pause { log: None, events }
}

fn same_account(a: &Option<String>, b: &str) -> (r: bool)
    ensures
        r == (crate::step::opt_text(*a) == Some(b@)),
{
    match a {
        Some(s) => same(s.as_str(), b),
        None => false,
    }
}

// The check.

/// What follows a pause, and what is remembered then: a check, where switching is on, no claim
/// waits, and the last check is long enough ago.
pub open spec fn after_wake(
    m: MonitorView,
    auto_switch: bool,
    claim_waits: bool,
    now_ns: u128,
) -> (MonitorStepView, MonitorView) {
    if !auto_switch {
        (quiet(), Monitor { last_check: None, exhausted_once: None, notified: None })
    } else if claim_waits || (m.last_check matches Some(at) && now_ns - at
        < CHECK_INTERVAL_NANOS) {
        (quiet(), m)
    } else {
        (MonitorStepView::Snapshot, Monitor { last_check: Some(now_ns), ..m })
    }
}

/// Decides after a pause whether to check. The clock counts nanoseconds and never goes back.
pub fn woke(
    m: &mut TextMonitor,
    auto_switch: bool,
    session: &TextSession,
    now_ns: u128,
) -> (r: MonitorStep)
    ensures
        r.wf(),
        (r.view(), monitor_view(*final(m))) == after_wake(
            monitor_view(*old(m)),
            auto_switch,
            crate::step::session_view(*session).claim is Some,
            now_ns,
        ),
{
    if !auto_switch {
        m.last_check = None;
        m.exhausted_once = None;
        m.notified = None;
        return pause();
    }
    let too_soon = match m.last_check {
        Some(at) => now_ns.saturating_sub(at) < CHECK_INTERVAL_NANOS,
        None => false,
    };
    if session.claim.is_some() || too_soon {
        return pause();
    }
    m.last_check = Some(now_ns);
    MonitorStep::Snapshot
}

/// What follows the state of the library, and what is remembered then.
pub open spec fn after_snapshot(
    m: MonitorView,
    reply: Option<Snapshot>,
) -> (MonitorStepView, MonitorView) {
    match reply {
        Some(s) => if s.active is Some && s.running && s.accounts@.len() >= 2 {
            (
                MonitorStepView::LiveQuota {
                    active: s.active->0@,
                    accounts: candidates_view(s.accounts@),
                },
                m,
            )
        } else {
            (quiet(), Monitor { exhausted_once: None, ..m })
        },
        None => (quiet(), Monitor { exhausted_once: None, ..m }),
    }
}

/// Goes on with the state of the library: the client has to run under an account, and there has
/// to be another.
pub fn got_snapshot(m: &mut TextMonitor, reply: Option<Snapshot>) -> (r: MonitorStep)
    ensures
        r.wf(),
        (r.view(), monitor_view(*final(m))) == after_snapshot(monitor_view(*old(m)), reply),
{
    match reply {
        Some(s) => {
            if let Some(active) = s.active {
                if s.running && s.accounts.len() >= 2 {
                    return MonitorStep::LiveQuota { active, accounts: s.accounts };
                }
            }
        },
        None => {},
    }
    m.exhausted_once = None;
    pause()
}

// The search.

/// Where an account is first found among the accounts; their number, where it is not.
pub open spec fn position(accounts: Seq<Candidate<Seq<char>>>, id: Seq<char>) -> nat
    decreases accounts.len(),
{
    if accounts.len() == 0 || accounts[0].id == id {
        0
    } else {
        1 + position(accounts.skip(1), id)
    }
}

proof fn lemma_position(accounts: Seq<Candidate<Seq<char>>>, id: Seq<char>)
    ensures
        position(accounts, id) <= accounts.len(),
        position(accounts, id) < accounts.len() ==> accounts[position(accounts, id) as int].id
            == id,
    decreases accounts.len(),
{
    if accounts.len() > 0 && accounts[0].id != id {
        lemma_position(accounts.skip(1), id);
        if position(accounts, id) < accounts.len() {
            assert(accounts[position(accounts, id) as int] == accounts.skip(1)[position(
                accounts,
                id,
            ) - 1]);
        }
    }
}

fn find(accounts: &Vec<Candidate<String>>, id: &str) -> (r: Option<usize>)
    ensures
        match r {
            Some(i) => i < accounts@.len() && i == position(candidates_view(accounts@), id@),
            None => position(candidates_view(accounts@), id@) == accounts@.len(),
        },
{
    let ghost all = candidates_view(accounts@);
    let mut i: usize = 0;
    assert(all.skip(0) =~= all);
    while i < accounts.len()
        invariant
            i <= accounts@.len(),
            all == candidates_view(accounts@),
            position(all, id@) == i + position(all.skip(i as int), id@),
        decreases accounts@.len() - i,
    {
        assert(all.skip(i as int)[0] == all[i as int]);
        if same(accounts[i].id.as_str(), id) {
            return Some(i);
        }
        assert(all.skip(i as int).skip(1) =~= all.skip(i + 1));
        i = i + 1;
    }
    None
}

/// The first offset from `from` on whose account has a configuration; the number of accounts, where
/// there is none.
pub open spec fn next_offset(s: SearchView, from: int) -> int
    decreases s.accounts.len() - from,
{
    if from >= s.accounts.len() {
        s.accounts.len() as int
    } else if s.at(from).has_config {
        from
    } else {
        next_offset(s, from + 1)
    }
}

/// What the pages are told when there is no account to switch to.
pub open spec fn no_candidate_event() -> (Seq<char>, crate::json::JsonView) {
    (
        "auto-switch-result"@,
        crate::json::object(seq![("status"@, crate::json::JsonView::Text("no-candidate"@))]),
    )
}

/// What follows when the search goes on at an offset, and what is remembered then. The pages are
/// told once of an account that there is none to switch to.
pub open spec fn after_search(
    m: MonitorView,
    s: SearchView,
    from: int,
) -> (MonitorStepView, MonitorView) {
    let o = next_offset(s, from);
    if o < s.accounts.len() {
        (
            MonitorStepView::CandidateQuota {
                id: s.at(o).id,
                search: SearchView { offset: o, ..s },
            },
            m,
        )
    } else if m.notified == Some(s.active) {
        (quiet(), m)
    } else {
        (
            MonitorStepView::Pause { log: None, events: seq![no_candidate_event()] },
            Monitor { notified: Some(s.active), ..m },
        )
    }
}

/// The account at an offset, in a circle, without a sum that could be too large.
fn circular(index: usize, offset: usize, len: usize) -> (r: usize)
    requires
        index < len,
        offset < len,
    ensures
        r == (index + offset) % (len as int),
        r < len,
{
    if offset < len - index {
        assert((index + offset) % (len as int) == index + offset) by (nonlinear_arith)
            requires
                0 <= index + offset < len,
        ;
        index + offset
    } else {
        assert((index + offset) % (len as int) == index + offset - len) by (nonlinear_arith)
            requires
                len <= index + offset < 2 * len,
        ;
        offset - (len - index)
    }
}

/// Goes on with the search at an offset.
fn search_on(m: &mut TextMonitor, search: Search, from: usize) -> (r: MonitorStep)
    requires
        search.active_index < search.accounts@.len(),
        from <= search.accounts@.len(),
    ensures
        r.wf(),
        (r.view(), monitor_view(*final(m))) == after_search(
            monitor_view(*old(m)),
            search.view(),
            from as int,
        ),
{
    let ghost s = search.view();
    let n = search.accounts.len();
    let mut offset = from;
    while offset < n
        invariant
            from <= offset <= n,
            n == search.accounts@.len(),
            search.active_index < n,
            s == search.view(),
            *m == *old(m),
            next_offset(s, offset as int) == next_offset(s, from as int),
        decreases n - offset,
    {
        let k = circular(search.active_index, offset, n);
        assert(s.at(offset as int) == s.accounts[k as int]);
        if search.accounts[k].has_config {
            let id = search.accounts[k].id.clone();
            let search = Search {
                active: search.active,
                accounts: search.accounts,
                active_index: search.active_index,
                offset,
            };
            return MonitorStep::CandidateQuota { id, search };
        }
        offset = offset + 1;
    }
    if same_account(&m.notified, search.active.as_str()) {
        return pause();
    }
    m.notified = Some(search.active);
    let entries = vec![("status".to_owned(), Json::Text("no-candidate".to_owned()))];
    proof {
        assert(crate::json::entry_views(entries@) =~= seq![
            ("status"@, crate::json::JsonView::Text("no-candidate"@)),
        ]);
    }
    let events = vec![("auto-switch-result".to_owned(), Json::Object(entries))];
    proof {
        assert(crate::json::entry_views(events@) =~= seq![no_candidate_event()]);
    }
    MonitorStep::Pause { log: None, events }
}

/// What follows the quota in use, and what is remembered then. The first check that finds an
/// account used up is only remembered; the next starts the search.
pub open spec fn after_live_quota(
    m: MonitorView,
    active: Seq<char>,
    accounts: Seq<Candidate<Seq<char>>>,
    reply: Option<Availability>,
) -> (MonitorStepView, MonitorView) {
    match reply {
        None => (quiet(), Monitor { exhausted_once: None, ..m }),
        Some(Availability::Exhausted) => if m.exhausted_once != Some(active) {
            (quiet(), Monitor { exhausted_once: Some(active), ..m })
        } else if position(accounts, active) == accounts.len() {
            (quiet(), Monitor { exhausted_once: None, ..m })
        } else {
            after_search(
                m,
                SearchView {
                    active,
                    accounts,
                    active_index: position(accounts, active) as int,
                    offset: 0,
                },
                1,
            )
        },
        Some(_) => (quiet(), Monitor { exhausted_once: None, notified: None, ..m }),
    }
}

/// Goes on with the quota in use.
pub fn got_live_quota(
    m: &mut TextMonitor,
    active: String,
    accounts: Vec<Candidate<String>>,
    reply: Option<Availability>,
) -> (r: MonitorStep)
    ensures
        r.wf(),
        (r.view(), monitor_view(*final(m))) == after_live_quota(
            monitor_view(*old(m)),
            active@,
            candidates_view(accounts@),
            reply,
        ),
{
    match reply {
        None => {
            m.exhausted_once = None;
            pause()
        },
        Some(Availability::Exhausted) => {
            if !same_account(&m.exhausted_once, active.as_str()) {
                m.exhausted_once = Some(active);
                return pause();
            }
            match find(&accounts, active.as_str()) {
                Some(active_index) => {
                    let search = Search { active, accounts, active_index, offset: 0 };
                    search_on(m, search, 1)
                },
                None => {
                    m.exhausted_once = None;
                    pause()
                },
            }
        },
        Some(_) => {
            m.exhausted_once = None;
            m.notified = None;
            pause()
        },
    }
}

/// What follows the quota of an account, and what is remembered then.
pub open spec fn after_candidate(
    m: MonitorView,
    s: SearchView,
    reply: Option<Availability>,
) -> (MonitorStepView, MonitorView) {
    if reply == Some(Availability::Available) {
        (MonitorStepView::Recheck { active: s.active, target: s.current().id }, m)
    } else {
        after_search(m, s, s.offset + 1)
    }
}

/// Goes on with the quota of an account: it is switched to where it allows a conversation, and else
/// the search goes on behind it.
pub fn got_candidate_quota(
    m: &mut TextMonitor,
    search: Search,
    reply: Option<Availability>,
) -> (r: MonitorStep)
    requires
        search.wf(),
    ensures
        r.wf(),
        (r.view(), monitor_view(*final(m))) == after_candidate(
            monitor_view(*old(m)),
            search.view(),
            reply,
        ),
{
    let n = search.accounts.len();
    match reply {
        Some(Availability::Available) => {
            let k = circular(search.active_index, search.offset, n);
            let target = search.accounts[k].id.clone();
            assert(search.view().current() == search.view().accounts[k as int]);
            MonitorStep::Recheck { active: search.active, target }
        },
        _ => {
            let next = search.offset + 1;
            search_on(m, search, next)
        },
    }
}

// The switch.

/// What is looked up once more before a switch.
#[derive(Debug)]
pub struct Recheck {
    pub auto_switch: bool,
    pub running: bool,
    pub active: Option<String>,
}

/// Whether a switch is still due: nobody switched it off, ended the client or changed the account
/// meanwhile.
pub open spec fn still_due(active: Seq<char>, reply: Option<Recheck>) -> bool {
    reply matches Some(c) && c.auto_switch && c.running && crate::step::opt_text(c.active) == Some(
        active,
    )
}

/// The switch that is made: by force, with a restart of the client, and not while it runs.
pub open spec fn switch_step(active: Seq<char>, target: Seq<char>) -> MonitorStepView {
    MonitorStepView::Switch { active, target, force: true, restart: true, hot: false }
}

/// What follows the second look, and what is remembered then.
pub open spec fn after_recheck(
    m: MonitorView,
    active: Seq<char>,
    target: Seq<char>,
    reply: Option<Recheck>,
) -> (MonitorStepView, MonitorView) {
    if still_due(active, reply) {
        (switch_step(active, target), m)
    } else {
        (quiet(), Monitor { exhausted_once: None, notified: None, ..m })
    }
}

/// Goes on with the second look at the state.
pub fn rechecked(
    m: &mut TextMonitor,
    active: String,
    target: String,
    reply: Option<Recheck>,
) -> (r: MonitorStep)
    ensures
        r.wf(),
        (r.view(), monitor_view(*final(m))) == after_recheck(
            monitor_view(*old(m)),
            active@,
            target@,
            reply,
        ),
{
    if let Some(c) = reply {
        if c.auto_switch && c.running && same_account(&c.active, active.as_str()) {
            return MonitorStep::Switch {
                active,
                target,
                force: true,
                restart: true,
                hot: false,
            };
        }
    }
    m.exhausted_once = None;
    m.notified = None;
    pause()
}

/// What a switch led to.
#[derive(Debug)]
pub struct Switched<J> {
    pub switched: bool,
    pub name: J,
    pub launch_error: J,
    pub config_stale: J,
}

/// What a switch led to.
pub open spec fn switched_view(s: Switched<Json>) -> Switched<crate::json::JsonView> {
    Switched {
        switched: s.switched,
        name: s.name@,
        launch_error: s.launch_error@,
        config_stale: s.config_stale@,
    }
}

/// What the pages are told of a switch.
pub open spec fn switched_event(
    s: Switched<crate::json::JsonView>,
) -> (Seq<char>, crate::json::JsonView) {
    (
        "auto-switch-result"@,
        crate::json::object(
            seq![
                ("status"@, crate::json::JsonView::Text("switched"@)),
                ("name"@, s.name),
                ("launchError"@, s.launch_error),
                ("configStale"@, s.config_stale),
            ],
        ),
    )
}

/// What the pages are told of a switch that failed.
pub open spec fn error_event(e: Seq<char>) -> (Seq<char>, crate::json::JsonView) {
    (
        "auto-switch-result"@,
        crate::json::object(
            seq![
                ("status"@, crate::json::JsonView::Text("error"@)),
                ("error"@, crate::json::JsonView::Text(e)),
            ],
        ),
    )
}

/// What the pages are told when the state of the library is another.
pub open spec fn changed_event() -> (Seq<char>, crate::json::JsonView) {
    ("state-changed"@, crate::json::JsonView::Null)
}

/// What follows a switch, and what is remembered then. The pages are told once of an account that
/// the switch away from it fails.
pub open spec fn after_switch(
    m: MonitorView,
    active: Seq<char>,
    reply: Result<Switched<crate::json::JsonView>, Seq<char>>,
) -> (MonitorStepView, MonitorView) {
    match reply {
        Ok(s) => (
            MonitorStepView::Pause {
                log: None,
                events: if s.switched {
                    seq![changed_event(), switched_event(s)]
                } else {
                    seq![changed_event()]
                },
            },
            Monitor { exhausted_once: None, notified: None, ..m },
        ),
        Err(e) => (
            MonitorStepView::Pause {
                log: Some("auto switch failed: "@ + e),
                events: if m.notified == Some(active) {
                    Seq::empty()
                } else {
                    seq![error_event(e)]
                },
            },
            Monitor { exhausted_once: None, notified: Some(active), ..m },
        ),
    }
}

/// Goes on when the switch was made, or could not be.
pub fn switched(
    m: &mut TextMonitor,
    active: String,
    reply: Result<Switched<Json>, String>,
) -> (r: MonitorStep)
    ensures
        r.wf(),
        (r.view(), monitor_view(*final(m))) == after_switch(
            monitor_view(*old(m)),
            active@,
            match reply {
                Ok(s) => Ok(switched_view(s)),
                Err(e) => Err(e@),
            },
        ),
{
    let mut events: Vec<(String, Json)> = Vec::new();
    match reply {
        Ok(s) => {
            let ghost v = switched_view(s);
            m.exhausted_once = None;
            m.notified = None;
            events.push(("state-changed".to_owned(), Json::Null));
            if s.switched {
                let entries = vec![
                    ("status".to_owned(), Json::Text("switched".to_owned())),
                    ("name".to_owned(), s.name),
                    ("launchError".to_owned(), s.launch_error),
                    ("configStale".to_owned(), s.config_stale),
                ];
                proof {
                    assert(crate::json::entry_views(entries@) =~= seq![
                        ("status"@, crate::json::JsonView::Text("switched"@)),
                        ("name"@, v.name),
                        ("launchError"@, v.launch_error),
                        ("configStale"@, v.config_stale),
                    ]);
                }
                events.push(("auto-switch-result".to_owned(), Json::Object(entries)));
                assert(crate::json::entry_views(events@) =~= seq![
                    changed_event(),
                    switched_event(v),
                ]);
            } else {
                assert(crate::json::entry_views(events@) =~= seq![changed_event()]);
            }
            MonitorStep::Pause { log: None, events }
        },
        Err(e) => {
            let log = concat("auto switch failed: ", e.as_str());
            if !same_account(&m.notified, active.as_str()) {
                m.notified = Some(active);
                let entries = vec![
                    ("status".to_owned(), Json::Text("error".to_owned())),
                    ("error".to_owned(), Json::Text(e)),
                ];
                proof {
                    assert(crate::json::entry_views(entries@) =~= seq![
                        ("status"@, crate::json::JsonView::Text("error"@)),
                        ("error"@, crate::json::JsonView::Text(e@)),
                    ]);
                }
                events.push(("auto-switch-result".to_owned(), Json::Object(entries)));
                assert(crate::json::entry_views(events@) =~= seq![error_event(e@)]);
            } else {
                assert(crate::json::entry_views(events@) =~= Seq::empty());
            }
            m.exhausted_once = None;
            MonitorStep::Pause { log: Some(log), events }
        },
    }
}

// Laws.

/// Switching it off makes the monitor forget everything.
pub proof fn law_off_forgets(m: MonitorView, claim_waits: bool, now_ns: u128)
    ensures
        after_wake(m, false, claim_waits, now_ns) == (
            quiet(),
            Monitor::<Seq<char>> { last_check: None, exhausted_once: None, notified: None },
        ),
{
}

/// Checks are at least the interval apart, and none is made while a claim waits.
pub proof fn law_checks_are_apart(
    m: MonitorView,
    auto_switch: bool,
    claim_waits: bool,
    now_ns: u128,
)
    ensures
        after_wake(m, auto_switch, claim_waits, now_ns).0 is Snapshot ==> {
            &&& auto_switch
            &&& !claim_waits
            &&& m.last_check matches Some(at) ==> now_ns >= at + CHECK_INTERVAL_NANOS
            &&& after_wake(m, auto_switch, claim_waits, now_ns).1.last_check == Some(now_ns)
        },
{
}

/// An account is searched for only where the last check too found the active one used up: what is
/// remembered as used up was found so, and a look at anything else forgets it or keeps it.
pub proof fn law_two_checks_before_a_switch(
    m: MonitorView,
    active: Seq<char>,
    accounts: Seq<Candidate<Seq<char>>>,
    reply: Option<Availability>,
    auto_switch: bool,
    claim_waits: bool,
    now_ns: u128,
    snapshot: Option<Snapshot>,
    search: SearchView,
    target: Seq<char>,
    recheck: Option<Recheck>,
)
    ensures
        ({
            let (step, after) = after_live_quota(m, active, accounts, reply);
            &&& step is CandidateQuota ==> reply == Some(Availability::Exhausted)
                && m.exhausted_once == Some(active)
            &&& !(step is Recheck) && !(step is Switch)
            &&& after.exhausted_once is None || (after.exhausted_once == Some(active) && reply
                == Some(Availability::Exhausted))
        }),
        ({
            let (step, after) = after_wake(m, auto_switch, claim_waits, now_ns);
            after.exhausted_once is None || after.exhausted_once == m.exhausted_once
        }),
        ({
            let (step, after) = after_snapshot(m, snapshot);
            after.exhausted_once is None || after.exhausted_once == m.exhausted_once
        }),
        after_candidate(m, search, reply).1.exhausted_once == m.exhausted_once,
        ({
            let (step, after) = after_recheck(m, active, target, recheck);
            after.exhausted_once is None || after.exhausted_once == m.exhausted_once
        }),
{
}

/// A switch is made exactly where it is still due: switching is on, the client runs, and the
/// account is still the one that was used up. It is made by force, with a restart of the client,
/// and not while it runs. Where it is not due, nothing is told and the check starts anew.
pub proof fn law_switch_is_rechecked(
    m: MonitorView,
    active: Seq<char>,
    target: Seq<char>,
    reply: Option<Recheck>,
)
    ensures
        after_recheck(m, active, target, reply).0 is Switch <==> still_due(active, reply),
        still_due(active, reply) ==> after_recheck(m, active, target, reply).0 == (
        MonitorStepView::Switch { active, target, force: true, restart: true, hot: false }),
        !still_due(active, reply) ==> {
            let (step, after) = after_recheck(m, active, target, reply);
            step == quiet() && after.exhausted_once is None && after.notified is None
        },
{
}

/// After a switch an account has to be found used up twice anew.
pub proof fn law_switch_starts_anew(
    m: MonitorView,
    active: Seq<char>,
    reply: Result<Switched<crate::json::JsonView>, Seq<char>>,
)
    ensures
        after_switch(m, active, reply).1.exhausted_once is None,
{
}

proof fn lemma_next_offset(s: SearchView, from: int)
    requires
        0 <= from <= s.accounts.len(),
    ensures
        from <= next_offset(s, from) <= s.accounts.len(),
        next_offset(s, from) < s.accounts.len() ==> s.at(next_offset(s, from)).has_config,
        forall|k: int| from <= k < next_offset(s, from) ==> !(#[trigger] s.at(k)).has_config,
    decreases s.accounts.len() - from,
{
    if from < s.accounts.len() && !s.at(from).has_config {
        lemma_next_offset(s, from + 1);
    }
}

/// The search, where `quota` says what the quota of each account is found to be: the accounts are
/// looked at until one is switched to or none is left.
pub open spec fn searched(
    step: MonitorStepView,
    m: MonitorView,
    quota: spec_fn(Seq<char>) -> Option<Availability>,
    rounds: nat,
) -> (MonitorStepView, MonitorView)
    decreases rounds,
{
    match step {
        MonitorStepView::CandidateQuota { id, search } => if rounds > 0 {
            let (next, after) = after_candidate(m, search, quota(id));
            searched(next, after, quota, (rounds - 1) as nat)
        } else {
            (step, m)
        },
        _ => (step, m),
    }
}

/// Whether the account at an offset can be switched to.
pub open spec fn fits(
    s: SearchView,
    quota: spec_fn(Seq<char>) -> Option<Availability>,
    offset: int,
) -> bool {
    s.at(offset).has_config && quota(s.at(offset).id) == Some(Availability::Available)
}

proof fn lemma_search(
    m: MonitorView,
    s: SearchView,
    quota: spec_fn(Seq<char>) -> Option<Availability>,
    from: int,
    rounds: nat,
)
    requires
        0 <= from <= s.accounts.len(),
        rounds >= s.accounts.len() - from,
    ensures
        ({
            let (start, m1) = after_search(m, s, from);
            let (end, m2) = searched(start, m1, quota, rounds);
            match end {
                MonitorStepView::Recheck { active, target } => {
                    &&& active == s.active
                    &&& m2 == m
                    &&& exists|o: int|
                        from <= o < s.accounts.len() && #[trigger] fits(s, quota, o) && target
                            == s.at(o).id && forall|k: int|
                            from <= k < o ==> !#[trigger] fits(s, quota, k)
                },
                MonitorStepView::Pause { log, events } => {
                    &&& forall|k: int|
                        from <= k < s.accounts.len() ==> !#[trigger] fits(s, quota, k)
                    &&& m2 == (Monitor { notified: Some(s.active), ..m })
                    &&& log is None
                    &&& events == (if m.notified == Some(s.active) {
                        Seq::empty()
                    } else {
                        seq![no_candidate_event()]
                    })
                },
                _ => false,
            }
        }),
    decreases s.accounts.len() - from,
{
    lemma_next_offset(s, from);
    let o = next_offset(s, from);
    assert forall|k: int| from <= k < o implies !#[trigger] fits(s, quota, k) by {
        assert(!s.at(k).has_config);
    }
    if o < s.accounts.len() {
        let here = SearchView { offset: o, ..s };
        let (start, m1) = after_search(m, s, from);
        assert(start == (MonitorStepView::CandidateQuota { id: s.at(o).id, search: here }));
        assert(here.at(o) == s.at(o));
        if quota(s.at(o).id) == Some(Availability::Available) {
            assert(fits(s, quota, o));
            reveal_with_fuel(searched, 2);
        } else {
            lemma_search(m, here, quota, o + 1, (rounds - 1) as nat);
            assert(!fits(s, quota, o));
            assert forall|k: int| #[trigger] fits(s, quota, k) == fits(here, quota, k) by {
                assert(here.at(k) == s.at(k));
            }
            let (next, m3) = after_candidate(m1, here, quota(s.at(o).id));
            let (end, m2) = searched(next, m3, quota, (rounds - 1) as nat);
            assert(searched(start, m1, quota, rounds) == (end, m2));
            match end {
                MonitorStepView::Recheck { active, target } => {
                    let p = choose|p: int|
                        o + 1 <= p < here.accounts.len() && #[trigger] fits(here, quota, p)
                            && target == here.at(p).id && forall|k: int|
                            o + 1 <= k < p ==> !#[trigger] fits(here, quota, k);
                    assert(fits(s, quota, p));
                    assert(here.at(p) == s.at(p));
                    assert forall|k: int| from <= k < p implies !#[trigger] fits(s, quota, k) by {
                        if k > o {
                            assert(!fits(here, quota, k));
                        }
                    }
                },
                _ => {
                    assert forall|k: int| from <= k < s.accounts.len() implies !#[trigger] fits(
                        s,
                        quota,
                        k,
                    ) by {
                        if k > o {
                            assert(!fits(here, quota, k));
                        }
                    }
                },
            }
        }
    }
}

/// The search ends at the first account behind the active one, in a circle, that has a
/// configuration and whose quota allows a conversation; the active one is not looked at. Where
/// there is none, nothing is switched, and the pages are told so once.
pub proof fn law_search_finds_the_next_available(
    m: MonitorView,
    active: Seq<char>,
    accounts: Seq<Candidate<Seq<char>>>,
    quota: spec_fn(Seq<char>) -> Option<Availability>,
)
    requires
        m.exhausted_once == Some(active),
        position(accounts, active) < accounts.len(),
    ensures
        ({
            let s = SearchView {
                active,
                accounts,
                active_index: position(accounts, active) as int,
                offset: 0,
            };
            let (start, m1) = after_live_quota(
                m,
                active,
                accounts,
                Some(Availability::Exhausted),
            );
            let (end, m2) = searched(start, m1, quota, accounts.len());
            match end {
                MonitorStepView::Recheck { active: a, target } => {
                    &&& a == active
                    &&& m2 == m
                    &&& exists|o: int|
                        1 <= o < accounts.len() && #[trigger] fits(s, quota, o) && target == s.at(
                            o,
                        ).id && forall|k: int| 1 <= k < o ==> !#[trigger] fits(s, quota, k)
                },
                MonitorStepView::Pause { log, events } => {
                    &&& forall|k: int| 1 <= k < accounts.len() ==> !#[trigger] fits(s, quota, k)
                    &&& m2 == (Monitor { notified: Some(active), ..m })
                    &&& log is None
                    &&& events == (if m.notified == Some(active) {
                        Seq::empty()
                    } else {
                        seq![no_candidate_event()]
                    })
                },
                _ => false,
            }
        }),
{
    let s = SearchView {
        active,
        accounts,
        active_index: position(accounts, active) as int,
        offset: 0,
    };
    lemma_search(m, s, quota, 1, accounts.len());
}

/// The active account is not switched to: where no two accounts share an identifier, the account at
/// an offset that is looked at is another one.
pub proof fn law_target_is_another_account(
    active: Seq<char>,
    accounts: Seq<Candidate<Seq<char>>>,
    offset: int,
)
    requires
        position(accounts, active) < accounts.len(),
        1 <= offset < accounts.len(),
        forall|i: int, j: int|
            0 <= i < j < accounts.len() ==> (#[trigger] accounts[i]).id != (
            #[trigger] accounts[j]).id,
    ensures
        (SearchView {
            active,
            accounts,
            active_index: position(accounts, active) as int,
            offset: 0,
        }).at(offset).id != active,
{
    lemma_position(accounts, active);
    let n = accounts.len() as int;
    let i = position(accounts, active) as int;
    if i + offset < n {
        assert((i + offset) % n == i + offset) by (nonlinear_arith)
            requires
                0 <= i + offset < n,
        ;
    } else {
        assert((i + offset) % n == i + offset - n) by (nonlinear_arith)
            requires
                n <= i + offset < 2 * n,
        ;
    }
}

// The course of the monitor.

/// A wake-up: what is found at it, as far as it is looked up, and what comes of a switch.
pub struct WakeUp {
    pub auto_switch: bool,
    pub claim_waits: bool,
    pub now_ns: u128,
    pub snapshot: Option<Snapshot>,
    pub live_quota: Option<Availability>,
    /// The quota of each account.
    pub quota: spec_fn(Seq<char>) -> Option<Availability>,
    pub recheck: Option<Recheck>,
    pub switched: Result<Switched<crate::json::JsonView>, Seq<char>>,
}

/// What a wake-up leads to: the accounts of the switch that is made, the pause at the end, and what
/// is remembered then.
pub struct Woken {
    pub switch: Option<(Seq<char>, Seq<char>)>,
    pub pause: MonitorStepView,
    pub after: MonitorView,
}

/// Whether the account library is looked at.
pub open spec fn looks(m: MonitorView, w: WakeUp) -> bool {
    after_wake(m, w.auto_switch, w.claim_waits, w.now_ns).0 is Snapshot
}

/// Whether a wake-up finds an account active and used up.
pub open spec fn finds_used_up(m: MonitorView, w: WakeUp, id: Seq<char>) -> bool {
    let m1 = after_wake(m, w.auto_switch, w.claim_waits, w.now_ns).1;
    &&& looks(m, w)
    &&& after_snapshot(m1, w.snapshot).0 matches MonitorStepView::LiveQuota { active, accounts }
        && active == id
    &&& w.live_quota == Some(Availability::Exhausted)
}

/// What follows the quota in use to the end of a wake-up.
pub open spec fn after_quota(
    m: MonitorView,
    active: Seq<char>,
    accounts: Seq<Candidate<Seq<char>>>,
    w: WakeUp,
) -> Woken {
    let (start, m1) = after_live_quota(m, active, accounts, w.live_quota);
    let (found, m2) = searched(start, m1, w.quota, accounts.len());
    match found {
        MonitorStepView::Recheck { active: a, target } => {
            let (order, m3) = after_recheck(m2, a, target, w.recheck);
            if order is Switch {
                let (pause, after) = after_switch(m3, a, w.switched);
                Woken { switch: Some((a, target)), pause, after }
            } else {
                Woken { switch: None, pause: order, after: m3 }
            }
        },
        _ => Woken { switch: None, pause: found, after: m2 },
    }
}

/// A wake-up from its first step to its pause.
pub open spec fn woken(m: MonitorView, w: WakeUp) -> Woken {
    let (look, m1) = after_wake(m, w.auto_switch, w.claim_waits, w.now_ns);
    if look is Snapshot {
        let (ask, m2) = after_snapshot(m1, w.snapshot);
        match ask {
            MonitorStepView::LiveQuota { active, accounts } => after_quota(m2, active, accounts, w),
            _ => Woken { switch: None, pause: ask, after: m2 },
        }
    } else {
        Woken { switch: None, pause: look, after: m1 }
    }
}

/// What is remembered after some wake-ups, where nothing was remembered at first.
pub open spec fn remembered(course: Seq<WakeUp>) -> MonitorView
    decreases course.len(),
{
    if course.len() == 0 {
        Monitor { last_check: None, exhausted_once: None, notified: None }
    } else {
        woken(remembered(course.drop_last()), course.last()).after
    }
}

/// The search keeps what was found used up and when the check was.
proof fn lemma_search_keeps(
    step: MonitorStepView,
    m: MonitorView,
    quota: spec_fn(Seq<char>) -> Option<Availability>,
    rounds: nat,
)
    ensures
        searched(step, m, quota, rounds).1.exhausted_once == m.exhausted_once,
        searched(step, m, quota, rounds).1.last_check == m.last_check,
    decreases rounds,
{
    match step {
        MonitorStepView::CandidateQuota { id, search } => if rounds > 0 {
            let (next, after) = after_candidate(m, search, quota(id));
            lemma_search_keeps(next, after, quota, (rounds - 1) as nat);
        },
        _ => {},
    }
}

/// What a wake-up leaves of what was found used up.
proof fn lemma_woken(m: MonitorView, w: WakeUp, id: Seq<char>)
    ensures
        woken(m, w).after.exhausted_once == Some(id) ==> w.auto_switch && (finds_used_up(m, w, id)
            || (!looks(m, w) && woken(m, w).after == m)),
        looks(m, w) ==> woken(m, w).after.last_check == Some(w.now_ns),
        woken(m, w).switch matches Some((active, target)) ==> finds_used_up(m, w, active)
            && m.exhausted_once == Some(active) && still_due(active, w.recheck),
{
    let (look, m1) = after_wake(m, w.auto_switch, w.claim_waits, w.now_ns);
    if look is Snapshot {
        let (ask, m2) = after_snapshot(m1, w.snapshot);
        match ask {
            MonitorStepView::LiveQuota { active, accounts } => {
                let (start, m3) = after_live_quota(m2, active, accounts, w.live_quota);
                lemma_search_keeps(start, m3, w.quota, accounts.len());
                lemma_search_end(start, m3, w.quota, accounts.len());
            },
            _ => {},
        }
    }
}

/// The search ends in a second look at the account that it started from.
proof fn lemma_search_end(
    step: MonitorStepView,
    m: MonitorView,
    quota: spec_fn(Seq<char>) -> Option<Availability>,
    rounds: nat,
)
    ensures
        searched(step, m, quota, rounds).0 matches MonitorStepView::Recheck { active, target } ==> (
        step matches MonitorStepView::CandidateQuota { id, search } && search.active == active)
            || step is Recheck,
    decreases rounds,
{
    match step {
        MonitorStepView::CandidateQuota { id, search } => if rounds > 0 {
            let (next, after) = after_candidate(m, search, quota(id));
            lemma_search_end(next, after, quota, (rounds - 1) as nat);
        },
        _ => {},
    }
}

/// Whether an account was found used up at one of some wake-ups, and at each that followed was
/// found so again or nothing was looked at, with switching on all the while.
pub open spec fn used_up_since(course: Seq<WakeUp>, j: int, id: Seq<char>) -> bool {
    &&& 0 <= j < course.len()
    &&& finds_used_up(remembered(course.take(j)), course[j], id)
    &&& forall|k: int|
        j < k < course.len() ==> (#[trigger] course[k]).auto_switch && (!looks(
            remembered(course.take(k)),
            course[k],
        ) || finds_used_up(remembered(course.take(k)), course[k], id))
}

proof fn lemma_used_up(course: Seq<WakeUp>, id: Seq<char>) -> (j: int)
    requires
        remembered(course).exhausted_once == Some(id),
    ensures
        used_up_since(course, j, id),
        remembered(course).last_check matches Some(at) && at >= course[j].now_ns,
    decreases course.len(),
{
    let n = course.len() - 1;
    let before = course.drop_last();
    let m = remembered(before);
    assert(before =~= course.take(n));
    lemma_woken(m, course.last(), id);
    if finds_used_up(m, course.last(), id) {
        n
    } else {
        let j = lemma_used_up(before, id);
        assert(before.take(j) =~= course.take(j));
        assert forall|k: int| j < k < course.len() implies (#[trigger] course[k]).auto_switch && (
        !looks(remembered(course.take(k)), course[k]) || finds_used_up(
            remembered(course.take(k)),
            course[k],
            id,
        )) by {
            if k < n {
                assert(before[k] == course[k]);
                assert(before.take(k) =~= course.take(k));
            }
        }
        j
    }
}

/// Whether an account is the first behind the active one, in a circle, that can be switched to.
pub open spec fn is_next_available(
    accounts: Seq<Candidate<Seq<char>>>,
    active: Seq<char>,
    quota: spec_fn(Seq<char>) -> Option<Availability>,
    target: Seq<char>,
) -> bool {
    let s = SearchView {
        active,
        accounts,
        active_index: position(accounts, active) as int,
        offset: 0,
    };
    exists|o: int|
        1 <= o < accounts.len() && #[trigger] fits(s, quota, o) && target == s.at(o).id && forall|
            k: int,
        | 1 <= k < o ==> !#[trigger] fits(s, quota, k)
}

/// Over every course of wake-ups, a switch away from an account is made only where that wake-up
/// finds it active and used up, an earlier one, at least the interval before, found so too, and
/// nothing else was found between them; and only where it is still due at the second look. The
/// account that is switched to is the next one that is available.
pub proof fn law_course_of_a_switch(course: Seq<WakeUp>, w: WakeUp)
    ensures
        woken(remembered(course), w).switch matches Some((active, target)) ==> {
            &&& finds_used_up(remembered(course), w, active)
            &&& still_due(active, w.recheck)
            &&& exists|j: int| #[trigger]
                used_up_since(course, j, active) && w.now_ns >= course[j].now_ns
                    + CHECK_INTERVAL_NANOS
            &&& w.snapshot matches Some(s) && is_next_available(
                candidates_view(s.accounts@),
                active,
                w.quota,
                target,
            )
        },
{
    let m = remembered(course);
    match woken(m, w).switch {
        Some((active, target)) => {
            lemma_woken(m, w, active);
            let j = lemma_used_up(course, active);
            assert(used_up_since(course, j, active));
            let m1 = after_wake(m, w.auto_switch, w.claim_waits, w.now_ns).1;
            let accounts = candidates_view(w.snapshot->0.accounts@);
            lemma_position(accounts, active);
            law_search_finds_the_next_available(m1, active, accounts, w.quota);
        },
        None => {},
    }
}

// Laws of single steps, in terms of what is found.

/// The monitor looks at the settings every ten seconds, and checks are ninety seconds apart.
pub proof fn law_times()
    ensures
        WAKE_SECONDS == 10,
        CHECK_INTERVAL_NANOS == 90 * 1_000_000_000,
{
}

/// A check is due where switching is on, no claim waits, and there was none before or the last was
/// at least ninety seconds ago, whatever was found and told before. A due check looks at the
/// library and is remembered; a wake-up without one, with switching on, tells nothing and leaves
/// what is remembered.
pub proof fn law_due_check_is_made(m: MonitorView, claim_waits: bool, now_ns: u128)
    ensures
        !claim_waits && (m.last_check matches Some(at) ==> now_ns >= at + 90_000_000_000) ==> {
            let (step, after) = after_wake(m, true, claim_waits, now_ns);
            &&& step is Snapshot
            &&& after.last_check == Some(now_ns)
            &&& after.exhausted_once == m.exhausted_once
            &&& after.notified == m.notified
        },
        claim_waits || (m.last_check matches Some(at) && now_ns < at + 90_000_000_000) ==> {
            let (step, after) = after_wake(m, true, claim_waits, now_ns);
            &&& step matches MonitorStepView::Pause { log, events } && log is None
                && events.len() == 0
            &&& after == m
        },
{
}

/// The quota in use is looked up exactly where the library could be read, an account is active, the
/// client runs, and there are at least two accounts. Else nothing is told, and what was found used
/// up is forgotten.
pub proof fn law_quota_is_asked_for(m: MonitorView, s: Snapshot)
    ensures
        after_snapshot(m, Some(s)).0 is LiveQuota <==> s.active is Some && s.running
            && s.accounts@.len() >= 2,
        after_snapshot(m, Some(s)).0 matches MonitorStepView::LiveQuota { active, accounts } ==> {
            &&& active == s.active->0@
            &&& accounts.len() == s.accounts@.len()
            &&& forall|i: int|
                0 <= i < accounts.len() ==> (#[trigger] accounts[i]).id == s.accounts@[i].id@
                    && accounts[i].has_config == s.accounts@[i].has_config
            &&& after_snapshot(m, Some(s)).1 == m
        },
        !(after_snapshot(m, Some(s)).0 is LiveQuota) ==> after_snapshot(m, Some(s))
            == after_snapshot(m, None),
        after_snapshot(m, None).0 matches MonitorStepView::Pause { log, events } && log is None
            && events.len() == 0,
        after_snapshot(m, None).1.exhausted_once is None,
        after_snapshot(m, None).1.notified == m.notified,
        after_snapshot(m, None).1.last_check == m.last_check,
{
}

/// A quota that cannot be looked up forgets what was found used up; one that is not used up forgets
/// also what the pages were told; the first that is used up, and one of an account that is not
/// among the accounts, changes only what was found used up. None of these tells anything.
pub proof fn law_quota_in_use(
    m: MonitorView,
    active: Seq<char>,
    accounts: Seq<Candidate<Seq<char>>>,
    reply: Option<Availability>,
)
    ensures
        reply is None ==> after_live_quota(m, active, accounts, reply) == (
            quiet(),
            Monitor { exhausted_once: None::<Seq<char>>, ..m },
        ),
        reply == Some(Availability::Available) || reply == Some(Availability::Unknown)
            ==> after_live_quota(m, active, accounts, reply) == (
            quiet(),
            Monitor { exhausted_once: None::<Seq<char>>, notified: None::<Seq<char>>, ..m },
        ),
        reply == Some(Availability::Exhausted) && m.exhausted_once != Some(active)
            ==> after_live_quota(m, active, accounts, reply) == (
            quiet(),
            Monitor { exhausted_once: Some(active), ..m },
        ),
        reply == Some(Availability::Exhausted) && m.exhausted_once == Some(active)
            && (forall|i: int|
            0 <= i < accounts.len() ==> (#[trigger] accounts[i]).id != active) ==> after_live_quota(
            m,
            active,
            accounts,
            reply,
        ) == (quiet(), Monitor { exhausted_once: None::<Seq<char>>, ..m }),
        quiet() matches MonitorStepView::Pause { log, events } && log is None && events.len() == 0,
{
    lemma_position(accounts, active);
}

/// An account is found at its first place among the accounts, and nowhere where it is not among
/// them.
pub proof fn law_position_is_first(accounts: Seq<Candidate<Seq<char>>>, id: Seq<char>, p: int)
    requires
        0 <= p <= accounts.len(),
        forall|q: int| 0 <= q < p ==> (#[trigger] accounts[q]).id != id,
        p < accounts.len() ==> accounts[p].id == id,
    ensures
        position(accounts, id) == p,
    decreases p,
{
    if p > 0 {
        let rest = accounts.skip(1);
        assert(accounts[0].id != id);
        assert forall|q: int| 0 <= q < p - 1 implies (#[trigger] rest[q]).id != id by {
            assert(rest[q] == accounts[q + 1]);
        }
        if p < accounts.len() {
            assert(rest[p - 1] == accounts[p]);
        }
        law_position_is_first(rest, id, p - 1);
    }
}

/// The search looks next at the first account from an offset on, in a circle behind the active one,
/// that has a configuration, and leaves what is remembered.
pub proof fn law_search_goes_on(m: MonitorView, s: SearchView, from: int, o: int)
    requires
        0 <= from <= o < s.accounts.len(),
        s.accounts[(s.active_index + o) % (s.accounts.len() as int)].has_config,
        forall|k: int|
            from <= k < o ==> !(#[trigger] s.accounts[(s.active_index + k) % (
            s.accounts.len() as int)]).has_config,
    ensures
        after_search(m, s, from) == (
            MonitorStepView::CandidateQuota {
                id: s.accounts[(s.active_index + o) % (s.accounts.len() as int)].id,
                search: SearchView { offset: o, ..s },
            },
            m,
        ),
{
    lemma_next_offset(s, from);
    let p = next_offset(s, from);
    if p < o {
        assert(!s.accounts[(s.active_index + p) % (s.accounts.len() as int)].has_config);
        assert(s.at(p).has_config);
    }
    if o < p {
        assert(!s.at(o).has_config);
    }
}

/// Where no account from an offset on has a configuration, nothing is switched, and the pages are
/// told so unless they were told so of the same account before.
pub proof fn law_search_finds_none(m: MonitorView, s: SearchView, from: int)
    requires
        0 <= from <= s.accounts.len(),
        forall|k: int|
            from <= k < s.accounts.len() ==> !(#[trigger] s.accounts[(s.active_index + k) % (
            s.accounts.len() as int)]).has_config,
    ensures
        after_search(m, s, from).0 matches MonitorStepView::Pause { log, events } && {
            &&& log is None
            &&& m.notified == Some(s.active) ==> events.len() == 0
            &&& m.notified != Some(s.active) ==> events.len() == 1 && events[0].0
                == "auto-switch-result"@ && events[0].1.text_member("status"@) == Some(
                "no-candidate"@,
            )
        },
        after_search(m, s, from).1.notified == Some(s.active),
        after_search(m, s, from).1.exhausted_once == m.exhausted_once,
        after_search(m, s, from).1.last_check == m.last_check,
{
    lemma_next_offset(s, from);
    let p = next_offset(s, from);
    if p < s.accounts.len() {
        assert(!s.accounts[(s.active_index + p) % (s.accounts.len() as int)].has_config);
        assert(s.at(p).has_config);
    }
    crate::json::lemma_entries_map_at(
        seq![("status"@, crate::json::JsonView::Text("no-candidate"@))],
        0,
    );
}

/// An account whose quota allows a conversation is the one to switch to; behind any other the
/// search goes on at the next offset.
pub proof fn law_candidate(m: MonitorView, s: SearchView, reply: Option<Availability>)
    ensures
        reply == Some(Availability::Available) ==> after_candidate(m, s, reply) == (
            MonitorStepView::Recheck {
                active: s.active,
                target: s.accounts[(s.active_index + s.offset) % (s.accounts.len() as int)].id,
            },
            m,
        ),
        reply != Some(Availability::Available) ==> after_candidate(m, s, reply) == after_search(
            m,
            s,
            s.offset + 1,
        ),
{
}

/// A switch is made by force, with a restart of the client and not while it runs, exactly where
/// switching is still on, the client still runs, and the account is still active. Else nothing is
/// told, and what was found and told is forgotten.
pub proof fn law_second_look(
    m: MonitorView,
    active: Seq<char>,
    target: Seq<char>,
    c: Recheck,
)
    ensures
        c.auto_switch && c.running && c.active is Some && c.active->0@ == active ==> after_recheck(
            m,
            active,
            target,
            Some(c),
        ) == (
            MonitorStepView::Switch { active, target, force: true, restart: true, hot: false },
            m,
        ),
        !(c.auto_switch && c.running && c.active is Some && c.active->0@ == active)
            ==> after_recheck(m, active, target, Some(c)) == after_recheck(m, active, target, None),
        after_recheck(m, active, target, None).0 matches MonitorStepView::Pause { log, events }
            && log
            is None && events.len() == 0,
        after_recheck(m, active, target, None).1.exhausted_once is None,
        after_recheck(m, active, target, None).1.notified is None,
        after_recheck(m, active, target, None).1.last_check == m.last_check,
{
}

/// After a switch the pages are told that the state is another, and then, where an account was
/// switched to, its name, what went wrong with starting the client and whether the configuration is
/// stale. What was found and told is forgotten.
pub proof fn law_switch_is_told(
    m: MonitorView,
    active: Seq<char>,
    s: Switched<crate::json::JsonView>,
    other: Seq<char>,
)
    ensures
        after_switch(m, active, Ok(s)).0 matches MonitorStepView::Pause { log, events } && {
            &&& log is None
            &&& events.len() == (if s.switched { 2int } else { 1 })
            &&& events[0].0 == "state-changed"@
            &&& events[0].1 is Null
            &&& s.switched ==> {
                let v = events[1].1;
                &&& events[1].0 == "auto-switch-result"@
                &&& v.text_member("status"@) == Some("switched"@)
                &&& v.member("name"@) == Some(s.name)
                &&& v.member("launchError"@) == Some(s.launch_error)
                &&& v.member("configStale"@) == Some(s.config_stale)
                &&& other != "status"@ && other != "name"@ && other != "launchError"@ && other
                    != "configStale"@ ==> v.member(other) is None
            }
        },
        after_switch(m, active, Ok(s)).1.exhausted_once is None,
        after_switch(m, active, Ok(s)).1.notified is None,
        after_switch(m, active, Ok(s)).1.last_check == m.last_check,
{
    reveal_strlit("status");
    reveal_strlit("name");
    reveal_strlit("launchError");
    reveal_strlit("configStale");
    assert("launchError"@[0] == 'l' && "configStale"@[0] == 'c');
    assert("status"@.len() == 6 && "name"@.len() == 4 && "launchError"@.len() == 11);
    let entries = seq![
        ("status"@, crate::json::JsonView::Text("switched"@)),
        ("name"@, s.name),
        ("launchError"@, s.launch_error),
        ("configStale"@, s.config_stale),
    ];
    crate::json::lemma_entries_map_at(entries, 0);
    crate::json::lemma_entries_map_at(entries, 1);
    crate::json::lemma_entries_map_at(entries, 2);
    crate::json::lemma_entries_map_at(entries, 3);
    crate::json::lemma_entries_map(entries, other);
}

/// A switch that fails is logged in its words, and the pages are told them unless they were told of
/// a failure for the same account before. The account has to be found used up twice anew.
pub proof fn law_failed_switch_is_told_once(m: MonitorView, active: Seq<char>, e: Seq<char>)
    ensures
        after_switch(m, active, Err(e)).0 matches MonitorStepView::Pause { log, events } && {
            &&& log == Some("auto switch failed: "@ + e)
            &&& m.notified == Some(active) ==> events.len() == 0
            &&& m.notified != Some(active) ==> {
                &&& events.len() == 1
                &&& events[0].0 == "auto-switch-result"@
                &&& events[0].1.text_member("status"@) == Some("error"@)
                &&& events[0].1.text_member("error"@) == Some(e)
            }
        },
        after_switch(m, active, Err(e)).1.exhausted_once is None,
        after_switch(m, active, Err(e)).1.notified == Some(active),
        after_switch(m, active, Err(e)).1.last_check == m.last_check,
{
    reveal_strlit("status");
    reveal_strlit("error");
    assert("status"@.len() == 6 && "error"@.len() == 5);
    let entries = seq![
        ("status"@, crate::json::JsonView::Text("error"@)),
        ("error"@, crate::json::JsonView::Text(e)),
    ];
    crate::json::lemma_entries_map_at(entries, 0);
    crate::json::lemma_entries_map_at(entries, 1);
}

/// What is carried shows each of its parts.
pub proof fn law_monitor_parts(
    m: TextMonitor,
    accounts: Seq<Candidate<String>>,
    i: int,
    s: Switched<Json>,
)
    ensures
        monitor_view(m).last_check == m.last_check,
        monitor_view(m).exhausted_once == crate::step::opt_text(m.exhausted_once),
        monitor_view(m).notified == crate::step::opt_text(m.notified),
        candidates_view(accounts).len() == accounts.len(),
        0 <= i < accounts.len() ==> candidates_view(accounts)[i].id == accounts[i].id@
            && candidates_view(accounts)[i].has_config == accounts[i].has_config,
        switched_view(s).switched == s.switched,
        switched_view(s).name == s.name@,
        switched_view(s).launch_error == s.launch_error@,
        switched_view(s).config_stale == s.config_stale@,
{
}

/// A step that is carried shows each of its parts.
pub proof fn law_monitor_step_parts(s: MonitorStep)
    ensures
        match s {
            MonitorStep::Pause { log, events } => s.view() matches MonitorStepView::Pause {
                log: l,
                events: e,
            } && l == crate::step::opt_text(log) && e == crate::json::entry_views(events@),
            MonitorStep::Snapshot => s.view() is Snapshot,
            MonitorStep::LiveQuota { active, accounts } =>
                s.view() matches MonitorStepView::LiveQuota {
                active: a,
                accounts: c,
            } && a == active@ && c == candidates_view(accounts@),
            MonitorStep::CandidateQuota { id, search } => s.view()
                matches MonitorStepView::CandidateQuota { id: i, search: v } && i == id@ && v
                == search.view(),
            MonitorStep::Recheck { active, target } => s.view() matches MonitorStepView::Recheck {
                active: a,
                target: t,
            } && a == active@ && t == target@,
            MonitorStep::Switch { active, target, force, restart, hot } => s.view()
                matches MonitorStepView::Switch {
                active: a,
                target: t,
                force: f,
                restart: r,
                hot: h,
            } && a == active@ && t == target@ && f == force && r == restart && h == hot,
        },
{
}

// Laws of whole wake-ups, in terms of what is found.

/// Whether a check is due at a wake-up: switching is on, no claim waits, and the last check is at
/// least ninety seconds ago.
pub open spec fn is_due(m: MonitorView, w: WakeUp) -> bool {
    &&& w.auto_switch
    &&& !w.claim_waits
    &&& m.last_check matches Some(at) ==> w.now_ns >= at + 90_000_000_000
}

/// Whether what is looked up at a wake-up shows that the client runs under an account whose quota
/// is used up.
pub open spec fn shows_used_up(w: WakeUp, s: Snapshot, active: Seq<char>) -> bool {
    &&& w.snapshot == Some(s)
    &&& s.active is Some
    &&& s.active->0@ == active
    &&& s.running
    &&& s.accounts@.len() >= 2
    &&& w.live_quota == Some(Availability::Exhausted)
}

/// Whether the second look of a wake-up shows that nothing has changed.
pub open spec fn shows_no_change(w: WakeUp, active: Seq<char>) -> bool {
    w.recheck matches Some(c) && c.auto_switch && c.running && c.active is Some && c.active->0@
        == active
}

/// Whether an account can be switched to: it has a configuration, and its quota allows a
/// conversation.
pub open spec fn can_serve(w: WakeUp, c: Candidate<String>) -> bool {
    c.has_config && (w.quota)(c.id@) == Some(Availability::Available)
}

/// A due check that finds the active account used up, as the check before did, switches to the
/// first account behind it, in a circle, that can serve, where the second look shows no change.
pub proof fn law_used_up_account_is_left(
    m: MonitorView,
    w: WakeUp,
    s: Snapshot,
    active: Seq<char>,
    p: int,
    o: int,
)
    requires
        m.exhausted_once == Some(active),
        is_due(m, w),
        shows_used_up(w, s, active),
        shows_no_change(w, active),
        0 <= p < s.accounts@.len(),
        s.accounts@[p].id@ == active,
        forall|q: int| 0 <= q < p ==> (#[trigger] s.accounts@[q]).id@ != active,
        1 <= o < s.accounts@.len(),
        can_serve(w, s.accounts@[(p + o) % (s.accounts@.len() as int)]),
        forall|k: int|
            1 <= k < o ==> !can_serve(
                w,
                #[trigger] s.accounts@[(p + k) % (s.accounts@.len() as int)],
            ),
    ensures
        woken(m, w).switch == Some((active, s.accounts@[(p + o) % (s.accounts@.len() as int)].id@)),
{
    let accounts = candidates_view(s.accounts@);
    let n = accounts.len() as int;
    assert forall|q: int| 0 <= q < p implies (#[trigger] accounts[q]).id != active by {
        assert(s.accounts@[q].id@ != active);
    }
    law_position_is_first(accounts, active, p);
    let m1 = Monitor { last_check: Some(w.now_ns), ..m };
    law_search_finds_the_next_available(m1, active, accounts, w.quota);
    let v = SearchView { active, accounts, active_index: p, offset: 0 };
    assert forall|k: int| 1 <= k < n implies #[trigger] fits(v, w.quota, k) == can_serve(
        w,
        s.accounts@[(p + k) % n],
    ) && v.at(k).id == s.accounts@[(p + k) % n].id@ by {
        assert(0 <= (p + k) % n < n) by (nonlinear_arith)
            requires
                n > 0,
        ;
        assert(v.at(k) == accounts[(p + k) % n]);
    }
    assert(fits(v, w.quota, o));
    let (start, m2) = after_live_quota(m1, active, accounts, Some(Availability::Exhausted));
    let (end, m3) = searched(start, m2, w.quota, accounts.len());
    match end {
        MonitorStepView::Recheck { active: a, target } => {
            let c = choose|c: int|
                1 <= c < n && #[trigger] fits(v, w.quota, c) && target == v.at(c).id
                    && forall|k: int|
                    1 <= k < c ==> !#[trigger] fits(v, w.quota, k);
            if c < o {
                assert(!can_serve(w, s.accounts@[(p + c) % n]));
            }
            assert(c == o);
        },
        _ => {},
    }
}

/// The offset of an account behind another, in a circle.
proof fn lemma_offset(p: int, i: int, n: int) -> (o: int)
    requires
        0 <= p < n,
        0 <= i < n,
        i != p,
    ensures
        1 <= o < n,
        (p + o) % n == i,
{
    if i > p {
        assert((p + (i - p)) % n == i) by (nonlinear_arith)
            requires
                0 <= i < n,
        ;
        i - p
    } else {
        assert((p + (i - p + n)) % n == i) by (nonlinear_arith)
            requires
                0 <= i < n,
        ;
        i - p + n
    }
}

/// The first offset at which an account can serve, where there is one.
proof fn lemma_first_server(w: WakeUp, s: Snapshot, p: int, o: int) -> (r: int)
    requires
        1 <= o < s.accounts@.len(),
        can_serve(w, s.accounts@[(p + o) % (s.accounts@.len() as int)]),
    ensures
        1 <= r <= o,
        can_serve(w, s.accounts@[(p + r) % (s.accounts@.len() as int)]),
        forall|k: int|
            1 <= k < r ==> !can_serve(
                w,
                #[trigger] s.accounts@[(p + k) % (s.accounts@.len() as int)],
            ),
    decreases o,
{
    let n = s.accounts@.len() as int;
    if exists|k: int| 1 <= k < o && can_serve(w, #[trigger] s.accounts@[(p + k) % n]) {
        let k = choose|k: int| 1 <= k < o && can_serve(w, #[trigger] s.accounts@[(p + k) % n]);
        lemma_first_server(w, s, p, k)
    } else {
        o
    }
}

/// Where the check before found the active account used up, a due check that finds so again makes a
/// switch away from it, as long as another account can serve and the second look shows no change.
pub proof fn law_second_finding_switches(
    m: MonitorView,
    w: WakeUp,
    s: Snapshot,
    active: Seq<char>,
    p: int,
    i: int,
)
    requires
        m.exhausted_once == Some(active),
        is_due(m, w),
        shows_used_up(w, s, active),
        shows_no_change(w, active),
        0 <= p < s.accounts@.len(),
        s.accounts@[p].id@ == active,
        forall|q: int| 0 <= q < p ==> (#[trigger] s.accounts@[q]).id@ != active,
        0 <= i < s.accounts@.len(),
        i != p,
        can_serve(w, s.accounts@[i]),
    ensures
        woken(m, w).switch matches Some((a, target)) && a == active,
{
    let n = s.accounts@.len() as int;
    let o = lemma_offset(p, i, n);
    let r = lemma_first_server(w, s, p, o);
    law_used_up_account_is_left(m, w, s, active, p, r);
}

/// Two checks in a row, each due, that find the active account used up lead to a switch away from
/// it at the second, or at the first where it was found so before, as long as at each another
/// account can serve and the second look shows no change.
pub proof fn law_two_findings_switch(
    m: MonitorView,
    w1: WakeUp,
    s1: Snapshot,
    p1: int,
    i1: int,
    w2: WakeUp,
    s2: Snapshot,
    p2: int,
    i2: int,
    active: Seq<char>,
)
    requires
        is_due(m, w1),
        shows_used_up(w1, s1, active),
        shows_no_change(w1, active),
        0 <= p1 < s1.accounts@.len(),
        s1.accounts@[p1].id@ == active,
        forall|q: int| 0 <= q < p1 ==> (#[trigger] s1.accounts@[q]).id@ != active,
        0 <= i1 < s1.accounts@.len(),
        i1 != p1,
        can_serve(w1, s1.accounts@[i1]),
        w2.auto_switch,
        !w2.claim_waits,
        w2.now_ns >= w1.now_ns + 90_000_000_000,
        shows_used_up(w2, s2, active),
        shows_no_change(w2, active),
        0 <= p2 < s2.accounts@.len(),
        s2.accounts@[p2].id@ == active,
        forall|q: int| 0 <= q < p2 ==> (#[trigger] s2.accounts@[q]).id@ != active,
        0 <= i2 < s2.accounts@.len(),
        i2 != p2,
        can_serve(w2, s2.accounts@[i2]),
    ensures
        woken(m, w1).switch is Some || woken(woken(m, w1).after, w2).switch is Some,
        m.exhausted_once != Some(active) ==> woken(woken(m, w1).after, w2).switch is Some,
{
    if m.exhausted_once == Some(active) {
        law_second_finding_switches(m, w1, s1, active, p1, i1);
    } else {
        let m1 = woken(m, w1).after;
        assert(m1.exhausted_once == Some(active)) by {
            reveal_with_fuel(searched, 2);
        }
        lemma_woken(m, w1, active);
        law_second_finding_switches(m1, w2, s2, active, p2, i2);
    }
}

/// A switch is made only at a due check that finds the active account used up, as the check before
/// did, where the second look shows no change.
pub proof fn law_switch_has_its_reasons(m: MonitorView, w: WakeUp)
    ensures
        woken(m, w).switch matches Some((active, target)) ==> {
            &&& is_due(m, w)
            &&& m.exhausted_once == Some(active)
            &&& w.snapshot is Some
            &&& shows_used_up(w, w.snapshot->0, active)
            &&& shows_no_change(w, active)
        },
{
    match woken(m, w).switch {
        Some((active, target)) => {
            lemma_woken(m, w, active);
        },
        None => {},
    }
}

/// A wake-up at which no check is due tells nothing and switches nothing; with switching on it
/// leaves what is remembered, and with switching off it forgets all.
pub proof fn law_nothing_without_a_due_check(m: MonitorView, w: WakeUp)
    requires
        !is_due(m, w),
    ensures
        woken(m, w).switch is None,
        woken(m, w).pause matches MonitorStepView::Pause { log, events } && log is None
            && events.len()
            == 0,
        w.auto_switch ==> woken(m, w).after == m,
        !w.auto_switch ==> woken(m, w).after.last_check is None && woken(
            m,
            w,
        ).after.exhausted_once is None && woken(m, w).after.notified is None,
{
}

/// The second check in a row that finds the active account used up starts the search at the account
/// behind it, and leaves what is remembered to the search.
pub proof fn law_search_starts(
    m: MonitorView,
    active: Seq<char>,
    accounts: Seq<Candidate<Seq<char>>>,
    p: int,
)
    requires
        m.exhausted_once == Some(active),
        0 <= p < accounts.len(),
        accounts[p].id == active,
        forall|q: int| 0 <= q < p ==> (#[trigger] accounts[q]).id != active,
    ensures
        after_live_quota(m, active, accounts, Some(Availability::Exhausted)) == after_search(
            m,
            SearchView { active, accounts, active_index: p, offset: 0 },
            1,
        ),
{
    law_position_is_first(accounts, active, p);
}

} // verus!
