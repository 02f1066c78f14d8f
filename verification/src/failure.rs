//! Why a command fails, and the words for it.

use vstd::prelude::*;

verus! {

/// Why a command fails. Most reasons are told in the language of the user.
#[derive(Debug)]
pub enum Failure<S> {
    /// In words that are told as they are.
    Text(S),
    /// The plan that was chosen is not on offer any more.
    PlanGone,
    /// There is no claim to go on with.
    NoClaimPending,
    /// A proxy is switched on without an address.
    ProxyNeedsUrl,
    /// The client did not end in time.
    KillTimeout,
    /// A language that is not known.
    UnknownLanguage(S),
    /// The client is not where it should be.
    ClientPathInvalid(S),
    /// There is no account to export.
    NothingToExport,
    /// There is no account to write out.
    NoAccountToWrite,
    /// A file could not be written.
    CannotWrite(S),
    /// A login service that is not known.
    UnknownProvider(S),
    /// A login was not completed in time.
    LoginExpired,
    /// A login brought no token.
    NoToken,
    /// No business token could be had for a login.
    NoBusinessToken,
    /// The contents of a file were not sent.
    CannotRead { file: S, reason: S },
    /// A file is not sealed.
    NotSealed { file: S },
    /// A file is sealed, but is no bundle of accounts.
    NotBundle { file: S },
    /// A file is not JSON.
    NotJson { file: S, reason: S },
    /// A sealed file could not be opened.
    CannotOpen { file: S, reason: S },
}

/// What a failure is.
pub open spec fn failure_view(f: Failure<String>) -> Failure<Seq<char>> {
    match f {
        Failure::Text(s) => Failure::Text(s@),
        Failure::PlanGone => Failure::PlanGone,
        Failure::NoClaimPending => Failure::NoClaimPending,
        Failure::ProxyNeedsUrl => Failure::ProxyNeedsUrl,
        Failure::KillTimeout => Failure::KillTimeout,
        Failure::UnknownLanguage(s) => Failure::UnknownLanguage(s@),
        Failure::ClientPathInvalid(s) => Failure::ClientPathInvalid(s@),
        Failure::NothingToExport => Failure::NothingToExport,
        Failure::NoAccountToWrite => Failure::NoAccountToWrite,
        Failure::CannotWrite(s) => Failure::CannotWrite(s@),
        Failure::UnknownProvider(s) => Failure::UnknownProvider(s@),
        Failure::LoginExpired => Failure::LoginExpired,
        Failure::NoToken => Failure::NoToken,
        Failure::NoBusinessToken => Failure::NoBusinessToken,
        Failure::CannotRead { file, reason } => Failure::CannotRead { file: file@, reason: reason@ },
        Failure::NotSealed { file } => Failure::NotSealed { file: file@ },
        Failure::NotBundle { file } => Failure::NotBundle { file: file@ },
        Failure::NotJson { file, reason } => Failure::NotJson { file: file@, reason: reason@ },
        Failure::CannotOpen { file, reason } => Failure::CannotOpen { file: file@, reason: reason@ },
    }
}

/// The words for a failure: as they are, or a key into the messages and what is filled in.
#[derive(Debug)]
pub enum Wording {
    Text(String),
    Message { key: &'static str, fills: Vec<(&'static str, String)> },
}

/// The key into the messages.
pub open spec fn message_key(f: Failure<Seq<char>>) -> Seq<char> {
    match f {
        Failure::Text(s) => Seq::empty(),
        Failure::PlanGone => "err.claim.gone"@,
        Failure::NoClaimPending => "err.claim.none_pending"@,
        Failure::ProxyNeedsUrl => "err.proxy.need_url"@,
        Failure::KillTimeout => "err.zcode.kill_timeout"@,
        Failure::UnknownLanguage(s) => "err.lang.unknown"@,
        Failure::ClientPathInvalid(s) => "err.zcode.path_invalid_hint"@,
        Failure::NothingToExport => "err.export.empty"@,
        Failure::NoAccountToWrite => "err.export.empty_short"@,
        Failure::CannotWrite(s) => "err.write"@,
        Failure::UnknownProvider(s) => "err.oauth.unknown_provider"@,
        Failure::LoginExpired => "err.oauth.expired"@,
        Failure::NoToken => "err.oauth.no_token"@,
        Failure::NoBusinessToken => "err.oauth.zai_business"@,
        Failure::CannotRead { file, reason } => "err.import.read"@,
        Failure::NotSealed { file } => "err.import.not_sealed"@,
        Failure::NotBundle { file } => "err.import.not_bundle"@,
        Failure::NotJson { file, reason } => "err.import.json"@,
        Failure::CannotOpen { file, reason } => "err.import.wrap"@,
    }
}

/// What is filled into the message.
pub open spec fn message_fills(f: Failure<Seq<char>>) -> Seq<(Seq<char>, Seq<char>)> {
    match f {
        Failure::UnknownLanguage(s) => seq![("lang"@, s)],
        Failure::ClientPathInvalid(s) => seq![("p"@, s)],
        Failure::CannotWrite(s) => seq![("e"@, s)],
        Failure::UnknownProvider(s) => seq![("provider"@, s)],
        Failure::CannotRead { file, reason } => seq![("fname"@, file), ("e"@, reason)],
        Failure::NotSealed { file } => seq![("fname"@, file)],
        Failure::NotBundle { file } => seq![("fname"@, file)],
        Failure::NotJson { file, reason } => seq![("fname"@, file), ("e"@, reason)],
        Failure::CannotOpen { file, reason } => seq![("fname"@, file), ("e"@, reason)],
        _ => Seq::empty(),
    }
}

/// What is filled in, as text.
pub open spec fn fills_view(fills: Seq<(&'static str, String)>) -> Seq<(Seq<char>, Seq<char>)> {
    Seq::new(fills.len(), |i: int| (fills[i].0@, fills[i].1@))
}

/// The words for a failure.
pub fn wording(f: Failure<String>) -> (r: Wording)
    ensures
        match f {
            Failure::Text(s) => r matches Wording::Text(t) && t@ == s@,
            _ => r matches Wording::Message { key, fills } && key@ == message_key(failure_view(f))
                && fills_view(fills@) == message_fills(failure_view(f)),
        },
{
    let ghost v = failure_view(f);
    let (key, fills): (&'static str, Vec<(&'static str, String)>) = match f {
        Failure::Text(s) => {
            return Wording::Text(s);
        },
        Failure::PlanGone => ("err.claim.gone", Vec::new()),
        Failure::NoClaimPending => ("err.claim.none_pending", Vec::new()),
        Failure::ProxyNeedsUrl => ("err.proxy.need_url", Vec::new()),
        Failure::KillTimeout => ("err.zcode.kill_timeout", Vec::new()),
        Failure::UnknownLanguage(s) => ("err.lang.unknown", vec![("lang", s)]),
        Failure::ClientPathInvalid(s) => ("err.zcode.path_invalid_hint", vec![("p", s)]),
        Failure::NothingToExport => ("err.export.empty", Vec::new()),
        Failure::NoAccountToWrite => ("err.export.empty_short", Vec::new()),
        Failure::CannotWrite(s) => ("err.write", vec![("e", s)]),
        Failure::UnknownProvider(s) => ("err.oauth.unknown_provider", vec![("provider", s)]),
        Failure::LoginExpired => ("err.oauth.expired", Vec::new()),
        Failure::NoToken => ("err.oauth.no_token", Vec::new()),
        Failure::NoBusinessToken => ("err.oauth.zai_business", Vec::new()),
        Failure::CannotRead { file, reason } => (
            "err.import.read",
            vec![("fname", file), ("e", reason)],
        ),
        Failure::NotSealed { file } => ("err.import.not_sealed", vec![("fname", file)]),
        Failure::NotBundle { file } => ("err.import.not_bundle", vec![("fname", file)]),
        Failure::NotJson { file, reason } => ("err.import.json", vec![("fname", file), ("e", reason)]),
        Failure::CannotOpen { file, reason } => (
            "err.import.wrap",
            vec![("fname", file), ("e", reason)],
        ),
    };
    assert(fills_view(fills@) =~= message_fills(v));
    Wording::Message { key, fills }
}

// Laws.

/// Each failure has its key into the messages.
pub proof fn law_message_keys(a: Seq<char>, b: Seq<char>)
    ensures
        message_key(Failure::PlanGone) == "err.claim.gone"@,
        message_key(Failure::NoClaimPending) == "err.claim.none_pending"@,
        message_key(Failure::ProxyNeedsUrl) == "err.proxy.need_url"@,
        message_key(Failure::KillTimeout) == "err.zcode.kill_timeout"@,
        message_key(Failure::UnknownLanguage(a)) == "err.lang.unknown"@,
        message_key(Failure::ClientPathInvalid(a)) == "err.zcode.path_invalid_hint"@,
        message_key(Failure::NothingToExport) == "err.export.empty"@,
        message_key(Failure::NoAccountToWrite) == "err.export.empty_short"@,
        message_key(Failure::CannotWrite(a)) == "err.write"@,
        message_key(Failure::UnknownProvider(a)) == "err.oauth.unknown_provider"@,
        message_key(Failure::LoginExpired) == "err.oauth.expired"@,
        message_key(Failure::NoToken) == "err.oauth.no_token"@,
        message_key(Failure::NoBusinessToken) == "err.oauth.zai_business"@,
        message_key(Failure::CannotRead { file: a, reason: b }) == "err.import.read"@,
        message_key(Failure::NotSealed { file: a }) == "err.import.not_sealed"@,
        message_key(Failure::NotBundle { file: a }) == "err.import.not_bundle"@,
        message_key(Failure::NotJson { file: a, reason: b }) == "err.import.json"@,
        message_key(Failure::CannotOpen { file: a, reason: b }) == "err.import.wrap"@,
{
}

/// What a failure tells of is filled into its message: a file by its name, and behind it the
/// reason; and nothing is filled in for a failure that tells of nothing.
pub proof fn law_message_fills(a: Seq<char>, b: Seq<char>, f: Failure<Seq<char>>)
    ensures
        message_fills(Failure::UnknownLanguage(a)) == seq![("lang"@, a)],
        message_fills(Failure::ClientPathInvalid(a)) == seq![("p"@, a)],
        message_fills(Failure::CannotWrite(a)) == seq![("e"@, a)],
        message_fills(Failure::UnknownProvider(a)) == seq![("provider"@, a)],
        message_fills(Failure::NotSealed { file: a }) == seq![("fname"@, a)],
        message_fills(Failure::NotBundle { file: a }) == seq![("fname"@, a)],
        message_fills(Failure::CannotRead { file: a, reason: b }) == seq![("fname"@, a), ("e"@, b)],
        message_fills(Failure::NotJson { file: a, reason: b }) == seq![("fname"@, a), ("e"@, b)],
        message_fills(Failure::CannotOpen { file: a, reason: b }) == seq![("fname"@, a), ("e"@, b)],
        f is PlanGone || f is NoClaimPending || f is ProxyNeedsUrl || f is KillTimeout || f
            is NothingToExport || f is NoAccountToWrite || f is LoginExpired || f is NoToken || f
            is NoBusinessToken ==> message_fills(f).len() == 0,
{
}

/// What is filled in is shown in order.
pub proof fn law_fills(fills: Seq<(&'static str, String)>, i: int)
    ensures
        fills_view(fills).len() == fills.len(),
        0 <= i < fills.len() ==> fills_view(fills)[i] == (fills[i].0@, fills[i].1@),
{
}

/// A failure that is carried shows each of its parts.
pub proof fn law_failure_parts(x: Failure<String>)
    ensures
        match x {
            Failure::Text(a) => failure_view(x) matches Failure::Text(v) && v == a@,
            Failure::PlanGone => failure_view(x) is PlanGone,
            Failure::NoClaimPending => failure_view(x) is NoClaimPending,
            Failure::ProxyNeedsUrl => failure_view(x) is ProxyNeedsUrl,
            Failure::KillTimeout => failure_view(x) is KillTimeout,
            Failure::UnknownLanguage(a) => failure_view(x) matches Failure::UnknownLanguage(v)
                && v == a@,
            Failure::ClientPathInvalid(a) => failure_view(x) matches Failure::ClientPathInvalid(v)
                && v == a@,
            Failure::NothingToExport => failure_view(x) is NothingToExport,
            Failure::NoAccountToWrite => failure_view(x) is NoAccountToWrite,
            Failure::CannotWrite(a) => failure_view(x) matches Failure::CannotWrite(v) && v == a@,
            Failure::UnknownProvider(a) => failure_view(x) matches Failure::UnknownProvider(v)
                && v == a@,
            Failure::LoginExpired => failure_view(x) is LoginExpired,
            Failure::NoToken => failure_view(x) is NoToken,
            Failure::NoBusinessToken => failure_view(x) is NoBusinessToken,
            Failure::CannotRead { file, reason } =>
                failure_view(x) matches Failure::CannotRead { file: v0, reason: v1 } && v0 == file@
                && v1 == reason@,
            Failure::NotSealed { file } => failure_view(x) matches Failure::NotSealed { file: v0 }
                && v0 == file@,
            Failure::NotBundle { file } => failure_view(x) matches Failure::NotBundle { file: v0 }
                && v0 == file@,
            Failure::NotJson { file, reason } =>
                failure_view(x) matches Failure::NotJson { file: v0, reason: v1 } && v0 == file@
                && v1 == reason@,
            Failure::CannotOpen { file, reason } =>
                failure_view(x) matches Failure::CannotOpen { file: v0, reason: v1 } && v0 == file@
                && v1 == reason@,
        },
{
}

} // verus!
