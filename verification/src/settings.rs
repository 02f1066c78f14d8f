//! The settings and how they are changed.

use vstd::prelude::*;

use crate::failure::Failure;
use crate::json::Json;
use crate::step::{fail, fail_text, AfterSave, Change, Done, Step, TextStep};

verus! {

/// The settings that commands change. One that is missing has its usual value.
#[derive(Debug)]
pub struct Settings<S> {
    pub launch_after_switch: Option<bool>,
    pub close_to_tray: Option<bool>,
    pub hot_switch: Option<bool>,
    pub auto_claim: Option<bool>,
    pub auto_switch: Option<bool>,
    pub auth_proxy_on: Option<bool>,
    pub auth_proxy_url: Option<S>,
    pub language: Option<S>,
    pub theme: Option<S>,
    pub zcode_path: Option<S>,
}

/// What settings are.
pub open spec fn settings_view(s: Settings<String>) -> Settings<Seq<char>> {
    Settings {
        launch_after_switch: s.launch_after_switch,
        close_to_tray: s.close_to_tray,
        hot_switch: s.hot_switch,
        auto_claim: s.auto_claim,
        auto_switch: s.auto_switch,
        auth_proxy_on: s.auth_proxy_on,
        auth_proxy_url: crate::step::opt_text(s.auth_proxy_url),
        language: crate::step::opt_text(s.language),
        theme: crate::step::opt_text(s.theme),
        zcode_path: crate::step::opt_text(s.zcode_path),
    }
}

/// The new value of a setting, or the old one where none is given.
pub open spec fn replaced(old_value: Option<bool>, given: Option<bool>) -> Option<bool> {
    match given {
        Some(v) => Some(v),
        None => old_value,
    }
}

/// The settings after a change. What the change does not speak of stays.
pub open spec fn changed(s: Settings<Seq<char>>, c: Change<Seq<char>>) -> Settings<Seq<char>> {
    match c {
        Change::Proxy { on, url } => Settings {
            auth_proxy_on: Some(on),
            auth_proxy_url: url,
            ..s
        },
        Change::Behavior {
            launch_after_switch,
            close_to_tray,
            hot_switch,
            auto_claim,
            auto_switch,
        } => Settings {
            launch_after_switch: replaced(s.launch_after_switch, launch_after_switch),
            close_to_tray: replaced(s.close_to_tray, close_to_tray),
            hot_switch: replaced(s.hot_switch, hot_switch),
            auto_claim: replaced(s.auto_claim, auto_claim),
            auto_switch: replaced(s.auto_switch, auto_switch),
            ..s
        },
        Change::Language(lang) => Settings { language: Some(lang), ..s },
        Change::Theme(theme) => Settings { theme: Some(theme), ..s },
        Change::ClientPath(path) => Settings { zcode_path: path, ..s },
    }
}

/// Changes the settings.
pub fn apply_change(s: Settings<String>, c: Change<String>) -> (r: Settings<String>)
    ensures
        settings_view(r) == changed(settings_view(s), crate::step::change_view(c)),
{
    let mut s = s;
    match c {
        Change::Proxy { on, url } => {
            s.auth_proxy_on = Some(on);
            s.auth_proxy_url = url;
        },
        Change::Behavior {
            launch_after_switch,
            close_to_tray,
            hot_switch,
            auto_claim,
            auto_switch,
        } => {
            if launch_after_switch.is_some() {
                s.launch_after_switch = launch_after_switch;
            }
            if close_to_tray.is_some() {
                s.close_to_tray = close_to_tray;
            }
            if hot_switch.is_some() {
                s.hot_switch = hot_switch;
            }
            if auto_claim.is_some() {
                s.auto_claim = auto_claim;
            }
            if auto_switch.is_some() {
                s.auto_switch = auto_switch;
            }
        },
        Change::Language(lang) => {
            s.language = Some(lang);
        },
        Change::Theme(theme) => {
            s.theme = Some(theme);
        },
        Change::ClientPath(path) => {
            s.zcode_path = path;
        },
    }
    s
}

/// What follows the usual form of a proxy's address.
pub open spec fn with_proxy(
    on: bool,
    reply: Result<Seq<char>, Seq<char>>,
) -> crate::step::StepView {
    match reply {
        Ok(url) => Step::SaveSettings {
            change: Change::Proxy { on, url: Some(url) },
            after: AfterSave::TellIfSaved,
        },
        Err(e) => crate::step::failed(Failure::Text(e)),
    }
}

/// A proxy is saved in the usual form of its address.
pub fn got_proxy(on: bool, reply: Result<String, String>) -> (r: TextStep)
    ensures
        crate::step::step_view(r) == with_proxy(on, crate::step::text_result(reply)),
{
    match reply {
        Ok(url) => Step::SaveSettings {
            change: Change::Proxy { on, url: Some(url) },
            after: AfterSave::TellIfSaved,
        },
        Err(e) => fail_text(e),
    }
}

/// A language is saved under its code, where it is known.
pub fn got_language(lang: String, reply: Option<String>) -> (r: TextStep)
    ensures
        crate::step::step_view(r) == match reply {
            Some(code) => Step::SaveSettings {
                change: Change::Language(code@),
                after: AfterSave::UseLanguage(code@),
            },
            None => crate::step::failed(Failure::UnknownLanguage(lang@)),
        },
{
    match reply {
        Some(code) => {
            let again = code.clone();
            Step::SaveSettings {
                change: Change::Language(code),
                after: AfterSave::UseLanguage(again),
            }
        },
        None => fail(Failure::UnknownLanguage(lang)),
    }
}

/// The path of the client is saved in its usual form, or taken out where it has none.
pub fn got_client_path(reply: Option<String>) -> (r: TextStep)
    ensures
        crate::step::step_view(r) == (Step::<Seq<char>, crate::json::JsonView>::SaveSettings {
            change: Change::ClientPath(crate::step::opt_text(reply)),
            after: AfterSave::TellAlways,
        }),
{
    Step::SaveSettings { change: Change::ClientPath(reply), after: AfterSave::TellAlways }
}

/// The end of a command that changes the settings: the pages are told, and then the result.
pub open spec fn state_changed(
    result: Result<crate::json::JsonView, Failure<Seq<char>>>,
) -> crate::step::StepView {
    Step::Done(
        Done {
            note: None,
            emit: Some(("state-changed"@, crate::json::JsonView::Null)),
            result,
        },
    )
}

fn tell_state(result: Result<Json, Failure<String>>) -> (r: TextStep)
    ensures
        crate::step::step_view(r) == state_changed(
            match result {
                Ok(v) => Ok(v@),
                Err(f) => Err(crate::failure::failure_view(f)),
            },
        ),
{
    Step::Done(
        Done { note: None, emit: Some(("state-changed".to_owned(), Json::Null)), result },
    )
}

/// What follows when the settings were saved or could not be.
pub fn saved(after: AfterSave<String>, reply: Result<(), String>) -> (r: TextStep)
    ensures
        crate::step::step_view(r) == match reply {
            Ok(u) => match after {
                AfterSave::UseLanguage(lang) => Step::UseLanguage { lang: lang@ },
                _ => state_changed(Ok(crate::json::JsonView::Null)),
            },
            Err(e) => match after {
                AfterSave::TellAlways => state_changed(Err(Failure::Text(e@))),
                _ => crate::step::failed(Failure::Text(e@)),
            },
        },
{
    match reply {
        Ok(_) => match after {
            AfterSave::UseLanguage(lang) => Step::UseLanguage { lang },
            _ => tell_state(Ok(Json::Null)),
        },
        Err(e) => match after {
            AfterSave::TellAlways => tell_state(Err(Failure::Text(e))),
            _ => fail_text(e),
        },
    }
}

/// The pages are told once a language is in use.
pub fn language_set() -> (r: TextStep)
    ensures
        crate::step::step_view(r) == state_changed(Ok(crate::json::JsonView::Null)),
{
    tell_state(Ok(Json::Null))
}

// Laws.

/// Making a change twice is making it once.
pub proof fn law_change_is_idempotent(s: Settings<Seq<char>>, c: Change<Seq<char>>)
    ensures
        changed(changed(s, c), c) == changed(s, c),
{
}

/// A behaviour without any setting changes nothing.
pub proof fn law_empty_behavior_changes_nothing(s: Settings<Seq<char>>)
    ensures
        changed(
            s,
            Change::Behavior {
                launch_after_switch: None,
                close_to_tray: None,
                hot_switch: None,
                auto_claim: None,
                auto_switch: None,
            },
        ) == s,
{
}

/// Whether a step that changes the proxy gives an address to one that is switched on.
pub open spec fn proxy_is_sound(step: crate::step::StepView) -> bool {
    step matches Step::SaveSettings { change: Change::Proxy { on, url }, after } ==> (on
        ==> url is Some)
}

/// A proxy is never switched on without an address.
pub proof fn law_proxy_on_has_url(
    b: crate::json::JsonView,
    on: bool,
    reply: Result<Seq<char>, Seq<char>>,
)
    ensures
        proxy_is_sound(crate::api::proxy_step(b)),
        proxy_is_sound(with_proxy(on, reply)),
{
}

/// A change of the proxy sets whether it is on and its address, also to none, and nothing else.
pub proof fn law_proxy_change(s: Settings<Seq<char>>, on: bool, url: Option<Seq<char>>)
    ensures
        ({
            let r = changed(s, Change::Proxy { on, url });
            &&& r.auth_proxy_on == Some(on)
            &&& r.auth_proxy_url == url
            &&& s == (Settings {
                auth_proxy_on: s.auth_proxy_on,
                auth_proxy_url: s.auth_proxy_url,
                ..r
            })
        }),
{
}

/// A change of the behaviour sets each setting that is given to its value, leaves each that is not
/// given, and touches nothing else.
pub proof fn law_behavior_change(
    s: Settings<Seq<char>>,
    launch_after_switch: Option<bool>,
    close_to_tray: Option<bool>,
    hot_switch: Option<bool>,
    auto_claim: Option<bool>,
    auto_switch: Option<bool>,
)
    ensures
        ({
            let r = changed(
                s,
                Change::Behavior {
                    launch_after_switch,
                    close_to_tray,
                    hot_switch,
                    auto_claim,
                    auto_switch,
                },
            );
            &&& launch_after_switch is Some ==> r.launch_after_switch == launch_after_switch
            &&& launch_after_switch is None ==> r.launch_after_switch == s.launch_after_switch
            &&& close_to_tray is Some ==> r.close_to_tray == close_to_tray
            &&& close_to_tray is None ==> r.close_to_tray == s.close_to_tray
            &&& hot_switch is Some ==> r.hot_switch == hot_switch
            &&& hot_switch is None ==> r.hot_switch == s.hot_switch
            &&& auto_claim is Some ==> r.auto_claim == auto_claim
            &&& auto_claim is None ==> r.auto_claim == s.auto_claim
            &&& auto_switch is Some ==> r.auto_switch == auto_switch
            &&& auto_switch is None ==> r.auto_switch == s.auto_switch
            &&& r.auth_proxy_on == s.auth_proxy_on
            &&& r.auth_proxy_url == s.auth_proxy_url
            &&& r.language == s.language
            &&& r.theme == s.theme
            &&& r.zcode_path == s.zcode_path
        }),
{
}

/// A change of the language, of the theme or of the path of the client sets that and nothing else.
pub proof fn law_single_changes(s: Settings<Seq<char>>, t: Seq<char>, path: Option<Seq<char>>)
    ensures
        changed(s, Change::Language(t)).language == Some(t),
        s == (Settings { language: s.language, ..changed(s, Change::Language(t)) }),
        changed(s, Change::Theme(t)).theme == Some(t),
        s == (Settings { theme: s.theme, ..changed(s, Change::Theme(t)) }),
        changed(s, Change::ClientPath(path)).zcode_path == path,
        s == (Settings { zcode_path: s.zcode_path, ..changed(s, Change::ClientPath(path)) }),
{
}

/// An address in its usual form is saved with the proxy on or off as the command said, and the
/// pages are told where it was saved; an address that has none fails in those words.
pub proof fn law_usual_address(on: bool, url: Seq<char>, e: Seq<char>)
    ensures
        with_proxy(on, Ok(url)) matches Step::SaveSettings { change, after } && (change
            matches Change::Proxy { on: o, url: u } && o == on && u == Some(url)) && after
            is TellIfSaved,
        with_proxy(on, Err(e)) == crate::step::failed(Failure::Text(e)),
{
}

/// A change is told to the pages as `state-changed` with nothing more, before the result.
pub proof fn law_change_is_told(result: Result<crate::json::JsonView, Failure<Seq<char>>>)
    ensures
        state_changed(result) matches Step::Done(d) && d.note is None && d.result == result
            && d.emit
            == Some(("state-changed"@, crate::json::JsonView::Null)),
{
}

/// What is carried shows each setting.
pub proof fn law_settings_parts(s: Settings<String>)
    ensures
        settings_view(s).launch_after_switch == s.launch_after_switch,
        settings_view(s).close_to_tray == s.close_to_tray,
        settings_view(s).hot_switch == s.hot_switch,
        settings_view(s).auto_claim == s.auto_claim,
        settings_view(s).auto_switch == s.auto_switch,
        settings_view(s).auth_proxy_on == s.auth_proxy_on,
        settings_view(s).auth_proxy_url == crate::step::opt_text(s.auth_proxy_url),
        settings_view(s).language == crate::step::opt_text(s.language),
        settings_view(s).theme == crate::step::opt_text(s.theme),
        settings_view(s).zcode_path == crate::step::opt_text(s.zcode_path),
{
}

} // verus!
