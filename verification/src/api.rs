//! The commands that the pages send, from their names and parameters to what is to be done.

use vstd::prelude::*;

use crate::failure::Failure;
use crate::json::Json;
use crate::step::{
    done, fail, fail_text, AfterSave, Ask, Change, Goal, Session, Source, Step, Tell, TextSession,
    TextStep,
};
use crate::text::{concat, same, trim};

verus! {

// Parameters.

/// What is said of a parameter that is missing or of the wrong type.
pub open spec fn missing(key: Seq<char>) -> Failure<Seq<char>> {
    Failure::Text("missing param: "@ + key)
}

/// A parameter that has to be a text.
pub open spec fn need_text(
    b: crate::json::JsonView,
    key: Seq<char>,
) -> Result<Seq<char>, Failure<Seq<char>>> {
    match b.text_member(key) {
        Some(s) => Ok(s),
        None => Err(missing(key)),
    }
}

/// A parameter that has to be a boolean.
pub open spec fn need_bool(
    b: crate::json::JsonView,
    key: Seq<char>,
) -> Result<bool, Failure<Seq<char>>> {
    match b.bool_member(key) {
        Some(v) => Ok(v),
        None => Err(missing(key)),
    }
}

fn missing_param(key: &str) -> (r: Failure<String>)
    ensures
        crate::failure::failure_view(r) == missing(key@),
{
    Failure::Text(concat("missing param: ", key))
}

/// A parameter that has to be a text.
pub fn get_str(b: &Json, key: &str) -> (r: Result<String, Failure<String>>)
    ensures
        match r {
            Ok(s) => need_text(b@, key@) == Ok::<Seq<char>, Failure<Seq<char>>>(s@),
            Err(f) => need_text(b@, key@) == Err::<Seq<char>, Failure<Seq<char>>>(
                crate::failure::failure_view(f),
            ),
        },
{
    match b.get_text(key) {
        Some(s) => Ok(s.to_owned()),
        None => Err(missing_param(key)),
    }
}

/// A parameter that has to be a boolean.
pub fn get_bool(b: &Json, key: &str) -> (r: Result<bool, Failure<String>>)
    ensures
        match r {
            Ok(v) => need_bool(b@, key@) == Ok::<bool, Failure<Seq<char>>>(v),
            Err(f) => need_bool(b@, key@) == Err::<bool, Failure<Seq<char>>>(
                crate::failure::failure_view(f),
            ),
        },
{
    match b.get_bool(key) {
        Some(v) => Ok(v),
        None => Err(missing_param(key)),
    }
}

/// A parameter that may be a text.
pub fn opt_str(b: &Json, key: &str) -> (r: Option<String>)
    ensures
        crate::step::opt_text(r) == b@.text_member(key@),
{
    match b.get_text(key) {
        Some(s) => Some(s.to_owned()),
        None => None,
    }
}

/// A parameter that may be a boolean.
pub fn opt_bool(b: &Json, key: &str) -> (r: Option<bool>)
    ensures
        r == b@.bool_member(key@),
{
    b.get_bool(key)
}

// Names of files.

/// The character that stands for one in the name of a file.
pub open spec fn file_char(c: char) -> char {
    if c == '\\' || c == '/' || c == ':' || c == '*' || c == '?' || c == '"' || c == '<' || c == '>'
        || c == '|' {
        '_'
    } else {
        c
    }
}

/// A name with an underscore for each character that the name of a file cannot hold.
pub open spec fn file_name(name: Seq<char>) -> Seq<char> {
    Seq::new(name.len(), |i: int| file_char(name[i]))
}

/// Puts an underscore for each character that the name of a file cannot hold.
pub fn sanitize_filename(name: &str) -> (r: String)
    ensures
        r@ == file_name(name@),
{
    let mut out = String::new();
    for c in it: name.chars()
        invariant
            it.seq() == name@,
            out@ == file_name(name@.take(it.index())),
    {
        let d = if c == '\\' || c == '/' || c == ':' || c == '*' || c == '?' || c == '"' || c == '<'
            || c == '>' || c == '|' {
            '_'
        } else {
            c
        };
        out.push(d);
        assert(file_name(name@.take(it.index() + 1)) =~= file_name(name@.take(it.index())).push(d));
    }
    assert(name@.take(name@.len() as int) =~= name@);
    out
}

/// The name of a file holds none of the characters that it cannot hold, every other character stays
/// in its place, and cleaning it again changes nothing.
pub proof fn law_file_names_are_clean(name: Seq<char>)
    ensures
        file_name(name).len() == name.len(),
        !file_name(name).contains('\\'),
        !file_name(name).contains('/'),
        !file_name(name).contains(':'),
        !file_name(name).contains('*'),
        !file_name(name).contains('?'),
        !file_name(name).contains('"'),
        !file_name(name).contains('<'),
        !file_name(name).contains('>'),
        !file_name(name).contains('|'),
        forall|i: int|
            0 <= i < name.len() && file_char(name[i]) == name[i] ==> #[trigger] file_name(name)[i]
                == name[i],
        file_name(file_name(name)) == file_name(name),
{
    assert(file_name(file_name(name)) =~= file_name(name));
}

// The hub that everybody uses.

/// Sets what everybody uses, unless it has been set.
pub fn set_hub<T>(slot: &mut Option<T>, hub: T)
    ensures
        *final(slot) == (if *old(slot) is Some {
            *old(slot)
        } else {
            Some(hub)
        }),
{
    if slot.is_none() {
        *slot = Some(hub);
    }
}

// Commands.

/// The commands on the accounts and their quotas.
pub open spec fn account_step(
    cmd: Seq<char>,
    b: crate::json::JsonView,
) -> Option<crate::step::StepView> {
    if cmd == "get_state"@ {
        Some(Step::Ask(Ask::State))
    } else if cmd == "app_version"@ {
        Some(Step::Ask(Ask::AppVersion))
    } else if cmd == "capture_current"@ {
        Some(Step::Ask(Ask::CaptureCurrent { label: b.text_member("name"@) }))
    } else if cmd == "rename_account"@ {
        Some(
            match need_text(b, "id"@) {
                Err(f) => crate::step::failed(f),
                Ok(id) => match need_text(b, "name"@) {
                    Err(f) => crate::step::failed(f),
                    Ok(name) => Step::Ask(Ask::Rename { id, name }),
                },
            },
        )
    } else if cmd == "delete_account"@ {
        Some(
            match need_text(b, "id"@) {
                Err(f) => crate::step::failed(f),
                Ok(id) => Step::Tell(Tell::Delete { id }),
            },
        )
    } else if cmd == "update_account_from_live"@ {
        Some(
            match need_text(b, "id"@) {
                Err(f) => crate::step::failed(f),
                Ok(id) => Step::Ask(Ask::UpdateFromLive { id }),
            },
        )
    } else if cmd == "switch_to"@ {
        Some(
            match need_text(b, "id"@) {
                Err(f) => crate::step::failed(f),
                Ok(id) => match need_bool(b, "force"@) {
                    Err(f) => crate::step::failed(f),
                    Ok(force) => match need_bool(b, "restart"@) {
                        Err(f) => crate::step::failed(f),
                        Ok(restart) => Step::HotSwitch { id, force, restart },
                    },
                },
            },
        )
    } else if cmd == "get_live_quota"@ {
        Some(Step::Ask(Ask::LiveQuota))
    } else if cmd == "get_account_quota"@ {
        Some(
            match need_text(b, "id"@) {
                Err(f) => crate::step::failed(f),
                Ok(id) => Step::Ask(Ask::AccountQuota { id }),
            },
        )
    } else if cmd == "get_recent_model_status"@ {
        Some(Step::ModelStatus)
    } else {
        None
    }
}

fn account_command(cmd: &str, b: &Json) -> (r: Option<TextStep>)
    ensures
        match r {
            Some(s) => account_step(cmd@, b@) == Some(crate::step::step_view(s)),
            None => account_step(cmd@, b@) is None,
        },
{
    if same(cmd, "get_state") {
        Some(Step::Ask(Ask::State))
    } else if same(cmd, "app_version") {
        Some(Step::Ask(Ask::AppVersion))
    } else if same(cmd, "capture_current") {
        Some(Step::Ask(Ask::CaptureCurrent { label: opt_str(b, "name") }))
    } else if same(cmd, "rename_account") {
        Some(
            match get_str(b, "id") {
                Err(f) => fail(f),
                Ok(id) => match get_str(b, "name") {
                    Err(f) => fail(f),
                    Ok(name) => Step::Ask(Ask::Rename { id, name }),
                },
            },
        )
    } else if same(cmd, "delete_account") {
        Some(
            match get_str(b, "id") {
                Err(f) => fail(f),
                Ok(id) => Step::Tell(Tell::Delete { id }),
            },
        )
    } else if same(cmd, "update_account_from_live") {
        Some(
            match get_str(b, "id") {
                Err(f) => fail(f),
                Ok(id) => Step::Ask(Ask::UpdateFromLive { id }),
            },
        )
    } else if same(cmd, "switch_to") {
        Some(
            match get_str(b, "id") {
                Err(f) => fail(f),
                Ok(id) => match get_bool(b, "force") {
                    Err(f) => fail(f),
                    Ok(force) => match get_bool(b, "restart") {
                        Err(f) => fail(f),
                        Ok(restart) => Step::HotSwitch { id, force, restart },
                    },
                },
            },
        )
    } else if same(cmd, "get_live_quota") {
        Some(Step::Ask(Ask::LiveQuota))
    } else if same(cmd, "get_account_quota") {
        Some(
            match get_str(b, "id") {
                Err(f) => fail(f),
                Ok(id) => Step::Ask(Ask::AccountQuota { id }),
            },
        )
    } else if same(cmd, "get_recent_model_status") {
        Some(Step::ModelStatus)
    } else {
        None
    }
}

/// The commands on claims, but for those that change what is remembered.
pub open spec fn claim_step(
    cmd: Seq<char>,
    b: crate::json::JsonView,
) -> Option<crate::step::StepView> {
    if cmd == "claim_preview"@ {
        Some(
            match need_text(b, "id"@) {
                Err(f) => crate::step::failed(f),
                Ok(id) => Step::DeviceMid { id, goal: Goal::Preview },
            },
        )
    } else if cmd == "claim_refresh"@ {
        Some(
            match need_text(b, "id"@) {
                Err(f) => crate::step::failed(f),
                Ok(id) => Step::DeviceMid { id, goal: Goal::Refresh },
            },
        )
    } else if cmd == "claim_start"@ {
        Some(
            match need_text(b, "id"@) {
                Err(f) => crate::step::failed(f),
                Ok(id) => match need_text(b, "planId"@) {
                    Err(f) => crate::step::failed(f),
                    Ok(plan_id) => Step::DeviceMid { id, goal: Goal::Start { plan_id } },
                },
            },
        )
    } else if cmd == "claim_captcha_config"@ {
        Some(Step::Ask(Ask::CaptchaConfig))
    } else {
        None
    }
}

fn claim_command(cmd: &str, b: &Json) -> (r: Option<TextStep>)
    ensures
        match r {
            Some(s) => claim_step(cmd@, b@) == Some(crate::step::step_view(s)),
            None => claim_step(cmd@, b@) is None,
        },
{
    if same(cmd, "claim_preview") {
        Some(
            match get_str(b, "id") {
                Err(f) => fail(f),
                Ok(id) => Step::DeviceMid { id, goal: Goal::Preview },
            },
        )
    } else if same(cmd, "claim_refresh") {
        Some(
            match get_str(b, "id") {
                Err(f) => fail(f),
                Ok(id) => Step::DeviceMid { id, goal: Goal::Refresh },
            },
        )
    } else if same(cmd, "claim_start") {
        Some(
            match get_str(b, "id") {
                Err(f) => fail(f),
                Ok(id) => match get_str(b, "planId") {
                    Err(f) => fail(f),
                    Ok(plan_id) => Step::DeviceMid { id, goal: Goal::Start { plan_id } },
                },
            },
        )
    } else if same(cmd, "claim_captcha_config") {
        Some(Step::Ask(Ask::CaptchaConfig))
    } else {
        None
    }
}

/// The step of `set_auth_proxy`: an address is needed to switch a proxy on, and one of white space
/// is none.
pub open spec fn proxy_step(b: crate::json::JsonView) -> crate::step::StepView {
    match need_bool(b, "on"@) {
        Err(f) => crate::step::failed(f),
        Ok(on) => {
            let url = match b.text_member("url"@) {
                Some(u) => crate::text::trimmed(u),
                None => Seq::empty(),
            };
            if url.len() > 0 {
                Step::ParseProxy { on, url }
            } else if on {
                crate::step::failed(Failure::ProxyNeedsUrl)
            } else {
                Step::SaveSettings {
                    change: Change::Proxy { on, url: None },
                    after: AfterSave::TellIfSaved,
                }
            }
        },
    }
}

fn proxy_command(b: &Json) -> (r: TextStep)
    ensures
        crate::step::step_view(r) == proxy_step(b@),
{
    match get_bool(b, "on") {
        Err(f) => fail(f),
        Ok(on) => {
            let url = match b.get_text("url") {
                Some(u) => trim(u),
                None => String::new(),
            };
            if !url.as_str().is_empty() {
                Step::ParseProxy { on, url }
            } else if on {
                fail(Failure::ProxyNeedsUrl)
            } else {
                Step::SaveSettings {
                    change: Change::Proxy { on, url: None },
                    after: AfterSave::TellIfSaved,
                }
            }
        },
    }
}

/// The commands on logins, on the client and on the settings.
pub open spec fn setting_step(
    cmd: Seq<char>,
    b: crate::json::JsonView,
) -> Option<crate::step::StepView> {
    if cmd == "oauth_providers"@ {
        Some(Step::Ask(Ask::OAuthProviders))
    } else if cmd == "oauth_begin"@ {
        Some(
            match need_text(b, "provider"@) {
                Err(f) => crate::step::failed(f),
                Ok(provider) => Step::Providers { provider },
            },
        )
    } else if cmd == "set_auth_proxy"@ {
        Some(proxy_step(b))
    } else if cmd == "kill_zcode"@ {
        Some(Step::KillClient)
    } else if cmd == "set_behavior"@ {
        Some(
            Step::SaveSettings {
                change: Change::Behavior {
                    launch_after_switch: b.bool_member("launchAfterSwitch"@),
                    close_to_tray: b.bool_member("closeToTray"@),
                    hot_switch: b.bool_member("hotSwitch"@),
                    auto_claim: b.bool_member("autoClaim"@),
                    auto_switch: b.bool_member("autoSwitch"@),
                },
                after: AfterSave::TellAlways,
            },
        )
    } else if cmd == "set_language"@ {
        Some(
            match need_text(b, "lang"@) {
                Err(f) => crate::step::failed(f),
                Ok(lang) => Step::ParseLanguage { lang },
            },
        )
    } else if cmd == "set_theme"@ {
        Some(
            match need_text(b, "theme"@) {
                Err(f) => crate::step::failed(f),
                Ok(theme) => if theme == "light"@ || theme == "dark"@ {
                    Step::SaveSettings {
                        change: Change::Theme(theme),
                        after: AfterSave::TellIfSaved,
                    }
                } else {
                    crate::step::failed(Failure::Text("Unsupported theme"@))
                },
            },
        )
    } else if cmd == "set_zcode_path"@ {
        Some(
            match need_text(b, "path"@) {
                Err(f) => crate::step::failed(f),
                Ok(path) => Step::NormalizePath { path },
            },
        )
    } else if cmd == "launch_zcode"@ {
        Some(Step::ClientPath)
    } else {
        None
    }
}

fn setting_command(cmd: &str, b: &Json) -> (r: Option<TextStep>)
    ensures
        match r {
            Some(s) => setting_step(cmd@, b@) == Some(crate::step::step_view(s)),
            None => setting_step(cmd@, b@) is None,
        },
{
    if same(cmd, "oauth_providers") {
        Some(Step::Ask(Ask::OAuthProviders))
    } else if same(cmd, "oauth_begin") {
        Some(
            match get_str(b, "provider") {
                Err(f) => fail(f),
                Ok(provider) => Step::Providers { provider },
            },
        )
    } else if same(cmd, "set_auth_proxy") {
        Some(proxy_command(b))
    } else if same(cmd, "kill_zcode") {
        Some(Step::KillClient)
    } else if same(cmd, "set_behavior") {
        Some(
            Step::SaveSettings {
                change: Change::Behavior {
                    launch_after_switch: opt_bool(b, "launchAfterSwitch"),
                    close_to_tray: opt_bool(b, "closeToTray"),
                    hot_switch: opt_bool(b, "hotSwitch"),
                    auto_claim: opt_bool(b, "autoClaim"),
                    auto_switch: opt_bool(b, "autoSwitch"),
                },
                after: AfterSave::TellAlways,
            },
        )
    } else if same(cmd, "set_language") {
        Some(
            match get_str(b, "lang") {
                Err(f) => fail(f),
                Ok(lang) => Step::ParseLanguage { lang },
            },
        )
    } else if same(cmd, "set_theme") {
        Some(
            match get_str(b, "theme") {
                Err(f) => fail(f),
                Ok(theme) => if same(theme.as_str(), "light") || same(theme.as_str(), "dark") {
                    Step::SaveSettings {
                        change: Change::Theme(theme),
                        after: AfterSave::TellIfSaved,
                    }
                } else {
                    fail_text("Unsupported theme".to_owned())
                },
            },
        )
    } else if same(cmd, "set_zcode_path") {
        Some(
            match get_str(b, "path") {
                Err(f) => fail(f),
                Ok(path) => Step::NormalizePath { path },
            },
        )
    } else if same(cmd, "launch_zcode") {
        Some(Step::ClientPath)
    } else {
        None
    }
}

/// The answer that nothing was picked.
pub open spec fn nothing_picked() -> crate::json::JsonView {
    crate::json::object(seq![("picked"@, crate::json::JsonView::Bool(false))])
}

/// The commands that have no work to do in a browser, and the one that opens a page.
pub open spec fn page_step(
    cmd: Seq<char>,
    b: crate::json::JsonView,
) -> Option<crate::step::StepView> {
    if cmd == "autostart_status"@ || cmd == "autostart_set"@ {
        Some(crate::step::ended(crate::json::JsonView::Bool(false)))
    } else if cmd == "reveal_main"@ || cmd == "open_settings"@ {
        Some(crate::step::ended(crate::json::JsonView::Null))
    } else if cmd == "open_external"@ {
        Some(
            match need_text(b, "url"@) {
                Err(f) => crate::step::failed(f),
                Ok(url) => Step::Tell(Tell::OpenUrl { url }),
            },
        )
    } else if cmd == "pick_zcode_path"@ {
        Some(crate::step::ended(nothing_picked()))
    } else {
        None
    }
}

fn page_command(cmd: &str, b: &Json) -> (r: Option<TextStep>)
    ensures
        match r {
            Some(s) => page_step(cmd@, b@) == Some(crate::step::step_view(s)),
            None => page_step(cmd@, b@) is None,
        },
{
    if same(cmd, "autostart_status") || same(cmd, "autostart_set") {
        Some(done(Json::Bool(false)))
    } else if same(cmd, "reveal_main") || same(cmd, "open_settings") {
        Some(done(Json::Null))
    } else if same(cmd, "open_external") {
        Some(
            match get_str(b, "url") {
                Err(f) => fail(f),
                Ok(url) => Step::Tell(Tell::OpenUrl { url }),
            },
        )
    } else if same(cmd, "pick_zcode_path") {
        let entries = vec![("picked".to_owned(), Json::Bool(false))];
        proof {
            assert(crate::json::entry_views(entries@) =~= seq![
                ("picked"@, crate::json::JsonView::Bool(false)),
            ]);
        }
        Some(done(Json::Object(entries)))
    } else {
        None
    }
}

/// The commands on exports and imports.
pub open spec fn transfer_step(
    cmd: Seq<char>,
    b: crate::json::JsonView,
) -> Option<crate::step::StepView> {
    if cmd == "export_pick_path"@ {
        Some(
            match need_text(b, "id"@) {
                Err(f) => crate::step::failed(f),
                Ok(id) => Step::ExportName { id },
            },
        )
    } else if cmd == "export_finalize"@ {
        Some(
            match need_text(b, "path"@) {
                Err(f) => crate::step::failed(f),
                Ok(path) => match need_text(b, "id"@) {
                    Err(f) => crate::step::failed(f),
                    Ok(id) => match need_text(b, "password"@) {
                        Err(f) => crate::step::failed(f),
                        Ok(password) => Step::Bundle { source: Source::One { id }, path, password },
                    },
                },
            },
        )
    } else if cmd == "export_all_pick_path"@ {
        Some(Step::CountAccounts)
    } else if cmd == "export_all_finalize"@ {
        Some(
            match need_text(b, "path"@) {
                Err(f) => crate::step::failed(f),
                Ok(path) => match need_text(b, "password"@) {
                    Err(f) => crate::step::failed(f),
                    Ok(password) => Step::Bundle { source: Source::All, path, password },
                },
            },
        )
    } else if cmd == "import_pick_files"@ {
        Some(
            match b.member("files"@) {
                Some(crate::json::JsonView::Array(files)) => Step::ImportFiles {
                    files: crate::json::JsonView::Array(files),
                },
                _ => crate::step::failed(missing("files"@)),
            },
        )
    } else if cmd == "import_sealed"@ {
        Some(
            match b.member("files"@) {
                Some(files) => if crate::transfer::named_values(files) is Some {
                    match need_text(b, "password"@) {
                        Err(f) => crate::step::failed(f),
                        Ok(password) => Step::ImportSealed { files, password },
                    }
                } else {
                    crate::step::failed(missing("files"@))
                },
                None => crate::step::failed(missing("files"@)),
            },
        )
    } else {
        None
    }
}

fn transfer_command(cmd: &str, b: &Json) -> (r: Option<TextStep>)
    ensures
        match r {
            Some(s) => transfer_step(cmd@, b@) == Some(crate::step::step_view(s)),
            None => transfer_step(cmd@, b@) is None,
        },
{
    if same(cmd, "export_pick_path") {
        Some(
            match get_str(b, "id") {
                Err(f) => fail(f),
                Ok(id) => Step::ExportName { id },
            },
        )
    } else if same(cmd, "export_finalize") {
        Some(
            match get_str(b, "path") {
                Err(f) => fail(f),
                Ok(path) => match get_str(b, "id") {
                    Err(f) => fail(f),
                    Ok(id) => match get_str(b, "password") {
                        Err(f) => fail(f),
                        Ok(password) => Step::Bundle { source: Source::One { id }, path, password },
                    },
                },
            },
        )
    } else if same(cmd, "export_all_pick_path") {
        Some(Step::CountAccounts)
    } else if same(cmd, "export_all_finalize") {
        Some(
            match get_str(b, "path") {
                Err(f) => fail(f),
                Ok(path) => match get_str(b, "password") {
                    Err(f) => fail(f),
                    Ok(password) => Step::Bundle { source: Source::All, path, password },
                },
            },
        )
    } else if same(cmd, "import_pick_files") {
        Some(
            match b.get("files") {
                Some(files) => match files {
                    Json::Array(_) => Step::ImportFiles { files: files.copy() },
                    _ => fail(missing_param("files")),
                },
                None => fail(missing_param("files")),
            },
        )
    } else if same(cmd, "import_sealed") {
        Some(
            match b.get("files") {
                Some(files) => if crate::transfer::sealed_files(files).is_some() {
                    match get_str(b, "password") {
                        Err(f) => fail(f),
                        Ok(password) => Step::ImportSealed { files: files.copy(), password },
                    }
                } else {
                    fail(missing_param("files"))
                },
                None => fail(missing_param("files")),
            },
        )
    } else {
        None
    }
}

/// The commands that change what is remembered: a claim that waits is handed in with its captcha
/// or given up.
pub open spec fn session_step(
    cmd: Seq<char>,
    b: crate::json::JsonView,
    s: crate::step::SessionView,
) -> Option<(crate::step::StepView, crate::step::SessionView)> {
    if cmd == "claim_captcha_submit"@ {
        Some(
            match need_text(b, "param"@) {
                Err(f) => (crate::step::failed(f), s),
                Ok(param) => match s.claim {
                    Some(pending) => (
                        Step::SubmitClaim { pending, param, region: b.text_member("region"@) },
                        Session { claim: None, oauth: s.oauth },
                    ),
                    None => (crate::step::failed(Failure::NoClaimPending), s),
                },
            },
        )
    } else if cmd == "claim_cancel"@ {
        Some(
            (
                crate::step::ended(crate::json::JsonView::Null),
                Session { claim: None, oauth: s.oauth },
            ),
        )
    } else {
        None
    }
}

/// The first step of a command and what is remembered then. An unknown command fails.
pub open spec fn first_step(
    cmd: Seq<char>,
    b: crate::json::JsonView,
    s: crate::step::SessionView,
) -> (crate::step::StepView, crate::step::SessionView) {
    match session_step(cmd, b, s) {
        Some(r) => r,
        None => match account_step(cmd, b) {
            Some(step) => (step, s),
            None => match claim_step(cmd, b) {
                Some(step) => (step, s),
                None => match setting_step(cmd, b) {
                    Some(step) => (step, s),
                    None => match page_step(cmd, b) {
                        Some(step) => (step, s),
                        None => match transfer_step(cmd, b) {
                            Some(step) => (step, s),
                            None => (
                                crate::step::failed(Failure::Text("unknown command: "@ + cmd)),
                                s,
                            ),
                        },
                    },
                },
            },
        },
    }
}

/// Starts a command.
pub fn dispatch(cmd: &str, b: &Json, session: &mut TextSession) -> (r: TextStep)
    ensures
        (crate::step::step_view(r), crate::step::session_view(*final(session))) == first_step(
            cmd@,
            b@,
            crate::step::session_view(*old(session)),
        ),
{
    if same(cmd, "claim_captcha_submit") {
        return match get_str(b, "param") {
            Err(f) => fail(f),
            Ok(param) => {
                let region = opt_str(b, "region");
                match session.claim.take() {
                    Some(pending) => Step::SubmitClaim { pending, param, region },
                    None => fail(Failure::NoClaimPending),
                }
            },
        };
    }
    if same(cmd, "claim_cancel") {
        session.claim = None;
        return done(Json::Null);
    }
    match account_command(cmd, b) {
        Some(s) => {
            return s;
        },
        None => {},
    }
    match claim_command(cmd, b) {
        Some(s) => {
            return s;
        },
        None => {},
    }
    match setting_command(cmd, b) {
        Some(s) => {
            return s;
        },
        None => {},
    }
    match page_command(cmd, b) {
        Some(s) => {
            return s;
        },
        None => {},
    }
    match transfer_command(cmd, b) {
        Some(s) => {
            return s;
        },
        None => {},
    }
    fail_text(concat("unknown command: ", cmd))
}

// Steps that end at once.

/// The answer of the account library is the answer to the command.
pub fn answered(reply: Result<Json, String>) -> (r: TextStep)
    ensures
        crate::step::step_view(r) == match reply {
            Ok(v) => crate::step::ended(v@),
            Err(e) => crate::step::failed(Failure::Text(e@)),
        },
{
    match reply {
        Ok(v) => done(v),
        Err(e) => fail_text(e),
    }
}

/// An order that was carried out has no answer.
pub fn told(reply: Result<(), String>) -> (r: TextStep)
    ensures
        crate::step::step_view(r) == match reply {
            Ok(u) => crate::step::ended(crate::json::JsonView::Null),
            Err(e) => crate::step::failed(Failure::Text(e@)),
        },
{
    match reply {
        Ok(_) => done(Json::Null),
        Err(e) => fail_text(e),
    }
}

/// The state of the models, or null where none is known.
pub fn model_status(reply: Option<Json>) -> (r: TextStep)
    ensures
        crate::step::step_view(r) == crate::step::ended(
            match reply {
                Some(v) => v@,
                None => crate::json::JsonView::Null,
            },
        ),
{
    match reply {
        Some(v) => done(v),
        None => done(Json::Null),
    }
}

/// The client has to have ended.
pub fn killed(reply: Result<bool, String>) -> (r: TextStep)
    ensures
        crate::step::step_view(r) == match reply {
            Ok(ended) => if ended {
                crate::step::ended(crate::json::JsonView::Null)
            } else {
                crate::step::failed(Failure::KillTimeout)
            },
            Err(e) => crate::step::failed(Failure::Text(e@)),
        },
{
    match reply {
        Ok(ended) => if ended {
            done(Json::Null)
        } else {
            fail(Failure::KillTimeout)
        },
        Err(e) => fail_text(e),
    }
}

/// An account is switched to as the command says, and while the client runs where the stored
/// settings say so.
pub fn got_hot_switch(id: String, force: bool, restart: bool, hot: bool) -> (r: TextStep)
    ensures
        crate::step::step_view(r) == (Step::<Seq<char>, crate::json::JsonView>::Ask(
            Ask::SwitchTo { id: id@, force, restart, hot },
        )),
{
    Step::Ask(Ask::SwitchTo { id, force, restart, hot })
}

/// The client is started where it is at its path.
pub fn client_path(path: String, there: bool) -> (r: TextStep)
    ensures
        crate::step::step_view(r) == (if there {
            Step::Tell(Tell::Launch { path: path@ })
        } else {
            crate::step::failed(Failure::ClientPathInvalid(path@))
        }),
{
    if there {
        Step::Tell(Tell::Launch { path })
    } else {
        fail(Failure::ClientPathInvalid(path))
    }
}

// Laws.

/// The commands that the pages can send.
pub open spec fn is_command(cmd: Seq<char>) -> bool {
    ||| cmd == "get_state"@
    ||| cmd == "app_version"@
    ||| cmd == "capture_current"@
    ||| cmd == "rename_account"@
    ||| cmd == "delete_account"@
    ||| cmd == "update_account_from_live"@
    ||| cmd == "switch_to"@
    ||| cmd == "get_live_quota"@
    ||| cmd == "get_account_quota"@
    ||| cmd == "get_recent_model_status"@
    ||| cmd == "claim_preview"@
    ||| cmd == "claim_refresh"@
    ||| cmd == "claim_start"@
    ||| cmd == "claim_captcha_config"@
    ||| cmd == "claim_captcha_submit"@
    ||| cmd == "claim_cancel"@
    ||| cmd == "oauth_providers"@
    ||| cmd == "oauth_begin"@
    ||| cmd == "set_auth_proxy"@
    ||| cmd == "kill_zcode"@
    ||| cmd == "set_behavior"@
    ||| cmd == "set_language"@
    ||| cmd == "set_theme"@
    ||| cmd == "autostart_status"@
    ||| cmd == "autostart_set"@
    ||| cmd == "reveal_main"@
    ||| cmd == "open_settings"@
    ||| cmd == "open_external"@
    ||| cmd == "export_pick_path"@
    ||| cmd == "export_finalize"@
    ||| cmd == "export_all_pick_path"@
    ||| cmd == "export_all_finalize"@
    ||| cmd == "import_pick_files"@
    ||| cmd == "import_sealed"@
    ||| cmd == "pick_zcode_path"@
    ||| cmd == "set_zcode_path"@
    ||| cmd == "launch_zcode"@
}

/// The failure of a command that is not known.
pub open spec fn unknown_command(cmd: Seq<char>) -> crate::step::StepView {
    crate::step::failed(Failure::Text("unknown command: "@ + cmd))
}

/// A command fails as unknown exactly where it is none of the commands.
pub proof fn law_commands(cmd: Seq<char>, b: crate::json::JsonView, s: crate::step::SessionView)
    ensures
        is_command(cmd) <==> first_step(cmd, b, s).0 != unknown_command(cmd),
{
    reveal_strlit("unknown command: ");
    reveal_strlit("missing param: ");
    reveal_strlit("Unsupported theme");
    let unknown = "unknown command: "@ + cmd;
    assert(unknown[0] == 'u');
    assert forall|key: Seq<char>| #[trigger] missing(key) != Failure::<Seq<char>>::Text(unknown) by {
        assert(("missing param: "@ + key)[0] == 'm');
    }
    assert("Unsupported theme"@[0] == 'U');
}

/// A command does not touch the login that waits, and none but those that end a claim touch the
/// claim that waits.
pub proof fn law_commands_leave_the_session(
    cmd: Seq<char>,
    b: crate::json::JsonView,
    s: crate::step::SessionView,
)
    ensures
        first_step(cmd, b, s).1.oauth == s.oauth,
        cmd != "claim_captcha_submit"@ && cmd != "claim_cancel"@ ==> first_step(cmd, b, s).1 == s,
{
}

// Laws of each command, in terms of its parameters.

/// The names of the commands differ.
proof fn lemma_names()
    ensures
        "claim_captcha_submit"@.len() == 20 && "claim_captcha_submit"@[14] == 's',
        "claim_cancel"@.len() == 12 && "claim_cancel"@[4] == 'm',
        "get_state"@.len() == 9 && "get_state"@[4] == 's',
        "app_version"@.len() == 11 && "app_version"@[0] == 'a',
        "capture_current"@.len() == 15 && "capture_current"@[0] == 'c',
        "rename_account"@.len() == 14 && "rename_account"@[4] == 'm',
        "delete_account"@.len() == 14 && "delete_account"@[4] == 't',
        "update_account_from_live"@.len() == 24,
        "switch_to"@.len() == 9 && "switch_to"@[4] == 'c',
        "get_live_quota"@.len() == 14 && "get_live_quota"@[4] == 'l',
        "get_account_quota"@.len() == 17 && "get_account_quota"@[0] == 'g',
        "get_recent_model_status"@.len() == 23,
        "claim_preview"@.len() == 13 && "claim_preview"@[6] == 'p',
        "claim_refresh"@.len() == 13 && "claim_refresh"@[6] == 'r',
        "claim_start"@.len() == 11 && "claim_start"@[0] == 'c',
        "claim_captcha_config"@.len() == 20 && "claim_captcha_config"@[14] == 'c',
        "oauth_providers"@.len() == 15 && "oauth_providers"@[0] == 'o',
        "oauth_begin"@.len() == 11 && "oauth_begin"@[0] == 'o',
        "set_auth_proxy"@.len() == 14 && "set_auth_proxy"@[4] == 'a',
        "kill_zcode"@.len() == 10,
        "set_behavior"@.len() == 12 && "set_behavior"@[4] == 'b',
        "set_language"@.len() == 12 && "set_language"@[4] == 'l',
        "set_theme"@.len() == 9 && "set_theme"@[4] == 't',
        "set_zcode_path"@.len() == 14 && "set_zcode_path"@[4] == 'z',
        "launch_zcode"@.len() == 12 && "launch_zcode"@[4] == 'c',
        "autostart_status"@.len() == 16 && "autostart_status"@[0] == 'a',
        "autostart_set"@.len() == 13 && "autostart_set"@[6] == 'a',
        "reveal_main"@.len() == 11 && "reveal_main"@[0] == 'r',
        "open_settings"@.len() == 13 && "open_settings"@[6] == 'e',
        "open_external"@.len() == 13 && "open_external"@[6] == 'x',
        "pick_zcode_path"@.len() == 15 && "pick_zcode_path"@[0] == 'p',
        "export_pick_path"@.len() == 16 && "export_pick_path"@[0] == 'e',
        "export_finalize"@.len() == 15 && "export_finalize"@[0] == 'e',
        "export_all_pick_path"@.len() == 20 && "export_all_pick_path"@[14] == 'k',
        "export_all_finalize"@.len() == 19,
        "import_pick_files"@.len() == 17 && "import_pick_files"@[0] == 'i',
        "import_sealed"@.len() == 13 && "import_sealed"@[6] == '_',
{
    reveal_strlit("claim_captcha_submit");
    reveal_strlit("claim_cancel");
    reveal_strlit("get_state");
    reveal_strlit("app_version");
    reveal_strlit("capture_current");
    reveal_strlit("rename_account");
    reveal_strlit("delete_account");
    reveal_strlit("update_account_from_live");
    reveal_strlit("switch_to");
    reveal_strlit("get_live_quota");
    reveal_strlit("get_account_quota");
    reveal_strlit("get_recent_model_status");
    reveal_strlit("claim_preview");
    reveal_strlit("claim_refresh");
    reveal_strlit("claim_start");
    reveal_strlit("claim_captcha_config");
    reveal_strlit("oauth_providers");
    reveal_strlit("oauth_begin");
    reveal_strlit("set_auth_proxy");
    reveal_strlit("kill_zcode");
    reveal_strlit("set_behavior");
    reveal_strlit("set_language");
    reveal_strlit("set_theme");
    reveal_strlit("set_zcode_path");
    reveal_strlit("launch_zcode");
    reveal_strlit("autostart_status");
    reveal_strlit("autostart_set");
    reveal_strlit("reveal_main");
    reveal_strlit("open_settings");
    reveal_strlit("open_external");
    reveal_strlit("pick_zcode_path");
    reveal_strlit("export_pick_path");
    reveal_strlit("export_finalize");
    reveal_strlit("export_all_pick_path");
    reveal_strlit("export_all_finalize");
    reveal_strlit("import_pick_files");
    reveal_strlit("import_sealed");
}

/// A parameter that is missing, or of another type than it has to be, is told by its name; one that
/// is there is taken as it is.
pub proof fn law_parameters(b: crate::json::JsonView, key: Seq<char>, t: Seq<char>, v: bool)
    ensures
        b.member(key) == Some(crate::json::JsonView::Text(t))
            ==> (need_text(b, key) matches Ok(r) && r
            == t),
        b.member(key) == Some(crate::json::JsonView::Bool(v))
            ==> (need_bool(b, key) matches Ok(r) && r
            == v),
        !(b.member(key) is Some && b.member(key)->0 is Text)
            ==> (need_text(b, key) matches Err(f) && f
            == Failure::Text("missing param: "@ + key)),
        !(b.member(key) is Some && b.member(key)->0 is Bool)
            ==> (need_bool(b, key) matches Err(f) && f
            == Failure::Text("missing param: "@ + key)),
        missing(key) == Failure::Text("missing param: "@ + key),
{
}

/// The commands that only ask do so whatever their parameters are; a captured account gets the name
/// of the command, if it has one.
pub proof fn law_account_questions(
    b: crate::json::JsonView,
    s: crate::step::SessionView,
)
    ensures
        first_step("get_state"@, b, s).0 == (Step::<Seq<char>, crate::json::JsonView>::Ask(
            Ask::State)),
        first_step("app_version"@, b, s).0 == (Step::<Seq<char>, crate::json::JsonView>::Ask(
            Ask::AppVersion)),
        first_step("capture_current"@, b, s).0 == (Step::<Seq<char>, crate::json::JsonView>::Ask(
            Ask::CaptureCurrent { label: b.text_member("name"@) })),
        first_step("get_live_quota"@, b, s).0 == (Step::<Seq<char>, crate::json::JsonView>::Ask(
            Ask::LiveQuota)),
        first_step("get_recent_model_status"@, b, s).0 == (
            Step::<Seq<char>, crate::json::JsonView>::ModelStatus),
        first_step("claim_captcha_config"@, b, s).0 == (
            Step::<Seq<char>, crate::json::JsonView>::Ask(Ask::CaptchaConfig)),
        first_step("oauth_providers"@, b, s).0 == (Step::<Seq<char>, crate::json::JsonView>::Ask(
            Ask::OAuthProviders)),
        first_step("kill_zcode"@, b, s).0 == (Step::<Seq<char>, crate::json::JsonView>::KillClient),
        first_step("launch_zcode"@, b, s).0 == (
            Step::<Seq<char>, crate::json::JsonView>::ClientPath),
        first_step("export_all_pick_path"@, b, s).0 == (
            Step::<Seq<char>, crate::json::JsonView>::CountAccounts),
{
    lemma_names();
}

/// The commands on one account act on the account that they name, under the name that they give;
/// each parameter that is missing is told, the first one first.
pub proof fn law_account_orders(
    b: crate::json::JsonView,
    s: crate::step::SessionView,
    id: Seq<char>,
    name: Seq<char>,
)
    ensures
        b.text_member("id"@) == Some(id) && b.text_member("name"@) == Some(name)
            ==> first_step("rename_account"@, b, s).0 == (
            Step::<Seq<char>, crate::json::JsonView>::Ask(Ask::Rename { id, name })),
        b.text_member("id"@) is None
            ==> first_step("rename_account"@, b, s).0 == crate::step::failed(missing("id"@)),
        b.text_member("id"@) is Some && b.text_member("name"@) is None
            ==> first_step("rename_account"@, b, s).0 == crate::step::failed(missing("name"@)),
        b.text_member("id"@) == Some(id)
            ==> first_step("delete_account"@, b, s).0 == (
            Step::<Seq<char>, crate::json::JsonView>::Tell(Tell::Delete { id })),
        b.text_member("id"@) is None
            ==> first_step("delete_account"@, b, s).0 == crate::step::failed(missing("id"@)),
        b.text_member("id"@) == Some(id)
            ==> first_step("update_account_from_live"@, b, s).0 == (
            Step::<Seq<char>, crate::json::JsonView>::Ask(Ask::UpdateFromLive { id })),
        b.text_member("id"@) is None
            ==> first_step("update_account_from_live"@, b, s).0 == crate::step::failed(
            missing("id"@)),
        b.text_member("id"@) == Some(id)
            ==> first_step("get_account_quota"@, b, s).0 == (
            Step::<Seq<char>, crate::json::JsonView>::Ask(Ask::AccountQuota { id })),
        b.text_member("id"@) is None
            ==> first_step("get_account_quota"@, b, s).0 == crate::step::failed(missing("id"@)),
        b.text_member("id"@) == Some(id)
            ==> first_step("export_pick_path"@, b, s).0 == (
            Step::<Seq<char>, crate::json::JsonView>::ExportName { id }),
        b.text_member("id"@) is None
            ==> first_step("export_pick_path"@, b, s).0 == crate::step::failed(missing("id"@)),
{
    lemma_names();
}

/// A switch is made to the account that is named, by force and with a restart exactly as the
/// command says; each parameter that is missing is told, the first one first.
pub proof fn law_switch_command(
    b: crate::json::JsonView,
    s: crate::step::SessionView,
    id: Seq<char>,
    force: bool,
    restart: bool,
)
    ensures
        b.text_member("id"@) == Some(id) && b.bool_member("force"@) == Some(force)
            && b.bool_member("restart"@) == Some(restart)
            ==> first_step("switch_to"@, b, s).0 == (
            Step::<Seq<char>, crate::json::JsonView>::HotSwitch { id, force, restart }),
        b.text_member("id"@) is None
            ==> first_step("switch_to"@, b, s).0 == crate::step::failed(missing("id"@)),
        b.text_member("id"@) is Some && b.bool_member("force"@) is None
            ==> first_step("switch_to"@, b, s).0 == crate::step::failed(missing("force"@)),
        b.text_member("id"@) is Some && b.bool_member("force"@) is Some
            && b.bool_member("restart"@) is None
            ==> first_step("switch_to"@, b, s).0 == crate::step::failed(missing("restart"@)),
{
    lemma_names();
}

/// A command whose parameters are an account, a force and a restart switches with just these.
pub proof fn law_switch_with(s: crate::step::SessionView, id: Seq<char>, force: bool, restart: bool)
    ensures
        first_step(
            "switch_to"@,
            crate::json::object(
                seq![
                    ("id"@, crate::json::JsonView::Text(id)),
                    ("force"@, crate::json::JsonView::Bool(force)),
                    ("restart"@, crate::json::JsonView::Bool(restart)),
                ],
            ),
            s,
        ) == (Step::<Seq<char>, crate::json::JsonView>::HotSwitch { id, force, restart }, s),
{
    reveal_strlit("id");
    reveal_strlit("force");
    reveal_strlit("restart");
    assert("id"@.len() == 2 && "force"@.len() == 5 && "restart"@.len() == 7);
    let entries = seq![
        ("id"@, crate::json::JsonView::Text(id)),
        ("force"@, crate::json::JsonView::Bool(force)),
        ("restart"@, crate::json::JsonView::Bool(restart)),
    ];
    crate::json::lemma_entries_map_at(entries, 0);
    crate::json::lemma_entries_map_at(entries, 1);
    crate::json::lemma_entries_map_at(entries, 2);
    lemma_names();
}

/// The plans of the account that is named are looked up, to be shown, to be shown anew, or to claim
/// the one that is named.
pub proof fn law_claim_commands(
    b: crate::json::JsonView,
    s: crate::step::SessionView,
    id: Seq<char>,
    plan_id: Seq<char>,
)
    ensures
        b.text_member("id"@) == Some(id)
            ==> first_step("claim_preview"@, b, s).0 == (
            Step::<Seq<char>, crate::json::JsonView>::DeviceMid { id, goal: Goal::Preview }),
        b.text_member("id"@) is None
            ==> first_step("claim_preview"@, b, s).0 == crate::step::failed(missing("id"@)),
        b.text_member("id"@) == Some(id)
            ==> first_step("claim_refresh"@, b, s).0 == (
            Step::<Seq<char>, crate::json::JsonView>::DeviceMid { id, goal: Goal::Refresh }),
        b.text_member("id"@) is None
            ==> first_step("claim_refresh"@, b, s).0 == crate::step::failed(missing("id"@)),
        b.text_member("id"@) == Some(id) && b.text_member("planId"@) == Some(plan_id)
            ==> first_step("claim_start"@, b, s).0 == (
            Step::<Seq<char>, crate::json::JsonView>::DeviceMid { id,
            goal: Goal::Start { plan_id } }),
        b.text_member("id"@) is None
            ==> first_step("claim_start"@, b, s).0 == crate::step::failed(missing("id"@)),
        b.text_member("id"@) is Some && b.text_member("planId"@) is None
            ==> first_step("claim_start"@, b, s).0 == crate::step::failed(missing("planId"@)),
{
    lemma_names();
}

/// A captcha hands in the claim that waits, as it waits, with the captcha and the region of the
/// command, and it waits no more; without a captcha, or a claim that waits, the command fails and
/// nothing changes. Giving up forgets the claim. The login that waits stays in any case.
pub proof fn law_claim_ends(
    b: crate::json::JsonView,
    s: crate::step::SessionView,
    param: Seq<char>,
)
    ensures
        b.text_member("param"@) == Some(param) && s.claim is Some ==> first_step(
            "claim_captcha_submit"@,
            b,
            s,
        ) == (
            Step::<Seq<char>, crate::json::JsonView>::SubmitClaim {
                pending: s.claim->0,
                param,
                region: b.text_member("region"@),
            },
            Session::<Seq<char>, crate::json::JsonView> { claim: None, oauth: s.oauth },
        ),
        b.text_member("param"@) is Some && s.claim is None ==> first_step(
            "claim_captcha_submit"@,
            b,
            s,
        ) == (crate::step::failed(Failure::NoClaimPending), s),
        b.text_member("param"@) is None ==> first_step("claim_captcha_submit"@, b, s) == (
            crate::step::failed(missing("param"@)),
            s,
        ),
        first_step("claim_cancel"@, b, s) == (
            crate::step::ended(crate::json::JsonView::Null),
            Session::<Seq<char>, crate::json::JsonView> { claim: None, oauth: s.oauth },
        ),
{
    lemma_names();
}

/// A login is begun with the service that is named, a language and a path are set as they are
/// given, and a page is opened at the address that is given.
pub proof fn law_setting_commands(
    b: crate::json::JsonView,
    s: crate::step::SessionView,
    t: Seq<char>,
)
    ensures
        b.text_member("provider"@) == Some(t)
            ==> first_step("oauth_begin"@, b, s).0 == (
            Step::<Seq<char>, crate::json::JsonView>::Providers { provider: t }),
        b.text_member("provider"@) is None
            ==> first_step("oauth_begin"@, b, s).0 == crate::step::failed(missing("provider"@)),
        b.text_member("lang"@) == Some(t)
            ==> first_step("set_language"@, b, s).0 == (
            Step::<Seq<char>, crate::json::JsonView>::ParseLanguage { lang: t }),
        b.text_member("lang"@) is None
            ==> first_step("set_language"@, b, s).0 == crate::step::failed(missing("lang"@)),
        b.text_member("path"@) == Some(t)
            ==> first_step("set_zcode_path"@, b, s).0 == (
            Step::<Seq<char>, crate::json::JsonView>::NormalizePath { path: t }),
        b.text_member("path"@) is None
            ==> first_step("set_zcode_path"@, b, s).0 == crate::step::failed(missing("path"@)),
        b.text_member("url"@) == Some(t)
            ==> first_step("open_external"@, b, s).0 == (
            Step::<Seq<char>, crate::json::JsonView>::Tell(Tell::OpenUrl { url: t })),
        b.text_member("url"@) is None
            ==> first_step("open_external"@, b, s).0 == crate::step::failed(missing("url"@)),
{
    lemma_names();
}

/// A theme is saved where it is light or dark, and the pages are told where it was saved; any other
/// fails.
pub proof fn law_theme_command(
    b: crate::json::JsonView, s: crate::step::SessionView, theme: Seq<char>)
    ensures
        b.text_member("theme"@) == Some(theme) && (theme == "light"@ || theme == "dark"@)
            ==> first_step(
            "set_theme"@,
            b,
            s,
        ).0 == (Step::<Seq<char>, crate::json::JsonView>::SaveSettings {
            change: Change::Theme(theme),
            after: AfterSave::TellIfSaved,
        }),
        b.text_member("theme"@) == Some(theme) && theme != "light"@ && theme != "dark"@
            ==> first_step(
            "set_theme"@,
            b,
            s,
        ).0 == crate::step::failed(Failure::Text("Unsupported theme"@)),
        b.text_member("theme"@) is None ==> first_step("set_theme"@, b, s).0 == crate::step::failed(
            missing("theme"@),
        ),
{
    lemma_names();
}

/// The behaviour is set by five booleans, each of which may be missing, and the pages are told in
/// any case.
pub proof fn law_behavior_command(b: crate::json::JsonView, s: crate::step::SessionView)
    ensures
        first_step("set_behavior"@, b, s).0 matches Step::SaveSettings { change, after } && after
            is TellAlways && (change matches Change::Behavior {
            launch_after_switch,
            close_to_tray,
            hot_switch,
            auto_claim,
            auto_switch,
        } && launch_after_switch == b.bool_member("launchAfterSwitch"@) && close_to_tray
            == b.bool_member("closeToTray"@) && hot_switch == b.bool_member("hotSwitch"@)
                && auto_claim
            == b.bool_member("autoClaim"@) && auto_switch == b.bool_member("autoSwitch"@)),
{
    lemma_names();
}

/// A proxy is set on or off as the command says, by its address without the white space around it.
/// One without an address, or with one of white space alone, cannot be set on, and is set off
/// without one.
pub proof fn law_proxy_command(
    b: crate::json::JsonView,
    s: crate::step::SessionView,
    on: bool,
    before: Seq<char>,
    url: Seq<char>,
    behind: Seq<char>,
)
    requires
        b.bool_member("on"@) == Some(on),
        crate::text::blank(before),
        crate::text::blank(behind),
        url.len() > 0,
        !crate::text::is_space(url[0]),
        !crate::text::is_space(url.last()),
    ensures
        b.text_member("url"@) == Some(before + url + behind)
            ==> first_step("set_auth_proxy"@, b, s).0 == (
        Step::<Seq<char>, crate::json::JsonView>::ParseProxy { on, url }),
        (b.text_member("url"@) is None || b.text_member("url"@) == Some(before)) && on
            ==> first_step(
            "set_auth_proxy"@,
            b,
            s,
        ).0 == crate::step::failed(Failure::ProxyNeedsUrl),
        (b.text_member("url"@) is None || b.text_member("url"@) == Some(before)) && !on
            ==> first_step(
            "set_auth_proxy"@,
            b,
            s,
        ).0 == (Step::<Seq<char>, crate::json::JsonView>::SaveSettings {
            change: Change::Proxy { on: false, url: None },
            after: AfterSave::TellIfSaved,
        }),
{
    lemma_names();
    crate::text::law_trimmed(before, url, behind);
    crate::text::law_trimmed(before, Seq::empty(), Seq::empty());
    assert(before + Seq::empty() + Seq::empty() =~= before);
}

/// A proxy command that does not say whether on or off fails.
pub proof fn law_proxy_needs_on(b: crate::json::JsonView, s: crate::step::SessionView)
    ensures
        b.bool_member("on"@) is None
            ==> first_step("set_auth_proxy"@, b, s).0 == crate::step::failed(
            missing("on"@),
        ),
{
    lemma_names();
}

/// The commands for which a browser has no work are answered at once: with false, with null, and
/// with word that nothing was picked.
pub proof fn law_page_commands(
    b: crate::json::JsonView,
    s: crate::step::SessionView,
    other: Seq<char>,
)
    ensures
        first_step("autostart_status"@, b, s).0 == crate::step::ended(
            crate::json::JsonView::Bool(false),
        ),
        first_step("autostart_set"@, b, s).0 == crate::step::ended(crate::json::JsonView::Bool(
            false)),
        first_step("reveal_main"@, b, s).0 == crate::step::ended(crate::json::JsonView::Null),
        first_step("open_settings"@, b, s).0 == crate::step::ended(crate::json::JsonView::Null),
        first_step("pick_zcode_path"@, b, s).0 == crate::step::ended(nothing_picked()),
        nothing_picked().bool_member("picked"@) == Some(false),
        other != "picked"@ ==> nothing_picked().member(other) is None,
{
    lemma_names();
    let entries = seq![("picked"@, crate::json::JsonView::Bool(false))];
    crate::json::lemma_entries_map_at(entries, 0);
    crate::json::lemma_entries_map(entries, other);
}

/// An export of one account, or of all, goes to the path and is sealed with the password that are
/// given; each parameter that is missing is told, the first one first.
pub proof fn law_export_commands(
    b: crate::json::JsonView,
    s: crate::step::SessionView,
    id: Seq<char>,
    path: Seq<char>,
    password: Seq<char>,
)
    ensures
        b.text_member("path"@) == Some(path) && b.text_member("id"@) == Some(id)
            && b.text_member("password"@) == Some(password)
            ==> first_step("export_finalize"@, b, s).0 == (
            Step::<Seq<char>, crate::json::JsonView>::Bundle { source: Source::One { id }, path,
            password }),
        b.text_member("path"@) is None
            ==> first_step("export_finalize"@, b, s).0 == crate::step::failed(missing("path"@)),
        b.text_member("path"@) is Some && b.text_member("id"@) is None
            ==> first_step("export_finalize"@, b, s).0 == crate::step::failed(missing("id"@)),
        b.text_member("path"@) is Some && b.text_member("id"@) is Some
            && b.text_member("password"@) is None
            ==> first_step("export_finalize"@, b, s).0 == crate::step::failed(missing("password"@)),
        b.text_member("path"@) == Some(path) && b.text_member("password"@) == Some(password)
            ==> first_step("export_all_finalize"@, b, s).0 == (
            Step::<Seq<char>, crate::json::JsonView>::Bundle { source: Source::All, path,
            password }),
        b.text_member("path"@) is None
            ==> first_step("export_all_finalize"@, b, s).0 == crate::step::failed(missing("path"@)),
        b.text_member("path"@) is Some && b.text_member("password"@) is None
            ==> first_step("export_all_finalize"@, b, s).0 == crate::step::failed(
            missing("password"@)),
{
    lemma_names();
}

/// Files that are sent are looked into where they are an array; sealed files are opened with the
/// password where they are a list of names and values. Else the files are missing.
pub proof fn law_import_commands(
    b: crate::json::JsonView,
    s: crate::step::SessionView,
    files: crate::json::JsonView,
    password: Seq<char>,
)
    ensures
        b.member("files"@) == Some(files) && files is Array
            ==> first_step("import_pick_files"@, b, s).0
            == (Step::<Seq<char>, crate::json::JsonView>::ImportFiles { files }),
        !(b.member("files"@) is Some && b.member("files"@)->0 is Array) ==> first_step(
            "import_pick_files"@,
            b,
            s,
        ).0 == crate::step::failed(missing("files"@)),
        b.member("files"@) == Some(files) && crate::transfer::named_values(files) is Some
            && b.text_member("password"@) == Some(password)
                ==> first_step("import_sealed"@, b, s).0 == (
        Step::<Seq<char>, crate::json::JsonView>::ImportSealed { files, password }),
        b.member("files"@) == Some(files) && crate::transfer::named_values(files) is Some
            && b.text_member("password"@) is None ==> first_step("import_sealed"@, b, s).0
            == crate::step::failed(missing("password"@)),
        b.member("files"@) is None || (b.member("files"@) == Some(files)
            && crate::transfer::named_values(files) is None)
                ==> first_step("import_sealed"@, b, s).0
            == crate::step::failed(missing("files"@)),
{
    lemma_names();
}

/// A name that is none of the commands fails in words that name it, and leaves what is remembered.
pub proof fn law_unknown_command(
    cmd: Seq<char>,
    b: crate::json::JsonView,
    s: crate::step::SessionView,
)
    requires
        !is_command(cmd),
    ensures
        first_step(cmd, b, s) == (
            crate::step::failed(Failure::Text("unknown command: "@ + cmd)),
            s,
        ),
{
}

/// In the name of a file an underscore stands for each character that it cannot hold, and every
/// other character for itself.
pub proof fn law_file_characters(name: Seq<char>, i: int)
    requires
        0 <= i < name.len(),
    ensures
        seq!['\\', '/', ':', '*', '?', '"', '<', '>', '|'].contains(name[i])
            ==> file_name(name)[i] == '_',
        !seq!['\\', '/', ':', '*', '?', '"', '<', '>', '|'].contains(name[i]) ==> file_name(name)[i]
            == name[i],
        file_name(name).len() == name.len(),
{
    let bad = seq!['\\', '/', ':', '*', '?', '"', '<', '>', '|'];
    assert(bad[0] == '\\' && bad[1] == '/' && bad[2] == ':' && bad[3] == '*' && bad[4] == '?'
        && bad[5]
        == '"' && bad[6] == '<' && bad[7] == '>' && bad[8] == '|');
}

} // verus!
