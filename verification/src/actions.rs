//! The native commands that the viewer's pages call: which page may call
//! which command, and what each command does to the saved state.
use vstd::prelude::*;

use crate::json::{field, text_of, JsonData, JsonMap, JsonValue};
use crate::store::{
    active_profile, active_profile_of, first_with_id, is_configured_origin, is_configured_origin_of,
    launch_profile, member, patched_startup, profiles, profiles_of, save_config, saved_profiles,
    set_startup_profile, startup_base, startup_settings, startup_settings_of, update_startup,
};
use crate::json::lemma_seq_data;
use crate::store::field_text;
use crate::text::{concat, text_eq};
use crate::weburl::{external_link, is_local_host, is_local_url, is_web_scheme, parsed_url, WebUrl};

verus! {

/// A native command.
#[derive(Clone, Copy, Debug, PartialEq, Eq)]
pub enum NativeAction {
    ConfigLoad,
    ProfilesLoad,
    ActiveProfileGet,
    StartupProfileGet,
    StartupSettingsGet,
    DisplaysGet,
    ConnectionTest,
    DiagnosticsGet,
    SupportBundleCreate,
    ProfilesSave,
    ActiveProfileSet,
    StartupProfileSet,
    StartupSettingsSet,
    ConfigSave,
    Reset,
    Restart,
    OpenConfig,
    SwitchNextProfile,
    LaunchProfile,
    ToggleFullscreen,
    OpenDevTools,
    OpenExternal,
    OpenLogFile,
    ViewerLog,
    Heartbeat,
}

/// The name by which pages call a command.
pub open spec fn action_name(a: NativeAction) -> Seq<char> {
    match a {
        NativeAction::ConfigLoad => "configLoad"@,
        NativeAction::ProfilesLoad => "profilesLoad"@,
        NativeAction::ActiveProfileGet => "activeProfileGet"@,
        NativeAction::StartupProfileGet => "startupProfileGet"@,
        NativeAction::StartupSettingsGet => "startupSettingsGet"@,
        NativeAction::DisplaysGet => "displaysGet"@,
        NativeAction::ConnectionTest => "connectionTest"@,
        NativeAction::DiagnosticsGet => "diagnosticsGet"@,
        NativeAction::SupportBundleCreate => "supportBundleCreate"@,
        NativeAction::ProfilesSave => "profilesSave"@,
        NativeAction::ActiveProfileSet => "activeProfileSet"@,
        NativeAction::StartupProfileSet => "startupProfileSet"@,
        NativeAction::StartupSettingsSet => "startupSettingsSet"@,
        NativeAction::ConfigSave => "configSave"@,
        NativeAction::Reset => "reset"@,
        NativeAction::Restart => "restart"@,
        NativeAction::OpenConfig => "openConfig"@,
        NativeAction::SwitchNextProfile => "switchNextProfile"@,
        NativeAction::LaunchProfile => "launchProfile"@,
        NativeAction::ToggleFullscreen => "toggleFullscreen"@,
        NativeAction::OpenDevTools => "openDevTools"@,
        NativeAction::OpenExternal => "openExternal"@,
        NativeAction::OpenLogFile => "openLogFile"@,
        NativeAction::ViewerLog => "upv:log"@,
        NativeAction::Heartbeat => "upv:heartbeat"@,
    }
}

/// The command called `name`, if there is one.
pub fn parse_action(name: &str) -> (r: Option<NativeAction>)
    ensures
        match r {
            Some(a) => action_name(a) == name@,
            None => forall|a: NativeAction| action_name(a) != name@,
        },
{
    if text_eq(name, "configLoad") {
        Some(NativeAction::ConfigLoad)
    } else if text_eq(name, "profilesLoad") {
        Some(NativeAction::ProfilesLoad)
    } else if text_eq(name, "activeProfileGet") {
        Some(NativeAction::ActiveProfileGet)
    } else if text_eq(name, "startupProfileGet") {
        Some(NativeAction::StartupProfileGet)
    } else if text_eq(name, "startupSettingsGet") {
        Some(NativeAction::StartupSettingsGet)
    } else if text_eq(name, "displaysGet") {
        Some(NativeAction::DisplaysGet)
    } else if text_eq(name, "connectionTest") {
        Some(NativeAction::ConnectionTest)
    } else if text_eq(name, "diagnosticsGet") {
        Some(NativeAction::DiagnosticsGet)
    } else if text_eq(name, "supportBundleCreate") {
        Some(NativeAction::SupportBundleCreate)
    } else if text_eq(name, "profilesSave") {
        Some(NativeAction::ProfilesSave)
    } else if text_eq(name, "activeProfileSet") {
        Some(NativeAction::ActiveProfileSet)
    } else if text_eq(name, "startupProfileSet") {
        Some(NativeAction::StartupProfileSet)
    } else if text_eq(name, "startupSettingsSet") {
        Some(NativeAction::StartupSettingsSet)
    } else if text_eq(name, "configSave") {
        Some(NativeAction::ConfigSave)
    } else if text_eq(name, "reset") {
        Some(NativeAction::Reset)
    } else if text_eq(name, "restart") {
        Some(NativeAction::Restart)
    } else if text_eq(name, "openConfig") {
        Some(NativeAction::OpenConfig)
    } else if text_eq(name, "switchNextProfile") {
        Some(NativeAction::SwitchNextProfile)
    } else if text_eq(name, "launchProfile") {
        Some(NativeAction::LaunchProfile)
    } else if text_eq(name, "toggleFullscreen") {
        Some(NativeAction::ToggleFullscreen)
    } else if text_eq(name, "openDevTools") {
        Some(NativeAction::OpenDevTools)
    } else if text_eq(name, "openExternal") {
        Some(NativeAction::OpenExternal)
    } else if text_eq(name, "openLogFile") {
        Some(NativeAction::OpenLogFile)
    } else if text_eq(name, "upv:log") {
        Some(NativeAction::ViewerLog)
    } else if text_eq(name, "upv:heartbeat") {
        Some(NativeAction::Heartbeat)
    } else {
        None
    }
}

/// The commands that a camera console page may call.
pub open spec fn camera_page_may_call(name: Seq<char>) -> bool {
    name == "configLoad"@ || name == "startupSettingsGet"@ || name == "upv:log"@ || name
        == "upv:heartbeat"@ || name == "toggleFullscreen"@ || name == "switchNextProfile"@ || name
        == "openConfig"@ || name == "restart"@
}

/// Whether a camera console page may call the command named `name`.
pub fn allowed_from_camera_page(name: &str) -> (r: bool)
    ensures
        r == camera_page_may_call(name@),
{
    text_eq(name, "configLoad") || text_eq(name, "startupSettingsGet") || text_eq(name, "upv:log")
        || text_eq(name, "upv:heartbeat") || text_eq(name, "toggleFullscreen") || text_eq(
        name,
        "switchNextProfile",
    ) || text_eq(name, "openConfig") || text_eq(name, "restart")
}

/// The refusal for a page outside every configured origin.
pub open spec fn unauthorized_page_message() -> Seq<char> {
    "This page is not an authorized UniFi console"@
}

/// Decides whether the page at `page` may call the command named `name`:
/// the page must be one of the viewer's own pages or belong to a saved
/// console; a console page may call only a few commands; and the command must
/// exist.  Each refusal comes with its message.
pub fn authorize_action(name: &str, page: &WebUrl, data: &JsonMap) -> (r: Result<
    NativeAction,
    String,
>)
    ensures
        !is_configured_origin_of(data@, page@) ==> (r matches Err(e) && e@
            == unauthorized_page_message()),
        is_configured_origin_of(data@, page@) && !is_local_host(page@.host)
            && !camera_page_may_call(name@) ==> (r matches Err(e) && e@ == "Native action "@
            + name@ + " is unavailable from the camera page"@),
        is_configured_origin_of(data@, page@) && (is_local_host(page@.host) || camera_page_may_call(
            name@,
        )) ==> match r {
            Ok(a) => action_name(a) == name@,
            Err(e) => (forall|a: NativeAction| action_name(a) != name@) && e@
                == "unknown native action: "@ + name@,
        },
{
    if !is_configured_origin(data, page) {
        return Err("This page is not an authorized UniFi console".to_owned());
    }
    if !is_local_url(page) && !allowed_from_camera_page(name) {
        let head = concat("Native action ", name);
        return Err(concat(head.as_str(), " is unavailable from the camera page"));
    }
    match parse_action(name) {
        Some(a) => Ok(a),
        None => Err(concat("unknown native action: ", name)),
    }
}

/// What a command leaves for the application to do after its effect on the
/// saved state.
#[derive(Debug)]
pub enum ActionOutcome {
    /// Answer with this value.
    Reply(JsonValue),
    /// The state changed: write it, then answer `null`.
    Saved,
    /// The startup settings changed: write the state, update the Windows
    /// autostart registration, then answer `null`.
    SavedStartup,
    /// Open one of the viewer's own pages, then answer `null`.
    Navigate(String),
    /// The active profile changed: write the state, then open this console
    /// address and answer `null`.
    Launch(String),
    /// Open this web address in the system browser, then answer `null`.
    OpenExternal(String),
    /// Append this message to the log under the source `window`, then answer `null`.
    Log(String),
    /// Answer with this error.
    Failed(String),
    /// The command works on the window, the system or the network; the
    /// application carries it out.
    Native,
}

/// The command may change the saved state.
pub open spec fn writes_state(a: NativeAction) -> bool {
    match a {
        NativeAction::ProfilesSave | NativeAction::ActiveProfileSet | NativeAction::StartupProfileSet
        | NativeAction::StartupSettingsSet | NativeAction::ConfigSave | NativeAction::Reset
        | NativeAction::LaunchProfile => true,
        _ => false,
    }
}

/// The text of a command argument, or the empty text when it is not a string.
pub open spec fn argument_text(first: JsonData) -> Seq<char> {
    match text_of(first) {
        Some(t) => t,
        None => Seq::empty(),
    }
}

/// A value, or `null` when there is none.
pub open spec fn or_null(v: Option<JsonData>) -> JsonData {
    match v {
        Some(d) => d,
        None => JsonData::Null,
    }
}

/// The startup profile as saved: `startupSettings.profileId`, or `null`.
pub open spec fn saved_startup_profile(data: Map<Seq<char>, JsonData>) -> JsonData {
    match member(data, "startupSettings"@) {
        Some(s) => or_null(field(s, "profileId"@)),
        None => JsonData::Null,
    }
}

fn value_or_null(v: Option<&JsonValue>) -> (r: JsonValue)
    ensures
        r@ == or_null(crate::json::opt_data(v)),
{
    match v {
        Some(x) => x.duplicate(),
        None => JsonValue::Null,
    }
}

fn argument_str(first: &JsonValue) -> (r: &str)
    ensures
        r@ == argument_text(first@),
{
    match first.as_str() {
        Some(t) => t,
        None => {
            proof {
                reveal_strlit("");
            }
            ""
        },
    }
}

/// Carries out the part of command `action` that concerns the saved state,
/// with `first` as its first argument (`null` when it has none).
pub fn run_store_action(action: NativeAction, first: JsonValue, data: &mut JsonMap) -> (r:
    ActionOutcome)
    ensures
        !writes_state(action) ==> final(data)@ == old(data)@,
        match action {
            NativeAction::ConfigLoad => final(data)@ == old(data)@ && (r matches ActionOutcome::Reply(
                v,
            ) && v@ == or_null(active_profile_of(old(data)@))),
            NativeAction::ProfilesLoad => final(data)@ == old(data)@ && (r matches ActionOutcome::Reply(
                v,
            ) && v@ == JsonData::Array(profiles_of(old(data)@))),
            NativeAction::ActiveProfileGet => final(data)@ == old(data)@ && (r matches ActionOutcome::Reply(
                v,
            ) && v@ == or_null(member(old(data)@, "activeProfileId"@))),
            NativeAction::StartupProfileGet => final(data)@ == old(data)@ && (r matches ActionOutcome::Reply(
                v,
            ) && v@ == saved_startup_profile(old(data)@)),
            NativeAction::StartupSettingsGet => final(data)@ == old(data)@ && (r matches ActionOutcome::Reply(
                v,
            ) && v@ == JsonData::Object(startup_settings_of(old(data)@))),
            NativeAction::ProfilesSave => final(data)@ == old(data)@.insert("profiles"@, first@)
                && r is Saved,
            NativeAction::ActiveProfileSet => final(data)@ == old(data)@.insert(
                "activeProfileId"@,
                first@,
            ) && r is Saved,
            NativeAction::StartupProfileSet => final(data)@ == old(data)@.insert(
                "startupSettings"@,
                JsonData::Object(startup_base(old(data)@).insert("profileId"@, first@)),
            ) && r is SavedStartup,
            NativeAction::StartupSettingsSet => final(data)@ == old(data)@.insert(
                "startupSettings"@,
                JsonData::Object(patched_startup(old(data)@, first@)),
            ) && r is SavedStartup,
            NativeAction::ConfigSave => final(data)@ == old(data)@.insert(
                "profiles"@,
                JsonData::Array(saved_profiles(old(data)@, first@)),
            ) && r is Saved,
            NativeAction::Reset => final(data)@ == Map::<Seq<char>, JsonData>::empty() && r is Saved,
            NativeAction::OpenConfig => final(data)@ == old(data)@ && (r matches ActionOutcome::Navigate(
                p,
            ) && p@ == "config.html"@),
            NativeAction::SwitchNextProfile => final(data)@ == old(data)@ && (if profiles_of(
                old(data)@,
            ).len() <= 1 {
                r matches ActionOutcome::Reply(v) && v@ == JsonData::Null
            } else {
                r matches ActionOutcome::Navigate(p) && p@ == "profile-select.html"@
            }),
            NativeAction::LaunchProfile => {
                let id = argument_text(first@);
                let list = profiles_of(old(data)@);
                match first_with_id(list, Some(id)) {
                    None => final(data)@ == old(data)@ && (r matches ActionOutcome::Failed(e) && e@
                        == "profile not found"@),
                    Some(i) => final(data)@ == old(data)@.insert(
                        "activeProfileId"@,
                        JsonData::Str(id),
                    ) && (match field_text(list[i], "url"@) {
                        Some(u) => r matches ActionOutcome::Launch(t) && t@ == u,
                        None => r matches ActionOutcome::Failed(e) && e@ == "profile URL missing"@,
                    }),
                }
            },
            NativeAction::OpenExternal => final(data)@ == old(data)@ && (match parsed_url(
                argument_text(first@),
            ) {
                Err(m) => r matches ActionOutcome::Failed(e) && e@ == m,
                Ok(u) => if is_web_scheme(u.scheme) {
                    r matches ActionOutcome::OpenExternal(t) && t@ == argument_text(first@)
                } else {
                    r matches ActionOutcome::Failed(e) && e@ == "only http(s) URLs are allowed"@
                },
            }),
            NativeAction::ViewerLog => final(data)@ == old(data)@ && (match text_of(first@) {
                Some(m) => r matches ActionOutcome::Log(t) && t@ == m,
                None => r matches ActionOutcome::Reply(v) && v@ == JsonData::Null,
            }),
            _ => final(data)@ == old(data)@ && r is Native,
        },
{
    match action {
        NativeAction::ConfigLoad => {
            let v = match active_profile(data) {
                Some(p) => p,
                None => JsonValue::Null,
            };
            ActionOutcome::Reply(v)
        },
        NativeAction::ProfilesLoad => {
            let list = profiles(data);
            ActionOutcome::Reply(JsonValue::Array(list))
        },
        NativeAction::ActiveProfileGet => ActionOutcome::Reply(
            value_or_null(data.get("activeProfileId")),
        ),
        NativeAction::StartupProfileGet => {
            let v = match data.get("startupSettings") {
                Some(s) => value_or_null(s.get("profileId")),
                None => JsonValue::Null,
            };
            ActionOutcome::Reply(v)
        },
        NativeAction::StartupSettingsGet => ActionOutcome::Reply(startup_settings(data)),
        NativeAction::ProfilesSave => {
            data.insert("profiles".to_owned(), first);
            ActionOutcome::Saved
        },
        NativeAction::ActiveProfileSet => {
            data.insert("activeProfileId".to_owned(), first);
            ActionOutcome::Saved
        },
        NativeAction::StartupProfileSet => {
            set_startup_profile(data, first);
            ActionOutcome::SavedStartup
        },
        NativeAction::StartupSettingsSet => {
            update_startup(data, &first);
            ActionOutcome::SavedStartup
        },
        NativeAction::ConfigSave => {
            save_config(data, &first);
            ActionOutcome::Saved
        },
        NativeAction::Reset => {
            data.clear();
            ActionOutcome::Saved
        },
        NativeAction::OpenConfig => ActionOutcome::Navigate("config.html".to_owned()),
        NativeAction::SwitchNextProfile => {
            let list = profiles(data);
            proof {
                lemma_seq_data(list@);
            }
            if list.len() <= 1 {
                ActionOutcome::Reply(JsonValue::Null)
            } else {
                ActionOutcome::Navigate("profile-select.html".to_owned())
            }
        },
        NativeAction::LaunchProfile => {
            let id = argument_str(&first);
            match launch_profile(data, id) {
                Ok(target) => ActionOutcome::Launch(target),
                Err(e) => ActionOutcome::Failed(e),
            }
        },
        NativeAction::OpenExternal => {
            let target = argument_str(&first);
            match external_link(target) {
                Ok(_) => ActionOutcome::OpenExternal(target.to_owned()),
                Err(e) => ActionOutcome::Failed(e),
            }
        },
        NativeAction::ViewerLog => match first.as_str() {
            Some(m) => ActionOutcome::Log(m.to_owned()),
            None => ActionOutcome::Reply(JsonValue::Null),
        },
        _ => ActionOutcome::Native,
    }
}

} // verus!
