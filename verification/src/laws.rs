//! Properties that hold across the library's operations.
use vstd::prelude::*;

use crate::actions::{action_name, camera_page_may_call, writes_state, NativeAction};
use crate::connection::connection_target_of;
use crate::json::{field, JsonData, JsonNumber};
use crate::secrets::{
    base64_encoding, is_base64_char, is_sealed, needs_protection, opened_outcome, padded_base64,
    protect_outcome, read_back_outcome, sealed_form, SECRET_PREFIX,
};
use crate::store::{
    password_of, profile_protected, profile_unprotect_failed, profile_unprotected, read_back_profiles,
    sealed_passwords, stored_outcome, with_password,
    active_profile_of, member_text,
    default_startup_settings, first_with_id, member, patched_startup, profiles_of, saved_profiles,
    selected_profile_url_of, startup_settings_of, is_first_with_id, lemma_first_none,
    lemma_first_unique, profile_id, field_text,
};
use crate::weburl::{is_web_scheme, parsed_url};

verus! {

/// Reading a member back gives what was last written to it, and writing one
/// member leaves every other member as it was.
pub proof fn law_read_after_write(
    m: Map<Seq<char>, JsonData>,
    k: Seq<char>,
    v: JsonData,
    other: Seq<char>,
)
    requires
        other != k,
    ensures
        m.insert(k, v).contains_key(k),
        m.insert(k, v)[k] == v,
        m.insert(k, v).contains_key(other) == m.contains_key(other),
        m.contains_key(other) ==> m.insert(k, v)[other] == m[other],
{
}

/// What the envelope seals is sealed.
pub proof fn law_sealed_form_is_sealed(p: Seq<u8>)
    ensures
        is_sealed(sealed_form(p)),
{
    assert(sealed_form(p).take(SECRET_PREFIX@.len() as int) =~= SECRET_PREFIX@);
}

/// A non-empty secret comes out sealed, whatever it looked like and whatever
/// the byte protector returned: `dpapi:` and then padded standard base64,
/// four characters of the base64 alphabet or `=` for every started group of
/// three protected bytes.
pub proof fn law_protected_is_sealed<F: Fn(&[u8]) -> Result<Vec<u8>, String>>(
    f: F,
    secret: Seq<char>,
    out: Seq<char>,
)
    requires
        needs_protection(secret),
        protect_outcome(f, secret, Ok::<Seq<char>, Seq<char>>(out)),
    ensures
        is_sealed(out),
        exists|p: Seq<u8>| out == #[trigger] sealed_form(p) && padded_base64(p),
        (out.len() - SECRET_PREFIX@.len()) % 4 == 0,
        forall|i: int| SECRET_PREFIX@.len() <= i < out.len() ==> is_base64_char(#[trigger] out[i]),
{
    let (b, res) = choose|b: &[u8], res: Result<Vec<u8>, String>|
        b@ == vstd::utf8::encode_utf8(secret) && call_ensures(f, (b,), res) && Ok::<Seq<char>, Seq<char>>(out) == match res {
            Ok(p) => Ok::<Seq<char>, Seq<char>>(sealed_form(p@)),
            Err(e) => Err::<Seq<char>, Seq<char>>(e@),
        } && (res matches Ok(p) ==> padded_base64(p@));
    let p = res->Ok_0@;
    law_sealed_form_is_sealed(p);
    let enc = base64_encoding(p);
    assert(out.len() - SECRET_PREFIX@.len() == enc.len());
    assert forall|i: int| SECRET_PREFIX@.len() <= i < out.len() implies is_base64_char(#[trigger] out[i]) by {
        assert(out[i] == enc[i - SECRET_PREFIX@.len()]);
    }
}

/// Without saved startup settings the viewer behaves as a kiosk: it starts
/// fullscreen, with Windows, reconnects automatically, opens on the first
/// display, and has no startup profile.
pub proof fn law_kiosk_defaults(data: Map<Seq<char>, JsonData>)
    requires
        !data.contains_key("startupSettings"@),
    ensures
        startup_settings_of(data) == default_startup_settings(),
        startup_settings_of(data)["fullscreen"@] == JsonData::Bool(true),
        startup_settings_of(data)["startWithWindows"@] == JsonData::Bool(true),
        startup_settings_of(data)["autoReconnect"@] == JsonData::Bool(true),
        startup_settings_of(data)["displayIndex"@] == JsonData::Number(JsonNumber::PosInt(0)),
        startup_settings_of(data)["profileId"@] == JsonData::Null,
{
    reveal_strlit("fullscreen");
    reveal_strlit("startWithWindows");
    reveal_strlit("autoReconnect");
    reveal_strlit("displayIndex");
    reveal_strlit("profileId");
    assert("fullscreen"@.len() == 10);
    assert("startWithWindows"@.len() == 16);
    assert("autoReconnect"@.len() == 13);
    assert("displayIndex"@.len() == 12);
    assert("profileId"@.len() == 9);
}

/// The profile that opens at startup does not depend on which profile was
/// active last: the startup settings decide.
pub proof fn law_startup_profile_ignores_active(data: Map<Seq<char>, JsonData>, active: JsonData)
    ensures
        selected_profile_url_of(data.insert("activeProfileId"@, active)) == selected_profile_url_of(
            data,
        ),
{
    let d2 = data.insert("activeProfileId"@, active);
    reveal_strlit("activeProfileId");
    reveal_strlit("profiles");
    reveal_strlit("startupSettings");
    assert("activeProfileId"@.len() == 15);
    assert("profiles"@.len() == 8);
    assert("startupSettings"@.len() == 15);
    assert("activeProfileId"@[0] != "startupSettings"@[0]);
            assert("activeProfileId"@ != "startupSettings"@);
    assert(member(d2, "profiles"@) == member(data, "profiles"@));
    assert(member(d2, "startupSettings"@) == member(data, "startupSettings"@));
    assert(profiles_of(d2) == profiles_of(data));
    assert(startup_settings_of(d2) == startup_settings_of(data));
}

/// Saving the configuration keeps the number of profiles and changes no
/// profile but the active one.
pub proof fn law_save_config_touches_only_active(
    data: Map<Seq<char>, JsonData>,
    config: JsonData,
    i: int,
)
    requires
        0 <= i < profiles_of(data).len(),
        first_with_id(profiles_of(data), crate::store::member_text(data, "activeProfileId"@)) != Some(i),
    ensures
        saved_profiles(data, config).len() == profiles_of(data).len(),
        saved_profiles(data, config)[i] == profiles_of(data)[i],
{
}

/// A startup setting that was written is read back: every member of the
/// patch is in the effective startup settings afterwards.
pub proof fn law_startup_patch_read_back(
    data: Map<Seq<char>, JsonData>,
    patch: Map<Seq<char>, JsonData>,
    k: Seq<char>,
)
    requires
        patch.contains_key(k),
    ensures
        ({
            let after = data.insert(
                "startupSettings"@,
                JsonData::Object(patched_startup(data, JsonData::Object(patch))),
            );
            startup_settings_of(after).contains_key(k) && startup_settings_of(after)[k] == patch[k]
        }),
{
}

/// A camera console page can never change the saved state: none of the
/// commands it may call writes it.
pub proof fn law_camera_pages_cannot_write(a: NativeAction)
    requires
        camera_page_may_call(action_name(a)),
    ensures
        !writes_state(a),
{
    reveal_strlit("configLoad");
    reveal_strlit("startupSettingsGet");
    reveal_strlit("upv:log");
    reveal_strlit("upv:heartbeat");
    reveal_strlit("toggleFullscreen");
    reveal_strlit("switchNextProfile");
    reveal_strlit("openConfig");
    reveal_strlit("restart");
    reveal_strlit("profilesSave");
    reveal_strlit("activeProfileSet");
    reveal_strlit("startupProfileSet");
    reveal_strlit("startupSettingsSet");
    reveal_strlit("configSave");
    reveal_strlit("reset");
    reveal_strlit("launchProfile");
    let n = action_name(a);
    if writes_state(a) {
        assert(n.len() != 7);
        assert(n != "configLoad"@) by {
            assert("configLoad"@[6] != n[6] || n.len() != 10);
        }
        assert(n != "openConfig"@) by {
            assert("openConfig"@[0] != n[0] || n.len() != 10);
        }
        assert(n != "startupSettingsGet"@) by {
            assert("startupSettingsGet"@[15] != n[15] || n.len() != 18);
        }
        assert(n != "upv:heartbeat"@) by {
            assert("upv:heartbeat"@[0] != n[0] || n.len() != 13);
        }
        assert(n != "toggleFullscreen"@) by {
            assert("toggleFullscreen"@[0] != n[0] || n.len() != 16);
        }
        assert(n != "switchNextProfile"@) by {
            assert("switchNextProfile"@[1] != n[1] || n.len() != 17);
        }
    }
}

/// A connection test only ever tries an http or https address.
pub proof fn law_connection_test_only_web(target: Seq<char>)
    requires
        connection_target_of(target) is Ok,
    ensures
        parsed_url(target) matches Ok(u) && is_web_scheme(u.scheme),
{
}

/// Saved profiles are the profiles that are loaded back.
pub proof fn law_saved_profiles_load_back(data: Map<Seq<char>, JsonData>, list: Seq<JsonData>)
    ensures
        profiles_of(data.insert("profiles"@, JsonData::Array(list))) == list,
{
}

/// Launching a profile makes it the profile that the viewer shows.
pub proof fn law_launched_profile_is_active(data: Map<Seq<char>, JsonData>, id: Seq<char>, i: int)
    requires
        first_with_id(profiles_of(data), Some(id)) == Some(i),
    ensures
        active_profile_of(data.insert("activeProfileId"@, JsonData::Str(id)))
            == Some(profiles_of(data)[i]),
{
    let after = data.insert("activeProfileId"@, JsonData::Str(id));
    reveal_strlit("activeProfileId");
    reveal_strlit("profiles");
    assert("activeProfileId"@.len() != "profiles"@.len());
    assert(profiles_of(after) == profiles_of(data));
    assert(member_text(after, "activeProfileId"@) == Some(id));
}

/// The byte unprotector `g` reads back whatever the byte protector `f`
/// protected, as the data protection of one Windows user does.
pub open spec fn reads_back<F: Fn(&[u8]) -> Result<Vec<u8>, String>, G: Fn(&[u8]) -> Result<Vec<u8>, String>>(
    f: F,
    g: G,
) -> bool {
    forall|b: &[u8], p: Vec<u8>, c: &[u8], res: Result<Vec<u8>, String>|
        #![trigger call_ensures(f, (b,), Ok::<Vec<u8>, String>(p)), call_ensures(g, (c,), res)]
        call_ensures(f, (b,), Ok::<Vec<u8>, String>(p)) && c@ == p@ && call_ensures(g, (c,), res)
            ==> (res matches Ok(x) && x@ == b@)
}

/// A password that was protected is read back as it was, when the
/// unprotector reads back what the protector protected.
pub proof fn law_password_round_trip<F: Fn(&[u8]) -> Result<Vec<u8>, String>, G: Fn(&[u8]) -> Result<Vec<u8>, String>>(
    f: F,
    g: G,
    secret: Seq<char>,
    sealed: Seq<char>,
    back: Result<Seq<char>, Seq<char>>,
)
    requires
        reads_back(f, g),
        protect_outcome(f, secret, Ok::<Seq<char>, Seq<char>>(sealed)),
        read_back_outcome(g, sealed, back),
    ensures
        back == Ok::<Seq<char>, Seq<char>>(secret),
{
    if needs_protection(secret) {
        let (b, res) = choose|b: &[u8], res: Result<Vec<u8>, String>|
            b@ == vstd::utf8::encode_utf8(secret) && call_ensures(f, (b,), res) && Ok::<Seq<char>, Seq<char>>(sealed) == match res {
                Ok(p) => Ok::<Seq<char>, Seq<char>>(sealed_form(p@)),
                Err(e) => Err::<Seq<char>, Seq<char>>(e@),
            } && (res matches Ok(p) ==> padded_base64(p@));
        let p = res->Ok_0;
        assert(sealed == sealed_form(p@));
        assert(opened_outcome(g, p@, back));
        let (c, r2) = choose|c: &[u8], r2: Result<Vec<u8>, String>|
            c@ == p@ && call_ensures(g, (c,), r2) && back == match r2 {
                Ok(plain) => if vstd::utf8::valid_utf8(plain@) {
                    Ok::<Seq<char>, Seq<char>>(vstd::utf8::decode_utf8(plain@))
                } else {
                    Err::<Seq<char>, Seq<char>>(crate::secrets::utf8_error_text(plain@))
                },
                Err(e) => Err::<Seq<char>, Seq<char>>(e@),
            };
        assert(call_ensures(f, (b,), Ok::<Vec<u8>, String>(p)));
        vstd::utf8::encode_utf8_valid_utf8(secret);
        vstd::utf8::encode_utf8_decode_utf8(secret);
    } else {
        reveal_strlit("dpapi:");
        assert(SECRET_PREFIX@.len() == 6);
        assert(!is_sealed(secret));
    }
}

/// A profile whose password was protected is read back as it was, and
/// reading it back cannot fail.
pub proof fn law_profile_round_trip<F: Fn(&[u8]) -> Result<Vec<u8>, String>, G: Fn(&[u8]) -> Result<Vec<u8>, String>>(
    f: F,
    g: G,
    kept: Seq<Seq<char>>,
    p: JsonData,
    m: JsonData,
)
    requires
        reads_back(f, g),
        password_of(p) matches Some(pw) ==> !kept.contains(pw),
        profile_protected(f, kept, p, m),
    ensures
        forall|a: JsonData| profile_unprotected(g, m, a) ==> a == p,
        forall|e: Seq<char>| !profile_unprotect_failed(g, m, e),
{
    if let Some(pw) = password_of(p) {
        let out = choose|out: Seq<char>|
            stored_outcome(f, kept, pw, Ok::<Seq<char>, Seq<char>>(out)) && m == with_password(p, out);
        let pm = p->Object_0;
        assert(protect_outcome(f, pw, Ok::<Seq<char>, Seq<char>>(out)));
        assert(password_of(m) == Some(out));
        assert forall|a: JsonData| profile_unprotected(g, m, a) implies a == p by {
            let back = choose|back: Seq<char>|
                read_back_outcome(g, out, Ok::<Seq<char>, Seq<char>>(back)) && a == with_password(m, back);
            law_password_round_trip(f, g, pw, out, Ok::<Seq<char>, Seq<char>>(back));
            assert(pm.insert("password"@, JsonData::Str(out)).insert("password"@, JsonData::Str(pw)) =~= pm);
        }
        assert forall|e: Seq<char>| !profile_unprotect_failed(g, m, e) by {
            if profile_unprotect_failed(g, m, e) {
                law_password_round_trip(f, g, pw, out, Err::<Seq<char>, Seq<char>>(e));
            }
        }
    }
}

/// Reading back the protected profiles gives the saved profiles back, when
/// the unprotector reads back what the protector protected and no password
/// was kept as it was: the store that was written is the store that is
/// loaded.
pub proof fn law_store_round_trip<F: Fn(&[u8]) -> Result<Vec<u8>, String>, G: Fn(&[u8]) -> Result<Vec<u8>, String>>(
    f: F,
    g: G,
    kept: Seq<Seq<char>>,
    before: Seq<JsonData>,
    written: Seq<JsonData>,
    loaded: Seq<JsonData>,
    unread: Seq<Seq<char>>,
)
    requires
        reads_back(f, g),
        forall|i: int|
            0 <= i < before.len() ==> (password_of(#[trigger] before[i]) matches Some(pw) ==> !kept.contains(pw)),
        written.len() == before.len(),
        forall|i: int| 0 <= i < before.len() ==> profile_protected(f, kept, #[trigger] before[i], written[i]),
        loaded.len() == written.len(),
        read_back_profiles(g, written, loaded, unread),
    ensures
        loaded == before,
{
    assert forall|i: int| 0 <= i < before.len() implies (forall|a: JsonData| profile_unprotected(g, written[i], a) ==> a == before[i])
        && (forall|e: Seq<char>| !profile_unprotect_failed(g, #[trigger] written[i], e)) by {
        law_profile_round_trip(f, g, kept, before[i], written[i]);
    }
    let k = choose|k: int|
        #![trigger written.subrange(k, written.len() as int)]
        0 <= k <= written.len() && (forall|i: int|
            0 <= i < k ==> profile_unprotected(g, #[trigger] written[i], loaded[i])) && (k
            < written.len() ==> exists|e: Seq<char>| profile_unprotect_failed(g, written[k], e))
            && (forall|i: int| k <= i < written.len() ==> #[trigger] loaded[i] == written[i])
            && unread == sealed_passwords(written.subrange(k, written.len() as int));
    if k < written.len() {
        let e = choose|e: Seq<char>| profile_unprotect_failed(g, written[k], e);
        assert(false);
    }
    assert forall|i: int| 0 <= i < before.len() implies loaded[i] == before[i] by {
        assert(profile_unprotected(g, written[i], loaded[i]));
    }
    assert(loaded =~= before);
}

/// Every non-empty string password reaches the disk sealed: one listed in
/// `kept` stays as it was, and every text listed there is sealed; any other
/// is the envelope, in padded base64, of what the protector returned.
pub proof fn law_stored_passwords_sealed<F: Fn(&[u8]) -> Result<Vec<u8>, String>>(
    f: F,
    kept: Seq<Seq<char>>,
    before: JsonData,
    after: JsonData,
)
    requires
        forall|i: int| 0 <= i < kept.len() ==> is_sealed(#[trigger] kept[i]),
        profile_protected(f, kept, before, after),
        password_of(before) matches Some(pw) && pw.len() > 0,
    ensures
        password_of(after) matches Some(q) && is_sealed(q),
        password_of(before) matches Some(pw) && !kept.contains(pw) ==> (password_of(after) matches Some(q)
            && exists|p: Seq<u8>| q == #[trigger] sealed_form(p) && padded_base64(p)),
{
    let pw = password_of(before)->0;
    let out = choose|out: Seq<char>|
        stored_outcome(f, kept, pw, Ok::<Seq<char>, Seq<char>>(out)) && after == with_password(before, out);
    assert(password_of(after) == Some(out));
    if kept.contains(pw) {
        let i = choose|i: int| 0 <= i < kept.len() && kept[i] == pw;
        assert(is_sealed(kept[i]));
    } else {
        law_protected_is_sealed(f, pw, out);
    }
}


/// Saving the configuration form merges it into the active profile: every
/// member that the form sets takes the form's value, every member that it
/// does not set (the profile's `id` and `url` among them) keeps its value,
/// and the number of profiles stays the same.
pub proof fn law_save_config_merges_into_active(
    data: Map<Seq<char>, JsonData>,
    config: Map<Seq<char>, JsonData>,
    i: int,
    k: Seq<char>,
)
    requires
        first_with_id(profiles_of(data), member_text(data, "activeProfileId"@)) == Some(i),
        profiles_of(data)[i] is Object,
    ensures
        ({
            let before = profiles_of(data)[i]->Object_0;
            let after = saved_profiles(data, JsonData::Object(config));
            &&& after.len() == profiles_of(data).len()
            &&& after[i] is Object
            &&& config.contains_key(k) ==> after[i]->Object_0.contains_key(k)
                && after[i]->Object_0[k] == config[k]
            &&& !config.contains_key(k) ==> (after[i]->Object_0.contains_key(k)
                <==> before.contains_key(k))
            &&& !config.contains_key(k) && before.contains_key(k) ==> after[i]->Object_0[k]
                == before[k]
        }),
{
    let list = profiles_of(data);
    let i0 = choose|j: int| is_first_with_id(list, member_text(data, "activeProfileId"@), j);
    assert(i0 == i);
}

/// Saving a configuration form that sets no `id` keeps the active profile
/// active: its id is unchanged and it is still the first profile with the
/// active id.
pub proof fn law_save_config_keeps_active_profile(
    data: Map<Seq<char>, JsonData>,
    config: Map<Seq<char>, JsonData>,
    i: int,
)
    requires
        first_with_id(profiles_of(data), member_text(data, "activeProfileId"@)) == Some(i),
        !config.contains_key("id"@),
    ensures
        ({
            let after = saved_profiles(data, JsonData::Object(config));
            &&& profile_id(after[i]) == profile_id(profiles_of(data)[i])
            &&& first_with_id(after, member_text(data, "activeProfileId"@)) == Some(i)
        }),
{
    let list = profiles_of(data);
    let id = member_text(data, "activeProfileId"@);
    let after = saved_profiles(data, JsonData::Object(config));
    let i0 = choose|j: int| is_first_with_id(list, id, j);
    assert(i0 == i);
    assert(is_first_with_id(list, id, i));
    if list[i] is Object {
        let p = list[i]->Object_0;
        assert(field(after[i], "id"@) == field(list[i], "id"@));
    }
    assert forall|j: int| 0 <= j < i implies profile_id(#[trigger] after[j]) != id by {
        assert(after[j] == list[j]);
    }
    assert(is_first_with_id(after, id, i));
    lemma_first_unique(after, id, i);
}

/// A startup patch changes only the settings it names: when the startup
/// settings are saved as an object `saved`, every member that the patch does
/// not set is present afterwards exactly when it was, with the same value.
pub proof fn law_startup_patch_keeps_saved_settings(
    data: Map<Seq<char>, JsonData>,
    saved: Map<Seq<char>, JsonData>,
    patch: JsonData,
    k: Seq<char>,
)
    requires
        member(data, "startupSettings"@) == Some(JsonData::Object(saved)),
        !(patch matches JsonData::Object(p) && p.contains_key(k)),
    ensures
        patched_startup(data, patch).contains_key(k) <==> saved.contains_key(k),
        saved.contains_key(k) ==> patched_startup(data, patch)[k] == saved[k],
{
}

/// Without startup settings saved as an object, a startup patch starts from
/// the defaults: every member that the patch does not set is the default.
pub proof fn law_startup_patch_starts_from_defaults(
    data: Map<Seq<char>, JsonData>,
    patch: JsonData,
    k: Seq<char>,
)
    requires
        !(member(data, "startupSettings"@) matches Some(JsonData::Object(_))),
        !(patch matches JsonData::Object(p) && p.contains_key(k)),
    ensures
        patched_startup(data, patch).contains_key(k) <==> default_startup_settings().contains_key(k),
        default_startup_settings().contains_key(k) ==> patched_startup(data, patch)[k]
            == default_startup_settings()[k],
{
}

/// The profile that the configuration and camera pages load is the first
/// saved profile whose id is `activeProfileId`; when no profile has that id
/// it is the first saved profile, and there is none only when no profile is
/// saved.
pub proof fn law_active_profile_falls_back_to_first(data: Map<Seq<char>, JsonData>, i: int)
    ensures
        ({
            let list = profiles_of(data);
            let id = member_text(data, "activeProfileId"@);
            &&& (0 <= i < list.len() && profile_id(list[i]) == id && (forall|j: int|
                0 <= j < i ==> profile_id(#[trigger] list[j]) != id)) ==> active_profile_of(data)
                == Some(list[i])
            &&& (forall|j: int| 0 <= j < list.len() ==> profile_id(#[trigger] list[j]) != id)
                ==> active_profile_of(data) == (if list.len() > 0 {
                Some(list[0])
            } else {
                None
            })
        }),
{
    let list = profiles_of(data);
    let id = member_text(data, "activeProfileId"@);
    if 0 <= i < list.len() && profile_id(list[i]) == id && (forall|j: int|
        0 <= j < i ==> profile_id(#[trigger] list[j]) != id) {
        lemma_first_unique(list, id, i);
    }
    if forall|j: int| 0 <= j < list.len() ==> profile_id(#[trigger] list[j]) != id {
        lemma_first_none(list, id);
    }
}

/// The page that opens at startup: the url of the first profile whose id is
/// the startup settings' `profileId`; when no profile is named that way, the
/// url of the only profile if exactly one is saved, and none otherwise.
pub proof fn law_startup_url_choice(data: Map<Seq<char>, JsonData>, i: int)
    ensures
        ({
            let list = profiles_of(data);
            let named = member_text(startup_settings_of(data), "profileId"@);
            &&& (named is Some && 0 <= i < list.len() && profile_id(list[i]) == named && (forall|
                j: int,
            | 0 <= j < i ==> profile_id(#[trigger] list[j]) != named)) ==> selected_profile_url_of(
                data,
            ) == field_text(list[i], "url"@)
            &&& (named is None || (forall|j: int|
                0 <= j < list.len() ==> profile_id(#[trigger] list[j]) != named)) ==> selected_profile_url_of(
                data,
            ) == (if list.len() == 1 {
                field_text(list[0], "url"@)
            } else {
                None
            })
        }),
{
    let list = profiles_of(data);
    let named = member_text(startup_settings_of(data), "profileId"@);
    if named is Some && 0 <= i < list.len() && profile_id(list[i]) == named && (forall|j: int|
        0 <= j < i ==> profile_id(#[trigger] list[j]) != named) {
        lemma_first_unique(list, named, i);
    }
    if named is Some && (forall|j: int| 0 <= j < list.len() ==> profile_id(#[trigger] list[j]) != named) {
        lemma_first_none(list, named);
    }
}

/// A camera console page may call exactly these commands: loading the
/// configuration and the startup settings, the log and the heartbeat,
/// toggling fullscreen, switching to the next profile, opening the
/// configuration and restarting.
pub proof fn law_camera_page_commands(a: NativeAction)
    ensures
        camera_page_may_call(action_name(a)) <==> (a is ConfigLoad || a is StartupSettingsGet
            || a is ViewerLog || a is Heartbeat || a is ToggleFullscreen || a is SwitchNextProfile
            || a is OpenConfig || a is Restart),
{
    reveal_strlit("configLoad");
    reveal_strlit("profilesLoad");
    reveal_strlit("activeProfileGet");
    reveal_strlit("startupProfileGet");
    reveal_strlit("startupSettingsGet");
    reveal_strlit("displaysGet");
    reveal_strlit("connectionTest");
    reveal_strlit("diagnosticsGet");
    reveal_strlit("supportBundleCreate");
    reveal_strlit("profilesSave");
    reveal_strlit("activeProfileSet");
    reveal_strlit("startupProfileSet");
    reveal_strlit("startupSettingsSet");
    reveal_strlit("configSave");
    reveal_strlit("reset");
    reveal_strlit("restart");
    reveal_strlit("openConfig");
    reveal_strlit("switchNextProfile");
    reveal_strlit("launchProfile");
    reveal_strlit("toggleFullscreen");
    reveal_strlit("openDevTools");
    reveal_strlit("openExternal");
    reveal_strlit("openLogFile");
    reveal_strlit("upv:log");
    reveal_strlit("upv:heartbeat");
    match a {
        NativeAction::ProfilesLoad => {
            assert("profilesLoad"@.len() != "configLoad"@.len());
            assert("profilesLoad"@.len() != "startupSettingsGet"@.len());
            assert("profilesLoad"@.len() != "upv:log"@.len());
            assert("profilesLoad"@.len() != "upv:heartbeat"@.len());
            assert("profilesLoad"@.len() != "toggleFullscreen"@.len());
            assert("profilesLoad"@.len() != "switchNextProfile"@.len());
            assert("profilesLoad"@.len() != "openConfig"@.len());
            assert("profilesLoad"@.len() != "restart"@.len());
            assert(!camera_page_may_call(action_name(a)));
        },
        NativeAction::ActiveProfileGet => {
            assert("activeProfileGet"@.len() != "configLoad"@.len());
            assert("activeProfileGet"@.len() != "startupSettingsGet"@.len());
            assert("activeProfileGet"@.len() != "upv:log"@.len());
            assert("activeProfileGet"@.len() != "upv:heartbeat"@.len());
            assert("activeProfileGet"@[0] != "toggleFullscreen"@[0]);
            assert("activeProfileGet"@.len() != "switchNextProfile"@.len());
            assert("activeProfileGet"@.len() != "openConfig"@.len());
            assert("activeProfileGet"@.len() != "restart"@.len());
            assert(!camera_page_may_call(action_name(a)));
        },
        NativeAction::StartupProfileGet => {
            assert("startupProfileGet"@.len() != "configLoad"@.len());
            assert("startupProfileGet"@.len() != "startupSettingsGet"@.len());
            assert("startupProfileGet"@.len() != "upv:log"@.len());
            assert("startupProfileGet"@.len() != "upv:heartbeat"@.len());
            assert("startupProfileGet"@.len() != "toggleFullscreen"@.len());
            assert("startupProfileGet"@[1] != "switchNextProfile"@[1]);
            assert("startupProfileGet"@.len() != "openConfig"@.len());
            assert("startupProfileGet"@.len() != "restart"@.len());
            assert(!camera_page_may_call(action_name(a)));
        },
        NativeAction::DisplaysGet => {
            assert("displaysGet"@.len() != "configLoad"@.len());
            assert("displaysGet"@.len() != "startupSettingsGet"@.len());
            assert("displaysGet"@.len() != "upv:log"@.len());
            assert("displaysGet"@.len() != "upv:heartbeat"@.len());
            assert("displaysGet"@.len() != "toggleFullscreen"@.len());
            assert("displaysGet"@.len() != "switchNextProfile"@.len());
            assert("displaysGet"@.len() != "openConfig"@.len());
            assert("displaysGet"@.len() != "restart"@.len());
            assert(!camera_page_may_call(action_name(a)));
        },
        NativeAction::ConnectionTest => {
            assert("connectionTest"@.len() != "configLoad"@.len());
            assert("connectionTest"@.len() != "startupSettingsGet"@.len());
            assert("connectionTest"@.len() != "upv:log"@.len());
            assert("connectionTest"@.len() != "upv:heartbeat"@.len());
            assert("connectionTest"@.len() != "toggleFullscreen"@.len());
            assert("connectionTest"@.len() != "switchNextProfile"@.len());
            assert("connectionTest"@.len() != "openConfig"@.len());
            assert("connectionTest"@.len() != "restart"@.len());
            assert(!camera_page_may_call(action_name(a)));
        },
        NativeAction::DiagnosticsGet => {
            assert("diagnosticsGet"@.len() != "configLoad"@.len());
            assert("diagnosticsGet"@.len() != "startupSettingsGet"@.len());
            assert("diagnosticsGet"@.len() != "upv:log"@.len());
            assert("diagnosticsGet"@.len() != "upv:heartbeat"@.len());
            assert("diagnosticsGet"@.len() != "toggleFullscreen"@.len());
            assert("diagnosticsGet"@.len() != "switchNextProfile"@.len());
            assert("diagnosticsGet"@.len() != "openConfig"@.len());
            assert("diagnosticsGet"@.len() != "restart"@.len());
            assert(!camera_page_may_call(action_name(a)));
        },
        NativeAction::SupportBundleCreate => {
            assert("supportBundleCreate"@.len() != "configLoad"@.len());
            assert("supportBundleCreate"@.len() != "startupSettingsGet"@.len());
            assert("supportBundleCreate"@.len() != "upv:log"@.len());
            assert("supportBundleCreate"@.len() != "upv:heartbeat"@.len());
            assert("supportBundleCreate"@.len() != "toggleFullscreen"@.len());
            assert("supportBundleCreate"@.len() != "switchNextProfile"@.len());
            assert("supportBundleCreate"@.len() != "openConfig"@.len());
            assert("supportBundleCreate"@.len() != "restart"@.len());
            assert(!camera_page_may_call(action_name(a)));
        },
        NativeAction::ProfilesSave => {
            assert("profilesSave"@.len() != "configLoad"@.len());
            assert("profilesSave"@.len() != "startupSettingsGet"@.len());
            assert("profilesSave"@.len() != "upv:log"@.len());
            assert("profilesSave"@.len() != "upv:heartbeat"@.len());
            assert("profilesSave"@.len() != "toggleFullscreen"@.len());
            assert("profilesSave"@.len() != "switchNextProfile"@.len());
            assert("profilesSave"@.len() != "openConfig"@.len());
            assert("profilesSave"@.len() != "restart"@.len());
            assert(!camera_page_may_call(action_name(a)));
        },
        NativeAction::ActiveProfileSet => {
            assert("activeProfileSet"@.len() != "configLoad"@.len());
            assert("activeProfileSet"@.len() != "startupSettingsGet"@.len());
            assert("activeProfileSet"@.len() != "upv:log"@.len());
            assert("activeProfileSet"@.len() != "upv:heartbeat"@.len());
            assert("activeProfileSet"@[0] != "toggleFullscreen"@[0]);
            assert("activeProfileSet"@.len() != "switchNextProfile"@.len());
            assert("activeProfileSet"@.len() != "openConfig"@.len());
            assert("activeProfileSet"@.len() != "restart"@.len());
            assert(!camera_page_may_call(action_name(a)));
        },
        NativeAction::StartupProfileSet => {
            assert("startupProfileSet"@.len() != "configLoad"@.len());
            assert("startupProfileSet"@.len() != "startupSettingsGet"@.len());
            assert("startupProfileSet"@.len() != "upv:log"@.len());
            assert("startupProfileSet"@.len() != "upv:heartbeat"@.len());
            assert("startupProfileSet"@.len() != "toggleFullscreen"@.len());
            assert("startupProfileSet"@[1] != "switchNextProfile"@[1]);
            assert("startupProfileSet"@.len() != "openConfig"@.len());
            assert("startupProfileSet"@.len() != "restart"@.len());
            assert(!camera_page_may_call(action_name(a)));
        },
        NativeAction::StartupSettingsSet => {
            assert("startupSettingsSet"@.len() != "configLoad"@.len());
            assert("startupSettingsSet"@[15] != "startupSettingsGet"@[15]);
            assert("startupSettingsSet"@.len() != "upv:log"@.len());
            assert("startupSettingsSet"@.len() != "upv:heartbeat"@.len());
            assert("startupSettingsSet"@.len() != "toggleFullscreen"@.len());
            assert("startupSettingsSet"@.len() != "switchNextProfile"@.len());
            assert("startupSettingsSet"@.len() != "openConfig"@.len());
            assert("startupSettingsSet"@.len() != "restart"@.len());
            assert(!camera_page_may_call(action_name(a)));
        },
        NativeAction::ConfigSave => {
            assert("configSave"@[6] != "configLoad"@[6]);
            assert("configSave"@.len() != "startupSettingsGet"@.len());
            assert("configSave"@.len() != "upv:log"@.len());
            assert("configSave"@.len() != "upv:heartbeat"@.len());
            assert("configSave"@.len() != "toggleFullscreen"@.len());
            assert("configSave"@.len() != "switchNextProfile"@.len());
            assert("configSave"@[0] != "openConfig"@[0]);
            assert("configSave"@.len() != "restart"@.len());
            assert(!camera_page_may_call(action_name(a)));
        },
        NativeAction::Reset => {
            assert("reset"@.len() != "configLoad"@.len());
            assert("reset"@.len() != "startupSettingsGet"@.len());
            assert("reset"@.len() != "upv:log"@.len());
            assert("reset"@.len() != "upv:heartbeat"@.len());
            assert("reset"@.len() != "toggleFullscreen"@.len());
            assert("reset"@.len() != "switchNextProfile"@.len());
            assert("reset"@.len() != "openConfig"@.len());
            assert("reset"@.len() != "restart"@.len());
            assert(!camera_page_may_call(action_name(a)));
        },
        NativeAction::LaunchProfile => {
            assert("launchProfile"@.len() != "configLoad"@.len());
            assert("launchProfile"@.len() != "startupSettingsGet"@.len());
            assert("launchProfile"@.len() != "upv:log"@.len());
            assert("launchProfile"@[0] != "upv:heartbeat"@[0]);
            assert("launchProfile"@.len() != "toggleFullscreen"@.len());
            assert("launchProfile"@.len() != "switchNextProfile"@.len());
            assert("launchProfile"@.len() != "openConfig"@.len());
            assert("launchProfile"@.len() != "restart"@.len());
            assert(!camera_page_may_call(action_name(a)));
        },
        NativeAction::OpenDevTools => {
            assert("openDevTools"@.len() != "configLoad"@.len());
            assert("openDevTools"@.len() != "startupSettingsGet"@.len());
            assert("openDevTools"@.len() != "upv:log"@.len());
            assert("openDevTools"@.len() != "upv:heartbeat"@.len());
            assert("openDevTools"@.len() != "toggleFullscreen"@.len());
            assert("openDevTools"@.len() != "switchNextProfile"@.len());
            assert("openDevTools"@.len() != "openConfig"@.len());
            assert("openDevTools"@.len() != "restart"@.len());
            assert(!camera_page_may_call(action_name(a)));
        },
        NativeAction::OpenExternal => {
            assert("openExternal"@.len() != "configLoad"@.len());
            assert("openExternal"@.len() != "startupSettingsGet"@.len());
            assert("openExternal"@.len() != "upv:log"@.len());
            assert("openExternal"@.len() != "upv:heartbeat"@.len());
            assert("openExternal"@.len() != "toggleFullscreen"@.len());
            assert("openExternal"@.len() != "switchNextProfile"@.len());
            assert("openExternal"@.len() != "openConfig"@.len());
            assert("openExternal"@.len() != "restart"@.len());
            assert(!camera_page_may_call(action_name(a)));
        },
        NativeAction::OpenLogFile => {
            assert("openLogFile"@.len() != "configLoad"@.len());
            assert("openLogFile"@.len() != "startupSettingsGet"@.len());
            assert("openLogFile"@.len() != "upv:log"@.len());
            assert("openLogFile"@.len() != "upv:heartbeat"@.len());
            assert("openLogFile"@.len() != "toggleFullscreen"@.len());
            assert("openLogFile"@.len() != "switchNextProfile"@.len());
            assert("openLogFile"@.len() != "openConfig"@.len());
            assert("openLogFile"@.len() != "restart"@.len());
            assert(!camera_page_may_call(action_name(a)));
        },
        _ => {},
    }
}

/// Every command that a camera console page may call exists, so such a
/// page at a configured origin is answered with the command, never refused.
pub proof fn law_camera_page_commands_exist(name: Seq<char>)
    requires
        camera_page_may_call(name),
    ensures
        exists|a: NativeAction| #[trigger] action_name(a) == name,
{
    if name == "configLoad"@ {
        assert(action_name(NativeAction::ConfigLoad) == name);
    } else if name == "startupSettingsGet"@ {
        assert(action_name(NativeAction::StartupSettingsGet) == name);
    } else if name == "upv:log"@ {
        assert(action_name(NativeAction::ViewerLog) == name);
    } else if name == "upv:heartbeat"@ {
        assert(action_name(NativeAction::Heartbeat) == name);
    } else if name == "toggleFullscreen"@ {
        assert(action_name(NativeAction::ToggleFullscreen) == name);
    } else if name == "switchNextProfile"@ {
        assert(action_name(NativeAction::SwitchNextProfile) == name);
    } else if name == "openConfig"@ {
        assert(action_name(NativeAction::OpenConfig) == name);
    } else {
        assert(action_name(NativeAction::Restart) == name);
    }
}


/// The effective startup settings are the saved ones, member by member, with
/// the defaults for members that are not saved.
pub proof fn law_startup_settings_saved_override_defaults(
    data: Map<Seq<char>, JsonData>,
    saved: Map<Seq<char>, JsonData>,
    k: Seq<char>,
)
    requires
        member(data, "startupSettings"@) == Some(JsonData::Object(saved)),
    ensures
        saved.contains_key(k) ==> startup_settings_of(data).contains_key(k)
            && startup_settings_of(data)[k] == saved[k],
        !saved.contains_key(k) ==> (startup_settings_of(data).contains_key(k)
            <==> default_startup_settings().contains_key(k)),
        !saved.contains_key(k) && default_startup_settings().contains_key(k)
            ==> startup_settings_of(data)[k] == default_startup_settings()[k],
{
}

} // verus!
