//! The viewer's saved state: camera profiles, the active profile and the
//! startup settings, all kept in one JSON object.
//!
//! The object holds `profiles` (an array of profile objects with `id`, `url`,
//! `password` and other members), `activeProfileId` and `startupSettings`.
use vstd::prelude::*;

use crate::json::{
    bool_of, duplicate_values, u64_of, value_data, JsonNumber, field, lemma_seq_data, opt_text, seq_data, text_of, JsonData, JsonMap, JsonValue,
};
use crate::secrets::{
    is_sealed, is_sealed_secret, protect_outcome, protect_secret, read_back_outcome, result_text,
    unprotect_secret,
};
use crate::text::text_eq;
use crate::weburl::{
    is_local_host, is_local_url, origin_matches, origin_matches_url, parse_url, parsed_url, WebUrl,
    WebUrlData,
};

verus! {

/// The member `k` of the stored object, if present.
pub open spec fn member(data: Map<Seq<char>, JsonData>, k: Seq<char>) -> Option<JsonData> {
    if data.contains_key(k) {
        Some(data[k])
    } else {
        None
    }
}

/// The text of member `k` of `data`, if it is present and a string.
pub open spec fn member_text(data: Map<Seq<char>, JsonData>, k: Seq<char>) -> Option<Seq<char>> {
    match member(data, k) {
        Some(v) => text_of(v),
        None => None,
    }
}

/// The text of member `k` of a JSON value, if it is an object with such a string member.
pub open spec fn field_text(d: JsonData, k: Seq<char>) -> Option<Seq<char>> {
    match field(d, k) {
        Some(v) => text_of(v),
        None => None,
    }
}

/// The saved profiles: the `profiles` array, or none when it is missing or not an array.
pub open spec fn profiles_of(data: Map<Seq<char>, JsonData>) -> Seq<JsonData> {
    match member(data, "profiles"@) {
        Some(JsonData::Array(a)) => a,
        _ => Seq::empty(),
    }
}

/// The `id` of a profile, when it is a string.
pub open spec fn profile_id(p: JsonData) -> Option<Seq<char>> {
    field_text(p, "id"@)
}

/// `i` is the first position in `list` whose profile id equals `id`
/// (an absent id equals an absent id).
pub open spec fn is_first_with_id(list: Seq<JsonData>, id: Option<Seq<char>>, i: int) -> bool {
    &&& 0 <= i < list.len()
    &&& profile_id(list[i]) == id
    &&& forall|j: int| 0 <= j < i ==> profile_id(#[trigger] list[j]) != id
}

/// The first position in `list` whose profile id equals `id`.
pub open spec fn first_with_id(list: Seq<JsonData>, id: Option<Seq<char>>) -> Option<int> {
    if exists|i: int| is_first_with_id(list, id, i) {
        Some(choose|i: int| is_first_with_id(list, id, i))
    } else {
        None
    }
}

/// The profile that the viewer shows: the profile whose id is
/// `activeProfileId`, or else the first profile.
pub open spec fn active_profile_of(data: Map<Seq<char>, JsonData>) -> Option<JsonData> {
    let list = profiles_of(data);
    match first_with_id(list, member_text(data, "activeProfileId"@)) {
        Some(i) => Some(list[i]),
        None => if list.len() > 0 {
            Some(list[0])
        } else {
            None
        },
    }
}

/// The mathematical value of an optional owned value.
pub open spec fn opt_value(o: Option<JsonValue>) -> Option<JsonData> {
    match o {
        Some(v) => Some(v@),
        None => None,
    }
}

/// A position that is the first with `id` is what `first_with_id` gives.
pub proof fn lemma_first_unique(list: Seq<JsonData>, id: Option<Seq<char>>, i: int)
    requires
        is_first_with_id(list, id, i),
    ensures
        first_with_id(list, id) == Some(i),
{
    let k = choose|k: int| is_first_with_id(list, id, k);
    if k < i {
        assert(profile_id(list[k]) != id);
    } else if i < k {
        assert(profile_id(list[i]) != id);
    }
}

/// With no profile having `id`, `first_with_id` gives nothing.
pub proof fn lemma_first_none(list: Seq<JsonData>, id: Option<Seq<char>>)
    requires
        forall|j: int| 0 <= j < list.len() ==> profile_id(#[trigger] list[j]) != id,
    ensures
        first_with_id(list, id) is None,
{
    if exists|i: int| is_first_with_id(list, id, i) {
        let k = choose|k: int| is_first_with_id(list, id, k);
        assert(profile_id(list[k]) != id);
    }
}

/// The saved profiles, copied.
pub fn profiles(data: &JsonMap) -> (r: Vec<JsonValue>)
    ensures
        seq_data(r@) == profiles_of(data@),
{
    match data.get("profiles") {
        Some(JsonValue::Array(a)) => duplicate_values(a),
        _ => {
            let r: Vec<JsonValue> = Vec::new();
            assert(seq_data(r@) =~= Seq::empty());
            r
        },
    }
}

/// The `id` of a profile, when it is a string.
pub fn id_of(p: &JsonValue) -> (r: Option<&str>)
    ensures
        opt_text(r) == profile_id(p@),
{
    match p.get("id") {
        Some(v) => v.as_str(),
        None => None,
    }
}

fn same_text(a: Option<&str>, b: Option<&str>) -> (r: bool)
    ensures
        r == (opt_text(a) == opt_text(b)),
{
    match (a, b) {
        (Some(x), Some(y)) => text_eq(x, y),
        (None, None) => true,
        _ => false,
    }
}

/// The first position in `list` whose profile id equals `id`.
pub fn find_profile(list: &Vec<JsonValue>, id: Option<&str>) -> (r: Option<usize>)
    ensures
        match r {
            Some(i) => first_with_id(seq_data(list@), opt_text(id)) == Some(i as int),
            None => first_with_id(seq_data(list@), opt_text(id)) is None,
        },
{
    proof {
        lemma_seq_data(list@);
    }
    let n = list.len();
    let mut i: usize = 0;
    while i < n
        invariant
            n == list@.len(),
            i <= n,
            seq_data(list@).len() == n,
            forall|j: int| 0 <= j < i ==> profile_id(#[trigger] seq_data(list@)[j]) != opt_text(id),
        decreases n - i,
    {
        proof {
            lemma_seq_data(list@);
        }
        if same_text(id_of(&list[i]), id) {
            proof {
                lemma_first_unique(seq_data(list@), opt_text(id), i as int);
            }
            return Some(i);
        }
        i = i + 1;
    }
    proof {
        lemma_first_none(seq_data(list@), opt_text(id));
    }
    None
}

/// The text of member `key` of `data`, when it is a string.
pub fn member_str<'a>(data: &'a JsonMap, key: &str) -> (r: Option<&'a str>)
    ensures
        opt_text(r) == member_text(data@, key@),
{
    match data.get(key) {
        Some(v) => v.as_str(),
        None => None,
    }
}

/// The profile that the viewer shows: the one whose id is `activeProfileId`,
/// or else the first saved profile.
pub fn active_profile(data: &JsonMap) -> (r: Option<JsonValue>)
    ensures
        opt_value(r) == active_profile_of(data@),
{
    let list = profiles(data);
    proof {
        lemma_seq_data(list@);
    }
    let id = member_str(data, "activeProfileId");
    match find_profile(&list, id) {
        Some(i) => Some(list[i].duplicate()),
        None => {
            if list.len() > 0 {
                Some(list[0].duplicate())
            } else {
                None
            }
        },
    }
}

/// The startup settings that apply before any are saved.
pub open spec fn default_startup_settings() -> Map<Seq<char>, JsonData> {
    Map::empty().insert("profileId"@, JsonData::Null).insert(
        "fullscreen"@,
        JsonData::Bool(true),
    ).insert("displayIndex"@, JsonData::Number(JsonNumber::PosInt(0))).insert(
        "startWithWindows"@,
        JsonData::Bool(true),
    ).insert("autoReconnect"@, JsonData::Bool(true))
}

/// The effective startup settings: the defaults, overridden member by member
/// by the saved `startupSettings` object.
pub open spec fn startup_settings_of(data: Map<Seq<char>, JsonData>) -> Map<Seq<char>, JsonData> {
    match member(data, "startupSettings"@) {
        Some(JsonData::Object(saved)) => default_startup_settings().union_prefer_right(saved),
        _ => default_startup_settings(),
    }
}

fn key(s: &str) -> (r: String)
    ensures
        r@ == s@,
{
    s.to_owned()
}

/// The default startup settings as an object.
pub fn default_startup_map() -> (r: JsonMap)
    ensures
        r@ == default_startup_settings(),
{
    let mut m = JsonMap::new();
    m.insert(key("profileId"), JsonValue::Null);
    m.insert(key("fullscreen"), JsonValue::Bool(true));
    m.insert(key("displayIndex"), JsonValue::Number(JsonNumber::PosInt(0)));
    m.insert(key("startWithWindows"), JsonValue::Bool(true));
    m.insert(key("autoReconnect"), JsonValue::Bool(true));
    m
}

/// The effective startup settings: the defaults, overridden member by member
/// by the saved `startupSettings` object.
pub fn startup_settings(data: &JsonMap) -> (r: JsonValue)
    ensures
        r@ == JsonData::Object(startup_settings_of(data@)),
{
    let mut defaults = default_startup_map();
    match data.get("startupSettings") {
        Some(JsonValue::Object(saved)) => defaults.extend_from(saved),
        _ => {},
    }
    JsonValue::Object(defaults)
}

/// The `url` of the profile that opens at startup: the profile named by the
/// startup settings' `profileId`, or else the only profile when exactly one
/// is saved.
pub open spec fn selected_profile_url_of(data: Map<Seq<char>, JsonData>) -> Option<Seq<char>> {
    let list = profiles_of(data);
    let chosen = match member_text(startup_settings_of(data), "profileId"@) {
        Some(id) => match first_with_id(list, Some(id)) {
            Some(i) => Some(list[i]),
            None => None,
        },
        None => None,
    };
    let picked = match chosen {
        Some(p) => Some(p),
        None => if list.len() == 1 {
            Some(list[0])
        } else {
            None
        },
    };
    match picked {
        Some(p) => field_text(p, "url"@),
        None => None,
    }
}

fn url_text(p: &JsonValue) -> (r: Option<String>)
    ensures
        match r {
            Some(u) => field_text(p@, "url"@) == Some(u@),
            None => field_text(p@, "url"@) is None,
        },
{
    match p.get("url") {
        Some(v) => match v.as_str() {
            Some(u) => Some(u.to_owned()),
            None => None,
        },
        None => None,
    }
}

/// The `url` of the profile that opens at startup.
pub fn selected_profile_url(data: &JsonMap) -> (r: Option<String>)
    ensures
        match r {
            Some(u) => selected_profile_url_of(data@) == Some(u@),
            None => selected_profile_url_of(data@) is None,
        },
{
    let list = profiles(data);
    proof {
        lemma_seq_data(list@);
    }
    let settings = startup_settings(data);
    let configured = match settings.get("profileId") {
        Some(v) => v.as_str(),
        None => None,
    };
    let mut chosen: Option<usize> = None;
    match configured {
        Some(id) => {
            chosen = find_profile(&list, Some(id));
        },
        None => {},
    }
    match chosen {
        Some(i) => url_text(&list[i]),
        None => {
            if list.len() == 1 {
                url_text(&list[0])
            } else {
                None
            }
        },
    }
}

/// Whether the viewer registers itself to start with Windows: the startup
/// settings' `startWithWindows`, true unless it is saved as `false`
/// (or as something that is not a boolean, which counts as true).
pub open spec fn autostart_enabled_of(data: Map<Seq<char>, JsonData>) -> bool {
    match member(startup_settings_of(data), "startWithWindows"@) {
        Some(v) => match bool_of(v) {
            Some(b) => b,
            None => true,
        },
        None => true,
    }
}

/// Whether the viewer registers itself to start with Windows.
pub fn autostart_enabled(data: &JsonMap) -> (r: bool)
    ensures
        r == autostart_enabled_of(data@),
{
    let settings = startup_settings(data);
    match settings.get("startWithWindows") {
        Some(v) => match v.as_bool() {
            Some(b) => b,
            None => true,
        },
        None => true,
    }
}

/// The profiles after the configuration `config` is saved: the active profile
/// (the first whose id is `activeProfileId`) gets every member of `config`
/// when both are objects; every other profile stays as it was.
pub open spec fn saved_profiles(data: Map<Seq<char>, JsonData>, config: JsonData) -> Seq<JsonData> {
    let list = profiles_of(data);
    match first_with_id(list, member_text(data, "activeProfileId"@)) {
        Some(i) => match (list[i], config) {
            (JsonData::Object(p), JsonData::Object(c)) => list.update(
                i,
                JsonData::Object(p.union_prefer_right(c)),
            ),
            _ => list,
        },
        None => list,
    }
}

/// Saves the configuration form into the active profile.  The `profiles`
/// member is written back in every case, as an array (an empty one when it
/// was missing or not an array).
pub fn save_config(data: &mut JsonMap, config: &JsonValue)
    ensures
        final(data)@ == old(data)@.insert(
            "profiles"@,
            JsonData::Array(saved_profiles(old(data)@, config@)),
        ),
{
    let mut list = profiles(data);
    proof {
        lemma_seq_data(list@);
    }
    let ghost before = list@;
    let id = member_str(data, "activeProfileId");
    let found = find_profile(&list, id);
    match found {
        Some(i) => {
            let item = list.remove(i);
            let updated = match item {
                JsonValue::Object(mut m) => {
                    match config {
                        JsonValue::Object(c) => m.extend_from(c),
                        _ => {},
                    }
                    JsonValue::Object(m)
                },
                other => other,
            };
            let ghost new_data = updated@;
            list.insert(i, updated);
            proof {
                lemma_seq_data(list@);
                lemma_seq_data(before);
                assert(seq_data(list@) =~= seq_data(before).update(i as int, new_data));
                assert(new_data == match (seq_data(before)[i as int], config@) {
                    (JsonData::Object(p), JsonData::Object(c)) => JsonData::Object(
                        p.union_prefer_right(c),
                    ),
                    _ => seq_data(before)[i as int],
                });
                if !(seq_data(before)[i as int] is Object && config@ is Object) {
                    assert(seq_data(list@) =~= seq_data(before));
                }
            }
        },
        None => {},
    }
    data.insert(key("profiles"), JsonValue::Array(list));
}

/// The startup settings object that a patch is applied to: the saved one, or
/// the defaults when none is saved as an object.
pub open spec fn startup_base(data: Map<Seq<char>, JsonData>) -> Map<Seq<char>, JsonData> {
    match member(data, "startupSettings"@) {
        Some(JsonData::Object(saved)) => saved,
        _ => default_startup_settings(),
    }
}

/// The startup settings after `patch` is applied: each member of the patch
/// object overrides the base settings; a patch that is not an object changes nothing.
pub open spec fn patched_startup(data: Map<Seq<char>, JsonData>, patch: JsonData) -> Map<
    Seq<char>,
    JsonData,
> {
    match patch {
        JsonData::Object(p) => startup_base(data).union_prefer_right(p),
        _ => startup_base(data),
    }
}

/// Applies a patch to the saved startup settings.
pub fn update_startup(data: &mut JsonMap, patch: &JsonValue)
    ensures
        final(data)@ == old(data)@.insert(
            "startupSettings"@,
            JsonData::Object(patched_startup(old(data)@, patch@)),
        ),
{
    let mut settings = match data.get("startupSettings") {
        Some(JsonValue::Object(saved)) => saved.duplicate(),
        _ => default_startup_map(),
    };
    match patch {
        JsonValue::Object(p) => settings.extend_from(p),
        _ => {},
    }
    data.insert(key("startupSettings"), JsonValue::Object(settings));
}

/// Sets the profile that opens at startup: a patch of the startup settings
/// that sets `profileId` to `id`.
pub fn set_startup_profile(data: &mut JsonMap, id: JsonValue)
    ensures
        final(data)@ == old(data)@.insert(
            "startupSettings"@,
            JsonData::Object(startup_base(old(data)@).insert("profileId"@, id@)),
        ),
{
    let ghost idv = id@;
    let mut patch = JsonMap::new();
    patch.insert(key("profileId"), id);
    assert(patch@ == Map::<Seq<char>, JsonData>::empty().insert("profileId"@, idv));
    let pv = JsonValue::Object(patch);
    update_startup(data, &pv);
    assert(startup_base(old(data)@).union_prefer_right(
        Map::<Seq<char>, JsonData>::empty().insert("profileId"@, idv),
    ) =~= startup_base(old(data)@).insert("profileId"@, idv));
}

/// The `password` of a profile, when it is a string.
pub open spec fn password_of(p: JsonData) -> Option<Seq<char>> {
    field_text(p, "password"@)
}

/// The profile with its `password` member set to `pw`.
pub open spec fn with_password(p: JsonData, pw: Seq<char>) -> JsonData {
    match p {
        JsonData::Object(m) => JsonData::Object(m.insert("password"@, JsonData::Str(pw))),
        _ => p,
    }
}

/// `after` is `before` with its password replaced by a text that `f` can
/// return for it; a profile without a string password stays as it was.
pub open spec fn password_transformed<F: Fn(&str) -> Result<String, String>>(
    f: F,
    before: JsonData,
    after: JsonData,
) -> bool {
    match password_of(before) {
        Some(pw) => exists|s: &str, out: String|
            #![trigger call_ensures(f, (s,), Ok::<String, String>(out))]
            s@ == pw && call_ensures(f, (s,), Ok::<String, String>(out)) && after
                == with_password(before, out@),
        None => after == before,
    }
}

/// `f` can fail with the error `e` on the password of `before`.
pub open spec fn password_failed<F: Fn(&str) -> Result<String, String>>(
    f: F,
    before: JsonData,
    e: Seq<char>,
) -> bool {
    match password_of(before) {
        Some(pw) => exists|s: &str, err: String|
            #![trigger call_ensures(f, (s,), Err::<String, String>(err))]
            s@ == pw && call_ensures(f, (s,), Err::<String, String>(err)) && err@ == e,
        None => false,
    }
}

/// The profile with its password set to `pw`.
fn set_password(p: &JsonValue, pw: String) -> (r: JsonValue)
    ensures
        r@ == with_password(p@, pw@),
{
    match p {
        JsonValue::Object(m) => {
            let mut m2 = m.duplicate();
            m2.insert(key("password"), JsonValue::String(pw));
            JsonValue::Object(m2)
        },
        _ => p.duplicate(),
    }
}

/// The password of a profile, when it is a string.
fn password_text(p: &JsonValue) -> (r: Option<&str>)
    ensures
        opt_text(r) == password_of(p@),
{
    match p.get("password") {
        Some(v) => v.as_str(),
        None => None,
    }
}

/// Applies `transform` to the password of every saved profile, in order.
/// When `profiles` is not an array nothing changes.  The first failure stops
/// the work and is returned: the profiles before it are already transformed,
/// it and the ones after it are unchanged.
pub fn transform_profile_passwords<F: Fn(&str) -> Result<String, String>>(
    data: &mut JsonMap,
    transform: F,
) -> (r: Result<(), String>)
    requires
        forall|s: &str| call_requires(transform, (s,)),
    ensures
        !(member(old(data)@, "profiles"@) matches Some(JsonData::Array(_))) ==> final(data)@
            == old(data)@ && r is Ok,
        member(old(data)@, "profiles"@) matches Some(JsonData::Array(before)) ==> {
            let after = profiles_of(final(data)@);
            &&& final(data)@ == old(data)@.insert("profiles"@, JsonData::Array(after))
            &&& after.len() == before.len()
            &&& match r {
                Ok(_) => forall|i: int|
                    0 <= i < before.len() ==> password_transformed(
                        transform,
                        #[trigger] before[i],
                        after[i],
                    ),
                Err(e) => exists|k: int|
                    0 <= k < before.len() && password_failed(transform, #[trigger] before[k], e@)
                        && (forall|i: int|
                        0 <= i < k ==> password_transformed(transform, #[trigger] before[i], after[i]))
                        && (forall|i: int| k <= i < before.len() ==> #[trigger] after[i] == before[i]),
            }
        },
{
    let list = match data.get("profiles") {
        Some(JsonValue::Array(a)) => {
            let l = duplicate_values(a);
            assert(member(data@, "profiles"@) == Some(JsonData::Array(seq_data(l@))));
            l
        },
        _ => return Ok(()),
    };
    let ghost before = seq_data(list@);
    proof {
        lemma_seq_data(list@);
    }
    let n = list.len();
    let mut out: Vec<JsonValue> = Vec::new();
    let mut i: usize = 0;
    while i < n
        invariant
            n == list@.len(),
            before == seq_data(list@),
            before.len() == n,
            *data == *old(data),
            member(old(data)@, "profiles"@) == Some(JsonData::Array(before)),
            forall|j: int| 0 <= j < n ==> before[j] == #[trigger] value_data(list@[j]),
            forall|s: &str| call_requires(transform, (s,)),
            i <= n,
            out@.len() == i,
            forall|j: int|
                0 <= j < i ==> password_transformed(transform, before[j], #[trigger] value_data(out@[j])),
        decreases n - i,
    {
        let p = &list[i];
        match password_text(p) {
            Some(raw) => {
                let res = transform(raw);
                match res {
                    Ok(new) => {
                        let updated = set_password(p, new);
                        assert(password_transformed(transform, before[i as int], updated@));
                        out.push(updated);
                    },
                    Err(e) => {
                        let ghost k = i as int;
                        let ghost ev = e@;
                        assert(password_failed(transform, before[k], ev));
                        let mut j = i;
                        while j < n
                            invariant
                                n == list@.len(),
                                before == seq_data(list@),
                                before.len() == n,
                                *data == *old(data),
                                member(old(data)@, "profiles"@) == Some(JsonData::Array(before)),
                                forall|m: int| 0 <= m < n ==> before[m] == #[trigger] value_data(list@[m]),
                                0 <= k <= j <= n,
                                out@.len() == j,
                                forall|m: int|
                                    0 <= m < k ==> password_transformed(transform, before[m], #[trigger] value_data(out@[m])),
                                forall|m: int| k <= m < j ==> #[trigger] value_data(out@[m]) == before[m],
                            decreases n - j,
                        {
                            let copy = list[j].duplicate();
                            assert(value_data(copy) == before[j as int]);
                            let ghost prev = out@;
                            let ghost cg = copy;
                            out.push(copy);
                            assert(out@ == prev.push(cg));
                            assert forall|m: int| k <= m < j + 1 implies #[trigger] value_data(out@[m]) == before[m] by {
                                if m < j {
                                    assert(out@[m] == prev[m]);
                                }
                            }
                            assert forall|m: int| 0 <= m < k implies password_transformed(transform, before[m], #[trigger] value_data(out@[m])) by {
                                assert(prev.push(cg)[m] == prev[m]);
                            }
                            j = j + 1;
                        }
                        let ghost after = seq_data(out@);
                        proof {
                            lemma_seq_data(out@);
                        }
                        data.insert(key("profiles"), JsonValue::Array(out));
                        assert(profiles_of(data@) == after);
                        return Err(e);
                    },
                }
            },
            None => {
                let copy = p.duplicate();
                assert(password_transformed(transform, before[i as int], copy@));
                out.push(copy);
            },
        }
        i = i + 1;
    }
    let ghost after = seq_data(out@);
    proof {
        lemma_seq_data(out@);
    }
    data.insert(key("profiles"), JsonValue::Array(out));
    assert(profiles_of(data@) == after);
    Ok(())
}

/// The texts of a list of strings.
pub open spec fn texts(v: Seq<String>) -> Seq<Seq<char>> {
    v.map_values(|s: String| s@)
}

/// `out` is what the store writes for the password `pw`: a text listed in
/// `kept` (a sealed password that was not read back when the state was
/// loaded) is written as it is; any other is protected with `f`.
pub open spec fn stored_outcome<F: Fn(&[u8]) -> Result<Vec<u8>, String>>(
    f: F,
    kept: Seq<Seq<char>>,
    pw: Seq<char>,
    out: Result<Seq<char>, Seq<char>>,
) -> bool {
    if kept.contains(pw) {
        out == Ok::<Seq<char>, Seq<char>>(pw)
    } else {
        protect_outcome(f, pw, out)
    }
}

/// `after` is `before` with its password made ready for the disk by `f`, the
/// texts in `kept` staying as they are; a profile without a string password
/// stays as it was.
pub open spec fn profile_protected<F: Fn(&[u8]) -> Result<Vec<u8>, String>>(
    f: F,
    kept: Seq<Seq<char>>,
    before: JsonData,
    after: JsonData,
) -> bool {
    match password_of(before) {
        Some(pw) => exists|out: Seq<char>|
            #![trigger stored_outcome(f, kept, pw, Ok::<Seq<char>, Seq<char>>(out))]
            stored_outcome(f, kept, pw, Ok::<Seq<char>, Seq<char>>(out)) && after == with_password(
                before,
                out,
            ),
        None => after == before,
    }
}

/// Protecting the password of `before` with `f` can fail with `e`.
pub open spec fn profile_protect_failed<F: Fn(&[u8]) -> Result<Vec<u8>, String>>(
    f: F,
    kept: Seq<Seq<char>>,
    before: JsonData,
    e: Seq<char>,
) -> bool {
    match password_of(before) {
        Some(pw) => stored_outcome(f, kept, pw, Err::<Seq<char>, Seq<char>>(e)),
        None => false,
    }
}

/// `after` is `before` with its password read back by `f`; a profile without
/// a string password stays as it was.
pub open spec fn profile_unprotected<F: Fn(&[u8]) -> Result<Vec<u8>, String>>(
    f: F,
    before: JsonData,
    after: JsonData,
) -> bool {
    match password_of(before) {
        Some(pw) => exists|out: Seq<char>|
            #![trigger read_back_outcome(f, pw, Ok::<Seq<char>, Seq<char>>(out))]
            read_back_outcome(f, pw, Ok::<Seq<char>, Seq<char>>(out)) && after == with_password(
                before,
                out,
            ),
        None => after == before,
    }
}

/// Reading back the password of `before` with `f` can fail with `e`.
pub open spec fn profile_unprotect_failed<F: Fn(&[u8]) -> Result<Vec<u8>, String>>(
    f: F,
    before: JsonData,
    e: Seq<char>,
) -> bool {
    match password_of(before) {
        Some(pw) => read_back_outcome(f, pw, Err::<Seq<char>, Seq<char>>(e)),
        None => false,
    }
}

/// The sealed string passwords of the profiles, in order.
pub open spec fn sealed_passwords(list: Seq<JsonData>) -> Seq<Seq<char>>
    decreases list.len(),
{
    if list.len() == 0 {
        Seq::empty()
    } else {
        let rest = sealed_passwords(list.drop_last());
        match password_of(list.last()) {
            Some(pw) => if is_sealed(pw) {
                rest.push(pw)
            } else {
                rest
            },
            None => rest,
        }
    }
}

/// Every text that `sealed_passwords` lists is sealed.
proof fn lemma_sealed_passwords_sealed(list: Seq<JsonData>)
    ensures
        forall|i: int|
            0 <= i < sealed_passwords(list).len() ==> is_sealed(#[trigger] sealed_passwords(list)[i]),
    decreases list.len(),
{
    if list.len() > 0 {
        lemma_sealed_passwords_sealed(list.drop_last());
        let rest = sealed_passwords(list.drop_last());
        assert forall|i: int|
            0 <= i < sealed_passwords(list).len() implies is_sealed(#[trigger] sealed_passwords(list)[i]) by {
            if i < rest.len() {
                assert(sealed_passwords(list)[i] == rest[i]);
            }
        }
    }
}

/// `after` is `before` read back by `f` up to some profile `k`: every
/// profile before `k` has its password read back, the password of `k` (if
/// there is one) cannot be read back, `k` and the profiles after it stay as
/// they were, and `unread` lists the sealed passwords from `k` on.
pub open spec fn read_back_profiles<F: Fn(&[u8]) -> Result<Vec<u8>, String>>(
    f: F,
    before: Seq<JsonData>,
    after: Seq<JsonData>,
    unread: Seq<Seq<char>>,
) -> bool {
    exists|k: int|
        #![trigger before.subrange(k, before.len() as int)]
        0 <= k <= before.len() && (forall|i: int|
            0 <= i < k ==> profile_unprotected(f, #[trigger] before[i], after[i])) && (k
            < before.len() ==> exists|e: Seq<char>| profile_unprotect_failed(f, before[k], e))
            && (forall|i: int| k <= i < before.len() ==> #[trigger] after[i] == before[i])
            && unread == sealed_passwords(before.subrange(k, before.len() as int))
}

/// Whether `s` is one of the texts of `list`.
fn text_listed(list: &Vec<String>, s: &str) -> (r: bool)
    ensures
        r == texts(list@).contains(s@),
{
    let n = list.len();
    let mut i: usize = 0;
    while i < n
        invariant
            n == list@.len(),
            i <= n,
            forall|j: int| 0 <= j < i ==> (#[trigger] list@[j])@ != s@,
        decreases n - i,
    {
        if text_eq(list[i].as_str(), s) {
            assert(texts(list@)[i as int] == s@);
            return true;
        }
        i = i + 1;
    }
    proof {
        if texts(list@).contains(s@) {
            let j = choose|j: int| 0 <= j < texts(list@).len() && texts(list@)[j] == s@;
            assert(list@[j]@ == s@);
        }
    }
    false
}

/// The sealed string passwords of the profiles `list[from..]`, in order.
fn sealed_passwords_from(list: &Vec<JsonValue>, from: usize) -> (r: Vec<String>)
    requires
        from <= list@.len(),
    ensures
        texts(r@) == sealed_passwords(seq_data(list@).subrange(from as int, list@.len() as int)),
{
    let ghost all = seq_data(list@);
    proof {
        lemma_seq_data(list@);
    }
    let n = list.len();
    let mut r: Vec<String> = Vec::new();
    let mut j: usize = from;
    assert(all.subrange(from as int, from as int) =~= Seq::<JsonData>::empty());
    while j < n
        invariant
            n == list@.len(),
            from <= j <= n,
            all == seq_data(list@),
            all.len() == n,
            forall|m: int| 0 <= m < n ==> all[m] == #[trigger] value_data(list@[m]),
            texts(r@) == sealed_passwords(all.subrange(from as int, j as int)),
        decreases n - j,
    {
        let ghost prev = r@;
        let ghost next = all.subrange(from as int, j + 1);
        assert(next.drop_last() =~= all.subrange(from as int, j as int));
        assert(next.last() == all[j as int]);
        assert(all[j as int] == value_data(list@[j as int]));
        match password_text(&list[j]) {
            Some(raw) => {
                if is_sealed_secret(raw) {
                    r.push(raw.to_owned());
                    assert(texts(r@) =~= texts(prev).push(raw@));
                } else {
                    assert(texts(r@) =~= texts(prev));
                }
            },
            None => {
                assert(texts(r@) =~= texts(prev));
            },
        }
        j = j + 1;
    }
    assert(all.subrange(from as int, n as int) == all.subrange(from as int, list@.len() as int));
    r
}

/// Makes the password of every saved profile ready for the disk with the
/// byte protector `protect_bytes`, in order: a password listed in `kept`
/// (one that was sealed on disk and could not be read back when the state
/// was loaded) is written as it is; every other non-empty password is
/// protected and sealed, whatever it looks like.  The first failure stops
/// the work and is returned, the profiles before it already done, it and
/// the ones after it unchanged.  Nothing changes when `profiles` is not an
/// array.
pub fn encrypt_profile_passwords<F: Fn(&[u8]) -> Result<Vec<u8>, String>>(
    data: &mut JsonMap,
    protect_bytes: &F,
    kept: &Vec<String>,
) -> (r: Result<(), String>)
    requires
        forall|b: &[u8]| call_requires(*protect_bytes, (b,)),
    ensures
        !(member(old(data)@, "profiles"@) matches Some(JsonData::Array(_))) ==> final(data)@
            == old(data)@ && r is Ok,
        member(old(data)@, "profiles"@) matches Some(JsonData::Array(before)) ==> {
            let after = profiles_of(final(data)@);
            &&& final(data)@ == old(data)@.insert("profiles"@, JsonData::Array(after))
            &&& after.len() == before.len()
            &&& match r {
                Ok(_) => forall|i: int|
                    0 <= i < before.len() ==> profile_protected(
                        *protect_bytes,
                        texts(kept@),
                        #[trigger] before[i],
                        after[i],
                    ),
                Err(e) => exists|k: int|
                    0 <= k < before.len() && profile_protect_failed(
                        *protect_bytes,
                        texts(kept@),
                        #[trigger] before[k],
                        e@,
                    ) && (forall|i: int|
                        0 <= i < k ==> profile_protected(
                            *protect_bytes,
                            texts(kept@),
                            #[trigger] before[i],
                            after[i],
                        )) && (forall|i: int| k <= i < before.len() ==> #[trigger] after[i] == before[i]),
            }
        },
{
    let t = |s: &str| -> (out: Result<String, String>)
        requires
            forall|b: &[u8]| call_requires(*protect_bytes, (b,)),
        ensures
            stored_outcome(*protect_bytes, texts(kept@), s@, result_text(out)),
        {
            if text_listed(kept, s) {
                Ok(s.to_owned())
            } else {
                protect_secret(s, protect_bytes)
            }
        };
    let ghost tg = t;
    let ghost kt = texts(kept@);
    let r = transform_profile_passwords(data, t);
    proof {
        match member(old(data)@, "profiles"@) {
            Some(JsonData::Array(before)) => {
                let after = profiles_of(data@);
                assert forall|i: int|
                    0 <= i < before.len() && password_transformed(tg, before[i], after[i])
                    implies profile_protected(*protect_bytes, kt, #[trigger] before[i], after[i]) by {
                    if let Some(pw) = password_of(before[i]) {
                        let (s, out) = choose|s: &str, out: String|
                            s@ == pw && call_ensures(tg, (s,), Ok::<String, String>(out))
                                && after[i] == with_password(before[i], out@);
                        assert(stored_outcome(*protect_bytes, kt, pw, Ok::<Seq<char>, Seq<char>>(out@)));
                    }
                }
                if r is Err {
                    let e = r->Err_0;
                    let k = choose|k: int|
                        0 <= k < before.len() && password_failed(tg, #[trigger] before[k], e@)
                            && (forall|i: int|
                            0 <= i < k ==> password_transformed(tg, #[trigger] before[i], after[i]))
                            && (forall|i: int| k <= i < before.len() ==> #[trigger] after[i] == before[i]);
                    let pw = password_of(before[k])->0;
                    let (s, err) = choose|s: &str, err: String|
                        s@ == pw && call_ensures(tg, (s,), Err::<String, String>(err)) && err@ == e@;
                    assert(profile_protect_failed(*protect_bytes, kt, before[k], e@));
                }
            },
            _ => {},
        }
    }
    r
}

/// Reads back the password of every saved profile with the byte unprotector
/// `unprotect_bytes` after the state is loaded, in order, up to the first
/// password that cannot be read back; that one and the ones after it stay as
/// they were.  Returns the sealed passwords that were not read back (the
/// failing one and the sealed ones after it), which are to be written back
/// as they are.  Nothing changes when `profiles` is not an array.
pub fn decrypt_profile_passwords<F: Fn(&[u8]) -> Result<Vec<u8>, String>>(
    data: &mut JsonMap,
    unprotect_bytes: &F,
) -> (unread: Vec<String>)
    requires
        forall|b: &[u8]| call_requires(*unprotect_bytes, (b,)),
    ensures
        !(member(old(data)@, "profiles"@) matches Some(JsonData::Array(_))) ==> final(data)@
            == old(data)@ && unread@.len() == 0,
        member(old(data)@, "profiles"@) matches Some(JsonData::Array(before)) ==> {
            let after = profiles_of(final(data)@);
            &&& final(data)@ == old(data)@.insert("profiles"@, JsonData::Array(after))
            &&& after.len() == before.len()
            &&& read_back_profiles(*unprotect_bytes, before, after, texts(unread@))
        },
        forall|i: int| 0 <= i < unread@.len() ==> is_sealed(#[trigger] unread@[i]@),
{
    let list = match data.get("profiles") {
        Some(JsonValue::Array(a)) => {
            let l = duplicate_values(a);
            assert(member(data@, "profiles"@) == Some(JsonData::Array(seq_data(l@))));
            l
        },
        _ => return Vec::new(),
    };
    let ghost before = seq_data(list@);
    proof {
        lemma_seq_data(list@);
    }
    let n = list.len();
    let mut out: Vec<JsonValue> = Vec::new();
    let mut i: usize = 0;
    let mut failed = false;
    while i < n && !failed
        invariant
            n == list@.len(),
            before == seq_data(list@),
            before.len() == n,
            *data == *old(data),
            member(old(data)@, "profiles"@) == Some(JsonData::Array(before)),
            forall|j: int| 0 <= j < n ==> before[j] == #[trigger] value_data(list@[j]),
            forall|b: &[u8]| call_requires(*unprotect_bytes, (b,)),
            i <= n,
            out@.len() == i,
            forall|j: int|
                0 <= j < i ==> profile_unprotected(
                    *unprotect_bytes,
                    before[j],
                    #[trigger] value_data(out@[j]),
                ),
            failed ==> i < n && exists|e: Seq<char>|
                profile_unprotect_failed(*unprotect_bytes, before[i as int], e),
        decreases n - i + (if failed { 0int } else { 1int }),
    {
        let p = &list[i];
        match password_text(p) {
            Some(raw) => {
                let res = unprotect_secret(raw, unprotect_bytes);
                match res {
                    Ok(new) => {
                        assert(read_back_outcome(*unprotect_bytes, raw@, Ok::<Seq<char>, Seq<char>>(new@)));
                        let updated = set_password(p, new);
                        assert(before[i as int] == p@);
                        assert(password_of(before[i as int]) == Some(raw@));
                        assert(updated@ == with_password(before[i as int], new@));
                        assert(read_back_outcome(*unprotect_bytes, password_of(before[i as int])->0, Ok::<Seq<char>, Seq<char>>(new@)));
                        assert(profile_unprotected(*unprotect_bytes, before[i as int], updated@));
                        out.push(updated);
                        i = i + 1;
                    },
                    Err(e) => {
                        assert(profile_unprotect_failed(*unprotect_bytes, before[i as int], e@));
                        failed = true;
                    },
                }
            },
            None => {
                let copy = p.duplicate();
                assert(profile_unprotected(*unprotect_bytes, before[i as int], copy@));
                out.push(copy);
                i = i + 1;
            },
        }
    }
    let k = i;
    let unread = sealed_passwords_from(&list, k);
    let mut j = k;
    while j < n
        invariant
            n == list@.len(),
            before == seq_data(list@),
            before.len() == n,
            *data == *old(data),
            member(old(data)@, "profiles"@) == Some(JsonData::Array(before)),
            forall|m: int| 0 <= m < n ==> before[m] == #[trigger] value_data(list@[m]),
            k <= j <= n,
            out@.len() == j,
            forall|m: int|
                0 <= m < k ==> profile_unprotected(
                    *unprotect_bytes,
                    before[m],
                    #[trigger] value_data(out@[m]),
                ),
            forall|m: int| k <= m < j ==> #[trigger] value_data(out@[m]) == before[m],
        decreases n - j,
    {
        let copy = list[j].duplicate();
        assert(value_data(copy) == before[j as int]);
        let ghost prev = out@;
        let ghost cg = copy;
        out.push(copy);
        assert(out@ == prev.push(cg));
        assert forall|m: int| k <= m < j + 1 implies #[trigger] value_data(out@[m]) == before[m] by {
            if m < j {
                assert(out@[m] == prev[m]);
            }
        }
        assert forall|m: int|
            0 <= m < k implies profile_unprotected(
            *unprotect_bytes,
            before[m],
            #[trigger] value_data(out@[m]),
        ) by {
            assert(prev.push(cg)[m] == prev[m]);
        }
        j = j + 1;
    }
    let ghost after = seq_data(out@);
    proof {
        lemma_seq_data(out@);
        lemma_sealed_passwords_sealed(before.subrange(k as int, n as int));
        assert forall|m: int| 0 <= m < unread@.len() implies is_sealed(#[trigger] unread@[m]@) by {
            assert(texts(unread@)[m] == unread@[m]@);
        }
        assert forall|m: int| 0 <= m < k implies profile_unprotected(
            *unprotect_bytes,
            #[trigger] before[m],
            after[m],
        ) by {
            assert(after[m] == value_data(out@[m]));
        }
        assert forall|m: int| k <= m < n implies #[trigger] after[m] == before[m] by {
            assert(after[m] == value_data(out@[m]));
        }
        assert(k < n ==> exists|e: Seq<char>| profile_unprotect_failed(*unprotect_bytes, before[k as int], e));
    }
    data.insert(key("profiles"), JsonValue::Array(out));
    assert(profiles_of(data@) == after);
    proof {
        let ks = k as int;
        assert(before.subrange(ks, n as int) == before.subrange(ks, before.len() as int));
        assert(read_back_profiles(*unprotect_bytes, before, after, texts(unread@)));
    }
    unread
}

/// Makes the profile with id `id` the active one and gives its address.
/// Fails with `profile not found` (and changes nothing) when no profile has
/// that id, and with `profile URL missing` when the profile has no `url`
/// string; in that case the profile is already the active one.
pub fn launch_profile(data: &mut JsonMap, id: &str) -> (r: Result<String, String>)
    ensures
        ({
            let list = profiles_of(old(data)@);
            match first_with_id(list, Some(id@)) {
                None => final(data)@ == old(data)@ && (r matches Err(e) && e@ == "profile not found"@),
                Some(i) => final(data)@ == old(data)@.insert("activeProfileId"@, JsonData::Str(id@))
                    && (match field_text(list[i], "url"@) {
                    Some(u) => r matches Ok(t) && t@ == u,
                    None => r matches Err(e) && e@ == "profile URL missing"@,
                }),
            }
        }),
{
    let list = profiles(data);
    proof {
        lemma_seq_data(list@);
    }
    let i = match find_profile(&list, Some(id)) {
        Some(i) => i,
        None => return Err("profile not found".to_owned()),
    };
    data.insert(key("activeProfileId"), JsonValue::String(id.to_owned()));
    match url_text(&list[i]) {
        Some(u) => Ok(u),
        None => Err("profile URL missing".to_owned()),
    }
}

/// The page the viewer window opens with.
#[derive(Debug)]
pub enum StartPage {
    /// One of the viewer's own pages, by its path.
    Local(String),
    /// A camera console address.
    External(WebUrl),
}

/// The page the viewer opens with: the configuration page when no profile is
/// saved; the startup profile's address when it parses; otherwise the
/// profile selection page.
pub fn initial_page(data: &JsonMap) -> (r: StartPage)
    ensures
        profiles_of(data@).len() == 0 ==> (r matches StartPage::Local(p) && p@ == "html/config.html"@),
        profiles_of(data@).len() > 0 ==> match selected_profile_url_of(data@) {
            Some(u) => match parsed_url(u) {
                Ok(w) => r matches StartPage::External(x) && x@ == w,
                Err(_) => r matches StartPage::Local(p) && p@ == "html/profile-select.html"@,
            },
            None => r matches StartPage::Local(p) && p@ == "html/profile-select.html"@,
        },
{
    let list = profiles(data);
    proof {
        lemma_seq_data(list@);
    }
    if list.len() == 0 {
        return StartPage::Local("html/config.html".to_owned());
    }
    match selected_profile_url(data) {
        Some(u) => match parse_url(u.as_str()) {
            Ok(w) => StartPage::External(w),
            Err(_) => StartPage::Local("html/profile-select.html".to_owned()),
        },
        None => StartPage::Local("html/profile-select.html".to_owned()),
    }
}

/// The saved profile `p` lets the page `url` in: its `url` parses and has the
/// page's origin (see `origin_matches`).
pub open spec fn profile_allows(p: JsonData, url: WebUrlData) -> bool {
    match field_text(p, "url"@) {
        Some(s) => match parsed_url(s) {
            Ok(saved) => origin_matches(saved, url),
            Err(_) => false,
        },
        None => false,
    }
}

/// The page may use the native commands: it is one of the viewer's own
/// pages, or some saved profile lets it in.
pub open spec fn is_configured_origin_of(data: Map<Seq<char>, JsonData>, url: WebUrlData) -> bool {
    is_local_host(url.host) || exists|i: int|
        0 <= i < profiles_of(data).len() && profile_allows(#[trigger] profiles_of(data)[i], url)
}

/// Whether the page may use the native commands.
pub fn is_configured_origin(data: &JsonMap, url: &WebUrl) -> (r: bool)
    ensures
        r == is_configured_origin_of(data@, url@),
{
    if is_local_url(url) {
        return true;
    }
    let list = profiles(data);
    let ghost ps = profiles_of(data@);
    proof {
        lemma_seq_data(list@);
    }
    let n = list.len();
    let mut i: usize = 0;
    while i < n
        invariant
            n == list@.len(),
            ps == seq_data(list@),
            ps == profiles_of(data@),
            !is_local_host(url@.host),
            ps.len() == n,
            forall|j: int| 0 <= j < n ==> ps[j] == #[trigger] value_data(list@[j]),
            i <= n,
            forall|j: int| 0 <= j < i ==> !profile_allows(#[trigger] ps[j], url@),
        decreases n - i,
    {
        let allowed = match url_text(&list[i]) {
            Some(s) => match parse_url(s.as_str()) {
                Ok(saved) => origin_matches_url(&saved, url),
                Err(_) => false,
            },
            None => false,
        };
        if allowed {
            assert(profile_allows(ps[i as int], url@));
            return true;
        }
        i = i + 1;
    }
    false
}

/// The value of a boolean member, true unless it is `false`.
pub open spec fn flag_or_true(m: Map<Seq<char>, JsonData>, k: Seq<char>) -> bool {
    match member(m, k) {
        Some(v) => match bool_of(v) {
            Some(b) => b,
            None => true,
        },
        None => true,
    }
}

/// The window starts in fullscreen: some profile is saved and the startup
/// settings' `fullscreen` is not `false`.
pub open spec fn start_fullscreen_of(data: Map<Seq<char>, JsonData>) -> bool {
    profiles_of(data).len() > 0 && flag_or_true(startup_settings_of(data), "fullscreen"@)
}

/// Whether the window starts in fullscreen.
pub fn start_fullscreen(data: &JsonMap) -> (r: bool)
    ensures
        r == start_fullscreen_of(data@),
{
    let list = profiles(data);
    proof {
        lemma_seq_data(list@);
    }
    if list.len() == 0 {
        return false;
    }
    let settings = startup_settings(data);
    match settings.get("fullscreen") {
        Some(v) => match v.as_bool() {
            Some(b) => b,
            None => true,
        },
        None => true,
    }
}

/// The display the window opens on: the startup settings' `displayIndex`,
/// or 0 when it is not a non-negative integer.
pub open spec fn display_index_of(data: Map<Seq<char>, JsonData>) -> u64 {
    match member(startup_settings_of(data), "displayIndex"@) {
        Some(v) => match u64_of(v) {
            Some(n) => n,
            None => 0,
        },
        None => 0,
    }
}

/// The display the window opens on.
pub fn display_index(data: &JsonMap) -> (r: u64)
    ensures
        r == display_index_of(data@),
{
    let settings = startup_settings(data);
    match settings.get("displayIndex") {
        Some(v) => match v.as_u64() {
            Some(n) => n,
            None => 0,
        },
        None => 0,
    }
}

/// The monitor the window is placed on, out of `count` monitors: the chosen
/// one when it exists, else the first, else none.
pub fn pick_monitor(count: usize, index: u64) -> (r: Option<usize>)
    ensures
        (index as int) < count ==> r == Some(index as usize),
        (index as int) >= count && count > 0 ==> r == Some(0usize),
        count == 0 ==> r is None,
{
    if (index as u128) < (count as u128) {
        Some(index as usize)
    } else if count > 0 {
        Some(0)
    } else {
        None
    }
}

/// The diagnostics shown to a technician, as an object.
pub open spec fn diagnostics_of(
    data: Map<Seq<char>, JsonData>,
    version: Seq<char>,
    log_path: Seq<char>,
    storage_protected: bool,
    autostart: bool,
) -> Map<Seq<char>, JsonData> {
    Map::empty().insert("version"@, JsonData::Str(version)).insert(
        "profiles"@,
        JsonData::Number(JsonNumber::PosInt(profiles_of(data).len() as u64)),
    ).insert("settings"@, JsonData::Object(startup_settings_of(data))).insert(
        "storageProtected"@,
        JsonData::Bool(storage_protected),
    ).insert("logPath"@, JsonData::Str(log_path)).insert(
        "autostartEnabled"@,
        JsonData::Bool(autostart),
    )
}

/// The diagnostics shown to a technician: the version, the number of saved
/// profiles, the effective startup settings, whether passwords are protected,
/// the log file and whether autostart is on.
pub fn diagnostics(
    data: &JsonMap,
    version: &str,
    log_path: &str,
    storage_protected: bool,
    autostart: bool,
) -> (r: JsonValue)
    ensures
        r@ == JsonData::Object(diagnostics_of(data@, version@, log_path@, storage_protected, autostart)),
{
    let list = profiles(data);
    proof {
        lemma_seq_data(list@);
    }
    let mut m = JsonMap::new();
    m.insert(key("version"), JsonValue::String(version.to_owned()));
    m.insert(key("profiles"), JsonValue::Number(JsonNumber::PosInt(list.len() as u64)));
    m.insert(key("settings"), startup_settings(data));
    m.insert(key("storageProtected"), JsonValue::Bool(storage_protected));
    m.insert(key("logPath"), JsonValue::String(log_path.to_owned()));
    m.insert(key("autostartEnabled"), JsonValue::Bool(autostart));
    JsonValue::Object(m)
}

} // verus!
