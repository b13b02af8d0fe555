use vstd::prelude::*;
use base64::Engine;
use crate::error::InstallError;
use crate::json::{
    Json, JsonValue, Members, jstr, lemma_members_push, lemma_set_member, member, members_view, put_member,
    set_member,
};
use crate::launch::object_members;
use crate::meta::LoaderType;
use crate::text::concat;

verus! {

/// What base64's standard alphabet without padding makes of the bytes.
pub uninterp spec fn base64_no_pad(b: Seq<u8>) -> Seq<char>;

/// Relies on `base64::engine::general_purpose::STANDARD_NO_PAD` and `Engine::encode`:
/// the text depends on the bytes alone. `encode` panics when the encoded length overflows
/// `usize`, which the bound on the input excludes.
#[verifier::external_body]
fn encode_base64(bytes: &[u8]) -> (r: String)
    requires
        bytes@.len() * 2 <= usize::MAX,
    ensures
        r@ == base64_no_pad(bytes@),
{
    base64::prelude::BASE64_STANDARD_NO_PAD.encode(bytes)
}

/// Relies on `std::time::SystemTime::now` and `SystemTime::duration_since`, then on
/// `chrono::DateTime::from_timestamp` and `DateTime::to_rfc3339_opts`: the current time
/// as RFC 3339 text, `None` when the clock reads before 1970 or out of chrono's range.
/// Nothing is promised of the value.
#[verifier::external_body]
fn now_rfc3339() -> (r: Option<String>) {
    let since = std::time::SystemTime::now().duration_since(std::time::UNIX_EPOCH).ok()?;
    let secs = i64::try_from(since.as_secs()).ok()?;
    let time = chrono::DateTime::from_timestamp(secs, since.subsec_nanos())?;
    Some(time.to_rfc3339_opts(chrono::SecondsFormat::AutoSi, true))
}

/// The stamp of a new profile when the clock cannot be read.
pub const EPOCH_STAMP: &'static str = "1970-01-01T00:00:00Z";

pub open spec fn profile_name_view(loader: LoaderType, version_id: Seq<char>) -> Seq<char> {
    "Ornithe ("@ + loader.localized_view() + ") "@ + version_id
}

/// The display name of the profile of a loader and game version.
pub fn profile_name(loader_type: LoaderType, version_id: &str) -> (r: String)
    ensures
        r@ == profile_name_view(loader_type, version_id@),
{
    let mut r = concat("Ornithe (", loader_type.get_localized_name());
    r.append(") ");
    r.append(version_id);
    r
}

/// The profile icon as a data URL of the PNG bytes.
pub fn icon_string(icon_png: &[u8]) -> (r: String)
    requires
        icon_png@.len() * 2 <= usize::MAX,
    ensures
        r@ == "data:image/png;base64,"@ + base64_no_pad(icon_png@),
{
    concat("data:image/png;base64,", encode_base64(icon_png).as_str())
}

/// A new launcher profile.
pub open spec fn new_profile(name: Seq<char>, timestamp: Seq<char>, icon: Seq<char>, last_version_id: Seq<char>) -> Json {
    Json::Obj(
        seq![
            ("name"@, Json::Str(name)),
            ("type"@, Json::Str("custom"@)),
            ("created"@, Json::Str(timestamp)),
            ("lastUsed"@, Json::Str(timestamp)),
            ("icon"@, Json::Str(icon)),
            ("lastVersionId"@, Json::Str(last_version_id)),
        ],
    )
}

/// The profiles of a registry after installing: the profile named `name` gets
/// `last_version_id` if it exists, else a new profile is added; `None` when the registry
/// or its `profiles` member is not an object, or the named profile is not one.
pub open spec fn updated_profiles(
    registry: Json,
    name: Seq<char>,
    last_version_id: Seq<char>,
    timestamp: Seq<char>,
    icon: Seq<char>,
) -> Option<Members> {
    match member(registry, "profiles"@) {
        Some(Json::Obj(ps)) => match member(Json::Obj(ps), name) {
            Some(Json::Obj(p)) => Some(
                set_member(ps, name, Json::Obj(set_member(p, "lastVersionId"@, Json::Str(last_version_id)))),
            ),
            Some(_) => None,
            None => Some(set_member(ps, name, new_profile(name, timestamp, icon, last_version_id))),
        },
        _ => None,
    }
}

pub open spec fn updated_registry(
    registry: Json,
    name: Seq<char>,
    last_version_id: Seq<char>,
    timestamp: Seq<char>,
    icon: Seq<char>,
) -> Option<Json> {
    match (registry, updated_profiles(registry, name, last_version_id, timestamp, icon)) {
        (Json::Obj(m), Some(ps)) => Some(Json::Obj(set_member(m, "profiles"@, Json::Obj(ps)))),
        _ => None,
    }
}

fn new_profile_json(name: &str, timestamp: &str, icon: &str, last_version_id: &str) -> (r: JsonValue)
    ensures
        r.view_json() == new_profile(name@, timestamp@, icon@, last_version_id@),
{
    let mut m: Vec<(String, JsonValue)> = Vec::new();
    let entries = [
        ("name", name),
        ("type", "custom"),
        ("created", timestamp),
        ("lastUsed", timestamp),
        ("icon", icon),
        ("lastVersionId", last_version_id),
    ];
    let ghost want = seq![
        ("name"@, Json::Str(name@)),
        ("type"@, Json::Str("custom"@)),
        ("created"@, Json::Str(timestamp@)),
        ("lastUsed"@, Json::Str(timestamp@)),
        ("icon"@, Json::Str(icon@)),
        ("lastVersionId"@, Json::Str(last_version_id@)),
    ];
    let mut k: usize = 0;
    while k < 6
        invariant
            k <= 6,
            entries@.len() == 6,
            want.len() == 6,
            forall|p: int| 0 <= p < 6 ==> (#[trigger] entries@[p]).0@ == want[p].0 && Json::Str(entries@[p].1@) == want[p].1,
            members_view(m@) == want.take(k as int),
        decreases 6 - k,
    {
        let e = (entries[k].0.to_owned(), jstr(entries[k].1));
        proof {
            lemma_members_push(m@, e);
            assert(want.take(k + 1) =~= want.take(k as int).push(want[k as int]));
        }
        m.push(e);
        k += 1;
    }
    assert(want.take(6) =~= want);
    JsonValue::Object(m)
}

/// Records an installed profile in the launcher's registry, with the given time stamp
/// and icon for a new profile.
pub fn update_registry(
    registry: &JsonValue,
    name: &str,
    last_version_id: &str,
    timestamp: &str,
    icon: &str,
) -> (r: Result<JsonValue, InstallError>)
    ensures
        match updated_registry(registry.view_json(), name@, last_version_id@, timestamp@, icon@) {
            Some(j) => r matches Ok(x) && x.view_json() == j,
            None => r matches Err(InstallError::PersistedState(_)),
        },
{
    if !matches!(registry, JsonValue::Object(_)) {
        return Err(InstallError::PersistedState("The launcher profiles document is not an object".to_owned()));
    }
    let raw = match registry.get("profiles") {
        Some(p) => p,
        None => return Err(InstallError::PersistedState("\"profiles\" field must be an object".to_owned())),
    };
    if !matches!(raw, JsonValue::Object(_)) {
        return Err(InstallError::PersistedState("\"profiles\" field must be an object".to_owned()));
    }
    let mut profiles = object_members(raw);
    match raw.get(name) {
        Some(existing) => {
            if !matches!(existing, JsonValue::Object(_)) {
                let mut msg = concat("Cannot update profile of name ", name);
                msg.append(" because it is not an object!");
                return Err(InstallError::PersistedState(msg));
            }
            let mut p = object_members(existing);
            put_member(&mut p, "lastVersionId".to_owned(), jstr(last_version_id));
            put_member(&mut profiles, name.to_owned(), JsonValue::Object(p));
        },
        None => {
            put_member(&mut profiles, name.to_owned(), new_profile_json(name, timestamp, icon, last_version_id));
        },
    }
    let mut m = object_members(registry);
    put_member(&mut m, "profiles".to_owned(), JsonValue::Object(profiles));
    Ok(JsonValue::Object(m))
}

/// Records the installed profile of a loader and game version in the launcher's registry,
/// stamped with the current time (or the epoch when the clock cannot be read).
pub fn update_profiles(
    registry: &JsonValue,
    profile_id: &str,
    version_id: &str,
    loader_type: LoaderType,
    icon_png: &[u8],
) -> (r: Result<JsonValue, InstallError>)
    requires
        icon_png@.len() * 2 <= usize::MAX,
    ensures
        r matches Ok(x) ==> exists|t: Seq<char>|
            updated_registry(
                registry.view_json(),
                profile_name_view(loader_type, version_id@),
                profile_id@,
                t,
                "data:image/png;base64,"@ + base64_no_pad(icon_png@),
            ) == Some(x.view_json()),
        r is Err <==> forall|t: Seq<char>|
            updated_registry(
                registry.view_json(),
                profile_name_view(loader_type, version_id@),
                profile_id@,
                t,
                "data:image/png;base64,"@ + base64_no_pad(icon_png@),
            ) is None,
        r matches Err(e) ==> e is PersistedState,
{
    let name = profile_name(loader_type, version_id);
    let icon = icon_string(icon_png);
    let now = match now_rfc3339() {
        Some(t) => t,
        None => EPOCH_STAMP.to_owned(),
    };
    let r = update_registry(registry, name.as_str(), profile_id, now.as_str(), icon.as_str());
    proof {
        lemma_registry_time_free(registry.view_json(), name@, profile_id@, now@, icon@);
    }
    r
}

/// Whether an update succeeds does not depend on the time stamp.
proof fn lemma_registry_time_free(registry: Json, name: Seq<char>, vid: Seq<char>, t: Seq<char>, icon: Seq<char>)
    ensures
        updated_registry(registry, name, vid, t, icon) is None ==> forall|t2: Seq<char>|
            updated_registry(registry, name, vid, t2, icon) is None,
{
}

/// Installing into a registry keeps every other profile as it was: a profile of a new
/// name is added with the given fields, and a profile of the same name only gets its
/// `lastVersionId` set.
pub proof fn lemma_profile_update(
    registry: Json,
    name: Seq<char>,
    last_version_id: Seq<char>,
    timestamp: Seq<char>,
    icon: Seq<char>,
    other: Seq<char>,
    field: Seq<char>,
)
    requires
        updated_profiles(registry, name, last_version_id, timestamp, icon) is Some,
        other != name,
        field != "lastVersionId"@,
    ensures
        ({
            let ps = member(registry, "profiles"@)->0;
            let new_ps = Json::Obj(updated_profiles(registry, name, last_version_id, timestamp, icon)->0);
            &&& member(new_ps, other) == member(ps, other)
            &&& member(ps, name) is None ==> member(new_ps, name) == Some(
                new_profile(name, timestamp, icon, last_version_id),
            ) && new_ps->Obj_0.len() == ps->Obj_0.len() + 1
            &&& member(ps, name) is Some ==> {
                let old_p = member(ps, name)->0;
                let new_p = member(new_ps, name)->0;
                &&& member(new_p, "lastVersionId"@) == Some(Json::Str(last_version_id))
                &&& member(new_p, field) == member(old_p, field)
                &&& new_ps->Obj_0.len() == ps->Obj_0.len()
            }
        }),
{
    let ps = member(registry, "profiles"@)->0;
    let psm = ps->Obj_0;
    lemma_set_member(psm, name, new_profile(name, timestamp, icon, last_version_id), other);
    lemma_set_member(psm, name, new_profile(name, timestamp, icon, last_version_id), name);
    crate::json::lemma_key_index(psm, name);
    if let Some(Json::Obj(p)) = member(ps, name) {
        let np = Json::Obj(set_member(p, "lastVersionId"@, Json::Str(last_version_id)));
        lemma_set_member(psm, name, np, other);
        lemma_set_member(psm, name, np, name);
        lemma_set_member(p, "lastVersionId"@, Json::Str(last_version_id), field);
        lemma_set_member(p, "lastVersionId"@, Json::Str(last_version_id), "lastVersionId"@);
    }
}

/// Which registry file of the game directory to update: the Microsoft Store launcher's
/// when it exists, else the standard one; an error when neither exists.
pub fn get_launcher_profiles_json(store_file_exists: bool, standard_file_exists: bool) -> (r: Result<String, InstallError>)
    ensures
        store_file_exists ==> (r matches Ok(f) && f@ == "launcher_profiles_microsoft_store.json"@),
        !store_file_exists && standard_file_exists ==> (r matches Ok(f) && f@ == "launcher_profiles.json"@),
        !store_file_exists && !standard_file_exists ==> (r matches Err(InstallError::PersistedState(m)) && m@
            == "Could not find a launcher_profiles json!"@),
{
    if store_file_exists {
        Ok("launcher_profiles_microsoft_store.json".to_owned())
    } else if standard_file_exists {
        Ok("launcher_profiles.json".to_owned())
    } else {
        Err(InstallError::PersistedState("Could not find a launcher_profiles json!".to_owned()))
    }
}

} // verus!
