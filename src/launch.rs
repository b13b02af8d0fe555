use vstd::prelude::*;
use crate::error::InstallError;
use crate::json::{
    Json, JsonValue, items_view, jstr, lemma_items_push, lemma_items_view, lemma_members_view,
    member, members_view, put_member, set_member, str_of,
};
use crate::meta::ProfileJsonLibrary;
use crate::text::{concat, is_prefix, starts_with};

verus! {

/// The repository that serves the renamed mapping artifacts.
pub const ORNITHE_RELEASES: &'static str = "https://maven.ornithemc.net/releases";

/// Main class of the Fabric server launcher.
pub const FABRIC_SERVER_LAUNCHER: &'static str = "net.fabricmc.loader.launch.server.FabricServerLauncher";

/// The new name of a mapping library that the metadata service names after its upstream.
pub open spec fn renamed_library(name: Seq<char>) -> Option<Seq<char>> {
    if is_prefix("net.fabricmc:intermediary"@, name) {
        Some("net.ornithemc:calamus-intermediary"@ + name.skip("net.fabricmc:intermediary"@.len() as int))
    } else if is_prefix("org.quiltmc:hashed"@, name) {
        Some("net.ornithemc:calamus-intermediary"@ + name.skip("org.quiltmc:hashed"@.len() as int))
    } else {
        None
    }
}

/// A library entry with its mapping artifact renamed and pointed at the Ornithe repository.
pub open spec fn rewritten_library(lib: Json) -> Json {
    match lib {
        Json::Obj(m) => match str_of(member(lib, "name"@)) {
            Some(n) => match renamed_library(n) {
                Some(n2) => Json::Obj(
                    set_member(set_member(m, "name"@, Json::Str(n2)), "url"@, Json::Str(ORNITHE_RELEASES@)),
                ),
                None => lib,
            },
            None => lib,
        },
        _ => lib,
    }
}

pub open spec fn library_json(name: Seq<char>, url: Seq<char>) -> Json {
    Json::Obj(seq![("name"@, Json::Str(name)), ("url"@, Json::Str(url))])
}

pub open spec fn upgrades_view(upgrades: Seq<ProfileJsonLibrary>) -> Seq<Json> {
    upgrades.map_values(|u: ProfileJsonLibrary| library_json(u.name@, u.url@))
}

/// The launch descriptor with its libraries rewritten and the upgrades appended; a
/// descriptor without a library array is kept as it is.
pub open spec fn composed(launch: Json, upgrades: Seq<ProfileJsonLibrary>) -> Json {
    match launch {
        Json::Obj(m) => match member(launch, "libraries"@) {
            Some(Json::Arr(items)) => Json::Obj(
                set_member(
                    m,
                    "libraries"@,
                    Json::Arr(items.map_values(|l: Json| rewritten_library(l)) + upgrades_view(upgrades)),
                ),
            ),
            _ => launch,
        },
        _ => launch,
    }
}

fn renamed_name(name: &str) -> (r: Option<String>)
    ensures
        renamed_library(name@) == match r {
            Some(s) => Some(s@),
            None => None::<Seq<char>>,
        },
{
    let n = name.unicode_len();
    if starts_with(name, "net.fabricmc:intermediary") {
        let k = "net.fabricmc:intermediary".unicode_len();
        Some(concat("net.ornithemc:calamus-intermediary", name.substring_char(k, n)))
    } else if starts_with(name, "org.quiltmc:hashed") {
        let k = "org.quiltmc:hashed".unicode_len();
        Some(concat("net.ornithemc:calamus-intermediary", name.substring_char(k, n)))
    } else {
        None
    }
}

/// The members of an object, or none.
pub fn object_members(v: &JsonValue) -> (r: Vec<(String, JsonValue)>)
    ensures
        members_view(r@) == match v.view_json() {
            Json::Obj(m) => m,
            _ => Seq::empty(),
        },
{
    match v.deep_clone() {
        JsonValue::Object(m) => m,
        _ => Vec::new(),
    }
}

/// The items of an array, or none.
pub fn array_items(v: &JsonValue) -> (r: Vec<JsonValue>)
    ensures
        items_view(r@) == match v.view_json() {
            Json::Arr(items) => items,
            _ => Seq::empty(),
        },
{
    match v.deep_clone() {
        JsonValue::Array(items) => items,
        _ => Vec::new(),
    }
}

/// Renames a mapping library entry, as `rewritten_library` says.
pub fn rewrite_library(lib: &JsonValue) -> (r: JsonValue)
    ensures
        r.view_json() == rewritten_library(lib.view_json()),
{
    if let JsonValue::Object(_) = lib {
        if let Some(n) = lib.get_str("name") {
            if let Some(n2) = renamed_name(n.as_str()) {
                let mut m = object_members(lib);
                put_member(&mut m, "name".to_owned(), JsonValue::Str(n2));
                put_member(&mut m, "url".to_owned(), jstr(ORNITHE_RELEASES));
                return JsonValue::Object(m);
            }
        }
    }
    lib.deep_clone()
}

/// The library entry of an upgrade.
pub fn upgrade_json(u: &ProfileJsonLibrary) -> (r: JsonValue)
    ensures
        r.view_json() == library_json(u.name@, u.url@),
{
    let mut m: Vec<(String, JsonValue)> = Vec::new();
    let a = ("name".to_owned(), JsonValue::Str(u.name.clone()));
    let b = ("url".to_owned(), JsonValue::Str(u.url.clone()));
    proof {
        crate::json::lemma_members_push(m@, a);
        crate::json::lemma_members_push(m@.push(a), b);
    }
    m.push(a);
    m.push(b);
    assert(members_view(m@) =~= seq![("name"@, Json::Str(u.name@)), ("url"@, Json::Str(u.url@))]);
    JsonValue::Object(m)
}

/// Rewrites the library list of a launch descriptor and appends the upgrades; gives the
/// descriptor's id with it.
pub fn compose_launch_json(launch: JsonValue, upgrades: &Vec<ProfileJsonLibrary>) -> (r: Result<
    (String, JsonValue),
    InstallError,
>)
    ensures
        match str_of(member(launch.view_json(), "id"@)) {
            Some(id) => r matches Ok((i, doc)) && i@ == id && doc.view_json() == composed(
                launch.view_json(),
                upgrades@,
            ),
            None => r matches Err(InstallError::Metadata(_)),
        },
{
    let id = match launch.get_str("id") {
        Some(s) => s.clone(),
        None => return Err(InstallError::Metadata("Launch Json does not contain 'id' key!".to_owned())),
    };
    let libs = match launch.get("libraries") {
        Some(l) => match l.as_array() {
            Some(items) => items,
            None => return Ok((id, launch.deep_clone())),
        },
        None => return Ok((id, launch.deep_clone())),
    };
    let ghost iv = items_view(libs@);
    let ghost uv = upgrades_view(upgrades@);
    proof {
        lemma_items_view(libs@);
    }
    let mut out: Vec<JsonValue> = Vec::new();
    let mut k: usize = 0;
    while k < libs.len()
        invariant
            k <= libs.len(),
            iv == items_view(libs@),
            iv.len() == libs.len(),
            forall|p: int| 0 <= p < libs.len() ==> #[trigger] iv[p] == libs@[p].view_json(),
            items_view(out@) == iv.take(k as int).map_values(|l: Json| rewritten_library(l)),
        decreases libs.len() - k,
    {
        let x = rewrite_library(&libs[k]);
        proof {
            lemma_items_push(out@, x);
            assert(iv.take(k + 1).map_values(|l: Json| rewritten_library(l)) =~= iv.take(k as int).map_values(
                |l: Json| rewritten_library(l),
            ).push(rewritten_library(iv[k as int])));
        }
        out.push(x);
        k += 1;
    }
    assert(iv.take(libs.len() as int) =~= iv);
    let mut k: usize = 0;
    while k < upgrades.len()
        invariant
            k <= upgrades.len(),
            uv == upgrades_view(upgrades@),
            items_view(out@) == iv.map_values(|l: Json| rewritten_library(l)) + uv.take(k as int),
        decreases upgrades.len() - k,
    {
        let x = upgrade_json(&upgrades[k]);
        proof {
            lemma_items_push(out@, x);
            assert(iv.map_values(|l: Json| rewritten_library(l)) + uv.take(k + 1) =~= (iv.map_values(
                |l: Json| rewritten_library(l),
            ) + uv.take(k as int)).push(uv[k as int]));
        }
        out.push(x);
        k += 1;
    }
    assert(uv.take(upgrades.len() as int) =~= uv);
    let mut m = object_members(&launch);
    put_member(&mut m, "libraries".to_owned(), JsonValue::Array(out));
    Ok((id, JsonValue::Object(m)))
}

/// The descriptor with `arg` put first among its JVM arguments (the members are created
/// where they are missing); anything but an object is kept as it is.
pub open spec fn with_first_jvm_arg(launch: Json, arg: Seq<char>) -> Json {
    match launch {
        Json::Obj(m) => {
            let am = match member(launch, "arguments"@) {
                Some(Json::Obj(am)) => am,
                _ => Seq::empty(),
            };
            let jvm = match member(Json::Obj(am), "jvm"@) {
                Some(Json::Arr(items)) => items,
                _ => Seq::empty(),
            };
            Json::Obj(
                set_member(m, "arguments"@, Json::Obj(set_member(am, "jvm"@, Json::Arr(seq![Json::Str(arg)] + jvm)))),
            )
        },
        _ => launch,
    }
}

/// Puts `arg` first among the JVM arguments of a launch descriptor.
pub fn add_first_jvm_arg(launch: &JsonValue, arg: &str) -> (r: JsonValue)
    ensures
        r.view_json() == with_first_jvm_arg(launch.view_json(), arg@),
{
    if let JsonValue::Object(_) = launch {
        let mut m = object_members(launch);
        let mut am: Vec<(String, JsonValue)> = match launch.get("arguments") {
            Some(a) => object_members(a),
            None => Vec::new(),
        };
        let ghost amv = members_view(am@);
        let jvm_old: Vec<JsonValue> = match find_jvm(&am) {
            Some(j) => array_items(j),
            None => Vec::new(),
        };
        let mut jvm: Vec<JsonValue> = Vec::new();
        let first = jstr(arg);
        proof {
            lemma_items_push(jvm@, first);
        }
        jvm.push(first);
        let mut k: usize = 0;
        while k < jvm_old.len()
            invariant
                k <= jvm_old.len(),
                items_view(jvm@) == seq![Json::Str(arg@)] + items_view(jvm_old@).take(k as int),
            decreases jvm_old.len() - k,
        {
            let x = jvm_old[k].deep_clone();
            proof {
                lemma_items_view(jvm_old@);
                lemma_items_push(jvm@, x);
                assert(seq![Json::Str(arg@)] + items_view(jvm_old@).take(k + 1) =~= (seq![Json::Str(arg@)]
                    + items_view(jvm_old@).take(k as int)).push(items_view(jvm_old@)[k as int]));
            }
            jvm.push(x);
            k += 1;
        }
        assert(items_view(jvm_old@).take(jvm_old.len() as int) =~= items_view(jvm_old@)) by {
            lemma_items_view(jvm_old@);
        }
        put_member(&mut am, "jvm".to_owned(), JsonValue::Array(jvm));
        put_member(&mut m, "arguments".to_owned(), JsonValue::Object(am));
        JsonValue::Object(m)
    } else {
        launch.deep_clone()
    }
}

fn find_jvm(am: &Vec<(String, JsonValue)>) -> (r: Option<&JsonValue>)
    ensures
        match member(Json::Obj(members_view(am@)), "jvm"@) {
            Some(v) => r matches Some(x) && x.view_json() == v,
            None => r is None,
        },
{
    let k = "jvm".to_owned();
    proof {
        lemma_members_view(am@);
        crate::json::lemma_key_index(members_view(am@), k@);
    }
    match crate::json::find_member(am, &k) {
        Some(j) => Some(&am[j].1),
        None => None,
    }
}

} // verus!
