use vstd::prelude::*;
use crate::error::InstallError;
use crate::text::text_of;
use crate::json::{
    Json, JsonValue, items_view, jstr, lemma_items_view, member, members_view, push_item, push_member, str_of,
};
use crate::launch::array_items;
use crate::maven::MAVEN_URL;
use crate::meta::{IntermediaryVersion, LoaderType, ProfileJsonLibrary};
use crate::server::string_items;
use crate::text::{
    concat, contains_seq, contains_str, decimal, decimal_string, equals, find_char, index_of_from, last_index,
    lemma_index_of_from, replace_all, replace_char, replaced, rfind_char, spaced, starts_with, swap_char,
};

verus! {

pub open spec fn instance_name_view(generation: u32, loader: LoaderType, version_id: Seq<char>) -> Seq<char> {
    "Ornithe Gen"@ + decimal(generation as nat) + " "@ + loader.localized_view() + " "@ + version_id
}

/// The name of an instance package: generation, loader and game version.
pub fn instance_name(generation: u32, loader_type: LoaderType, version_id: &str) -> (r: String)
    ensures
        r@ == instance_name_view(generation, loader_type, version_id@),
{
    let mut r = concat("Ornithe Gen", decimal_string(generation as u64).as_str());
    r.append(" ");
    r.append(loader_type.get_localized_name());
    r.append(" ");
    r.append(version_id);
    r
}

/// Where an instance package goes: `<name>.zip` for an archive (any file of that name is
/// replaced), else the directory `<name>`, which must not exist yet.
pub fn instance_target(name: &str, generate_zip: bool, dir_exists: bool) -> (r: Result<String, InstallError>)
    ensures
        generate_zip ==> (r matches Ok(p) && p@ == name@ + ".zip"@),
        !generate_zip && !dir_exists ==> (r matches Ok(p) && p@ == name@),
        !generate_zip && dir_exists ==> (r matches Err(InstallError::Validation(m)) && m@ == "An instance already exists at "@
            + name@),
{
    if generate_zip {
        Ok(concat(name, ".zip"))
    } else if dir_exists {
        Err(InstallError::Validation(concat("An instance already exists at ", name)))
    } else {
        Ok(name.to_owned())
    }
}

pub open spec fn is_suffix(p: Seq<char>, s: Seq<char>) -> bool {
    p.len() <= s.len() && s.skip(s.len() - p.len()) == p
}

/// The mapping's coordinate without its version: the maven name must end in `:<version>`.
pub fn intermediary_coordinates(intermediary: &IntermediaryVersion) -> (r: Result<String, InstallError>)
    ensures
        is_suffix(":"@ + intermediary.version@, intermediary.maven@) ==> (r matches Ok(c) && c@
            == intermediary.maven@.take(intermediary.maven@.len() - intermediary.version@.len() - 1)),
        !is_suffix(":"@ + intermediary.version@, intermediary.maven@) ==> r matches Err(InstallError::Metadata(_)),
{
    proof {
        reveal_strlit(":");
    }
    let suffix = concat(":", intermediary.version.as_str());
    let n = intermediary.maven.unicode_len();
    let k = suffix.unicode_len();
    if k > n {
        return Err(InstallError::Metadata("Failed to retrieve intermediary coordinates".to_owned()));
    }
    let tail = intermediary.maven.as_str().substring_char(n - k, n);
    assert(tail@ =~= intermediary.maven@.skip(n - k));
    if !equals(tail, suffix.as_str()) {
        return Err(InstallError::Metadata("Failed to retrieve intermediary coordinates".to_owned()));
    }
    let head = intermediary.maven.as_str().substring_char(0, n - k);
    assert(head@ =~= intermediary.maven@.take(intermediary.maven@.len() - intermediary.version@.len() - 1));
    Ok(head.to_owned())
}

pub open spec fn lwjgl_uid_view(lwjgl_version: Seq<char>) -> Seq<char> {
    if lwjgl_version[0] == '3' {
        "org.lwjgl3"@
    } else {
        "org.lwjgl"@
    }
}

fn lwjgl_uid(lwjgl_version: &str) -> (r: &'static str)
    requires
        lwjgl_version@.len() > 0,
    ensures
        r@ == lwjgl_uid_view(lwjgl_version@),
{
    if lwjgl_version.get_char(0) == '3' {
        "org.lwjgl3"
    } else {
        "org.lwjgl"
    }
}

pub open spec fn pack_json_view(
    template: Seq<char>,
    version_id: Seq<char>,
    loader: LoaderType,
    loader_version: Seq<char>,
    lwjgl_version: Seq<char>,
    intermediary_version: Seq<char>,
) -> Seq<char> {
    let t1 = replaced(template, "${mc_version}"@, version_id);
    let t2 = replaced(t1, "${intermediary_ver}"@, intermediary_version);
    let t3 = replaced(t2, "${loader_version}"@, loader_version);
    let t4 = replaced(t3, "${loader_name}"@, loader.localized_view() + " Loader"@);
    let t5 = replaced(t4, "${loader_uid}"@, loader.maven_uid_view());
    let t6 = replaced(t5, "${lwjgl_version}"@, lwjgl_version);
    let t7 = replaced(t6, "${lwjgl_major_ver}"@, seq![lwjgl_version[0]]);
    replaced(t7, "${lwjgl_uid}"@, lwjgl_uid_view(lwjgl_version))
}

/// Fills the component graph template of an instance package.
pub fn transform_pack_json(
    template: &str,
    version_id: &str,
    loader_type: LoaderType,
    loader_version: &str,
    lwjgl_version: &str,
    intermediary_version: &str,
) -> (r: String)
    requires
        lwjgl_version@.len() > 0,
    ensures
        r@ == pack_json_view(template@, version_id@, loader_type, loader_version@, lwjgl_version@, intermediary_version@),
{
    proof {
        reveal_strlit("${mc_version}");
        reveal_strlit("${intermediary_ver}");
        reveal_strlit("${loader_version}");
        reveal_strlit("${loader_name}");
        reveal_strlit("${loader_uid}");
        reveal_strlit("${lwjgl_version}");
        reveal_strlit("${lwjgl_major_ver}");
        reveal_strlit("${lwjgl_uid}");
    }
    let t1 = replace_all(template, "${mc_version}", version_id);
    let t2 = replace_all(t1.as_str(), "${intermediary_ver}", intermediary_version);
    let t3 = replace_all(t2.as_str(), "${loader_version}", loader_version);
    let name = concat(loader_type.get_localized_name(), " Loader");
    let t4 = replace_all(t3.as_str(), "${loader_name}", name.as_str());
    let t5 = replace_all(t4.as_str(), "${loader_uid}", loader_type.get_maven_uid());
    let t6 = replace_all(t5.as_str(), "${lwjgl_version}", lwjgl_version);
    let major = lwjgl_version.substring_char(0, 1);
    assert(major@ =~= seq![lwjgl_version@[0]]);
    let t7 = replace_all(t6.as_str(), "${lwjgl_major_ver}", major);
    replace_all(t7.as_str(), "${lwjgl_uid}", lwjgl_uid(lwjgl_version))
}

pub open spec fn intermediary_patch_view(
    template: Seq<char>,
    version_id: Seq<char>,
    intermediary_version: Seq<char>,
    intermediary_maven: Seq<char>,
) -> Seq<char> {
    replaced(
        replaced(replaced(template, "${mc_version}"@, version_id), "${intermediary_ver}"@, intermediary_version),
        "${intermediary_maven}"@,
        intermediary_maven,
    )
}

/// Fills the mapping patch template of an instance package.
pub fn transform_intermediary_patch(
    template: &str,
    version_id: &str,
    intermediary_version: &str,
    intermediary_maven: &str,
) -> (r: String)
    ensures
        r@ == intermediary_patch_view(template@, version_id@, intermediary_version@, intermediary_maven@),
{
    proof {
        reveal_strlit("${mc_version}");
        reveal_strlit("${intermediary_ver}");
        reveal_strlit("${intermediary_maven}");
    }
    let t1 = replace_all(template, "${mc_version}", version_id);
    let t2 = replace_all(t1.as_str(), "${intermediary_ver}", intermediary_version);
    replace_all(t2.as_str(), "${intermediary_maven}", intermediary_maven)
}

pub open spec fn wrapper_lines() -> Seq<char> {
    "\nOverrideCommands=true\nWrapperCommand=env __GL_THREADED_OPTIMIZATIONS=0"@
}

/// Fills the instance configuration template; on Linux the game runs under a wrapper
/// that turns off threaded GL optimisations.
pub fn instance_config(template: &str, profile_name: &str, linux: bool) -> (r: String)
    ensures
        r@ == replaced(template@, "${profile_name}"@, profile_name@) + (if linux {
            wrapper_lines()
        } else {
            Seq::empty()
        }),
{
    proof {
        reveal_strlit("${profile_name}");
    }
    let mut r = replace_all(template, "${profile_name}", profile_name);
    if linux {
        r.append("\nOverrideCommands=true\nWrapperCommand=env __GL_THREADED_OPTIMIZATIONS=0");
    } else {
        assert(r@ =~= r@ + Seq::<char>::empty());
    }
    r
}

/// The parts of a library coordinate that make its component: the uid (all before the
/// last colon, colons turned into dots), the name (between the first and the last colon)
/// and the version (after the last colon).
pub open spec fn component_parts(name: Seq<char>) -> Option<(Seq<char>, Seq<char>, Seq<char>)> {
    let first = index_of_from(name, ':', 0);
    let last = last_index(name, ':');
    if 0 <= first < last {
        Some((
            swap_char(name.take(last), ':', '.'),
            name.subrange(first + 1, last),
            name.skip(last + 1),
        ))
    } else {
        None
    }
}

pub open spec fn release_json(name: Seq<char>, uid: Seq<char>, version: Seq<char>) -> Seq<(Seq<char>, Json)> {
    seq![
        ("formatVersion"@, Json::Num("1"@)),
        ("name"@, Json::Str(name)),
        ("type"@, Json::Str("release"@)),
        ("uid"@, Json::Str(uid)),
        ("version"@, Json::Str(version)),
    ]
}

pub open spec fn component_json(name: Seq<char>, version: Seq<char>, uid: Seq<char>) -> Json {
    Json::Obj(
        seq![("cachedName"@, Json::Str(name)), ("cachedVersion"@, Json::Str(version)), ("uid"@, Json::Str(uid))],
    )
}

/// A component of an instance package: its uid, its patch document and its entry in the
/// component graph.
#[derive(Debug, PartialEq, Eq)]
pub struct Component {
    pub uid: String,
    pub patch: JsonValue,
    pub entry: JsonValue,
}

fn release_members(name: &str, uid: &str, version: &str) -> (r: Vec<(String, JsonValue)>)
    ensures
        members_view(r@) == release_json(name@, uid@, version@),
{
    let mut m: Vec<(String, JsonValue)> = Vec::new();
    push_member(&mut m, "formatVersion", JsonValue::Number("1".to_owned()));
    push_member(&mut m, "name", jstr(name));
    push_member(&mut m, "type", jstr("release"));
    push_member(&mut m, "uid", jstr(uid));
    push_member(&mut m, "version", jstr(version));
    assert(members_view(m@) =~= release_json(name@, uid@, version@));
    m
}

fn component_entry(name: &str, version: &str, uid: &str) -> (r: JsonValue)
    ensures
        r.view_json() == component_json(name@, version@, uid@),
{
    let mut m: Vec<(String, JsonValue)> = Vec::new();
    push_member(&mut m, "cachedName", jstr(name));
    push_member(&mut m, "cachedVersion", jstr(version));
    push_member(&mut m, "uid", jstr(uid));
    assert(members_view(m@) =~= seq![
        ("cachedName"@, Json::Str(name@)),
        ("cachedVersion"@, Json::Str(version@)),
        ("uid"@, Json::Str(uid@)),
    ]);
    JsonValue::Object(m)
}

/// The component of an extra library: a release patch that lists the library, and its
/// entry in the graph.
pub fn library_component(library: &ProfileJsonLibrary) -> (r: Result<Component, InstallError>)
    ensures
        component_parts(library.name@) is None ==> r matches Err(InstallError::Metadata(_)),
        component_parts(library.name@) matches Some((uid, name, version)) ==> (r matches Ok(c) && c.uid@ == uid
            && c.patch.view_json() == Json::Obj(
            release_json(name, uid, version).insert(
                1,
                ("libraries"@, Json::Arr(seq![crate::launch::library_json(library.name@, library.url@)])),
            ),
        ) && c.entry.view_json() == component_json(name, version, uid)),
{
    let s = library.name.as_str();
    let n = s.unicode_len();
    proof {
        lemma_index_of_from(s@, ':', 0);
        crate::text::lemma_last_index(s@, ':');
        reveal_strlit(".");
    }
    let first = find_char(s, ':', 0);
    let last = rfind_char(s, ':');
    let (first, last) = match (first, last) {
        (Some(f), Some(l)) => if f < l {
            (f, l)
        } else {
            return Err(InstallError::Metadata(concat("Library name is not a coordinate: ", s)));
        },
        _ => return Err(InstallError::Metadata(concat("Library name is not a coordinate: ", s))),
    };
    let uid = replace_char(s.substring_char(0, last), ':', ".");
    let name = s.substring_char(first + 1, last);
    let version = s.substring_char(last + 1, n);
    let mut m = release_members(name, uid.as_str(), version);
    let mut libs: Vec<JsonValue> = Vec::new();
    push_item(&mut libs, crate::launch::upgrade_json(library));
    assert(items_view(libs@) =~= seq![crate::launch::library_json(library.name@, library.url@)]);
    let ghost before = members_view(m@);
    let ghost old_m = m@;
    proof {
        crate::json::lemma_members_view(m@);
    }
    m.insert(1, ("libraries".to_owned(), JsonValue::Array(libs)));
    assert(m@.remove(1) =~= old_m);
    proof {
        lemma_members_view_insert(m@, before);
    }
    let entry = component_entry(name, version, uid.as_str());
    Ok(Component { uid, patch: JsonValue::Object(m), entry })
}

proof fn lemma_members_view_insert(m: Seq<(String, JsonValue)>, before: Seq<(Seq<char>, Json)>)
    requires
        m.len() >= 2,
        members_view(m.remove(1)) == before,
    ensures
        members_view(m) == before.insert(1, (m[1].0@, m[1].1.view_json())),
{
    crate::json::lemma_members_view(m);
    crate::json::lemma_members_view(m.remove(1));
    assert(members_view(m) =~= before.insert(1, (m[1].0@, m[1].1.view_json())));
}

} // verus!

verus! {

/// The LWJGL patch of an instance, needed only when LWJGL does not come from the
/// vanilla library server: its uid and its release patch.
pub fn lwjgl_component(lwjgl_url: &str, lwjgl_version: &str) -> (r: Option<(String, JsonValue)>)
    requires
        lwjgl_version@.len() > 0,
    ensures
        crate::text::is_prefix("https://libraries.minecraft.net"@, lwjgl_url@) <==> r is None,
        r matches Some((uid, patch)) ==> uid@ == lwjgl_uid_view(lwjgl_version@) && patch.view_json() == Json::Obj(
            release_json("LWJGL "@ + seq![lwjgl_version@[0]], lwjgl_uid_view(lwjgl_version@), lwjgl_version@),
        ),
{
    if starts_with(lwjgl_url, "https://libraries.minecraft.net") {
        return None;
    }
    let major = lwjgl_version.substring_char(0, 1);
    assert(major@ =~= seq![lwjgl_version@[0]]);
    let name = concat("LWJGL ", major);
    let uid = lwjgl_uid(lwjgl_version);
    let m = release_members(name.as_str(), uid, lwjgl_version);
    Some((uid.to_owned(), JsonValue::Object(m)))
}

pub open spec fn agent_patch_view(version: Seq<char>) -> Json {
    Json::Obj(
        release_json("Flap"@, "net.ornithemc.flap"@, version).push(
            (
                "+agents"@,
                Json::Arr(seq![crate::launch::library_json("net.ornithemc:flap:"@ + version, MAVEN_URL@)]),
            ),
        ),
    )
}

/// The component of the runtime agent, loaded from the Ornithe repository.
pub fn agent_component(flap_version: &str) -> (r: Component)
    ensures
        r.uid@ == "net.ornithemc.flap"@,
        r.patch.view_json() == agent_patch_view(flap_version@),
        r.entry.view_json() == component_json("Flap"@, flap_version@, "net.ornithemc.flap"@),
{
    let mut m = release_members("Flap", "net.ornithemc.flap", flap_version);
    let lib = ProfileJsonLibrary { name: concat("net.ornithemc:flap:", flap_version), url: MAVEN_URL.to_owned() };
    let mut agents: Vec<JsonValue> = Vec::new();
    push_item(&mut agents, crate::launch::upgrade_json(&lib));
    assert(items_view(agents@) =~= seq![crate::launch::library_json("net.ornithemc:flap:"@ + flap_version@, MAVEN_URL@)]);
    push_member(&mut m, "+agents", JsonValue::Array(agents));
    Component {
        uid: "net.ornithemc.flap".to_owned(),
        patch: JsonValue::Object(m),
        entry: component_entry("Flap", flap_version, "net.ornithemc.flap"),
    }
}

pub open spec fn name_or_empty(lib: Json) -> Seq<char> {
    match str_of(member(lib, "name"@)) {
        Some(n) => n,
        None => Seq::empty(),
    }
}

/// The vanilla libraries without the ASM ones, which the loader brings itself.
pub open spec fn kept_libraries(items: Seq<Json>) -> Seq<Json>
    decreases items.len(),
{
    if items.len() == 0 {
        Seq::empty()
    } else if contains_seq(name_or_empty(items.last()), "org.ow2.asm"@) {
        kept_libraries(items.drop_last())
    } else {
        kept_libraries(items.drop_last()).push(items.last())
    }
}

/// The game arguments of a modern descriptor, when it has some.
pub open spec fn game_args(v: Json) -> Option<Seq<Json>> {
    match member(v, "arguments"@) {
        Some(a) => match member(a, "game"@) {
            Some(Json::Arr(items)) => if items.len() > 0 {
                Some(items)
            } else {
                None
            },
            _ => None,
        },
        None => None,
    }
}

pub open spec fn text_or_empty(o: Option<Seq<char>>) -> Seq<char> {
    match o {
        Some(s) => s,
        None => Seq::empty(),
    }
}

pub open spec fn or_null(o: Option<Json>) -> Json {
    match o {
        Some(j) => j,
        None => Json::Null,
    }
}

pub open spec fn minecraft_arguments(v: Json) -> Seq<char> {
    match game_args(v) {
        Some(items) => spaced(string_items(items)),
        None => text_or_empty(str_of(member(v, "minecraftArguments"@))),
    }
}

pub open spec fn traits_of(v: Json) -> Seq<Json> {
    (if contains_seq(text_or_empty(str_of(member(v, "mainClass"@))), "launchwrapper"@) {
        seq![Json::Str("texturepacks"@)]
    } else {
        Seq::empty()
    }) + (if game_args(v) is Some {
        seq![Json::Str("FirstThreadOnMacOs"@)]
    } else {
        Seq::empty()
    })
}

pub open spec fn launch_jvm_args(launch: Json) -> Option<Json> {
    match member(launch, "arguments"@) {
        Some(a) => match member(a, "jvm"@) {
            Some(Json::Arr(items)) => Some(Json::Arr(items)),
            _ => None,
        },
        None => None,
    }
}

/// The members that every `net.minecraft` patch has.
pub open spec fn patch_base(version_id: Seq<char>, lwjgl_version: Seq<char>, v: Json, client: Json, libs: Seq<Json>) -> Seq<
    (Seq<char>, Json),
> {
    seq![
        ("assetIndex"@, or_null(member(v, "assetIndex"@))),
        ("compatibleJavaMajors"@, Json::Arr(seq![Json::Num("25"@), Json::Num("21"@), Json::Num("17"@), Json::Num("8"@)])),
        ("compatibleJavaName"@, Json::Str("java-runtime-epsilon"@)),
        ("formatVersion"@, Json::Num("1"@)),
        ("libraries"@, Json::Arr(kept_libraries(libs))),
        ("mainClass"@, or_null(member(v, "mainClass"@))),
        ("mainJar"@, Json::Obj(seq![
            ("downloads"@, Json::Obj(seq![("artifact"@, client)])),
            ("name"@, Json::Str("com.mojang:minecraft:"@ + version_id + ":client"@)),
        ])),
        ("minecraftArguments"@, Json::Str(minecraft_arguments(v))),
        ("name"@, Json::Str("Minecraft"@)),
        ("releaseTime"@, or_null(member(v, "releaseTime"@))),
        ("requires"@, Json::Arr(seq![Json::Obj(seq![
            ("suggests"@, Json::Str(lwjgl_version)),
            ("uid"@, Json::Str(lwjgl_uid_view(lwjgl_version))),
        ])])),
        ("type"@, or_null(member(v, "type"@))),
        ("uid"@, Json::Str("net.minecraft"@)),
        ("version"@, Json::Str(version_id)),
    ]
}

/// The `net.minecraft` patch of an instance, made from the vanilla descriptor.
pub open spec fn minecraft_patch_view(
    version_id: Seq<char>,
    lwjgl_version: Seq<char>,
    v: Json,
    launch: Json,
    client: Json,
    libs: Seq<Json>,
) -> Json {
    let base = patch_base(version_id, lwjgl_version, v, client, libs);
    let with_traits = if traits_of(v).len() > 0 {
        base.push(("+traits"@, Json::Arr(traits_of(v))))
    } else {
        base
    };
    Json::Obj(
        match launch_jvm_args(launch) {
            Some(j) => with_traits.push(("+jvmArgs"@, j)),
            None => with_traits,
        },
    )
}

fn cloned_or_null(v: Option<&JsonValue>) -> (r: JsonValue)
    ensures
        r.view_json() == or_null(match v {
            Some(x) => Some(x.view_json()),
            None => None,
        }),
{
    match v {
        Some(x) => x.deep_clone(),
        None => JsonValue::Null,
    }
}

fn join_spaced(parts: &Vec<String>) -> (r: String)
    ensures
        r@ == spaced(parts@.map_values(|s: String| s@)),
{
    let ghost pv = parts@.map_values(|s: String| s@);
    let mut r = String::new();
    let mut k: usize = 0;
    while k < parts.len()
        invariant
            k <= parts.len(),
            pv == parts@.map_values(|s: String| s@),
            r@ == spaced(pv.take(k as int)),
        decreases parts.len() - k,
    {
        proof {
            reveal_strlit(" ");
        }
        assert(pv.take(k + 1).drop_last() =~= pv.take(k as int));
        if k > 0 {
            r.append(" ");
        } else {
            assert(pv.take(1).len() == 1);
        }
        r.append(parts[k].as_str());
        assert(r@ =~= spaced(pv.take(k + 1)));
        k += 1;
    }
    assert(pv.take(parts.len() as int) =~= pv);
    r
}

fn text_items(items: &Vec<JsonValue>) -> (r: Vec<String>)
    ensures
        r@.map_values(|s: String| s@) == string_items(items_view(items@)),
{
    let ghost iv = items_view(items@);
    proof {
        lemma_items_view(items@);
    }
    let mut out: Vec<String> = Vec::new();
    let mut k: usize = 0;
    while k < items.len()
        invariant
            k <= items.len(),
            iv == items_view(items@),
            iv.len() == items.len(),
            forall|p: int| 0 <= p < items.len() ==> #[trigger] iv[p] == items@[p].view_json(),
            out@.map_values(|s: String| s@) == string_items(iv.take(k as int)),
        decreases items.len() - k,
    {
        assert(iv.take(k + 1).drop_last() =~= iv.take(k as int));
        assert(iv.take(k + 1).last() == iv[k as int]);
        match items[k].as_str() {
            Some(s) => {
                let ghost prev = out@;
                out.push(s.clone());
                assert(out@.map_values(|s: String| s@) =~= prev.map_values(|s: String| s@).push(s@));
            },
            None => {},
        }
        k += 1;
    }
    assert(iv.take(items.len() as int) =~= iv);
    out
}

fn kept_library_items(items: &Vec<JsonValue>) -> (r: Vec<JsonValue>)
    ensures
        items_view(r@) == kept_libraries(items_view(items@)),
{
    let ghost iv = items_view(items@);
    proof {
        lemma_items_view(items@);
    }
    let mut out: Vec<JsonValue> = Vec::new();
    let mut k: usize = 0;
    while k < items.len()
        invariant
            k <= items.len(),
            iv == items_view(items@),
            iv.len() == items.len(),
            forall|p: int| 0 <= p < items.len() ==> #[trigger] iv[p] == items@[p].view_json(),
            items_view(out@) == kept_libraries(iv.take(k as int)),
        decreases items.len() - k,
    {
        assert(iv.take(k + 1).drop_last() =~= iv.take(k as int));
        assert(iv.take(k + 1).last() == iv[k as int]);
        proof {
            reveal_strlit("");
        }
        let excluded = match items[k].get_str("name") {
            Some(n) => contains_str(n.as_str(), "org.ow2.asm"),
            None => contains_str("", "org.ow2.asm"),
        };
        assert(""@ =~= Seq::<char>::empty());
        assert(name_or_empty(iv[k as int]) == text_or_empty(str_of(member(items@[k as int].view_json(), "name"@))));
        assert(excluded == contains_seq(name_or_empty(iv[k as int]), "org.ow2.asm"@));
        if !excluded {
            push_item(&mut out, items[k].deep_clone());
        }
        k += 1;
    }
    assert(iv.take(items.len() as int) =~= iv);
    out
}

/// Builds the `net.minecraft` patch of an instance from the vanilla descriptor and the
/// loader's client descriptor; the vanilla descriptor must name a client download and
/// list its libraries.
pub fn minecraft_patch(version_id: &str, lwjgl_version: &str, vanilla: &JsonValue, launch: &JsonValue) -> (r: Result<
    JsonValue,
    InstallError,
>)
    requires
        lwjgl_version@.len() > 0,
    ensures
        ({
            let v = vanilla.view_json();
            let client = match member(v, "downloads"@) {
                Some(d) => member(d, "client"@),
                None => None,
            };
            match (client, member(v, "libraries"@)) {
                (Some(Json::Obj(c)), Some(Json::Arr(libs))) => r matches Ok(x) && x.view_json()
                    == minecraft_patch_view(version_id@, lwjgl_version@, v, launch.view_json(), Json::Obj(c), libs),
                _ => r matches Err(InstallError::Metadata(_)),
            }
        }),
{
    let client = match vanilla.get("downloads") {
        Some(d) => match d.get("client") {
            Some(c) => c,
            None => return Err(InstallError::Metadata("The vanilla descriptor has no client download".to_owned())),
        },
        None => return Err(InstallError::Metadata("The vanilla descriptor has no client download".to_owned())),
    };
    if !matches!(client, JsonValue::Object(_)) {
        return Err(InstallError::Metadata("The vanilla descriptor has no client download".to_owned()));
    }
    let libs = match vanilla.get("libraries") {
        Some(l) => match l.as_array() {
            Some(items) => items,
            None => return Err(InstallError::Metadata("The vanilla descriptor lists no libraries".to_owned())),
        },
        None => return Err(InstallError::Metadata("The vanilla descriptor lists no libraries".to_owned())),
    };
    let ghost v = vanilla.view_json();
    proof {
        reveal_strlit("");
    }
    let mut m: Vec<(String, JsonValue)> = Vec::new();
    assert(members_view(m@) =~= Seq::empty());
    push_member(&mut m, "assetIndex", cloned_or_null(vanilla.get("assetIndex")));
    let mut majors: Vec<JsonValue> = Vec::new();
    assert(items_view(majors@) =~= Seq::empty());
    push_item(&mut majors, JsonValue::Number("25".to_owned()));
    push_item(&mut majors, JsonValue::Number("21".to_owned()));
    push_item(&mut majors, JsonValue::Number("17".to_owned()));
    push_item(&mut majors, JsonValue::Number("8".to_owned()));
    assert(items_view(majors@) =~= seq![Json::Num("25"@), Json::Num("21"@), Json::Num("17"@), Json::Num("8"@)]);
    push_member(&mut m, "compatibleJavaMajors", JsonValue::Array(majors));
    push_member(&mut m, "compatibleJavaName", jstr("java-runtime-epsilon"));
    push_member(&mut m, "formatVersion", JsonValue::Number("1".to_owned()));
    push_member(&mut m, "libraries", JsonValue::Array(kept_library_items(libs)));
    push_member(&mut m, "mainClass", cloned_or_null(vanilla.get("mainClass")));
    let mut downloads: Vec<(String, JsonValue)> = Vec::new();
    assert(members_view(downloads@) =~= Seq::empty());
    push_member(&mut downloads, "artifact", client.deep_clone());
    let mut main_jar: Vec<(String, JsonValue)> = Vec::new();
    assert(members_view(main_jar@) =~= Seq::empty());
    push_member(&mut main_jar, "downloads", JsonValue::Object(downloads));
    let mut client_name = concat("com.mojang:minecraft:", version_id);
    client_name.append(":client");
    push_member(&mut main_jar, "name", JsonValue::Str(client_name));
    assert(members_view(main_jar@) =~= seq![
        ("downloads"@, Json::Obj(seq![("artifact"@, client.view_json())])),
        ("name"@, Json::Str("com.mojang:minecraft:"@ + version_id@ + ":client"@)),
    ]);
    push_member(&mut m, "mainJar", JsonValue::Object(main_jar));
    let game: Option<&Vec<JsonValue>> = match vanilla.get("arguments") {
        Some(a) => match a.get("game") {
            Some(g) => match g.as_array() {
                Some(items) => if items.len() > 0 {
                    Some(items)
                } else {
                    None
                },
                None => None,
            },
            None => None,
        },
        None => None,
    };
    assert(game is Some <==> game_args(v) is Some);
    assert(game matches Some(items) ==> game_args(v) == Some(items_view(items@)));
    let arguments = match game {
        Some(items) => join_spaced(&text_items(items)),
        None => match vanilla.get_str("minecraftArguments") {
            Some(s) => s.clone(),
            None => String::new(),
        },
    };
    push_member(&mut m, "minecraftArguments", JsonValue::Str(arguments));
    push_member(&mut m, "name", jstr("Minecraft"));
    push_member(&mut m, "releaseTime", cloned_or_null(vanilla.get("releaseTime")));
    let mut req: Vec<(String, JsonValue)> = Vec::new();
    assert(members_view(req@) =~= Seq::empty());
    push_member(&mut req, "suggests", jstr(lwjgl_version));
    push_member(&mut req, "uid", jstr(lwjgl_uid(lwjgl_version)));
    assert(members_view(req@) =~= seq![
        ("suggests"@, Json::Str(lwjgl_version@)),
        ("uid"@, Json::Str(lwjgl_uid_view(lwjgl_version@))),
    ]);
    let mut needs: Vec<JsonValue> = Vec::new();
    assert(items_view(needs@) =~= Seq::empty());
    push_item(&mut needs, JsonValue::Object(req));
    assert(items_view(needs@) =~= seq![Json::Obj(seq![
        ("suggests"@, Json::Str(lwjgl_version@)),
        ("uid"@, Json::Str(lwjgl_uid_view(lwjgl_version@))),
    ])]);
    push_member(&mut m, "requires", JsonValue::Array(needs));
    push_member(&mut m, "type", cloned_or_null(vanilla.get("type")));
    push_member(&mut m, "uid", jstr("net.minecraft"));
    push_member(&mut m, "version", jstr(version_id));
    assert(members_view(m@) =~= patch_base(version_id@, lwjgl_version@, v, client.view_json(), items_view(libs@)));
    let mut traits: Vec<JsonValue> = Vec::new();
    assert(items_view(traits@) =~= Seq::empty());
    let launchwrapper = match vanilla.get_str("mainClass") {
        Some(c) => contains_str(c.as_str(), "launchwrapper"),
        None => contains_str("", "launchwrapper"),
    };
    assert("".view() =~= Seq::<char>::empty());
    assert(launchwrapper == contains_seq(text_or_empty(str_of(member(v, "mainClass"@))), "launchwrapper"@));
    if launchwrapper {
        push_item(&mut traits, jstr("texturepacks"));
    }
    if game.is_some() {
        push_item(&mut traits, jstr("FirstThreadOnMacOs"));
    }
    assert(items_view(traits@) =~= traits_of(v));
    if traits.len() > 0 {
        push_member(&mut m, "+traits", JsonValue::Array(traits));
    }
    let jvm = match launch.get("arguments") {
        Some(a) => match a.get("jvm") {
            Some(j) => match j {
                JsonValue::Array(_) => Some(j.deep_clone()),
                _ => None,
            },
            None => None,
        },
        None => None,
    };
    match jvm {
        Some(j) => push_member(&mut m, "+jvmArgs", j),
        None => {},
    }
    let r = JsonValue::Object(m);
    assert(r.view_json() =~~= minecraft_patch_view(
        version_id@,
        lwjgl_version@,
        v,
        launch.view_json(),
        client.view_json(),
        crate::json::items_view(libs@),
    ));
    Ok(r)
}

} // verus!

verus! {

/// The component graph with `entries` appended to its `components` array; `None` when
/// the graph has no such array.
pub open spec fn with_components(pack: Json, entries: Seq<Json>) -> Option<Json> {
    match (pack, member(pack, "components"@)) {
        (Json::Obj(m), Some(Json::Arr(items))) => Some(
            Json::Obj(crate::json::set_member(m, "components"@, Json::Arr(items + entries))),
        ),
        _ => None,
    }
}

/// Appends component entries to the `components` array of an instance's component graph.
pub fn append_components(pack: &JsonValue, entries: &Vec<JsonValue>) -> (r: Result<JsonValue, InstallError>)
    ensures
        match with_components(pack.view_json(), items_view(entries@)) {
            Some(j) => r matches Ok(x) && x.view_json() == j,
            None => r matches Err(InstallError::Metadata(_)),
        },
{
    if !matches!(pack, JsonValue::Object(_)) {
        return Err(InstallError::Metadata("The component graph is not an object".to_owned()));
    }
    let items = match pack.get("components") {
        Some(c) => match c.as_array() {
            Some(items) => items,
            None => return Err(InstallError::Metadata("The component graph has no components".to_owned())),
        },
        None => return Err(InstallError::Metadata("The component graph has no components".to_owned())),
    };
    let mut out = array_items(pack.get("components").unwrap());
    let ghost start = items_view(out@);
    let ghost ev = items_view(entries@);
    proof {
        lemma_items_view(entries@);
    }
    let mut k: usize = 0;
    while k < entries.len()
        invariant
            k <= entries.len(),
            ev == items_view(entries@),
            ev.len() == entries.len(),
            forall|p: int| 0 <= p < entries.len() ==> #[trigger] ev[p] == entries@[p].view_json(),
            items_view(out@) == start + ev.take(k as int),
        decreases entries.len() - k,
    {
        push_item(&mut out, entries[k].deep_clone());
        assert(start + ev.take(k + 1) =~= (start + ev.take(k as int)).push(ev[k as int]));
        k += 1;
    }
    assert(ev.take(entries.len() as int) =~= ev);
    let mut m = crate::launch::object_members(pack);
    crate::json::put_member(&mut m, "components".to_owned(), JsonValue::Array(out));
    Ok(JsonValue::Object(m))
}

/// The download URL of the first library of the vanilla descriptor whose name starts
/// with `prefix`.
pub open spec fn library_url(items: Seq<Json>, prefix: Seq<char>) -> Option<Seq<char>>
    decreases items.len(),
{
    if items.len() == 0 {
        None
    } else if crate::text::is_prefix(prefix, name_or_empty(items[0])) {
        let artifact = match member(items[0], "downloads"@) {
            Some(d) => member(d, "artifact"@),
            None => None,
        };
        match artifact {
            Some(a) => str_of(member(a, "url"@)),
            None => None,
        }
    } else {
        library_url(items.skip(1), prefix)
    }
}

/// Where the vanilla descriptor fetches LWJGL from: the download URL of its first
/// `org.lwjgl.lwjgl:lwjgl:` library.
pub fn lwjgl_url(vanilla: &JsonValue) -> (r: Option<String>)
    ensures
        match member(vanilla.view_json(), "libraries"@) {
            Some(Json::Arr(items)) => text_of(r) == library_url(items, "org.lwjgl.lwjgl:lwjgl:"@),
            _ => r is None,
        },
{
    let items = match vanilla.get("libraries") {
        Some(l) => match l.as_array() {
            Some(items) => items,
            None => return None,
        },
        None => return None,
    };
    let ghost iv = items_view(items@);
    proof {
        lemma_items_view(items@);
        assert(iv.skip(0) =~= iv);
        reveal_strlit("");
    }
    let mut k: usize = 0;
    while k < items.len()
        invariant
            k <= items.len(),
            iv == items_view(items@),
            iv.len() == items.len(),
            forall|p: int| 0 <= p < items.len() ==> #[trigger] iv[p] == items@[p].view_json(),
            library_url(iv.skip(k as int), "org.lwjgl.lwjgl:lwjgl:"@) == library_url(iv, "org.lwjgl.lwjgl:lwjgl:"@),
            member(vanilla.view_json(), "libraries"@) == Some(Json::Arr(iv)),
        decreases items.len() - k,
    {
        assert(iv.skip(k as int)[0] == iv[k as int]);
        assert(iv.skip(k as int).skip(1) =~= iv.skip(k + 1));
        let lib = &items[k];
        let name: &str = match lib.get_str("name") {
            Some(n) => n.as_str(),
            None => "",
        };
        proof {
            reveal_strlit("");
        }
        assert(name@ == name_or_empty(iv[k as int]));
        if starts_with(name, "org.lwjgl.lwjgl:lwjgl:") {
            let url = match lib.get("downloads") {
                Some(d) => match d.get("artifact") {
                    Some(a) => match a.get_str("url") {
                        Some(u) => Some(u.clone()),
                        None => None,
                    },
                    None => None,
                },
                None => None,
            };
            return url;
        }
        k += 1;
    }
    None
}

} // verus!

verus! {

/// The LWJGL patch of an instance from the vanilla descriptor: none when the descriptor
/// names no LWJGL download (it then comes with the vanilla libraries), else as
/// `lwjgl_component` decides from the download's URL.
pub fn vanilla_lwjgl_component(vanilla: &JsonValue, lwjgl_version: &str) -> (r: Option<(String, JsonValue)>)
    requires
        lwjgl_version@.len() > 0,
    ensures
        ({
            let url = match member(vanilla.view_json(), "libraries"@) {
                Some(Json::Arr(items)) => library_url(items, "org.lwjgl.lwjgl:lwjgl:"@),
                _ => None,
            };
            match url {
                None => r is None,
                Some(u) => (crate::text::is_prefix("https://libraries.minecraft.net"@, u) <==> r is None) && (
                r matches Some((uid, patch)) ==> uid@ == lwjgl_uid_view(lwjgl_version@) && patch.view_json()
                    == Json::Obj(
                    release_json("LWJGL "@ + seq![lwjgl_version@[0]], lwjgl_uid_view(lwjgl_version@), lwjgl_version@),
                )),
            }
        }),
{
    match lwjgl_url(vanilla) {
        Some(u) => lwjgl_component(u.as_str(), lwjgl_version),
        None => None,
    }
}

} // verus!

verus! {

/// One step of writing an instance package, to a directory or into an archive.
#[derive(Debug, PartialEq, Eq)]
pub enum PackageEntry {
    /// A text file.
    Text(String, String),
    /// A binary file.
    Bytes(String, Vec<u8>),
    /// A directory.
    Dir(String),
    /// A JSON document, compact.
    Json(String, JsonValue),
    /// A JSON document, indented.
    PrettyJson(String, JsonValue),
}

/// Model of a `PackageEntry`.
pub enum EntryView {
    Text(Seq<char>, Seq<char>),
    Bytes(Seq<char>, Seq<u8>),
    Dir(Seq<char>),
    Json(Seq<char>, Json),
    PrettyJson(Seq<char>, Json),
}

impl PackageEntry {
    pub open spec fn entry_view(&self) -> EntryView {
        match self {
            PackageEntry::Text(p, t) => EntryView::Text(p@, t@),
            PackageEntry::Bytes(p, b) => EntryView::Bytes(p@, b@),
            PackageEntry::Dir(p) => EntryView::Dir(p@),
            PackageEntry::Json(p, j) => EntryView::Json(p@, j.view_json()),
            PackageEntry::PrettyJson(p, j) => EntryView::PrettyJson(p@, j.view_json()),
        }
    }
}

pub open spec fn entries_view(v: Seq<PackageEntry>) -> Seq<EntryView> {
    v.map_values(|e: PackageEntry| e.entry_view())
}

pub open spec fn patch_path(uid: Seq<char>) -> Seq<char> {
    "patches/"@ + uid + ".json"@
}

/// The uid, patch and graph entry of an extra library, as `library_component` makes them.
pub open spec fn library_patch(lib: ProfileJsonLibrary) -> Option<(Seq<char>, Json, Json)> {
    match component_parts(lib.name@) {
        Some((uid, name, version)) => Some(
            (
                uid,
                Json::Obj(
                    release_json(name, uid, version).insert(
                        1,
                        ("libraries"@, Json::Arr(seq![crate::launch::library_json(lib.name@, lib.url@)])),
                    ),
                ),
                component_json(name, version, uid),
            ),
        ),
        None => None,
    }
}

/// The patch files and graph entries of the extra libraries, in order; `None` when one
/// of them is not a coordinate.
pub open spec fn library_entries(libs: Seq<ProfileJsonLibrary>) -> Option<(Seq<EntryView>, Seq<Json>)>
    decreases libs.len(),
{
    if libs.len() == 0 {
        Some((Seq::empty(), Seq::empty()))
    } else {
        match (library_entries(libs.drop_last()), library_patch(libs.last())) {
            (Some((es, cs)), Some((uid, patch, entry))) => Some(
                (es.push(EntryView::Json(patch_path(uid), patch)), cs.push(entry)),
            ),
            _ => None,
        }
    }
}

proof fn lemma_library_entries_none(libs: Seq<ProfileJsonLibrary>, k: int)
    requires
        0 <= k <= libs.len(),
        library_entries(libs.take(k)) is None,
    ensures
        library_entries(libs) is None,
    decreases libs.len() - k,
{
    if k < libs.len() {
        assert(libs.take(k + 1).drop_last() =~= libs.take(k));
        lemma_library_entries_none(libs, k + 1);
    } else {
        assert(libs.take(k) =~= libs);
    }
}

pub open spec fn lwjgl_entries(lwjgl: Option<(String, JsonValue)>) -> Seq<EntryView> {
    match lwjgl {
        Some((uid, patch)) => seq![EntryView::Json(patch_path(uid@), patch.view_json())],
        None => Seq::empty(),
    }
}

pub open spec fn agent_entry_view(flap_version: Seq<char>) -> Json {
    component_json("Flap"@, flap_version, "net.ornithemc.flap"@)
}

/// The files of an instance package, in the order they are written.
pub open spec fn package_view(
    instance_cfg: Seq<char>,
    icon: Seq<u8>,
    intermediary_patch: Seq<char>,
    minecraft: Json,
    libs: Seq<EntryView>,
    lwjgl: Seq<EntryView>,
    flap_version: Seq<char>,
    pack: Json,
) -> Seq<EntryView> {
    seq![
        EntryView::Text("instance.cfg"@, instance_cfg),
        EntryView::Bytes("ornithe.png"@, icon),
        EntryView::Dir("patches"@),
        EntryView::Text("patches/net.fabricmc.intermediary.json"@, intermediary_patch),
        EntryView::PrettyJson("patches/net.minecraft.json"@, minecraft),
    ] + libs + lwjgl + seq![
        EntryView::Json("patches/net.ornithemc.flap.json"@, agent_patch_view(flap_version)),
        EntryView::PrettyJson("mmc-pack.json"@, pack),
    ]
}

fn push_entry(v: &mut Vec<PackageEntry>, e: PackageEntry)
    ensures
        entries_view(final(v)@) == entries_view(old(v)@).push(e.entry_view()),
{
    let ghost before = v@;
    v.push(e);
    assert(entries_view(v@) =~= entries_view(before).push(e.entry_view()));
}

/// Plans an instance package: its configuration, icon, the mapping and game patches, one
/// patch per extra library, the LWJGL patch when there is one, the agent's patch, and the
/// component graph with the libraries' and the agent's entries appended.
pub fn plan_instance_package(
    instance_cfg: String,
    icon: Vec<u8>,
    intermediary_patch: String,
    minecraft: JsonValue,
    extra_libs: &Vec<ProfileJsonLibrary>,
    lwjgl: Option<(String, JsonValue)>,
    flap_version: &str,
    pack: &JsonValue,
) -> (r: Result<Vec<PackageEntry>, InstallError>)
    ensures
        match library_entries(extra_libs@) {
            None => r matches Err(InstallError::Metadata(_)),
            Some((es, cs)) => match with_components(pack.view_json(), cs.push(agent_entry_view(flap_version@))) {
                None => r matches Err(InstallError::Metadata(_)),
                Some(p) => r matches Ok(v) && entries_view(v@) == package_view(
                    instance_cfg@,
                    icon@,
                    intermediary_patch@,
                    minecraft.view_json(),
                    es,
                    lwjgl_entries(lwjgl),
                    flap_version@,
                    p,
                ),
            },
        },
{
    let ghost cfg_v = instance_cfg@;
    let ghost icon_v = icon@;
    let ghost patch_v = intermediary_patch@;
    let ghost mc_v = minecraft.view_json();
    let ghost lwjgl_v = lwjgl_entries(lwjgl);
    let mut out: Vec<PackageEntry> = Vec::new();
    assert(entries_view(out@) =~= Seq::empty());
    push_entry(&mut out, PackageEntry::Text("instance.cfg".to_owned(), instance_cfg));
    push_entry(&mut out, PackageEntry::Bytes("ornithe.png".to_owned(), icon));
    push_entry(&mut out, PackageEntry::Dir("patches".to_owned()));
    push_entry(&mut out, PackageEntry::Text("patches/net.fabricmc.intermediary.json".to_owned(), intermediary_patch));
    push_entry(&mut out, PackageEntry::PrettyJson("patches/net.minecraft.json".to_owned(), minecraft));
    let ghost head = entries_view(out@);
    let mut entries: Vec<JsonValue> = Vec::new();
    assert(items_view(entries@) =~= Seq::empty());
    assert(extra_libs@.take(0) =~= Seq::<ProfileJsonLibrary>::empty());
    let mut k: usize = 0;
    while k < extra_libs.len()
        invariant
            k <= extra_libs.len(),
            library_entries(extra_libs@.take(k as int)) matches Some((es, cs)) && entries_view(out@) == head + es
                && items_view(entries@) == cs,
        decreases extra_libs.len() - k,
    {
        let ghost prev = extra_libs@.take(k as int);
        assert(extra_libs@.take(k + 1).drop_last() =~= prev);
        assert(extra_libs@.take(k + 1).last() == extra_libs@[k as int]);
        match library_component(&extra_libs[k]) {
            Ok(c) => {
                let ghost es = (library_entries(prev)->0).0;
                let path = concat(concat("patches/", c.uid.as_str()).as_str(), ".json");
                push_entry(&mut out, PackageEntry::Json(path, c.patch));
                push_item(&mut entries, c.entry);
                assert(head + es.push(EntryView::Json(patch_path(c.uid@), c.patch.view_json())) =~= (head + es).push(
                    EntryView::Json(patch_path(c.uid@), c.patch.view_json()),
                ));
            },
            Err(e) => {
                proof {
                    lemma_library_entries_none(extra_libs@, k + 1);
                }
                return Err(e);
            },
        }
        k += 1;
    }
    assert(extra_libs@.take(extra_libs.len() as int) =~= extra_libs@);
    let ghost with_libs = entries_view(out@);
    match lwjgl {
        Some((uid, patch)) => {
            let path = concat(concat("patches/", uid.as_str()).as_str(), ".json");
            push_entry(&mut out, PackageEntry::Json(path, patch));
        },
        None => {},
    }
    assert(entries_view(out@) =~= with_libs + lwjgl_v);
    let agent = agent_component(flap_version);
    push_entry(&mut out, PackageEntry::Json("patches/net.ornithemc.flap.json".to_owned(), agent.patch));
    push_item(&mut entries, agent.entry);
    let graph = append_components(pack, &entries)?;
    push_entry(&mut out, PackageEntry::PrettyJson("mmc-pack.json".to_owned(), graph));
    proof {
        let es = (library_entries(extra_libs@)->0).0;
        assert(entries_view(out@) =~= package_view(
            cfg_v,
            icon_v,
            patch_v,
            mc_v,
            es,
            lwjgl_v,
            flap_version@,
            graph.view_json(),
        ));
    }
    Ok(out)
}

} // verus!

verus! {

impl PackageEntry {
    pub open spec fn path_view(&self) -> Seq<char> {
        match self {
            PackageEntry::Text(p, _) => p@,
            PackageEntry::Bytes(p, _) => p@,
            PackageEntry::Dir(p) => p@,
            PackageEntry::Json(p, _) => p@,
            PackageEntry::PrettyJson(p, _) => p@,
        }
    }

    /// Where the entry goes in the package.
    pub fn path(&self) -> (r: &String)
        ensures
            r@ == self.path_view(),
    {
        match self {
            PackageEntry::Text(p, _) => p,
            PackageEntry::Bytes(p, _) => p,
            PackageEntry::Dir(p) => p,
            PackageEntry::Json(p, _) => p,
            PackageEntry::PrettyJson(p, _) => p,
        }
    }
}

/// Whether a later write goes to the same path as write `i`.
pub open spec fn overwritten(paths: Seq<Seq<char>>, i: int) -> bool {
    exists|j: int| i < j < paths.len() && paths[j] == paths[i]
}

pub open spec fn paths_of(entries: Seq<PackageEntry>) -> Seq<Seq<char>> {
    entries.map_values(|e: PackageEntry| e.path_view())
}

/// The kept writes go to distinct paths.
pub open spec fn kept_distinct(ps: Seq<Seq<char>>, keep: Seq<bool>) -> bool {
    forall|i: int, j: int|
        #![trigger keep[i], keep[j]]
        0 <= i < j < ps.len() && keep[i] && keep[j] ==> ps[i] != ps[j]
}

/// A kept write at or after write `i` goes to the same path.
pub open spec fn kept_after(ps: Seq<Seq<char>>, keep: Seq<bool>, i: int) -> bool {
    exists|j: int| #![trigger keep[j]] i <= j < ps.len() && keep[j] && ps[j] == ps[i]
}

/// Each written path has one kept write, at or after any write to it.
pub open spec fn kept_last(ps: Seq<Seq<char>>, keep: Seq<bool>) -> bool {
    forall|i: int| 0 <= i < ps.len() ==> #[trigger] kept_after(ps, keep, i)
}

/// The kept writes go to distinct paths, and each written path has one kept write, at or
/// after any write to it.
pub open spec fn keeps_last_writes(ps: Seq<Seq<char>>, keep: Seq<bool>) -> bool {
    kept_distinct(ps, keep) && kept_last(ps, keep)
}

proof fn lemma_keeps_last_writes(ps: Seq<Seq<char>>, keep: Seq<bool>)
    requires
        keep.len() == ps.len(),
        forall|i: int| 0 <= i < ps.len() ==> #[trigger] keep[i] == !overwritten(ps, i),
    ensures
        keeps_last_writes(ps, keep),
{
    assert forall|i: int| 0 <= i < ps.len() implies #[trigger] kept_after(ps, keep, i) by {
        lemma_last_write(ps, i);
        let j = choose|j: int| i <= j < ps.len() && ps[j] == ps[i] && !overwritten(ps, j);
        assert(keep[j]);
        assert(i <= j < ps.len() && keep[j] && ps[j] == ps[i]);
    }
    assert forall|i: int, j: int|
        #![trigger keep[i], keep[j]]
        0 <= i < j < ps.len() && keep[i] && keep[j] implies ps[i] != ps[j] by {
        if ps[i] == ps[j] {
            assert(i < j < ps.len() && ps[j] == ps[i]);
            assert(overwritten(ps, i));
            assert(!keep[i]);
        }
    }
    assert(kept_distinct(ps, keep));
    assert(kept_last(ps, keep));
}

/// Which writes of a sequence take effect when each write to a path replaces the earlier
/// ones: the last write to each path.
pub fn last_writes(entries: &Vec<PackageEntry>) -> (r: Vec<bool>)
    ensures
        r.len() == entries.len(),
        forall|i: int| 0 <= i < entries.len() ==> r@[i] == !overwritten(paths_of(entries@), i),
        keeps_last_writes(paths_of(entries@), r@),
{
    let ghost ps = paths_of(entries@);
    let mut keep: Vec<bool> = Vec::new();
    let mut i: usize = 0;
    while i < entries.len()
        invariant
            i <= entries.len(),
            keep.len() == i,
            ps == paths_of(entries@),
            forall|p: int| 0 <= p < i ==> keep@[p] == !overwritten(ps, p),
        decreases entries.len() - i,
    {
        let mut later = false;
        let mut j: usize = i + 1;
        while j < entries.len()
            invariant
                i < entries.len(),
                i + 1 <= j <= entries.len(),
                ps == paths_of(entries@),
                later == exists|q: int| i < q < j && ps[q] == ps[i as int],
            decreases entries.len() - j,
        {
            proof {
                assert(ps[j as int] == entries@[j as int].path_view());
                assert(ps[i as int] == entries@[i as int].path_view());
            }
            if *entries[j].path() == *entries[i].path() {
                later = true;
            }
            j += 1;
        }
        keep.push(!later);
        i += 1;
    }
    proof {
        lemma_keeps_last_writes(ps, keep@);
    }
    keep
}

proof fn lemma_last_write(ps: Seq<Seq<char>>, i: int)
    requires
        0 <= i < ps.len(),
    ensures
        exists|j: int| i <= j < ps.len() && ps[j] == ps[i] && !overwritten(ps, j),
    decreases ps.len() - i,
{
    if overwritten(ps, i) {
        let j = choose|j: int| i < j < ps.len() && ps[j] == ps[i];
        lemma_last_write(ps, j);
    } else {
        assert(ps[i] == ps[i]);
    }
}

} // verus!
