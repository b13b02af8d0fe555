use vstd::prelude::*;
use crate::error::InstallError;
use crate::text::text_of;
use crate::jar_manifest::{attribute_value, read_manifest_attribute};
use crate::json::{Json, JsonValue, items_view, jstr, lemma_items_push, lemma_items_view, member, members_view, str_of};
use crate::launch::{FABRIC_SERVER_LAUNCHER, array_items};
use crate::meta::{LoaderType, ProfileJsonLibrary};
use crate::text::{concat, equals, is_prefix, starts_with};

verus! {

/// What a server installation takes from the server launch descriptor.
#[derive(Debug, Clone, PartialEq, Eq)]
pub struct ServerLaunch {
    /// The loader's own main class (Fabric only; empty for Quilt).
    pub main_class: String,
    /// The class that the launcher starts.
    pub launch_main_class: String,
    pub jvm_args: Vec<String>,
    pub libraries: Vec<ProfileJsonLibrary>,
    /// The last Fabric loader library, whose manifest names the true main class.
    pub fabric_loader: Option<String>,
}

/// The string items of a JSON array, in order.
pub open spec fn string_items(items: Seq<Json>) -> Seq<Seq<char>>
    decreases items.len(),
{
    if items.len() == 0 {
        Seq::empty()
    } else {
        match items.last() {
            Json::Str(s) => string_items(items.drop_last()).push(s),
            _ => string_items(items.drop_last()),
        }
    }
}

/// The name and the repository of each library entry, or `None` when one lacks either.
pub open spec fn library_pairs(items: Seq<Json>) -> Option<Seq<(Seq<char>, Seq<char>)>>
    decreases items.len(),
{
    if items.len() == 0 {
        Some(Seq::empty())
    } else {
        match library_pairs(items.drop_last()) {
            Some(r) => match (str_of(member(items.last(), "name"@)), str_of(member(items.last(), "url"@))) {
                (Some(n), Some(u)) => Some(r.push((n, u))),
                _ => None,
            },
            None => None,
        }
    }
}

pub open spec fn is_fabric_loader(name: Seq<char>) -> bool {
    is_prefix("net.fabricmc:fabric-loader:"@, name)
}

/// The last library named as a Fabric loader.
pub open spec fn last_fabric_loader(pairs: Seq<(Seq<char>, Seq<char>)>) -> Option<Seq<char>>
    decreases pairs.len(),
{
    if pairs.len() == 0 {
        None
    } else if is_fabric_loader(pairs.last().0) {
        Some(pairs.last().0)
    } else {
        last_fabric_loader(pairs.drop_last())
    }
}

pub open spec fn jvm_items(j: Json) -> Seq<Json> {
    match member(j, "arguments"@) {
        Some(a) => match member(a, "jvm"@) {
            Some(Json::Arr(items)) => items,
            _ => Seq::empty(),
        },
        None => Seq::empty(),
    }
}

pub open spec fn libraries_view(libs: Seq<ProfileJsonLibrary>) -> Seq<(Seq<char>, Seq<char>)> {
    libs.map_values(|l: ProfileJsonLibrary| (l.name@, l.url@))
}

pub open spec fn main_class_key(loader: LoaderType) -> Seq<char> {
    match loader {
        LoaderType::Fabric => "mainClass"@,
        LoaderType::Quilt => "launcherMainClass"@,
    }
}

/// Whether the descriptor holds all that a server installation needs.
pub open spec fn server_launch_ok(j: Json, loader: LoaderType) -> bool {
    &&& j is Obj
    &&& str_of(member(j, main_class_key(loader))) is Some
    &&& member(j, "libraries"@) matches Some(Json::Arr(items)) && library_pairs(items) is Some
}

fn string_list(items: &Vec<JsonValue>) -> (r: Vec<String>)
    ensures
        r@.map_values(|s: String| s@) == string_items(items_view(items@)),
{
    let ghost iv = items_view(items@);
    proof {
        lemma_items_view(items@);
    }
    let mut out: Vec<String> = Vec::new();
    let mut k: usize = 0;
    while k < items.len()
        invariant
            k <= items.len(),
            iv == items_view(items@),
            iv.len() == items.len(),
            forall|p: int| 0 <= p < items.len() ==> #[trigger] iv[p] == items@[p].view_json(),
            out@.map_values(|s: String| s@) == string_items(iv.take(k as int)),
        decreases items.len() - k,
    {
        assert(iv.take(k + 1).drop_last() =~= iv.take(k as int));
        assert(iv.take(k + 1).last() == iv[k as int]);
        match items[k].as_str() {
            Some(s) => {
                let ghost prev = out@;
                out.push(s.clone());
                assert(out@.map_values(|s: String| s@) =~= prev.map_values(|s: String| s@).push(s@));
            },
            None => {},
        }
        k += 1;
    }
    assert(iv.take(items.len() as int) =~= iv);
    out
}

fn library_list(items: &Vec<JsonValue>) -> (r: Result<Vec<ProfileJsonLibrary>, InstallError>)
    ensures
        match library_pairs(items_view(items@)) {
            Some(p) => r matches Ok(l) && libraries_view(l@) == p,
            None => r matches Err(InstallError::Metadata(_)),
        },
{
    let ghost iv = items_view(items@);
    proof {
        lemma_items_view(items@);
    }
    let mut out: Vec<ProfileJsonLibrary> = Vec::new();
    let mut k: usize = 0;
    while k < items.len()
        invariant
            k <= items.len(),
            iv == items_view(items@),
            iv.len() == items.len(),
            forall|p: int| 0 <= p < items.len() ==> #[trigger] iv[p] == items@[p].view_json(),
            library_pairs(iv.take(k as int)) == Some(libraries_view(out@)),
        decreases items.len() - k,
    {
        assert(iv.take(k + 1).drop_last() =~= iv.take(k as int));
        assert(iv.take(k + 1).last() == iv[k as int]);
        let name = match items[k].get_str("name") {
            Some(n) => n.clone(),
            None => {
                proof {
                    lemma_pairs_stay_none(iv, k as int + 1);
                }
                return Err(InstallError::Metadata("Library had no name!".to_owned()));
            },
        };
        let url = match items[k].get_str("url") {
            Some(u) => u.clone(),
            None => {
                proof {
                    lemma_pairs_stay_none(iv, k as int + 1);
                }
                return Err(InstallError::Metadata("Library had no url!".to_owned()));
            },
        };
        let ghost prev = out@;
        let lib = ProfileJsonLibrary { name, url };
        out.push(lib);
        assert(libraries_view(out@) =~= libraries_view(prev).push((lib.name@, lib.url@)));
        k += 1;
    }
    assert(iv.take(items.len() as int) =~= iv);
    Ok(out)
}

proof fn lemma_pairs_stay_none(items: Seq<Json>, k: int)
    requires
        0 <= k <= items.len(),
        library_pairs(items.take(k)) is None,
    ensures
        library_pairs(items) is None,
    decreases items.len() - k,
{
    if k < items.len() {
        assert(items.take(k + 1).drop_last() =~= items.take(k));
        lemma_pairs_stay_none(items, k + 1);
    } else {
        assert(items.take(k) =~= items);
    }
}

fn fabric_loader_in(libs: &Vec<ProfileJsonLibrary>) -> (r: Option<String>)
    ensures
        last_fabric_loader(libraries_view(libs@)) == match r {
            Some(s) => Some(s@),
            None => None::<Seq<char>>,
        },
{
    let ghost lv = libraries_view(libs@);
    let mut k: usize = libs.len();
    while k > 0
        invariant
            k <= libs.len(),
            lv == libraries_view(libs@),
            forall|p: int| k <= p < libs.len() ==> !is_fabric_loader(#[trigger] libs@[p].name@),
        decreases k,
    {
        if starts_with(libs[k - 1].name.as_str(), "net.fabricmc:fabric-loader:") {
            proof {
                lemma_last_fabric_loader(lv, k as int);
            }
            return Some(libs[k - 1].name.clone());
        }
        k -= 1;
    }
    proof {
        lemma_last_fabric_loader(lv, 0);
    }
    None
}

proof fn lemma_last_fabric_loader(pairs: Seq<(Seq<char>, Seq<char>)>, k: int)
    requires
        0 <= k <= pairs.len(),
        forall|p: int| k <= p < pairs.len() ==> !is_fabric_loader(#[trigger] pairs[p].0),
    ensures
        k > 0 && is_fabric_loader(pairs[k - 1].0) ==> last_fabric_loader(pairs) == Some(pairs[k - 1].0),
        k == 0 ==> last_fabric_loader(pairs) is None,
    decreases pairs.len(),
{
    if pairs.len() > 0 && pairs.len() > k {
        let d = pairs.drop_last();
        assert forall|p: int| k <= p < d.len() implies !is_fabric_loader(#[trigger] d[p].0) by {
            assert(d[p] == pairs[p]);
        }
        lemma_last_fabric_loader(d, k);
        if k > 0 {
            assert(d[k - 1] == pairs[k - 1]);
        }
    }
}

/// Reads what a server installation needs from the server launch descriptor.
pub fn server_launch_info(launch: &JsonValue, loader_type: LoaderType) -> (r: Result<ServerLaunch, InstallError>)
    ensures
        server_launch_ok(launch.view_json(), loader_type) <==> r is Ok,
        r matches Err(e) ==> e is Metadata,
        r matches Ok(s) ==> {
            let j = launch.view_json();
            let cls = str_of(member(j, main_class_key(loader_type)))->0;
            &&& s.main_class@ == (if loader_type == LoaderType::Fabric { cls } else { Seq::empty() })
            &&& s.launch_main_class@ == (if loader_type == LoaderType::Fabric {
                FABRIC_SERVER_LAUNCHER@
            } else {
                cls
            })
            &&& s.jvm_args@.map_values(|a: String| a@) == string_items(jvm_items(j))
            &&& member(j, "libraries"@) matches Some(Json::Arr(items)) && library_pairs(items) == Some(
                libraries_view(s.libraries@),
            )
            &&& text_of(s.fabric_loader) == last_fabric_loader(libraries_view(s.libraries@))
        },
{
    if !matches!(launch, JsonValue::Object(_)) {
        return Err(InstallError::Metadata(
            "Cannot create server installation due to server endpoint returning wrong type.".to_owned(),
        ));
    }
    let (main_class, launch_main_class) = match loader_type {
        LoaderType::Fabric => match launch.get_str("mainClass") {
            Some(c) => (c.clone(), FABRIC_SERVER_LAUNCHER.to_owned()),
            None => return Err(InstallError::Metadata("Could not find main class entry".to_owned())),
        },
        LoaderType::Quilt => match launch.get_str("launcherMainClass") {
            Some(c) => (String::new(), c.clone()),
            None => return Err(InstallError::Metadata("Could not find main class entry".to_owned())),
        },
    };
    let jvm = match launch.get("arguments") {
        Some(a) => match a.get("jvm") {
            Some(v) => array_items(v),
            None => Vec::new(),
        },
        None => Vec::new(),
    };
    let jvm_args = string_list(&jvm);
    let libraries = match launch.get("libraries") {
        Some(l) => match l.as_array() {
            Some(items) => library_list(items)?,
            None => return Err(InstallError::Metadata("No libraries were specified".to_owned())),
        },
        None => return Err(InstallError::Metadata("No libraries were specified".to_owned())),
    };
    let fabric_loader = fabric_loader_in(&libraries);
    Ok(ServerLaunch { main_class, launch_main_class, jvm_args, libraries, fabric_loader })
}

/// Whether the server must be installed before it runs: there is no launcher manifest,
/// or its `Minecraft-Version` is not the requested version.
pub fn needs_install(launcher_manifest: Option<&str>, version_id: &str) -> (r: bool)
    ensures
        r == match launcher_manifest {
            None => true,
            Some(t) => attribute_value(t@, "Minecraft-Version: "@) != Some(version_id@),
        },
{
    match launcher_manifest {
        None => true,
        Some(t) => match read_manifest_attribute(t, "Minecraft-Version") {
            Ok(v) => {
                proof {
                    reveal_strlit("Minecraft-Version");
                    reveal_strlit("Minecraft-Version: ");
                    assert("Minecraft-Version"@ + seq![':', ' '] =~= "Minecraft-Version: "@);
                }
                !equals(v.as_str(), version_id)
            },
            Err(_) => {
                proof {
                    reveal_strlit("Minecraft-Version");
                    reveal_strlit("Minecraft-Version: ");
                    assert("Minecraft-Version"@ + seq![':', ' '] =~= "Minecraft-Version: "@);
                }
                true
            },
        },
    }
}

pub open spec fn launch_jar_name_view(loader: LoaderType) -> Seq<char> {
    loader.name_view() + "-server-launch.jar"@
}

/// The file name of the server launcher of a loader family.
pub fn launch_jar_name(loader_type: LoaderType) -> (r: String)
    ensures
        r@ == launch_jar_name_view(loader_type),
{
    concat(loader_type.get_name(), "-server-launch.jar")
}

/// The launcher's properties file of Fabric: `launch.mainClass=<main class>`.
pub fn fabric_launch_properties(main_class: &str) -> (r: String)
    ensures
        r@ == "launch.mainClass="@ + main_class@ + "\n"@,
{
    let mut r = concat("launch.mainClass=", main_class);
    r.append("\n");
    r
}

pub open spec fn launch_args_view(agent_path: Seq<char>, main_class: Seq<char>, jvm_args: Seq<Seq<char>>) -> Json {
    Json::Obj(
        seq![
            ("flap_jar"@, Json::Str(agent_path)),
            ("main_class"@, Json::Str(main_class)),
            ("jvm_args"@, Json::Arr(jvm_args.map_values(|a: Seq<char>| Json::Str(a)))),
        ],
    )
}

/// The launcher's arguments document: the agent jar, the main class and the JVM arguments.
pub fn launch_args_json(agent_path: &str, main_class: &str, jvm_args: &Vec<String>) -> (r: JsonValue)
    ensures
        r.view_json() == launch_args_view(agent_path@, main_class@, jvm_args@.map_values(|a: String| a@)),
{
    let ghost av = jvm_args@.map_values(|a: String| a@);
    let mut items: Vec<JsonValue> = Vec::new();
    let mut k: usize = 0;
    while k < jvm_args.len()
        invariant
            k <= jvm_args.len(),
            av == jvm_args@.map_values(|a: String| a@),
            items_view(items@) == av.take(k as int).map_values(|a: Seq<char>| Json::Str(a)),
        decreases jvm_args.len() - k,
    {
        let x = JsonValue::Str(jvm_args[k].clone());
        proof {
            lemma_items_push(items@, x);
            assert(av.take(k + 1).map_values(|a: Seq<char>| Json::Str(a)) =~= av.take(k as int).map_values(
                |a: Seq<char>| Json::Str(a),
            ).push(Json::Str(av[k as int])));
        }
        items.push(x);
        k += 1;
    }
    assert(av.take(jvm_args.len() as int) =~= av);
    let mut m: Vec<(String, JsonValue)> = Vec::new();
    let a = ("flap_jar".to_owned(), jstr(agent_path));
    let b = ("main_class".to_owned(), jstr(main_class));
    let c = ("jvm_args".to_owned(), JsonValue::Array(items));
    proof {
        crate::json::lemma_members_push(m@, a);
        crate::json::lemma_members_push(m@.push(a), b);
        crate::json::lemma_members_push(m@.push(a).push(b), c);
    }
    m.push(a);
    m.push(b);
    m.push(c);
    assert(members_view(m@) =~= seq![
        ("flap_jar"@, Json::Str(agent_path@)),
        ("main_class"@, Json::Str(main_class@)),
        ("jvm_args"@, Json::Arr(av.map_values(|a: Seq<char>| Json::Str(a)))),
    ]);
    JsonValue::Object(m)
}

} // verus!

verus! {

pub open spec fn agent_path_view(version: Seq<char>) -> Seq<char> {
    "libraries/net/ornithemc/flap/flap-"@ + version + ".jar"@
}

/// Where a server installation keeps the runtime agent of a version, relative to the
/// installation.
pub fn agent_library_path(version: &str) -> (r: String)
    ensures
        r@ == agent_path_view(version@),
{
    let mut r = concat("libraries/net/ornithemc/flap/flap-", version);
    r.append(".jar");
    r
}

} // verus!
