use vstd::prelude::*;
use crate::error::InstallError;
use crate::fetch::Download;
use crate::json::{Json, JsonValue, member, merge, merged, str_of};
use crate::launch::{add_first_jvm_arg, compose_launch_json, composed, with_first_jvm_arg};
use crate::maven::{MAVEN_LATEST_RELEASE_API_URL, latest_release_url};
use crate::meta::ProfileJsonLibrary;
use crate::text::concat;
use crate::versions::{MinecraftVersion, vanilla_launch_json};

verus! {

/// What a client installation writes under the game directory.
#[derive(Debug, PartialEq, Eq)]
pub struct ClientInstall {
    pub vanilla_id: String,
    pub vanilla_json: JsonValue,
    pub profile_id: String,
    pub profile_json: JsonValue,
    /// Directories, relative to the game directory, removed before writing.
    pub clear_dirs: Vec<String>,
    /// Files, relative to the game directory, with the document each holds.
    pub files: Vec<(String, JsonValue)>,
    /// The runtime agent, fetched next to the profile.
    pub agent: Download,
}

pub open spec fn profile_dir(id: Seq<char>) -> Seq<char> {
    "versions/"@ + id
}

pub open spec fn profile_file(id: Seq<char>) -> Seq<char> {
    "versions/"@ + id + "/"@ + id + ".json"@
}

pub open spec fn agent_file(id: Seq<char>) -> Seq<char> {
    "versions/"@ + id + "/flap.jar"@
}

/// The JVM argument that loads the runtime agent of a profile.
pub open spec fn agent_arg(id: Seq<char>) -> Seq<char> {
    "-javaagent:${library_directory}/../"@ + agent_file(id)
}

/// The client profile: the loader's descriptor with its libraries rewritten and upgraded,
/// backfilled from the vanilla descriptor, with the agent as first JVM argument.
pub open spec fn client_profile(launch: Json, upgrades: Seq<ProfileJsonLibrary>, vanilla: Json, id: Seq<char>) -> Json {
    with_first_jvm_arg(merged(composed(launch, upgrades), vanilla), agent_arg(id))
}

fn profile_file_path(id: &str) -> (r: String)
    ensures
        r@ == profile_file(id@),
{
    let mut r = concat("versions/", id);
    r.append("/");
    r.append(id);
    r.append(".json");
    r
}

/// Plans a client installation from the fetched documents: the vanilla descriptor renamed
/// to `<version>-vanilla`, and the composed loader profile, each in its own directory
/// under `versions/`.
pub fn plan_client_install(
    location: &str,
    location_exists: bool,
    version: &MinecraftVersion,
    vanilla_document: JsonValue,
    launch: JsonValue,
    upgrades: &Vec<ProfileJsonLibrary>,
) -> (r: Result<ClientInstall, InstallError>)
    ensures
        !location_exists ==> (r matches Err(InstallError::Validation(m)) && m@ == missing_dir_message(location@)),
        location_exists && !(vanilla_document.view_json() is Obj) ==> r matches Err(InstallError::Metadata(_)),
        location_exists && vanilla_document.view_json() is Obj && str_of(member(launch.view_json(), "id"@)) is None
            ==> r matches Err(InstallError::Metadata(_)),
        location_exists && vanilla_document.view_json() is Obj && str_of(member(launch.view_json(), "id"@)) is Some
            ==> r is Ok,
        r matches Ok(c) ==> {
            let pid = str_of(member(launch.view_json(), "id"@))->0;
            let vid = version.vanilla_id_view();
            &&& c.vanilla_id@ == vid
            &&& c.vanilla_json.view_json() == member_set_id(vanilla_document.view_json(), vid)
            &&& c.profile_id@ == pid
            &&& c.profile_json.view_json() == client_profile(
                launch.view_json(),
                upgrades@,
                c.vanilla_json.view_json(),
                pid,
            )
            &&& c.clear_dirs@.map_values(|d: String| d@) == seq![profile_dir(vid), profile_dir(pid)]
            &&& c.files.len() == 2
            &&& c.files@[0].0@ == profile_file(vid) && c.files@[0].1.view_json() == c.vanilla_json.view_json()
            &&& c.files@[1].0@ == profile_file(pid) && c.files@[1].1.view_json() == c.profile_json.view_json()
            &&& c.agent.url@ == MAVEN_LATEST_RELEASE_API_URL@ + "flap"@
            &&& c.agent.path@ == agent_file(pid)
        },
{
    if !location_exists {
        let mut msg = concat("The directory ", location);
        msg.append(" does not exist. Make sure you selected the correct folder and that you have started the game at least once before.");
        return Err(InstallError::Validation(msg));
    }
    let (vanilla_id, vanilla_json) = vanilla_launch_json(version, vanilla_document)?;
    let (profile_id, base) = compose_launch_json(launch, upgrades)?;
    let backfilled = merge(&base, &vanilla_json);
    let mut agent_path = concat("versions/", profile_id.as_str());
    agent_path.append("/flap.jar");
    let arg = concat("-javaagent:${library_directory}/../", agent_path.as_str());
    assert(arg@ =~= agent_arg(profile_id@));
    let profile_json = add_first_jvm_arg(&backfilled, arg.as_str());
    let mut clear_dirs: Vec<String> = Vec::new();
    clear_dirs.push(concat("versions/", vanilla_id.as_str()));
    clear_dirs.push(concat("versions/", profile_id.as_str()));
    assert(clear_dirs@.map_values(|d: String| d@) =~= seq![profile_dir(vanilla_id@), profile_dir(profile_id@)]);
    let mut files: Vec<(String, JsonValue)> = Vec::new();
    files.push((profile_file_path(vanilla_id.as_str()), vanilla_json.deep_clone()));
    files.push((profile_file_path(profile_id.as_str()), profile_json.deep_clone()));
    let agent = Download { url: latest_release_url("flap"), path: agent_path };
    Ok(ClientInstall { vanilla_id, vanilla_json, profile_id, profile_json, clear_dirs, files, agent })
}

/// The message for a game directory that does not exist.
pub open spec fn missing_dir_message(location: Seq<char>) -> Seq<char> {
    "The directory "@ + location
        + " does not exist. Make sure you selected the correct folder and that you have started the game at least once before."@
}

pub open spec fn member_set_id(doc: Json, id: Seq<char>) -> Json {
    match doc {
        Json::Obj(m) => Json::Obj(crate::json::set_member(m, "id"@, Json::Str(id))),
        _ => doc,
    }
}

} // verus!
