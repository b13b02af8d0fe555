use vstd::prelude::*;
use crate::text::{concat, contains_char, decimal, decimal_string, fill_placeholders, filled, has_char};

verus! {

/// The metadata service for loaders and mappings.
pub const META_URL: &'static str = "https://meta.ornithemc.net";

/// Which half of the game an installation is for.
#[derive(PartialEq, Eq, Structural, Clone, Copy, Debug)]
pub enum GameSide {
    Client,
    Server,
}

impl GameSide {
    pub open spec fn id_view(self) -> Seq<char> {
        match self {
            GameSide::Client => "client"@,
            GameSide::Server => "server"@,
        }
    }

    /// `"client"` or `"server"`.
    pub fn id(&self) -> (r: &'static str)
        ensures
            r@ == self.id_view(),
    {
        match self {
            GameSide::Client => "client",
            GameSide::Server => "server",
        }
    }

    /// The side that is not this one.
    pub fn other_side(&self) -> (r: GameSide)
        ensures
            r != *self,
    {
        match self {
            GameSide::Client => GameSide::Server,
            GameSide::Server => GameSide::Client,
        }
    }

    pub open spec fn endpoint_view(self) -> Seq<char> {
        match self {
            GameSide::Client => "/v3/versions/{}-loader/{}/{}/profile/json"@,
            GameSide::Server => "/v3/versions/{}-loader/{}/{}/server/json"@,
        }
    }

    pub open spec fn endpoint_versioned_view(self) -> Seq<char> {
        match self {
            GameSide::Client => "/v3/versions/{}/{}-loader/{}/{}/profile/json"@,
            GameSide::Server => "/v3/versions/{}/{}-loader/{}/{}/server/json"@,
        }
    }

    /// Path template of the launch descriptor: loader name, mapping version, loader version.
    pub fn launch_json_endpoint(&self) -> (r: &'static str)
        ensures
            r@ == self.endpoint_view(),
    {
        match self {
            GameSide::Client => "/v3/versions/{}-loader/{}/{}/profile/json",
            GameSide::Server => "/v3/versions/{}-loader/{}/{}/server/json",
        }
    }

    /// Path template of the launch descriptor of one generation: generation, loader name,
    /// mapping version, loader version.
    pub fn launch_json_endpoint_versioned(&self) -> (r: &'static str)
        ensures
            r@ == self.endpoint_versioned_view(),
    {
        match self {
            GameSide::Client => "/v3/versions/{}/{}-loader/{}/{}/profile/json",
            GameSide::Server => "/v3/versions/{}/{}-loader/{}/{}/server/json",
        }
    }
}

/// The mod loader families.
#[derive(PartialEq, Eq, Structural, Clone, Copy, Debug, Hash)]
pub enum LoaderType {
    Fabric,
    Quilt,
}

impl LoaderType {
    pub open spec fn name_view(self) -> Seq<char> {
        match self {
            LoaderType::Fabric => "fabric"@,
            LoaderType::Quilt => "quilt"@,
        }
    }

    pub open spec fn localized_view(self) -> Seq<char> {
        match self {
            LoaderType::Fabric => "Fabric"@,
            LoaderType::Quilt => "Quilt"@,
        }
    }

    pub open spec fn maven_uid_view(self) -> Seq<char> {
        match self {
            LoaderType::Fabric => "net.fabricmc.fabric-loader"@,
            LoaderType::Quilt => "org.quiltmc.quilt-loader"@,
        }
    }

    /// The loader's name in metadata paths and file names.
    pub fn get_name(&self) -> (r: &'static str)
        ensures
            r@ == self.name_view(),
    {
        match self {
            LoaderType::Fabric => "fabric",
            LoaderType::Quilt => "quilt",
        }
    }

    /// The loader's name for display.
    pub fn get_localized_name(&self) -> (r: &'static str)
        ensures
            r@ == self.localized_view(),
    {
        match self {
            LoaderType::Fabric => "Fabric",
            LoaderType::Quilt => "Quilt",
        }
    }

    /// The component id of the loader in an instance package.
    pub fn get_maven_uid(&self) -> (r: &'static str)
        ensures
            r@ == self.maven_uid_view(),
    {
        match self {
            LoaderType::Fabric => "net.fabricmc.fabric-loader",
            LoaderType::Quilt => "org.quiltmc.quilt-loader",
        }
    }
}

/// A loader release as the metadata service lists it.
#[derive(Debug, Clone, PartialEq, Eq)]
pub struct LoaderVersion {
    pub version: String,
    pub stable: bool,
    pub maven: String,
    pub separator: String,
    pub build: i32,
}

impl LoaderVersion {
    pub open spec fn is_beta_view(&self) -> bool {
        has_char(self.version@, '-')
    }

    /// A version string with a hyphen marks a pre-release.
    pub fn is_beta(&self) -> (r: bool)
        ensures
            r == self.is_beta_view(),
    {
        contains_char(self.version.as_str(), '-')
    }

    pub fn is_stable(&self) -> (r: bool)
        ensures
            r == !self.is_beta_view(),
    {
        !self.is_beta()
    }

    pub fn duplicate(&self) -> (r: LoaderVersion)
        ensures
            r.version@ == self.version@,
            r.stable == self.stable,
            r.maven@ == self.maven@,
            r.separator@ == self.separator@,
            r.build == self.build,
    {
        LoaderVersion {
            version: self.version.clone(),
            stable: self.stable,
            maven: self.maven.clone(),
            separator: self.separator.clone(),
            build: self.build,
        }
    }
}

/// A mapping (intermediary) version: its id may carry a `-client` or `-server` suffix.
#[derive(Debug, Clone, PartialEq, Eq)]
pub struct IntermediaryVersion {
    pub version: String,
    pub stable: bool,
    pub maven: String,
}

impl IntermediaryVersion {
    pub fn duplicate(&self) -> (r: IntermediaryVersion)
        ensures
            r.version@ == self.version@,
            r.stable == self.stable,
            r.maven@ == self.maven@,
    {
        IntermediaryVersion { version: self.version.clone(), stable: self.stable, maven: self.maven.clone() }
    }
}

/// A library coordinate with the repository that serves it.
#[derive(Debug, Clone, PartialEq, Eq)]
pub struct ProfileJsonLibrary {
    pub name: String,
    pub url: String,
}

/// The newest and the recommended mapping generation.
#[derive(Debug, Clone, PartialEq, Eq)]
pub struct IntermediaryGenerations {
    pub latest: u32,
    pub stable: u32,
}

pub open spec fn generation_segment(generation: Option<u32>) -> Seq<char> {
    match generation {
        Some(g) => "/v3/versions/gen"@ + decimal(g as nat) + "/"@,
        None => "/v3/versions/"@,
    }
}

fn generation_prefix(generation: Option<u32>) -> (r: String)
    ensures
        r@ == generation_segment(generation),
{
    match generation {
        Some(g) => {
            let mut r = "/v3/versions/gen".to_owned();
            r.append(decimal_string(g as u64).as_str());
            r.append("/");
            r
        },
        None => "/v3/versions/".to_owned(),
    }
}

pub open spec fn launch_args(
    generation: Option<u32>,
    loader: LoaderType,
    intermediary: Seq<char>,
    loader_version: Seq<char>,
) -> Seq<Seq<char>> {
    match generation {
        Some(g) => seq!["gen"@ + decimal(g as nat), loader.name_view(), intermediary, loader_version],
        None => seq![loader.name_view(), intermediary, loader_version],
    }
}

/// Where the launch descriptor of a side, mapping, loader and generation is served.
pub fn launch_json_url(
    side: GameSide,
    intermediary: &str,
    loader_type: LoaderType,
    loader_version: &str,
    generation: Option<u32>,
) -> (r: String)
    ensures
        r@ == META_URL@ + filled(
            if generation is Some { side.endpoint_versioned_view() } else { side.endpoint_view() },
            launch_args(generation, loader_type, intermediary@, loader_version@),
        ),
{
    let mut args: Vec<String> = Vec::new();
    let endpoint = match generation {
        Some(g) => {
            args.push(concat("gen", decimal_string(g as u64).as_str()));
            side.launch_json_endpoint_versioned()
        },
        None => side.launch_json_endpoint(),
    };
    args.push(loader_type.get_name().to_owned());
    args.push(intermediary.to_owned());
    args.push(loader_version.to_owned());
    assert(args@.map_values(|a: String| a@) =~= launch_args(generation, loader_type, intermediary@, loader_version@));
    let path = fill_placeholders(endpoint, &args);
    concat(META_URL, path.as_str())
}

/// Where the loader versions of a family are listed.
pub fn loader_versions_url(generation: Option<u32>, loader_type: LoaderType) -> (r: String)
    ensures
        r@ == META_URL@ + generation_segment(generation) + loader_type.name_view() + "-loader"@,
{
    let mut r = concat(META_URL, generation_prefix(generation).as_str());
    r.append(loader_type.get_name());
    r.append("-loader");
    r
}

/// Where the mapping versions are listed.
pub fn intermediary_versions_url(generation: Option<u32>) -> (r: String)
    ensures
        r@ == META_URL@ + generation_segment(generation) + "intermediary"@,
{
    let mut r = concat(META_URL, generation_prefix(generation).as_str());
    r.append("intermediary");
    r
}

/// Where the library upgrades of a game version are listed.
pub fn profile_libraries_url(generation: Option<u32>, version: &str) -> (r: String)
    ensures
        r@ == META_URL@ + generation_segment(generation) + "libraries/"@ + version@,
{
    let mut r = concat(META_URL, generation_prefix(generation).as_str());
    r.append("libraries/");
    r.append(version);
    r
}

/// Where the mapping generations are published.
pub fn intermediary_generations_url() -> (r: String)
    ensures
        r@ == META_URL@ + "/v3/versions/intermediary_generations"@,
{
    concat(META_URL, "/v3/versions/intermediary_generations")
}

} // verus!
