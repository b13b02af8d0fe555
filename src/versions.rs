use vstd::prelude::*;
use crate::error::InstallError;
use crate::json::{Json, JsonValue, put_member, set_member};
use crate::maven::{is_coordinate, name_of, version_of};
use crate::meta::GameSide;
use crate::text::{before_char, concat, equals, find_char, lemma_index_of_from};

verus! {

/// A game version as the version manifest lists it.
#[derive(Debug, Clone, PartialEq, Eq)]
pub struct MinecraftVersion {
    pub id: String,
    /// `release`, `snapshot`, `pending`, or a historical kind such as `old_alpha`.
    pub kind: String,
    pub url: String,
    /// Release time as RFC 3339 text.
    pub release_time: String,
    pub details: String,
}

/// The newest version of each kind.
#[derive(Debug, Clone, PartialEq, Eq)]
pub struct LatestVersions {
    pub old_alpha: String,
    pub classic_server: String,
    pub alpha_server: String,
    pub old_beta: String,
    pub snapshot: String,
    pub release: String,
    pub pending: String,
}

/// The version manifest.
#[derive(Debug, Clone, PartialEq, Eq)]
pub struct VersionManifest {
    pub latest: LatestVersions,
    pub versions: Vec<MinecraftVersion>,
}

/// A downloadable game jar.
#[derive(Debug, Clone, PartialEq, Eq)]
pub struct VersionDownload {
    pub sha1: String,
    pub size: u32,
    pub url: String,
}

#[derive(Debug, Clone, PartialEq, Eq)]
pub struct VersionDownloads {
    pub client: Option<VersionDownload>,
    pub server: Option<VersionDownload>,
}

/// The detail document of a game version.
#[derive(Debug, PartialEq, Eq)]
pub struct VersionDetails {
    pub libraries: Option<JsonValue>,
    pub shared_mappings: bool,
    pub normalized_version: String,
    pub downloads: VersionDownloads,
}

impl VersionDownload {
    pub fn duplicate(&self) -> (r: VersionDownload)
        ensures
            r.sha1@ == self.sha1@,
            r.size == self.size,
            r.url@ == self.url@,
    {
        VersionDownload { sha1: self.sha1.clone(), size: self.size, url: self.url.clone() }
    }
}

impl MinecraftVersion {
    pub fn is_snapshot(&self) -> (r: bool)
        ensures
            r == (self.kind@ == "snapshot"@),
    {
        equals(self.kind.as_str(), "snapshot")
    }

    pub fn is_release(&self) -> (r: bool)
        ensures
            r == (self.kind@ == "release"@),
    {
        equals(self.kind.as_str(), "release")
    }

    /// Neither a release, nor a snapshot, nor pending.
    pub fn is_historical(&self) -> (r: bool)
        ensures
            r == (self.kind@ != "release"@ && self.kind@ != "snapshot"@ && self.kind@ != "pending"@),
    {
        !self.is_release() && !self.is_snapshot() && !equals(self.kind.as_str(), "pending")
    }

    pub open spec fn mapping_id_view(&self, shared_mappings: bool, side: GameSide) -> Seq<char> {
        if shared_mappings {
            self.id@
        } else {
            self.id@ + "-"@ + side.id_view()
        }
    }

    /// The key of the version's mappings: the id itself when the sides share mappings,
    /// else the id with the side appended.
    pub fn get_id(&self, shared_mappings: bool, side: GameSide) -> (r: String)
        ensures
            r@ == self.mapping_id_view(shared_mappings, side),
    {
        if shared_mappings {
            self.id.clone()
        } else {
            let mut r = concat(self.id.as_str(), "-");
            r.append(side.id());
            r
        }
    }

    /// The download of the game jar for a side.
    pub fn get_jar_download_url(&self, details: &VersionDetails, side: GameSide) -> (r: Result<
        VersionDownload,
        InstallError,
    >)
        ensures
            match (side, &details.downloads.client, &details.downloads.server) {
                (GameSide::Client, Some(d), _) | (GameSide::Server, _, Some(d)) => r matches Ok(x) && x.url@
                    == d.url@ && x.sha1@ == d.sha1@ && x.size == d.size,
                _ => r matches Err(InstallError::Metadata(_)),
            },
    {
        let d = match side {
            GameSide::Client => &details.downloads.client,
            GameSide::Server => &details.downloads.server,
        };
        match d {
            Some(x) => Ok(x.duplicate()),
            None => Err(InstallError::Metadata(concat("Version does not have download for side ", side.id()))),
        }
    }

    pub open spec fn vanilla_id_view(&self) -> Seq<char> {
        self.id@ + "-vanilla"@
    }
}

/// The LWJGL version named by a library entry `group:lwjgl:version`.
pub open spec fn lwjgl_entry(j: Json) -> Option<Seq<char>> {
    match j {
        Json::Str(s) => if is_coordinate(s) && name_of(s) == "lwjgl"@ {
            Some(before_char(version_of(s), ':'))
        } else {
            None
        },
        _ => None,
    }
}

/// The first LWJGL version among the library entries.
pub open spec fn first_lwjgl(items: Seq<Json>) -> Option<Seq<char>>
    decreases items.len(),
{
    if items.len() == 0 {
        None
    } else if lwjgl_entry(items[0]) is Some {
        lwjgl_entry(items[0])
    } else {
        first_lwjgl(items.skip(1))
    }
}

pub open spec fn lwjgl_of(details: &VersionDetails) -> Option<Seq<char>> {
    match details.libraries {
        Some(l) => match l.view_json() {
            Json::Arr(items) => first_lwjgl(items),
            _ => None,
        },
        None => None,
    }
}

fn lwjgl_in(s: &str) -> (r: Option<String>)
    ensures
        lwjgl_entry(Json::Str(s@)) == match r {
            Some(v) => Some(v@),
            None => None::<Seq<char>>,
        },
{
    let n = s.unicode_len();
    let first = match find_char(s, ':', 0) {
        Some(p) => p,
        None => return None,
    };
    let second = match find_char(s, ':', first + 1) {
        Some(p) => p,
        None => return None,
    };
    if !equals(s.substring_char(first + 1, second), "lwjgl") {
        return None;
    }
    let rest = s.substring_char(second + 1, n);
    proof {
        lemma_index_of_from(rest@, ':', 0);
    }
    let end = match find_char(rest, ':', 0) {
        Some(e) => e,
        None => rest.unicode_len(),
    };
    Some(rest.substring_char(0, end).to_owned())
}

/// The LWJGL version that the game version's detail document names.
pub fn find_lwjgl_version(version: &MinecraftVersion, details: &VersionDetails) -> (r: Result<String, InstallError>)
    ensures
        match lwjgl_of(details) {
            Some(v) => r matches Ok(x) && x@ == v,
            None => r matches Err(InstallError::Metadata(m)) && m@ == "Unable to find lwjgl version for Minecraft "@
                + version.id@,
        },
{
    let not_found = concat("Unable to find lwjgl version for Minecraft ", version.id.as_str());
    let libraries = match &details.libraries {
        Some(l) => l,
        None => return Err(InstallError::Metadata(not_found)),
    };
    let items = match libraries.as_array() {
        Some(v) => v,
        None => return Err(InstallError::Metadata(not_found)),
    };
    let ghost all = items_view_of(items);
    let mut i: usize = 0;
    proof {
        crate::json::lemma_items_view(items@);
        assert(all.skip(0) =~= all);
        assert(lwjgl_of(details) == first_lwjgl(all));
    }
    while i < items.len()
        invariant
            i <= items.len(),
            all == crate::json::items_view(items@),
            all.len() == items.len(),
            forall|k: int| 0 <= k < items.len() ==> #[trigger] all[k] == items@[k].view_json(),
            first_lwjgl(all.skip(i as int)) == lwjgl_of(details),
        decreases items.len() - i,
    {
        assert(all.skip(i as int).skip(1) =~= all.skip(i + 1));
        assert(all.skip(i as int)[0] == items@[i as int].view_json());
        match items[i].as_str() {
            Some(s) => match lwjgl_in(s.as_str()) {
                Some(v) => {
                    assert(all[i as int] == Json::Str(s@));
                    assert(lwjgl_entry(all.skip(i as int)[0]) == Some(v@));
                    return Ok(v);
                },
                None => {},
            },
            None => {},
        }
        i += 1;
    }
    Err(InstallError::Metadata(not_found))
}

pub open spec fn items_view_of(items: &Vec<JsonValue>) -> Seq<Json> {
    crate::json::items_view(items@)
}

/// The vanilla launch descriptor: the detail document renamed to `<id>-vanilla`.
pub fn vanilla_launch_json(version: &MinecraftVersion, document: JsonValue) -> (r: Result<(String, JsonValue), InstallError>)
    ensures
        match document.view_json() {
            Json::Obj(m) => r matches Ok((id, doc)) && id@ == version.vanilla_id_view() && doc.view_json() == Json::Obj(
                set_member(m, "id"@, Json::Str(version.vanilla_id_view()))),
            _ => r matches Err(InstallError::Metadata(_)),
        },
{
    match document {
        JsonValue::Object(mut m) => {
            let id = concat(version.id.as_str(), "-vanilla");
            put_member(&mut m, "id".to_owned(), JsonValue::Str(id.clone()));
            Ok((id, JsonValue::Object(m)))
        },
        _ => Err(InstallError::Metadata("Error while fetching launch json from manifest".to_owned())),
    }
}

pub open spec fn same_version(a: MinecraftVersion, b: MinecraftVersion) -> bool {
    a.id@ == b.id@ && a.kind@ == b.kind@ && a.url@ == b.url@ && a.release_time@ == b.release_time@ && a.details@
        == b.details@
}

impl MinecraftVersion {
    pub fn duplicate(&self) -> (r: MinecraftVersion)
        ensures
            same_version(r, *self),
    {
        MinecraftVersion {
            id: self.id.clone(),
            kind: self.kind.clone(),
            url: self.url.clone(),
            release_time: self.release_time.clone(),
            details: self.details.clone(),
        }
    }
}

} // verus!
