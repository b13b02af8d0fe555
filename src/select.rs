use vstd::prelude::*;
use crate::error::InstallError;
use crate::meta::{GameSide, IntermediaryVersion, LoaderType, LoaderVersion};
use crate::text::{concat, equals};
use crate::versions::{MinecraftVersion, same_version};

verus! {

/// Index of the last mapping version whose id is `k`, or -1: of repeated ids, the last
/// listed wins, as when the list is loaded into a map.
pub open spec fn mapping_index(ints: Seq<IntermediaryVersion>, k: Seq<char>) -> int
    decreases ints.len(),
{
    if ints.len() == 0 {
        -1
    } else if ints.last().version@ == k {
        ints.len() - 1
    } else {
        mapping_index(ints.drop_last(), k)
    }
}

pub proof fn lemma_mapping_index(ints: Seq<IntermediaryVersion>, k: Seq<char>)
    ensures
        -1 <= mapping_index(ints, k) < ints.len(),
        mapping_index(ints, k) >= 0 ==> ints[mapping_index(ints, k)].version@ == k,
        forall|i: int| mapping_index(ints, k) < i < ints.len() ==> ints[i].version@ != k,
        mapping_index(ints, k) < 0 ==> forall|i: int| 0 <= i < ints.len() ==> ints[i].version@ != k,
    decreases ints.len(),
{
    if ints.len() > 0 && ints.last().version@ != k {
        lemma_mapping_index(ints.drop_last(), k);
        assert forall|i: int| 0 <= i < ints.len() - 1 implies ints.drop_last()[i] == ints[i] by {}
    }
}

/// Finds the last mapping version whose id is `key`.
pub fn find_intermediary(ints: &Vec<IntermediaryVersion>, key: &str) -> (r: Option<usize>)
    ensures
        mapping_index(ints@, key@) == match r {
            Some(i) => i as int,
            None => -1,
        },
{
    proof {
        lemma_mapping_index(ints@, key@);
    }
    let mut i: usize = ints.len();
    while i > 0
        invariant
            i <= ints.len(),
            forall|p: int| i <= p < ints.len() ==> ints@[p].version@ != key@,
        decreases i,
    {
        if equals(ints[i - 1].version.as_str(), key) {
            proof {
                lemma_mapping_index(ints@, key@);
            }
            return Some(i - 1);
        }
        i -= 1;
    }
    proof {
        lemma_mapping_index(ints@, key@);
    }
    None
}

pub open spec fn has_mapping(ints: Seq<IntermediaryVersion>, k: Seq<char>) -> bool {
    mapping_index(ints, k) >= 0
}

/// A version is offered when mappings exist for it, shared or for either side.
pub open spec fn supported(ints: Seq<IntermediaryVersion>, id: Seq<char>) -> bool {
    has_mapping(ints, id) || has_mapping(ints, id + "-client"@) || has_mapping(ints, id + "-server"@)
}

/// The ids of the offered versions, in order.
pub open spec fn supported_ids(versions: Seq<MinecraftVersion>, ints: Seq<IntermediaryVersion>) -> Seq<Seq<char>>
    decreases versions.len(),
{
    if versions.len() == 0 {
        Seq::empty()
    } else if supported(ints, versions.last().id@) {
        supported_ids(versions.drop_last(), ints).push(versions.last().id@)
    } else {
        supported_ids(versions.drop_last(), ints)
    }
}

/// The versions for which mappings exist, in the manifest's order.
pub fn available_versions(versions: &Vec<MinecraftVersion>, ints: &Vec<IntermediaryVersion>) -> (r: Vec<MinecraftVersion>)
    ensures
        r@.map_values(|v: MinecraftVersion| v.id@) == supported_ids(versions@, ints@),
        forall|i: int| 0 <= i < r.len() ==> exists|j: int| 0 <= j < versions.len() && same_version(#[trigger] r@[i], versions@[j]),
{
    let mut out: Vec<MinecraftVersion> = Vec::new();
    let mut k: usize = 0;
    while k < versions.len()
        invariant
            k <= versions.len(),
            out@.map_values(|v: MinecraftVersion| v.id@) == supported_ids(versions@.take(k as int), ints@),
            forall|i: int| 0 <= i < out.len() ==> exists|j: int| 0 <= j < versions.len() && same_version(#[trigger] out@[i], versions@[j]),
        decreases versions.len() - k,
    {
        let v = &versions[k];
        let id = v.id.as_str();
        assert(versions@.take(k + 1).drop_last() =~= versions@.take(k as int));
        let ok = find_intermediary(ints, id).is_some() || find_intermediary(ints, concat(id, "-client").as_str()).is_some()
            || find_intermediary(ints, concat(id, "-server").as_str()).is_some();
        if ok {
            let ghost prev = out@;
            let d = v.duplicate();
            out.push(d);
            assert(out@.map_values(|v: MinecraftVersion| v.id@) =~= prev.map_values(|v: MinecraftVersion| v.id@).push(d.id@));
            assert(same_version(out@[out.len() - 1], versions@[k as int]));
        }
        k += 1;
    }
    assert(versions@.take(versions.len() as int) =~= versions@);
    out
}

/// Index of the first version whose id is `k`, or -1.
pub open spec fn version_index(vs: Seq<MinecraftVersion>, k: Seq<char>) -> int
    decreases vs.len(),
{
    if vs.len() == 0 {
        -1
    } else {
        let r = version_index(vs.drop_last(), k);
        if r >= 0 {
            r
        } else if vs.last().id@ == k {
            vs.len() - 1
        } else {
            -1
        }
    }
}

proof fn lemma_version_index(vs: Seq<MinecraftVersion>, k: Seq<char>)
    ensures
        -1 <= version_index(vs, k) < vs.len(),
        version_index(vs, k) >= 0 ==> vs[version_index(vs, k)].id@ == k,
        forall|i: int| 0 <= i < vs.len() && i < version_index(vs, k) ==> vs[i].id@ != k,
        version_index(vs, k) < 0 ==> forall|i: int| 0 <= i < vs.len() ==> vs[i].id@ != k,
    decreases vs.len(),
{
    if vs.len() > 0 {
        lemma_version_index(vs.drop_last(), k);
        assert forall|i: int| 0 <= i < vs.len() - 1 implies vs.drop_last()[i] == vs[i] by {}
    }
}

/// The mapping of a version for a side: the shared one, else the side's own.
pub open spec fn side_mapping(ints: Seq<IntermediaryVersion>, id: Seq<char>, side: GameSide) -> int {
    if has_mapping(ints, id) {
        mapping_index(ints, id)
    } else {
        mapping_index(ints, id + "-"@ + side.id_view())
    }
}

pub open spec fn same_mapping(a: IntermediaryVersion, b: IntermediaryVersion) -> bool {
    a.version@ == b.version@ && a.stable == b.stable && a.maven@ == b.maven@
}

/// Picks the requested game version among the offered ones, with its mapping for the side.
pub fn select_minecraft_version(
    available: &Vec<MinecraftVersion>,
    ints: &Vec<IntermediaryVersion>,
    requested: &str,
    side: GameSide,
) -> (r: Result<(MinecraftVersion, IntermediaryVersion), InstallError>)
    ensures
        r is Ok <==> version_index(available@, requested@) >= 0 && side_mapping(ints@, requested@, side) >= 0,
        r matches Ok((v, m)) ==> same_version(v, available@[version_index(available@, requested@)])
            && same_mapping(m, ints@[side_mapping(ints@, requested@, side)]),
        r matches Err(e) ==> e is Resolution,
{
    proof {
        lemma_version_index(available@, requested@);
    }
    let mut i: usize = 0;
    while i < available.len()
        invariant
            i <= available.len(),
            forall|p: int| 0 <= p < i ==> available@[p].id@ != requested@,
        decreases available.len() - i,
    {
        if equals(available[i].id.as_str(), requested) {
            proof {
                lemma_version_index(available@, requested@);
                lemma_mapping_index(ints@, requested@);
            }
            let v = &available[i];
            let own = concat(concat(requested, "-").as_str(), side.id());
            let found = match find_intermediary(ints, requested) {
                Some(j) => Some(j),
                None => find_intermediary(ints, own.as_str()),
            };
            match found {
                Some(j) => {
                    proof {
                        lemma_mapping_index(ints@, own@);
                    }
                    return Ok((v.duplicate(), ints[j].duplicate()));
                },
                None => {
                    let other = side.other_side();
                    let other_key = concat(concat(requested, "-").as_str(), other.id());
                    if find_intermediary(ints, other_key.as_str()).is_some() {
                        let mut msg = concat("Cannot install ", requested);
                        msg.append(" for the ");
                        msg.append(side.id());
                        msg.append("! This version is ");
                        msg.append(other.id());
                        msg.append("-only!");
                        return Err(InstallError::Resolution(msg));
                    }
                    let mut msg = concat("No mappings found for Minecraft version ", requested);
                    msg.append(" on the ");
                    msg.append(side.id());
                    return Err(InstallError::Resolution(msg));
                },
            }
        }
        i += 1;
    }
    proof {
        lemma_version_index(available@, requested@);
    }
    let mut msg = concat("Could not find Minecraft version ", requested);
    msg.append(" among supported versions!");
    Err(InstallError::Resolution(msg))
}

/// Index of the first loader version named `k`, or -1.
pub open spec fn loader_index(vs: Seq<LoaderVersion>, k: Seq<char>) -> int
    decreases vs.len(),
{
    if vs.len() == 0 {
        -1
    } else {
        let r = loader_index(vs.drop_last(), k);
        if r >= 0 {
            r
        } else if vs.last().version@ == k {
            vs.len() - 1
        } else {
            -1
        }
    }
}

proof fn lemma_loader_index(vs: Seq<LoaderVersion>, k: Seq<char>)
    ensures
        -1 <= loader_index(vs, k) < vs.len(),
        loader_index(vs, k) >= 0 ==> vs[loader_index(vs, k)].version@ == k,
        forall|i: int| 0 <= i < vs.len() && i < loader_index(vs, k) ==> vs[i].version@ != k,
        loader_index(vs, k) < 0 ==> forall|i: int| 0 <= i < vs.len() ==> vs[i].version@ != k,
    decreases vs.len(),
{
    if vs.len() > 0 {
        lemma_loader_index(vs.drop_last(), k);
        assert forall|i: int| 0 <= i < vs.len() - 1 implies vs.drop_last()[i] == vs[i] by {}
    }
}

/// Which loader version a selector picks: the first listed for `"latest"`, else the one
/// of that name.
pub open spec fn selected_loader(vs: Seq<LoaderVersion>, arg: Seq<char>) -> int {
    if arg == "latest"@ {
        if vs.len() > 0 { 0 } else { -1 }
    } else {
        loader_index(vs, arg)
    }
}

pub open spec fn same_loader(a: LoaderVersion, b: LoaderVersion) -> bool {
    a.version@ == b.version@ && a.stable == b.stable && a.maven@ == b.maven@ && a.separator@ == b.separator@
        && a.build == b.build
}

/// Picks the loader version that the selector names.
pub fn select_loader_version(versions: &Vec<LoaderVersion>, arg: &str) -> (r: Result<LoaderVersion, InstallError>)
    ensures
        r is Ok <==> selected_loader(versions@, arg@) >= 0,
        r matches Ok(v) ==> same_loader(v, versions@[selected_loader(versions@, arg@)]),
        r matches Err(e) ==> e is Resolution,
{
    proof {
        lemma_loader_index(versions@, arg@);
    }
    if equals(arg, "latest") {
        if versions.len() == 0 {
            return Err(InstallError::Resolution("Failed to find loader version in list".to_owned()));
        }
        return Ok(versions[0].duplicate());
    }
    let mut i: usize = 0;
    while i < versions.len()
        invariant
            i <= versions.len(),
            forall|p: int| 0 <= p < i ==> versions@[p].version@ != arg@,
            arg@ != "latest"@,
        decreases versions.len() - i,
    {
        if equals(versions[i].version.as_str(), arg) {
            proof {
                lemma_loader_index(versions@, arg@);
            }
            return Ok(versions[i].duplicate());
        }
        i += 1;
    }
    proof {
        lemma_loader_index(versions@, arg@);
    }
    Err(InstallError::Resolution(concat("Could not find loader version: ", arg)))
}

/// Reads a loader family from its name.
pub fn parse_loader_type(name: &str) -> (r: Result<LoaderType, InstallError>)
    ensures
        name@ == "fabric"@ ==> r == Ok::<LoaderType, InstallError>(LoaderType::Fabric),
        name@ == "quilt"@ ==> r == Ok::<LoaderType, InstallError>(LoaderType::Quilt),
        name@ != "fabric"@ && name@ != "quilt"@ ==> r matches Err(InstallError::Validation(_)),
{
    proof {
        reveal_strlit("quilt");
        reveal_strlit("fabric");
        assert("fabric"@.len() != "quilt"@.len());
    }
    if equals(name, "quilt") {
        Ok(LoaderType::Quilt)
    } else if equals(name, "fabric") {
        Ok(LoaderType::Fabric)
    } else {
        Err(InstallError::Validation("Unsupported loader type!".to_owned()))
    }
}

pub open spec fn displayed(kind: Seq<char>, show_snapshots: bool, show_historical: bool) -> bool {
    let release = kind == "release"@;
    let snapshot = kind == "snapshot"@;
    let historical = !release && !snapshot && kind != "pending"@;
    (show_snapshots && show_historical) || release || (show_snapshots && snapshot) || (show_historical
        && historical)
}

/// Whether a version shows in a list: releases always, snapshots and historical versions
/// when asked for, everything when both are.
pub fn version_displayed(version: &MinecraftVersion, show_snapshots: bool, show_historical: bool) -> (r: bool)
    ensures
        r == displayed(version.kind@, show_snapshots, show_historical),
{
    if show_snapshots && show_historical {
        return true;
    }
    let mut shown = version.is_release();
    if !shown && show_snapshots {
        shown = version.is_snapshot();
    }
    if !shown && show_historical {
        shown = version.is_historical();
    }
    shown
}

pub open spec fn displayed_ids(vs: Seq<MinecraftVersion>, show_snapshots: bool, show_historical: bool) -> Seq<Seq<char>>
    decreases vs.len(),
{
    if vs.len() == 0 {
        Seq::empty()
    } else if displayed(vs.last().kind@, show_snapshots, show_historical) {
        displayed_ids(vs.drop_last(), show_snapshots, show_historical).push(vs.last().id@)
    } else {
        displayed_ids(vs.drop_last(), show_snapshots, show_historical)
    }
}

/// The ids of the versions that show, in order.
pub fn displayed_versions(versions: &Vec<MinecraftVersion>, show_snapshots: bool, show_historical: bool) -> (r: Vec<String>)
    ensures
        r@.map_values(|s: String| s@) == displayed_ids(versions@, show_snapshots, show_historical),
{
    let mut out: Vec<String> = Vec::new();
    let mut k: usize = 0;
    while k < versions.len()
        invariant
            k <= versions.len(),
            out@.map_values(|s: String| s@) == displayed_ids(versions@.take(k as int), show_snapshots, show_historical),
        decreases versions.len() - k,
    {
        assert(versions@.take(k + 1).drop_last() =~= versions@.take(k as int));
        if version_displayed(&versions[k], show_snapshots, show_historical) {
            let ghost prev = out@;
            let id = versions[k].id.clone();
            out.push(id);
            assert(out@.map_values(|s: String| s@) =~= prev.map_values(|s: String| s@).push(id@));
        }
        k += 1;
    }
    assert(versions@.take(versions.len() as int) =~= versions@);
    out
}

pub open spec fn listed_loaders(vs: Seq<LoaderVersion>, show_betas: bool) -> Seq<Seq<char>>
    decreases vs.len(),
{
    if vs.len() == 0 {
        Seq::empty()
    } else if show_betas || !vs.last().is_beta_view() {
        listed_loaders(vs.drop_last(), show_betas).push(vs.last().version@)
    } else {
        listed_loaders(vs.drop_last(), show_betas)
    }
}

/// The loader versions to list: the stable ones, and the betas when asked for.
pub fn listed_loader_versions(versions: &Vec<LoaderVersion>, show_betas: bool) -> (r: Vec<String>)
    ensures
        r@.map_values(|s: String| s@) == listed_loaders(versions@, show_betas),
{
    let mut out: Vec<String> = Vec::new();
    let mut k: usize = 0;
    while k < versions.len()
        invariant
            k <= versions.len(),
            out@.map_values(|s: String| s@) == listed_loaders(versions@.take(k as int), show_betas),
        decreases versions.len() - k,
    {
        assert(versions@.take(k + 1).drop_last() =~= versions@.take(k as int));
        if show_betas || versions[k].is_stable() {
            let ghost prev = out@;
            let v = versions[k].version.clone();
            out.push(v);
            assert(out@.map_values(|s: String| s@) =~= prev.map_values(|s: String| s@).push(v@));
        }
        k += 1;
    }
    assert(versions@.take(versions.len() as int) =~= versions@);
    out
}

} // verus!
