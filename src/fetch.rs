use vstd::prelude::*;
use crate::error::InstallError;
use crate::maven::{artifact_path, is_coordinate, try_split_artifact};
use crate::meta::ProfileJsonLibrary;
use crate::text::{concat, decimal, decimal_string, join_path, joined};

verus! {

/// One file to fetch: where from, and where to, relative to the installation.
#[derive(Debug, Clone, PartialEq, Eq)]
pub struct Download {
    pub url: String,
    pub path: String,
}

pub open spec fn download_of(lib: ProfileJsonLibrary) -> (Seq<char>, Seq<char>) {
    (joined(lib.url@, artifact_path(lib.name@)), "libraries/"@ + artifact_path(lib.name@))
}

pub open spec fn downloads_view(d: Seq<Download>) -> Seq<(Seq<char>, Seq<char>)> {
    d.map_values(|x: Download| (x.url@, x.path@))
}

/// The downloads of the libraries, in order: each file comes from the library's
/// repository URL joined by one `/` with the repository path of its coordinate, and goes
/// to the same path under `libraries/`. A library whose name is not a coordinate fails the whole list.
pub fn library_downloads(libs: &Vec<ProfileJsonLibrary>) -> (r: Result<Vec<Download>, InstallError>)
    ensures
        (forall|i: int| 0 <= i < libs.len() ==> is_coordinate(#[trigger] libs@[i].name@)) <==> r is Ok,
        r matches Ok(d) ==> downloads_view(d@) == libs@.map_values(|l: ProfileJsonLibrary| download_of(l)),
        r matches Err(e) ==> e is Download,
{
    let mut out: Vec<Download> = Vec::new();
    let mut i: usize = 0;
    while i < libs.len()
        invariant
            i <= libs.len(),
            forall|k: int| 0 <= k < i ==> is_coordinate(#[trigger] libs@[k].name@),
            downloads_view(out@) == libs@.take(i as int).map_values(|l: ProfileJsonLibrary| download_of(l)),
        decreases libs.len() - i,
    {
        let lib = &libs[i];
        match try_split_artifact(lib.name.as_str()) {
            Some(p) => {
                let d = Download { url: join_path(lib.url.as_str(), p.as_str()), path: concat("libraries/", p.as_str()) };
                let ghost prev = out@;
                out.push(d);
                assert(out@ == prev.push(d));
                assert(downloads_view(out@) =~= downloads_view(prev).push((d.url@, d.path@)));
                assert(libs@.take(i + 1) =~= libs@.take(i as int).push(libs@[i as int]));
                assert(download_of(libs@[i as int]) == (d.url@, d.path@));
                assert(downloads_view(out@) =~= libs@.take(i + 1).map_values(|l: ProfileJsonLibrary| download_of(l)));
            },
            None => {
                return Err(InstallError::Download(concat("Library name is not a coordinate: ", lib.name.as_str())));
            },
        }
        i += 1;
    }
    assert(libs@.take(libs.len() as int) =~= libs@);
    Ok(out)
}

/// Progress in thousandths when `done` of `total` downloads have finished: linear from
/// `lo` to `hi`.
pub fn download_progress(lo: u32, hi: u32, done: u64, total: u64) -> (r: u32)
    requires
        lo <= hi <= 1000,
        done <= total,
        0 < total,
    ensures
        r == lo + ((hi - lo) as int * done as int) / (total as int),
        lo <= r <= hi,
{
    let span: u128 = (hi - lo) as u128;
    let d: u128 = done as u128;
    let t: u128 = total as u128;
    assert(span * d <= 1000 * 0x1_0000_0000_0000_0000) by (nonlinear_arith)
        requires span <= 1000, d < 0x1_0000_0000_0000_0000;
    assert(span * d <= span * t) by (nonlinear_arith)
        requires d <= t, 0 <= span;
    assert((span * d) / (t as int) <= span) by (nonlinear_arith)
        requires span * d <= span * t, 0 < t, 0 <= span * d;
    let q: u128 = span * d / t;
    (lo as u128 + q) as u32
}

/// `"Downloaded <name>, <done>/<total>"`.
pub fn download_message(name: &str, done: u64, total: u64) -> (r: String)
    ensures
        r@ == "Downloaded "@ + name@ + ", "@ + decimal(done as nat) + "/"@ + decimal(total as nat),
{
    let mut r = concat("Downloaded ", name);
    r.append(", ");
    r.append(decimal_string(done).as_str());
    r.append("/");
    r.append(decimal_string(total).as_str());
    r
}

} // verus!
