use vstd::prelude::*;
use crate::text::{find_char, has_char, index_of_from, lemma_index_of_from, replace_char, swap_char};

verus! {

/// Repository layout of an artifact: the group's dots become directories, then
/// `name/version/name-version.jar`.
pub open spec fn maven_path(group: Seq<char>, name: Seq<char>, version: Seq<char>) -> Seq<char> {
    swap_char(group, '.', '/') + seq!['/'] + name + seq!['/'] + version + seq!['/'] + name + seq!['-']
        + version + seq!['.', 'j', 'a', 'r']
}

pub open spec fn first_colon(c: Seq<char>) -> int {
    index_of_from(c, ':', 0)
}

pub open spec fn second_colon(c: Seq<char>) -> int {
    index_of_from(c, ':', first_colon(c) + 1)
}

/// A coordinate `group:name:version` (the version may hold further colons).
pub open spec fn is_coordinate(c: Seq<char>) -> bool {
    first_colon(c) >= 0 && second_colon(c) >= 0
}

pub open spec fn group_of(c: Seq<char>) -> Seq<char> {
    c.subrange(0, first_colon(c))
}

pub open spec fn name_of(c: Seq<char>) -> Seq<char> {
    c.subrange(first_colon(c) + 1, second_colon(c))
}

pub open spec fn version_of(c: Seq<char>) -> Seq<char> {
    c.subrange(second_colon(c) + 1, c.len() as int)
}

pub open spec fn artifact_path(c: Seq<char>) -> Seq<char> {
    maven_path(group_of(c), name_of(c), version_of(c))
}

proof fn lemma_coordinate_parts(c: Seq<char>)
    requires
        is_coordinate(c),
    ensures
        0 <= first_colon(c) < second_colon(c) < c.len(),
        c == group_of(c) + seq![':'] + name_of(c) + seq![':'] + version_of(c),
        !has_char(group_of(c), ':'),
        !has_char(name_of(c), ':'),
{
    lemma_index_of_from(c, ':', 0);
    lemma_index_of_from(c, ':', first_colon(c) + 1);
    assert(c =~= group_of(c) + seq![':'] + name_of(c) + seq![':'] + version_of(c));
    assert(!has_char(group_of(c), ':')) by {
        assert forall|i: int| 0 <= i < group_of(c).len() implies group_of(c)[i] != ':' by {
            assert(group_of(c)[i] == c[i]);
        }
    }
    assert(!has_char(name_of(c), ':')) by {
        assert forall|i: int| 0 <= i < name_of(c).len() implies name_of(c)[i] != ':' by {
            assert(name_of(c)[i] == c[first_colon(c) + 1 + i]);
        }
    }
}

/// The repository path of a coordinate `group:name:version`.
pub fn split_artifact(artifact: &str) -> (r: String)
    requires
        is_coordinate(artifact@),
    ensures
        r@ == artifact_path(artifact@),
{
    proof {
        lemma_coordinate_parts(artifact@);
        reveal_strlit("/");
        reveal_strlit("-");
        reveal_strlit(".jar");
    }
    let n = artifact.unicode_len();
    let first = find_char(artifact, ':', 0).unwrap();
    let second = find_char(artifact, ':', first + 1).unwrap();
    let group = artifact.substring_char(0, first);
    let name = artifact.substring_char(first + 1, second);
    let version = artifact.substring_char(second + 1, n);
    let mut r = replace_char(group, '.', "/");
    r.append("/");
    r.append(name);
    r.append("/");
    r.append(version);
    r.append("/");
    r.append(name);
    r.append("-");
    r.append(version);
    r.append(".jar");
    assert(r@ =~= artifact_path(artifact@));
    r
}

/// The repository path of `artifact`, or `None` when it is not of the form
/// `group:name:version`.
pub fn try_split_artifact(artifact: &str) -> (r: Option<String>)
    ensures
        is_coordinate(artifact@) <==> r is Some,
        r matches Some(p) ==> p@ == artifact_path(artifact@),
{
    match find_char(artifact, ':', 0) {
        Some(first) => match find_char(artifact, ':', first + 1) {
            Some(_) => Some(split_artifact(artifact)),
            None => None,
        },
        None => None,
    }
}

proof fn lemma_last_slash(x1: Seq<char>, t1: Seq<char>, x2: Seq<char>, t2: Seq<char>)
    requires
        x1 + seq!['/'] + t1 == x2 + seq!['/'] + t2,
        !has_char(t1, '/'),
        !has_char(t2, '/'),
    ensures
        x1 == x2,
        t1 == t2,
{
    let s1 = x1 + seq!['/'] + t1;
    let s2 = x2 + seq!['/'] + t2;
    assert(s1.len() == s2.len());
    if t1.len() < t2.len() {
        let p = x1.len() as int;
        assert(s1[p] == '/');
        assert(s2[p] == t2[p - x2.len() - 1]);
        assert(t2[p - x2.len() - 1] != '/');
    } else if t2.len() < t1.len() {
        let p = x2.len() as int;
        assert(s2[p] == '/');
        assert(s1[p] == t1[p - x1.len() - 1]);
        assert(t1[p - x1.len() - 1] != '/');
    } else {
        assert(x1 =~= s1.subrange(0, x1.len() as int));
        assert(x2 =~= s2.subrange(0, x2.len() as int));
        assert(t1 =~= s1.subrange(x1.len() as int + 1, s1.len() as int));
        assert(t2 =~= s2.subrange(x2.len() as int + 1, s2.len() as int));
    }
}

proof fn lemma_swap_injective(g1: Seq<char>, g2: Seq<char>)
    requires
        swap_char(g1, '.', '/') == swap_char(g2, '.', '/'),
        !has_char(g1, '/'),
        !has_char(g2, '/'),
    ensures
        g1 == g2,
{
    assert(g1.len() == swap_char(g1, '.', '/').len());
    assert(g2.len() == swap_char(g2, '.', '/').len());
    assert forall|i: int| 0 <= i < g1.len() implies g1[i] == g2[i] by {
        assert(swap_char(g1, '.', '/')[i] == swap_char(g2, '.', '/')[i]);
        assert(g1[i] != '/');
        assert(g2[i] != '/');
        assert(swap_char(g1, '.', '/')[i] == if g1[i] == '.' { '/' } else { g1[i] });
        assert(swap_char(g2, '.', '/')[i] == if g2[i] == '.' { '/' } else { g2[i] });
    }
    assert(g1 =~= g2);
}

/// Distinct parts free of `/` give distinct repository paths: the path determines the
/// group, the name and the version.
pub proof fn lemma_maven_path_injective(
    g1: Seq<char>,
    n1: Seq<char>,
    v1: Seq<char>,
    g2: Seq<char>,
    n2: Seq<char>,
    v2: Seq<char>,
)
    requires
        !has_char(g1, '/') && !has_char(n1, '/') && !has_char(v1, '/'),
        !has_char(g2, '/') && !has_char(n2, '/') && !has_char(v2, '/'),
        maven_path(g1, n1, v1) == maven_path(g2, n2, v2),
    ensures
        g1 == g2,
        n1 == n2,
        v1 == v2,
{
    let d1 = swap_char(g1, '.', '/');
    let d2 = swap_char(g2, '.', '/');
    let t1 = n1 + seq!['-'] + v1 + seq!['.', 'j', 'a', 'r'];
    let t2 = n2 + seq!['-'] + v2 + seq!['.', 'j', 'a', 'r'];
    assert(!has_char(t1, '/')) by {
        assert forall|i: int| 0 <= i < t1.len() implies t1[i] != '/' by {
            if i < n1.len() {
                assert(t1[i] == n1[i]);
            } else if n1.len() < i < n1.len() + 1 + v1.len() {
                assert(t1[i] == v1[i - n1.len() - 1]);
            }
        }
    }
    assert(!has_char(t2, '/')) by {
        assert forall|i: int| 0 <= i < t2.len() implies t2[i] != '/' by {
            if i < n2.len() {
                assert(t2[i] == n2[i]);
            } else if n2.len() < i < n2.len() + 1 + v2.len() {
                assert(t2[i] == v2[i - n2.len() - 1]);
            }
        }
    }
    assert(maven_path(g1, n1, v1) =~= (d1 + seq!['/'] + n1 + seq!['/'] + v1) + seq!['/'] + t1);
    assert(maven_path(g2, n2, v2) =~= (d2 + seq!['/'] + n2 + seq!['/'] + v2) + seq!['/'] + t2);
    lemma_last_slash(d1 + seq!['/'] + n1 + seq!['/'] + v1, t1, d2 + seq!['/'] + n2 + seq!['/'] + v2, t2);
    lemma_last_slash(d1 + seq!['/'] + n1, v1, d2 + seq!['/'] + n2, v2);
    lemma_last_slash(d1, n1, d2, n2);
    lemma_swap_injective(g1, g2);
}

/// The repository path of a coordinate free of `/` gives back the coordinate.
pub proof fn lemma_artifact_path_reversible(c1: Seq<char>, c2: Seq<char>)
    requires
        is_coordinate(c1),
        is_coordinate(c2),
        !has_char(c1, '/'),
        !has_char(c2, '/'),
        artifact_path(c1) == artifact_path(c2),
    ensures
        c1 == c2,
{
    lemma_coordinate_parts(c1);
    lemma_coordinate_parts(c2);
    assert forall|c: Seq<char>, a: int, b: int|
        !has_char(c, '/') && 0 <= a <= b <= c.len() implies !has_char(#[trigger] c.subrange(a, b), '/') by {
        assert forall|i: int| 0 <= i < b - a implies c.subrange(a, b)[i] != '/' by {
            assert(c.subrange(a, b)[i] == c[a + i]);
        }
    }
    lemma_maven_path_injective(group_of(c1), name_of(c1), version_of(c1), group_of(c2), name_of(c2), version_of(c2));
}

} // verus!

verus! {

/// The repository of Ornithe's releases, where libraries with no other source live.
pub const MAVEN_URL: &'static str = "https://maven.ornithemc.net/releases/";

/// Repository API that names the newest version of an Ornithe artifact.
pub const MAVEN_LATEST_VERSION_API_URL: &'static str =
    "https://maven.ornithemc.net/api/maven/latest/version/releases/net/ornithemc/";

/// Repository API that serves the newest release of an Ornithe artifact.
pub const MAVEN_LATEST_RELEASE_API_URL: &'static str =
    "https://maven.ornithemc.net/api/maven/latest/file/releases/net/ornithemc/";

/// The newest version of an artifact, as the repository reports it.
#[derive(Debug, Clone, PartialEq, Eq)]
pub struct MavenVersion {
    pub is_snapshot: bool,
    pub version: String,
}

/// Where the newest version of an artifact is named.
pub fn latest_version_url(artifact: &str) -> (r: String)
    ensures
        r@ == MAVEN_LATEST_VERSION_API_URL@ + artifact@,
{
    crate::text::concat(MAVEN_LATEST_VERSION_API_URL, artifact)
}

/// Where the newest release of an artifact is served.
pub fn latest_release_url(artifact: &str) -> (r: String)
    ensures
        r@ == MAVEN_LATEST_RELEASE_API_URL@ + artifact@,
{
    crate::text::concat(MAVEN_LATEST_RELEASE_API_URL, artifact)
}

} // verus!
