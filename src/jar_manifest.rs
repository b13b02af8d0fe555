use vstd::prelude::*;
use crate::error::InstallError;
use crate::text::{find_char, index_of_from, is_prefix, lemma_index_of_from, replace_char, starts_with, swap_char, trim_ascii, trimmed};

verus! {

/// Length of a manifest line before it continues on the next one.
pub const LINE_WIDTH: usize = 72;

pub open spec fn line_break() -> Seq<char> {
    seq!['\r', '\n', ' ']
}

/// The rest of a long line: runs of 71 characters, each followed by a break, since the
/// leading space of each continuation line counts as its first character.
pub open spec fn continuation(t: Seq<char>) -> Seq<char>
    decreases t.len(),
{
    if t.len() < 71 {
        t
    } else {
        t.take(71) + line_break() + continuation(t.skip(71))
    }
}

/// A manifest line wrapped at 72 characters.
pub open spec fn wrapped(s: Seq<char>) -> Seq<char> {
    if s.len() < 72 {
        s
    } else {
        s.take(72) + line_break() + continuation(s.skip(72))
    }
}

/// A wrapped line with its continuation breaks taken out.
pub open spec fn unwrapped(w: Seq<char>) -> Seq<char>
    decreases w.len(),
{
    if w.len() == 0 {
        w
    } else if w.len() >= 3 && w.take(3) == line_break() {
        unwrapped(w.skip(3))
    } else {
        seq![w[0]] + unwrapped(w.skip(1))
    }
}

/// No line end stands among the characters `i` to `j` of `w`.
pub open spec fn plain_run(w: Seq<char>, i: int, j: int) -> bool {
    forall|k: int| i <= k <= j ==> w[k] != '\r' && w[k] != '\n'
}

/// Every run of characters between line ends is shorter than `n + 1`.
pub open spec fn runs_within(w: Seq<char>, n: int) -> bool {
    forall|i: int, j: int| 0 <= i <= j < w.len() && #[trigger] plain_run(w, i, j) ==> j - i < n
}

/// Wraps one manifest line: after each 72 characters comes `"\r\n "`.
pub fn wrap_manifest_line(line: &str) -> (r: String)
    ensures
        r@ == wrapped(line@),
{
    proof {
        reveal_strlit("\r\n ");
    }
    let n = line.unicode_len();
    if n < LINE_WIDTH {
        return line.to_owned();
    }
    let mut r = line.substring_char(0, LINE_WIDTH).to_owned();
    r.append("\r\n ");
    let mut pos: usize = LINE_WIDTH;
    while n - pos >= 71
        invariant
            n == line@.len(),
            LINE_WIDTH <= pos <= n,
            r@ + continuation(line@.skip(pos as int)) == wrapped(line@),
        decreases n - pos,
    {
        let ghost t = line@.skip(pos as int);
        let ghost r0 = r@;
        assert(t.take(71) =~= line@.subrange(pos as int, pos + 71));
        assert(t.skip(71) =~= line@.skip(pos + 71));
        r.append(line.substring_char(pos, pos + 71));
        r.append("\r\n ");
        assert(t.len() >= 71);
        assert(continuation(t) == t.take(71) + line_break() + continuation(t.skip(71)));
        proof {
            reveal_strlit("\r\n ");
        }
        assert("\r\n "@ =~= line_break());
        assert(r@ + continuation(line@.skip(pos + 71)) =~= r0 + continuation(t));
        pos = pos + 71;
    }
    assert(line@.skip(pos as int) =~= line@.subrange(pos as int, n as int));
    r.append(line.substring_char(pos, n));
    r
}

proof fn lemma_unwrapped_plain(a: Seq<char>, b: Seq<char>)
    requires
        forall|k: int| 0 <= k < a.len() ==> a[k] != '\r',
    ensures
        unwrapped(a + b) == a + unwrapped(b),
    decreases a.len(),
{
    if a.len() > 0 {
        let w = a + b;
        assert(w[0] == a[0]);
        assert(w.skip(1) =~= a.skip(1) + b);
        lemma_unwrapped_plain(a.skip(1), b);
        assert(w.take(3)[0] != '\r' || w.len() < 3);
        assert(a + b =~= seq![a[0]] + (a.skip(1) + b));
        assert(seq![a[0]] + (a.skip(1) + unwrapped(b)) =~= a + unwrapped(b));
    }
}

proof fn lemma_unwrapped_break(b: Seq<char>)
    ensures
        unwrapped(line_break() + b) == unwrapped(b),
{
    let w = line_break() + b;
    assert(w.take(3) =~= line_break());
    assert(w.skip(3) =~= b);
}

proof fn lemma_continuation_unwraps(t: Seq<char>)
    requires
        forall|k: int| 0 <= k < t.len() ==> t[k] != '\r',
    ensures
        unwrapped(continuation(t)) == t,
    decreases t.len(),
{
    if t.len() < 71 {
        lemma_unwrapped_plain(t, Seq::empty());
        assert(t + Seq::<char>::empty() =~= t);
        assert(unwrapped(Seq::<char>::empty()) == Seq::<char>::empty());
    } else {
        let rest = continuation(t.skip(71));
        lemma_continuation_unwraps(t.skip(71));
        assert(t.take(71) + line_break() + rest =~= t.take(71) + (line_break() + rest));
        lemma_unwrapped_plain(t.take(71), line_break() + rest);
        lemma_unwrapped_break(rest);
        assert(t.take(71) + t.skip(71) =~= t);
    }
}

/// Taking the continuation breaks out of a wrapped line gives the line back.
pub proof fn lemma_wrap_round_trip(s: Seq<char>)
    requires
        forall|k: int| 0 <= k < s.len() ==> s[k] != '\r',
    ensures
        unwrapped(wrapped(s)) == s,
{
    if s.len() < 72 {
        lemma_unwrapped_plain(s, Seq::empty());
        assert(s + Seq::<char>::empty() =~= s);
        assert(unwrapped(Seq::<char>::empty()) == Seq::<char>::empty());
    } else {
        let rest = continuation(s.skip(72));
        lemma_continuation_unwraps(s.skip(72));
        assert(s.take(72) + line_break() + rest =~= s.take(72) + (line_break() + rest));
        lemma_unwrapped_plain(s.take(72), line_break() + rest);
        lemma_unwrapped_break(rest);
        assert(s.take(72) + s.skip(72) =~= s);
    }
}

proof fn lemma_runs_short(w: Seq<char>, n: int)
    requires
        w.len() <= n,
    ensures
        runs_within(w, n),
{
}

proof fn lemma_runs_join(a: Seq<char>, b: Seq<char>, n: int)
    requires
        runs_within(a, n),
        runs_within(b, n),
    ensures
        runs_within(a + seq!['\r', '\n'] + b, n),
{
    let w = a + seq!['\r', '\n'] + b;
    let p = a.len() as int;
    assert forall|i: int, j: int| 0 <= i <= j < w.len() && #[trigger] plain_run(w, i, j) implies j - i < n by {
        if i < p {
            if j >= p {
                assert(w[p] == '\r');
            } else {
                assert forall|k: int| i <= k <= j implies a[k] != '\r' && a[k] != '\n' by {
                    assert(a[k] == w[k]);
                }
                assert(plain_run(a, i, j));
            }
        } else if i >= p + 2 {
            assert forall|k: int| i - p - 2 <= k <= j - p - 2 implies b[k] != '\r' && b[k] != '\n' by {
                assert(b[k] == w[k + p + 2]);
            }
            assert(plain_run(b, i - p - 2, j - p - 2));
        } else {
            assert(w[i] == '\r' || w[i] == '\n');
        }
    }
}

proof fn lemma_continuation_runs(t: Seq<char>)
    ensures
        runs_within(seq![' '] + continuation(t), 72),
    decreases t.len(),
{
    if t.len() < 71 {
        lemma_runs_short(seq![' '] + t, 72);
    } else {
        lemma_continuation_runs(t.skip(71));
        let head = seq![' '] + t.take(71);
        let tail = seq![' '] + continuation(t.skip(71));
        lemma_runs_short(head, 72);
        lemma_runs_join(head, tail, 72);
        assert(seq![' '] + continuation(t) =~= head + seq!['\r', '\n'] + tail);
    }
}

/// No physical line of a wrapped line is longer than 72 characters.
pub proof fn lemma_wrap_width(s: Seq<char>)
    requires
        forall|k: int| 0 <= k < s.len() ==> s[k] != '\r' && s[k] != '\n',
    ensures
        runs_within(wrapped(s), 72),
{
    if s.len() < 72 {
        lemma_runs_short(s, 72);
    } else {
        let tail = seq![' '] + continuation(s.skip(72));
        lemma_continuation_runs(s.skip(72));
        lemma_runs_short(s.take(72), 72);
        lemma_runs_join(s.take(72), tail, 72);
        assert(wrapped(s) =~= s.take(72) + seq!['\r', '\n'] + tail);
    }
}


/// How many continuation breaks `"\r\n "` a wrapped line holds.
pub open spec fn breaks(w: Seq<char>) -> nat
    decreases w.len(),
{
    if w.len() == 0 {
        0
    } else if w.len() >= 3 && w.take(3) == line_break() {
        1 + breaks(w.skip(3))
    } else {
        breaks(w.skip(1))
    }
}

proof fn lemma_breaks_plain(a: Seq<char>, b: Seq<char>)
    requires
        forall|k: int| 0 <= k < a.len() ==> a[k] != '\r',
    ensures
        breaks(a + b) == breaks(b),
    decreases a.len(),
{
    if a.len() > 0 {
        let w = a + b;
        assert(w[0] == a[0]);
        assert(w.skip(1) =~= a.skip(1) + b);
        lemma_breaks_plain(a.skip(1), b);
        assert(w.take(3)[0] != '\r' || w.len() < 3);
    }
}

proof fn lemma_breaks_break(b: Seq<char>)
    ensures
        breaks(line_break() + b) == 1 + breaks(b),
{
    let w = line_break() + b;
    assert(w.take(3) =~= line_break());
    assert(w.skip(3) =~= b);
}

proof fn lemma_continuation_breaks(t: Seq<char>)
    requires
        forall|k: int| 0 <= k < t.len() ==> t[k] != '\r',
    ensures
        breaks(continuation(t)) == t.len() / 71,
    decreases t.len(),
{
    if t.len() < 71 {
        lemma_breaks_plain(t, Seq::empty());
        assert(t + Seq::<char>::empty() =~= t);
    } else {
        let rest = continuation(t.skip(71));
        lemma_continuation_breaks(t.skip(71));
        assert(t.take(71) + line_break() + rest =~= t.take(71) + (line_break() + rest));
        lemma_breaks_plain(t.take(71), line_break() + rest);
        lemma_breaks_break(rest);
        assert((t.len() - 71) / 71 + 1 == t.len() / 71) by (nonlinear_arith)
            requires t.len() >= 71;
    }
}

/// A wrapped line of `n` characters holds `(n - 1) / 71` continuation breaks: one after
/// the first 72 characters and one after each further 71.
pub proof fn lemma_wrap_breaks(s: Seq<char>)
    requires
        forall|k: int| 0 <= k < s.len() ==> s[k] != '\r',
    ensures
        breaks(wrapped(s)) == if s.len() == 0 {
            0
        } else {
            (s.len() - 1) / 71
        },
{
    if s.len() < 72 {
        lemma_breaks_plain(s, Seq::empty());
        assert(s + Seq::<char>::empty() =~= s);
        assert(s.len() > 0 ==> (s.len() - 1) / 71 == 0);
    } else {
        let rest = continuation(s.skip(72));
        lemma_continuation_breaks(s.skip(72));
        assert(s.take(72) + line_break() + rest =~= s.take(72) + (line_break() + rest));
        lemma_breaks_plain(s.take(72), line_break() + rest);
        lemma_breaks_break(rest);
        assert((s.len() - 72) / 71 + 1 == (s.len() - 1) / 71) by (nonlinear_arith)
            requires s.len() >= 72;
    }
}

/// `t` with each `"\n\r\n"` collapsed to `"\n"`, scanning from the left.
pub open spec fn collapsed(t: Seq<char>) -> Seq<char>
    decreases t.len(),
{
    if t.len() < 3 {
        t
    } else if t.take(3) == seq!['\n', '\r', '\n'] {
        seq!['\n'] + collapsed(t.skip(3))
    } else {
        seq![t[0]] + collapsed(t.skip(1))
    }
}

/// Collapses each `"\n\r\n"` of `t` to `"\n"`.
pub fn collapse_line_ends(t: &str) -> (r: String)
    ensures
        r@ == collapsed(t@),
{
    let n = t.unicode_len();
    let mut r = String::new();
    let mut i: usize = 0;
    assert(t@.skip(0) =~= t@);
    while i < n
        invariant
            n == t@.len(),
            i <= n,
            r@ + collapsed(t@.skip(i as int)) == collapsed(t@),
        decreases n - i,
    {
        let ghost u = t@.skip(i as int);
        let ghost r0 = r@;
        if n - i >= 3 && t.get_char(i) == '\n' && t.get_char(i + 1) == '\r' && t.get_char(i + 2) == '\n' {
            proof {
                reveal_strlit("\n");
                assert(u.take(3) =~= seq!['\n', '\r', '\n']);
                assert(u.skip(3) =~= t@.skip(i + 3));
            }
            r.append("\n");
            assert(r@ + collapsed(t@.skip(i + 3)) =~= r0 + collapsed(u));
            i = i + 3;
        } else {
            proof {
                assert(u.skip(1) =~= t@.skip(i + 1));
                if u.len() >= 3 {
                    assert(u.take(3)[0] == t@[i as int] && u.take(3)[1] == t@[i + 1] && u.take(3)[2] == t@[i + 2]);
                }
            }
            let c = t.substring_char(i, i + 1);
            r.append(c);
            assert(r@ + collapsed(t@.skip(i + 1)) =~= r0 + collapsed(u));
            i = i + 1;
        }
    }
    assert(r@ == r@ + collapsed(t@.skip(n as int)));
    r
}

/// Each line of `t` (the parts between `'\n'`) wrapped at 72 characters.
pub open spec fn wrapped_text(t: Seq<char>) -> Seq<char>
    decreases t.len(),
{
    let i = index_of_from(t, '\n', 0);
    if 0 <= i < t.len() {
        wrapped(t.take(i)) + seq!['\n'] + wrapped_text(t.skip(i + 1))
    } else {
        wrapped(t)
    }
}

/// Wraps each line of `t` at 72 characters.
pub fn wrap_manifest_text(t: &str) -> (r: String)
    ensures
        r@ == wrapped_text(t@),
{
    let n = t.unicode_len();
    let mut r = String::new();
    let mut start: usize = 0;
    assert(t@.skip(0) =~= t@);
    loop
        invariant
            n == t@.len(),
            start <= n,
            r@ + wrapped_text(t@.skip(start as int)) == wrapped_text(t@),
        decreases n - start,
    {
        let ghost u = t@.skip(start as int);
        let ghost r0 = r@;
        proof {
            lemma_index_of_from(t@, '\n', start as int);
            lemma_index_of_from(u, '\n', 0);
        }
        match find_char(t, '\n', start) {
            Some(i) => {
                proof {
                    assert forall|k: int| 0 <= k < i - start implies u[k] != '\n' by {
                        assert(u[k] == t@[start + k]);
                    }
                    assert(u[i - start] == '\n');
                    assert(index_of_from(u, '\n', 0) == i - start);
                    assert(u.take(i - start) =~= t@.subrange(start as int, i as int));
                    assert(u.skip(i - start + 1) =~= t@.skip(i + 1));
                    reveal_strlit("\n");
                }
                let line = wrap_manifest_line(t.substring_char(start, i));
                r.append(line.as_str());
                r.append("\n");
                assert(r@ + wrapped_text(t@.skip(i + 1)) =~= r0 + wrapped_text(u));
                start = i + 1;
            },
            None => {
                proof {
                    assert forall|k: int| 0 <= k < u.len() implies u[k] != '\n' by {
                        assert(u[k] == t@[start + k]);
                    }
                    assert(u =~= t@.subrange(start as int, n as int));
                }
                let line = wrap_manifest_line(t.substring_char(start, n));
                r.append(line.as_str());
                return r;
            },
        }
    }
}

/// The library paths joined, each after a space, with backslashes turned into slashes.
pub open spec fn joined_paths(paths: Seq<Seq<char>>) -> Seq<char>
    decreases paths.len(),
{
    if paths.len() == 0 {
        Seq::empty()
    } else {
        joined_paths(paths.drop_last()) + seq![' '] + swap_char(paths.last(), '\\', '/')
    }
}

pub open spec fn class_path_prefix() -> Seq<char> {
    seq!['C', 'l', 'a', 's', 's', '-', 'P', 'a', 't', 'h', ':']
}

pub open spec fn version_prefix() -> Seq<char> {
    seq!['M', 'i', 'n', 'e', 'c', 'r', 'a', 'f', 't', '-', 'V', 'e', 'r', 's', 'i', 'o', 'n', ':', ' ']
}

/// The `Class-Path` line naming the given library paths.
pub fn class_path_line(paths: &Vec<String>) -> (r: String)
    ensures
        r@ == class_path_prefix() + joined_paths(paths@.map_values(|p: String| p@)),
{
    proof {
        reveal_strlit("Class-Path:");
        reveal_strlit(" ");
        reveal_strlit("/");
    }
    let ghost ps = paths@.map_values(|p: String| p@);
    let mut r = "Class-Path:".to_owned();
    let mut i: usize = 0;
    while i < paths.len()
        invariant
            i <= paths.len(),
            ps == paths@.map_values(|p: String| p@),
            r@ == class_path_prefix() + joined_paths(ps.take(i as int)),
        decreases paths.len() - i,
    {
        proof {
            reveal_strlit(" ");
            reveal_strlit("/");
            assert(ps.take(i + 1).drop_last() =~= ps.take(i as int));
            assert(ps.take(i + 1).last() == paths@[i as int]@);
        }
        r.append(" ");
        let p = replace_char(paths[i].as_str(), '\\', "/");
        r.append(p.as_str());
        assert(r@ =~= class_path_prefix() + joined_paths(ps.take(i + 1)));
        i += 1;
    }
    assert(ps.take(paths.len() as int) =~= ps);
    r
}

/// The manifest of the server launcher: the template's lines with their line ends
/// collapsed, then the class path and the game version, every line wrapped.
pub open spec fn launcher_manifest(template: Seq<char>, paths: Seq<Seq<char>>, version: Seq<char>) -> Seq<char> {
    wrapped_text(collapsed(template)) + wrapped(class_path_prefix() + joined_paths(paths)) + seq!['\r', '\n']
        + wrapped(version_prefix() + version) + seq!['\r', '\n']
}

/// Builds the server launcher's manifest from the template manifest, the library paths
/// relative to the installation and the game version.
pub fn build_launcher_manifest(template: &str, library_paths: &Vec<String>, version_id: &str) -> (r: String)
    ensures
        r@ == launcher_manifest(template@, library_paths@.map_values(|p: String| p@), version_id@),
{
    proof {
        reveal_strlit("\r\n");
        reveal_strlit("Minecraft-Version: ");
    }
    let pre = collapse_line_ends(template);
    let mut r = wrap_manifest_text(pre.as_str());
    let cp = class_path_line(library_paths);
    let cpw = wrap_manifest_line(cp.as_str());
    r.append(cpw.as_str());
    r.append("\r\n");
    let mut v = "Minecraft-Version: ".to_owned();
    v.append(version_id);
    assert(v@ =~= version_prefix() + version_id@);
    let vw = wrap_manifest_line(v.as_str());
    r.append(vw.as_str());
    r.append("\r\n");
    assert("\r\n"@ =~= seq!['\r', '\n']);
    assert(r@ =~= launcher_manifest(template@, library_paths@.map_values(|p: String| p@), version_id@));
    r
}

/// The characters of `t` before its first `'\n'`.
pub open spec fn first_line(t: Seq<char>) -> Seq<char> {
    let i = index_of_from(t, '\n', 0);
    if 0 <= i < t.len() {
        t.take(i)
    } else {
        t
    }
}

/// The value of the first line of `t` that starts with `prefix`, with the prefix and the
/// surrounding ASCII whitespace taken off.
pub open spec fn attribute_value(t: Seq<char>, prefix: Seq<char>) -> Option<Seq<char>>
    decreases t.len(),
{
    let i = index_of_from(t, '\n', 0);
    let line = first_line(t);
    if is_prefix(prefix, line) {
        Some(trimmed(line.skip(prefix.len() as int)))
    } else if 0 <= i < t.len() {
        attribute_value(t.skip(i + 1), prefix)
    } else {
        None
    }
}

/// Looks up `attribute` in the manifest text: the first line that starts with
/// `"<attribute>: "` gives the value, trimmed.
pub fn read_manifest_attribute(manifest: &str, attribute: &str) -> (r: Result<String, InstallError>)
    ensures
        match attribute_value(manifest@, attribute@ + seq![':', ' ']) {
            Some(v) => r matches Ok(s) && s@ == v,
            None => r matches Err(InstallError::Archive(m)) && m@ == "Couldn't find '"@ + attribute@ + ": "@
                + "' attribute in jar manifest!"@,
        },
{
    proof {
        reveal_strlit(": ");
    }
    let mut prefix = attribute.to_owned();
    prefix.append(": ");
    let ghost pv = attribute@ + seq![':', ' '];
    assert(prefix@ =~= pv);
    let n = manifest.unicode_len();
    let mut start: usize = 0;
    assert(manifest@.skip(0) =~= manifest@);
    loop
        invariant
            n == manifest@.len(),
            start <= n,
            prefix@ == pv,
            pv == attribute@ + seq![':', ' '],
            attribute_value(manifest@.skip(start as int), pv) == attribute_value(manifest@, pv),
        decreases n - start,
    {
        let ghost u = manifest@.skip(start as int);
        proof {
            lemma_index_of_from(manifest@, '\n', start as int);
            lemma_index_of_from(u, '\n', 0);
        }
        let found = find_char(manifest, '\n', start);
        let end = match found {
            Some(i) => i,
            None => n,
        };
        proof {
            let j = index_of_from(u, '\n', 0);
            assert(first_line(u) == manifest@.subrange(start as int, end as int) && (end < n ==> 0 <= j
                < u.len() && u.skip(j + 1) == manifest@.skip(end + 1)) && (end == n ==> !(0 <= j
                < u.len()))) by {
                match found {
                    Some(i) => {
                        assert forall|k: int| 0 <= k < i - start implies u[k] != '\n' by {
                            assert(u[k] == manifest@[start + k]);
                        }
                        assert(u[i - start] == '\n');
                        assert(j == i - start);
                        assert(u.take(i - start) =~= manifest@.subrange(start as int, i as int));
                        assert(u.skip(i - start + 1) =~= manifest@.skip(i + 1));
                    },
                    None => {
                        assert forall|k: int| 0 <= k < u.len() implies u[k] != '\n' by {
                            assert(u[k] == manifest@[start + k]);
                        }
                        assert(u =~= manifest@.subrange(start as int, n as int));
                    },
                }
            }
        }
        let line = manifest.substring_char(start, end);
        if starts_with(line, prefix.as_str()) {
            let m = prefix.unicode_len();
            let value = line.substring_char(m, line.unicode_len());
            assert(value@ =~= line@.skip(m as int));
            assert(attribute_value(u, pv) == Some(trimmed(value@)));
            return Ok(trim_ascii(value));
        }
        assert(!is_prefix(pv, first_line(u)));
        if end == n {
            assert(attribute_value(u, pv) == None::<Seq<char>>);
            proof {
                reveal_strlit(": ");
                assert(": "@ =~= seq![':', ' ']);
            }
            let mut msg = "Couldn't find '".to_owned();
            msg.append(prefix.as_str());
            msg.append("' attribute in jar manifest!");
            return Err(InstallError::Archive(msg));
        }
        start = end + 1;
    }
}

} // verus!
