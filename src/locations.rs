use vstd::prelude::*;
use crate::text::{join_path, joined};

verus! {

pub open spec fn first_of(a: Option<Seq<char>>, b: Option<Seq<char>>, default: Seq<char>) -> Seq<char> {
    match a {
        Some(x) => x,
        None => match b {
            Some(y) => y,
            None => default,
        },
    }
}

pub open spec fn opt(o: Option<&str>) -> Option<Seq<char>> {
    match o {
        Some(s) => Some(s@),
        None => None,
    }
}

fn pick(a: Option<String>, b: Option<&str>, default: &str) -> (r: String)
    ensures
        r@ == first_of(
            match a {
                Some(x) => Some(x@),
                None => None,
            },
            opt(b),
            default@,
        ),
{
    match a {
        Some(x) => x,
        None => match b {
            Some(y) => y.to_owned(),
            None => default.to_owned(),
        },
    }
}

pub open spec fn dot_minecraft_view(home: Option<Seq<char>>, dot_exists: bool, flatpak_exists: bool, current_dir: Option<
    Seq<char>,
>) -> Seq<char> {
    let mc = match home {
        Some(h) => Some(
            if flatpak_exists && !dot_exists {
                joined(h, ".var/app/com.mojang.Minecraft/.minecraft"@)
            } else {
                joined(h, ".minecraft"@)
            },
        ),
        None => None,
    };
    first_of(mc, current_dir, "/"@)
}

/// The default game directory: `.minecraft` in the home directory, or the Flatpak one
/// when only that exists; without a home directory, the current directory, else `/`.
pub fn dot_minecraft_location(home: Option<&str>, dot_exists: bool, flatpak_exists: bool, current_dir: Option<&str>) -> (r: String)
    ensures
        r@ == dot_minecraft_view(opt(home), dot_exists, flatpak_exists, opt(current_dir)),
{
    let mc = match home {
        Some(h) => Some(
            if flatpak_exists && !dot_exists {
                join_path(h, ".var/app/com.mojang.Minecraft/.minecraft")
            } else {
                join_path(h, ".minecraft")
            },
        ),
        None => None,
    };
    pick(mc, current_dir, "/")
}

/// The default output directory: the current directory, else the home directory, else `/`.
pub fn current_location(current_dir: Option<&str>, home: Option<&str>) -> (r: String)
    ensures
        r@ == first_of(opt(current_dir), opt(home), "/"@),
{
    pick(
        match current_dir {
            Some(c) => Some(c.to_owned()),
            None => None,
        },
        home,
        "/",
    )
}

/// The default server directory: `server` in the current directory, else in the home
/// directory, else in `/`.
pub fn server_location(current_dir: Option<&str>, home: Option<&str>) -> (r: String)
    ensures
        r@ == joined(first_of(opt(current_dir), opt(home), "/"@), "server"@),
{
    let base = current_location(current_dir, home);
    join_path(base.as_str(), "server")
}

} // verus!

verus! {

/// `base` joined with `rest` as a Windows path join does: by one `\`, unless `base`
/// already ends with a separator.
pub open spec fn windows_joined(base: Seq<char>, rest: Seq<char>) -> Seq<char> {
    if base.len() > 0 && (base.last() == '\\' || base.last() == '/') {
        base + rest
    } else {
        base + seq!['\\'] + rest
    }
}

fn windows_join(base: &str, rest: &str) -> (r: String)
    ensures
        r@ == windows_joined(base@, rest@),
{
    proof {
        reveal_strlit("\\");
    }
    let n = base.unicode_len();
    if n > 0 && (base.get_char(n - 1) == '\\' || base.get_char(n - 1) == '/') {
        crate::text::concat(base, rest)
    } else {
        let mut r = crate::text::concat(base, "\\");
        r.append(rest);
        r
    }
}

/// The default game directory on Windows: `.minecraft` in `%APPDATA%`; without it, the
/// current directory, else `C:\`.
pub fn dot_minecraft_location_windows(appdata: Option<&str>, current_dir: Option<&str>) -> (r: String)
    ensures
        r@ == first_of(
            match appdata {
                Some(a) => Some(windows_joined(a@, ".minecraft"@)),
                None => None,
            },
            opt(current_dir),
            "C:\\"@,
        ),
{
    let mc = match appdata {
        Some(a) => Some(windows_join(a, ".minecraft")),
        None => None,
    };
    pick(mc, current_dir, "C:\\")
}

/// The default game directory on macOS: `Library/Application Support/minecraft` in the
/// home directory; without one, the current directory, else `/`.
pub fn dot_minecraft_location_macos(home: Option<&str>, current_dir: Option<&str>) -> (r: String)
    ensures
        r@ == first_of(
            match home {
                Some(h) => Some(joined(h@, "Library/Application Support/minecraft"@)),
                None => None,
            },
            opt(current_dir),
            "/"@,
        ),
{
    let mc = match home {
        Some(h) => Some(join_path(h, "Library/Application Support/minecraft")),
        None => None,
    };
    pick(mc, current_dir, "/")
}

/// The default output directory on Windows: the current directory, else the home
/// directory, else `C:\`.
pub fn current_location_windows(current_dir: Option<&str>, home: Option<&str>) -> (r: String)
    ensures
        r@ == first_of(opt(current_dir), opt(home), "C:\\"@),
{
    pick(
        match current_dir {
            Some(c) => Some(c.to_owned()),
            None => None,
        },
        home,
        "C:\\",
    )
}

/// The default server directory on Windows: `server` in the current directory, else in
/// the home directory, else in `C:\`.
pub fn server_location_windows(current_dir: Option<&str>, home: Option<&str>) -> (r: String)
    ensures
        r@ == windows_joined(first_of(opt(current_dir), opt(home), "C:\\"@), "server"@),
{
    let base = current_location_windows(current_dir, home);
    windows_join(base.as_str(), "server")
}

} // verus!
