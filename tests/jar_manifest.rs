use ornithe_installer::error::InstallError;
use ornithe_installer::jar_manifest::{
    build_launcher_manifest, class_path_line, collapse_line_ends, read_manifest_attribute, wrap_manifest_line,
};

fn unwrap_breaks(w: &str) -> String {
    w.replace("\r\n ", "")
}

#[test]
fn class_path_of_two_hundred_characters_wraps() {
    let value: String = std::iter::repeat('x').take(200).collect();
    let w = wrap_manifest_line(&value);
    assert_eq!(w.matches("\r\n ").count(), 2);
    for line in w.split("\r\n") {
        assert!(line.chars().count() <= 72);
    }
    assert_eq!(unwrap_breaks(&w), value);

    let line = format!("Class-Path: {}", value);
    let w = wrap_manifest_line(&line);
    assert_eq!(w.matches("\r\n ").count(), 2);
    for part in w.split("\r\n") {
        assert!(part.chars().count() <= 72);
    }
    assert_eq!(unwrap_breaks(&w), line);
}

#[test]
fn short_lines_stay_whole() {
    assert_eq!(wrap_manifest_line("Main-Class: a.B"), "Main-Class: a.B");
    assert_eq!(wrap_manifest_line(""), "");
}

#[test]
fn wrap_breaks_after_seventy_two() {
    let l72: String = std::iter::repeat('a').take(72).collect();
    assert_eq!(wrap_manifest_line(&l72), format!("{}\r\n ", l72));
    let l73 = format!("{}b", l72);
    assert_eq!(wrap_manifest_line(&l73), format!("{}\r\n b", l72));
    let l143: String = std::iter::repeat('c').take(143).collect();
    let w = wrap_manifest_line(&l143);
    assert_eq!(w, format!("{}\r\n {}\r\n ", &l143[..72], &l143[72..]));
}

#[test]
fn line_ends_collapse() {
    assert_eq!(collapse_line_ends("a\n\r\nb"), "a\nb");
    assert_eq!(collapse_line_ends("A\r\nB\r\n\r\n"), "A\r\nB\r\n");
    assert_eq!(collapse_line_ends("plain"), "plain");
}

#[test]
fn class_path_uses_forward_slashes() {
    let paths = vec!["libraries/a.jar".to_string(), "libraries\\b.jar".to_string()];
    assert_eq!(class_path_line(&paths), "Class-Path: libraries/a.jar libraries/b.jar");
    assert_eq!(class_path_line(&vec![]), "Class-Path:");
}

fn sample_manifest() -> String {
    let template = "Manifest-Version: 1.0\r\nMain-Class: a.B\r\n\r\n";
    let paths = vec!["libraries/a.jar".to_string(), "libraries\\b.jar".to_string()];
    build_launcher_manifest(template, &paths, "1.2.1")
}

#[test]
fn launcher_manifest_is_assembled() {
    assert_eq!(
        sample_manifest(),
        "Manifest-Version: 1.0\r\nMain-Class: a.B\r\nClass-Path: libraries/a.jar libraries/b.jar\r\nMinecraft-Version: 1.2.1\r\n"
    );
}

#[test]
fn manifest_attributes_are_found() {
    let mf = sample_manifest();
    assert_eq!(read_manifest_attribute(&mf, "Minecraft-Version").unwrap(), "1.2.1");
    assert_eq!(read_manifest_attribute(&mf, "Main-Class").unwrap(), "a.B");
    assert!(matches!(read_manifest_attribute(&mf, "Nope"), Err(InstallError::Archive(_))));
}

#[test]
fn missing_attribute_is_named() {
    match read_manifest_attribute("Manifest-Version: 1.0\r\n", "Main-Class") {
        Err(InstallError::Archive(m)) => assert_eq!(m, "Couldn't find 'Main-Class: ' attribute in jar manifest!"),
        _ => panic!("expected an archive error"),
    }
}
