use ornithe_installer::error::InstallError;
use ornithe_installer::fetch::library_downloads;
use ornithe_installer::maven::{latest_release_url, latest_version_url, split_artifact, try_split_artifact};
use ornithe_installer::meta::ProfileJsonLibrary;

#[test]
fn coordinate_maps_to_repository_path() {
    assert_eq!(split_artifact("g.h:a:v"), "g/h/a/v/a-v.jar");
    assert_eq!(
        split_artifact("net.fabricmc:fabric-loader:0.16.0"),
        "net/fabricmc/fabric-loader/0.16.0/fabric-loader-0.16.0.jar"
    );
}

#[test]
fn version_may_hold_colons() {
    assert_eq!(split_artifact("g:a:1:natives"), "g/a/1:natives/a-1:natives.jar");
}

#[test]
fn non_coordinates_have_no_path() {
    assert_eq!(try_split_artifact("nocolon"), None);
    assert_eq!(try_split_artifact("one:colon"), None);
    assert_eq!(try_split_artifact("g.h:a:v"), Some("g/h/a/v/a-v.jar".to_string()));
}

#[test]
fn distinct_coordinates_give_distinct_paths() {
    assert_ne!(split_artifact("a.b:c:d"), split_artifact("a:b.c:d"));
    assert_ne!(split_artifact("a:b:c"), split_artifact("a:b:c2"));
}

#[test]
fn library_downloads_follow_the_layout() {
    let libs = vec![ProfileJsonLibrary {
        name: "net.ornithemc:calamus-intermediary:1.2.1".to_string(),
        url: "https://maven.ornithemc.net/releases/".to_string(),
    }];
    let d = library_downloads(&libs).unwrap();
    assert_eq!(d.len(), 1);
    assert_eq!(
        d[0].url,
        "https://maven.ornithemc.net/releases/net/ornithemc/calamus-intermediary/1.2.1/calamus-intermediary-1.2.1.jar"
    );
    assert_eq!(d[0].path, "libraries/net/ornithemc/calamus-intermediary/1.2.1/calamus-intermediary-1.2.1.jar");
}

#[test]
fn library_downloads_reject_bad_names() {
    let libs = vec![ProfileJsonLibrary { name: "broken".to_string(), url: "https://x/".to_string() }];
    assert!(matches!(library_downloads(&libs), Err(InstallError::Download(_))));
}

#[test]
fn agent_urls() {
    assert_eq!(
        latest_release_url("flap"),
        "https://maven.ornithemc.net/api/maven/latest/file/releases/net/ornithemc/flap"
    );
    assert_eq!(
        latest_version_url("flap"),
        "https://maven.ornithemc.net/api/maven/latest/version/releases/net/ornithemc/flap"
    );
}

#[test]
fn repository_url_without_slash_is_joined() {
    let libs = vec![ProfileJsonLibrary {
        name: "net.ornithemc:calamus-intermediary:1.2.1".to_string(),
        url: "https://maven.ornithemc.net/releases".to_string(),
    }];
    let d = library_downloads(&libs).unwrap();
    assert_eq!(
        d[0].url,
        "https://maven.ornithemc.net/releases/net/ornithemc/calamus-intermediary/1.2.1/calamus-intermediary-1.2.1.jar"
    );
}
