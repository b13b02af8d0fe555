use ornithe_installer::error::InstallError;
use ornithe_installer::json::JsonValue;
use ornithe_installer::locations::{
    current_location, current_location_windows, dot_minecraft_location, dot_minecraft_location_macos,
    dot_minecraft_location_windows, server_location, server_location_windows,
};
use ornithe_installer::meta::{
    intermediary_generations_url, intermediary_versions_url, launch_json_url, loader_versions_url,
    profile_libraries_url, GameSide, IntermediaryVersion, LoaderType, LoaderVersion,
};
use ornithe_installer::select::{
    available_versions, displayed_versions, listed_loader_versions, parse_loader_type, select_loader_version,
    select_minecraft_version,
};
use ornithe_installer::versions::{
    find_lwjgl_version, vanilla_launch_json, MinecraftVersion, VersionDetails, VersionDownload, VersionDownloads,
};

fn mv(id: &str, kind: &str) -> MinecraftVersion {
    MinecraftVersion {
        id: id.to_string(),
        kind: kind.to_string(),
        url: String::new(),
        release_time: String::new(),
        details: String::new(),
    }
}

fn iv(v: &str) -> IntermediaryVersion {
    IntermediaryVersion { version: v.to_string(), stable: true, maven: format!("net.ornithemc:calamus-intermediary:{}", v) }
}

fn lv(v: &str) -> LoaderVersion {
    LoaderVersion { version: v.to_string(), stable: true, maven: String::new(), separator: ".".to_string(), build: 1 }
}

#[test]
fn sides_and_loaders() {
    assert_eq!(GameSide::Client.id(), "client");
    assert_eq!(GameSide::Server.other_side(), GameSide::Client);
    assert_eq!(LoaderType::Quilt.get_name(), "quilt");
    assert_eq!(LoaderType::Fabric.get_localized_name(), "Fabric");
    assert_eq!(LoaderType::Quilt.get_maven_uid(), "org.quiltmc.quilt-loader");
    assert!(lv("0.16.0-beta.1").is_beta());
    assert!(lv("0.16.0").is_stable());
}

#[test]
fn metadata_urls() {
    assert_eq!(
        launch_json_url(GameSide::Client, "1.2.1", LoaderType::Fabric, "0.16.0", None),
        "https://meta.ornithemc.net/v3/versions/fabric-loader/1.2.1/0.16.0/profile/json"
    );
    assert_eq!(
        launch_json_url(GameSide::Server, "1.2.1", LoaderType::Quilt, "0.26.0", Some(2)),
        "https://meta.ornithemc.net/v3/versions/gen2/quilt-loader/1.2.1/0.26.0/server/json"
    );
    assert_eq!(loader_versions_url(Some(12), LoaderType::Quilt), "https://meta.ornithemc.net/v3/versions/gen12/quilt-loader");
    assert_eq!(intermediary_versions_url(None), "https://meta.ornithemc.net/v3/versions/intermediary");
    assert_eq!(profile_libraries_url(None, "1.2.1"), "https://meta.ornithemc.net/v3/versions/libraries/1.2.1");
    assert_eq!(intermediary_generations_url(), "https://meta.ornithemc.net/v3/versions/intermediary_generations");
}

#[test]
fn version_kinds_and_mapping_ids() {
    assert!(mv("a", "snapshot").is_snapshot());
    assert!(mv("a", "old_alpha").is_historical());
    assert!(!mv("a", "pending").is_historical());
    assert_eq!(mv("1.2.1", "release").get_id(true, GameSide::Client), "1.2.1");
    assert_eq!(mv("b1.0", "old_beta").get_id(false, GameSide::Server), "b1.0-server");
}

#[test]
fn game_version_selection() {
    let versions = vec![mv("1.2.1", "release"), mv("b1.0", "old_beta"), mv("1.3", "release")];
    let ints = vec![iv("1.2.1"), iv("b1.0-client")];
    let available = available_versions(&versions, &ints);
    assert_eq!(available.iter().map(|v| v.id.clone()).collect::<Vec<_>>(), vec!["1.2.1".to_string(), "b1.0".to_string()]);
    let (v, m) = select_minecraft_version(&available, &ints, "1.2.1", GameSide::Server).unwrap();
    assert_eq!(v.id, "1.2.1");
    assert_eq!(m.version, "1.2.1");
    let (_, m) = select_minecraft_version(&available, &ints, "b1.0", GameSide::Client).unwrap();
    assert_eq!(m.version, "b1.0-client");
    assert!(matches!(select_minecraft_version(&available, &ints, "b1.0", GameSide::Server), Err(InstallError::Resolution(_))));
    assert!(matches!(select_minecraft_version(&available, &ints, "1.3", GameSide::Client), Err(InstallError::Resolution(_))));
}

#[test]
fn loader_selection() {
    let vs = vec![lv("0.17.0-beta.1"), lv("0.16.0"), lv("0.15.0")];
    assert_eq!(select_loader_version(&vs, "latest").unwrap().version, "0.17.0-beta.1");
    assert_eq!(select_loader_version(&vs, "0.16.0").unwrap().version, "0.16.0");
    assert!(matches!(select_loader_version(&vs, "9"), Err(InstallError::Resolution(_))));
    assert!(matches!(select_loader_version(&vec![], "latest"), Err(InstallError::Resolution(_))));
    assert_eq!(listed_loader_versions(&vs, false), vec!["0.16.0".to_string(), "0.15.0".to_string()]);
    assert_eq!(listed_loader_versions(&vs, true).len(), 3);
    assert_eq!(parse_loader_type("quilt").unwrap(), LoaderType::Quilt);
    assert_eq!(parse_loader_type("fabric").unwrap(), LoaderType::Fabric);
    assert!(matches!(parse_loader_type("forge"), Err(InstallError::Validation(_))));
}

#[test]
fn version_display_filter() {
    let vs = vec![mv("1.2.1", "release"), mv("12w01a", "snapshot"), mv("a1.0", "old_alpha"), mv("p", "pending")];
    assert_eq!(displayed_versions(&vs, false, false), vec!["1.2.1".to_string()]);
    assert_eq!(displayed_versions(&vs, true, false), vec!["1.2.1".to_string(), "12w01a".to_string()]);
    assert_eq!(displayed_versions(&vs, false, true), vec!["1.2.1".to_string(), "a1.0".to_string()]);
    assert_eq!(displayed_versions(&vs, true, true).len(), 4);
}

fn details(libs: Option<JsonValue>) -> VersionDetails {
    VersionDetails {
        libraries: libs,
        shared_mappings: true,
        normalized_version: "1.2.1".to_string(),
        downloads: VersionDownloads {
            client: None,
            server: Some(VersionDownload { sha1: "ab".to_string(), size: 3, url: "https://x/server.jar".to_string() }),
        },
    }
}

#[test]
fn lwjgl_and_downloads_from_details() {
    let libs = JsonValue::Array(vec![
        JsonValue::Str("net.java.jinput:jinput:2.0.5".to_string()),
        JsonValue::Str("org.lwjgl.lwjgl:lwjgl:2.9.4:natives".to_string()),
    ]);
    let v = mv("1.2.1", "release");
    assert_eq!(find_lwjgl_version(&v, &details(Some(libs))).unwrap(), "2.9.4");
    assert!(matches!(find_lwjgl_version(&v, &details(None)), Err(InstallError::Metadata(_))));
    let d = details(None);
    assert_eq!(v.get_jar_download_url(&d, GameSide::Server).unwrap().url, "https://x/server.jar");
    assert!(matches!(v.get_jar_download_url(&d, GameSide::Client), Err(InstallError::Metadata(_))));
}

#[test]
fn vanilla_descriptor_is_renamed() {
    let doc = JsonValue::Object(vec![("id".to_string(), JsonValue::Str("1.2.1".to_string()))]);
    let (id, j) = vanilla_launch_json(&mv("1.2.1", "release"), doc).unwrap();
    assert_eq!(id, "1.2.1-vanilla");
    assert_eq!(j.get_str("id").map(|x| x.as_str()), Some("1.2.1-vanilla"));
    assert!(matches!(vanilla_launch_json(&mv("1.2.1", "release"), JsonValue::Null), Err(InstallError::Metadata(_))));
}

#[test]
fn default_locations() {
    assert_eq!(dot_minecraft_location(Some("/home/u"), true, false, Some("/cwd")), "/home/u/.minecraft");
    assert_eq!(
        dot_minecraft_location(Some("/home/u/"), false, true, None),
        "/home/u/.var/app/com.mojang.Minecraft/.minecraft"
    );
    assert_eq!(dot_minecraft_location(None, false, false, Some("/cwd")), "/cwd");
    assert_eq!(dot_minecraft_location(None, false, false, None), "/");
    assert_eq!(current_location(None, Some("/home/u")), "/home/u");
    assert_eq!(server_location(Some("/cwd"), None), "/cwd/server");
    assert_eq!(server_location(None, None), "/server");
}

#[test]
fn missing_lwjgl_message_names_the_version() {
    match find_lwjgl_version(&mv("1.2.1", "release"), &details(None)) {
        Err(InstallError::Metadata(m)) => assert_eq!(m, "Unable to find lwjgl version for Minecraft 1.2.1"),
        _ => panic!("expected a metadata error"),
    }
}

#[test]
fn repeated_mapping_id_takes_the_last() {
    let mut second = iv("1.2.1");
    second.maven = "net.ornithemc:calamus-intermediary:1.2.1:v2".to_string();
    let ints = vec![iv("1.2.1"), second];
    let available = vec![mv("1.2.1", "release")];
    let (_, m) = select_minecraft_version(&available, &ints, "1.2.1", GameSide::Client).unwrap();
    assert_eq!(m.maven, "net.ornithemc:calamus-intermediary:1.2.1:v2");
}

#[test]
fn windows_and_macos_locations() {
    assert_eq!(dot_minecraft_location_windows(Some("C:\\Users\\u\\AppData\\Roaming"), None), "C:\\Users\\u\\AppData\\Roaming\\.minecraft");
    assert_eq!(dot_minecraft_location_windows(None, None), "C:\\");
    assert_eq!(dot_minecraft_location_macos(Some("/Users/u"), None), "/Users/u/Library/Application Support/minecraft");
    assert_eq!(current_location_windows(None, None), "C:\\");
    assert_eq!(server_location_windows(Some("D:\\games"), None), "D:\\games\\server");
    assert_eq!(server_location_windows(None, None), "C:\\server");
}
