use ornithe_installer::client::plan_client_install;
use ornithe_installer::error::InstallError;
use ornithe_installer::json::JsonValue;
use ornithe_installer::meta::ProfileJsonLibrary;
use ornithe_installer::versions::MinecraftVersion;

fn s(x: &str) -> JsonValue {
    JsonValue::Str(x.to_string())
}

fn obj(pairs: Vec<(&str, JsonValue)>) -> JsonValue {
    JsonValue::Object(pairs.into_iter().map(|(k, v)| (k.to_string(), v)).collect())
}

fn version() -> MinecraftVersion {
    MinecraftVersion {
        id: "1.2.1".to_string(),
        kind: "release".to_string(),
        url: "https://example.invalid/1.2.1.json".to_string(),
        release_time: "2012-03-01T00:00:00+00:00".to_string(),
        details: "https://example.invalid/1.2.1/details.json".to_string(),
    }
}

fn vanilla() -> JsonValue {
    obj(vec![
        ("id", s("1.2.1")),
        ("mainClass", s("net.minecraft.client.Minecraft")),
        ("minecraftArguments", s("${auth_player_name}")),
    ])
}

fn launch() -> JsonValue {
    obj(vec![
        ("id", s("fabric-loader-0.16.0-1.2.1")),
        ("inheritsFrom", s("1.2.1-vanilla")),
        ("mainClass", s("net.fabricmc.loader.impl.launch.knot.KnotClient")),
        (
            "libraries",
            JsonValue::Array(vec![
                obj(vec![("name", s("net.fabricmc:intermediary:1.2.1")), ("url", s("https://maven.fabricmc.net/"))]),
                obj(vec![("name", s("net.fabricmc:fabric-loader:0.16.0")), ("url", s("https://maven.fabricmc.net/"))]),
            ]),
        ),
    ])
}

fn upgrades() -> Vec<ProfileJsonLibrary> {
    vec![ProfileJsonLibrary { name: "org.ow2.asm:asm:9.7".to_string(), url: "https://maven.fabricmc.net/".to_string() }]
}

#[test]
fn client_install_writes_two_profiles() {
    let plan = plan_client_install("/game", true, &version(), vanilla(), launch(), &upgrades()).unwrap();
    assert_eq!(plan.vanilla_id, "1.2.1-vanilla");
    assert_eq!(plan.profile_id, "fabric-loader-0.16.0-1.2.1");
    assert_eq!(plan.clear_dirs, vec!["versions/1.2.1-vanilla".to_string(), "versions/fabric-loader-0.16.0-1.2.1".to_string()]);
    assert_eq!(plan.files.len(), 2);
    assert_eq!(plan.files[0].0, "versions/1.2.1-vanilla/1.2.1-vanilla.json");
    assert_eq!(plan.files[0].1.get_str("id").map(|x| x.as_str()), Some("1.2.1-vanilla"));
    assert_eq!(plan.files[1].0, "versions/fabric-loader-0.16.0-1.2.1/fabric-loader-0.16.0-1.2.1.json");
    let jvm = plan.files[1].1.get("arguments").unwrap().get("jvm").unwrap().as_array().unwrap();
    assert!(jvm[0].as_str().unwrap().starts_with("-javaagent:"));
    assert!(jvm[0].as_str().unwrap().ends_with("versions/fabric-loader-0.16.0-1.2.1/flap.jar"));
    assert_eq!(plan.agent.path, "versions/fabric-loader-0.16.0-1.2.1/flap.jar");
    assert_eq!(plan.agent.url, "https://maven.ornithemc.net/api/maven/latest/file/releases/net/ornithemc/flap");
}

#[test]
fn client_profile_renames_mappings_and_appends_upgrades() {
    let plan = plan_client_install("/game", true, &version(), vanilla(), launch(), &upgrades()).unwrap();
    let libs = plan.profile_json.get("libraries").unwrap().as_array().unwrap();
    assert_eq!(libs.len(), 3);
    assert_eq!(libs[0].get_str("name").map(|x| x.as_str()), Some("net.ornithemc:calamus-intermediary:1.2.1"));
    assert_eq!(libs[0].get_str("url").map(|x| x.as_str()), Some("https://maven.ornithemc.net/releases"));
    assert_eq!(libs[1].get_str("name").map(|x| x.as_str()), Some("net.fabricmc:fabric-loader:0.16.0"));
    assert_eq!(libs[2].get_str("name").map(|x| x.as_str()), Some("org.ow2.asm:asm:9.7"));
    assert_eq!(
        plan.profile_json.get_str("mainClass").map(|x| x.as_str()),
        Some("net.fabricmc.loader.impl.launch.knot.KnotClient")
    );
    assert_eq!(plan.profile_json.get_str("minecraftArguments").map(|x| x.as_str()), Some("${auth_player_name}"));
}

#[test]
fn client_install_needs_the_directory() {
    let r = plan_client_install("/game", false, &version(), vanilla(), launch(), &upgrades());
    match r {
        Err(InstallError::Validation(m)) => assert!(m.starts_with("The directory /game does not exist.")),
        _ => panic!("expected a validation error"),
    }
}

#[test]
fn client_install_needs_an_id() {
    let r = plan_client_install("/game", true, &version(), vanilla(), obj(vec![]), &upgrades());
    assert!(matches!(r, Err(InstallError::Metadata(_))));
    let r = plan_client_install("/game", true, &version(), s("x"), launch(), &upgrades());
    assert!(matches!(r, Err(InstallError::Metadata(_))));
}
