use ornithe_installer::error::InstallError;
use ornithe_installer::json::JsonValue;
use ornithe_installer::meta::{IntermediaryVersion, LoaderType, ProfileJsonLibrary};
use ornithe_installer::mmc::{
    agent_component, instance_config, instance_name, instance_target, intermediary_coordinates, library_component,
    lwjgl_component, minecraft_patch, plan_instance_package, transform_intermediary_patch, transform_pack_json,
    last_writes, PackageEntry,
};

fn s(x: &str) -> JsonValue {
    JsonValue::Str(x.to_string())
}

fn obj(pairs: Vec<(&str, JsonValue)>) -> JsonValue {
    JsonValue::Object(pairs.into_iter().map(|(k, v)| (k.to_string(), v)).collect())
}

#[test]
fn existing_instance_directory_is_refused() {
    let name = instance_name(2, LoaderType::Fabric, "1.2.1");
    assert_eq!(name, "Ornithe Gen2 Fabric 1.2.1");
    assert!(matches!(instance_target(&name, false, true), Err(InstallError::Validation(_))));
    assert_eq!(instance_target(&name, false, false).unwrap(), "Ornithe Gen2 Fabric 1.2.1");
    assert_eq!(instance_target(&name, true, true).unwrap(), "Ornithe Gen2 Fabric 1.2.1.zip");
}

#[test]
fn templates_are_filled() {
    let t = "${mc_version}|${intermediary_ver}|${loader_version}|${loader_name}|${loader_uid}|${lwjgl_version}|${lwjgl_major_ver}|${lwjgl_uid}";
    assert_eq!(
        transform_pack_json(t, "1.2.1", LoaderType::Quilt, "0.26.0", "2.9.4", "1.2.1"),
        "1.2.1|1.2.1|0.26.0|Quilt Loader|org.quiltmc.quilt-loader|2.9.4|2|org.lwjgl"
    );
    assert_eq!(
        transform_pack_json("${lwjgl_uid}${lwjgl_uid}", "x", LoaderType::Fabric, "y", "3.3.1", "z"),
        "org.lwjgl3org.lwjgl3"
    );
    assert_eq!(
        transform_intermediary_patch("${mc_version}/${intermediary_ver}/${intermediary_maven}", "1.2.1", "1.2.1-client", "net.ornithemc:calamus-intermediary"),
        "1.2.1/1.2.1-client/net.ornithemc:calamus-intermediary"
    );
    assert_eq!(instance_config("name=${profile_name}", "P", false), "name=P");
    assert_eq!(
        instance_config("name=${profile_name}", "P", true),
        "name=P\nOverrideCommands=true\nWrapperCommand=env __GL_THREADED_OPTIMIZATIONS=0"
    );
}

#[test]
fn intermediary_coordinates_drop_the_version() {
    let iv = IntermediaryVersion {
        version: "1.2.1".to_string(),
        stable: true,
        maven: "net.ornithemc:calamus-intermediary:1.2.1".to_string(),
    };
    assert_eq!(intermediary_coordinates(&iv).unwrap(), "net.ornithemc:calamus-intermediary");
    let bad = IntermediaryVersion { version: "1.2.2".to_string(), stable: true, maven: iv.maven.clone() };
    assert!(matches!(intermediary_coordinates(&bad), Err(InstallError::Metadata(_))));
}

#[test]
fn library_components_split_the_coordinate() {
    let lib = ProfileJsonLibrary { name: "net.ornithemc:osl:0.1.0".to_string(), url: "https://maven/".to_string() };
    let c = library_component(&lib).unwrap();
    assert_eq!(c.uid, "net.ornithemc.osl");
    assert_eq!(c.entry, obj(vec![("cachedName", s("osl")), ("cachedVersion", s("0.1.0")), ("uid", s("net.ornithemc.osl"))]));
    assert_eq!(
        c.patch,
        obj(vec![
            ("formatVersion", JsonValue::Number("1".to_string())),
            ("libraries", JsonValue::Array(vec![obj(vec![("name", s("net.ornithemc:osl:0.1.0")), ("url", s("https://maven/"))])])),
            ("name", s("osl")),
            ("type", s("release")),
            ("uid", s("net.ornithemc.osl")),
            ("version", s("0.1.0")),
        ])
    );
    let bad = ProfileJsonLibrary { name: "one:colon".to_string(), url: "u".to_string() };
    assert!(matches!(library_component(&bad), Err(InstallError::Metadata(_))));
}

#[test]
fn lwjgl_patch_only_off_the_vanilla_server() {
    assert!(lwjgl_component("https://libraries.minecraft.net/org/lwjgl", "2.9.4").is_none());
    let (uid, patch) = lwjgl_component("https://maven.legacyfabric.net/", "3.3.1").unwrap();
    assert_eq!(uid, "org.lwjgl3");
    assert_eq!(patch.get_str("name").map(|x| x.as_str()), Some("LWJGL 3"));
    assert_eq!(patch.get_str("version").map(|x| x.as_str()), Some("3.3.1"));
}

#[test]
fn agent_component_points_at_the_repository() {
    let c = agent_component("1.1.0");
    assert_eq!(c.uid, "net.ornithemc.flap");
    let agents = c.patch.get("+agents").unwrap().as_array().unwrap();
    assert_eq!(agents[0].get_str("name").map(|x| x.as_str()), Some("net.ornithemc:flap:1.1.0"));
    assert_eq!(agents[0].get_str("url").map(|x| x.as_str()), Some("https://maven.ornithemc.net/releases/"));
    assert_eq!(c.entry.get_str("cachedName").map(|x| x.as_str()), Some("Flap"));
}

#[test]
fn minecraft_patch_from_vanilla() {
    let vanilla = obj(vec![
        ("assetIndex", obj(vec![("id", s("pre-1.6"))])),
        ("downloads", obj(vec![("client", obj(vec![("url", s("https://x/client.jar"))]))])),
        ("libraries", JsonValue::Array(vec![obj(vec![("name", s("org.ow2.asm:asm:9.1"))]), obj(vec![("name", s("net.java.jinput:jinput:2.0.5"))])])),
        ("mainClass", s("net.minecraft.launchwrapper.Launch")),
        ("minecraftArguments", s("--username ${auth_player_name}")),
        ("releaseTime", s("2012-03-01")),
        ("type", s("release")),
    ]);
    let launch = obj(vec![("arguments", obj(vec![("jvm", JsonValue::Array(vec![s("-Dq=1")]))]))]);
    let p = minecraft_patch("1.2.1", "2.9.4", &vanilla, &launch).unwrap();
    let libs = p.get("libraries").unwrap().as_array().unwrap();
    assert_eq!(libs.len(), 1);
    assert_eq!(libs[0].get_str("name").map(|x| x.as_str()), Some("net.java.jinput:jinput:2.0.5"));
    assert_eq!(p.get("+traits"), Some(&JsonValue::Array(vec![s("texturepacks")])));
    assert_eq!(p.get("+jvmArgs"), Some(&JsonValue::Array(vec![s("-Dq=1")])));
    assert_eq!(p.get_str("minecraftArguments").map(|x| x.as_str()), Some("--username ${auth_player_name}"));
    let main_jar = p.get("mainJar").unwrap();
    assert_eq!(main_jar.get_str("name").map(|x| x.as_str()), Some("com.mojang:minecraft:1.2.1:client"));
    let req = p.get("requires").unwrap().as_array().unwrap();
    assert_eq!(req[0].get_str("uid").map(|x| x.as_str()), Some("org.lwjgl"));
    assert!(matches!(minecraft_patch("1.2.1", "2.9.4", &obj(vec![]), &launch), Err(InstallError::Metadata(_))));
}

#[test]
fn modern_game_arguments_are_joined() {
    let vanilla = obj(vec![
        ("downloads", obj(vec![("client", obj(vec![]))])),
        ("libraries", JsonValue::Array(vec![])),
        ("mainClass", s("net.minecraft.client.main.Main")),
        ("arguments", obj(vec![("game", JsonValue::Array(vec![s("--a"), obj(vec![]), s("b")]))])),
    ]);
    let p = minecraft_patch("1.14", "3.2.2", &vanilla, &obj(vec![])).unwrap();
    assert_eq!(p.get_str("minecraftArguments").map(|x| x.as_str()), Some("--a b"));
    assert_eq!(p.get("+traits"), Some(&JsonValue::Array(vec![s("FirstThreadOnMacOs")])));
    assert!(p.get("+jvmArgs").is_none());
}

#[test]
fn components_are_appended_to_the_graph() {
    let pack = obj(vec![("formatVersion", JsonValue::Number("1".to_string())), ("components", JsonValue::Array(vec![s("a")]))]);
    let r = ornithe_installer::mmc::append_components(&pack, &vec![s("b"), s("c")]).unwrap();
    assert_eq!(r.get("components"), Some(&JsonValue::Array(vec![s("a"), s("b"), s("c")])));
    assert!(matches!(ornithe_installer::mmc::append_components(&obj(vec![]), &vec![]), Err(InstallError::Metadata(_))));
}

#[test]
fn lwjgl_source_comes_from_the_vanilla_libraries() {
    let lib = |name: &str, url: &str| {
        obj(vec![("name", s(name)), ("downloads", obj(vec![("artifact", obj(vec![("url", s(url))]))]))])
    };
    let vanilla = obj(vec![(
        "libraries",
        JsonValue::Array(vec![lib("net.java.jinput:jinput:2.0.5", "https://a/"), lib("org.lwjgl.lwjgl:lwjgl:2.9.4", "https://b/lwjgl.jar")]),
    )]);
    assert_eq!(ornithe_installer::mmc::lwjgl_url(&vanilla), Some("https://b/lwjgl.jar".to_string()));
    assert_eq!(ornithe_installer::mmc::lwjgl_url(&obj(vec![])), None);
}

#[test]
fn existing_instance_error_says_so() {
    match instance_target("Ornithe Gen2 Fabric 1.2.1", false, true) {
        Err(InstallError::Validation(m)) => assert_eq!(m, "An instance already exists at Ornithe Gen2 Fabric 1.2.1"),
        _ => panic!("expected a validation error"),
    }
}

#[test]
fn lwjgl_patch_from_the_vanilla_descriptor() {
    let lib = |url: &str| {
        obj(vec![("name", s("org.lwjgl.lwjgl:lwjgl:2.9.4")), ("downloads", obj(vec![("artifact", obj(vec![("url", s(url))]))]))])
    };
    let own = obj(vec![("libraries", JsonValue::Array(vec![lib("https://maven.legacyfabric.net/lwjgl.jar")]))]);
    assert_eq!(ornithe_installer::mmc::vanilla_lwjgl_component(&own, "2.9.4").unwrap().0, "org.lwjgl");
    let vanilla = obj(vec![("libraries", JsonValue::Array(vec![lib("https://libraries.minecraft.net/lwjgl.jar")]))]);
    assert!(ornithe_installer::mmc::vanilla_lwjgl_component(&vanilla, "2.9.4").is_none());
    assert!(ornithe_installer::mmc::vanilla_lwjgl_component(&obj(vec![]), "2.9.4").is_none());
}

#[test]
fn package_plan_lists_every_file() {
    let libs = vec![ProfileJsonLibrary { name: "net.ornithemc:osl:0.1.0".to_string(), url: "https://maven/".to_string() }];
    let pack = obj(vec![("components", JsonValue::Array(vec![s("mc")]))]);
    let lwjgl = Some(("org.lwjgl".to_string(), obj(vec![])));
    let plan = plan_instance_package(
        "cfg".to_string(),
        vec![1, 2],
        "patch".to_string(),
        obj(vec![]),
        &libs,
        lwjgl,
        "1.1.0",
        &pack,
    )
    .unwrap();
    let paths: Vec<String> = plan
        .iter()
        .map(|e| match e {
            PackageEntry::Text(p, _) | PackageEntry::Bytes(p, _) | PackageEntry::Dir(p) => p.clone(),
            PackageEntry::Json(p, _) | PackageEntry::PrettyJson(p, _) => p.clone(),
        })
        .collect();
    assert_eq!(
        paths,
        vec![
            "instance.cfg",
            "ornithe.png",
            "patches",
            "patches/net.fabricmc.intermediary.json",
            "patches/net.minecraft.json",
            "patches/net.ornithemc.osl.json",
            "patches/org.lwjgl.json",
            "patches/net.ornithemc.flap.json",
            "mmc-pack.json",
        ]
    );
    match &plan[8] {
        PackageEntry::PrettyJson(_, graph) => {
            let comps = graph.get("components").unwrap().as_array().unwrap();
            assert_eq!(comps.len(), 3);
            assert_eq!(comps[1].get_str("uid").map(|x| x.as_str()), Some("net.ornithemc.osl"));
            assert_eq!(comps[2].get_str("uid").map(|x| x.as_str()), Some("net.ornithemc.flap"));
        }
        _ => panic!("expected the component graph last"),
    }
    let bad = vec![ProfileJsonLibrary { name: "bad".to_string(), url: "u".to_string() }];
    let r = plan_instance_package(String::new(), vec![], String::new(), obj(vec![]), &bad, None, "1", &pack);
    assert!(matches!(r, Err(InstallError::Metadata(_))));
}

#[test]
fn only_the_last_write_to_a_path_is_kept() {
    let plan = vec![
        PackageEntry::Text("a".to_string(), "1".to_string()),
        PackageEntry::Dir("d".to_string()),
        PackageEntry::Text("a".to_string(), "2".to_string()),
        PackageEntry::Bytes("b".to_string(), vec![1]),
    ];
    assert_eq!(last_writes(&plan), vec![false, true, true, true]);
    assert_eq!(last_writes(&vec![]), Vec::<bool>::new());
}
