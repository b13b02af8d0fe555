use ornithe_installer::error::InstallError;
use ornithe_installer::fetch::{download_message, download_progress};
use ornithe_installer::jar_manifest::build_launcher_manifest;
use ornithe_installer::json::JsonValue;
use ornithe_installer::meta::LoaderType;
use ornithe_installer::server::{
    fabric_launch_properties, launch_args_json, launch_jar_name, needs_install, server_launch_info,
};

fn s(x: &str) -> JsonValue {
    JsonValue::Str(x.to_string())
}

fn obj(pairs: Vec<(&str, JsonValue)>) -> JsonValue {
    JsonValue::Object(pairs.into_iter().map(|(k, v)| (k.to_string(), v)).collect())
}

fn lib(name: &str) -> JsonValue {
    obj(vec![("name", s(name)), ("url", s("https://maven.fabricmc.net/"))])
}

fn fabric_launch() -> JsonValue {
    obj(vec![
        ("id", s("fabric-loader-0.16.0-1.2.1")),
        ("mainClass", s("net.fabricmc.loader.impl.launch.knot.KnotServer")),
        ("arguments", obj(vec![("jvm", JsonValue::Array(vec![s("-Dx=1"), JsonValue::Null, s("-Dy=2")]))])),
        ("libraries", JsonValue::Array(vec![lib("net.fabricmc:fabric-loader:0.16.0"), lib("org.ow2.asm:asm:9.7")])),
    ])
}

#[test]
fn fabric_server_launch_info() {
    let info = server_launch_info(&fabric_launch(), LoaderType::Fabric).unwrap();
    assert_eq!(info.main_class, "net.fabricmc.loader.impl.launch.knot.KnotServer");
    assert_eq!(info.launch_main_class, "net.fabricmc.loader.launch.server.FabricServerLauncher");
    assert_eq!(info.jvm_args, vec!["-Dx=1".to_string(), "-Dy=2".to_string()]);
    assert_eq!(info.libraries.len(), 2);
    assert_eq!(info.fabric_loader, Some("net.fabricmc:fabric-loader:0.16.0".to_string()));
}

#[test]
fn quilt_server_launch_info() {
    let launch = obj(vec![
        ("launcherMainClass", s("org.quiltmc.loader.impl.launch.server.QuiltServerLauncher")),
        ("libraries", JsonValue::Array(vec![lib("org.quiltmc:quilt-loader:0.26.0")])),
    ]);
    let info = server_launch_info(&launch, LoaderType::Quilt).unwrap();
    assert_eq!(info.main_class, "");
    assert_eq!(info.launch_main_class, "org.quiltmc.loader.impl.launch.server.QuiltServerLauncher");
    assert!(info.jvm_args.is_empty());
    assert_eq!(info.fabric_loader, None);
}

#[test]
fn server_launch_info_errors() {
    assert!(matches!(server_launch_info(&s("x"), LoaderType::Fabric), Err(InstallError::Metadata(_))));
    let no_main = obj(vec![("libraries", JsonValue::Array(vec![]))]);
    assert!(matches!(server_launch_info(&no_main, LoaderType::Fabric), Err(InstallError::Metadata(_))));
    let no_libs = obj(vec![("mainClass", s("a.B"))]);
    assert!(matches!(server_launch_info(&no_libs, LoaderType::Fabric), Err(InstallError::Metadata(_))));
    let nameless = obj(vec![("mainClass", s("a.B")), ("libraries", JsonValue::Array(vec![obj(vec![("url", s("u"))])]))]);
    assert!(matches!(server_launch_info(&nameless, LoaderType::Fabric), Err(InstallError::Metadata(_))));
}

#[test]
fn run_mode_installs_once_then_skips() {
    assert!(needs_install(None, "1.2.1"));
    let manifest = build_launcher_manifest("Manifest-Version: 1.0\r\n", &vec!["libraries/a.jar".to_string()], "1.2.1");
    assert!(!needs_install(Some(&manifest), "1.2.1"));
    assert!(needs_install(Some(&manifest), "1.2.2"));
    assert!(needs_install(Some("Manifest-Version: 1.0\r\n"), "1.2.1"));
}

#[test]
fn launcher_files() {
    assert_eq!(launch_jar_name(LoaderType::Fabric), "fabric-server-launch.jar");
    assert_eq!(launch_jar_name(LoaderType::Quilt), "quilt-server-launch.jar");
    assert_eq!(fabric_launch_properties("a.B"), "launch.mainClass=a.B\n");
    let args = launch_args_json("libraries/net/ornithemc/flap/flap-1.0.jar", "a.B", &vec!["-Dx=1".to_string()]);
    assert_eq!(args.get_str("flap_jar").map(|x| x.as_str()), Some("libraries/net/ornithemc/flap/flap-1.0.jar"));
    assert_eq!(args.get_str("main_class").map(|x| x.as_str()), Some("a.B"));
    assert_eq!(args.get("jvm_args"), Some(&JsonValue::Array(vec![s("-Dx=1")])));
}

#[test]
fn download_progress_is_linear() {
    assert_eq!(download_progress(200, 700, 0, 4), 200);
    assert_eq!(download_progress(200, 700, 1, 2), 450);
    assert_eq!(download_progress(200, 700, 3, 3), 700);
    assert_eq!(download_progress(200, 800, 1, 3), 400);
    assert_eq!(download_message("a.jar", 3, 12), "Downloaded a.jar, 3/12");
}

#[test]
fn run_mode_compares_the_id_as_given() {
    let manifest = build_launcher_manifest("Manifest-Version: 1.0\r\n", &vec![], "1.2.1");
    assert!(needs_install(Some(&manifest), " 1.2.1"));
    assert!(!needs_install(Some(&manifest), "1.2.1"));
}

#[test]
fn agent_keeps_its_layout() {
    assert_eq!(
        ornithe_installer::server::agent_library_path("1.1.0"),
        "libraries/net/ornithemc/flap/flap-1.1.0.jar"
    );
}

#[test]
fn quilt_main_class_needs_no_loader_jar() {
    let launch = obj(vec![
        ("launcherMainClass", s("q.Launcher")),
        ("libraries", JsonValue::Array(vec![lib("org.quiltmc:quilt-loader:0.26.0")])),
    ]);
    let info = server_launch_info(&launch, LoaderType::Quilt).unwrap();
    assert_eq!(ornithe_installer::archive::launch_main_class(&info, None).unwrap(), "q.Launcher");
    let fabric = server_launch_info(&fabric_launch(), LoaderType::Fabric).unwrap();
    assert!(matches!(ornithe_installer::archive::launch_main_class(&fabric, None), Err(InstallError::Archive(_))));
}
