use ornithe_installer::error::InstallError;
use ornithe_installer::json::JsonValue;
use ornithe_installer::meta::LoaderType;
use ornithe_installer::profiles::{
    get_launcher_profiles_json, icon_string, profile_name, update_profiles, update_registry,
};

fn s(x: &str) -> JsonValue {
    JsonValue::Str(x.to_string())
}

fn obj(pairs: Vec<(&str, JsonValue)>) -> JsonValue {
    JsonValue::Object(pairs.into_iter().map(|(k, v)| (k.to_string(), v)).collect())
}

fn unrelated() -> JsonValue {
    obj(vec![("name", s("Other")), ("type", s("custom")), ("lastVersionId", s("1.8.9"))])
}

fn registry() -> JsonValue {
    obj(vec![("profiles", obj(vec![("other", unrelated())])), ("version", JsonValue::Number("3".to_string()))])
}

fn profiles_of(v: &JsonValue) -> &Vec<(String, JsonValue)> {
    match v.get("profiles") {
        Some(JsonValue::Object(m)) => m,
        _ => panic!("no profiles"),
    }
}

#[test]
fn install_adds_one_profile_and_keeps_the_other() {
    let name = profile_name(LoaderType::Fabric, "1.2.1");
    assert_eq!(name, "Ornithe (Fabric) 1.2.1");
    let r = update_registry(&registry(), &name, "fabric-loader-1.2.1", "2024-01-01T00:00:00Z", "icon").unwrap();
    let ps = profiles_of(&r);
    assert_eq!(ps.len(), 2);
    assert_eq!(ps[0], ("other".to_string(), unrelated()));
    let added = obj(vec![
        ("name", s("Ornithe (Fabric) 1.2.1")),
        ("type", s("custom")),
        ("created", s("2024-01-01T00:00:00Z")),
        ("lastUsed", s("2024-01-01T00:00:00Z")),
        ("icon", s("icon")),
        ("lastVersionId", s("fabric-loader-1.2.1")),
    ]);
    assert_eq!(ps[1], ("Ornithe (Fabric) 1.2.1".to_string(), added));
    assert_eq!(r.get("version"), Some(&JsonValue::Number("3".to_string())));
}

#[test]
fn reinstall_only_sets_last_version() {
    let name = "Ornithe (Fabric) 1.2.1";
    let first = update_registry(&registry(), name, "v1", "T1", "icon").unwrap();
    let second = update_registry(&first, name, "v2", "T2", "icon2").unwrap();
    let p1 = profiles_of(&first);
    let p2 = profiles_of(&second);
    assert_eq!(p2.len(), 2);
    assert_eq!(p2[0], p1[0]);
    let changed = obj(vec![
        ("name", s(name)),
        ("type", s("custom")),
        ("created", s("T1")),
        ("lastUsed", s("T1")),
        ("icon", s("icon")),
        ("lastVersionId", s("v2")),
    ]);
    assert_eq!(p2[1], (name.to_string(), changed));
}

#[test]
fn registry_shape_errors() {
    assert!(matches!(update_registry(&s("x"), "n", "v", "t", "i"), Err(InstallError::PersistedState(_))));
    let no_profiles = obj(vec![("profiles", s("not an object"))]);
    assert!(matches!(update_registry(&no_profiles, "n", "v", "t", "i"), Err(InstallError::PersistedState(_))));
    let bad_entry = obj(vec![("profiles", obj(vec![("n", s("flat"))]))]);
    assert!(matches!(update_registry(&bad_entry, "n", "v", "t", "i"), Err(InstallError::PersistedState(_))));
}

#[test]
fn update_profiles_stamps_a_new_profile() {
    let r = update_profiles(&registry(), "fabric-loader-1.2.1", "1.2.1", LoaderType::Quilt, b"abc").unwrap();
    let ps = profiles_of(&r);
    assert_eq!(ps.len(), 2);
    assert_eq!(ps[1].0, "Ornithe (Quilt) 1.2.1");
    assert_eq!(ps[1].1.get_str("lastVersionId").map(|x| x.as_str()), Some("fabric-loader-1.2.1"));
    assert_eq!(ps[1].1.get_str("icon").map(|x| x.as_str()), Some("data:image/png;base64,YWJj"));
    let created = ps[1].1.get_str("created").unwrap();
    assert!(!created.is_empty());
}

#[test]
fn icon_is_unpadded_base64() {
    assert_eq!(icon_string(b"abc"), "data:image/png;base64,YWJj");
    assert_eq!(icon_string(b"ab"), "data:image/png;base64,YWI");
    assert_eq!(icon_string(b""), "data:image/png;base64,");
}

#[test]
fn registry_file_choice() {
    assert_eq!(get_launcher_profiles_json(true, true).unwrap(), "launcher_profiles_microsoft_store.json");
    assert_eq!(get_launcher_profiles_json(false, true).unwrap(), "launcher_profiles.json");
    assert_eq!(
        get_launcher_profiles_json(false, false),
        Err(InstallError::PersistedState("Could not find a launcher_profiles json!".to_string()))
    );
}

#[test]
fn error_messages_are_kept() {
    let e = update_registry(&s("x"), "n", "v", "t", "i").unwrap_err();
    assert!(!e.message().is_empty());
    assert_eq!(InstallError::Download("boom".to_string()).message(), "boom");
}
