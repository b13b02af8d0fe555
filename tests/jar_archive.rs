use std::io::{Cursor, Write};

use ornithe_installer::archive::{jar_main_class, jar_manifest_text, launcher_needs_install};
use ornithe_installer::error::InstallError;
use ornithe_installer::jar_manifest::build_launcher_manifest;
use zip::write::SimpleFileOptions;
use zip::ZipWriter;

fn jar_with_manifest(manifest: &str) -> Vec<u8> {
    let mut zip = ZipWriter::new(Cursor::new(Vec::new()));
    zip.start_file("META-INF/MANIFEST.MF", SimpleFileOptions::default()).unwrap();
    zip.write_all(manifest.as_bytes()).unwrap();
    zip.start_file("a/B.class", SimpleFileOptions::default()).unwrap();
    zip.write_all(&[0xca, 0xfe, 0xba, 0xbe]).unwrap();
    zip.finish().unwrap().into_inner()
}

#[test]
fn second_run_skips_the_install() {
    assert!(launcher_needs_install(None, "1.2.1"));
    let manifest = build_launcher_manifest("Manifest-Version: 1.0\r\n", &vec!["libraries/a.jar".to_string()], "1.2.1");
    let jar = jar_with_manifest(&manifest);
    assert!(!launcher_needs_install(Some(&jar), "1.2.1"));
    assert!(launcher_needs_install(Some(&jar), "1.3"));
    assert!(launcher_needs_install(Some(&vec![1, 2, 3]), "1.2.1"));
}

#[test]
fn jar_manifest_is_read_from_the_archive() {
    let jar = jar_with_manifest("Manifest-Version: 1.0\r\nMain-Class: net.fabricmc.loader.impl.launch.knot.KnotServer\r\n");
    assert_eq!(
        jar_manifest_text(&jar).unwrap(),
        "Manifest-Version: 1.0\r\nMain-Class: net.fabricmc.loader.impl.launch.knot.KnotServer\r\n"
    );
    assert_eq!(jar_main_class(&jar).unwrap(), "net.fabricmc.loader.impl.launch.knot.KnotServer");
    let plain = jar_with_manifest("Manifest-Version: 1.0\r\n");
    assert!(matches!(jar_main_class(&plain), Err(InstallError::Archive(_))));
    assert!(matches!(jar_main_class(&vec![0, 1]), Err(InstallError::Archive(_))));
    assert_eq!(jar_manifest_text(&vec![0, 1]), None);
}
