use vstd::prelude::*;
use std::io::Read;
use crate::error::InstallError;
use crate::text::text_of;
use crate::jar_manifest::{attribute_value, read_manifest_attribute};
use crate::server::{ServerLaunch, needs_install};

verus! {

/// The text of the entry `name` of a ZIP archive, as the zip crate reads it; `None` when
/// the bytes are not an archive, the entry is missing, or its content is not UTF-8.
pub uninterp spec fn zip_text_entry(archive: Seq<u8>, name: Seq<char>) -> Option<Seq<char>>;

/// Relies on `zip::ZipArchive::new`, `ZipArchive::by_name` and `Read::read_to_string`
/// over the bytes in memory: the result depends on the bytes and the name alone.
#[verifier::external_body]
fn read_zip_text(archive: &Vec<u8>, name: &str) -> (r: Option<String>)
    ensures
        text_of(r) == zip_text_entry(archive@, name@),
{
    let mut zip = zip::ZipArchive::new(std::io::Cursor::new(archive.as_slice())).ok()?;
    let mut entry = zip.by_name(name).ok()?;
    let mut text = String::new();
    entry.read_to_string(&mut text).ok()?;
    Some(text)
}

pub open spec fn manifest_of(jar: Seq<u8>) -> Option<Seq<char>> {
    zip_text_entry(jar, "META-INF/MANIFEST.MF"@)
}

/// The manifest text of a jar.
pub fn jar_manifest_text(jar: &Vec<u8>) -> (r: Option<String>)
    ensures
        text_of(r) == manifest_of(jar@),
{
    read_zip_text(jar, "META-INF/MANIFEST.MF")
}

/// Whether a server launcher must be (re)installed: there is none, its manifest cannot be
/// read, or its `Minecraft-Version` is not the requested version.
pub fn launcher_needs_install(launcher_jar: Option<&Vec<u8>>, version_id: &str) -> (r: bool)
    ensures
        r == match launcher_jar {
            None => true,
            Some(j) => match manifest_of(j@) {
                None => true,
                Some(t) => attribute_value(t, "Minecraft-Version: "@) != Some(version_id@),
            },
        },
{
    match launcher_jar {
        None => true,
        Some(j) => match jar_manifest_text(j) {
            None => true,
            Some(t) => needs_install(Some(t.as_str()), version_id),
        },
    }
}

/// The `Main-Class` that a jar's manifest names.
pub fn jar_main_class(jar: &Vec<u8>) -> (r: Result<String, InstallError>)
    ensures
        match manifest_of(jar@) {
            Some(t) => match attribute_value(t, "Main-Class: "@) {
                Some(v) => r matches Ok(s) && s@ == v,
                None => r matches Err(InstallError::Archive(_)),
            },
            None => r matches Err(InstallError::Archive(_)),
        },
{
    match jar_manifest_text(jar) {
        Some(t) => {
            proof {
                reveal_strlit("Main-Class");
                reveal_strlit("Main-Class: ");
                assert("Main-Class"@ + seq![':', ' '] =~= "Main-Class: "@);
            }
            read_manifest_attribute(t.as_str(), "Main-Class")
        },
        None => Err(InstallError::Archive("The jar has no readable manifest".to_owned())),
    }
}

} // verus!

verus! {

/// The class the server launcher starts: the `Main-Class` of the Fabric loader jar when
/// the launch descriptor names one (the jar must then be given), else the class the
/// descriptor names.
pub fn launch_main_class(info: &ServerLaunch, loader_jar: Option<&Vec<u8>>) -> (r: Result<String, InstallError>)
    ensures
        info.fabric_loader is None ==> (r matches Ok(s) && s@ == info.launch_main_class@),
        info.fabric_loader is Some ==> match loader_jar {
            None => r matches Err(InstallError::Archive(_)),
            Some(j) => match manifest_of(j@) {
                Some(t) => match attribute_value(t, "Main-Class: "@) {
                    Some(v) => r matches Ok(s) && s@ == v,
                    None => r matches Err(InstallError::Archive(_)),
                },
                None => r matches Err(InstallError::Archive(_)),
            },
        },
{
    match &info.fabric_loader {
        None => Ok(info.launch_main_class.clone()),
        Some(_) => match loader_jar {
            Some(j) => jar_main_class(j),
            None => Err(InstallError::Archive("The Fabric loader jar is missing".to_owned())),
        },
    }
}

} // verus!
