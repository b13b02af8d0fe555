pub mod json;
pub mod text;
pub mod maven;
pub mod jar_manifest;
pub mod error;
pub mod meta;
pub mod versions;
pub mod launch;
pub mod fetch;
pub mod server;
pub mod select;
pub mod profiles;
pub mod client;
pub mod mmc;
pub mod locations;
pub mod archive;
