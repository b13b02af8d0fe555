use vstd::prelude::*;

verus! {

/// What stopped an installation, by cause, with a message for the user.
#[derive(Debug, Clone, PartialEq, Eq)]
pub enum InstallError {
    /// The target location or a selector given by the user is not usable.
    Validation(String),
    /// A metadata document lacks a field or has the wrong shape.
    Metadata(String),
    /// No mapping fits the requested version and side.
    Resolution(String),
    /// A library or the runtime agent could not be downloaded.
    Download(String),
    /// The launcher archive could not be read, or lacks a manifest attribute.
    Archive(String),
    /// The launcher's profile registry could not be read or has the wrong shape.
    PersistedState(String),
}

impl InstallError {
    /// The message carried by the error.
    pub fn message(&self) -> (r: String)
        ensures
            r@ == self.message_view(),
    {
        match self {
            InstallError::Validation(m) => m.clone(),
            InstallError::Metadata(m) => m.clone(),
            InstallError::Resolution(m) => m.clone(),
            InstallError::Download(m) => m.clone(),
            InstallError::Archive(m) => m.clone(),
            InstallError::PersistedState(m) => m.clone(),
        }
    }

    pub open spec fn message_view(&self) -> Seq<char> {
        match self {
            InstallError::Validation(m) => m@,
            InstallError::Metadata(m) => m@,
            InstallError::Resolution(m) => m@,
            InstallError::Download(m) => m@,
            InstallError::Archive(m) => m@,
            InstallError::PersistedState(m) => m@,
        }
    }
}

} // verus!
