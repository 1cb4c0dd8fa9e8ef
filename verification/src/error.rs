//! The errors of the gateway's core and the kinds they fall into.

use vstd::prelude::*;

verus! {

/// The kinds of failure.
#[derive(Debug, Clone, Copy, PartialEq, Eq, Structural)]
pub enum ErrorKind {
    /// An add-on, adapter, device, property, session, setting or token that
    /// is not known.
    NotFound,
    /// An operation that asks for the state that already holds.
    AlreadyInState,
    /// A message or request that breaks its protocol.
    Protocol,
    /// A failure of the repository or of the file system.
    Storage,
    /// A child process that could not be started.
    Spawn,
    /// A package, manifest or password that is not what it claims to be.
    IntegrityFailure,
    /// A failure of a socket.
    Transport,
    /// A request head over the size limit.
    CapacityExceeded,
}

/// What can go wrong in the gateway's core.
#[derive(Debug, Clone, Copy, PartialEq, Eq, Structural)]
pub enum Error {
    /// No add-on with the id is installed.
    AddonNotInstalled,
    /// The session has no adapter with the id.
    AdapterNotFound,
    /// The adapter has no device with the id.
    DeviceNotFound,
    /// The device has no properties at all.
    NoProperties,
    /// The device has no property with the name.
    PropertyNotFound,
    /// No session is known under the number.
    SessionNotFound,
    /// No setting is stored under the key.
    SettingNotFound,
    /// No token is stored under the key id.
    TokenNotFound,
    /// The add-on is enabled already.
    AlreadyEnabled,
    /// The add-on is disabled already.
    AlreadyDisabled,
    /// A process for the add-on is running already.
    AlreadyRunning,
    /// No process is running for the add-on.
    NotRunning,
    /// A property change that does not name its property.
    PropertyWithoutName,
    /// A message other than the registration request on a session that has
    /// not registered.
    NotRegistered,
    /// The repository refused the operation.
    Storage,
    /// The command line of the add-on names no program.
    EmptyCommand,
    /// The child process of the add-on could not be started.
    SpawnFailed,
    /// The package of the add-on does not have the expected checksum.
    ChecksumMismatch,
    /// A manifest could not be read.
    ManifestUnreadable,
    /// Some add-ons of a directory could not be loaded.
    SomeAddonsFailed,
    /// A directory or file could not be read or changed.
    Filesystem,
    /// A socket failed, or a connection ended too early.
    Transport,
    /// A password that cannot be hashed, or a stored hash that is none.
    InvalidPassword,
    /// The request head is longer than the limit.
    RequestTooLarge,
    /// The request head is not HTTP.
    MalformedRequest,
    /// The value of the `Upgrade` header is not UTF-8.
    MalformedUpgrade,
    /// A WebSocket upgrade without a path.
    MissingPath,
}

impl Error {
    /// The kind that an error falls into.
    pub open spec fn spec_kind(&self) -> ErrorKind {
        match self {
            Error::AddonNotInstalled => ErrorKind::NotFound,
            Error::AdapterNotFound => ErrorKind::NotFound,
            Error::DeviceNotFound => ErrorKind::NotFound,
            Error::NoProperties => ErrorKind::NotFound,
            Error::PropertyNotFound => ErrorKind::NotFound,
            Error::SessionNotFound => ErrorKind::NotFound,
            Error::SettingNotFound => ErrorKind::NotFound,
            Error::TokenNotFound => ErrorKind::NotFound,
            Error::AlreadyEnabled => ErrorKind::AlreadyInState,
            Error::AlreadyDisabled => ErrorKind::AlreadyInState,
            Error::AlreadyRunning => ErrorKind::AlreadyInState,
            Error::NotRunning => ErrorKind::AlreadyInState,
            Error::PropertyWithoutName => ErrorKind::Protocol,
            Error::NotRegistered => ErrorKind::Protocol,
            Error::Storage => ErrorKind::Storage,
            Error::EmptyCommand => ErrorKind::Spawn,
            Error::SpawnFailed => ErrorKind::Spawn,
            Error::ChecksumMismatch => ErrorKind::IntegrityFailure,
            Error::ManifestUnreadable => ErrorKind::IntegrityFailure,
            Error::SomeAddonsFailed => ErrorKind::IntegrityFailure,
            Error::Filesystem => ErrorKind::Storage,
            Error::Transport => ErrorKind::Transport,
            Error::InvalidPassword => ErrorKind::IntegrityFailure,
            Error::RequestTooLarge => ErrorKind::CapacityExceeded,
            Error::MalformedRequest => ErrorKind::Protocol,
            Error::MalformedUpgrade => ErrorKind::Protocol,
            Error::MissingPath => ErrorKind::Protocol,
        }
    }

    /// The kind that this error falls into.
    #[verifier::when_used_as_spec(spec_kind)]
    pub fn kind(&self) -> (kind: ErrorKind)
        ensures
            kind == self.spec_kind(),
    {
        match self {
            Error::AddonNotInstalled => ErrorKind::NotFound,
            Error::AdapterNotFound => ErrorKind::NotFound,
            Error::DeviceNotFound => ErrorKind::NotFound,
            Error::NoProperties => ErrorKind::NotFound,
            Error::PropertyNotFound => ErrorKind::NotFound,
            Error::SessionNotFound => ErrorKind::NotFound,
            Error::SettingNotFound => ErrorKind::NotFound,
            Error::TokenNotFound => ErrorKind::NotFound,
            Error::AlreadyEnabled => ErrorKind::AlreadyInState,
            Error::AlreadyDisabled => ErrorKind::AlreadyInState,
            Error::AlreadyRunning => ErrorKind::AlreadyInState,
            Error::NotRunning => ErrorKind::AlreadyInState,
            Error::PropertyWithoutName => ErrorKind::Protocol,
            Error::NotRegistered => ErrorKind::Protocol,
            Error::Storage => ErrorKind::Storage,
            Error::EmptyCommand => ErrorKind::Spawn,
            Error::SpawnFailed => ErrorKind::Spawn,
            Error::ChecksumMismatch => ErrorKind::IntegrityFailure,
            Error::ManifestUnreadable => ErrorKind::IntegrityFailure,
            Error::SomeAddonsFailed => ErrorKind::IntegrityFailure,
            Error::Filesystem => ErrorKind::Storage,
            Error::Transport => ErrorKind::Transport,
            Error::InvalidPassword => ErrorKind::IntegrityFailure,
            Error::RequestTooLarge => ErrorKind::CapacityExceeded,
            Error::MalformedRequest => ErrorKind::Protocol,
            Error::MalformedUpgrade => ErrorKind::Protocol,
            Error::MissingPath => ErrorKind::Protocol,
        }
    }
}

} // verus!
