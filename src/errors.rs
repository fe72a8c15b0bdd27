use vstd::prelude::*;

verus! {

/// The failures the launcher core surfaces to the shell.
///
/// Each variant carries the message of the underlying failure; the shell
/// receives the pair `{ kind, message }` (see [`SparusError::kind`] and
/// [`SparusError::message`]).
#[derive(Debug, Clone, PartialEq)]
pub enum SparusError {
    Io(String),
    Update(String),
    Repository(String),
    Game(String),
    Json(String),
    Semver(String),
    Http(String),
    Status(String),
    StripPrefix(String),
    Tauri(String),
    Store(String),
    Wasmtime(String),
    Plugin,
}

/// The tag under which each error kind reaches the shell.
pub open spec fn kind_of(e: SparusError) -> Seq<char> {
    match e {
        SparusError::Io(_) => "io"@,
        SparusError::Update(_) => "update"@,
        SparusError::Repository(_) => "repository"@,
        SparusError::Game(_) => "game-not-installed"@,
        SparusError::Json(_) => "json"@,
        SparusError::Semver(_) => "semver"@,
        SparusError::Http(_) => "http"@,
        SparusError::Status(_) => "rpc-status"@,
        SparusError::StripPrefix(_) => "strip-prefix"@,
        SparusError::Tauri(_) => "shell"@,
        SparusError::Store(_) => "store"@,
        SparusError::Wasmtime(_) => "wasm"@,
        SparusError::Plugin => "plugin-missing"@,
    }
}

/// The human-readable text that accompanies each error.
pub open spec fn message_of(e: SparusError) -> Seq<char> {
    match e {
        SparusError::Io(m) => m@,
        SparusError::Update(m) => m@,
        SparusError::Repository(m) => m@,
        SparusError::Game(m) => m@,
        SparusError::Json(m) => m@,
        SparusError::Semver(m) => m@,
        SparusError::Http(m) => m@,
        SparusError::Status(m) => m@,
        SparusError::StripPrefix(m) => m@,
        SparusError::Tauri(m) => m@,
        SparusError::Store(m) => m@,
        SparusError::Wasmtime(m) => m@,
        SparusError::Plugin => "Plugin not found"@,
    }
}

impl SparusError {
    /// The `kind` field of the object the shell receives.
    pub fn kind(&self) -> (r: &'static str)
        ensures
            r@ == kind_of(*self),
    {
        match self {
            SparusError::Io(_) => "io",
            SparusError::Update(_) => "update",
            SparusError::Repository(_) => "repository",
            SparusError::Game(_) => "game-not-installed",
            SparusError::Json(_) => "json",
            SparusError::Semver(_) => "semver",
            SparusError::Http(_) => "http",
            SparusError::Status(_) => "rpc-status",
            SparusError::StripPrefix(_) => "strip-prefix",
            SparusError::Tauri(_) => "shell",
            SparusError::Store(_) => "store",
            SparusError::Wasmtime(_) => "wasm",
            SparusError::Plugin => "plugin-missing",
        }
    }

    /// The `message` field of the object the shell receives.
    pub fn message(&self) -> (r: String)
        ensures
            r@ == message_of(*self),
    {
        match self {
            SparusError::Io(m) => m.clone(),
            SparusError::Update(m) => m.clone(),
            SparusError::Repository(m) => m.clone(),
            SparusError::Game(m) => m.clone(),
            SparusError::Json(m) => m.clone(),
            SparusError::Semver(m) => m.clone(),
            SparusError::Http(m) => m.clone(),
            SparusError::Status(m) => m.clone(),
            SparusError::StripPrefix(m) => m.clone(),
            SparusError::Tauri(m) => m.clone(),
            SparusError::Store(m) => m.clone(),
            SparusError::Wasmtime(m) => m.clone(),
            SparusError::Plugin => String::from_str("Plugin not found"),
        }
    }
}

/// A local filesystem failure, as reported to the shell.
#[derive(Debug, Clone, PartialEq)]
pub enum IOErr {
    Io(String),
}

} // verus!
