//! Discovery of what is installed: the version recorded in the workspace
//! state file, the configuration values, the game executable.
use vstd::prelude::*;

use crate::bridge::JsonValue;
use crate::errors::SparusError;
use crate::is_executable;

verus! {

/// The `stable` part of the update state file.
#[derive(Debug, Clone, PartialEq)]
pub struct Stable {
    pub version: String,
}

/// The `state` part of the update state file.
#[derive(Debug, Clone, PartialEq)]
pub struct State {
    pub stable: Stable,
}

/// The update state file `<workspace>/.update/state.json`.
#[derive(Debug, Clone, PartialEq)]
pub struct Root {
    pub state: State,
}

/// The control plane address used when the configuration names none.
pub const DEFAULT_LAUNCHER_URL: &'static str = "http://127.0.0.1:8112";

/// The artifact endpoint used when the configuration names none.
pub const DEFAULT_PLUGINS_URL: &'static str = "http://127.0.0.1:8012";

/// The launcher name used when the configuration names none.
pub const DEFAULT_LAUNCHER_NAME: &'static str = "kataster";

/// The version the installation reports: the stable version of the state
/// file where one could be read, else the configured initial version.
pub fn version(state_file: Option<&Root>, initial_version: &str) -> (r: String)
    ensures
        r@ == match state_file {
            Some(root) => root.state.stable.version@,
            None => initial_version@,
        },
{
    match state_file {
        Some(root) => root.state.stable.version.clone(),
        None => String::from_str(initial_version),
    }
}

/// A configuration value that should be a string: its text when it is one,
/// else `default`.
pub fn config_string(stored: Option<&JsonValue>, default: &str) -> (r: String)
    ensures
        r@ == match stored {
            Some(JsonValue::Str(s)) => s@,
            _ => default@,
        },
{
    match stored {
        Some(JsonValue::Str(s)) => s.clone(),
        _ => String::from_str(default),
    }
}

/// The configured initial version: the text of the stored value when it is
/// a string, `None` when it is missing or not a string.
pub fn initial_version(stored: Option<&JsonValue>) -> (r: Option<String>)
    ensures
        r is Some <==> (stored is Some && stored->Some_0 is Str),
        r is Some ==> r->Some_0@ == stored->Some_0->Str_0@,
{
    match stored {
        Some(JsonValue::Str(s)) => Some(s.clone()),
        _ => None,
    }
}

/// The control plane address: the configured `launcher_url`, or the
/// default one.
pub fn launcher_url(stored: Option<&JsonValue>) -> (r: String)
    ensures
        r@ == match stored {
            Some(JsonValue::Str(s)) => s@,
            _ => DEFAULT_LAUNCHER_URL@,
        },
{
    config_string(stored, DEFAULT_LAUNCHER_URL)
}

/// The artifact endpoint: the configured `plugins_url`, or the default one.
pub fn plugins_url(stored: Option<&JsonValue>) -> (r: String)
    ensures
        r@ == match stored {
            Some(JsonValue::Str(s)) => s@,
            _ => DEFAULT_PLUGINS_URL@,
        },
{
    config_string(stored, DEFAULT_PLUGINS_URL)
}

/// The name the launcher advertises: the configured `launcher_name`, or the
/// default one.
pub fn launcher_name(stored: Option<&JsonValue>) -> (r: String)
    ensures
        r@ == match stored {
            Some(JsonValue::Str(s)) => s@,
            _ => DEFAULT_LAUNCHER_NAME@,
        },
{
    config_string(stored, DEFAULT_LAUNCHER_NAME)
}

/// An entry of the game directory: its file name, whether it is a regular
/// file, and its permission mode where the metadata could be read.
#[derive(Debug, Clone, PartialEq)]
pub struct GameEntry {
    pub name: String,
    pub is_file: bool,
    pub mode: Option<u32>,
}

/// Whether a directory entry is the game: an executable regular file.
pub open spec fn is_game(e: GameEntry) -> bool {
    e.is_file && e.mode is Some && e.mode->Some_0 & 0o111u32 != 0
}

/// The file name of the game executable among the entries of the game
/// directory: the first executable regular file. Where there is none, a
/// `game-not-installed` error.
pub fn get_game_exe_name(entries: &Vec<GameEntry>) -> (r: Result<String, SparusError>)
    ensures
        r is Ok <==> exists|i: int| 0 <= i < entries@.len() && is_game(#[trigger] entries@[i]),
        r is Ok ==> exists|i: int|
            0 <= i < entries@.len() && is_game(#[trigger] entries@[i]) && r->Ok_0@ == entries@[i].name@
                && forall|j: int| 0 <= j < i ==> !is_game(#[trigger] entries@[j]),
        r is Err ==> r->Err_0 is Game,
{
    let mut k: usize = 0;
    while k < entries.len()
        invariant
            k <= entries.len(),
            forall|j: int| 0 <= j < k ==> !is_game(#[trigger] entries@[j]),
        decreases entries.len() - k,
    {
        let e = &entries[k];
        if e.is_file && is_executable(e.mode) {
            return Ok(e.name.clone());
        }
        k += 1;
    }
    Err(SparusError::Game(String::from_str("No Game installed")))
}

/// Whether a game is installed at a path: it must be a directory
/// (`is_dir`) holding at least one readable entry (`has_entry`).
pub fn check_if_installed(is_dir: bool, has_entry: bool) -> (r: Result<(), &'static str>)
    ensures
        r is Ok <==> is_dir && has_entry,
        !is_dir ==> r == Err::<(), &'static str>("folder doesn't exist"),
        is_dir && !has_entry ==> r == Err::<(), &'static str>("Not installed"),
{
    if !is_dir {
        Err("folder doesn't exist")
    } else if !has_entry {
        Err("Not installed")
    } else {
        Ok(())
    }
}

} // verus!
