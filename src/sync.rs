//! The decisions of the plugin synchronisation session. The control plane
//! streams plugin events; each one becomes an action on the plugins
//! directory, which the caller performs before handing over the next event.
use vstd::prelude::*;

use crate::plugins::{artifact_path, component_path_of, plugin_dir, plugin_dir_of};

verus! {

/// A failure while fetching or storing a plugin artifact.
#[derive(Debug, Clone, PartialEq)]
pub enum DownloadError {
    Httperror(String),
    Io(String),
    Rpc(String),
}

/// What the control plane asks for a plugin.
#[derive(Debug, Clone, Copy, PartialEq, Eq)]
pub enum EventType {
    Install,
    Update,
    Delete,
}

/// The event kind a wire code stands for: 0 install, 1 update, 2 delete;
/// other codes stand for nothing.
pub open spec fn event_of_code(code: i32) -> Option<EventType> {
    if code == 0 {
        Some(EventType::Install)
    } else if code == 1 {
        Some(EventType::Update)
    } else if code == 2 {
        Some(EventType::Delete)
    } else {
        None
    }
}

/// Decodes the wire code of an event kind.
pub fn event_type_from_code(code: i32) -> (r: Option<EventType>)
    ensures
        r == event_of_code(code),
{
    if code == 0 {
        Some(EventType::Install)
    } else if code == 1 {
        Some(EventType::Update)
    } else if code == 2 {
        Some(EventType::Delete)
    } else {
        None
    }
}

/// What the event stream of the control plane yields next.
#[derive(Debug, Clone, PartialEq)]
pub enum StreamItem {
    /// An event for plugin `plugin`, with the wire code of its kind.
    Event { plugin: String, event_type: i32 },
    /// The stream ended.
    End,
    /// The stream failed, with the transport's message.
    Failed(String),
}

/// What to do about one stream item.
#[derive(Debug, Clone, PartialEq)]
pub enum SyncAction {
    /// Download `url` into `file`, creating `dir` first.
    Fetch { url: String, dir: String, file: String },
    /// Delete `file`; a missing file is no error.
    Remove { file: String },
    /// Nothing to do; go on with the next item.
    Skip,
    /// The session is over.
    Stop,
}

/// The mathematical content of a [`SyncAction`].
pub enum SyncStep {
    Fetch { url: Seq<char>, dir: Seq<char>, file: Seq<char> },
    Remove { file: Seq<char> },
    Skip,
    Stop,
}

impl View for SyncAction {
    type V = SyncStep;

    open spec fn view(&self) -> SyncStep {
        match self {
            SyncAction::Fetch { url, dir, file } => SyncStep::Fetch { url: url@, dir: dir@, file: file@ },
            SyncAction::Remove { file } => SyncStep::Remove { file: file@ },
            SyncAction::Skip => SyncStep::Skip,
            SyncAction::Stop => SyncStep::Stop,
        }
    }
}

/// The address an artifact is fetched from: `<base>/plugins/<name>`.
pub open spec fn plugin_url_of(base: Seq<char>, name: Seq<char>) -> Seq<char> {
    base + seq!['/', 'p', 'l', 'u', 'g', 'i', 'n', 's', '/'] + name
}

/// The action for an event on plugin `name` with wire code `code`, for the
/// data directory `data` and the artifact endpoint `base`: install and
/// update fetch the artifact into its place, delete removes it, an unknown
/// kind is ignored.
pub open spec fn step_for_event(data: Seq<char>, base: Seq<char>, name: Seq<char>, code: i32) -> SyncStep {
    match event_of_code(code) {
        Some(EventType::Install) | Some(EventType::Update) => SyncStep::Fetch {
            url: plugin_url_of(base, name),
            dir: plugin_dir_of(data, name),
            file: component_path_of(plugin_dir_of(data, name), name),
        },
        Some(EventType::Delete) => SyncStep::Remove {
            file: component_path_of(plugin_dir_of(data, name), name),
        },
        None => SyncStep::Skip,
    }
}

/// The address an artifact is fetched from: `<base>/plugins/<name>`.
pub fn plugin_url(base: &str, name: &str) -> (r: String)
    ensures
        r@ == plugin_url_of(base@, name@),
{
    proof {
        reveal_strlit("/plugins/");
    }
    let r = String::from_str(base).concat("/plugins/").concat(name);
    assert(r@ =~= plugin_url_of(base@, name@));
    r
}

/// Decides what to do about the next stream item: an event is turned into
/// its action (see [`step_for_event`]); the end of the stream, or a failure
/// of it, ends the session.
pub fn next_action(data_dir: &str, plugins_url: &str, item: &StreamItem) -> (r: SyncAction)
    ensures
        match item {
            StreamItem::Event { plugin, event_type } => r@ == step_for_event(
                data_dir@,
                plugins_url@,
                plugin@,
                *event_type,
            ),
            _ => r@ == SyncStep::Stop,
        },
{
    match item {
        StreamItem::Event { plugin, event_type } => match event_type_from_code(*event_type) {
            Some(EventType::Install) | Some(EventType::Update) => SyncAction::Fetch {
                url: plugin_url(plugins_url, plugin.as_str()),
                dir: plugin_dir(data_dir, plugin.as_str()),
                file: artifact_path(data_dir, plugin.as_str()),
            },
            Some(EventType::Delete) => SyncAction::Remove { file: artifact_path(data_dir, plugin.as_str()) },
            None => SyncAction::Skip,
        },
        _ => SyncAction::Stop,
    }
}

/// The outcome of an artifact fetch answered with HTTP status `status`:
/// only 200 delivers the artifact.
pub fn fetch_outcome(status: u16) -> (r: Result<(), DownloadError>)
    ensures
        r is Ok <==> status == 200,
        r is Err ==> r->Err_0 is Httperror,
{
    if status == 200 {
        Ok(())
    } else {
        Err(DownloadError::Httperror(String::from_str("Plugin not found")))
    }
}

/// The files present after an action is carried out on the set of files
/// `files`, where it succeeds.
pub open spec fn apply_step(files: Set<Seq<char>>, step: SyncStep) -> Set<Seq<char>> {
    match step {
        SyncStep::Fetch { file, .. } => files.insert(file),
        SyncStep::Remove { file } => files.remove(file),
        _ => files,
    }
}

/// Once the action for a `delete` event of plugin `name` is carried out, no
/// artifact of that plugin remains, whatever files there were before.
pub proof fn lemma_delete_leaves_no_artifact(files: Set<Seq<char>>, data: Seq<char>, base: Seq<char>, name: Seq<char>)
    ensures
        !apply_step(files, step_for_event(data, base, name, 2)).contains(
            component_path_of(plugin_dir_of(data, name), name),
        ),
{
}

/// An install or update puts the artifact exactly where a delete of the same
/// plugin removes it, and where a call of the plugin loads it from.
pub proof fn lemma_install_then_delete(files: Set<Seq<char>>, data: Seq<char>, base: Seq<char>, name: Seq<char>, code: i32)
    requires
        code == 0 || code == 1,
    ensures
        apply_step(files, step_for_event(data, base, name, code)).contains(
            component_path_of(plugin_dir_of(data, name), name),
        ),
        apply_step(apply_step(files, step_for_event(data, base, name, code)), step_for_event(data, base, name, 2))
            == files.remove(component_path_of(plugin_dir_of(data, name), name)),
{
    let f = component_path_of(plugin_dir_of(data, name), name);
    assert(files.insert(f).remove(f) =~= files.remove(f));
}

} // verus!
