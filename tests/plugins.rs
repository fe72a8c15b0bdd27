use std::collections::HashSet;

use sparus::plugins::{
    artifact_path, component_path, get_list_plugins_with_versions, js_plugins_path, plugin_dir, plugin_name_of,
};
use sparus::server::resolve_artifact_request;
use sparus::sync::{
    event_type_from_code, fetch_outcome, next_action, plugin_url, DownloadError, EventType, StreamItem, SyncAction,
};

fn s(text: &str) -> String {
    text.to_string()
}

fn apply(files: &mut HashSet<String>, action: &SyncAction) {
    match action {
        SyncAction::Fetch { file, .. } => {
            files.insert(file.clone());
        }
        SyncAction::Remove { file } => {
            files.remove(file);
        }
        _ => {}
    }
}

fn event(name: &str, code: i32) -> StreamItem {
    StreamItem::Event { plugin: s(name), event_type: code }
}

#[test]
fn plugin_lifecycle_leaves_only_world() {
    let mut files = HashSet::new();
    for item in [event("hello", 0), event("world", 0), event("hello", 2), StreamItem::End] {
        let action = next_action("/data", "http://127.0.0.1:8012", &item);
        apply(&mut files, &action);
    }
    let expected: HashSet<String> = [s("/data/plugins/world/world.wasm")].into_iter().collect();
    assert_eq!(files, expected);
    let dir = plugin_dir("/data", "world");
    assert!(files.contains(&component_path(&dir, "world")));
}

#[test]
fn install_fetches_from_the_plugins_endpoint() {
    let action = next_action("/data", "http://127.0.0.1:8012", &event("hello", 1));
    assert_eq!(
        action,
        SyncAction::Fetch {
            url: s("http://127.0.0.1:8012/plugins/hello"),
            dir: s("/data/plugins/hello"),
            file: s("/data/plugins/hello/hello.wasm"),
        }
    );
}

#[test]
fn delete_removes_the_artifact() {
    let mut files: HashSet<String> = [s("/data/plugins/p/p.wasm"), s("/data/plugins/q/q.wasm")].into_iter().collect();
    let action = next_action("/data", "http://x", &event("p", 2));
    assert_eq!(action, SyncAction::Remove { file: s("/data/plugins/p/p.wasm") });
    apply(&mut files, &action);
    assert!(!files.contains(&artifact_path("/data", "p")));
    assert!(files.contains(&artifact_path("/data", "q")));
}

#[test]
fn unknown_events_are_skipped_and_stream_end_stops() {
    assert_eq!(next_action("/d", "u", &event("p", 7)), SyncAction::Skip);
    assert_eq!(next_action("/d", "u", &StreamItem::End), SyncAction::Stop);
    assert_eq!(next_action("/d", "u", &StreamItem::Failed(s("reset"))), SyncAction::Stop);
    assert_eq!(event_type_from_code(0), Some(EventType::Install));
    assert_eq!(event_type_from_code(1), Some(EventType::Update));
    assert_eq!(event_type_from_code(2), Some(EventType::Delete));
    assert_eq!(event_type_from_code(-1), None);
}

#[test]
fn fetch_status() {
    assert_eq!(fetch_outcome(200), Ok(()));
    assert_eq!(fetch_outcome(404), Err(DownloadError::Httperror(s("Plugin not found"))));
    assert_eq!(plugin_url("http://h:1", "n"), s("http://h:1/plugins/n"));
}

#[test]
fn plugin_names_from_files() {
    assert_eq!(plugin_name_of("hello.wasm"), Some(s("hello")));
    assert_eq!(plugin_name_of("a.b.wasm"), Some(s("a.b")));
    assert_eq!(plugin_name_of(".wasm"), None);
    assert_eq!(plugin_name_of("hello.js"), None);
    assert_eq!(plugin_name_of("wasm"), None);
    assert_eq!(plugin_name_of("x.WASM"), None);
}

#[test]
fn inventory_lists_plugins_that_answered() {
    let found = vec![
        (s("a"), Some(s("1.0.0"))),
        (s("broken"), None),
        (s("b"), Some(s("2.0.0"))),
        (s("a"), Some(s("1.1.0"))),
    ];
    let inv = get_list_plugins_with_versions(&found);
    assert_eq!(inv, vec![(s("a"), s("1.1.0")), (s("b"), s("2.0.0"))]);
    assert_eq!(get_list_plugins_with_versions(&vec![]), vec![]);
}

#[test]
fn script_plugins_listed_relative() {
    let entries = vec![
        (s("ui"), s("main.js")),
        (s("ui"), s("style.css")),
        (s("game"), s(".js")),
        (s("game"), s("boot.js")),
    ];
    assert_eq!(js_plugins_path(&entries), vec![s("ui/main.js"), s("game/boot.js")]);
}

#[test]
fn artifact_requests_stay_inside() {
    assert_eq!(resolve_artifact_request("/plugins/hello/hello.wasm"), Some(vec![s("hello"), s("hello.wasm")]));
    assert_eq!(resolve_artifact_request("/plugins/./a//b/../c"), Some(vec![s("a"), s("c")]));
    assert_eq!(resolve_artifact_request("/plugins/../secret"), None);
    assert_eq!(resolve_artifact_request("/plugins/a/../../x"), None);
    assert_eq!(resolve_artifact_request("/other/a"), None);
    assert_eq!(resolve_artifact_request("/plugins"), None);
    assert_eq!(resolve_artifact_request("/plugins/"), Some(vec![]));
    assert_eq!(resolve_artifact_request("/plugins/..."), Some(vec![s("...")]));
}
