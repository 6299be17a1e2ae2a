use texlab::action::Action;
use texlab::document::{Document, Syntax};
use texlab::uri::{file_path_of, is_file_uri};
use texlab::server::{tex_path_of, BuildOptions, ClientCapabilities, LatexLspServer, ServerConfig};

fn strings(items: &[&str]) -> Vec<String> {
    items.iter().map(|s| s.to_string()).collect()
}

fn new_server() -> LatexLspServer {
    LatexLspServer::new(ServerConfig::in_directory(&"/tmp".to_string()))
}

fn doc(uri: &str, includes: &[&str], components: &[&str]) -> Document {
    Document::new(uri.to_string(), String::new(), Syntax::new(strings(includes), strings(components)))
}

#[test]
fn initialized_queues_start_up_work() {
    let mut server = new_server();
    server.initialized();
    assert_eq!(
        server.take_actions(),
        vec![
            Action::RegisterCapabilities,
            Action::LoadResolver,
            Action::LoadComponentDatabase,
            Action::ScanComponents,
            Action::DetectChildren,
            Action::PublishDiagnostics,
        ]
    );
    assert!(server.take_actions().is_empty());
}

#[test]
fn open_change_and_save_queue_follow_up_work() {
    let mut server = new_server();
    server.did_open(doc("a.tex", &[], &[]));
    server.did_change(&"a.tex".to_string(), "x".to_string(), Syntax::new(Vec::new(), Vec::new()));
    server.did_save("a.tex".to_string());
    assert_eq!(
        server.take_actions(),
        vec![
            Action::DetectRoot("a.tex".to_string()),
            Action::DetectChildren,
            Action::ScanComponents,
            Action::PublishDiagnostics,
            Action::DetectChildren,
            Action::ScanComponents,
            Action::PublishDiagnostics,
            Action::RunLinter("a.tex".to_string()),
            Action::PublishDiagnostics,
            Action::Build("a.tex".to_string()),
        ]
    );
    assert_eq!(server.feature_request(&"a.tex".to_string()).ok().unwrap().document.text, "x");
}

#[test]
fn changed_logs_of_known_documents_are_parsed() {
    let mut server = new_server();
    server.did_open(doc("file:///p/main.tex", &[], &[]));
    server.take_actions();
    server.did_change_watched_files(&strings(&["file:///p/main.log", "file:///p/other.log", "http://h/p/main.log", "ab"]));
    assert_eq!(
        server.take_actions(),
        vec![
            Action::ParseLog { tex_uri: "file:///p/main.tex".to_string(), log_path: "/p/main.log".to_string() },
            Action::PublishDiagnostics,
        ]
    );
}

#[test]
fn log_path_maps_to_tex_path() {
    assert_eq!(tex_path_of(&"/p/main.log".to_string()).unwrap(), "/p/main.tex");
    assert_eq!(tex_path_of(&"log".to_string()).unwrap(), "tex");
    assert!(tex_path_of(&"lo".to_string()).is_none());
}

#[test]
fn capabilities_are_set_once() {
    let mut server = new_server();
    assert!(!server.should_register_watcher());
    assert!(!server.configuration_available());
    assert!(server.initialize(ClientCapabilities { dynamic_watch_registration: true, configuration: false }));
    assert!(!server.initialize(ClientCapabilities { dynamic_watch_registration: false, configuration: true }));
    assert!(server.should_register_watcher());
    assert!(!server.configuration_available());
}

#[test]
fn scan_components_feeds_running_database() {
    let mut server = new_server();
    server.did_open(doc("a.tex", &[], &["amsmath", "graphicx"]));
    server.did_open(doc("b.tex", &[], &["tikz"]));
    server.scan_components();
    assert!(server.take_scan_request().is_none());
    assert!(server.load_component_database(None));
    server.scan_components();
    let mut taken = Vec::new();
    while let Some(c) = server.take_scan_request() {
        taken.push(c);
    }
    assert_eq!(taken, strings(&["amsmath", "graphicx", "tikz"]));
    assert!(server.record_scan(&"tikz".to_string(), Some("{}".to_string())));
    assert!(server.is_component_known(&"tikz".to_string()));
    server.stop_scanning();
    server.scan_components();
    assert!(server.take_scan_request().is_none());
    assert!(server.join_scanner());
    assert!(!server.record_scan(&"amsmath".to_string(), Some("{}".to_string())));
    assert_eq!(server.component_snapshot(), (strings(&["tikz"]), strings(&["{}"])));
}

#[test]
fn detect_children_through_server() {
    let mut server = new_server();
    server.did_open(doc("a.tex", &["b.tex"], &[]));
    let missing = server.unresolved_includes();
    assert_eq!(missing, strings(&["b.tex"]));
    assert!(server.load_document(doc("b.tex", &[], &[])));
    assert!(!server.load_document(doc("b.tex", &[], &[])));
    assert!(server.unresolved_includes().is_empty());
}

#[test]
fn files_load_under_their_uri() {
    let mut server = new_server();
    assert!(server.load_file(&"/p/a.tex".to_string(), "x".to_string(), Syntax::new(Vec::new(), Vec::new())));
    assert!(!server.load_file(&"/p/a.tex".to_string(), "y".to_string(), Syntax::new(Vec::new(), Vec::new())));
    assert!(!server.load_file(&"rel/a.tex".to_string(), "y".to_string(), Syntax::new(Vec::new(), Vec::new())));
    let request = server.feature_request(&"file:///p/a.tex".to_string()).ok().unwrap();
    assert_eq!(request.document.text, "x");
}

#[test]
fn uris_map_to_local_paths() {
    assert_eq!(file_path_of(&"file:///p/my%20thesis.tex".to_string()).unwrap(), "/p/my thesis.tex");
    assert!(file_path_of(&"untitled:1".to_string()).is_none());
    assert!(file_path_of(&"http:///p/a.tex".to_string()).is_none());
    assert!(is_file_uri(&"file:///x".to_string()));
}

#[test]
fn build_on_save_defaults_to_off() {
    assert!(!BuildOptions { on_save: None }.on_save());
    assert!(BuildOptions { on_save: Some(true) }.on_save());
}
