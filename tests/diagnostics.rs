use texlab::diagnostics::{Diagnostic, DiagnosticSeverity, LatexLintOptions, Range};
use texlab::document::{Document, Syntax};
use texlab::server::{LatexLspServer, ServerConfig};

fn diagnostic(message: &str) -> Diagnostic {
    Diagnostic {
        range: Range::new_simple(0, 1, 0, 4),
        severity: DiagnosticSeverity::Warning,
        code: "8".to_string(),
        message: message.to_string(),
        source: "chktex".to_string(),
    }
}

fn server_with(uri: &str) -> LatexLspServer {
    let mut server = LatexLspServer::new(ServerConfig::in_directory(&"/tmp".to_string()));
    server.did_open(Document::new(uri.to_string(), String::new(), Syntax::new(Vec::new(), Vec::new())));
    server
}

#[test]
fn disabled_linter_leaves_cache_unchanged() {
    let mut server = server_with("file:///a.tex");
    let uri = "file:///a.tex".to_string();
    server.store_lint(&uri, LatexLintOptions { on_save: Some(true) }, Some(vec![diagnostic("old")]));
    server.store_lint(&uri, LatexLintOptions { on_save: None }, Some(vec![diagnostic("new")]));
    server.store_lint(&uri, LatexLintOptions { on_save: Some(false) }, None);
    let published = server.diagnostics_to_publish();
    assert_eq!(published.len(), 1);
    assert_eq!(published[0].1.len(), 1);
    assert_eq!(published[0].1[0].message, "old");
}

#[test]
fn failed_lint_clears_lint_diagnostics() {
    let mut server = server_with("file:///a.tex");
    let uri = "file:///a.tex".to_string();
    server.store_lint(&uri, LatexLintOptions { on_save: Some(true) }, Some(vec![diagnostic("old")]));
    server.store_lint(&uri, LatexLintOptions { on_save: Some(true) }, None);
    assert!(server.diagnostics_to_publish()[0].1.is_empty());
}

#[test]
fn publication_merges_lint_then_build() {
    let mut server = server_with("file:///a.tex");
    let uri = "file:///a.tex".to_string();
    server.store_build_log(&uri, vec![diagnostic("build")]);
    server.store_lint(&uri, LatexLintOptions { on_save: Some(true) }, Some(vec![diagnostic("lint")]));
    server.store_build_log(&uri, vec![diagnostic("build2"), diagnostic("build3")]);
    let published = server.diagnostics_to_publish();
    assert_eq!(published[0].0, "file:///a.tex");
    let messages: Vec<&str> = published[0].1.iter().map(|d| d.message.as_str()).collect();
    assert_eq!(messages, vec!["lint", "build2", "build3"]);
}

#[test]
fn only_files_are_linted() {
    let mut server = server_with("untitled:1");
    let uri = "untitled:1".to_string();
    server.store_lint(&uri, LatexLintOptions { on_save: Some(true) }, Some(vec![diagnostic("x")]));
    assert!(server.diagnostics_to_publish()[0].1.is_empty());
}

#[test]
fn on_save_defaults_to_off() {
    assert!(!LatexLintOptions { on_save: None }.on_save());
    assert!(!LatexLintOptions { on_save: Some(false) }.on_save());
    assert!(LatexLintOptions { on_save: Some(true) }.on_save());
}
