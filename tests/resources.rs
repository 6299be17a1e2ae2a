use texlab::components::{LatexComponentDatabaseManager, WorkerState};
use texlab::document::{Document, Syntax};
use texlab::resolver::{ResolverError, TexResolver};
use texlab::server::{LatexLspServer, ServerConfig};

fn strings(items: &[&str]) -> Vec<String> {
    items.iter().map(|s| s.to_string()).collect()
}

#[test]
fn failed_resolver_load_keeps_empty_resolver() {
    let mut server = LatexLspServer::new(ServerConfig::in_directory(&"/home/u/.texlab".to_string()));
    let failure = server.load_resolver(Err(ResolverError::KpsewhichNotFound));
    assert_eq!(failure, Some(ResolverError::KpsewhichNotFound));
    assert!(failure.unwrap().message().contains("kpsewhich"));
    assert!(server.resolver().resolve(&"article.cls".to_string()).is_none());
    let err = server.feature_request(&"file:///a.tex".to_string()).err().unwrap();
    assert_eq!(err, "Unknown document: file:///a.tex");
    server.did_open(Document::new("file:///a.tex".to_string(), "\\input{b}".to_string(), Syntax::new(Vec::new(), Vec::new())));
    let request = server.feature_request(&"file:///a.tex".to_string()).ok().unwrap();
    assert_eq!(request.document.uri, "file:///a.tex");
    assert!(request.resolver.resolve(&"b.tex".to_string()).is_none());
}

#[test]
fn loaded_resolver_is_swapped_in_whole() {
    let mut server = LatexLspServer::new(ServerConfig::in_directory(&"/tmp".to_string()));
    let index = TexResolver::from_entries(
        strings(&["article.cls", "amsmath.sty", "article.cls"]),
        strings(&["/tex/article.cls", "/tex/amsmath.sty", "/other/article.cls"]),
    );
    assert_eq!(server.load_resolver(Ok(index)), None);
    assert_eq!(server.resolver().resolve(&"article.cls".to_string()).unwrap(), "/tex/article.cls");
    assert_eq!(server.resolver().resolve(&"amsmath.sty".to_string()).unwrap(), "/tex/amsmath.sty");
    assert_eq!(server.load_resolver(Err(ResolverError::CorruptFileDatabase)), Some(ResolverError::CorruptFileDatabase));
    assert_eq!(server.resolver().resolve(&"amsmath.sty".to_string()).unwrap(), "/tex/amsmath.sty");
}

#[test]
fn resolver_messages_differ_by_failure() {
    assert_eq!(ResolverError::UnsupportedTexDistribution.message(), "Your TeX distribution is not supported.");
    assert!(ResolverError::CorruptFileDatabase.message().starts_with("The file database"));
}

#[test]
fn server_config_points_into_directory() {
    let config = ServerConfig::in_directory(&"/home/u/.texlab".to_string());
    assert_eq!(config.component_database_path, "/home/u/.texlab/components.json");
}

#[test]
fn component_database_loads_once() {
    let mut server = LatexLspServer::new(ServerConfig::in_directory(&"/tmp".to_string()));
    assert!(server.load_component_database(Some((strings(&["amsmath"]), strings(&["{}"])))));
    assert!(!server.load_component_database(None));
    assert_eq!(server.component_snapshot(), (strings(&["amsmath"]), strings(&["{}"])));
}

#[test]
fn corrupt_cache_starts_empty() {
    let db = LatexComponentDatabaseManager::load_or_create(Some((strings(&["a", "b"]), strings(&["{}"]))));
    assert_eq!(db.get(), (Vec::new(), Vec::new()));
    assert_eq!(db.state(), WorkerState::Running);
}

#[test]
fn shutdown_drains_then_freezes_cache() {
    let mut db = LatexComponentDatabaseManager::load_or_create(None);
    assert!(db.enqueue(&"amsmath".to_string()));
    assert!(db.enqueue(&"graphicx".to_string()));
    db.close();
    assert!(!db.enqueue(&"tikz".to_string()));
    assert!(!db.join());
    let first = db.take_request().unwrap();
    assert_eq!(first, "amsmath");
    assert!(db.record(&first, Some("{\"name\":\"amsmath\"}".to_string())));
    let second = db.take_request().unwrap();
    assert_eq!(second, "graphicx");
    assert!(!db.record(&second, None));
    assert!(db.take_request().is_none());
    assert!(db.join());
    assert_eq!(db.state(), WorkerState::Stopped);
    assert!(!db.record(&"late".to_string(), Some("{}".to_string())));
    assert!(!db.enqueue(&"late".to_string()));
    assert_eq!(db.get(), (strings(&["amsmath"]), strings(&["{\"name\":\"amsmath\"}"])));
}

#[test]
fn known_components_are_not_recorded_twice() {
    let mut db = LatexComponentDatabaseManager::load_or_create(None);
    assert!(db.record(&"amsmath".to_string(), Some("one".to_string())));
    assert!(db.is_known(&"amsmath".to_string()));
    assert!(!db.record(&"amsmath".to_string(), Some("two".to_string())));
    assert_eq!(db.get(), (strings(&["amsmath"]), strings(&["one"])));
}
