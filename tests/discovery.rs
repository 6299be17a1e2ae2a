use texlab::discovery::{ancestors, candidates, is_source_file, Discovery};
use texlab::document::{Document, Syntax};
use texlab::workspace::Workspace;

fn strings(items: &[&str]) -> Vec<String> {
    items.iter().map(|s| s.to_string()).collect()
}

fn doc(uri: &str, includes: &[&str]) -> Document {
    Document::new(uri.to_string(), String::new(), Syntax::new(strings(includes), Vec::new()))
}

#[test]
fn ancestors_run_from_innermost_to_root() {
    assert_eq!(ancestors(&"/a/b/c.tex".to_string()), strings(&["/a/b", "/a", "/"]));
    assert_eq!(ancestors(&"/main.tex".to_string()), strings(&["/"]));
    assert!(ancestors(&"main.tex".to_string()).is_empty());
}

#[test]
fn source_files_are_recognised_by_extension() {
    for name in ["/p/a.tex", "/p/a.sty", "/p/a.cls", "/p/a.lco", "/p/a.bib", "b..tex"] {
        assert!(is_source_file(&name.to_string()), "{}", name);
    }
    for name in ["/p/a.log", "/p/.tex", "tex", "/p/atex", "/p/a.texx", ".tex"] {
        assert!(!is_source_file(&name.to_string()), "{}", name);
    }
}

#[test]
fn candidates_skip_known_and_foreign_files() {
    let mut ws = Workspace::new();
    ws.add(doc("file:///p/main.tex", &[]));
    let entries = strings(&["/p/chapter.tex", "/p/main.tex", "/p/figure.png", "/p/refs.bib", "rel/x.tex"]);
    assert_eq!(candidates(&ws, &entries), strings(&["/p/chapter.tex", "/p/refs.bib"]));
}

#[test]
fn detect_root_loads_sibling_parent() {
    let mut ws = Workspace::new();
    ws.add(doc("file:///project/main.tex", &[]));
    let mut walk = Discovery::new("file:///project/main.tex".to_string());
    let dir = walk.next_directory(&ws).unwrap();
    assert_eq!(dir, "/project");
    let listing = strings(&["/project/chapter.tex", "/project/main.tex"]);
    let to_load = candidates(&ws, &listing);
    assert_eq!(to_load, strings(&["/project/chapter.tex"]));
    ws.load(doc("file:///project/chapter.tex", &["file:///project/main.tex"]));
    assert!(walk.next_directory(&ws).is_none());
    let parent = ws.find_parent(&"file:///project/main.tex".to_string()).unwrap();
    assert_eq!(parent.uri, "file:///project/chapter.tex");
}

#[test]
fn walk_visits_each_ancestor_once_and_ends() {
    let ws = Workspace::new();
    let mut walk = Discovery::new("file:///a/b/c.tex".to_string());
    let mut seen = Vec::new();
    while let Some(dir) = walk.next_directory(&ws) {
        assert!(!seen.contains(&dir));
        seen.push(dir);
        assert!(seen.len() <= 3);
    }
    assert_eq!(seen, strings(&["/a/b", "/a", "/"]));
    assert!(walk.next_directory(&ws).is_none());
}

#[test]
fn walk_of_unsaved_document_is_empty() {
    let ws = Workspace::new();
    let mut walk = Discovery::new("untitled:Untitled-1".to_string());
    assert!(walk.next_directory(&ws).is_none());
}
