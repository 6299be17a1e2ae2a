use texlab::document::{Document, Syntax};
use texlab::workspace::Workspace;

fn strings(items: &[&str]) -> Vec<String> {
    items.iter().map(|s| s.to_string()).collect()
}

fn doc(uri: &str, text: &str, includes: &[&str]) -> Document {
    Document::new(uri.to_string(), text.to_string(), Syntax::new(strings(includes), Vec::new()))
}

#[test]
fn unresolved_include_is_loaded_by_detect_children() {
    let mut ws = Workspace::new();
    assert!(ws.add(doc("a.tex", "\\include{b}", &["b.tex"])).is_none());
    assert_eq!(ws.unresolved_includes(), strings(&["b.tex"]));
    for path in ws.unresolved_includes() {
        assert!(ws.load(doc(&path, "", &[])));
    }
    assert_eq!(ws.find(&"b.tex".to_string()).unwrap().uri, "b.tex");
    assert!(ws.unresolved_includes().is_empty());
}

#[test]
fn find_returns_latest_version() {
    let mut ws = Workspace::new();
    ws.add(doc("a.tex", "one", &[]));
    ws.add(doc("b.tex", "two", &[]));
    let previous = ws.add(doc("a.tex", "three", &["c.tex"])).unwrap();
    assert_eq!(previous.text, "one");
    ws.update(&"a.tex".to_string(), "four".to_string(), Syntax::new(Vec::new(), strings(&["amsmath"])));
    let found = ws.find(&"a.tex".to_string()).unwrap();
    assert_eq!(found.text, "four");
    assert!(found.syntax.includes.is_empty());
    assert_eq!(found.syntax.components, strings(&["amsmath"]));
    assert_eq!(ws.find(&"b.tex".to_string()).unwrap().text, "two");
    assert_eq!(ws.len(), 2);
}

#[test]
fn update_of_unknown_document_changes_nothing() {
    let mut ws = Workspace::new();
    ws.add(doc("a.tex", "one", &[]));
    ws.update(&"x.tex".to_string(), "two".to_string(), Syntax::new(Vec::new(), Vec::new()));
    assert!(ws.find(&"x.tex".to_string()).is_none());
    assert_eq!(ws.len(), 1);
}

#[test]
fn loading_a_known_document_is_a_no_op() {
    let mut ws = Workspace::new();
    ws.add(doc("a.tex", "\\input{b}", &["b.tex", "c.tex"]));
    let first = ws.unresolved_includes();
    for path in &first {
        if path == "b.tex" {
            assert!(ws.load(doc(path, "b", &[])));
        }
    }
    let second = ws.unresolved_includes();
    assert_eq!(second, strings(&["c.tex"]));
    assert!(!ws.load(doc("b.tex", "other", &[])));
    assert_eq!(ws.find(&"b.tex".to_string()).unwrap().text, "b");
    assert_eq!(ws.unresolved_includes(), second);
}

#[test]
fn unresolved_includes_are_listed_once() {
    let mut ws = Workspace::new();
    ws.add(doc("a.tex", "", &["x.tex", "y.tex", "x.tex"]));
    ws.add(doc("b.tex", "", &["y.tex", "a.tex"]));
    assert_eq!(ws.unresolved_includes(), strings(&["x.tex", "y.tex"]));
}

#[test]
fn find_parent_returns_first_includer() {
    let mut ws = Workspace::new();
    ws.add(doc("a.tex", "", &["c.tex"]));
    ws.add(doc("b.tex", "", &["c.tex"]));
    ws.add(doc("c.tex", "", &[]));
    assert_eq!(ws.find_parent(&"c.tex".to_string()).unwrap().uri, "a.tex");
    assert!(ws.find_parent(&"a.tex".to_string()).is_none());
    assert!(ws.contains(&"c.tex".to_string()));
    assert!(!ws.contains(&"d.tex".to_string()));
}
