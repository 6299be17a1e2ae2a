use texlab::completion::{BibtexEntry, LatexBeginCommandCompletionProvider, LatexCitationCompletionProvider};
use texlab::diagnostics::{Position, Range};
use texlab::reference::{LabelledDocument, LatexLabel, LatexLabelKind, LatexLabelReferenceProvider};

fn label(kind: LatexLabelKind, name: &str, range: Range) -> LatexLabel {
    LatexLabel { kind, name: name.to_string(), range }
}

#[test]
fn test() {
    // foo.tex: "\label{foo}"; bar.tex: "\input{foo.tex}\n\ref{foo}"; baz.tex, not related: "\ref{foo}".
    let foo = vec![label(LatexLabelKind::Definition, "foo", Range::new_simple(0, 0, 0, 11))];
    let related = vec![
        LabelledDocument { uri: "foo.tex".to_string(), labels: vec![label(LatexLabelKind::Definition, "foo", Range::new_simple(0, 0, 0, 11))] },
        LabelledDocument { uri: "bar.tex".to_string(), labels: vec![label(LatexLabelKind::Reference, "foo", Range::new_simple(1, 0, 1, 9))] },
    ];
    let references = LatexLabelReferenceProvider.execute(&foo, Position { line: 0, character: 8 }, &related);
    assert_eq!(references.len(), 1);
    assert_eq!(references[0].uri, "bar.tex");
    assert_eq!(references[0].range, Range::new_simple(1, 0, 1, 9));
}

#[test]
fn test_bibtex() {
    // foo.bib is empty and holds no label.
    let related = vec![LabelledDocument { uri: "foo.bib".to_string(), labels: Vec::new() }];
    let references = LatexLabelReferenceProvider.execute(&Vec::new(), Position { line: 0, character: 0 }, &related);
    assert!(references.is_empty());
}

#[test]
fn no_definition_under_cursor_gives_nothing() {
    let labels = vec![label(LatexLabelKind::Reference, "foo", Range::new_simple(0, 0, 0, 9))];
    assert!(LatexLabelReferenceProvider::find_definition(&labels, Position { line: 0, character: 3 }).is_none());
    let labels = vec![label(LatexLabelKind::Definition, "foo", Range::new_simple(0, 0, 0, 11))];
    assert!(LatexLabelReferenceProvider::find_definition(&labels, Position { line: 1, character: 0 }).is_none());
    assert_eq!(LatexLabelReferenceProvider::find_definition(&labels, Position { line: 0, character: 11 }).unwrap(), "foo");
}

#[test]
fn citation_keys_replace_the_argument() {
    // main.bib: "@article{foo,}"; a comment and a keyless entry are skipped.
    let bibs = vec![
        vec![BibtexEntry { is_comment: false, key: Some("foo".to_string()) }],
        vec![
            BibtexEntry { is_comment: true, key: Some("c".to_string()) },
            BibtexEntry { is_comment: false, key: None },
            BibtexEntry { is_comment: false, key: Some("bar".to_string()) },
        ],
    ];
    let range = Range::new_simple(1, 6, 1, 9);
    let items = LatexCitationCompletionProvider.execute(Some(range), &bibs);
    assert_eq!(items.len(), 2);
    assert_eq!(items[0].label, "foo");
    assert_eq!(items[0].text_edit.as_ref().map(|e| e.range).unwrap(), range);
    assert_eq!(items[0].text_edit.as_ref().unwrap().new_text, "foo");
    assert_eq!(items[1].label, "bar");
}

#[test]
fn citation_outside_argument_gives_nothing() {
    let bibs = vec![vec![BibtexEntry { is_comment: false, key: Some("foo".to_string()) }]];
    assert!(LatexCitationCompletionProvider.execute(None, &bibs).is_empty());
}

#[test]
fn begin_snippet_in_command() {
    let items = LatexBeginCommandCompletionProvider.execute(true);
    assert_eq!(items.len(), 1);
    assert_eq!(items[0].label, "begin");
    assert_eq!(items[0].snippet.as_deref(), Some("begin{$1}\n\t$0\n\\end{$1}"));
    assert!(LatexBeginCommandCompletionProvider.execute(false).is_empty());
}
