use vstd::prelude::*;
use crate::document::Document;
use crate::uri::{has_file_scheme, is_file_uri};

verus! {

/// A position in a document: zero-based line and character.
#[derive(Debug, Clone, Copy, PartialEq, Eq, Structural)]
pub struct Position {
    pub line: u64,
    pub character: u64,
}

/// A span of a document, from `start` to `end`.
#[derive(Debug, Clone, Copy, PartialEq, Eq, Structural)]
pub struct Range {
    pub start: Position,
    pub end: Position,
}

impl Range {
    pub fn new_simple(start_line: u64, start_character: u64, end_line: u64, end_character: u64) -> (r: Range)
        ensures
            r == (Range {
                start: Position { line: start_line, character: start_character },
                end: Position { line: end_line, character: end_character },
            }),
    {
        Range {
            start: Position { line: start_line, character: start_character },
            end: Position { line: end_line, character: end_character },
        }
    }
}

#[derive(Debug, Clone, Copy, PartialEq, Eq, Structural)]
pub enum DiagnosticSeverity {
    Error,
    Warning,
    Information,
    Hint,
}

/// One finding of a linter or a build, attached to a span of a document.
#[derive(Debug)]
pub struct Diagnostic {
    pub range: Range,
    pub severity: DiagnosticSeverity,
    pub code: String,
    pub message: String,
    pub source: String,
}

impl Diagnostic {
    /// A copy of this diagnostic.
    pub fn duplicate(&self) -> (r: Diagnostic)
        ensures
            r == *self,
    {
        Diagnostic {
            range: self.range,
            severity: self.severity,
            code: self.code.clone(),
            message: self.message.clone(),
            source: self.source.clone(),
        }
    }
}

/// A copy of a list of diagnostics.
pub fn clone_diagnostics(v: &Vec<Diagnostic>) -> (r: Vec<Diagnostic>)
    ensures
        r@ == v@,
{
    let mut r: Vec<Diagnostic> = Vec::new();
    let mut i: usize = 0;
    while i < v.len()
        invariant
            i <= v.len(),
            r@ == v@.subrange(0, i as int),
        decreases v.len() - i,
    {
        r.push(v[i].duplicate());
        i += 1;
    }
    assert(r@ =~= v@);
    r
}

/// The options of the on-save linter.
#[derive(Debug, Clone, Copy, PartialEq, Eq, Structural)]
pub struct LatexLintOptions {
    pub on_save: Option<bool>,
}

impl LatexLintOptions {
    /// Whether to lint a document when it is saved; off unless configured.
    pub fn on_save(&self) -> (r: bool)
        ensures
            r == (self.on_save == Some(true)),
    {
        match self.on_save {
            Some(b) => b,
            None => false,
        }
    }
}

/// Diagnostics of one source, each list keyed by a document identifier.
pub struct DiagnosticsTable {
    entries: Vec<(String, Vec<Diagnostic>)>,
}

/// No two entries share a key.
pub open spec fn keys_unique(s: Seq<(String, Vec<Diagnostic>)>) -> bool {
    forall|i: int, j: int| 0 <= i < s.len() && 0 <= j < s.len() && i != j ==> s[i].0@ != s[j].0@
}

pub open spec fn has_key(s: Seq<(String, Vec<Diagnostic>)>, k: Seq<char>) -> bool {
    exists|i: int| 0 <= i < s.len() && s[i].0@ == k
}

pub open spec fn key_index(s: Seq<(String, Vec<Diagnostic>)>, k: Seq<char>) -> int {
    choose|i: int| 0 <= i < s.len() && s[i].0@ == k
}

pub open spec fn entries_view(s: Seq<(String, Vec<Diagnostic>)>) -> Map<Seq<char>, Seq<Diagnostic>> {
    Map::new(|k: Seq<char>| has_key(s, k), |k: Seq<char>| s[key_index(s, k)].1@)
}

/// The diagnostics stored for `uri`; none when nothing is stored.
pub open spec fn stored(m: Map<Seq<char>, Seq<Diagnostic>>, uri: Seq<char>) -> Seq<Diagnostic> {
    if m.contains_key(uri) {
        m[uri]
    } else {
        Seq::empty()
    }
}

impl View for DiagnosticsTable {
    type V = Map<Seq<char>, Seq<Diagnostic>>;

    closed spec fn view(&self) -> Map<Seq<char>, Seq<Diagnostic>> {
        entries_view(self.entries@)
    }
}

impl DiagnosticsTable {
    pub closed spec fn wf(&self) -> bool {
        keys_unique(self.entries@)
    }

    pub fn new() -> (r: DiagnosticsTable)
        ensures
            r.wf(),
            r@ == Map::<Seq<char>, Seq<Diagnostic>>::empty(),
    {
        let r = DiagnosticsTable { entries: Vec::new() };
        assert(r@ =~= Map::<Seq<char>, Seq<Diagnostic>>::empty());
        r
    }

    fn position(&self, uri: &String) -> (r: Option<usize>)
        requires
            self.wf(),
        ensures
            match r {
                Some(i) => i < self.entries@.len() && self.entries@[i as int].0@ == uri@,
                None => !has_key(self.entries@, uri@),
            },
    {
        let mut i: usize = 0;
        while i < self.entries.len()
            invariant
                i <= self.entries.len(),
                forall|j: int| 0 <= j < i ==> self.entries@[j].0@ != uri@,
            decreases self.entries.len() - i,
        {
            if self.entries[i].0 == *uri {
                return Some(i);
            }
            i += 1;
        }
        None
    }

    /// The diagnostics stored for `uri`, or none.
    pub fn get(&self, uri: &String) -> (r: Vec<Diagnostic>)
        requires
            self.wf(),
        ensures
            r@ == stored(self@, uri@),
    {
        match self.position(uri) {
            Some(i) => {
                proof {
                    let k = key_index(self.entries@, uri@);
                    assert(self.entries@[i as int].0@ == uri@);
                    assert(has_key(self.entries@, uri@));
                    assert(self.entries@[k].0@ == uri@);
                }
                clone_diagnostics(&self.entries[i].1)
            },
            None => Vec::new(),
        }
    }

    /// Replaces whatever was stored for `uri` by `diagnostics`.
    pub fn set(&mut self, uri: &String, diagnostics: Vec<Diagnostic>)
        requires
            old(self).wf(),
        ensures
            final(self).wf(),
            final(self)@ == old(self)@.insert(uri@, diagnostics@),
    {
        let ghost d = diagnostics@;
        let ghost s0 = self.entries@;
        match self.position(uri) {
            Some(i) => {
                self.entries.set(i, (uri.clone(), diagnostics));
                let ghost s1 = self.entries@;
                assert(keys_unique(s1)) by {
                    assert forall|a: int, b: int| 0 <= a < s1.len() && 0 <= b < s1.len() && a != b
                        implies s1[a].0@ != s1[b].0@ by {
                        assert(s0[a].0@ == s1[a].0@);
                        assert(s0[b].0@ == s1[b].0@);
                    }
                }
                assert forall|k: Seq<char>| has_key(s1, k) implies #[trigger] entries_view(s1)[k]
                    == entries_view(s0).insert(uri@, d)[k] by {
                    let a = key_index(s1, k);
                    assert(s0[a].0@ == k);
                    assert(has_key(s0, k));
                    let b = key_index(s0, k);
                    assert(s0[b].0@ == k);
                }
                assert forall|k: Seq<char>| has_key(s1, k) <==> #[trigger] has_key(s0, k) by {
                    if has_key(s0, k) {
                        let b = key_index(s0, k);
                        assert(s1[b].0@ == k);
                    }
                    if has_key(s1, k) {
                        let a = key_index(s1, k);
                        assert(s0[a].0@ == k);
                    }
                }
                assert(has_key(s1, uri@)) by { assert(s1[i as int].0@ == uri@); }
                assert(self@ =~= old(self)@.insert(uri@, d));
            },
            None => {
                self.entries.push((uri.clone(), diagnostics));
                let ghost s1 = self.entries@;
                let ghost n = s0.len() as int;
                assert(s1[n].0@ == uri@);
                assert(keys_unique(s1)) by {
                    assert forall|a: int, b: int| 0 <= a < s1.len() && 0 <= b < s1.len() && a != b
                        implies s1[a].0@ != s1[b].0@ by {
                        if a < n {
                            assert(s0[a].0@ == s1[a].0@);
                        }
                        if b < n {
                            assert(s0[b].0@ == s1[b].0@);
                        }
                    }
                }
                assert forall|k: Seq<char>| #[trigger] has_key(s1, k) <==> (has_key(s0, k) || k == uri@) by {
                    if has_key(s0, k) {
                        let b = key_index(s0, k);
                        assert(s1[b].0@ == k);
                    }
                    if has_key(s1, k) && k != uri@ {
                        let a = key_index(s1, k);
                        assert(s0[a].0@ == k);
                    }
                }
                assert forall|k: Seq<char>| has_key(s1, k) implies #[trigger] entries_view(s1)[k]
                    == entries_view(s0).insert(uri@, d)[k] by {
                    let a = key_index(s1, k);
                    if k != uri@ {
                        assert(s0[a].0@ == k);
                        assert(has_key(s0, k));
                        let b = key_index(s0, k);
                        assert(s0[b].0@ == k);
                    } else {
                        assert(a == n);
                    }
                }
                assert(self@ =~= old(self)@.insert(uri@, d));
            },
        }
    }
}

/// Diagnostics of the on-save linter, by document.
pub struct LatexDiagnosticsProvider {
    diagnostics_by_uri: DiagnosticsTable,
}

impl View for LatexDiagnosticsProvider {
    type V = Map<Seq<char>, Seq<Diagnostic>>;

    closed spec fn view(&self) -> Map<Seq<char>, Seq<Diagnostic>> {
        self.diagnostics_by_uri@
    }
}

impl LatexDiagnosticsProvider {
    pub closed spec fn wf(&self) -> bool {
        self.diagnostics_by_uri.wf()
    }

    pub fn new() -> (r: LatexDiagnosticsProvider)
        ensures
            r.wf(),
            r@ == Map::<Seq<char>, Seq<Diagnostic>>::empty(),
    {
        LatexDiagnosticsProvider { diagnostics_by_uri: DiagnosticsTable::new() }
    }

    /// The lint diagnostics of `document`, or none.
    pub fn get(&self, document: &Document) -> (r: Vec<Diagnostic>)
        requires
            self.wf(),
        ensures
            r@ == stored(self@, document.uri@),
    {
        self.diagnostics_by_uri.get(&document.uri)
    }

    /// Stores what the linter reported for `uri`, replacing the earlier
    /// entry; a linter that could not run reports nothing. Only files are
    /// linted: for a URI of another scheme nothing changes.
    pub fn update(&mut self, uri: &String, result: Option<Vec<Diagnostic>>)
        requires
            old(self).wf(),
        ensures
            final(self).wf(),
            final(self)@ == if has_file_scheme(uri@) {
                old(self)@.insert(
                    uri@,
                    match result {
                        Some(v) => v@,
                        None => Seq::<Diagnostic>::empty(),
                    },
                )
            } else {
                old(self)@
            },
    {
        if !is_file_uri(uri) {
            return;
        }
        let diagnostics = match result {
            Some(v) => v,
            None => Vec::new(),
        };
        self.diagnostics_by_uri.set(uri, diagnostics);
    }
}

/// Diagnostics parsed from build logs, by document.
pub struct BuildDiagnosticsProvider {
    diagnostics_by_uri: DiagnosticsTable,
}

impl View for BuildDiagnosticsProvider {
    type V = Map<Seq<char>, Seq<Diagnostic>>;

    closed spec fn view(&self) -> Map<Seq<char>, Seq<Diagnostic>> {
        self.diagnostics_by_uri@
    }
}

impl BuildDiagnosticsProvider {
    pub closed spec fn wf(&self) -> bool {
        self.diagnostics_by_uri.wf()
    }

    pub fn new() -> (r: BuildDiagnosticsProvider)
        ensures
            r.wf(),
            r@ == Map::<Seq<char>, Seq<Diagnostic>>::empty(),
    {
        BuildDiagnosticsProvider { diagnostics_by_uri: DiagnosticsTable::new() }
    }

    /// The build diagnostics of `document`, or none.
    pub fn get(&self, document: &Document) -> (r: Vec<Diagnostic>)
        requires
            self.wf(),
        ensures
            r@ == stored(self@, document.uri@),
    {
        self.diagnostics_by_uri.get(&document.uri)
    }

    /// Stores the diagnostics parsed from the build log of `uri`, replacing
    /// the earlier entry.
    pub fn update(&mut self, uri: &String, diagnostics: Vec<Diagnostic>)
        requires
            old(self).wf(),
        ensures
            final(self).wf(),
            final(self)@ == old(self)@.insert(uri@, diagnostics@),
    {
        self.diagnostics_by_uri.set(uri, diagnostics);
    }
}

/// The lint and the build diagnostics, kept apart and merged on reading.
pub struct DiagnosticsManager {
    pub latex: LatexDiagnosticsProvider,
    pub build: BuildDiagnosticsProvider,
}

impl DiagnosticsManager {
    pub open spec fn wf(&self) -> bool {
        self.latex.wf() && self.build.wf()
    }

    pub fn new() -> (r: DiagnosticsManager)
        ensures
            r.wf(),
            r.latex@ == Map::<Seq<char>, Seq<Diagnostic>>::empty(),
            r.build@ == Map::<Seq<char>, Seq<Diagnostic>>::empty(),
    {
        DiagnosticsManager { latex: LatexDiagnosticsProvider::new(), build: BuildDiagnosticsProvider::new() }
    }

    /// The diagnostics of `document`: those of the linter, then those of the
    /// build.
    pub fn get(&self, document: &Document) -> (r: Vec<Diagnostic>)
        requires
            self.wf(),
        ensures
            r@ == stored(self.latex@, document.uri@) + stored(self.build@, document.uri@),
    {
        let mut r = self.latex.get(document);
        let mut b = self.build.get(document);
        r.append(&mut b);
        r
    }
}

} // verus!
