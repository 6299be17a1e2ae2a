use vstd::prelude::*;
use crate::document::{Document, DocumentModel, Syntax, SyntaxModel, contains_string, strs_view};

verus! {

/// No two documents share an identifier.
pub open spec fn uris_unique(ws: Seq<DocumentModel>) -> bool {
    forall|i: int, j: int| 0 <= i < ws.len() && 0 <= j < ws.len() && i != j ==> ws[i].uri != ws[j].uri
}

/// Whether a document with identifier `uri` is known.
pub open spec fn contains_uri(ws: Seq<DocumentModel>, uri: Seq<char>) -> bool {
    exists|i: int| 0 <= i < ws.len() && ws[i].uri == uri
}

/// The position of the document with identifier `uri`.
pub open spec fn index_of(ws: Seq<DocumentModel>, uri: Seq<char>) -> int {
    choose|i: int| 0 <= i < ws.len() && ws[i].uri == uri
}

/// The document with identifier `uri`, if any.
pub open spec fn find_spec(ws: Seq<DocumentModel>, uri: Seq<char>) -> Option<DocumentModel> {
    if contains_uri(ws, uri) {
        Some(ws[index_of(ws, uri)])
    } else {
        None
    }
}

/// The workspace after `d` is inserted, replacing the document of the same
/// identifier in place.
pub open spec fn add_spec(ws: Seq<DocumentModel>, d: DocumentModel) -> Seq<DocumentModel> {
    if contains_uri(ws, d.uri) {
        ws.update(index_of(ws, d.uri), d)
    } else {
        ws.push(d)
    }
}

/// The workspace after the text of document `uri` is replaced, together with
/// what was parsed from the new text; unchanged when no such document exists.
pub open spec fn update_spec(
    ws: Seq<DocumentModel>,
    uri: Seq<char>,
    text: Seq<char>,
    syntax: SyntaxModel,
) -> Seq<DocumentModel> {
    if contains_uri(ws, uri) {
        ws.update(index_of(ws, uri), DocumentModel { uri, text, syntax })
    } else {
        ws
    }
}

/// The workspace after `d` is loaded: added only when its identifier is new.
pub open spec fn load_spec(ws: Seq<DocumentModel>, d: DocumentModel) -> Seq<DocumentModel> {
    if contains_uri(ws, d.uri) {
        ws
    } else {
        ws.push(d)
    }
}

/// Whether `d` names `uri` as an include target.
pub open spec fn is_parent_of(d: DocumentModel, uri: Seq<char>) -> bool {
    d.syntax.includes.contains(uri)
}

/// Whether some document names `uri` as an include target.
pub open spec fn has_parent(ws: Seq<DocumentModel>, uri: Seq<char>) -> bool {
    exists|i: int| 0 <= i < ws.len() && is_parent_of(#[trigger] ws[i], uri)
}

/// Whether the documents at the positions of `c` form a chain of
/// inclusions that ends in target `t`: each includes the next, and the last
/// includes `t`.
pub open spec fn is_include_chain(ws: Seq<DocumentModel>, c: Seq<int>, t: Seq<char>) -> bool {
    &&& c.len() >= 1
    &&& forall|k: int| 0 <= k < c.len() ==> 0 <= #[trigger] c[k] < ws.len()
    &&& forall|k: int| 0 <= k < c.len() - 1 ==> is_parent_of(ws[#[trigger] c[k]], ws[c[k + 1]].uri)
    &&& is_parent_of(ws[c.last()], t)
}

/// Whether some document includes `t`, directly or through other documents.
pub open spec fn has_ancestor(ws: Seq<DocumentModel>, t: Seq<char>) -> bool {
    exists|c: Seq<int>| is_include_chain(ws, c, t)
}

/// A document includes `t` through a chain exactly when some document
/// includes it directly: the last link of a chain is such a document. So
/// looking for a direct parent decides whether `t` has a root.
pub proof fn lemma_ancestor_iff_parent(ws: Seq<DocumentModel>, t: Seq<char>)
    ensures
        has_ancestor(ws, t) <==> has_parent(ws, t),
{
    if has_ancestor(ws, t) {
        let c = choose|c: Seq<int>| is_include_chain(ws, c, t);
        assert(0 <= c[c.len() - 1] < ws.len());
        assert(is_parent_of(ws[c.last()], t));
    }
    if has_parent(ws, t) {
        let i = choose|i: int| 0 <= i < ws.len() && is_parent_of(#[trigger] ws[i], t);
        assert(is_include_chain(ws, seq![i], t));
    }
}

/// Whether `t` is an include target of some document and no document has it as
/// identifier.
pub open spec fn is_unresolved(ws: Seq<DocumentModel>, t: Seq<char>) -> bool {
    has_parent(ws, t) && !contains_uri(ws, t)
}

/// The set of known documents, keyed by identifier.
pub struct Workspace {
    documents: Vec<Document>,
}

impl View for Workspace {
    type V = Seq<DocumentModel>;

    closed spec fn view(&self) -> Seq<DocumentModel> {
        self.documents@.map_values(|d: Document| d@)
    }
}

impl Workspace {
    /// Identifiers are unique.
    pub open spec fn wf(&self) -> bool {
        uris_unique(self@)
    }

    /// An empty workspace.
    pub fn new() -> (r: Workspace)
        ensures
            r.wf(),
            r@ == Seq::<DocumentModel>::empty(),
    {
        let r = Workspace { documents: Vec::new() };
        assert(r@ =~= Seq::<DocumentModel>::empty());
        r
    }

    /// The number of documents.
    pub fn len(&self) -> (r: usize)
        ensures
            r == self@.len(),
    {
        self.documents.len()
    }

    /// The document at position `i`, in insertion order.
    pub fn get(&self, i: usize) -> (r: &Document)
        requires
            i < self@.len(),
        ensures
            r@ == self@[i as int],
    {
        &self.documents[i]
    }

    /// The position of document `uri`, if it is known.
    fn position(&self, uri: &String) -> (r: Option<usize>)
        requires
            self.wf(),
        ensures
            match r {
                Some(i) => i < self@.len() && i == index_of(self@, uri@) && contains_uri(self@, uri@),
                None => !contains_uri(self@, uri@),
            },
    {
        let mut i: usize = 0;
        while i < self.documents.len()
            invariant
                self.wf(),
                i <= self.documents.len(),
                forall|j: int| 0 <= j < i ==> self@[j].uri != uri@,
            decreases self.documents.len() - i,
        {
            if self.documents[i].uri == *uri {
                assert(self@[i as int].uri == uri@);
                assert(contains_uri(self@, uri@));
                proof {
                    let k = index_of(self@, uri@);
                    assert(0 <= k < self@.len() && self@[k].uri == uri@);
                }
                return Some(i);
            }
            i += 1;
        }
        None
    }

    /// Whether a document with identifier `uri` is known.
    pub fn contains(&self, uri: &String) -> (r: bool)
        requires
            self.wf(),
        ensures
            r == contains_uri(self@, uri@),
    {
        self.position(uri).is_some()
    }

    /// The document with identifier `uri`, as a snapshot.
    pub fn find(&self, uri: &String) -> (r: Option<Document>)
        requires
            self.wf(),
        ensures
            match r {
                Some(d) => find_spec(self@, uri@) == Some(d@),
                None => find_spec(self@, uri@) is None,
            },
    {
        match self.position(uri) {
            Some(i) => Some(self.documents[i].duplicate()),
            None => None,
        }
    }

    /// Inserts `doc`, replacing the document of the same identifier, which is
    /// returned.
    pub fn add(&mut self, doc: Document) -> (r: Option<Document>)
        requires
            old(self).wf(),
        ensures
            final(self).wf(),
            final(self)@ == add_spec(old(self)@, doc@),
            match r {
                Some(p) => find_spec(old(self)@, doc@.uri) == Some(p@),
                None => find_spec(old(self)@, doc@.uri) is None,
            },
    {
        let ghost d = doc@;
        match self.position(&doc.uri) {
            Some(i) => {
                let prev = self.documents[i].duplicate();
                self.documents.set(i, doc);
                assert(self@ =~= old(self)@.update(i as int, d));
                proof { prev_is_unique(old(self)@, i as int, d); }
                Some(prev)
            },
            None => {
                self.documents.push(doc);
                assert(self@ =~= old(self)@.push(d));
                None
            },
        }
    }

    /// Replaces the text of document `uri`, and with it what was parsed from
    /// the text; does nothing when `uri` is unknown.
    pub fn update(&mut self, uri: &String, text: String, syntax: Syntax)
        requires
            old(self).wf(),
        ensures
            final(self).wf(),
            final(self)@ == update_spec(old(self)@, uri@, text@, syntax@),
    {
        match self.position(uri) {
            Some(i) => {
                let doc = Document::new(uri.clone(), text, syntax);
                let ghost d = doc@;
                self.documents.set(i, doc);
                assert(self@ =~= old(self)@.update(i as int, d));
                proof { prev_is_unique(old(self)@, i as int, d); }
            },
            None => {},
        }
    }

    /// Adds `doc` unless a document of its identifier is known already; says
    /// whether it was added.
    pub fn load(&mut self, doc: Document) -> (r: bool)
        requires
            old(self).wf(),
        ensures
            final(self).wf(),
            final(self)@ == load_spec(old(self)@, doc@),
            r == !contains_uri(old(self)@, doc@.uri),
    {
        let ghost d = doc@;
        match self.position(&doc.uri) {
            Some(_) => false,
            None => {
                self.documents.push(doc);
                assert(self@ =~= old(self)@.push(d));
                true
            },
        }
    }

    /// The first document, in insertion order, that names `uri` as an include
    /// target.
    pub fn find_parent(&self, uri: &String) -> (r: Option<Document>)
        ensures
            match r {
                Some(p) => exists|i: int|
                    0 <= i < self@.len() && self@[i] == p@ && is_parent_of(p@, uri@) && forall|j: int|
                        0 <= j < i ==> !is_parent_of(#[trigger] self@[j], uri@),
                None => !has_parent(self@, uri@),
            },
    {
        let mut i: usize = 0;
        while i < self.documents.len()
            invariant
                i <= self.documents.len(),
                forall|j: int| 0 <= j < i ==> !is_parent_of(#[trigger] self@[j], uri@),
            decreases self.documents.len() - i,
        {
            if self.documents[i].includes_uri(uri) {
                let p = self.documents[i].duplicate();
                assert(self@[i as int] == p@);
                return Some(p);
            }
            i += 1;
        }
        None
    }

    /// The include targets that no known document has as identifier, each once,
    /// in order of first appearance.
    pub fn unresolved_includes(&self) -> (r: Vec<String>)
        requires
            self.wf(),
        ensures
            strs_view(r@).no_duplicates(),
            forall|t: Seq<char>| strs_view(r@).contains(t) <==> is_unresolved(self@, t),
    {
        let mut r: Vec<String> = Vec::new();
        let mut i: usize = 0;
        while i < self.documents.len()
            invariant
                self.wf(),
                i <= self.documents.len(),
                strs_view(r@).no_duplicates(),
                forall|t: Seq<char>| strs_view(r@).contains(t) ==> is_unresolved(self@, t),
                forall|t: Seq<char>, j: int|
                    0 <= j < i && #[trigger] self@[j].syntax.includes.contains(t) && !contains_uri(self@, t)
                        ==> strs_view(r@).contains(t),
            decreases self.documents.len() - i,
        {
            let includes = &self.documents[i].syntax.includes;
            let mut k: usize = 0;
            while k < includes.len()
                invariant
                    self.wf(),
                    i < self.documents.len(),
                    includes == &self.documents@[i as int].syntax.includes,
                    k <= includes.len(),
                    strs_view(r@).no_duplicates(),
                    forall|t: Seq<char>| strs_view(r@).contains(t) ==> is_unresolved(self@, t),
                    forall|t: Seq<char>, j: int|
                        0 <= j < i && #[trigger] self@[j].syntax.includes.contains(t) && !contains_uri(self@, t)
                            ==> strs_view(r@).contains(t),
                    forall|m: int| 0 <= m < k && !contains_uri(self@, #[trigger] includes@[m]@)
                        ==> strs_view(r@).contains(includes@[m]@),
                decreases includes.len() - k,
            {
                let t = &includes[k];
                assert(self@[i as int].syntax.includes[k as int] == t@);
                assert(is_parent_of(self@[i as int], t@));
                let known = self.position(t).is_some();
                if !known && !contains_string(&r, t) {
                    let ghost before = r@;
                    r.push(t.clone());
                    assert(strs_view(r@) =~= strs_view(before).push(t@));
                    assert(strs_view(r@)[before.len() as int] == t@);
                    assert forall|x: Seq<char>| strs_view(before).contains(x) implies strs_view(r@).contains(x) by {
                        let w = choose|w: int| 0 <= w < strs_view(before).len() && strs_view(before)[w] == x;
                        assert(strs_view(r@)[w] == x);
                    }
                }
                k += 1;
            }
            assert forall|t: Seq<char>| #[trigger] self@[i as int].syntax.includes.contains(t)
                && !contains_uri(self@, t) implies strs_view(r@).contains(t) by {
                let m = choose|m: int| 0 <= m < self@[i as int].syntax.includes.len()
                    && self@[i as int].syntax.includes[m] == t;
                assert(includes@[m]@ == t);
            }
            i += 1;
        }
        assert forall|t: Seq<char>| is_unresolved(self@, t) implies strs_view(r@).contains(t) by {
            let j = choose|j: int| 0 <= j < self@.len() && is_parent_of(#[trigger] self@[j], t);
        }
        r
    }
}

/// Replacing the document at `i` by one of the same identifier keeps the
/// identifiers unique and `i` the position of that identifier.
proof fn prev_is_unique(ws: Seq<DocumentModel>, i: int, d: DocumentModel)
    requires
        uris_unique(ws),
        0 <= i < ws.len(),
        ws[i].uri == d.uri,
    ensures
        uris_unique(ws.update(i, d)),
        index_of(ws, d.uri) == i,
{
    assert(ws[i].uri == d.uri);
}

/// A change to the workspace.
pub enum Edit {
    Add(DocumentModel),
    Update(Seq<char>, Seq<char>, SyntaxModel),
}

/// The workspace after `e`.
pub open spec fn apply_edit(ws: Seq<DocumentModel>, e: Edit) -> Seq<DocumentModel> {
    match e {
        Edit::Add(d) => add_spec(ws, d),
        Edit::Update(uri, text, syntax) => update_spec(ws, uri, text, syntax),
    }
}

/// The workspace after the edits of `es`, first to last.
pub open spec fn apply_edits(ws: Seq<DocumentModel>, es: Seq<Edit>) -> Seq<DocumentModel>
    decreases es.len(),
{
    if es.len() == 0 {
        ws
    } else {
        apply_edit(apply_edits(ws, es.drop_last()), es.last())
    }
}

/// The latest version of document `uri` after `e`, given the one before.
pub open spec fn latest_after(before: Option<DocumentModel>, e: Edit, uri: Seq<char>) -> Option<DocumentModel> {
    match e {
        Edit::Add(d) => if d.uri == uri { Some(d) } else { before },
        Edit::Update(u, text, syntax) => if u == uri && before is Some {
            Some(DocumentModel { uri, text, syntax })
        } else {
            before
        },
    }
}

/// The latest version of document `uri` after the edits of `es`, given the
/// one before them.
pub open spec fn latest(before: Option<DocumentModel>, es: Seq<Edit>, uri: Seq<char>) -> Option<DocumentModel>
    decreases es.len(),
{
    if es.len() == 0 {
        before
    } else {
        latest_after(latest(before, es.drop_last(), uri), es.last(), uri)
    }
}

proof fn lemma_index_unique(ws: Seq<DocumentModel>, k: int, uri: Seq<char>)
    requires
        uris_unique(ws),
        0 <= k < ws.len(),
        ws[k].uri == uri,
    ensures
        contains_uri(ws, uri),
        index_of(ws, uri) == k,
{
    assert(ws[k].uri == uri);
}

proof fn lemma_find_after_edit(ws: Seq<DocumentModel>, e: Edit, uri: Seq<char>)
    requires
        uris_unique(ws),
    ensures
        uris_unique(apply_edit(ws, e)),
        find_spec(apply_edit(ws, e), uri) == latest_after(find_spec(ws, uri), e, uri),
{
    let (target, nd) = match e {
        Edit::Add(d) => (d.uri, d),
        Edit::Update(u, text, syntax) => (u, DocumentModel { uri: u, text, syntax }),
    };
    let w2 = apply_edit(ws, e);
    if contains_uri(ws, target) {
        let k = index_of(ws, target);
        assert(w2 == ws.update(k, nd));
        assert(uris_unique(w2));
        if target == uri {
            lemma_index_unique(w2, k, uri);
        } else if contains_uri(ws, uri) {
            let m = index_of(ws, uri);
            lemma_index_unique(w2, m, uri);
        } else {
            assert(!contains_uri(w2, uri)) by {
                if contains_uri(w2, uri) {
                    let m = index_of(w2, uri);
                    assert(ws[m].uri == uri);
                }
            }
        }
    } else {
        match e {
            Edit::Add(d) => {
                assert(w2 == ws.push(d));
                assert(uris_unique(w2));
                if target == uri {
                    lemma_index_unique(w2, ws.len() as int, uri);
                } else if contains_uri(ws, uri) {
                    let m = index_of(ws, uri);
                    lemma_index_unique(w2, m, uri);
                } else {
                    assert(!contains_uri(w2, uri)) by {
                        if contains_uri(w2, uri) {
                            let m = index_of(w2, uri);
                            assert(m < ws.len());
                            assert(ws[m].uri == uri);
                        }
                    }
                }
            },
            Edit::Update(u, text, syntax) => {
                assert(w2 == ws);
            },
        }
    }
}

/// Whatever sequence of additions and text updates is applied, looking a
/// document up gives its most recent version, whole: the one last added,
/// with the text and parse of the last update after it.
pub proof fn lemma_find_returns_latest(ws: Seq<DocumentModel>, es: Seq<Edit>, uri: Seq<char>)
    requires
        uris_unique(ws),
    ensures
        uris_unique(apply_edits(ws, es)),
        find_spec(apply_edits(ws, es), uri) == latest(find_spec(ws, uri), es, uri),
    decreases es.len(),
{
    if es.len() > 0 {
        lemma_find_returns_latest(ws, es.drop_last(), uri);
        lemma_find_after_edit(apply_edits(ws, es.drop_last()), es.last(), uri);
    }
}

/// The workspace after the documents of `ds` are loaded, first to last.
pub open spec fn load_all(ws: Seq<DocumentModel>, ds: Seq<DocumentModel>) -> Seq<DocumentModel>
    decreases ds.len(),
{
    if ds.len() == 0 {
        ws
    } else {
        load_spec(load_all(ws, ds.drop_last()), ds.last())
    }
}

proof fn lemma_load_all_contains(ws: Seq<DocumentModel>, ds: Seq<DocumentModel>, k: int)
    requires
        0 <= k < ds.len(),
    ensures
        contains_uri(load_all(ws, ds), ds[k].uri),
    decreases ds.len(),
{
    let w = load_all(ws, ds.drop_last());
    if k == ds.len() - 1 {
        if !contains_uri(w, ds.last().uri) {
            assert(w.push(ds.last())[w.len() as int].uri == ds[k].uri);
        }
    } else {
        lemma_load_all_contains(ws, ds.drop_last(), k);
        assert(ds.drop_last()[k] == ds[k]);
        let m = choose|m: int| 0 <= m < w.len() && w[m].uri == ds[k].uri;
        if !contains_uri(w, ds.last().uri) {
            assert(w.push(ds.last())[m].uri == ds[k].uri);
        }
    }
}

proof fn lemma_load_all_again(w: Seq<DocumentModel>, ds: Seq<DocumentModel>)
    requires
        forall|k: int| 0 <= k < ds.len() ==> contains_uri(w, #[trigger] ds[k].uri),
    ensures
        load_all(w, ds) == w,
    decreases ds.len(),
{
    if ds.len() > 0 {
        assert forall|k: int| 0 <= k < ds.drop_last().len() implies contains_uri(w, #[trigger] ds.drop_last()[k].uri) by {
            assert(ds.drop_last()[k] == ds[k]);
        }
        lemma_load_all_again(w, ds.drop_last());
        assert(contains_uri(w, ds[ds.len() - 1].uri));
    }
}

/// Loading the documents found for the unresolved includes leaves none of
/// them unresolved, and loading the same documents a second time changes
/// nothing: a second pass with no other change in between loads nothing anew.
pub proof fn lemma_loading_children_is_idempotent(ws: Seq<DocumentModel>, ds: Seq<DocumentModel>)
    ensures
        forall|k: int| 0 <= k < ds.len() ==> !is_unresolved(load_all(ws, ds), #[trigger] ds[k].uri),
        load_all(load_all(ws, ds), ds) == load_all(ws, ds),
{
    assert forall|k: int| 0 <= k < ds.len() implies contains_uri(load_all(ws, ds), #[trigger] ds[k].uri) by {
        lemma_load_all_contains(ws, ds, k);
    }
    lemma_load_all_again(load_all(ws, ds), ds);
}

} // verus!
