use vstd::prelude::*;
use crate::diagnostics::{Position, Range};

verus! {

/// Whether `a` comes before `b` or is `b`.
pub open spec fn pos_le(a: Position, b: Position) -> bool {
    a.line < b.line || (a.line == b.line && a.character <= b.character)
}

/// Whether `pos` lies in `range`, both ends included.
pub open spec fn range_contains(range: Range, pos: Position) -> bool {
    pos_le(range.start, pos) && pos_le(pos, range.end)
}

/// Whether `pos` lies in `range`, both ends included.
pub fn contains_position(range: Range, pos: Position) -> (r: bool)
    ensures
        r == range_contains(range, pos),
{
    let after_start = range.start.line < pos.line || (range.start.line == pos.line && range.start.character
        <= pos.character);
    let before_end = pos.line < range.end.line || (pos.line == range.end.line && pos.character
        <= range.end.character);
    after_start && before_end
}

#[derive(Debug, Clone, Copy, PartialEq, Eq, Structural)]
pub enum LatexLabelKind {
    /// `\label{name}`
    Definition,
    /// `\ref{name}` and its kin
    Reference,
}

/// A label command: its kind, the name in its argument, and the span of the
/// whole command.
#[derive(Debug)]
pub struct LatexLabel {
    pub kind: LatexLabelKind,
    pub name: String,
    pub range: Range,
}

/// A span of a document, with the document's identifier.
#[derive(Debug)]
pub struct Location {
    pub uri: String,
    pub range: Range,
}

/// The labels of one document.
#[derive(Debug)]
pub struct LabelledDocument {
    pub uri: String,
    pub labels: Vec<LatexLabel>,
}

/// The position of the first definition among `labels` whose command spans
/// `pos`, if any.
pub open spec fn is_first_definition_at(labels: Seq<LatexLabel>, pos: Position, i: int) -> bool {
    &&& 0 <= i < labels.len()
    &&& labels[i].kind == LatexLabelKind::Definition
    &&& range_contains(labels[i].range, pos)
    &&& forall|j: int| 0 <= j < i ==> !(#[trigger] labels[j].kind == LatexLabelKind::Definition
        && range_contains(labels[j].range, pos))
}

/// Whether some definition among `labels` spans `pos`.
pub open spec fn has_definition_at(labels: Seq<LatexLabel>, pos: Position) -> bool {
    exists|i: int| 0 <= i < labels.len() && #[trigger] labels[i].kind == LatexLabelKind::Definition
        && range_contains(labels[i].range, pos)
}

/// The locations of the references to `name` in `docs`, document by
/// document, each in the order of its labels.
pub open spec fn references_in(docs: Seq<LabelledDocument>, name: Seq<char>) -> Seq<(Seq<char>, Range)>
    decreases docs.len(),
{
    if docs.len() == 0 {
        Seq::empty()
    } else {
        references_in(docs.drop_last(), name) + references_of(docs.last().uri@, docs.last().labels@, name)
    }
}

/// The locations of the references to `name` among `labels` of document
/// `uri`, in order.
pub open spec fn references_of(uri: Seq<char>, labels: Seq<LatexLabel>, name: Seq<char>) -> Seq<(Seq<char>, Range)>
    decreases labels.len(),
{
    if labels.len() == 0 {
        Seq::empty()
    } else {
        let l = labels.last();
        let rest = references_of(uri, labels.drop_last(), name);
        if l.kind == LatexLabelKind::Reference && l.name@ == name {
            rest.push((uri, l.range))
        } else {
            rest
        }
    }
}

/// The references to the label defined under the cursor.
#[derive(Debug, PartialEq, Eq, Clone, Copy)]
pub struct LatexLabelReferenceProvider;

impl LatexLabelReferenceProvider {
    /// The name of the first label definition among `labels` whose command
    /// spans `pos`.
    pub fn find_definition(labels: &Vec<LatexLabel>, pos: Position) -> (r: Option<String>)
        ensures
            match r {
                Some(name) => exists|i: int| is_first_definition_at(labels@, pos, i) && labels@[i].name@ == name@,
                None => !has_definition_at(labels@, pos),
            },
    {
        let mut i: usize = 0;
        while i < labels.len()
            invariant
                i <= labels@.len(),
                forall|j: int| 0 <= j < i ==> !(#[trigger] labels@[j].kind == LatexLabelKind::Definition
                    && range_contains(labels@[j].range, pos)),
            decreases labels@.len() - i,
        {
            let label = &labels[i];
            if label.kind == LatexLabelKind::Definition && contains_position(label.range, pos) {
                let name = label.name.clone();
                assert(is_first_definition_at(labels@, pos, i as int));
                return Some(name);
            }
            i += 1;
        }
        None
    }

    /// The references, in the related documents, to the label defined under
    /// the cursor at `pos` of the document with labels `labels`; none where
    /// no definition is under the cursor.
    pub fn execute(&self, labels: &Vec<LatexLabel>, pos: Position, related: &Vec<LabelledDocument>) -> (r: Vec<Location>)
        ensures
            !has_definition_at(labels@, pos) ==> r@.len() == 0,
            has_definition_at(labels@, pos) ==> exists|i: int| {
                &&& is_first_definition_at(labels@, pos, i)
                &&& r@.len() == references_in(related@, labels@[i].name@).len()
                &&& forall|k: int| 0 <= k < r@.len() ==> ((#[trigger] r@[k]).uri@, r@[k].range) == references_in(
                    related@,
                    labels@[i].name@,
                )[k]
            },
    {
        let mut references: Vec<Location> = Vec::new();
        let definition = match Self::find_definition(labels, pos) {
            Some(name) => name,
            None => return references,
        };
        let ghost name = definition@;
        let mut d: usize = 0;
        while d < related.len()
            invariant
                d <= related@.len(),
                name == definition@,
                references@.len() == references_in(related@.subrange(0, d as int), name).len(),
                forall|k: int| 0 <= k < references@.len() ==> ((#[trigger] references@[k]).uri@, references@[k].range)
                    == references_in(related@.subrange(0, d as int), name)[k],
            decreases related@.len() - d,
        {
            let document = &related[d];
            let ghost done = references_in(related@.subrange(0, d as int), name);
            let mut k: usize = 0;
            while k < document.labels.len()
                invariant
                    d < related@.len(),
                    document == related@[d as int],
                    name == definition@,
                    k <= document.labels@.len(),
                    references@.len() == done.len() + references_of(document.uri@, document.labels@.subrange(0, k as int), name).len(),
                    forall|m: int| 0 <= m < references@.len() ==> ((#[trigger] references@[m]).uri@, references@[m].range)
                        == (done + references_of(document.uri@, document.labels@.subrange(0, k as int), name))[m],
                decreases document.labels@.len() - k,
            {
                let label = &document.labels[k];
                let ghost cur = document.labels@.subrange(0, k + 1);
                assert(cur.drop_last() =~= document.labels@.subrange(0, k as int));
                assert(cur.last() == document.labels@[k as int]);
                if label.kind == LatexLabelKind::Reference && label.name == definition {
                    references.push(Location { uri: document.uri.clone(), range: label.range });
                    assert(done + references_of(document.uri@, cur, name) =~= (done + references_of(
                        document.uri@,
                        document.labels@.subrange(0, k as int),
                        name,
                    )).push((document.uri@, label.range)));
                }
                k += 1;
            }
            proof {
                let cur = related@.subrange(0, d + 1);
                assert(cur.drop_last() =~= related@.subrange(0, d as int));
                assert(document.labels@.subrange(0, document.labels@.len() as int) =~= document.labels@);
                assert(references_in(cur, name) == done + references_of(document.uri@, document.labels@, name));
            }
            d += 1;
        }
        assert(related@.subrange(0, related@.len() as int) =~= related@);
        references
    }
}

} // verus!
