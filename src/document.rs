use vstd::prelude::*;

verus! {

/// The characters of each string of a list.
pub open spec fn strs_view(v: Seq<String>) -> Seq<Seq<char>> {
    v.map_values(|s: String| s@)
}

/// A copy of a list of strings.
pub fn clone_strings(v: &Vec<String>) -> (r: Vec<String>)
    ensures
        r@ == v@,
{
    let mut r: Vec<String> = Vec::new();
    let mut i: usize = 0;
    while i < v.len()
        invariant
            i <= v.len(),
            r@ == v@.subrange(0, i as int),
        decreases v.len() - i,
    {
        r.push(v[i].clone());
        i += 1;
    }
    assert(r@ =~= v@);
    r
}

/// Whether `s` occurs in `v`.
pub fn contains_string(v: &Vec<String>, s: &String) -> (r: bool)
    ensures
        r == strs_view(v@).contains(s@),
{
    let mut i: usize = 0;
    while i < v.len()
        invariant
            i <= v.len(),
            forall|j: int| 0 <= j < i ==> v@[j]@ != s@,
        decreases v.len() - i,
    {
        if v[i] == *s {
            assert(strs_view(v@)[i as int] == s@);
            return true;
        }
        i += 1;
    }
    assert(!strs_view(v@).contains(s@)) by {
        if strs_view(v@).contains(s@) {
            let k = choose|k: int| 0 <= k < strs_view(v@).len() && strs_view(v@)[k] == s@;
            assert(v@[k]@ == s@);
        }
    }
    false
}

/// What the parsing collaborator derives from a document's text: the
/// targets of its inclusion directives and the components it loads.
#[derive(Debug)]
pub struct Syntax {
    pub includes: Vec<String>,
    pub components: Vec<String>,
}

/// The model of a [`Syntax`].
pub struct SyntaxModel {
    pub includes: Seq<Seq<char>>,
    pub components: Seq<Seq<char>>,
}

impl View for Syntax {
    type V = SyntaxModel;

    open spec fn view(&self) -> SyntaxModel {
        SyntaxModel { includes: strs_view(self.includes@), components: strs_view(self.components@) }
    }
}

impl Syntax {
    pub fn new(includes: Vec<String>, components: Vec<String>) -> (r: Syntax)
        ensures
            r.includes@ == includes@,
            r.components@ == components@,
    {
        Syntax { includes, components }
    }

    /// A copy of this value.
    pub fn duplicate(&self) -> (r: Syntax)
        ensures
            r@ == self@,
    {
        Syntax {
            includes: clone_strings(&self.includes),
            components: clone_strings(&self.components),
        }
    }
}

/// One source file: its identifier, its full text and what was parsed from
/// that text. An edit produces a new value; a value is never changed in place.
#[derive(Debug)]
pub struct Document {
    pub uri: String,
    pub text: String,
    pub syntax: Syntax,
}

/// The model of a [`Document`].
pub struct DocumentModel {
    pub uri: Seq<char>,
    pub text: Seq<char>,
    pub syntax: SyntaxModel,
}

impl View for Document {
    type V = DocumentModel;

    open spec fn view(&self) -> DocumentModel {
        DocumentModel { uri: self.uri@, text: self.text@, syntax: self.syntax@ }
    }
}

impl Document {
    pub fn new(uri: String, text: String, syntax: Syntax) -> (r: Document)
        ensures
            r@ == (DocumentModel { uri: uri@, text: text@, syntax: syntax@ }),
    {
        Document { uri, text, syntax }
    }

    /// A copy of this document, as a stable snapshot for a reader.
    pub fn duplicate(&self) -> (r: Document)
        ensures
            r@ == self@,
    {
        Document { uri: self.uri.clone(), text: self.text.clone(), syntax: self.syntax.duplicate() }
    }

    /// Whether one of this document's include targets is `uri`.
    pub fn includes_uri(&self, uri: &String) -> (r: bool)
        ensures
            r == self@.syntax.includes.contains(uri@),
    {
        contains_string(&self.syntax.includes, uri)
    }
}

} // verus!
