use vstd::prelude::*;
use crate::diagnostics::Range;

verus! {

/// A replacement of the text of `range` by `new_text`.
#[derive(Debug)]
pub struct TextEdit {
    pub range: Range,
    pub new_text: String,
}

/// One completion offered to the user.
#[derive(Debug)]
pub struct CompletionItem {
    pub label: String,
    /// The text to insert as a snippet with tab stops, where there is one.
    pub snippet: Option<String>,
    pub text_edit: Option<TextEdit>,
}

/// The completion of `\begin` as a snippet that also closes the environment.
#[derive(Debug, PartialEq, Eq, Clone, Copy)]
pub struct LatexBeginCommandCompletionProvider;

impl LatexBeginCommandCompletionProvider {
    /// The snippet, offered where the cursor stands in a command name.
    pub fn execute(&self, in_command: bool) -> (r: Vec<CompletionItem>)
        ensures
            !in_command ==> r@.len() == 0,
            in_command ==> r@.len() == 1 && r@[0].label@ == "begin"@ && r@[0].text_edit is None
                && r@[0].snippet is Some && r@[0].snippet->Some_0@ == "begin{$1}\n\t$0\n\\end{$1}"@,
    {
        if in_command {
            let item = CompletionItem {
                label: "begin".to_owned(),
                snippet: Some("begin{$1}\n\t$0\n\\end{$1}".to_owned()),
                text_edit: None,
            };
            vec![item]
        } else {
            Vec::new()
        }
    }
}

/// An entry of a bibliography, as far as completion reads it.
#[derive(Debug)]
pub struct BibtexEntry {
    /// A `@comment` entry.
    pub is_comment: bool,
    /// The citation key, where the entry has one.
    pub key: Option<String>,
}

/// The keys of the entries of `entries` that are cited by key, in order.
pub open spec fn citable_keys(entries: Seq<BibtexEntry>) -> Seq<Seq<char>>
    decreases entries.len(),
{
    if entries.len() == 0 {
        Seq::empty()
    } else {
        let e = entries.last();
        let rest = citable_keys(entries.drop_last());
        if !e.is_comment && e.key is Some {
            rest.push(e.key->Some_0@)
        } else {
            rest
        }
    }
}

/// The keys of the citable entries of each bibliography, one after the other.
pub open spec fn citable_keys_of_all(docs: Seq<Vec<BibtexEntry>>) -> Seq<Seq<char>>
    decreases docs.len(),
{
    if docs.len() == 0 {
        Seq::empty()
    } else {
        citable_keys_of_all(docs.drop_last()) + citable_keys(docs.last()@)
    }
}

/// Whether `item` completes to `key`, replacing the text of `range`.
pub open spec fn is_key_item(item: CompletionItem, key: Seq<char>, range: Range) -> bool {
    &&& item.label@ == key
    &&& item.snippet is None
    &&& item.text_edit is Some
    &&& item.text_edit->Some_0.range == range
    &&& item.text_edit->Some_0.new_text@ == key
}

/// The completion of citation keys inside the argument of a citation command.
#[derive(Debug, PartialEq, Eq, Clone, Copy, Default)]
pub struct LatexCitationCompletionProvider;

impl LatexCitationCompletionProvider {
    /// The item for `entry`, which replaces the text of `range` by the key;
    /// none for a comment or an entry without a key.
    pub fn make_item(entry: &BibtexEntry, range: Range) -> (r: Option<CompletionItem>)
        ensures
            match r {
                Some(item) => !entry.is_comment && entry.key is Some && is_key_item(item, entry.key->Some_0@, range),
                None => entry.is_comment || entry.key is None,
            },
    {
        if entry.is_comment {
            return None;
        }
        match &entry.key {
            Some(key) => Some(CompletionItem {
                label: key.clone(),
                snippet: None,
                text_edit: Some(TextEdit { range, new_text: key.clone() }),
            }),
            None => None,
        }
    }

    /// The keys of the related bibliographies, each replacing the text of
    /// the citation argument at `argument`; none where the cursor is outside
    /// such an argument.
    pub fn execute(&self, argument: Option<Range>, bibliographies: &Vec<Vec<BibtexEntry>>) -> (r: Vec<CompletionItem>)
        ensures
            match argument {
                None => r@.len() == 0,
                Some(range) => {
                    &&& r@.len() == citable_keys_of_all(bibliographies@).len()
                    &&& forall|i: int| 0 <= i < r@.len() ==> is_key_item(
                        #[trigger] r@[i],
                        citable_keys_of_all(bibliographies@)[i],
                        range,
                    )
                },
            },
    {
        let range = match argument {
            Some(range) => range,
            None => return Vec::new(),
        };
        let mut items: Vec<CompletionItem> = Vec::new();
        let mut d: usize = 0;
        while d < bibliographies.len()
            invariant
                d <= bibliographies@.len(),
                items@.len() == citable_keys_of_all(bibliographies@.subrange(0, d as int)).len(),
                forall|i: int| 0 <= i < items@.len() ==> is_key_item(
                    #[trigger] items@[i],
                    citable_keys_of_all(bibliographies@.subrange(0, d as int))[i],
                    range,
                ),
            decreases bibliographies@.len() - d,
        {
            let entries = &bibliographies[d];
            let ghost done = citable_keys_of_all(bibliographies@.subrange(0, d as int));
            let mut k: usize = 0;
            while k < entries.len()
                invariant
                    d < bibliographies@.len(),
                    entries == bibliographies@[d as int],
                    k <= entries@.len(),
                    items@.len() == done.len() + citable_keys(entries@.subrange(0, k as int)).len(),
                    forall|i: int| 0 <= i < items@.len() ==> is_key_item(
                        #[trigger] items@[i],
                        (done + citable_keys(entries@.subrange(0, k as int)))[i],
                        range,
                    ),
                decreases entries@.len() - k,
            {
                let ghost cur = entries@.subrange(0, k + 1);
                assert(cur.drop_last() =~= entries@.subrange(0, k as int));
                assert(cur.last() == entries@[k as int]);
                match Self::make_item(&entries[k], range) {
                    Some(item) => {
                        items.push(item);
                        assert(done + citable_keys(cur) =~= (done + citable_keys(entries@.subrange(0, k as int))).push(
                            entries@[k as int].key->Some_0@,
                        ));
                    },
                    None => {},
                }
                k += 1;
            }
            proof {
                let cur = bibliographies@.subrange(0, d + 1);
                assert(cur.drop_last() =~= bibliographies@.subrange(0, d as int));
                assert(entries@.subrange(0, entries@.len() as int) =~= entries@);
                assert(citable_keys_of_all(cur) == done + citable_keys(entries@));
            }
            d += 1;
        }
        assert(bibliographies@.subrange(0, bibliographies@.len() as int) =~= bibliographies@);
        items
    }
}

} // verus!
