use vstd::prelude::*;
use crate::document::{contains_string, strs_view};
use crate::workspace::{Workspace, contains_uri, has_parent};
use crate::uri::{file_path_of, file_uri, local_path, url_from_file_path};

verus! {

/// The directory that ends before the separator at `i`: the root for the
/// leading separator.
pub open spec fn dir_before(p: Seq<char>, i: int) -> Seq<char> {
    if i == 0 {
        seq!['/']
    } else {
        p.subrange(0, i)
    }
}

/// The directories that end before a separator at an index below `n`,
/// innermost first.
pub open spec fn dirs_below(p: Seq<char>, n: int) -> Seq<Seq<char>>
    decreases n,
{
    if n <= 0 {
        Seq::empty()
    } else if p[n - 1] == '/' {
        seq![dir_before(p, n - 1)] + dirs_below(p, n - 1)
    } else {
        dirs_below(p, n - 1)
    }
}

/// The ancestor directories of path `p`, from the innermost out to the root.
pub open spec fn ancestor_dirs(p: Seq<char>) -> Seq<Seq<char>> {
    dirs_below(p, p.len() as int)
}

/// The ancestor directories of `path`, from the innermost out to the root:
/// `/a/b/c.tex` has `/a/b`, `/a` and `/`.
pub fn ancestors(path: &String) -> (r: Vec<String>)
    ensures
        strs_view(r@) == ancestor_dirs(path@),
{
    let s = path.as_str();
    let n = s.unicode_len();
    let mut r: Vec<String> = Vec::new();
    let mut i: usize = n;
    while i > 0
        invariant
            n == path@.len(),
            s@ == path@,
            i <= n,
            strs_view(r@) + dirs_below(path@, i as int) == ancestor_dirs(path@),
        decreases i,
    {
        let c = s.get_char(i - 1);
        if c == '/' {
            let dir: String = if i == 1 {
                "/".to_owned()
            } else {
                s.substring_char(0, i - 1).to_owned()
            };
            proof {
                if i == 1 {
                    reveal_strlit("/");
                    assert(dir@ =~= seq!['/']);
                }
                assert(dir@ == dir_before(path@, i - 1));
            }
            let ghost before = r@;
            r.push(dir);
            assert(strs_view(r@) =~= strs_view(before).push(dir@));
            assert(strs_view(r@) + dirs_below(path@, i - 1) =~= strs_view(before) + (seq![dir@] + dirs_below(path@, i - 1)));
        }
        i -= 1;
    }
    assert(strs_view(r@) + dirs_below(path@, 0) =~= strs_view(r@));
    r
}

/// The extensions of the supported source files.
pub open spec fn supported_extension(e: Seq<char>) -> bool {
    e == seq!['t', 'e', 'x'] || e == seq!['s', 't', 'y'] || e == seq!['c', 'l', 's'] || e == seq!['l', 'c', 'o']
        || e == seq!['b', 'i', 'b']
}

/// Whether path `p` names a file with extension `e`: it ends with a dot and
/// `e`, and the dot neither starts the path nor follows a separator.
pub open spec fn has_extension(p: Seq<char>, e: Seq<char>) -> bool {
    p.len() > e.len() + 1 && p.subrange(p.len() - e.len(), p.len() as int) == e && p[p.len() - e.len() - 1] == '.'
        && p[p.len() - e.len() - 2] != '/'
}

/// Whether path `p` names a supported source file.
pub open spec fn is_source_path(p: Seq<char>) -> bool {
    exists|e: Seq<char>| supported_extension(e) && has_extension(p, e)
}

fn ends_with_extension(p: &str, e: &str) -> (r: bool)
    ensures
        r == has_extension(p@, e@),
{
    let n = p.unicode_len();
    let m = e.unicode_len();
    if m >= n || n - m < 2 {
        return false;
    }
    if p.get_char(n - m - 1) != '.' || p.get_char(n - m - 2) == '/' {
        return false;
    }
    let mut k: usize = 0;
    while k < m
        invariant
            n == p@.len(),
            m == e@.len(),
            m < n,
            k <= m,
            forall|j: int| 0 <= j < k ==> p@[n - m + j] == e@[j],
        decreases m - k,
    {
        if p.get_char(n - m + k) != e.get_char(k) {
            assert(p@.subrange(n - m, n as int)[k as int] != e@[k as int]);
            return false;
        }
        k += 1;
    }
    assert(p@.subrange(n - m, n as int) =~= e@);
    true
}

/// Whether `path` names a supported source file (`.tex`, `.sty`, `.cls`,
/// `.lco` or `.bib`).
pub fn is_source_file(path: &String) -> (r: bool)
    ensures
        r == is_source_path(path@),
{
    let p = path.as_str();
    proof {
        reveal_strlit("tex");
        reveal_strlit("sty");
        reveal_strlit("cls");
        reveal_strlit("lco");
        reveal_strlit("bib");
    }
    let t = ends_with_extension(p, "tex");
    let s = ends_with_extension(p, "sty");
    let c = ends_with_extension(p, "cls");
    let l = ends_with_extension(p, "lco");
    let b = ends_with_extension(p, "bib");
    let r = t || s || c || l || b;
    proof {
        let (et, es, ec, el, eb) = ("tex"@, "sty"@, "cls"@, "lco"@, "bib"@);
        assert(et =~= seq!['t', 'e', 'x']);
        assert(es =~= seq!['s', 't', 'y']);
        assert(ec =~= seq!['c', 'l', 's']);
        assert(el =~= seq!['l', 'c', 'o']);
        assert(eb =~= seq!['b', 'i', 'b']);
        assert(supported_extension(et) && supported_extension(es) && supported_extension(ec));
        assert(supported_extension(el) && supported_extension(eb));
        if t {
            assert(has_extension(path@, et));
        } else if s {
            assert(has_extension(path@, es));
        } else if c {
            assert(has_extension(path@, ec));
        } else if l {
            assert(has_extension(path@, el));
        } else if b {
            assert(has_extension(path@, eb));
        } else {
            assert(!is_source_path(path@)) by {
                if is_source_path(path@) {
                    let e = choose|e: Seq<char>| supported_extension(e) && has_extension(path@, e);
                }
            }
        }
    }
    r
}

/// The paths among `es` that name a supported source file, have a URI, and
/// whose URI the workspace does not hold yet, in order.
pub open spec fn new_sources(ws: Seq<crate::document::DocumentModel>, es: Seq<Seq<char>>) -> Seq<Seq<char>>
    decreases es.len(),
{
    if es.len() == 0 {
        Seq::empty()
    } else if is_source_path(es.last()) && file_uri(es.last()) is Some && !contains_uri(
        ws,
        file_uri(es.last())->Some_0,
    ) {
        new_sources(ws, es.drop_last()).push(es.last())
    } else {
        new_sources(ws, es.drop_last())
    }
}

/// Of the paths of the entries of a directory, the source files to load:
/// those with a supported extension whose URI the workspace does not hold
/// yet.
pub fn candidates(ws: &Workspace, entries: &Vec<String>) -> (r: Vec<String>)
    requires
        ws.wf(),
    ensures
        strs_view(r@) == new_sources(ws@, strs_view(entries@)),
{
    let mut r: Vec<String> = Vec::new();
    let mut i: usize = 0;
    while i < entries.len()
        invariant
            ws.wf(),
            i <= entries.len(),
            strs_view(r@) == new_sources(ws@, strs_view(entries@).subrange(0, i as int)),
        decreases entries.len() - i,
    {
        let e = &entries[i];
        let ghost pre = strs_view(entries@).subrange(0, i as int);
        let ghost cur = strs_view(entries@).subrange(0, i + 1);
        assert(cur.drop_last() =~= pre);
        assert(cur.last() == e@);
        if is_source_file(e) {
            match url_from_file_path(e) {
                Some(u) => {
                    if !ws.contains(&u) {
                        let ghost before = r@;
                        r.push(e.clone());
                        assert(strs_view(r@) =~= strs_view(before).push(e@));
                    }
                },
                None => {},
            }
        }
        i += 1;
    }
    assert(strs_view(entries@).subrange(0, entries.len() as int) =~= strs_view(entries@));
    r
}

/// The walk over the ancestor directories of a newly opened document, in
/// search of a document that includes it. Each directory is handed out at
/// most once, and the walk ends at the root or as soon as a parent is known.
pub struct Discovery {
    uri: String,
    ancestors: Vec<String>,
    next: usize,
    visited: Vec<String>,
}

impl Discovery {
    /// The identifier of the document whose parent is sought.
    pub closed spec fn target(&self) -> Seq<char> {
        self.uri@
    }

    /// The ancestor directories, innermost first.
    pub closed spec fn dirs(&self) -> Seq<Seq<char>> {
        strs_view(self.ancestors@)
    }

    /// How many ancestors have been passed.
    pub closed spec fn cursor(&self) -> nat {
        self.next as nat
    }

    /// The directories handed out so far, in order.
    pub closed spec fn visited(&self) -> Seq<Seq<char>> {
        strs_view(self.visited@)
    }

    /// How many ancestors are left to pass.
    pub open spec fn remaining(&self) -> nat {
        (self.dirs().len() - self.cursor()) as nat
    }

    /// Each directory handed out is an ancestor that was passed, and none is
    /// handed out twice: a walk hands out at most as many directories as the
    /// path has ancestors.
    pub open spec fn wf(&self) -> bool {
        &&& self.cursor() <= self.dirs().len()
        &&& self.visited().len() <= self.cursor()
        &&& self.visited().no_duplicates()
        &&& forall|v: Seq<char>| self.visited().contains(v) ==> exists|k: int|
            0 <= k < self.cursor() && self.dirs()[k] == v
    }

    /// Starts the walk for document `uri`: over the ancestors of its local
    /// path, and over none where it names no local path.
    pub fn new(uri: String) -> (r: Discovery)
        ensures
            r.wf(),
            r.target() == uri@,
            r.dirs() == match local_path(uri@) {
                Some(p) => ancestor_dirs(p),
                None => Seq::<Seq<char>>::empty(),
            },
            r.cursor() == 0,
            r.visited() == Seq::<Seq<char>>::empty(),
    {
        let dirs = match file_path_of(&uri) {
            Some(path) => ancestors(&path),
            None => Vec::new(),
        };
        assert(local_path(uri@) is None ==> strs_view(dirs@) =~= Seq::<Seq<char>>::empty());
        let r = Discovery { uri, ancestors: dirs, next: 0, visited: Vec::new() };
        assert(r.visited() =~= Seq::<Seq<char>>::empty());
        r
    }

    /// The next directory to scan: the first ancestor not yet passed that was
    /// not handed out before. None once the workspace holds a document that
    /// includes the target, or once the root was passed; the walk is then over.
    pub fn next_directory(&mut self, ws: &Workspace) -> (r: Option<String>)
        requires
            old(self).wf(),
        ensures
            final(self).wf(),
            final(self).target() == old(self).target(),
            final(self).dirs() == old(self).dirs(),
            match r {
                Some(d) => {
                    &&& !has_parent(ws@, old(self).target())
                    &&& old(self).cursor() < final(self).cursor() <= old(self).dirs().len()
                    &&& old(self).dirs()[final(self).cursor() - 1] == d@
                    &&& !old(self).visited().contains(d@)
                    &&& final(self).visited() == old(self).visited().push(d@)
                    &&& forall|k: int| old(self).cursor() <= k < final(self).cursor() - 1
                        ==> old(self).visited().contains(#[trigger] old(self).dirs()[k])
                },
                None => {
                    &&& final(self).remaining() == 0
                    &&& final(self).visited() == old(self).visited()
                    &&& !has_parent(ws@, old(self).target()) ==> forall|k: int|
                        old(self).cursor() <= k < old(self).dirs().len()
                        ==> old(self).visited().contains(#[trigger] old(self).dirs()[k])
                },
            },
    {
        if ws.find_parent(&self.uri).is_some() {
            self.next = self.ancestors.len();
            return None;
        }
        let ghost start = self.next;
        while self.next < self.ancestors.len()
            invariant
                self.wf(),
                self.target() == old(self).target(),
                self.dirs() == old(self).dirs(),
                self.visited() == old(self).visited(),
                start <= self.next <= self.ancestors.len(),
                start == old(self).cursor(),
                !has_parent(ws@, old(self).target()),
                forall|k: int| start <= k < self.next ==> old(self).visited().contains(#[trigger] old(self).dirs()[k]),
            decreases self.ancestors.len() - self.next,
        {
            let i = self.next;
            self.next = i + 1;
            if !contains_string(&self.visited, &self.ancestors[i]) {
                let d = self.ancestors[i].clone();
                let ghost before = self.visited@;
                self.visited.push(self.ancestors[i].clone());
                proof {
                    assert(self.dirs()[i as int] == d@);
                    assert(strs_view(self.visited@) =~= strs_view(before).push(d@));
                    assert forall|v: Seq<char>| self.visited().contains(v) implies exists|k: int|
                        0 <= k < self.cursor() && self.dirs()[k] == v by {
                        if v != d@ {
                            let w = choose|w: int| 0 <= w < self.visited().len() && self.visited()[w] == v;
                            assert(strs_view(before)[w] == v);
                            assert(strs_view(before).contains(v));
                        } else {
                            assert(self.dirs()[i as int] == v);
                        }
                    }
                }
                return Some(d);
            }
        }
        None
    }
}

} // verus!
