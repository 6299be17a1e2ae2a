use vstd::prelude::*;
use crate::document::strs_view;

verus! {

/// Why the file index of the TeX distribution could not be loaded.
#[derive(Debug, Clone, Copy, PartialEq, Eq, Structural)]
pub enum ResolverError {
    KpsewhichNotFound,
    UnsupportedTexDistribution,
    CorruptFileDatabase,
}

impl ResolverError {
    /// The message shown to the user for this failure.
    pub fn message(&self) -> (r: &'static str)
        ensures
            r@ == match self {
                ResolverError::KpsewhichNotFound =>
                    "An error occurred while executing `kpsewhich`.Please make sure that your distribution is in your PATH environment variable and provides the `kpsewhich` tool."@,
                ResolverError::UnsupportedTexDistribution => "Your TeX distribution is not supported."@,
                ResolverError::CorruptFileDatabase =>
                    "The file database of your TeX distribution seems to be corrupt. Please rebuild it and try again."@,
            },
    {
        match self {
            ResolverError::KpsewhichNotFound =>
                "An error occurred while executing `kpsewhich`.Please make sure that your distribution is in your PATH environment variable and provides the `kpsewhich` tool.",
            ResolverError::UnsupportedTexDistribution => "Your TeX distribution is not supported.",
            ResolverError::CorruptFileDatabase =>
                "The file database of your TeX distribution seems to be corrupt. Please rebuild it and try again.",
        }
    }
}

/// The first path recorded for file name `name`, if any.
pub open spec fn resolve_spec(names: Seq<Seq<char>>, paths: Seq<Seq<char>>, name: Seq<char>) -> Option<Seq<char>>
    decreases names.len(),
{
    if names.len() == 0 || paths.len() == 0 {
        None
    } else if names[0] == name {
        Some(paths[0])
    } else {
        resolve_spec(names.drop_first(), paths.drop_first(), name)
    }
}

/// An index from file names to the paths where the TeX distribution keeps
/// them. It is never changed once built: a newer index replaces it whole.
#[derive(Debug)]
pub struct TexResolver {
    names: Vec<String>,
    paths: Vec<String>,
}

impl TexResolver {
    pub closed spec fn names(&self) -> Seq<Seq<char>> {
        strs_view(self.names@)
    }

    pub closed spec fn paths(&self) -> Seq<Seq<char>> {
        strs_view(self.paths@)
    }

    /// The path of file `name`, if the index knows it.
    pub open spec fn lookup(&self, name: Seq<char>) -> Option<Seq<char>> {
        resolve_spec(self.names(), self.paths(), name)
    }

    /// The empty index, used until a real one is loaded or when loading fails.
    pub fn empty() -> (r: TexResolver)
        ensures
            forall|n: Seq<char>| r.lookup(n) is None,
    {
        let r = TexResolver { names: Vec::new(), paths: Vec::new() };
        assert(r.names() =~= Seq::<Seq<char>>::empty());
        r
    }

    /// An index of the given pairs of a file name and its path; the first
    /// pair of a name wins.
    pub fn from_entries(names: Vec<String>, paths: Vec<String>) -> (r: TexResolver)
        requires
            names.len() == paths.len(),
        ensures
            r.names() == strs_view(names@),
            r.paths() == strs_view(paths@),
    {
        TexResolver { names, paths }
    }

    /// A copy of this index, as a snapshot for a reader.
    pub fn duplicate(&self) -> (r: TexResolver)
        ensures
            r.names() == self.names(),
            r.paths() == self.paths(),
    {
        TexResolver {
            names: crate::document::clone_strings(&self.names),
            paths: crate::document::clone_strings(&self.paths),
        }
    }

    /// The path of file `name`, if the index knows it.
    pub fn resolve(&self, name: &String) -> (r: Option<String>)
        ensures
            match r {
                Some(p) => self.lookup(name@) == Some(p@),
                None => self.lookup(name@) is None,
            },
    {
        let n = if self.names.len() < self.paths.len() { self.names.len() } else { self.paths.len() };
        let mut i: usize = 0;
        assert(self.names().subrange(0, self.names().len() as int) =~= self.names());
        assert(self.paths().subrange(0, self.paths().len() as int) =~= self.paths());
        while i < n
            invariant
                n <= self.names.len(),
                n <= self.paths.len(),
                n == self.names.len() || n == self.paths.len(),
                i <= n,
                self.lookup(name@) == resolve_spec(self.names().subrange(i as int, self.names().len() as int),
                    self.paths().subrange(i as int, self.paths().len() as int), name@),
            decreases n - i,
        {
            let ghost ns = self.names().subrange(i as int, self.names().len() as int);
            let ghost ps = self.paths().subrange(i as int, self.paths().len() as int);
            assert(ns.drop_first() =~= self.names().subrange(i + 1, self.names().len() as int));
            assert(ps.drop_first() =~= self.paths().subrange(i + 1, self.paths().len() as int));
            if self.names[i] == *name {
                assert(ns[0] == self.names@[i as int]@);
                return Some(self.paths[i].clone());
            }
            i += 1;
        }
        proof {
            let ns = self.names().subrange(i as int, self.names().len() as int);
            let ps = self.paths().subrange(i as int, self.paths().len() as int);
            assert(ns.len() == 0 || ps.len() == 0);
        }
        None
    }
}

/// The shared resolver: the empty index until a load succeeds, then the
/// index that was loaded, swapped in whole.
pub struct ResolverSlot {
    current: TexResolver,
    loaded: bool,
}

impl ResolverSlot {
    /// The index readers see.
    pub closed spec fn current(&self) -> TexResolver {
        self.current
    }

    /// Whether a load has succeeded.
    pub closed spec fn is_loaded(&self) -> bool {
        self.loaded
    }

    pub fn new() -> (r: ResolverSlot)
        ensures
            !r.is_loaded(),
            forall|n: Seq<char>| r.current().lookup(n) is None,
    {
        ResolverSlot { current: TexResolver::empty(), loaded: false }
    }

    /// The index readers see now.
    pub fn get(&self) -> (r: &TexResolver)
        ensures
            *r == self.current(),
    {
        &self.current
    }

    /// Takes the outcome of a load: a new index replaces the current one
    /// whole; a failure keeps the current one and is handed back, so that the
    /// session can tell the user and go on.
    pub fn finish_load(&mut self, outcome: Result<TexResolver, ResolverError>) -> (r: Option<ResolverError>)
        ensures
            match outcome {
                Ok(res) => {
                    &&& r is None
                    &&& final(self).current() == res
                    &&& final(self).is_loaded()
                },
                Err(e) => {
                    &&& r == Some(e)
                    &&& final(self).current() == old(self).current()
                    &&& final(self).is_loaded() == old(self).is_loaded()
                },
            },
    {
        match outcome {
            Ok(res) => {
                self.current = res;
                self.loaded = true;
                None
            },
            Err(e) => Some(e),
        }
    }
}

} // verus!
