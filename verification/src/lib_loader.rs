//! The loader of dynamic libraries. A browser cannot load native libraries:
//! the loader only keeps the directories it was given.
use vstd::prelude::*;
use std::path::PathBuf;

verus! {

/// A path of the file system, carried through unread.
#[verifier::external_type_specification]
#[verifier::external_body]
pub struct ExPathBuf(PathBuf);

/// The directories of `dirs` that were resolved, in order; those that could
/// not be resolved are left out.
pub open spec fn resolved(dirs: Seq<Result<PathBuf, String>>) -> Seq<PathBuf>
    decreases dirs.len(),
{
    if dirs.len() == 0 {
        Seq::empty()
    } else {
        match dirs.last() {
            Ok(path) => resolved(dirs.drop_last()).push(path),
            Err(_) => resolved(dirs.drop_last()),
        }
    }
}

/// The search paths of a library loader: none at all, or a list.
#[derive(Clone, Debug)]
pub struct LibLoader {
    search_paths: Option<Vec<PathBuf>>,
}

impl View for LibLoader {
    type V = Option<Seq<PathBuf>>;

    closed spec fn view(&self) -> Option<Seq<PathBuf>> {
        match self.search_paths {
            Some(paths) => Some(paths@),
            None => None,
        }
    }
}

impl LibLoader {
    /// A loader with no search paths.
    pub fn empty() -> (r: LibLoader)
        ensures
            r@ == None::<Seq<PathBuf>>,
    {
        LibLoader { search_paths: None }
    }

    /// A loader that searches the directories of `dirs` that could be
    /// resolved, in order; a directory that could not be resolved is
    /// skipped, its error being the caller's to report.
    pub fn new(dirs: Vec<Result<PathBuf, String>>) -> (r: LibLoader)
        ensures
            r@ == Some(resolved(dirs@)),
    {
        let ghost all = dirs@;
        let n = dirs.len();
        let mut source = dirs;
        let mut rest: Vec<Result<PathBuf, String>> = Vec::new();
        while source.len() > 0
            invariant
                source@.len() + rest@.len() == all.len(),
                forall|j: int| 0 <= j < source@.len() ==> source@[j] == all[j],
                forall|j: int|
                    0 <= j < rest@.len() ==> rest@[j] == all[all.len() - 1 - j],
            decreases source@.len(),
        {
            let dir = source.pop().unwrap();
            rest.push(dir);
        }
        let mut paths: Vec<PathBuf> = Vec::new();
        let mut i: usize = 0;
        while rest.len() > 0
            invariant
                i <= all.len(),
                n == all.len(),
                rest@.len() == all.len() - i,
                forall|j: int| 0 <= j < rest@.len() ==> rest@[j] == all[all.len() - 1 - j],
                paths@ == resolved(all.take(i as int)),
            decreases rest@.len(),
        {
            let dir = rest.pop().unwrap();
            assert(dir == all[i as int]);
            assert(all.take(i + 1).drop_last() =~= all.take(i as int));
            match dir {
                Ok(path) => {
                    paths.push(path);
                },
                Err(_) => {},
            }
            i = i + 1;
        }
        assert(all.take(i as int) =~= all);
        LibLoader { search_paths: Some(paths) }
    }

    /// The search paths, if the loader has any.
    pub fn search_paths(&self) -> (r: Option<&[PathBuf]>)
        ensures
            match r {
                Some(paths) => self@ == Some(paths@),
                None => self@ == None::<Seq<PathBuf>>,
            },
    {
        match &self.search_paths {
            Some(paths) => Some(paths.as_slice()),
            None => None,
        }
    }

    /// The name of the plugin in a library file: never known, as no library
    /// can be loaded.
    pub fn _plugin_name(_path: &PathBuf) -> (r: Option<&str>)
        ensures
            r is None,
    {
        None
    }

    /// The name of the plugin in a library file: never known, as no library
    /// can be loaded.
    pub fn plugin_name<P>(_path: &P) -> (r: Option<&str>)
        ensures
            r is None,
    {
        None
    }
}

} // verus!
