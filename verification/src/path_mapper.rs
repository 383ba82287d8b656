//! Remapping of paths for tests that run elsewhere than they were built:
//! in another directory, or on another machine.
//!
//! Paths are held as strings. What it means for one path to lie under
//! another, and how a path is joined onto a directory, is left to `camino`,
//! which reads paths as the platform does.

use camino::Utf8Path;
use vstd::prelude::*;

verus! {

/// What `Utf8Path::strip_prefix` makes of `path` and `base`: the rest of
/// `path` below `base` where `base` is a prefix of `path` by whole
/// components, and nothing where it is not.
pub uninterp spec fn path_strip_prefix(path: Seq<char>, base: Seq<char>) -> Option<Seq<char>>;

/// What `Utf8Path::join` makes of `base` and `path`: `path` adjoined to
/// `base`.
pub uninterp spec fn path_join(base: Seq<char>, path: Seq<char>) -> Seq<char>;

/// Calls `Utf8Path::strip_prefix` of `camino` on `path` with `base`. The
/// contract gives the result its name and claims no more of it.
#[verifier::external_body]
fn strip_prefix(path: &str, base: &str) -> (r: Option<String>)
    ensures
        path_strip_prefix(path@, base@) == match r {
            Some(rest) => Some(rest@),
            None => None,
        },
{
    match Utf8Path::new(path).strip_prefix(base) {
        Ok(rest) => Some(rest.as_str().to_owned()),
        Err(_) => None,
    }
}

/// Calls `Utf8Path::join` of `camino` on `base` with `path`. The contract
/// gives the result its name and claims no more of it.
#[verifier::external_body]
pub(crate) fn join(base: &str, path: &str) -> (r: String)
    ensures
        r@ == path_join(base@, path@),
{
    Utf8Path::new(base).join(path).into_string()
}

/// A pair of prefixes, the one that paths were built with and the one to put
/// in its place, as plain values.
pub type PrefixPair = Option<(Seq<char>, Seq<char>)>;

/// `path` with the first prefix of `pair` replaced by the second, or `path`
/// itself where there is no pair or `path` does not lie under the first
/// prefix.
pub open spec fn remap(pair: PrefixPair, path: Seq<char>) -> Seq<char> {
    match pair {
        Some((from, to)) => rebased(path, path_strip_prefix(path, from), to),
        None => path,
    }
}

/// `path` moved below `to`, given what is left of it once its old prefix is
/// stripped: nothing, if it did not lie under that prefix.
pub open spec fn rebased(path: Seq<char>, stripped: Option<Seq<char>>, to: Seq<char>) -> Seq<
    char,
> {
    match stripped {
        Some(rest) => path_join(to, rest),
        None => path,
    }
}

/// Moves `path` below `to`, given what is left of it once its old prefix is
/// stripped. A path that did not lie under the old prefix comes back as it
/// is.
pub fn rebase(path: String, stripped: Option<String>, to: &str) -> (r: String)
    ensures
        r@ == rebased(
            path@,
            match stripped {
                Some(rest) => Some(rest@),
                None => None,
            },
            to@,
        ),
{
    match stripped {
        Some(rest) => join(to, rest.as_str()),
        None => path,
    }
}

/// The prefixes of a path mapper, as plain values.
pub struct PathMapperView {
    /// The root of the workspace at build time, and what stands for it now.
    pub workspace: PrefixPair,
    /// The target directory at build time, and what stands for it now.
    pub target_dir: PrefixPair,
}

/// Remaps paths from where a workspace and its target directory were at
/// build time to where they are now.
pub struct PathMapper {
    workspace: Option<(String, String)>,
    target_dir: Option<(String, String)>,
}

/// A pair of prefixes as plain values.
pub open spec fn pair_view(pair: Option<(String, String)>) -> PrefixPair {
    match pair {
        Some((from, to)) => Some((from@, to@)),
        None => None,
    }
}

impl View for PathMapper {
    type V = PathMapperView;

    closed spec fn view(&self) -> PathMapperView {
        PathMapperView {
            workspace: pair_view(self.workspace),
            target_dir: pair_view(self.target_dir),
        }
    }
}

/// Replaces the first prefix of `pair` in `path` by the second.
fn map_path(pair: &Option<(String, String)>, path: String) -> (r: String)
    ensures
        r@ == remap(pair_view(*pair), path@),
{
    match pair {
        Some((from, to)) => {
            let stripped = strip_prefix(path.as_str(), from.as_str());
            rebase(path, stripped, to.as_str())
        },
        None => path,
    }
}

impl Default for PathMapper {
    /// A mapper that leaves every path as it is.
    fn default() -> (m: Self)
        ensures
            m@.workspace is None,
            m@.target_dir is None,
    {
        PathMapper { workspace: None, target_dir: None }
    }
}

impl PathMapper {
    /// A mapper for a workspace that was built at `workspace_root` with the
    /// target directory `orig_target_dir`. Where `workspace` is given, it
    /// stands for `workspace_root`; where `target_dir` is given, it stands
    /// for `orig_target_dir`.
    pub fn new(
        workspace_root: &str,
        workspace: Option<String>,
        orig_target_dir: &str,
        target_dir: Option<String>,
    ) -> (m: Self)
        ensures
            m@.workspace == match workspace {
                Some(w) => Some((workspace_root@, w@)),
                None => None,
            },
            m@.target_dir == match target_dir {
                Some(d) => Some((orig_target_dir@, d@)),
                None => None,
            },
    {
        PathMapper {
            workspace: match workspace {
                Some(w) => Some((workspace_root.to_owned(), w)),
                None => None,
            },
            target_dir: match target_dir {
                Some(d) => Some((orig_target_dir.to_owned(), d)),
                None => None,
            },
        }
    }

    /// A mapper that leaves every path as it is.
    pub fn noop() -> (m: Self)
        ensures
            m@.workspace is None,
            m@.target_dir is None,
    {
        PathMapper { workspace: None, target_dir: None }
    }

    /// The target directory that stands for the one of build time, if one
    /// does.
    pub fn new_target_dir(&self) -> (r: Option<&str>)
        ensures
            match r {
                Some(d) => self@.target_dir matches Some((_, to)) && to == d@,
                None => self@.target_dir is None,
            },
    {
        match &self.target_dir {
            Some((_, to)) => Some(to.as_str()),
            None => None,
        }
    }

    /// Remaps a working directory: the root of the workspace at build time
    /// gives way to the one of now. A path outside it is left as it is.
    pub fn map_cwd(&self, path: String) -> (r: String)
        ensures
            r@ == remap(self@.workspace, path@),
    {
        map_path(&self.workspace, path)
    }

    /// Remaps the path of a binary: the target directory of build time gives
    /// way to the one of now. A path outside it is left as it is.
    pub fn map_binary(&self, path: String) -> (r: String)
        ensures
            r@ == remap(self@.target_dir, path@),
    {
        map_path(&self.target_dir, path)
    }
}

/// A path that does not lie under the first prefix of a pair is left as it
/// is by remapping, and so remapping it twice gives what remapping it once
/// gives.
pub proof fn lemma_remap_outside_prefix(pair: PrefixPair, path: Seq<char>)
    requires
        pair matches Some((from, _)) ==> path_strip_prefix(path, from) is None,
    ensures
        remap(pair, path) == path,
        remap(pair, remap(pair, path)) == remap(pair, path),
{
}

} // verus!
