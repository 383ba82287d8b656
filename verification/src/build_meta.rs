//! What a build leaves behind for its tests: where its output lies, and
//! which directories hold libraries that the test binaries link to.

use crate::path_mapper::join;
use crate::path_mapper::path_join;
use crate::path_mapper::PathMapper;
use crate::path_mapper::PathMapperView;
use crate::text::clone_strings;
use crate::text::views;
use vstd::prelude::*;

verus! {

/// The metadata of a build.
#[derive(Debug, PartialEq, Eq)]
pub struct RustBuildMeta {
    /// The target directory of the build.
    pub target_directory: String,
    /// The directories that build output went to, relative to the target
    /// directory.
    pub base_output_directories: Vec<String>,
    /// The directories that hold linked libraries, relative to the target
    /// directory.
    pub linked_paths: Vec<String>,
}

/// The metadata of a build, as plain values.
pub struct RustBuildMetaView {
    pub target_directory: Seq<char>,
    pub base_output_directories: Seq<Seq<char>>,
    pub linked_paths: Seq<Seq<char>>,
}

impl View for RustBuildMeta {
    type V = RustBuildMetaView;

    open spec fn view(&self) -> RustBuildMetaView {
        RustBuildMetaView {
            target_directory: self.target_directory@,
            base_output_directories: views(self.base_output_directories@),
            linked_paths: views(self.linked_paths@),
        }
    }
}

/// The metadata with its target directory where the mapper says it is now.
pub open spec fn mapped_meta(meta: RustBuildMetaView, mapper: PathMapperView)
    -> RustBuildMetaView {
    RustBuildMetaView {
        target_directory: match mapper.target_dir {
            Some((_, to)) => to,
            None => meta.target_directory,
        },
        base_output_directories: meta.base_output_directories,
        linked_paths: meta.linked_paths,
    }
}

/// The linked directories below `target`, in order.
pub open spec fn linked_dirs(target: Seq<char>, linked: Seq<Seq<char>>) -> Seq<Seq<char>> {
    Seq::new(linked.len(), |i: int| path_join(target, linked[i]))
}

/// For each output directory below `target`, in order, its `deps`
/// directory and then the directory itself.
pub open spec fn output_dirs(target: Seq<char>, outputs: Seq<Seq<char>>) -> Seq<Seq<char>> {
    Seq::new(
        2 * outputs.len(),
        |i: int|
            if i % 2 == 0 {
                path_join(path_join(target, outputs[i / 2]), "deps"@)
            } else {
                path_join(target, outputs[i / 2])
            },
    )
}

/// The directories in which the libraries of a build are found: the linked
/// directories first, then the output directories, as the build tool itself
/// orders them.
pub open spec fn dylib_dirs(meta: RustBuildMetaView) -> Seq<Seq<char>> {
    linked_dirs(meta.target_directory, meta.linked_paths) + output_dirs(
        meta.target_directory,
        meta.base_output_directories,
    )
}

impl Clone for RustBuildMeta {
    fn clone(&self) -> (m: Self)
        ensures
            m@ == self@,
    {
        RustBuildMeta {
            target_directory: self.target_directory.clone(),
            base_output_directories: clone_strings(&self.base_output_directories),
            linked_paths: clone_strings(&self.linked_paths),
        }
    }
}

impl RustBuildMeta {
    /// The metadata of a build into `target_directory`, with no output or
    /// linked directories yet.
    pub fn new(target_directory: String) -> (m: Self)
        ensures
            m@.target_directory == target_directory@,
            m@.base_output_directories == Seq::<Seq<char>>::empty(),
            m@.linked_paths == Seq::<Seq<char>>::empty(),
    {
        let m = RustBuildMeta {
            target_directory,
            base_output_directories: Vec::new(),
            linked_paths: Vec::new(),
        };
        assert(m@.base_output_directories =~= Seq::<Seq<char>>::empty());
        assert(m@.linked_paths =~= Seq::<Seq<char>>::empty());
        m
    }

    /// The metadata with its target directory where `path_mapper` says it
    /// is now.
    pub fn map_paths(&self, path_mapper: &PathMapper) -> (m: RustBuildMeta)
        ensures
            m@ == mapped_meta(self@, path_mapper@),
    {
        let target_directory = match path_mapper.new_target_dir() {
            Some(dir) => dir.to_owned(),
            None => self.target_directory.clone(),
        };
        RustBuildMeta {
            target_directory,
            base_output_directories: clone_strings(&self.base_output_directories),
            linked_paths: clone_strings(&self.linked_paths),
        }
    }

    /// The directories in which the libraries of the build are found, those
    /// to be searched first in front.
    pub fn dylib_paths(&self) -> (dirs: Vec<String>)
        ensures
            views(dirs@) == dylib_dirs(self@),
    {
        let ghost target = self.target_directory@;
        let ghost linked = linked_dirs(target, views(self.linked_paths@));
        let ghost outputs = output_dirs(target, views(self.base_output_directories@));
        let mut dirs: Vec<String> = Vec::new();
        let mut i: usize = 0;
        while i < self.linked_paths.len()
            invariant
                i <= self.linked_paths.len(),
                target == self.target_directory@,
                linked == linked_dirs(target, views(self.linked_paths@)),
                dirs@.len() == i,
                forall|j: int| 0 <= j < i ==> dirs@[j]@ == linked[j],
            decreases self.linked_paths.len() - i,
        {
            let dir = join(self.target_directory.as_str(), self.linked_paths[i].as_str());
            assert(views(self.linked_paths@)[i as int] == self.linked_paths@[i as int]@);
            dirs.push(dir);
            i = i + 1;
        }
        let n = i;
        let mut k: usize = 0;
        while k < self.base_output_directories.len()
            invariant
                k <= self.base_output_directories.len(),
                n == self.linked_paths.len(),
                n == linked.len(),
                target == self.target_directory@,
                outputs == output_dirs(target, views(self.base_output_directories@)),
                dirs@.len() == n + 2 * k,
                forall|j: int| 0 <= j < n ==> dirs@[j]@ == linked[j],
                forall|j: int| 0 <= j < 2 * k ==> dirs@[n + j]@ == outputs[j],
            decreases self.base_output_directories.len() - k,
        {
            let base = join(
                self.target_directory.as_str(),
                self.base_output_directories[k].as_str(),
            );
            assert(views(self.base_output_directories@)[k as int]
                == self.base_output_directories@[k as int]@);
            let deps = join(base.as_str(), "deps");
            dirs.push(deps);
            dirs.push(base);
            assert(dirs@[n + 2 * k]@ == outputs[2 * k]);
            assert(dirs@[n + 2 * k + 1]@ == outputs[2 * k + 1]);
            k = k + 1;
        }
        assert(views(dirs@) =~= linked + outputs);
        dirs
    }
}

} // verus!
