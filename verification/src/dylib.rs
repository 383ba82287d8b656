//! The search path for dynamic libraries that test binaries are run with.
//!
//! Directories of the build come first, so that freshly built libraries
//! shadow installed ones of the same name; the directories that the
//! environment already named follow.

use crate::build_meta::dylib_dirs;
use crate::build_meta::RustBuildMeta;
use crate::build_meta::RustBuildMetaView;
use crate::errors::ParseTestListError;
use crate::text::chars_of;
use crate::text::clone_strings;
use crate::text::opt_view;
use crate::text::views;
use vstd::prelude::*;

verus! {

/// The kind of platform that tests run on, as far as library search paths
/// go.
#[derive(Clone, Copy, Debug, PartialEq, Eq, Structural)]
pub enum HostPlatform {
    /// Windows: libraries are searched in `PATH`, a list separated by `;`.
    Windows,
    /// macOS: libraries are searched in `DYLD_FALLBACK_LIBRARY_PATH`.
    MacOs,
    /// Any other platform: libraries are searched in `LD_LIBRARY_PATH`.
    Unix,
}

/// The library search path of the environment that tests are started from.
#[derive(Debug, PartialEq, Eq)]
pub struct HostEnv {
    /// The kind of platform.
    pub platform: HostPlatform,
    /// The directories that the platform's search path variable names, in
    /// order.
    pub dylib_path: Vec<String>,
}

/// The name of the environment variable that holds the library search path.
pub open spec fn dylib_envvar_name(platform: HostPlatform) -> Seq<char> {
    match platform {
        HostPlatform::Windows => "PATH"@,
        HostPlatform::MacOs => "DYLD_FALLBACK_LIBRARY_PATH"@,
        HostPlatform::Unix => "LD_LIBRARY_PATH"@,
    }
}

/// The name of the environment variable that holds the library search path.
pub fn dylib_path_envvar(platform: HostPlatform) -> (name: &'static str)
    ensures
        name@ == dylib_envvar_name(platform),
{
    match platform {
        HostPlatform::Windows => "PATH",
        HostPlatform::MacOs => "DYLD_FALLBACK_LIBRARY_PATH",
        HostPlatform::Unix => "LD_LIBRARY_PATH",
    }
}

/// The character that separates the directories of a search path.
pub open spec fn path_separator(platform: HostPlatform) -> char {
    match platform {
        HostPlatform::Windows => ';',
        _ => ':',
    }
}

/// Whether a directory can stand in a search path: on Windows it must hold
/// no `"`, elsewhere no `:`.
pub open spec fn encodable(dir: Seq<char>, platform: HostPlatform) -> bool {
    match platform {
        HostPlatform::Windows => !dir.contains('"'),
        _ => !dir.contains(':'),
    }
}

/// A directory as it stands in a search path: on Windows, one that holds a
/// `;` is put between `"`.
pub open spec fn encoded(dir: Seq<char>, platform: HostPlatform) -> Seq<char> {
    if platform == HostPlatform::Windows && dir.contains(';') {
        seq!['"'] + dir + seq!['"']
    } else {
        dir
    }
}

/// The directories joined by the separator, each as it stands in a search
/// path.
pub open spec fn join_encoded(dirs: Seq<Seq<char>>, platform: HostPlatform) -> Seq<char>
    decreases dirs.len(),
{
    if dirs.len() == 0 {
        Seq::empty()
    } else if dirs.len() == 1 {
        encoded(dirs[0], platform)
    } else {
        join_encoded(dirs.drop_last(), platform) + seq![path_separator(platform)] + encoded(
            dirs.last(),
            platform,
        )
    }
}

/// The search path made of `dirs`, if each of them can stand in one.
pub open spec fn joined_paths(dirs: Seq<Seq<char>>, platform: HostPlatform) -> Option<Seq<char>> {
    if forall|i: int| 0 <= i < dirs.len() ==> encodable(#[trigger] dirs[i], platform) {
        Some(join_encoded(dirs, platform))
    } else {
        None
    }
}

/// Those of `dirs` that cannot stand in a search path, in order.
pub open spec fn unencodable(dirs: Seq<Seq<char>>, platform: HostPlatform) -> Seq<Seq<char>>
    decreases dirs.len(),
{
    if dirs.len() == 0 {
        Seq::empty()
    } else if encodable(dirs.last(), platform) {
        unencodable(dirs.drop_last(), platform)
    } else {
        unencodable(dirs.drop_last(), platform).push(dirs.last())
    }
}

/// There is a search path of `dirs` unless one of them cannot stand in
/// one.
pub proof fn lemma_unencodable(dirs: Seq<Seq<char>>, platform: HostPlatform)
    ensures
        joined_paths(dirs, platform) is Some <==> unencodable(dirs, platform).len() == 0,
    decreases dirs.len(),
{
    if dirs.len() > 0 {
        let init = dirs.drop_last();
        lemma_unencodable(init, platform);
        assert forall|i: int| 0 <= i < init.len() implies init[i] == dirs[i] by {}
        if joined_paths(init, platform) is Some && encodable(dirs.last(), platform) {
            assert forall|i: int| 0 <= i < dirs.len() implies encodable(
                #[trigger] dirs[i],
                platform,
            ) by {
                if i < init.len() {
                    assert(encodable(init[i], platform));
                }
            }
        }
        if joined_paths(dirs, platform) is Some {
            assert(encodable(dirs[dirs.len() - 1], platform));
            assert forall|i: int| 0 <= i < init.len() implies encodable(
                #[trigger] init[i],
                platform,
            ) by {
                assert(encodable(dirs[i], platform));
            }
        }
    }
}

/// The directories that cannot stand in a search path are those of `dirs`
/// that cannot, and no others.
pub proof fn lemma_unencodable_holds(dirs: Seq<Seq<char>>, platform: HostPlatform, dir: Seq<char>)
    ensures
        unencodable(dirs, platform).contains(dir) <==> dirs.contains(dir) && !encodable(
            dir,
            platform,
        ),
    decreases dirs.len(),
{
    if dirs.len() > 0 {
        let init = dirs.drop_last();
        let last = dirs.last();
        let bad = unencodable(dirs, platform);
        let before = unencodable(init, platform);
        lemma_unencodable_holds(init, platform, dir);
        if bad.contains(dir) {
            let i = bad.index_of(dir);
            if i < before.len() {
                assert(before[i] == dir);
                assert(before.contains(dir));
                assert(init.contains(dir));
                let j = init.index_of(dir);
                assert(dirs[j] == dir);
            } else {
                assert(dir == last);
                assert(dirs[dirs.len() - 1] == dir);
            }
        }
        if dirs.contains(dir) && !encodable(dir, platform) {
            let j = dirs.index_of(dir);
            if j < init.len() {
                assert(init[j] == dir);
                assert(init.contains(dir));
                assert(before.contains(dir));
                let i = before.index_of(dir);
                assert(bad[i] == dir);
            } else {
                assert(bad[bad.len() - 1] == dir);
            }
        }
    }
}

/// Whether `c` occurs in `text`.
fn has_char(text: &Vec<char>, c: char) -> (r: bool)
    ensures
        r == text@.contains(c),
{
    let mut i: usize = 0;
    while i < text.len()
        invariant
            i <= text.len(),
            forall|j: int| 0 <= j < i ==> text@[j] != c,
        decreases text.len() - i,
    {
        if text[i] == c {
            return true;
        }
        i = i + 1;
    }
    false
}

/// Joins `dirs` into one search path for `platform`. There is none if one
/// of the directories cannot stand in a search path.
pub fn join_paths(dirs: &Vec<String>, platform: HostPlatform) -> (r: Option<String>)
    ensures
        opt_view(r) == joined_paths(views(dirs@), platform),
{
    let windows = match platform {
        HostPlatform::Windows => true,
        _ => false,
    };
    let separator = if windows {
        ';'
    } else {
        ':'
    };
    let ghost all = views(dirs@);
    let mut out = String::new();
    let mut i: usize = 0;
    while i < dirs.len()
        invariant
            i <= dirs.len(),
            all == views(dirs@),
            separator == path_separator(platform),
            windows == (platform == HostPlatform::Windows),
            forall|j: int| 0 <= j < i ==> encodable(#[trigger] all[j], platform),
            out@ == join_encoded(all.take(i as int), platform),
        decreases dirs.len() - i,
    {
        let dir = chars_of(dirs[i].as_str());
        assert(all[i as int] == dir@);
        let forbidden = if windows {
            '"'
        } else {
            ':'
        };
        if has_char(&dir, forbidden) {
            assert(!encodable(all[i as int], platform));
            return None;
        }
        let ghost before = out@;
        if i > 0 {
            out.push(separator);
        }
        let quoted = windows && has_char(&dir, ';');
        if quoted {
            out.push('"');
        }
        let ghost head = out@;
        let mut k: usize = 0;
        while k < dir.len()
            invariant
                k <= dir.len(),
                out@ == head + dir@.take(k as int),
            decreases dir.len() - k,
        {
            out.push(dir[k]);
            assert(dir@.take(k + 1) == dir@.take(k as int).push(dir@[k as int]));
            k = k + 1;
        }
        assert(dir@.take(k as int) == dir@);
        if quoted {
            out.push('"');
        }
        proof {
            let prefix = all.take(i as int);
            let upto = all.take(i + 1);
            assert(upto.drop_last() == prefix);
            assert(upto.last() == dir@);
            if i == 0 {
                assert(before == Seq::<char>::empty());
                assert(out@ =~= encoded(dir@, platform));
            } else {
                assert(out@ =~= before + seq![separator] + encoded(dir@, platform));
            }
        }
        i = i + 1;
    }
    assert(all.take(i as int) == all);
    Some(out)
}

/// Whether `dir` can stand in a search path of `platform`.
pub fn can_encode(dir: &str, platform: HostPlatform) -> (r: bool)
    ensures
        r == encodable(dir@, platform),
{
    let chars = chars_of(dir);
    match platform {
        HostPlatform::Windows => !has_char(&chars, '"'),
        _ => !has_char(&chars, ':'),
    }
}

/// Those of `dirs` that cannot stand in a search path of `platform`, in
/// order.
pub fn unencodable_paths(dirs: &Vec<String>, platform: HostPlatform) -> (bad: Vec<String>)
    ensures
        views(bad@) == unencodable(views(dirs@), platform),
{
    let ghost all = views(dirs@);
    let mut bad: Vec<String> = Vec::new();
    let mut i: usize = 0;
    assert(all.take(0) == Seq::<Seq<char>>::empty());
    assert(views(bad@) =~= Seq::<Seq<char>>::empty());
    while i < dirs.len()
        invariant
            i <= dirs.len(),
            all == views(dirs@),
            views(bad@) == unencodable(all.take(i as int), platform),
        decreases dirs.len() - i,
    {
        proof {
            assert(all.take(i + 1).drop_last() == all.take(i as int));
            assert(all.take(i + 1).last() == dirs@[i as int]@);
        }
        if !can_encode(dirs[i].as_str(), platform) {
            let ghost before = bad@;
            bad.push(dirs[i].clone());
            assert(views(bad@) =~= views(before).push(dirs@[i as int]@));
        }
        i = i + 1;
    }
    assert(all.take(i as int) == all);
    bad
}

/// The directories of the updated search path: those of the build, then
/// those that the environment named.
pub open spec fn updated_dylib_dirs(meta: RustBuildMetaView, inherited: Seq<Seq<char>>) -> Seq<
    Seq<char>,
> {
    dylib_dirs(meta) + inherited
}

/// The search path with which the tests of a build are run: the
/// directories of the build in front of those that the environment named.
/// Fails if one of them cannot stand in a search path; the error names
/// those that cannot.
pub fn create_dylib_path(rust_build_meta: &RustBuildMeta, env: &HostEnv) -> (r: Result<
    String,
    ParseTestListError,
>)
    ensures
        match r {
            Ok(path) => joined_paths(
                updated_dylib_dirs(rust_build_meta@, views(env.dylib_path@)),
                env.platform,
            ) == Some(path@),
            Err(ParseTestListError::DylibJoinPaths { paths }) => {
                &&& joined_paths(
                    updated_dylib_dirs(rust_build_meta@, views(env.dylib_path@)),
                    env.platform,
                ) is None
                &&& views(paths@) == unencodable(
                    updated_dylib_dirs(rust_build_meta@, views(env.dylib_path@)),
                    env.platform,
                )
                &&& paths@.len() > 0
            },
            Err(_) => false,
        },
{
    let new_paths = rust_build_meta.dylib_paths();
    let mut all = clone_strings(&new_paths);
    let mut i: usize = 0;
    while i < env.dylib_path.len()
        invariant
            i <= env.dylib_path.len(),
            views(all@) == views(new_paths@) + views(env.dylib_path@).take(i as int),
        decreases env.dylib_path.len() - i,
    {
        let ghost before = all@;
        all.push(env.dylib_path[i].clone());
        assert(views(all@) =~= views(before).push(env.dylib_path@[i as int]@));
        assert(views(env.dylib_path@).take(i + 1) =~= views(env.dylib_path@).take(
            i as int,
        ).push(env.dylib_path@[i as int]@));
        i = i + 1;
    }
    assert(views(env.dylib_path@).take(i as int) == views(env.dylib_path@));
    match join_paths(&all, env.platform) {
        Some(path) => Ok(path),
        None => {
            let paths = unencodable_paths(&all, env.platform);
            proof {
                lemma_unencodable(views(all@), env.platform);
            }
            Err(ParseTestListError::DylibJoinPaths { paths })
        },
    }
}

} // verus!
