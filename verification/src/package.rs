//! What is known of the package that a test binary belongs to.

use crate::text::clone_opt;
use crate::text::clone_strings;
use crate::text::opt_view;
use crate::text::str_same;
use crate::text::views;
use vstd::prelude::*;

verus! {

/// The version of a package.
#[derive(Debug, PartialEq, Eq)]
pub struct PackageVersion {
    /// The major version.
    pub major: u64,
    /// The minor version.
    pub minor: u64,
    /// The patch version.
    pub patch: u64,
    /// The pre-release part, empty for a release.
    pub pre: String,
    /// The version as it is written out in full.
    pub full: String,
}

/// The version of a package, as plain values.
pub struct PackageVersionView {
    pub major: nat,
    pub minor: nat,
    pub patch: nat,
    pub pre: Seq<char>,
    pub full: Seq<char>,
}

impl View for PackageVersion {
    type V = PackageVersionView;

    open spec fn view(&self) -> PackageVersionView {
        PackageVersionView {
            major: self.major as nat,
            minor: self.minor as nat,
            patch: self.patch as nat,
            pre: self.pre@,
            full: self.full@,
        }
    }
}

/// The metadata of a package.
#[derive(Debug, PartialEq, Eq)]
pub struct PackageInfo {
    /// The identifier of the package, unique within a build.
    pub id: String,
    /// The name of the package.
    pub name: String,
    /// Its version.
    pub version: PackageVersion,
    /// Its authors.
    pub authors: Vec<String>,
    /// Its description, if it has one.
    pub description: Option<String>,
    /// Its homepage, if it has one.
    pub homepage: Option<String>,
    /// The identifier of its license, if it names one.
    pub license: Option<String>,
    /// The path of its license file, if it names one.
    pub license_file: Option<String>,
    /// The address of its repository, if it names one.
    pub repository: Option<String>,
    /// The directory that holds its manifest, as it was at build time.
    pub manifest_dir: String,
    /// Whether the package is a procedural macro, and so built for the host.
    pub is_proc_macro: bool,
}

/// The metadata of a package, as plain values.
pub struct PackageInfoView {
    pub id: Seq<char>,
    pub name: Seq<char>,
    pub version: PackageVersionView,
    pub authors: Seq<Seq<char>>,
    pub description: Option<Seq<char>>,
    pub homepage: Option<Seq<char>>,
    pub license: Option<Seq<char>>,
    pub license_file: Option<Seq<char>>,
    pub repository: Option<Seq<char>>,
    pub manifest_dir: Seq<char>,
    pub is_proc_macro: bool,
}

impl View for PackageInfo {
    type V = PackageInfoView;

    open spec fn view(&self) -> PackageInfoView {
        PackageInfoView {
            id: self.id@,
            name: self.name@,
            version: self.version@,
            authors: views(self.authors@),
            description: opt_view(self.description),
            homepage: opt_view(self.homepage),
            license: opt_view(self.license),
            license_file: opt_view(self.license_file),
            repository: opt_view(self.repository),
            manifest_dir: self.manifest_dir@,
            is_proc_macro: self.is_proc_macro,
        }
    }
}

impl Clone for PackageVersion {
    fn clone(&self) -> (r: Self)
        ensures
            r@ == self@,
    {
        PackageVersion {
            major: self.major,
            minor: self.minor,
            patch: self.patch,
            pre: self.pre.clone(),
            full: self.full.clone(),
        }
    }
}

impl Clone for PackageInfo {
    fn clone(&self) -> (r: Self)
        ensures
            r@ == self@,
    {
        PackageInfo {
            id: self.id.clone(),
            name: self.name.clone(),
            version: self.version.clone(),
            authors: clone_strings(&self.authors),
            description: clone_opt(&self.description),
            homepage: clone_opt(&self.homepage),
            license: clone_opt(&self.license),
            license_file: clone_opt(&self.license_file),
            repository: clone_opt(&self.repository),
            manifest_dir: self.manifest_dir.clone(),
            is_proc_macro: self.is_proc_macro,
        }
    }
}

/// The packages of `packages`, as plain values.
pub open spec fn package_views(packages: Seq<PackageInfo>) -> Seq<PackageInfoView> {
    packages.map_values(|p: PackageInfo| p@)
}

/// The first of `packages` with the identifier `id`, if there is one.
pub open spec fn find_package(packages: Seq<PackageInfoView>, id: Seq<char>) -> Option<
    PackageInfoView,
>
    decreases packages.len(),
{
    if packages.len() == 0 {
        None
    } else if packages[0].id == id {
        Some(packages[0])
    } else {
        find_package(packages.drop_first(), id)
    }
}

/// Looks up a package by its identifier: the first of `packages` that has
/// it, if one does.
pub fn lookup_package<'a>(packages: &'a Vec<PackageInfo>, id: &str) -> (r: Option<&'a PackageInfo>)
    ensures
        match r {
            Some(p) => find_package(package_views(packages@), id@) == Some(p@),
            None => find_package(package_views(packages@), id@) is None,
        },
{
    let ghost all = package_views(packages@);
    let mut i: usize = 0;
    assert(all.skip(0) == all);
    while i < packages.len()
        invariant
            i <= packages.len(),
            all == package_views(packages@),
            find_package(all, id@) == find_package(all.skip(i as int), id@),
        decreases packages.len() - i,
    {
        assert(all.skip(i as int)[0] == packages@[i as int]@);
        if str_same(packages[i].id.as_str(), id) {
            return Some(&packages[i]);
        }
        assert(all.skip(i as int).drop_first() == all.skip(i + 1));
        i = i + 1;
    }
    None
}

} // verus!
