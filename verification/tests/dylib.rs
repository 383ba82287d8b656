use nextest_runner::build_meta::RustBuildMeta;
use nextest_runner::dylib::can_encode;
use nextest_runner::dylib::create_dylib_path;
use nextest_runner::dylib::dylib_path_envvar;
use nextest_runner::dylib::join_paths;
use nextest_runner::dylib::unencodable_paths;
use nextest_runner::dylib::HostEnv;
use nextest_runner::dylib::HostPlatform;
use nextest_runner::errors::ParseTestListError;

fn dirs(names: &[&str]) -> Vec<String> {
    names.iter().map(|name| (*name).to_owned()).collect()
}

#[test]
fn each_platform_has_its_search_path_variable() {
    assert_eq!(dylib_path_envvar(HostPlatform::Windows), "PATH");
    assert_eq!(dylib_path_envvar(HostPlatform::MacOs), "DYLD_FALLBACK_LIBRARY_PATH");
    assert_eq!(dylib_path_envvar(HostPlatform::Unix), "LD_LIBRARY_PATH");
}

#[test]
fn directories_are_joined_by_the_separator_of_the_platform() {
    assert_eq!(join_paths(&dirs(&["/a", "/b c", "/d"]), HostPlatform::Unix), Some("/a:/b c:/d".to_owned()));
    assert_eq!(join_paths(&dirs(&["/a", "/b"]), HostPlatform::MacOs), Some("/a:/b".to_owned()));
    assert_eq!(join_paths(&dirs(&["C:\\a", "C:\\b"]), HostPlatform::Windows), Some("C:\\a;C:\\b".to_owned()));
    assert_eq!(join_paths(&dirs(&[]), HostPlatform::Unix), Some(String::new()));
    assert_eq!(join_paths(&dirs(&["/only"]), HostPlatform::Unix), Some("/only".to_owned()));
    assert_eq!(join_paths(&dirs(&["", ""]), HostPlatform::Unix), Some(":".to_owned()));
}

#[test]
fn a_directory_with_the_separator_cannot_be_joined_on_unix() {
    assert_eq!(join_paths(&dirs(&["/a", "/b:c"]), HostPlatform::Unix), None);
    assert_eq!(join_paths(&dirs(&["/a;b", "/c\"d"]), HostPlatform::Unix), Some("/a;b:/c\"d".to_owned()));
}

#[test]
fn a_directory_with_the_separator_is_quoted_on_windows() {
    assert_eq!(
        join_paths(&dirs(&["C:\\a;b", "C:\\c"]), HostPlatform::Windows),
        Some("\"C:\\a;b\";C:\\c".to_owned())
    );
    assert_eq!(join_paths(&dirs(&["C:\\a\"b"]), HostPlatform::Windows), None);
}

#[test]
fn the_directories_of_the_build_come_before_those_of_the_environment() {
    let mut meta = RustBuildMeta::new("/t".to_owned());
    meta.base_output_directories = dirs(&["debug"]);
    meta.linked_paths = dirs(&["debug/build/x/out"]);
    let env = HostEnv { platform: HostPlatform::Unix, dylib_path: dirs(&["/usr/lib", "/lib"]) };
    assert_eq!(
        create_dylib_path(&meta, &env),
        Ok("/t/debug/build/x/out:/t/debug/deps:/t/debug:/usr/lib:/lib".to_owned())
    );
}

#[test]
fn a_search_path_that_cannot_be_made_names_the_directories_of_the_build() {
    let mut meta = RustBuildMeta::new("/t:u".to_owned());
    meta.base_output_directories = dirs(&["debug"]);
    let env = HostEnv { platform: HostPlatform::Unix, dylib_path: dirs(&["/usr/lib"]) };
    assert_eq!(
        create_dylib_path(&meta, &env),
        Err(ParseTestListError::DylibJoinPaths { paths: dirs(&["/t:u/debug/deps", "/t:u/debug"]) })
    );
}

#[test]
fn a_search_path_that_cannot_be_made_names_only_what_cannot_be_joined() {
    let mut meta = RustBuildMeta::new("/t".to_owned());
    meta.base_output_directories = dirs(&["debug", "a:b"]);
    let env = HostEnv {
        platform: HostPlatform::Unix,
        dylib_path: dirs(&["/usr/lib", "/opt:x", "/lib", "/y:"]),
    };
    assert_eq!(
        create_dylib_path(&meta, &env),
        Err(ParseTestListError::DylibJoinPaths {
            paths: dirs(&["/t/a:b/deps", "/t/a:b", "/opt:x", "/y:"]),
        })
    );
}

#[test]
fn the_directories_that_cannot_be_joined_are_found_in_order() {
    assert_eq!(unencodable_paths(&dirs(&["/ok", "/a:b"]), HostPlatform::Unix), dirs(&["/a:b"]));
    assert_eq!(unencodable_paths(&dirs(&["/ok", "/a;b"]), HostPlatform::Unix), dirs(&[]));
    assert_eq!(
        unencodable_paths(&dirs(&["a\"b", "c:d", "e\"", "f"]), HostPlatform::Windows),
        dirs(&["a\"b", "e\""])
    );
    assert!(can_encode("/a;b", HostPlatform::Unix));
    assert!(!can_encode("/a:b", HostPlatform::MacOs));
    assert!(can_encode("C:\\a;b", HostPlatform::Windows));
    assert!(!can_encode("\"", HostPlatform::Windows));
}
