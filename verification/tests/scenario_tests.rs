use x_path::AbsDir;
use x_path::AbsoluteFilePath;
use x_path::AbsoluteFolderPath;
use x_path::AnyDir;
use x_path::AnyFile;
use x_path::AnyPath;
use x_path::Os;
use x_path::PathError;
use x_path::PathInner;
use x_path::Platform;
use x_path::RelDir;
use x_path::RelFile;
use x_path::RelativeFilePath;

fn lin() -> Platform {
    Platform::lin_test()
}

fn win() -> Platform {
    Platform::win_test()
}

#[test]
fn scenario_clean_folder() {
    let p = PathInner::new(&lin(), "/dir1//dir2/").unwrap();
    assert_eq!(p.path, "/dir1/dir2/");
    assert!(p.is_folder());
    assert!(p.is_absolute());
    assert_eq!(
        p.segments().to_vec(),
        vec!["dir1".to_string(), "dir2".to_string()]
    );
}

#[test]
fn scenario_dotdot_prefix() {
    let p = PathInner::new(&lin(), "dir1/../../dir2/").unwrap();
    assert_eq!(p.path, "../dir2/");
    assert!(p.is_relative());
    assert!(p.is_folder());
}

#[test]
fn scenario_home_expansion() {
    let p = PathInner::new(&lin(), "~/dir").unwrap();
    assert_eq!(p.path, "/home/test/dir");
    assert_eq!(p.debug_string(&lin()), "~/dir");
    assert!(p.is_absolute());
    assert!(p.is_file());
}

#[test]
fn scenario_cwd_expansion() {
    let p = PathInner::new(&lin(), "./dir").unwrap();
    assert_eq!(p.path, "/var/test/dir");
    assert_eq!(p.debug_string(&lin()), "./dir");
}

#[test]
fn scenario_env_var_value() {
    let plat = Platform {
        os: Os::Posix,
        home: Some("/home/test".to_string()),
        cwd: Some("/var/test".to_string()),
        drive: 'C',
        vars: vec![("HI".to_string(), "world".to_string())],
    };
    let p = PathInner::new(&plat, "/${HI}/").unwrap();
    assert_eq!(p.path, "/world/");
}

#[test]
fn scenario_env_var_empty() {
    let e = PathInner::new(&lin(), "/${}").unwrap_err();
    assert!(matches!(e, PathError::EnvVarEmpty { .. }));
    assert_eq!(e.message(), "empty environment variable in path: /${}");
}

#[test]
fn scenario_set_extensions() {
    let mut p = PathInner::new(&lin(), "some/file.with.ext").unwrap();
    p.set_extensions(&vec!["txt".to_string(), "bz".to_string()]);
    assert_eq!(p.path, "some/file.txt.bz");
    assert_eq!(
        p.extensions().to_vec(),
        vec!["txt".to_string(), "bz".to_string()]
    );
}

#[test]
fn scenario_join_folder_file() {
    let d = AbsoluteFolderPath::new(&lin(), "/dir1/").unwrap();
    let f = RelativeFilePath::new(&lin(), "file").unwrap();
    let joined = d.with_file(&f);
    assert_eq!(joined.as_str(), "/dir1/file");
    assert_eq!(joined.debug_string(&lin()), "AbsoluteFilePath(/dir1/file)");
}

#[test]
fn scenario_windows_fixture() {
    let p = PathInner::new(&win(), "/home/di").unwrap();
    assert_eq!(p.path, "C:\\home\\di");

    let p = PathInner::new(&win(), "c:/").unwrap();
    assert_eq!(p.path, "C:\\");

    let p = PathInner::new(&win(), "~\\dir").unwrap();
    assert_eq!(p.path, "C:\\User\\test\\dir");
    assert_eq!(p.debug_string(&win()), "~/dir");

    let p = PathInner::new(&win(), "some/rel").unwrap();
    assert_eq!(p.path, "C:some\\rel");
}

#[test]
fn scenario_segment_too_long() {
    let long = "a".repeat(256);
    let input = format!("/dir/{long}");
    let e = PathInner::new(&lin(), input.as_str()).unwrap_err();
    assert!(matches!(e, PathError::SegmentTooLong { .. }));
    assert_eq!(
        e.message(),
        format!("path components can have a maximum length of 255 characters but was 256: {long}")
    );
}

#[test]
fn scenario_forbidden_characters() {
    let e = PathInner::new(&lin(), "/dir/a\u{1}b").unwrap_err();
    assert!(matches!(e, PathError::SegmentForbiddenControl { .. }));
    assert_eq!(
        e.message(),
        "forbidden ascii control character 0x1 in path segment: a\u{1}b"
    );

    let e = PathInner::new(&lin(), "/dir/ab:c").unwrap_err();
    assert!(matches!(e, PathError::SegmentForbiddenChar { .. }));
    assert_eq!(e.message(), "forbidden ascii character : in path segment: ab:c");
}

#[test]
fn scenario_filename_errors() {
    let mut p = PathInner::new(&lin(), "dir/file").unwrap();
    let e = p.set_file_name("").unwrap_err();
    assert!(matches!(e, PathError::EmptyFilename));
    assert_eq!(e.message(), "An empty filename is not valid");

    let e = p.set_file_name("a/b").unwrap_err();
    assert!(matches!(e, PathError::FilenameHasSeparator { .. }));
    assert_eq!(e.message(), "A file name cannot contain slashes: a/b");

    let e = p.set_file_stem("").unwrap_err();
    assert!(matches!(e, PathError::EmptyFileStem));
    assert_eq!(e.message(), "An empty file stem is not valid");

    // the path is unchanged after every failure
    assert_eq!(p.path, "dir/file");
}

#[test]
fn scenario_guard_errors() {
    let e = AbsoluteFolderPath::new(&lin(), "dir/").unwrap_err();
    assert!(matches!(e, PathError::NotAbsolute { .. }));

    let e = RelativeFilePath::new(&lin(), "/dir/file").unwrap_err();
    assert!(matches!(e, PathError::NotRelative { .. }));

    let e = RelativeFilePath::new(&lin(), "dir/").unwrap_err();
    assert!(matches!(e, PathError::NotFile { .. }));

    let e = AbsoluteFolderPath::new(&lin(), "/dir").unwrap_err();
    assert!(matches!(e, PathError::NotFolder { .. }));
}

#[test]
fn scenario_env_undefined() {
    let e = PathInner::new(&lin(), "/${MISSING}").unwrap_err();
    assert!(matches!(e, PathError::EnvVarUndefined { .. }));
    assert_eq!(e.message(), "environment variable 'MISSING' is not defined");
}

#[test]
fn scenario_missing_capabilities() {
    let plat = Platform {
        os: Os::Posix,
        home: None,
        cwd: None,
        drive: 'C',
        vars: Vec::new(),
    };
    let e = PathInner::new(&plat, "~/x").unwrap_err();
    assert!(matches!(e, PathError::HomeUnresolvable));
    assert_eq!(e.message(), "could not resolve the user's home directory");

    let e = PathInner::new(&plat, "./x").unwrap_err();
    assert!(matches!(e, PathError::CwdUnresolvable));
    assert_eq!(e.message(), "could not resolve the current working directory");
}

#[test]
fn scenario_fs_probes() {
    // the root of the filesystem is a directory everywhere this runs
    let root = AbsoluteFolderPath::new(&lin(), "/").unwrap();
    assert!(root.exists_on_disk());
    assert!(root.validate_fs(&lin()).is_ok());

    let missing = AbsoluteFolderPath::new(&lin(), "/surely/not/there/").unwrap();
    assert!(!missing.exists_on_disk());
    let e = missing.validate_fs(&lin()).unwrap_err();
    assert!(matches!(e, PathError::DoesNotExist { .. }));

    let d = AbsDir::new(&lin(), "/").unwrap();
    assert!(d.exists_on_disk(&lin()).is_ok());
}

#[test]
fn scenario_round_trip() {
    // feeding a canonical text back through the parser reproduces it
    for input in ["/dir1//dir2/", "dir1/../../dir2/", "a/b/c", "/x/y.txt", ""] {
        let p = PathInner::new(&lin(), input).unwrap();
        let again = PathInner::new(&lin(), p.as_str()).unwrap();
        assert_eq!(again.path, p.path);
    }
    for input in ["/home/di", "c:/", "some/rel", "a\\..\\..\\b\\"] {
        let p = PathInner::new(&win(), input).unwrap();
        let again = PathInner::new(&win(), p.as_str()).unwrap();
        assert_eq!(again.path, p.path);
    }
}

#[test]
fn scenario_strip_root_inverts_join() {
    let d = AbsoluteFolderPath::new(&lin(), "/dir1/dir2/").unwrap();
    let r = RelativeFilePath::new(&lin(), "a/b.txt").unwrap();
    let joined = d.with_file(&r);
    let back = joined.removing_root(&d).unwrap();
    assert_eq!(back.as_str(), r.as_str());
}

#[test]
fn scenario_short_family() {
    let d = AbsDir::new(&lin(), "/data/").unwrap();
    let f = RelFile::new(&lin(), "notes/a.txt").unwrap();
    let af = d.with_file(&f);
    assert_eq!(af.as_str(), "/data/notes/a.txt");

    let rd = af.drop_file();
    assert_eq!(rd.as_str(), "/data/notes/");

    let back = af.remove_root(&d).unwrap();
    assert_eq!(back.as_str(), "notes/a.txt");

    let rel = af.relative_from(1);
    assert_eq!(rel.as_str(), "notes/a.txt");

    let rd2 = RelDir::new(&lin(), "sub/").unwrap();
    let anchored = rd2.with_root(&d);
    assert_eq!(anchored.as_str(), "/data/sub/");

    let anyd = AnyDir::new(&lin(), "x/").unwrap();
    let anyf = AnyFile::new(&lin(), "y").unwrap();
    let put = anyd.with_file(&anyf);
    assert_eq!(put.as_str(), "x/y");
    assert_eq!(put.drop_file().as_str(), "x/");
}

#[test]
fn scenario_parent_and_pop() {
    let p = AbsoluteFolderPath::new(&lin(), "/a/b/c/").unwrap();
    assert_eq!(p.parent().unwrap().as_str(), "/a/b/");
    assert_eq!(p.popping(2).as_str(), "/a/");
    assert_eq!(p.popping(9).as_str(), "/");

    let mut q = p.clone();
    q.pop(1);
    assert_eq!(q.as_str(), "/a/b/");

    let mut q = AbsoluteFolderPath::new(&lin(), "/a/").unwrap();
    q.join(&vec!["b".to_string(), "c/".to_string()]).unwrap();
    assert_eq!(q.as_str(), "/a/b/c/");
}

#[test]
fn scenario_file_surgery() {
    let mut p = AbsoluteFilePath::new(&lin(), "/a/file.tar.gz").unwrap();
    assert_eq!(p.file_name(), "file.tar.gz");
    assert_eq!(p.file_stem(), "file");
    assert_eq!(p.extensions().to_vec(), vec!["tar".to_string(), "gz".to_string()]);

    p.set_file_stem("data").unwrap();
    assert_eq!(p.as_str(), "/a/data.tar.gz");

    p.set_file_name("x.zip").unwrap();
    assert_eq!(p.as_str(), "/a/x.zip");

    let q = p.with_extension(&vec!["rar".to_string()]);
    assert_eq!(q.as_str(), "/a/x.rar");
}

#[test]
fn scenario_any_path_probes() {
    let p = AnyPath::new(&lin(), "/x/").unwrap();
    assert!(p.is_absolute());
    assert!(!p.is_relative());
    assert!(p.is_folder());
    assert!(!p.is_file());
}

#[test]
fn scenario_drive_helpers() {
    assert!(x_path::has_drive("c:/x"));
    assert!(!x_path::has_drive("/x"));
    assert_eq!(x_path::win_drive("c:/x"), Some('C'));
    assert_eq!(x_path::win_drive("x"), None);
    assert_eq!(x_path::current_drive(&win()), 'C');
}

#[test]
fn scenario_try_from_folder() {
    let p = AbsoluteFolderPath::try_from_folder(&lin(), "/a/b").unwrap();
    assert_eq!(p.as_str(), "/a/b/");

    let p = AbsoluteFolderPath::try_from_folder(&lin(), "/a/b/").unwrap();
    assert_eq!(p.as_str(), "/a/b/");

    let e = AbsoluteFolderPath::try_from_folder(&lin(), "a/b").unwrap_err();
    assert!(matches!(e, PathError::NotAbsolute { .. }));
}


#[test]
fn scenario_parent_to_root() {
    // a single segment's parent is the bare head: root, drive or nothing
    let p = PathInner::new(&lin(), "/a").unwrap();
    assert_eq!(p.parent().unwrap().path, "/");

    let p = PathInner::new(&lin(), "a").unwrap();
    assert_eq!(p.parent().unwrap().path, "");

    let p = PathInner::new(&win(), "a").unwrap();
    assert_eq!(p.parent().unwrap().path, "C:");

    let p = PathInner::new(&win(), "/a").unwrap();
    assert_eq!(p.parent().unwrap().path, "C:\\");

    // the roots themselves have no parent
    assert!(PathInner::new(&lin(), "/").unwrap().parent().is_none());
    assert!(PathInner::new(&win(), "\\").unwrap().parent().is_none());
    assert!(PathInner::new(&win(), "").unwrap().parent().is_none());
}

#[test]
fn itest_abs_dir() {
    let p = AbsoluteFolderPath::new(&lin(), "/dir1/dir2/").unwrap();

    let segs = p.segments().to_vec();

    assert_eq!(segs, vec!["dir1".to_string(), "dir2".to_string()]);
    assert_eq!(p.debug_alt_string(), "AbsoluteFolderPath(/dir1/dir2/)");

    assert!(!p.exists_on_disk());

    // a current directory of the filesystem root makes `.` resolve to a
    // folder that stands on every machine this runs on
    let plat = Platform {
        os: Os::Posix,
        home: Some("/home/test".to_string()),
        cwd: Some("/".to_string()),
        drive: 'C',
        vars: Vec::new(),
    };
    let p_cwd = AbsoluteFolderPath::new(&plat, "./").unwrap();
    assert!(p_cwd.exists_on_disk());

    let p_not = AbsoluteFolderPath::new(&lin(), "some/rel/");

    let err_str = p_not.unwrap_err().message();

    assert!(err_str.starts_with("path is not absolute (it should start with a slash): "));
}
