use x_path::AbsoluteFilePath;
use x_path::AbsoluteFolderPath;
use x_path::AbsolutePath;
use x_path::AnyPath;
use x_path::ConcretePath;
use x_path::Platform;
use x_path::RelativeFilePath;
use x_path::RelativeFolderPath;
use x_path::RelativePath;

fn lin() -> Platform {
    Platform::lin_test()
}

fn concrete_debug(c: &ConcretePath, plat: &Platform) -> String {
    match c {
        ConcretePath::AbsFolder(p) => format!("AbsFolder({})", p.0.debug_string(plat)),
        ConcretePath::RelFolder(p) => format!("RelFolder({})", p.0.debug_string(plat)),
        ConcretePath::AbsFile(p) => format!("AbsFile({})", p.0.debug_string(plat)),
        ConcretePath::RelFile(p) => format!("RelFile({})", p.0.debug_string(plat)),
    }
}

#[test]
fn absolute_file_path_test_convert_to_abstract() {
    let p = AbsoluteFilePath::new(&lin(), "/dir/file.txt").unwrap();

    let abs_path = p.clone().to_absolute();
    assert_eq!(abs_path.debug_string(&lin()), "AbsolutePath(/dir/file.txt)");

    let abs_path = p.to_any_file();
    assert_eq!(abs_path.debug_string(&lin()), "AnyFilePath(/dir/file.txt)");
}

#[test]
fn absolute_file_path_test_convert_to_concrete() {
    let p = AbsoluteFilePath::new(&lin(), "/dir/file.txt").unwrap();

    let rel_file = p.removing_root(&AbsoluteFolderPath::new(&lin(), "/dir/").unwrap()).unwrap();
    assert_eq!(rel_file.debug_string(&lin()), "RelativeFilePath(file.txt)");

    let root = AbsoluteFolderPath::new(&lin(), "/dir/").unwrap();
    let rel_file = p.removing_root(&root).unwrap();
    assert_eq!(rel_file.debug_string(&lin()), "RelativeFilePath(file.txt)");

    let rel_file = p.removing_root(&root).unwrap();
    assert_eq!(rel_file.debug_string(&lin()), "RelativeFilePath(file.txt)");

    let abs_fold = p.dropping_file();
    assert_eq!(abs_fold.debug_string(&lin()), "AbsoluteFolderPath(/dir/)");
}

#[test]
fn absolute_folder_path_test_convert_to_abstract() {
    let p = AbsoluteFolderPath::new(&lin(), "/dir1/dir2/").unwrap();

    let abs_path = p.to_absolute();
    assert_eq!(abs_path.debug_alt_string(), "AbsolutePath(/dir1/dir2/)");
}

#[test]
fn absolute_folder_path_test_convert_to_concrete() {
    let p = AbsoluteFolderPath::new(&lin(), "/dir1/dir2/").unwrap();

    let rel_file = p.removing_root(&AbsoluteFolderPath::new(&lin(), "/dir1/").unwrap()).unwrap();
    assert_eq!(rel_file.debug_alt_string(), "RelativeFolderPath(dir2/)");
}

#[test]
fn absolute_path_test_convert_to_abstract() {
    let p = AbsolutePath::new(&lin(), "/dir1/dir2/").unwrap();

    let any_path = p.to_any();
    assert_eq!(any_path.debug_string(&lin()), "AnyPath(/dir1/dir2/)");
}

#[test]
fn absolute_path_test_convert_to_concrete() {
    let p = AbsolutePath::new(&lin(), "/dir1/dir2/").unwrap();
    let abs_fold = match p.to_concrete() {
        ConcretePath::AbsFolder(f) => f,
        _ => panic!("expected a folder"),
    };
    assert_eq!(abs_fold.debug_string(&lin()), "AbsoluteFolderPath(/dir1/dir2/)");

    let p = AbsolutePath::new(&lin(), "/dir1/file").unwrap();
    let abs_file = match p.to_concrete() {
        ConcretePath::AbsFile(f) => f,
        _ => panic!("expected a file"),
    };
    assert_eq!(abs_file.debug_string(&lin()), "AbsoluteFilePath(/dir1/file)");
}

#[test]
fn absolute_path_test_from_concrete() {
    let rel_file = AbsoluteFilePath::new(&lin(), "/dir/file").unwrap();
    let _p: AbsolutePath = rel_file.into();

    let rel_file = AbsoluteFolderPath::new(&lin(), "/dir/dir/").unwrap();
    let _p: AbsolutePath = rel_file.into();
}

#[test]
fn any_path_test_convert_to_concrete() {
    let p = AnyPath::new(&lin(), "/dir/file").unwrap();
    assert_eq!(concrete_debug(&p.to_concrete(), &lin()), "AbsFile(/dir/file)");

    let p = AnyPath::new(&lin(), "dir/file").unwrap();
    assert_eq!(concrete_debug(&p.to_concrete(), &lin()), "RelFile(dir/file)");

    let p = AnyPath::new(&lin(), "dir/").unwrap();
    assert_eq!(concrete_debug(&p.to_concrete(), &lin()), "RelFolder(dir/)");
    let p = AnyPath::new(&lin(), "/dir/").unwrap();
    assert_eq!(concrete_debug(&p.to_concrete(), &lin()), "AbsFolder(/dir/)");
}

#[test]
fn relative_file_path_test_convert_to_abstract() {
    let p = RelativeFilePath::new(&lin(), "dir/file.txt").unwrap();

    let abs_path = p.to_relative();
    assert_eq!(abs_path.debug_alt_string(), "RelativePath(dir/file.txt)");
}

#[test]
fn relative_file_path_test_convert_to_concrete() {
    let p = RelativeFilePath::new(&lin(), "dir/file.txt").unwrap();

    let rel_file = p.with_root(&AbsoluteFolderPath::new(&lin(), "/dir/").unwrap());
    assert_eq!(rel_file.debug_alt_string(), "AbsoluteFilePath(/dir/dir/file.txt)");

    let abs_fold = p.dropping_file();
    assert_eq!(abs_fold.debug_alt_string(), "RelativeFolderPath(dir/)");
}

#[test]
fn relative_folder_path_test_convert_to_abstract() {
    let p = RelativeFolderPath::new(&lin(), "dir1/dir2/").unwrap();

    let abs_path = p.to_relative();
    assert_eq!(abs_path.debug_string(&lin()), "RelativePath(dir1/dir2/)");
}

#[test]
fn relative_folder_path_test_convert_to_concrete() {
    let p = RelativeFolderPath::new(&lin(), "dir/").unwrap();

    let abs_folder = p.with_root(&AbsoluteFolderPath::new(&lin(), "/root/").unwrap());
    assert_eq!(abs_folder.debug_string(&lin()), "AbsoluteFolderPath(/root/dir/)");

    let rel_file = p.with_file(&RelativeFilePath::new(&lin(), "file").unwrap());
    assert_eq!(rel_file.debug_string(&lin()), "RelativeFilePath(dir/file)");

    let rel_folder = p.with_folder(&RelativeFolderPath::new(&lin(), "fold/").unwrap());
    assert_eq!(rel_folder.debug_string(&lin()), "RelativeFolderPath(dir/fold/)");
}

#[test]
fn relative_path_test_convert_to_abstract() {
    let p = RelativePath::new(&lin(), "dir1/dir2/").unwrap();

    let any_path = p.to_any();
    assert_eq!(any_path.debug_alt_string(), "AnyPath(dir1/dir2/)");
}

#[test]
fn relative_path_test_convert_to_concrete() {
    let p = RelativePath::new(&lin(), "dir1/dir2/").unwrap();
    let abs_fold = match p.to_concrete() {
        ConcretePath::RelFolder(f) => f,
        _ => panic!("expected a folder"),
    };
    assert_eq!(abs_fold.debug_alt_string(), "RelativeFolderPath(dir1/dir2/)");

    let p = RelativePath::new(&lin(), "dir1/file").unwrap();
    let abs_file = match p.to_concrete() {
        ConcretePath::RelFile(f) => f,
        _ => panic!("expected a file"),
    };
    assert_eq!(abs_file.debug_alt_string(), "RelativeFilePath(dir1/file)");
}

#[test]
fn relative_path_test_from_concrete() {
    let rel_file = RelativeFilePath::new(&lin(), "dir/file").unwrap();
    let _p: RelativePath = rel_file.into();

    let rel_file = RelativeFolderPath::new(&lin(), "dir/dir/").unwrap();
    let _p: RelativePath = rel_file.into();
}

#[test]
fn eq_test() {
    let p1 = AbsolutePath::new(&lin(), "./hi").unwrap();
    let p2 = AbsolutePath::new(&lin(), "./hi").unwrap();
    assert!(p1.as_str() == p2.as_str());
    assert!(p2.as_str() == p1.as_str());

    let p1 = AbsoluteFolderPath::new(&lin(), "./hi/").unwrap();
    let p2 = AbsoluteFolderPath::new(&lin(), "./hi/").unwrap();
    assert!(p1.as_str() == p2.as_str());
    assert!(p2.as_str() == p1.as_str());

    let p1 = AbsoluteFolderPath::new(&lin(), "./hi");
    assert_eq!(
        p1.unwrap_err().message(),
        "path is not a folder (it doesn't end with a slash): ./hi"
    );
}

#[test]
fn test_from_strings() {
    let p = AbsolutePath::new(&lin(), "/dir1/dir2/").unwrap();
    assert_eq!(p.debug_string(&lin()), "AbsolutePath(/dir1/dir2/)");

    let s: String = "/dir1/file".to_string();
    let p = AbsolutePath::new(&lin(), s.as_str()).unwrap();
    assert_eq!(p.debug_string(&lin()), "AbsolutePath(/dir1/file)");

    let e = AbsolutePath::new(&lin(), "dir1/dir2").unwrap_err();
    assert_eq!(
        e.message(),
        "path is not absolute (it should start with a slash): dir1/dir2"
    );
}

fn from_values(values: &[&str]) -> AbsolutePath {
    let vals: Vec<String> = values.iter().map(|s| s.to_string()).collect();
    let inner = x_path::PathInner::new_from_strings(&lin(), &vals).unwrap();
    assert!(inner.is_absolute());
    AbsolutePath(inner)
}

#[test]
fn test_from_str_vecs() {
    let vec: Vec<&str> = vec!["/dir1/", "/dir2/"];

    let p = from_values(&vec);
    assert_eq!(p.debug_string(&lin()), "AbsolutePath(/dir1/dir2/)");

    let slice: &[&str] = &vec[..];
    let p = from_values(slice);
    assert_eq!(p.debug_string(&lin()), "AbsolutePath(/dir1/dir2/)");
}

#[test]
fn test_from_string_vecs() {
    let vec: Vec<String> = vec!["/dir1/".into(), "/dir2/".into()];

    let inner = x_path::PathInner::new_from_strings(&lin(), &vec).unwrap();
    let p = AbsolutePath(inner);
    assert_eq!(p.debug_string(&lin()), "AbsolutePath(/dir1/dir2/)");

    let inner = x_path::PathInner::new_from_strings(&lin(), &vec).unwrap();
    let p = AbsolutePath(inner);
    assert_eq!(p.debug_string(&lin()), "AbsolutePath(/dir1/dir2/)");
}

#[test]
fn test_from_ref() {
    let p1 = AbsolutePath::new(&lin(), "/dir1/dir2/").unwrap();
    let p2 = p1.clone();

    assert_eq!(p2.debug_string(&lin()), "AbsolutePath(/dir1/dir2/)");
}

#[test]
fn test_as_ref_str() {
    let dir1 = AbsoluteFolderPath::new(&lin(), "/dir1/dir2/").unwrap();
    let dir2 = AbsoluteFolderPath::new(&lin(), "/dir1/").unwrap();

    assert!(dir1.0.starts_with(dir2.as_str()));
    assert!(!dir2.0.starts_with(dir1.as_str()));
}

#[test]
fn test_serde() {}

#[test]
fn some_tests() {
    let p = AnyPath::new(&lin(), "dir1/dir2").unwrap();

    let segs = p.segments().to_vec();

    assert_eq!(segs, vec!["dir1".to_string(), "dir2".to_string()]);
}

#[test]
fn test_from_path() {
    let path = std::path::PathBuf::from("/dir1/dir2/");

    let p = AbsolutePath::new(&lin(), path.as_path().to_str().unwrap()).unwrap();
    assert_eq!(p.debug_string(&lin()), "AbsolutePath(/dir1/dir2/)");

    let p = AbsolutePath::new(&lin(), path.to_str().unwrap()).unwrap();
    assert_eq!(p.debug_string(&lin()), "AbsolutePath(/dir1/dir2/)");
}
