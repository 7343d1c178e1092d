use x_path::chars_of;
use x_path::string_of;
use x_path::PathInner;
use x_path::Platform;

fn lin() -> Platform {
    Platform::lin_test()
}

fn win() -> Platform {
    Platform::win_test()
}

fn seg_strs(p: &PathInner) -> Vec<String> {
    p.segments().to_vec()
}

fn svec(items: &[&str]) -> Vec<String> {
    items.iter().map(|s| s.to_string()).collect()
}

fn resolved(path: &str) -> Vec<String> {
    let v = chars_of(path);
    let pieces = x_path::resolve::split_slashes(&v);
    let segs = x_path::resolve::resolve_segments(&pieces).unwrap();
    segs.iter().map(|s| string_of(s)).collect()
}

#[test]
fn mod_test_path_iter() {
    assert_eq!(resolved("/dir1//dir2/"), svec(&["dir1", "dir2"]));
    assert_eq!(resolved("dir1/../dir2/"), svec(&["dir2"]));
    assert_eq!(resolved("dir1/../../dir2/"), svec(&["..", "dir2"]));
    assert_eq!(resolved("dir1/dir2/dir3/../../"), svec(&["dir1"]));
    // a `.` piece is dropped by the resolver, so cancelling the one
    // segment after it leaves nothing
    assert_eq!(resolved("./dir1/.."), Vec::<String>::new());
    assert_eq!(resolved(""), Vec::<String>::new());
    assert_eq!(resolved("s"), svec(&["s"]));
}

#[test]
fn test_test_abs_path_inner() {
    let p1 = PathInner::new(&lin(), "/home/dir").unwrap();
    assert_eq!(p1.path, "/home/dir");
    assert_eq!(seg_strs(&p1), svec(&["home", "dir"]));
    assert_eq!(p1.display_string(&lin()), "/home/dir");
    assert!(p1.is_absolute());

    let p1 = PathInner::new(&win(), "/home/di").unwrap();
    assert_eq!(p1.path, "C:\\home\\di");
    assert_eq!(seg_strs(&p1), svec(&["home", "di"]));
    assert_eq!(p1.display_string(&win()), "C:\\home\\di");
    assert!(p1.is_absolute());
}

#[test]
fn test_test_no_path_inner() {
    let p1 = PathInner::new(&lin(), "").unwrap();
    assert_eq!(p1.path, "");
    assert_eq!(seg_strs(&p1), Vec::<String>::new());
    assert_eq!(p1.display_string(&lin()), "");
    assert!(!p1.is_absolute());

    let p1 = PathInner::new(&win(), "").unwrap();
    assert_eq!(p1.path, "C:");
    assert_eq!(seg_strs(&p1), Vec::<String>::new());
    assert_eq!(p1.display_string(&win()), "C:");
    assert!(!p1.is_absolute());
}

#[test]
fn test_test_root_lin() {
    let p1 = PathInner::new(&lin(), "/").unwrap();
    assert_eq!(p1.path, "/");
    assert_eq!(seg_strs(&p1), Vec::<String>::new());
    assert_eq!(p1.display_string(&lin()), "/");
    assert!(p1.is_absolute());

    let p1 = PathInner::new(&win(), "\\").unwrap();
    assert_eq!(p1.path, "C:\\");
    assert_eq!(seg_strs(&p1), Vec::<String>::new());
    assert_eq!(p1.display_string(&win()), "C:\\");
    assert!(p1.is_absolute());
}

#[test]
fn test_test_root_win() {
    // a windows-formatted c:/ path is replaced with / on posix
    let p1 = PathInner::new(&lin(), "c:/").unwrap();
    assert_eq!(p1.path, "/");
    assert_eq!(seg_strs(&p1), Vec::<String>::new());
    assert_eq!(p1.display_string(&lin()), "/");
    assert!(p1.is_absolute());

    // a windows-formatted c:/ path is kept on windows
    let p1 = PathInner::new(&win(), "c:/").unwrap();
    assert_eq!(p1.path, "C:\\");
    assert_eq!(seg_strs(&p1), Vec::<String>::new());
    assert_eq!(p1.display_string(&win()), "C:\\");
    assert!(p1.is_absolute());
}

#[test]
fn test_test_home_path_inner() {
    // under the fixture '~' = /home/test
    let p1 = PathInner::new(&lin(), "~/dir").unwrap();
    assert_eq!(p1.path, "/home/test/dir");
    assert_eq!(seg_strs(&p1), svec(&["home", "test", "dir"]));
    assert_eq!(p1.display_string(&lin()), "~/dir");
    assert!(p1.is_absolute());

    let p1 = PathInner::new(&win(), "~\\dir").unwrap();
    assert_eq!(p1.path, "C:\\User\\test\\dir");
    assert_eq!(seg_strs(&p1), svec(&["User", "test", "dir"]));
    assert_eq!(p1.display_string(&win()), "~\\dir");
    assert!(p1.is_absolute());
}

#[test]
fn test_test_cwd_path_inner() {
    // under the fixture '.' = /var/test
    let p1 = PathInner::new(&lin(), "./dir").unwrap();
    assert_eq!(p1.path, "/var/test/dir");
    assert_eq!(seg_strs(&p1), svec(&["var", "test", "dir"]));
    assert_eq!(p1.display_string(&lin()), "./dir");
    assert!(p1.is_absolute());

    let p1 = PathInner::new(&win(), ".\\di").unwrap();
    assert_eq!(p1.path, "C:\\current\\di");
    assert_eq!(seg_strs(&p1), svec(&["current", "di"]));
    assert_eq!(p1.display_string(&win()), ".\\di");
    assert!(p1.is_absolute());
}

#[test]
fn test_test_display() {
    let p1 = PathInner::new(&lin(), "./dir/hi").unwrap();
    assert_eq!(p1.display_string(&lin()), "./dir/hi");
    assert_eq!(p1.display_alt_string(), "/var/test/dir/hi");

    let p1 = PathInner::new(&win(), ".\\dir\\hi").unwrap();
    assert_eq!(p1.display_string(&win()), ".\\dir\\hi");
    assert_eq!(p1.display_alt_string(), "C:\\current\\dir\\hi");
}

#[test]
fn test_test_debug() {
    let p1 = PathInner::new(&lin(), "./dir/hi").unwrap();
    assert_eq!(p1.debug_string(&lin()), "./dir/hi");
    assert_eq!(p1.debug_string(&lin()), "./dir/hi");

    let p1 = PathInner::new(&win(), ".\\dir\\hi").unwrap();
    assert_eq!(p1.path, "C:\\current\\dir\\hi");
    assert_eq!(p1.debug_string(&win()), "./dir/hi");
    assert_eq!(p1.debug_string(&win()), "./dir/hi");
}

#[test]
fn test_rel() {
    let p = PathInner::new(&win(), "some/rel").unwrap();
    assert_eq!(p.path, "C:some\\rel");
}

#[test]
fn test_extensions() {
    let mut p = PathInner::new(&lin(), "some/file.with.ext").unwrap();
    let exts = p.extensions().to_vec();
    assert_eq!(exts, svec(&["with", "ext"]));
    p.set_extensions(&svec(&["hi"]));
    assert_eq!(p.debug_string(&lin()), "some/file.hi");

    let mut p = PathInner::new(&lin(), "some/file.").unwrap();
    let exts = p.extensions().to_vec();
    assert_eq!(exts, Vec::<String>::new());

    p.set_extensions(&svec(&["txt", "bz"]));
    assert_eq!(p.debug_string(&lin()), "some/file.txt.bz");

    p.set_extensions(&Vec::<String>::new());
    assert_eq!(p.debug_string(&lin()), "some/file");

    p.set_extensions(&svec(&["txt"]));
    assert_eq!(p.debug_string(&lin()), "some/file.txt")
}

#[test]
fn test_file_name() {
    let mut p = PathInner::new(&lin(), "file.text").unwrap();
    assert_eq!(p.file_name(), "file.text");

    p.set_file_name("some.bin").unwrap();
    assert_eq!(p.debug_string(&lin()), "some.bin");

    let p = PathInner::new(&lin(), "").unwrap();
    assert_eq!(p.file_name(), "");

    let p = PathInner::new(&lin(), ".").unwrap();
    assert_eq!(p.file_name(), "");

    let p = PathInner::new(&lin(), "/dir/").unwrap();
    assert_eq!(p.file_name(), "");

    let p = PathInner::new(&lin(), "dir/file.text.zip").unwrap();
    assert_eq!(p.file_name(), "file.text.zip");

    let p = PathInner::new(&lin(), "/root/dir/file.text").unwrap();
    assert_eq!(p.file_name(), "file.text");

    let mut p = PathInner::new(&win(), "file.text").unwrap();
    assert_eq!(p.file_name(), "file.text");

    p.set_file_name("some.bin").unwrap();
    assert_eq!(p.debug_string(&win()), "some.bin");

    let p = PathInner::new(&win(), "dir\\file.text").unwrap();
    assert_eq!(p.file_name(), "file.text");

    let p = PathInner::new(&win(), "c:\\root\\dir\\file.text").unwrap();
    assert_eq!(p.file_name(), "file.text");
}

#[test]
fn test_file_stem() {
    let mut p = PathInner::new(&lin(), "file.text").unwrap();
    assert_eq!(p.file_stem(), "file");

    p.set_file_name("some.bin").unwrap();
    assert_eq!(p.file_stem(), "some");
    assert_eq!(p.debug_string(&lin()), "some.bin");

    let p = PathInner::new(&lin(), "dir/file.text").unwrap();
    assert_eq!(p.file_stem(), "file");

    let p = PathInner::new(&lin(), "/root/dir/file.text").unwrap();
    assert_eq!(p.file_stem(), "file");

    let mut p = PathInner::new(&win(), "file.text").unwrap();
    assert_eq!(p.file_stem(), "file");

    p.set_file_stem("some.bin").unwrap();
    assert_eq!(p.debug_string(&win()), "some.bin.text");

    let p = PathInner::new(&win(), "dir\\file.text").unwrap();
    assert_eq!(p.file_stem(), "file");

    let p = PathInner::new(&win(), "c:\\root\\dir\\file.text").unwrap();
    assert_eq!(p.file_stem(), "file");
}

#[test]
fn test_parent() {
    let p = PathInner::new(&lin(), "/parent/dir").unwrap();
    let parent = p.parent().unwrap();
    assert_eq!(parent.debug_string(&lin()), "/parent/");

    // removing the only segment leaves the root; only the root itself has
    // no parent
    let p = PathInner::new(&lin(), "/parent/").unwrap();
    let parent = p.parent().unwrap();
    assert_eq!(parent.debug_string(&lin()), "/");

    let p = PathInner::new(&lin(), "/").unwrap();
    assert_eq!(p.parent(), None);

    let p = PathInner::new(&lin(), "/parent/dir/").unwrap();
    let parent = p.parent().unwrap();
    assert_eq!(parent.debug_string(&lin()), "/parent/");
}

#[test]
fn test_pop() {
    let p = PathInner::new(&lin(), "").unwrap();
    assert_eq!(p.popping(0).debug_string(&lin()), "");
    assert_eq!(p.popping(1).debug_string(&lin()), "");

    let p = PathInner::new(&lin(), "dir1/dir2/file").unwrap();
    assert_eq!(p.popping(0).debug_string(&lin()), "dir1/dir2/file");
    assert_eq!(p.popping(1).debug_string(&lin()), "dir1/dir2/");
    assert_eq!(p.popping(2).debug_string(&lin()), "dir1/");
    assert_eq!(p.popping(3).debug_string(&lin()), "");
    assert_eq!(p.popping(4).debug_string(&lin()), "");

    let p = PathInner::new(&lin(), "/dir1").unwrap();
    assert_eq!(p.popping(0).debug_string(&lin()), "/dir1");
    assert_eq!(p.popping(1).debug_string(&lin()), "/");
    assert_eq!(p.popping(2).debug_string(&lin()), "/");

    let p = PathInner::new(&win(), "c:dir1/dir2/file").unwrap();
    assert_eq!(p.popping(0).display_string(&win()), "C:dir1\\dir2\\file");
    assert_eq!(p.popping(1).debug_string(&win()), "dir1/dir2/");
    assert_eq!(p.popping(2).debug_string(&win()), "dir1/");
    assert_eq!(p.popping(3).debug_string(&win()), "");
    assert_eq!(p.popping(4).display_string(&win()), "C:");
}

#[test]
fn test_join() {
    let p = PathInner::new(&lin(), "/dir1/").unwrap();
    let j = p.joining(&svec(&["dir2", "dir3/"])).unwrap();
    assert_eq!(j.debug_string(&lin()), "/dir1/dir2/dir3/");
}

#[test]
fn test_abs_path_iter() {
    let path = PathInner::new(&lin(), "/var/some/paths").unwrap();

    let mut iter = path.segments();
    assert_eq!(iter.next(), Some("var".to_string()));
    assert_eq!(iter.next(), Some("some".to_string()));
    assert_eq!(iter.next(), Some("paths".to_string()));
    assert_eq!(iter.next(), None);
    assert_eq!(iter.next(), None);
    assert_eq!(iter.next_back(), Some("paths".to_string()));
    assert_eq!(iter.next_back(), Some("some".to_string()));
    assert_eq!(iter.next_back(), Some("var".to_string()));
    assert_eq!(iter.next_back(), None);
    assert_eq!(iter.next_back(), None);
}

#[test]
fn inner_segment_test_path_iter() {
    assert_eq!(inner_segs("./dir1//dir2/"), svec(&[".", "dir1", "dir2"]));
    assert_eq!(inner_segs("./dir1/../dir2/"), svec(&[".", "dir2"]));
    assert_eq!(inner_segs("./dir1/../../dir2/"), svec(&[".", "..", "dir2"]));
    assert_eq!(inner_segs("./dir1/.."), svec(&["."]));
    assert_eq!(inner_segs(""), Vec::<String>::new());
    assert_eq!(inner_segs("s"), svec(&["s"]));

    assert_eq!(inner_segs(".\\"), svec(&["."]));

    assert_eq!(inner_segs("~/"), svec(&["~"]));
}

fn inner_segs(path: &str) -> Vec<String> {
    let mut iter = x_path::InnerSegmentIter::new(path);
    let mut out = Vec::new();
    while let Some(s) = iter.next() {
        out.push(s);
    }
    out
}

#[test]
fn segments_test_path_iter() {
    let path = PathInner::new(&lin(), "var/some/paths").unwrap();

    let mut iter = path.segments();
    assert_eq!(iter.next(), Some("var".to_string()));
    assert_eq!(iter.next(), Some("some".to_string()));
    assert_eq!(iter.next(), Some("paths".to_string()));
    assert_eq!(iter.next(), None);
    assert_eq!(iter.next(), None);
    assert_eq!(iter.next_back(), Some("paths".to_string()));
    assert_eq!(iter.next_back(), Some("some".to_string()));
    assert_eq!(iter.next_back(), Some("var".to_string()));
    assert_eq!(iter.next_back(), None);
    assert_eq!(iter.next_back(), None);
}
