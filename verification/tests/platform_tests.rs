use x_path::chars_of;
use x_path::string_of;
use x_path::Drive;
use x_path::PathInner;
use x_path::Platform;

fn lin() -> Platform {
    Platform::lin_test()
}

fn win() -> Platform {
    Platform::win_test()
}

fn segs_of(p: &PathInner) -> Vec<String> {
    p.segments().to_vec()
}

fn svec(items: &[&str]) -> Vec<String> {
    items.iter().map(|s| s.to_string()).collect()
}

#[test]
fn test_lin_test_abs_path_inner() {
    let p1 = PathInner::new(&lin(), "/home/dir").unwrap();
    assert_eq!(p1.path, "/home/dir");
    assert_eq!(segs_of(&p1), svec(&["home", "dir"]));
    assert_eq!(p1.display_string(&lin()), "/home/dir");
    assert_eq!(p1.is_absolute(), true);
}

#[test]
fn test_lin_test_no_path_inner() {
    let p1 = PathInner::new(&lin(), "").unwrap();
    assert_eq!(p1.path, "");
    assert_eq!(segs_of(&p1), Vec::<String>::new());
    assert_eq!(p1.display_string(&lin()), "");
    assert_eq!(p1.is_absolute(), false);
}

#[test]
fn test_lin_test_root_lin() {
    let p1 = PathInner::new(&lin(), "/").unwrap();
    assert_eq!(p1.path, "/");
    assert_eq!(segs_of(&p1), Vec::<String>::new());
    assert_eq!(p1.display_string(&lin()), "/");
    assert_eq!(p1.is_absolute(), true);
}

#[test]
fn test_lin_test_root_win() {
    // a windows-formatted c:/ path is replaced with / on posix
    let p1 = PathInner::new(&lin(), "c:/").unwrap();
    assert_eq!(p1.path, "/");
    assert_eq!(segs_of(&p1), Vec::<String>::new());
    assert_eq!(p1.display_string(&lin()), "/");
    assert_eq!(p1.is_absolute(), true);
}

#[test]
fn test_lin_test_home_path_inner() {
    // under the fixture '~' = /home/test
    let p1 = PathInner::new(&lin(), "~/dir").unwrap();
    assert_eq!(p1.path, "/home/test/dir");
    assert_eq!(segs_of(&p1), svec(&["home", "test", "dir"]));
    assert_eq!(p1.display_string(&lin()), "~/dir");
    assert_eq!(p1.is_absolute(), true);
}

#[test]
fn test_lin_test_cwd_path_inner() {
    // under the fixture '.' = /var/test
    let p1 = PathInner::new(&lin(), "./dir").unwrap();
    assert_eq!(p1.path, "/var/test/dir");
    assert_eq!(segs_of(&p1), svec(&["var", "test", "dir"]));
    assert_eq!(p1.display_string(&lin()), "./dir");
    assert_eq!(p1.is_absolute(), true);
}

#[test]
fn test_lin_test_display() {
    let p1 = PathInner::new(&lin(), "./dir/hi").unwrap();
    assert_eq!(p1.display_string(&lin()), "./dir/hi");
    assert_eq!(p1.display_alt_string(), "/var/test/dir/hi");
}

#[test]
fn test_lin_test_debug() {
    let p1 = PathInner::new(&lin(), "./dir/hi").unwrap();
    assert_eq!(p1.debug_string(&lin()), "./dir/hi");
    assert_eq!(p1.display_alt_string(), "/var/test/dir/hi");
}

#[test]
fn test_win_test_abs_path_inner() {
    let p1 = PathInner::new(&win(), "/home/di").unwrap();
    assert_eq!(p1.path, "C:\\home\\di");
    assert_eq!(segs_of(&p1), svec(&["home", "di"]));
    assert_eq!(p1.display_string(&win()), "C:\\home\\di");
    assert_eq!(p1.is_absolute(), true);
}

#[test]
fn test_win_test_no_path_inner() {
    let p1 = PathInner::new(&win(), "").unwrap();
    assert_eq!(p1.path, "C:");
    assert_eq!(segs_of(&p1), Vec::<String>::new());
    assert_eq!(p1.display_string(&win()), "C:");
    assert_eq!(p1.is_absolute(), false);
}

#[test]
fn test_win_test_root_lin() {
    let p1 = PathInner::new(&win(), "\\").unwrap();
    assert_eq!(p1.path, "C:\\");
    assert_eq!(segs_of(&p1), Vec::<String>::new());
    assert_eq!(p1.display_string(&win()), "C:\\");
    assert_eq!(p1.is_absolute(), true);
}

#[test]
fn test_win_test_root_win() {
    // a windows-formatted c:/ path is kept on windows
    let p1 = PathInner::new(&win(), "c:/").unwrap();
    assert_eq!(p1.path, "C:\\");
    assert_eq!(segs_of(&p1), Vec::<String>::new());
    assert_eq!(p1.display_string(&win()), "C:\\");
    assert_eq!(p1.is_absolute(), true);
}

#[test]
fn test_win_test_home_path_inner() {
    let p1 = PathInner::new(&win(), "~\\di").unwrap();
    assert_eq!(p1.path, "C:\\User\\test\\di");
    assert_eq!(segs_of(&p1), svec(&["User", "test", "di"]));
    assert_eq!(p1.display_string(&win()), "~\\di");
    assert_eq!(p1.is_absolute(), true);
}

#[test]
fn test_win_test_cwd_path_inner() {
    let p1 = PathInner::new(&win(), ".\\di").unwrap();
    assert_eq!(p1.path, "C:\\current\\di");
    assert_eq!(segs_of(&p1), svec(&["current", "di"]));
    assert_eq!(p1.display_string(&win()), ".\\di");
    assert_eq!(p1.is_absolute(), true);
}

#[test]
fn test_win_test_display() {
    let p1 = PathInner::new(&win(), ".\\dir\\hi").unwrap();
    assert_eq!(p1.display_string(&win()), ".\\dir\\hi");
    assert_eq!(p1.display_alt_string(), "C:\\current\\dir\\hi");
}

#[test]
fn test_win_test_debug() {
    let p1 = PathInner::new(&win(), ".\\dir\\hi").unwrap();
    assert_eq!(p1.debug_string(&win()), "./dir/hi");
    assert_eq!(p1.debug_alt_string(), "/current/dir/hi");
}

fn exp_ok_with(plat: &Platform, path: &str) -> String {
    let v = chars_of(path);
    string_of(&x_path::expand::expand(plat, &v).unwrap())
}

fn exp_err_with(plat: &Platform, path: &str) -> String {
    let v = chars_of(path);
    x_path::expand::expand(plat, &v).unwrap_err().message()
}

fn exp_ok(path: &str) -> String {
    exp_ok_with(&lin(), path)
}

fn exp_err(path: &str) -> String {
    exp_err_with(&lin(), path)
}

fn exp_ok_lin(path: &str) -> String {
    exp_ok_with(&lin(), path)
}

fn exp_err_lin(path: &str) -> String {
    exp_err_with(&lin(), path).replace('\\', "/")
}

fn exp_ok_win(path: &str) -> String {
    exp_ok_with(&win(), path)
}

fn exp_err_win(path: &str) -> String {
    exp_err_with(&win(), path)
}

#[test]
fn exp_envs() {
    assert_eq!(exp_ok("$HI"), "$HI");

    assert_eq!(exp_ok("${HI}"), "=hi=");
    assert_eq!(exp_ok("/${HI}"), "/=hi=");
    assert_eq!(exp_ok("/${HI}/"), "/=hi=/");

    assert_eq!(exp_ok("%HI%"), "=hi=");
    assert_eq!(exp_ok("/%HI%"), "/=hi=");
    assert_eq!(exp_ok("/%HI%/"), "/=hi=/");

    assert_eq!(exp_ok("."), "/var/test/");
    assert_eq!(exp_ok("./"), "/var/test/");
    assert_eq!(exp_ok("./dir"), "/var/test/dir");

    assert_eq!(exp_ok("~"), "/home/test/");
    assert_eq!(exp_ok("~/"), "/home/test/");
    assert_eq!(exp_ok("~/dir"), "/home/test/dir");

    // not expanded
    assert_eq!(exp_ok("/s$HI$"), "/s$HI$");
    assert_eq!(exp_ok("/%$HI"), "/%$HI");
    assert_eq!(exp_ok("/${HI"), "/${HI");
    assert_eq!(exp_ok("/${H-}"), "/${H-}");
    assert_eq!(exp_ok("/${H}s"), "/${H}s");
    assert_eq!(exp_ok("/%H%s"), "/%H%s");
    assert_eq!(exp_ok("/$"), "/$");

    assert_eq!(exp_ok("/dir1/./dir2"), "/dir1/./dir2");
    assert_eq!(exp_ok("dir1/./dir2"), "dir1/./dir2");

    assert_eq!(exp_ok("/dir1/~/dir2"), "/dir1/~/dir2");
    assert_eq!(exp_ok("dir1/~/dir2"), "dir1/~/dir2");

    // errors
    assert_eq!(exp_err("/%%"), "empty environment variable in path: /%%");
    assert_eq!(exp_err("/${}"), "empty environment variable in path: /${}");
    assert_eq!(exp_err("/${FAIL}"), "environment variable 'FAIL' is not defined");
}

#[test]
fn exp_envs_lin() {
    assert_eq!(exp_ok_lin("$HI"), "$HI");

    assert_eq!(exp_ok_lin("${HI}"), "=hi=");
    assert_eq!(exp_ok_lin("/${HI}"), "/=hi=");
    assert_eq!(exp_ok_lin("/${HI}/"), "/=hi=/");

    assert_eq!(exp_ok_lin("%HI%"), "=hi=");
    assert_eq!(exp_ok_lin("/%HI%"), "/=hi=");
    assert_eq!(exp_ok_lin("/%HI%/"), "/=hi=/");

    // not expanded
    assert_eq!(exp_ok_lin("/s$HI$"), "/s$HI$");
    assert_eq!(exp_ok_lin("/%$HI"), "/%$HI");
    assert_eq!(exp_ok_lin("/${HI"), "/${HI");
    assert_eq!(exp_ok_lin("/${H-}"), "/${H-}");
    assert_eq!(exp_ok_lin("/${H}s"), "/${H}s");
    assert_eq!(exp_ok_lin("/%H%s"), "/%H%s");
    assert_eq!(exp_ok_lin("/$"), "/$");

    assert_eq!(exp_ok_lin("/dir1/./dir2"), "/dir1/./dir2");
    assert_eq!(exp_ok_lin("dir1/./dir2"), "dir1/./dir2");

    assert_eq!(exp_ok_lin("/dir1/~/dir2"), "/dir1/~/dir2");
    assert_eq!(exp_ok_lin("dir1/~/dir2"), "dir1/~/dir2");

    // errors
    assert_eq!(exp_err_lin("/%%"), "empty environment variable in path: /%%");
    assert_eq!(exp_err_lin("/${}"), "empty environment variable in path: /${}");
    assert_eq!(exp_err_lin("/${FAIL}"), "environment variable 'FAIL' is not defined");

    assert_eq!(exp_ok_lin("."), "/var/test/");
    assert_eq!(exp_ok_lin("./"), "/var/test/");
    assert_eq!(exp_ok_lin("./dir"), "/var/test/dir");

    assert_eq!(exp_ok_lin("~"), "/home/test/");
    assert_eq!(exp_ok_lin("~/"), "/home/test/");
    assert_eq!(exp_ok_lin("~/dir"), "/home/test/dir");
}

#[test]
fn expand_envs_win() {
    assert_eq!(exp_ok_win("$HI"), "$HI");

    assert_eq!(exp_ok_win("${HI}"), "=hi=");
    assert_eq!(exp_ok_win("\\${HI}"), "\\=hi=");
    assert_eq!(exp_ok_win("\\${HI}\\"), "\\=hi=\\");

    assert_eq!(exp_ok_win("%HI%"), "=hi=");
    assert_eq!(exp_ok_win("\\%HI%"), "\\=hi=");
    assert_eq!(exp_ok_win("\\%HI%\\"), "\\=hi=\\");

    // not expanded
    assert_eq!(exp_ok_win("\\s$HI$"), "\\s$HI$");
    assert_eq!(exp_ok_win("\\%$HI"), "\\%$HI");
    assert_eq!(exp_ok_win("\\${HI"), "\\${HI");
    assert_eq!(exp_ok_win("\\${H-}"), "\\${H-}");
    assert_eq!(exp_ok_win("\\${H}s"), "\\${H}s");
    assert_eq!(exp_ok_win("\\%H%s"), "\\%H%s");
    assert_eq!(exp_ok_win("\\$"), "\\$");

    assert_eq!(exp_ok_win("\\dir1\\.\\dir2"), "\\dir1\\.\\dir2");
    assert_eq!(exp_ok_win("dir1\\.\\dir2"), "dir1\\.\\dir2");

    assert_eq!(exp_ok_win("\\dir1\\~\\dir2"), "\\dir1\\~\\dir2");
    assert_eq!(exp_ok_win("dir1\\~\\dir2"), "dir1\\~\\dir2");

    // errors
    assert_eq!(exp_err_win("\\%%"), "empty environment variable in path: \\%%");
    assert_eq!(exp_err_win("\\${}"), "empty environment variable in path: \\${}");
    assert_eq!(exp_err_win("\\${FAIL}"), "environment variable 'FAIL' is not defined");

    assert_eq!(exp_ok_win("."), "C:\\current\\");
    assert_eq!(exp_ok_win(".\\"), "C:\\current\\");
    assert_eq!(exp_ok_win(".\\di"), "C:\\current\\di");

    assert_eq!(exp_ok_win("~"), "C:\\User\\test\\");
    // the double ending slash is fine at the expansion stage: it is
    // removed later
    assert_eq!(exp_ok_win("~\\"), "C:\\User\\test\\\\");
    assert_eq!(exp_ok_win("~\\di"), "C:\\User\\test\\\\di");
}

#[test]
fn win_drive() {
    assert_eq!(extract("c"), "- c");
    assert_eq!(extract(":"), "- :");
    assert_eq!(extract("c:/dir"), "c - /dir");
    assert_eq!(extract("c:\\dir"), "c - \\dir");
    assert_eq!(extract("C:/"), "c - /");
    assert_eq!(extract("C:\\"), "c - \\");
    assert_eq!(extract("c:dir"), "c - cwd/dir");
    assert_eq!(extract("C:dir"), "c - cwd/dir");
}

fn extract(path: &str) -> String {
    let (d, s) = x_path::windows_drive(path, "cwd/");
    match d {
        Drive::Win(c) => format!("{c} - {s}"),
        Drive::NoDrive => format!("- {s}"),
    }
}
