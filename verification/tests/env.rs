use io2::env::{
    env_path, home_dir, join_paths, parse, position, split_paths, temp_dir, vars,
};

fn bytes(s: &str) -> Vec<u8> {
    s.as_bytes().to_vec()
}

#[test]
fn env_test_home_dir() {
    assert!(home_dir(Some(bytes("/home/MountainView"))) == Some(bytes("/home/MountainView")));

    assert!(home_dir(Some(bytes(""))).is_none());
}

#[test]
fn env_home_test_home_dir() {
    let home = Some(bytes("/home/MountainView"));
    assert!(home_dir(home) == Some(bytes("/home/MountainView")));

    let home = Some(bytes(""));
    assert!(home_dir(home).is_none());

    assert!(home_dir(None).is_none());
}

#[test]
fn temp_dir_follows_tmpdir() {
    assert_eq!(temp_dir(Some(bytes("/var/tmp"))), bytes("/var/tmp"));
    assert_eq!(temp_dir(Some(bytes(""))), bytes("/tmp"));
    assert_eq!(temp_dir(None), bytes("/tmp"));
    assert_eq!(env_path(Some(bytes("x"))), Some(bytes("x")));
    assert_eq!(env_path(Some(Vec::new())), None);
}

#[test]
fn entries_split_at_the_first_equals_sign() {
    assert_eq!(parse(b"KEY=VALUE"), (bytes("KEY"), bytes("VALUE")));
    assert_eq!(parse(b"KEY=a=b"), (bytes("KEY"), bytes("a=b")));
    assert_eq!(parse(b"KEY="), (bytes("KEY"), bytes("")));
    assert_eq!(parse(b"KEY"), (bytes("KEY"), bytes("")));
    assert_eq!(parse(b"=x"), (bytes(""), bytes("x")));
    assert_eq!(parse(b""), (bytes(""), bytes("")));
    assert_eq!(position(b"a:b:c", b':'), 1);
    assert_eq!(position(b"abc", b':'), 3);
}

#[test]
fn vars_come_in_the_order_of_the_block() {
    let block = vec![bytes("A=1"), bytes("B"), bytes("C=x=y")];
    let mut v = vars(&block);
    assert_eq!(v.size_hint(), (3, Some(3)));
    assert_eq!(v.next(), Some((bytes("A"), bytes("1"))));
    assert_eq!(v.next(), Some((bytes("B"), bytes(""))));
    assert_eq!(v.size_hint(), (1, Some(1)));
    assert_eq!(v.next(), Some((bytes("C"), bytes("x=y"))));
    assert_eq!(v.next(), None);
    assert_eq!(v.next(), None);
    assert_eq!(vars(&Vec::new()).next(), None);
}

#[test]
fn split_paths_unix() {
    fn check_parse(unparsed: &str, parsed: &[&str]) -> bool {
        split_paths(unparsed.as_bytes())
            == parsed.iter().map(|s| s.as_bytes().to_vec()).collect::<Vec<_>>()
    }

    assert!(check_parse("", &mut [""]));
    assert!(check_parse("::", &mut ["", "", ""]));
    assert!(check_parse("/", &mut ["/"]));
    assert!(check_parse("/:", &mut ["/", ""]));
    assert!(check_parse("/:/usr/local", &mut ["/", "/usr/local"]));
}

#[test]
fn join_paths_unix() {
    fn list(input: &[&str]) -> Vec<Vec<u8>> {
        input.iter().map(|s| s.as_bytes().to_vec()).collect()
    }
    fn test_eq(input: &[&str], output: &str) -> bool {
        join_paths(&list(input)).unwrap() == output.as_bytes()
    }

    assert!(test_eq(&[], ""));
    assert!(test_eq(&["/bin", "/usr/bin", "/usr/local/bin"], "/bin:/usr/bin:/usr/local/bin"));
    assert!(test_eq(&["", "/bin", "", "", "/usr/bin", ""], ":/bin:::/usr/bin:"));
    assert!(join_paths(&list(&["/te:st"])).is_err());
    assert_eq!(join_paths(&list(&["/bin", "a:b"])).unwrap_err().description(), "failed to join paths");
}

#[test]
fn split_undoes_join() {
    let paths = vec![bytes("/bin"), bytes(""), bytes("/usr/local/bin")];
    let list = join_paths(&paths).unwrap();
    assert_eq!(list, bytes("/bin::/usr/local/bin"));
    assert_eq!(split_paths(&list), paths);
}
