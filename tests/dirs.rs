use sqlboot::dirs::{rootdir, rootpath, DirError};

fn p(parts: &[&str]) -> Vec<String> {
    parts.iter().map(|s| s.to_string()).collect()
}

#[test]
fn cargo_target_directory_is_three_up() {
    let r = rootdir(p(&["/", "code", "blah", "target", "release", "program"]));
    assert_eq!(r.ok().unwrap(), p(&["/", "code", "blah"]));
    let r = rootdir(p(&["/", "code", "target", "debug", "program"]));
    assert_eq!(r.ok().unwrap(), p(&["/", "code"]));
}

#[test]
fn bin_directory_is_two_up() {
    let r = rootdir(p(&["/", "opt", "software", "bin", "program"]));
    assert_eq!(r.ok().unwrap(), p(&["/", "opt", "software"]));
}

#[test]
fn other_layouts_are_refused() {
    match rootdir(p(&["/", "usr", "local", "program"])) {
        Err(DirError::UnknownLayout { exe }) => assert_eq!(exe, p(&["/", "usr", "local", "program"])),
        _ => panic!("expected an unknown layout"),
    }
    assert!(rootdir(p(&["program"])).is_err());
}

#[test]
fn rootpath_joins_relative_paths() {
    let r = rootpath(p(&["etc", "config.toml"]), p(&["/", "opt", "software", "bin", "program"]));
    assert_eq!(r.ok().unwrap(), p(&["/", "opt", "software", "etc", "config.toml"]));
}

#[test]
fn rootpath_refuses_absolute_paths() {
    match rootpath(p(&["/", "etc"]), p(&["/", "opt", "bin", "program"])) {
        Err(DirError::NotRelative { path }) => assert_eq!(path, p(&["/", "etc"])),
        _ => panic!("expected a refusal"),
    }
}
