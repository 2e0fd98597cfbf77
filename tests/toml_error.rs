use sqlboot::toml::{e, Context};

#[test]
fn describe_names_the_file() {
    let err = e("fsync failure", "/etc/app.toml");
    assert_eq!(err.describe(), "TOML file \"/etc/app.toml\": fsync failure");
}

#[test]
fn context_ties_errors_to_the_file() {
    let r: Result<u32, String> = Err("bad".to_string());
    let err = r.context("x.toml").err().unwrap();
    assert_eq!(err.msg, "bad");
    assert_eq!(err.path, "x.toml");
    let ok: Result<u32, String> = Ok(7);
    assert_eq!(ok.context("x.toml").ok(), Some(7));
}
