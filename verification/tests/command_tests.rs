use builder_seq::command::Command;

#[test]
fn builds_with_every_part_set() {
    let mut builder = Command::builder();
    builder.executable("cargo".to_owned());
    builder.args(vec!["build".to_owned(), "--release".to_owned()]);
    builder.env("RUST_LOG=info".to_owned());
    builder.current_dir("..".to_owned());
    let command = builder.build().unwrap();
    let shown = format!("{:?}", command);
    assert!(shown.contains("executable: \"cargo\""));
    assert!(shown.contains("args: [\"build\", \"--release\"]"));
    assert!(shown.contains("env: [\"RUST_LOG=info\"]"));
    assert!(shown.contains("current_dir: Some(\"..\")"));
}

#[test]
fn setters_chain() {
    let mut builder = Command::builder();
    builder.executable("cargo".to_owned()).arg("build".to_owned()).arg("--release".to_owned());
    let command = builder.build().unwrap();
    let shown = format!("{:?}", command);
    assert!(shown.contains("args: [\"build\", \"--release\"]"));
    assert!(shown.contains("env: []"));
    assert!(shown.contains("current_dir: None"));
}

#[test]
fn missing_executable_is_refused() {
    let mut builder = Command::builder();
    builder.arg("build".to_owned()).current_dir("/".to_owned());
    let err = builder.build().unwrap_err();
    assert_eq!(err, "Unspecify field");
}

#[test]
fn build_leaves_the_builder_as_it_was() {
    let mut builder = Command::builder();
    builder.executable("ls".to_owned()).env("A=1".to_owned());
    let before = format!("{:?}", builder);
    let first = format!("{:?}", builder.build().unwrap());
    assert_eq!(format!("{:?}", builder), before);
    let second = format!("{:?}", builder.build().unwrap());
    assert_eq!(first, second);
}

#[test]
fn later_setter_replaces_earlier_value() {
    let mut builder = Command::builder();
    builder.executable("a".to_owned()).executable("b".to_owned());
    builder.arg("x".to_owned()).args(vec!["y".to_owned()]).arg("z".to_owned());
    let shown = format!("{:?}", builder.build().unwrap());
    assert!(shown.contains("executable: \"b\""));
    assert!(shown.contains("args: [\"y\", \"z\"]"));
}
