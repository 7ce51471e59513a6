use gepetto::config::ProjectConfig;
use gepetto::template::{
    copy_file_with_templating, copy_template_files, create_template_context, FsTree,
};

fn file(name: &str, content: &str) -> FsTree {
    FsTree::File { name: name.to_owned(), content: content.to_owned() }
}

fn dir(name: &str, entries: Vec<FsTree>) -> FsTree {
    FsTree::Dir { name: name.to_owned(), entries }
}

#[test]
fn test_materialize_renames_placeholder_and_substitutes() {
    let config = ProjectConfig::build("foo-bar".to_owned(), "Acme".to_owned());
    let context = create_template_context(&config);
    assert_eq!(config.program_name_underscore, "foo_bar");

    let template = vec![dir(
        "counter-pinocchio",
        vec![file("lib.rs", "pub mod {{program_name_underscore}};")],
    )];
    let out = copy_template_files(&template, &context, "foo-bar");

    let expected = vec![dir("foo-bar", vec![file("lib.rs", "pub mod foo_bar;")])];
    assert_eq!(out, expected);
}

#[test]
fn test_materialize_substitutes_year_and_names() {
    let config = ProjectConfig::build("some-counter".to_owned(), "Acme Corp".to_owned());
    let context = create_template_context(&config);
    let template = vec![file(
        "LICENSE",
        "Copyright {{year}} {{company_name}} — {{program_name_readable}}",
    )];
    let out = copy_template_files(&template, &context, "some-counter");
    let expected_text = format!("Copyright {} Acme Corp — Some Counter", config.year);
    assert_eq!(out, vec![file("LICENSE", &expected_text)]);
}

#[test]
fn test_materialize_plain_tree_is_copied_minus_skips() {
    let config = ProjectConfig::build("my-app".to_owned(), "Acme".to_owned());
    let context = create_template_context(&config);
    let template = vec![
        file("logo.png", "rawbytes{{not-a-template}}"),
        file("Cargo.lock", "lockfile"),
        dir("target", vec![file("out.bin", "x")]),
        dir("assets", vec![file("a.dat", "data"), file("b.lock", "y")]),
    ];
    let out = copy_template_files(&template, &context, "my-app");
    let expected = vec![
        file("logo.png", "rawbytes{{not-a-template}}"),
        dir("assets", vec![file("a.dat", "data")]),
    ];
    assert_eq!(out, expected);
}

#[test]
fn test_materialize_twice_succeeds_and_agrees() {
    // The materializer itself carries no destination state: a second run
    // over the same source succeeds and produces the same tree, so
    // writing it over the first run's output changes nothing.
    let config = ProjectConfig::build("twice".to_owned(), "Acme".to_owned());
    let context = create_template_context(&config);
    let template = vec![dir(
        "counter-pinocchio",
        vec![file("main.rs", "// {{program_name_dash}}"), file("data.bin", "\u{0}\u{1}")],
    )];
    let first = copy_template_files(&template, &context, "twice");
    let second = copy_template_files(&template, &context, "twice");
    assert_eq!(first, second);
}

#[test]
fn test_year_is_a_number_not_its_digits() {
    // The engine distinguishes a number variable from the text of its
    // digits: arithmetic succeeds on `year` but errors on a string
    // variable, where the render falls back to the original text.
    let config = ProjectConfig::build("typed".to_owned(), "Acme".to_owned());
    let context = create_template_context(&config);
    let template = vec![
        file("year.rs", "{{ year + 1 }}"),
        file("name.rs", "{{ program_name_dash + 1 }}"),
    ];
    let out = copy_template_files(&template, &context, "typed");
    let expected = vec![
        file("year.rs", &format!("{}", config.year + 1)),
        file("name.rs", "{{ program_name_dash + 1 }}"),
    ];
    assert_eq!(out, expected);
}

#[test]
fn test_malformed_template_falls_back_to_original() {
    let config = ProjectConfig::build("fall-back".to_owned(), "Acme".to_owned());
    let context = create_template_context(&config);
    let template = vec![file("broken.rs", "{% if unclosed %}")];
    let out = copy_template_files(&template, &context, "fall-back");
    assert_eq!(out, vec![file("broken.rs", "{% if unclosed %}")]);
}

#[test]
fn test_copy_file_with_templating_respects_policy() {
    let config = ProjectConfig::build("policy-check".to_owned(), "Acme".to_owned());
    let context = create_template_context(&config);
    // A template-eligible file is substituted.
    let rendered = copy_file_with_templating("main.rs", "{{program_name_dash}}", &context);
    assert_eq!(rendered, "policy-check");
    // A file outside the allow-list passes through even when its text
    // looks like a template.
    let raw = copy_file_with_templating("main.bin", "{{program_name_dash}}", &context);
    assert_eq!(raw, "{{program_name_dash}}");
}

#[test]
fn test_placeholder_file_is_renamed_too() {
    // The rename applies to any entry bearing the exact placeholder name,
    // and only to that name.
    let config = ProjectConfig::build("named".to_owned(), "Acme".to_owned());
    let context = create_template_context(&config);
    let template = vec![
        file("counter-pinocchio", "text"),
        file("counter-pinocchio.rs", "// keep"),
    ];
    let out = copy_template_files(&template, &context, "named");
    assert_eq!(out, vec![file("named", "text"), file("counter-pinocchio.rs", "// keep")]);
}
