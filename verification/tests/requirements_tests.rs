use pyspector::dependency::Dependency;
use pyspector::requirements::parse_requirements_txt;

fn dep(name: &str, version: &str, file: &str) -> Dependency {
    Dependency {
        name: name.to_string(),
        version: version.to_string(),
        file: file.to_string(),
        ecosystem: "PyPI".to_string(),
    }
}

#[test]
fn pinned_lines_become_dependencies() {
    let content = "requests==2.31.0\nflask>=2.0\n";
    let deps = parse_requirements_txt("requirements.txt", Some(content));
    assert_eq!(
        deps,
        vec![
            dep("requests", "2.31.0", "requirements.txt"),
            dep("flask", "2.0", "requirements.txt"),
        ]
    );
}

#[test]
fn names_are_lowercased_and_trimmed() {
    let deps = parse_requirements_txt("r.txt", Some("  Requests == 2.0  \r\n"));
    assert_eq!(deps, vec![dep("requests", "2.0", "r.txt")]);
}

#[test]
fn unicode_names_are_lowercased() {
    let deps = parse_requirements_txt("r.txt", Some("ÄPFEL==1"));
    assert_eq!(deps, vec![dep("äpfel", "1", "r.txt")]);
}

#[test]
fn comments_blank_lines_and_unpinned_lines_are_skipped() {
    let content = "# a comment\n\n   \nnumpy\nscipy # no version\n";
    assert_eq!(parse_requirements_txt("r.txt", Some(content)), vec![]);
}

#[test]
fn inline_comments_and_markers_are_cut() {
    let content = "django>=3.2 # web\npkg==1.0;python_version<'3.8'\n";
    assert_eq!(
        parse_requirements_txt("r.txt", Some(content)),
        vec![dep("django", "3.2", "r.txt"), dep("pkg", "1.0", "r.txt")]
    );
}

#[test]
fn operators_are_tried_in_order() {
    // `<=` leaves no version, so the later `<` is tried and keeps `=`.
    assert_eq!(
        parse_requirements_txt("r.txt", Some("pkg<=")),
        vec![dep("pkg", "=", "r.txt")]
    );
    assert_eq!(
        parse_requirements_txt("r.txt", Some("a~=1.4")),
        vec![dep("a", "1.4", "r.txt")]
    );
    assert_eq!(
        parse_requirements_txt("r.txt", Some("b<2")),
        vec![dep("b", "2", "r.txt")]
    );
    assert_eq!(
        parse_requirements_txt("r.txt", Some("c>1")),
        vec![dep("c", "1", "r.txt")]
    );
}

#[test]
fn a_requirement_needs_a_name() {
    assert_eq!(parse_requirements_txt("r.txt", Some("==1.0")), vec![]);
}

#[test]
fn the_first_occurrence_of_an_operator_splits() {
    assert_eq!(
        parse_requirements_txt("r.txt", Some("x==1==2")),
        vec![dep("x", "1==2", "r.txt")]
    );
}

#[test]
fn an_unreadable_file_pins_nothing() {
    assert_eq!(parse_requirements_txt("r.txt", None), vec![]);
}

#[test]
fn the_last_line_needs_no_newline() {
    assert_eq!(
        parse_requirements_txt("r.txt", Some("a==1\nb==2")),
        vec![dep("a", "1", "r.txt"), dep("b", "2", "r.txt")]
    );
}

#[test]
fn unicode_white_space_is_trimmed() {
    assert_eq!(
        parse_requirements_txt("r.txt", Some("\u{3000}pkg\u{a0}==\u{2003}1.0\u{85}")),
        vec![dep("pkg", "1.0", "r.txt")]
    );
}

#[test]
fn every_dependency_has_a_name_and_a_version() {
    let content = "a==\n==b\n<\n >= \nok==1\n";
    let deps = parse_requirements_txt("r.txt", Some(content));
    assert_eq!(deps, vec![dep("ok", "1", "r.txt")]);
    for d in &deps {
        assert!(!d.name.is_empty() && !d.version.is_empty());
    }
}

#[test]
fn unpinned_lines_and_comment_suffixes_change_nothing() {
    let plain = parse_requirements_txt("r.txt", Some("a==1\nb>=2"));
    let noisy = "\n# header\na==1  # pinned\n\nnumpy\n  \nb>=2; python_version<'3.9'\n# end";
    assert_eq!(parse_requirements_txt("r.txt", Some(noisy)), plain);
    assert_eq!(plain, vec![dep("a", "1", "r.txt"), dep("b", "2", "r.txt")]);
}
