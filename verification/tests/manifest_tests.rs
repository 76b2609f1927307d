use pyspector::dependency::Dependency;
use pyspector::manifest::{
    dependency_file_kind, parse_cargo_toml, parse_pipfile, parse_pyproject_toml, ManifestKind,
};
use pyspector::toml_value::TomlValue;

fn text(s: &str) -> TomlValue {
    TomlValue::Text(s.to_string())
}

fn table(entries: Vec<(&str, TomlValue)>) -> TomlValue {
    TomlValue::Table(entries.into_iter().map(|(k, v)| (k.to_string(), v)).collect())
}

fn pypi(name: &str, version: &str, file: &str) -> Dependency {
    Dependency {
        name: name.to_string(),
        version: version.to_string(),
        file: file.to_string(),
        ecosystem: "PyPI".to_string(),
    }
}

fn krate(name: &str, version: &str, file: &str) -> Dependency {
    Dependency {
        name: name.to_string(),
        version: version.to_string(),
        file: file.to_string(),
        ecosystem: "crates.io".to_string(),
    }
}

#[test]
fn manifest_file_names() {
    assert_eq!(dependency_file_kind("requirements.txt"), Some(ManifestKind::Requirements));
    assert_eq!(dependency_file_kind("pyproject.toml"), Some(ManifestKind::Pyproject));
    assert_eq!(dependency_file_kind("Pipfile"), Some(ManifestKind::Pipfile));
    assert_eq!(dependency_file_kind("Cargo.toml"), Some(ManifestKind::CargoManifest));
    assert_eq!(dependency_file_kind("cargo.toml"), None);
    assert_eq!(dependency_file_kind("setup.py"), None);
    assert_eq!(dependency_file_kind(""), None);
}

#[test]
fn poetry_dependencies_skip_python_and_clean_versions() {
    let doc = table(vec![(
        "tool",
        table(vec![(
            "poetry",
            table(vec![(
                "dependencies",
                table(vec![
                    ("Django", table(vec![("version", text("~3.2")), ("optional", TomlValue::Other)])),
                    ("python", text("^3.8")),
                    ("requests", text("^^2.31")),
                    ("rich", table(vec![("git", text("https://example.org"))])),
                    ("six", TomlValue::Other),
                ]),
            )]),
        )]),
    )]);
    assert_eq!(
        parse_pyproject_toml("pyproject.toml", Some(&doc)),
        vec![pypi("Django", "3.2", "pyproject.toml"), pypi("requests", "2.31", "pyproject.toml")]
    );
}

#[test]
fn caret_is_stripped_before_tilde() {
    let doc = table(vec![(
        "tool",
        table(vec![("poetry", table(vec![("dependencies", table(vec![("a", text("~^1"))]))]))]),
    )]);
    // Leading `^`s go first, so a `^` behind a `~` stays.
    assert_eq!(parse_pyproject_toml("p", Some(&doc)), vec![pypi("a", "^1", "p")]);
}

#[test]
fn pep621_dependencies_follow_poetry_ones() {
    let doc = table(vec![
        (
            "project",
            table(vec![(
                "dependencies",
                TomlValue::Array(vec![
                    text("Requests >= 2.0"),
                    text("numpy"),
                    TomlValue::Other,
                    text("attrs==23.1 ; python_version>'3'"),
                ]),
            )]),
        ),
        ("tool", table(vec![("poetry", table(vec![("dependencies", table(vec![("b", text("1"))]))]))])),
    ]);
    assert_eq!(
        parse_pyproject_toml("p", Some(&doc)),
        vec![
            pypi("b", "1", "p"),
            pypi("requests", "2.0", "p"),
            pypi("attrs", "23.1 ; python_version>'3'", "p"),
        ]
    );
}

#[test]
fn pyproject_without_sections_pins_nothing() {
    let doc = table(vec![("project", table(vec![("dependencies", text("a==1"))]))]);
    assert_eq!(parse_pyproject_toml("p", Some(&doc)), vec![]);
    assert_eq!(parse_pyproject_toml("p", Some(&TomlValue::Other)), vec![]);
    assert_eq!(parse_pyproject_toml("p", None), vec![]);
}

#[test]
fn pipfile_packages() {
    let doc = table(vec![
        ("dev-packages", table(vec![("pytest", text("==7.0"))])),
        (
            "packages",
            table(vec![
                ("any", text("*")),
                ("flask", text("==2.0.1")),
                ("twice", text("====1")),
                ("tabled", table(vec![("version", text("==1"))])),
                ("range", text(">=1.0")),
            ]),
        ),
    ]);
    assert_eq!(
        parse_pipfile("Pipfile", Some(&doc)),
        vec![
            pypi("flask", "2.0.1", "Pipfile"),
            pypi("twice", "1", "Pipfile"),
            pypi("range", ">=1.0", "Pipfile"),
        ]
    );
    assert_eq!(parse_pipfile("Pipfile", None), vec![]);
    assert_eq!(parse_pipfile("Pipfile", Some(&table(vec![]))), vec![]);
}

#[test]
fn cargo_dependencies() {
    let doc = table(vec![
        (
            "dependencies",
            table(vec![
                ("local", table(vec![("path", text("../local"))])),
                ("serde", table(vec![("version", text("1.0")), ("features", TomlValue::Array(vec![text("derive")]))])),
                ("toml", text("0.8")),
            ]),
        ),
        ("dev-dependencies", table(vec![("x", text("1"))])),
    ]);
    assert_eq!(
        parse_cargo_toml("sub/Cargo.toml", Some(&doc)),
        vec![krate("serde", "1.0", "sub/Cargo.toml"), krate("toml", "0.8", "sub/Cargo.toml")]
    );
    assert_eq!(parse_cargo_toml("Cargo.toml", None), vec![]);
}
