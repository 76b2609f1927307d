//! The dependency manifests the scanner reads: which files they are, and the
//! pinned dependencies that `pyproject.toml`, `Pipfile` and `Cargo.toml` name.
use vstd::prelude::*;

use crate::dependency::{
    crate_dependency, crates_io, dependency_views, pypi, pypi_dependency, Dependency,
    DependencyView,
};
use crate::requirements::{lemma_split_requirement_pins, split_requirement, split_requirement_in};
use crate::text::{chars_of, same_text, strip_all_prefix, strip_all_prefix_of};
use crate::toml_value::{
    as_text, get, get_text, lemma_entry_value_absent, lemma_entry_value_first, TomlValue,
};

verus! {

/// The kinds of dependency manifest.
#[derive(Debug, Clone, Copy, PartialEq, Eq)]
pub enum ManifestKind {
    Requirements,
    Pyproject,
    Pipfile,
    CargoManifest,
}

/// The kind of manifest that a file of this name is, if any.
pub open spec fn manifest_kind(file_name: Seq<char>) -> Option<ManifestKind> {
    if file_name == "requirements.txt"@ {
        Some(ManifestKind::Requirements)
    } else if file_name == "pyproject.toml"@ {
        Some(ManifestKind::Pyproject)
    } else if file_name == "Pipfile"@ {
        Some(ManifestKind::Pipfile)
    } else if file_name == "Cargo.toml"@ {
        Some(ManifestKind::CargoManifest)
    } else {
        None
    }
}

/// The kind of manifest that a file named `file_name` is; `None` for any
/// other file, which the scan skips.
pub fn dependency_file_kind(file_name: &str) -> (r: Option<ManifestKind>)
    ensures
        r == manifest_kind(file_name@),
{
    if same_text(file_name, "requirements.txt") {
        Some(ManifestKind::Requirements)
    } else if same_text(file_name, "pyproject.toml") {
        Some(ManifestKind::Pyproject)
    } else if same_text(file_name, "Pipfile") {
        Some(ManifestKind::Pipfile)
    } else if same_text(file_name, "Cargo.toml") {
        Some(ManifestKind::CargoManifest)
    } else {
        None
    }
}

/// The version that a Poetry dependency entry states: the entry itself where
/// it is text, else the text under `version` in it.
pub open spec fn poetry_version(v: TomlValue) -> Option<Seq<char>> {
    match v {
        TomlValue::Text(s) => Some(s@),
        TomlValue::Table(_) => get_text(v, "version"@),
        _ => None,
    }
}

/// A Poetry version without its leading `^`s, then without its leading `~`s.
pub open spec fn poetry_clean_version(version: Seq<char>) -> Seq<char> {
    strip_all_prefix(strip_all_prefix(version, seq!['^']), seq!['~'])
}

/// The dependencies that the entries of `[tool.poetry.dependencies]` pin;
/// `python`, the interpreter's own constraint, is no dependency.
pub open spec fn poetry_entries(entries: Seq<(String, TomlValue)>, file: Seq<char>) -> Seq<
    DependencyView,
>
    decreases entries.len(),
{
    if entries.len() == 0 {
        seq![]
    } else {
        let (key, value) = entries.last();
        let here = if key@ == "python"@ {
            seq![]
        } else {
            match poetry_version(value) {
                Some(version) => seq![
                    pypi_dependency(key@, poetry_clean_version(version), file),
                ],
                None => seq![],
            }
        };
        poetry_entries(entries.drop_last(), file) + here
    }
}

/// The dependencies that the PEP 621 list `[project] dependencies` pins.
pub open spec fn pep621_items(items: Seq<TomlValue>, file: Seq<char>) -> Seq<DependencyView>
    decreases items.len(),
{
    if items.len() == 0 {
        seq![]
    } else {
        let here = match as_text(items.last()) {
            Some(s) => match split_requirement(s) {
                Some((name, version)) => seq![pypi_dependency(name, version, file)],
                None => seq![],
            },
            None => seq![],
        };
        pep621_items(items.drop_last(), file) + here
    }
}

/// The Poetry dependencies of a `pyproject.toml` document.
pub open spec fn poetry_dependencies(doc: TomlValue, file: Seq<char>) -> Seq<DependencyView> {
    match get(doc, "tool"@) {
        Some(tool) => match get(tool, "poetry"@) {
            Some(poetry) => match get(poetry, "dependencies"@) {
                Some(TomlValue::Table(entries)) => poetry_entries(entries@, file),
                _ => seq![],
            },
            None => seq![],
        },
        None => seq![],
    }
}

/// The PEP 621 dependencies of a `pyproject.toml` document.
pub open spec fn pep621_dependencies(doc: TomlValue, file: Seq<char>) -> Seq<DependencyView> {
    match get(doc, "project"@) {
        Some(project) => match get(project, "dependencies"@) {
            Some(TomlValue::Array(items)) => pep621_items(items@, file),
            _ => seq![],
        },
        None => seq![],
    }
}

/// The dependencies of a `pyproject.toml` document: Poetry's, then PEP 621's.
pub open spec fn pyproject_dependencies(doc: TomlValue, file: Seq<char>) -> Seq<DependencyView> {
    poetry_dependencies(doc, file) + pep621_dependencies(doc, file)
}

/// The dependencies that the entries of a Pipfile's `[packages]` pin: those
/// whose version is text other than `*`, without its leading `==`s.
pub open spec fn pipfile_entries(entries: Seq<(String, TomlValue)>, file: Seq<char>) -> Seq<
    DependencyView,
>
    decreases entries.len(),
{
    if entries.len() == 0 {
        seq![]
    } else {
        let (key, value) = entries.last();
        let here = match as_text(value) {
            Some(version) => if version == "*"@ {
                seq![]
            } else {
                seq![pypi_dependency(key@, strip_all_prefix(version, seq!['=', '=']), file)]
            },
            None => seq![],
        };
        pipfile_entries(entries.drop_last(), file) + here
    }
}

/// The dependencies of a Pipfile document.
pub open spec fn pipfile_dependencies(doc: TomlValue, file: Seq<char>) -> Seq<DependencyView> {
    match get(doc, "packages"@) {
        Some(TomlValue::Table(entries)) => pipfile_entries(entries@, file),
        _ => seq![],
    }
}

/// The dependencies that the entries of a `Cargo.toml`'s `[dependencies]`
/// pin: a version given as text, or as text under `version` in a table.
pub open spec fn cargo_entries(entries: Seq<(String, TomlValue)>, file: Seq<char>) -> Seq<
    DependencyView,
>
    decreases entries.len(),
{
    if entries.len() == 0 {
        seq![]
    } else {
        let (key, value) = entries.last();
        let here = match poetry_version(value) {
            Some(version) => seq![crate_dependency(key@, version, file)],
            None => seq![],
        };
        cargo_entries(entries.drop_last(), file) + here
    }
}

/// The dependencies of a `Cargo.toml` document.
pub open spec fn cargo_dependencies(doc: TomlValue, file: Seq<char>) -> Seq<DependencyView> {
    match get(doc, "dependencies"@) {
        Some(TomlValue::Table(entries)) => cargo_entries(entries@, file),
        _ => seq![],
    }
}

/// The version text that a dependency entry states directly or under `version`.
fn entry_version(value: &TomlValue) -> (r: Option<&String>)
    ensures
        match r {
            Some(s) => poetry_version(*value) == Some(s@),
            None => poetry_version(*value) is None,
        },
{
    match value {
        TomlValue::Text(s) => Some(s),
        TomlValue::Table(_) => match value.get("version") {
            Some(inner) => inner.as_text(),
            None => None,
        },
        _ => None,
    }
}

/// The dependencies that `[tool.poetry.dependencies]` entries pin.
fn poetry_table(entries: &Vec<(String, TomlValue)>, filepath: &str) -> (deps: Vec<Dependency>)
    ensures
        dependency_views(deps@) == poetry_entries(entries@, filepath@),
{
    let mut deps: Vec<Dependency> = Vec::new();
    let caret = vec!['^'];
    let tilde = vec!['~'];
    let mut i: usize = 0;
    while i < entries.len()
        invariant
            i <= entries@.len(),
            caret@ == seq!['^'],
            tilde@ == seq!['~'],
            dependency_views(deps@) == poetry_entries(entries@.take(i as int), filepath@),
        decreases entries@.len() - i,
    {
        assert(entries@.take(i + 1).drop_last() =~= entries@.take(i as int));
        let ghost before = dependency_views(deps@);
        let key = &entries[i].0;
        if !same_text(key.as_str(), "python") {
            match entry_version(&entries[i].1) {
                Some(version) => {
                    let stripped = strip_all_prefix_of(version.as_str(), &caret);
                    let clean = strip_all_prefix_of(stripped.as_str(), &tilde);
                    deps.push(Dependency::pypi(key.clone(), clean, filepath));
                    assert(dependency_views(deps@) =~= before + seq![
                        pypi_dependency(key@, clean@, filepath@),
                    ]);
                },
                None => {
                    assert(dependency_views(deps@) =~= before + seq![]);
                },
            }
        } else {
            assert(dependency_views(deps@) =~= before + seq![]);
        }
        i = i + 1;
    }
    assert(entries@.take(entries@.len() as int) =~= entries@);
    deps
}

/// The dependencies that a PEP 621 `dependencies` list pins.
fn pep621_list(items: &Vec<TomlValue>, filepath: &str) -> (deps: Vec<Dependency>)
    ensures
        dependency_views(deps@) == pep621_items(items@, filepath@),
{
    let mut deps: Vec<Dependency> = Vec::new();
    let mut i: usize = 0;
    while i < items.len()
        invariant
            i <= items@.len(),
            dependency_views(deps@) == pep621_items(items@.take(i as int), filepath@),
        decreases items@.len() - i,
    {
        assert(items@.take(i + 1).drop_last() =~= items@.take(i as int));
        let ghost before = dependency_views(deps@);
        match items[i].as_text() {
            Some(text) => {
                let v = chars_of(text.as_str());
                assert(v@.subrange(0, v@.len() as int) =~= v@);
                match split_requirement_in(&v, 0, v.len()) {
                    Some((name, version)) => {
                        deps.push(Dependency::pypi(name, version, filepath));
                        assert(dependency_views(deps@) =~= before + seq![
                            pypi_dependency(name@, version@, filepath@),
                        ]);
                    },
                    None => {
                        assert(dependency_views(deps@) =~= before + seq![]);
                    },
                }
            },
            None => {
                assert(dependency_views(deps@) =~= before + seq![]);
            },
        }
        i = i + 1;
    }
    assert(items@.take(items@.len() as int) =~= items@);
    deps
}

/// The dependencies that a `pyproject.toml` pins: those of
/// `[tool.poetry.dependencies]`, then those of PEP 621's
/// `[project] dependencies`. `document` is `None` where the file could not be
/// read or parsed; it then pins nothing.
pub fn parse_pyproject_toml(filepath: &str, document: Option<&TomlValue>) -> (deps: Vec<
    Dependency,
>)
    ensures
        match document {
            Some(doc) => dependency_views(deps@) == pyproject_dependencies(*doc, filepath@),
            None => deps@.len() == 0,
        },
{
    let doc = match document {
        Some(doc) => doc,
        None => return Vec::new(),
    };
    let mut deps: Vec<Dependency> = Vec::new();
    if let Some(tool) = doc.get("tool") {
        if let Some(poetry) = tool.get("poetry") {
            if let Some(TomlValue::Table(entries)) = poetry.get("dependencies") {
                deps = poetry_table(entries, filepath);
            }
        }
    }
    assert(dependency_views(deps@) == poetry_dependencies(*doc, filepath@));
    let mut pep621: Vec<Dependency> = Vec::new();
    if let Some(project) = doc.get("project") {
        if let Some(TomlValue::Array(items)) = project.get("dependencies") {
            pep621 = pep621_list(items, filepath);
        }
    }
    assert(dependency_views(pep621@) == pep621_dependencies(*doc, filepath@));
    let ghost first = deps@;
    deps.append(&mut pep621);
    assert(dependency_views(deps@) =~= dependency_views(first) + pep621_dependencies(
        *doc,
        filepath@,
    ));
    deps
}

/// The dependencies that a Pipfile's `[packages]` pins. `document` is `None`
/// where the file could not be read or parsed; it then pins nothing.
pub fn parse_pipfile(filepath: &str, document: Option<&TomlValue>) -> (deps: Vec<Dependency>)
    ensures
        match document {
            Some(doc) => dependency_views(deps@) == pipfile_dependencies(*doc, filepath@),
            None => deps@.len() == 0,
        },
{
    let mut deps: Vec<Dependency> = Vec::new();
    let doc = match document {
        Some(doc) => doc,
        None => return deps,
    };
    let entries = match doc.get("packages") {
        Some(TomlValue::Table(entries)) => entries,
        _ => return deps,
    };
    let equals = vec!['=', '='];
    let mut i: usize = 0;
    while i < entries.len()
        invariant
            i <= entries@.len(),
            equals@ == seq!['=', '='],
            dependency_views(deps@) == pipfile_entries(entries@.take(i as int), filepath@),
        decreases entries@.len() - i,
    {
        assert(entries@.take(i + 1).drop_last() =~= entries@.take(i as int));
        let ghost before = dependency_views(deps@);
        let key = &entries[i].0;
        match entries[i].1.as_text() {
            Some(version) => {
                if !same_text(version.as_str(), "*") {
                    let clean = strip_all_prefix_of(version.as_str(), &equals);
                    deps.push(Dependency::pypi(key.clone(), clean, filepath));
                    assert(dependency_views(deps@) =~= before + seq![
                        pypi_dependency(key@, clean@, filepath@),
                    ]);
                } else {
                    assert(dependency_views(deps@) =~= before + seq![]);
                }
            },
            None => {
                assert(dependency_views(deps@) =~= before + seq![]);
            },
        }
        i = i + 1;
    }
    assert(entries@.take(entries@.len() as int) =~= entries@);
    deps
}

/// The crates that a `Cargo.toml`'s `[dependencies]` pins. `document` is
/// `None` where the file could not be read or parsed; it then pins nothing.
pub fn parse_cargo_toml(filepath: &str, document: Option<&TomlValue>) -> (deps: Vec<Dependency>)
    ensures
        match document {
            Some(doc) => dependency_views(deps@) == cargo_dependencies(*doc, filepath@),
            None => deps@.len() == 0,
        },
{
    let mut deps: Vec<Dependency> = Vec::new();
    let doc = match document {
        Some(doc) => doc,
        None => return deps,
    };
    let entries = match doc.get("dependencies") {
        Some(TomlValue::Table(entries)) => entries,
        _ => return deps,
    };
    let mut i: usize = 0;
    while i < entries.len()
        invariant
            i <= entries@.len(),
            dependency_views(deps@) == cargo_entries(entries@.take(i as int), filepath@),
        decreases entries@.len() - i,
    {
        assert(entries@.take(i + 1).drop_last() =~= entries@.take(i as int));
        let ghost before = dependency_views(deps@);
        let key = &entries[i].0;
        match entry_version(&entries[i].1) {
            Some(version) => {
                deps.push(Dependency::rust_crate(key.clone(), version.clone(), filepath));
                assert(dependency_views(deps@) =~= before + seq![
                    crate_dependency(key@, version@, filepath@),
                ]);
            },
            None => {
                assert(dependency_views(deps@) =~= before + seq![]);
            },
        }
        i = i + 1;
    }
    assert(entries@.take(entries@.len() as int) =~= entries@);
    deps
}

/// No Poetry entry named `python` becomes a dependency, and every Poetry
/// dependency is a Python package of the file read.
pub proof fn lemma_poetry_entries_exclude_python(entries: Seq<(String, TomlValue)>, file: Seq<char>)
    ensures
        forall|i: int|
            0 <= i < poetry_entries(entries, file).len() ==> {
                let d = #[trigger] poetry_entries(entries, file)[i];
                &&& d.name != "python"@
                &&& d.ecosystem == pypi()
                &&& d.file == file
            },
    decreases entries.len(),
{
    if entries.len() > 0 {
        lemma_poetry_entries_exclude_python(entries.drop_last(), file);
        let before = poetry_entries(entries.drop_last(), file);
        assert forall|i: int| 0 <= i < poetry_entries(entries, file).len() implies {
            let d = #[trigger] poetry_entries(entries, file)[i];
            &&& d.name != "python"@
            &&& d.ecosystem == pypi()
            &&& d.file == file
        } by {
            if i < before.len() {
                assert(poetry_entries(entries, file)[i] == before[i]);
            }
        }
    }
}

/// No `python` entry of `[tool.poetry.dependencies]` becomes a dependency of
/// a `pyproject.toml`.
pub proof fn lemma_poetry_excludes_python(doc: TomlValue, file: Seq<char>)
    ensures
        forall|i: int|
            0 <= i < poetry_dependencies(doc, file).len() ==> (#[trigger] poetry_dependencies(
                doc,
                file,
            )[i]).name != "python"@,
{
    match get(doc, "tool"@) {
        Some(tool) => match get(tool, "poetry"@) {
            Some(poetry) => match get(poetry, "dependencies"@) {
                Some(TomlValue::Table(entries)) => {
                    lemma_poetry_entries_exclude_python(entries@, file);
                },
                _ => {},
            },
            None => {},
        },
        None => {},
    }
}

/// Every dependency a `Cargo.toml` yields is a crate of that file.
pub proof fn lemma_cargo_entries_are_crates(entries: Seq<(String, TomlValue)>, file: Seq<char>)
    ensures
        forall|i: int|
            0 <= i < cargo_entries(entries, file).len() ==> {
                let d = #[trigger] cargo_entries(entries, file)[i];
                &&& d.ecosystem == crates_io()
                &&& d.file == file
            },
    decreases entries.len(),
{
    if entries.len() > 0 {
        lemma_cargo_entries_are_crates(entries.drop_last(), file);
        let before = cargo_entries(entries.drop_last(), file);
        assert forall|i: int| 0 <= i < cargo_entries(entries, file).len() implies {
            let d = #[trigger] cargo_entries(entries, file)[i];
            &&& d.ecosystem == crates_io()
            &&& d.file == file
        } by {
            if i < before.len() {
                assert(cargo_entries(entries, file)[i] == before[i]);
            }
        }
    }
}

/// Every PEP 621 dependency is a Python package of the file read, with a
/// non-empty name and a non-empty version.
pub proof fn lemma_pep621_items_pinned(items: Seq<TomlValue>, file: Seq<char>)
    ensures
        forall|i: int|
            0 <= i < pep621_items(items, file).len() ==> {
                let d = #[trigger] pep621_items(items, file)[i];
                &&& d.name.len() > 0
                &&& d.version.len() > 0
                &&& d.ecosystem == pypi()
                &&& d.file == file
            },
    decreases items.len(),
{
    if items.len() > 0 {
        lemma_pep621_items_pinned(items.drop_last(), file);
        if let Some(s) = as_text(items.last()) {
            lemma_split_requirement_pins(s, 0);
        }
        let before = pep621_items(items.drop_last(), file);
        assert forall|i: int| 0 <= i < pep621_items(items, file).len() implies {
            let d = #[trigger] pep621_items(items, file)[i];
            &&& d.name.len() > 0
            &&& d.version.len() > 0
            &&& d.ecosystem == pypi()
            &&& d.file == file
        } by {
            if i < before.len() {
                assert(pep621_items(items, file)[i] == before[i]);
            }
        }
    }
}

/// Whether `t` holds an entry `version` whose first occurrence, at `j`, is
/// the text `v`.
pub open spec fn version_at(t: Seq<(String, TomlValue)>, j: int, v: Seq<char>) -> bool {
    &&& 0 <= j < t.len()
    &&& t[j].0@ == "version"@
    &&& forall|i: int| 0 <= i < j ==> (#[trigger] t[i]).0@ != "version"@
    &&& t[j].1 matches TomlValue::Text(s) && s@ == v
}

/// Whether `t` holds no entry `version`.
pub open spec fn no_version(t: Seq<(String, TomlValue)>) -> bool {
    forall|i: int| 0 <= i < t.len() ==> (#[trigger] t[i]).0@ != "version"@
}

/// The version a table entry states is the text under `version` wherever
/// that key stands; a table without it states none.
pub proof fn lemma_entry_version_forms(t: Vec<(String, TomlValue)>, j: int, v: Seq<char>)
    ensures
        version_at(t@, j, v) ==> poetry_version(TomlValue::Table(t)) == Some(v),
        no_version(t@) ==> poetry_version(TomlValue::Table(t)) is None,
{
    if version_at(t@, j, v) {
        lemma_entry_value_first(t@, "version"@, j);
    }
    if no_version(t@) {
        lemma_entry_value_absent(t@, "version"@);
    }
}

/// Each Poetry entry adds exactly one dependency, under its own key, with its
/// version without leading `^`s and then without leading `~`s, where its key
/// is not exactly `python` and it states a version, as text or as text under
/// `version` in a table wherever that key stands; otherwise it adds none.
pub proof fn lemma_poetry_entry(
    entries: Seq<(String, TomlValue)>,
    key: String,
    value: TomlValue,
    j: int,
    v: Seq<char>,
    file: Seq<char>,
)
    ensures
        key@ == "python"@ ==> poetry_entries(entries.push((key, value)), file) == poetry_entries(
            entries,
            file,
        ),
        key@ != "python"@ ==> (value matches TomlValue::Text(s) ==> poetry_entries(
            entries.push((key, value)),
            file,
        ) == poetry_entries(entries, file).push(
            pypi_dependency(key@, strip_all_prefix(strip_all_prefix(s@, seq!['^']), seq!['~']), file),
        )),
        key@ != "python"@ ==> (value matches TomlValue::Table(t) && version_at(t@, j, v)
            ==> poetry_entries(entries.push((key, value)), file) == poetry_entries(entries, file).push(
            pypi_dependency(key@, strip_all_prefix(strip_all_prefix(v, seq!['^']), seq!['~']), file),
        )),
        value matches TomlValue::Table(t) && no_version(t@) ==> poetry_entries(
            entries.push((key, value)),
            file,
        ) == poetry_entries(entries, file),
        value is Other || value is Array ==> poetry_entries(entries.push((key, value)), file)
            == poetry_entries(entries, file),
{
    let e = entries.push((key, value));
    assert(e.drop_last() =~= entries);
    assert(e.last() == (key, value));
    if let TomlValue::Table(t) = value {
        lemma_entry_version_forms(t, j, v);
    }
}

/// Each Pipfile package adds exactly one dependency, under its own key, with
/// its version without leading `==`s, unless its version is `*` or not text;
/// then it adds none.
pub proof fn lemma_pipfile_entry(
    entries: Seq<(String, TomlValue)>,
    key: String,
    value: TomlValue,
    file: Seq<char>,
)
    ensures
        pipfile_entries(entries.push((key, value)), file) == match value {
            TomlValue::Text(s) => if s@ == "*"@ {
                pipfile_entries(entries, file)
            } else {
                pipfile_entries(entries, file).push(
                    pypi_dependency(key@, strip_all_prefix(s@, seq!['=', '=']), file),
                )
            },
            _ => pipfile_entries(entries, file),
        },
{
    let e = entries.push((key, value));
    assert(e.drop_last() =~= entries);
    assert(e.last() == (key, value));
}

/// Each Cargo dependency adds exactly one crate, under its own key, with the
/// version it states as text or as text under `version` in a table, wherever
/// that key stands; one that states no version adds none.
pub proof fn lemma_cargo_entry(
    entries: Seq<(String, TomlValue)>,
    key: String,
    value: TomlValue,
    j: int,
    v: Seq<char>,
    file: Seq<char>,
)
    ensures
        value matches TomlValue::Text(s) ==> cargo_entries(entries.push((key, value)), file)
            == cargo_entries(entries, file).push(crate_dependency(key@, s@, file)),
        value matches TomlValue::Table(t) && version_at(t@, j, v) ==> cargo_entries(
            entries.push((key, value)),
            file,
        ) == cargo_entries(entries, file).push(crate_dependency(key@, v, file)),
        value matches TomlValue::Table(t) && no_version(t@) ==> cargo_entries(
            entries.push((key, value)),
            file,
        ) == cargo_entries(entries, file),
        value is Other || value is Array ==> cargo_entries(entries.push((key, value)), file)
            == cargo_entries(entries, file),
{
    let e = entries.push((key, value));
    assert(e.drop_last() =~= entries);
    assert(e.last() == (key, value));
    if let TomlValue::Table(t) = value {
        lemma_entry_version_forms(t, j, v);
    }
}

/// Whether the first entry of `t` with key `key` stands at `j` and holds `value`.
pub open spec fn first_entry(t: Seq<(String, TomlValue)>, j: int, key: Seq<char>, value: TomlValue) -> bool {
    &&& 0 <= j < t.len()
    &&& t[j].0@ == key
    &&& t[j].1 == value
    &&& forall|i: int| 0 <= i < j ==> (#[trigger] t[i]).0@ != key
}

/// Whether `t` has no entry with key `key`.
pub open spec fn lacks_key(t: Seq<(String, TomlValue)>, key: Seq<char>) -> bool {
    forall|i: int| 0 <= i < t.len() ==> (#[trigger] t[i]).0@ != key
}

/// A Pipfile pins what its `[packages]` table pins, wherever that table
/// stands in the document, and nothing without one.
pub proof fn lemma_pipfile_document(
    top: Vec<(String, TomlValue)>,
    j: int,
    entries: Vec<(String, TomlValue)>,
    file: Seq<char>,
)
    ensures
        first_entry(top@, j, "packages"@, TomlValue::Table(entries)) ==> pipfile_dependencies(
            TomlValue::Table(top),
            file,
        ) == pipfile_entries(entries@, file),
        lacks_key(top@, "packages"@) ==> pipfile_dependencies(TomlValue::Table(top), file)
            == Seq::<DependencyView>::empty(),
{
    if first_entry(top@, j, "packages"@, TomlValue::Table(entries)) {
        lemma_entry_value_first(top@, "packages"@, j);
    }
    if lacks_key(top@, "packages"@) {
        lemma_entry_value_absent(top@, "packages"@);
    }
}

/// A `Cargo.toml` pins what its `[dependencies]` table pins, wherever that
/// table stands in the document, and nothing without one.
pub proof fn lemma_cargo_document(
    top: Vec<(String, TomlValue)>,
    j: int,
    entries: Vec<(String, TomlValue)>,
    file: Seq<char>,
)
    ensures
        first_entry(top@, j, "dependencies"@, TomlValue::Table(entries)) ==> cargo_dependencies(
            TomlValue::Table(top),
            file,
        ) == cargo_entries(entries@, file),
        lacks_key(top@, "dependencies"@) ==> cargo_dependencies(TomlValue::Table(top), file)
            == Seq::<DependencyView>::empty(),
{
    if first_entry(top@, j, "dependencies"@, TomlValue::Table(entries)) {
        lemma_entry_value_first(top@, "dependencies"@, j);
    }
    if lacks_key(top@, "dependencies"@) {
        lemma_entry_value_absent(top@, "dependencies"@);
    }
}

/// A `pyproject.toml` pins what `[tool.poetry.dependencies]` pins, then what
/// the list `[project] dependencies` pins, wherever these stand.
pub proof fn lemma_pyproject_document(
    top: Vec<(String, TomlValue)>,
    jt: int,
    tool: Vec<(String, TomlValue)>,
    jp: int,
    poetry: Vec<(String, TomlValue)>,
    jd: int,
    entries: Vec<(String, TomlValue)>,
    jr: int,
    project: Vec<(String, TomlValue)>,
    jl: int,
    items: Vec<TomlValue>,
    file: Seq<char>,
)
    requires
        first_entry(top@, jt, "tool"@, TomlValue::Table(tool)),
        first_entry(tool@, jp, "poetry"@, TomlValue::Table(poetry)),
        first_entry(poetry@, jd, "dependencies"@, TomlValue::Table(entries)),
        first_entry(top@, jr, "project"@, TomlValue::Table(project)),
        first_entry(project@, jl, "dependencies"@, TomlValue::Array(items)),
    ensures
        pyproject_dependencies(TomlValue::Table(top), file) == poetry_entries(entries@, file)
            + pep621_items(items@, file),
{
    lemma_entry_value_first(top@, "tool"@, jt);
    lemma_entry_value_first(tool@, "poetry"@, jp);
    lemma_entry_value_first(poetry@, "dependencies"@, jd);
    lemma_entry_value_first(top@, "project"@, jr);
    lemma_entry_value_first(project@, "dependencies"@, jl);
}

/// Each PEP 621 list item that is text adds what its requirement pins;
/// other items add nothing.
pub proof fn lemma_pep621_item(items: Seq<TomlValue>, item: TomlValue, file: Seq<char>)
    ensures
        pep621_items(items.push(item), file) == match item {
            TomlValue::Text(s) => match split_requirement(s@) {
                Some((name, version)) => pep621_items(items, file).push(
                    pypi_dependency(name, version, file),
                ),
                None => pep621_items(items, file),
            },
            _ => pep621_items(items, file),
        },
{
    let e = items.push(item);
    assert(e.drop_last() =~= items);
    assert(e.last() == item);
}

} // verus!
