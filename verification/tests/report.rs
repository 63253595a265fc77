use pipfile_diff::diff::Diff;
use pipfile_diff::names::NameMap;
use pipfile_diff::pipfile::{PinForm, Rewrite};
use pipfile_diff::pipfile_lock::Dependency;

fn pip(version: &str) -> Dependency {
    Dependency::Pip {
        version: version.to_owned(),
    }
}

fn git(git_ref: &str) -> Dependency {
    Dependency::Git {
        git_ref: git_ref.to_owned(),
    }
}

fn set(entries: &[(&str, Dependency)]) -> NameMap<Dependency> {
    NameMap::from_entries(
        entries
            .iter()
            .map(|(name, dependency)| ((*name).to_owned(), dependency.clone()))
            .collect(),
    )
}

#[test]
fn report_of_no_difference_is_empty() {
    assert_eq!(Diff::default().report(), Vec::<String>::new());
    let same = set(&[("a", pip("==1"))]);
    assert_eq!(
        Diff::compare_dependencies(&same, &same).report(),
        Vec::<String>::new()
    );
}

#[test]
fn report_has_a_part_for_each_kind_of_difference() {
    let new = set(&[
        ("lib1", pip("==3.2.0")),
        ("lib2", git("abcdef")),
        ("lib3", pip("==1.2")),
        ("lib5", git("0123")),
        ("lib6", git("4567")),
    ]);
    let old = set(&[
        ("lib6", pip("==0.0.1")),
        ("lib1", pip("==3.2.1")),
        ("lib2", git("abcdef")),
        ("lib4", pip("0.1")),
    ]);
    let diff = Diff::compare_dependencies(&new, &old);
    assert_eq!(
        diff.report(),
        vec![
            "Changed:",
            "  lib1: 3.2.1 => 3.2.0",
            "  lib6: 0.0.1 => 4567",
            "New:",
            "  lib3: 1.2",
            "  lib5: 0123",
            "Deleted:",
            "  lib4: 0.1",
        ]
    );
}

#[test]
fn report_leaves_out_the_parts_without_lines() {
    let new = set(&[("lib3", pip("==1.2"))]);
    let old = set(&[]);
    assert_eq!(
        Diff::compare_dependencies(&new, &old).report(),
        vec!["New:", "  lib3: 1.2"]
    );
    assert_eq!(
        Diff::compare_dependencies(&old, &new).report(),
        vec!["Deleted:", "  lib3: 1.2"]
    );
    let moved = set(&[("lib3", pip("==1.3"))]);
    assert_eq!(
        Diff::compare_dependencies(&moved, &new).report(),
        vec!["Changed:", "  lib3: 1.2 => 1.3"]
    );
}

#[test]
fn copy_of_a_difference_reports_the_same() {
    let new = set(&[("lib1", pip("==3.2.0")), ("lib3", pip("==1.2"))]);
    let old = set(&[("lib1", pip("==3.2.1")), ("lib4", pip("0.1"))]);
    let diff = Diff::compare_dependencies(&new, &old);
    let copy = diff.clone();
    assert_eq!(copy.report(), diff.report());
    assert_eq!(copy.changed.entries(), diff.changed.entries());
    assert_eq!(new.clone().entries(), new.entries());
}

#[test]
fn entries_take_a_new_version_by_their_form() {
    assert_eq!(PinForm::Text.rewrite(), Some(Rewrite::ReplaceEntry));
    assert_eq!(
        PinForm::Table { has_version: true }.rewrite(),
        Some(Rewrite::SetVersionKey)
    );
    assert_eq!(PinForm::Table { has_version: false }.rewrite(), None);
    assert_eq!(PinForm::Other.rewrite(), None);
}
