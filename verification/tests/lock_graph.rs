use lib::lock_graph::{
    format_dependency_source, merge_lock_entries, merge_lock_entries_for_update, reachable_lock_entries,
    reconcile_lock_entries, requires_lock, validate_lock_entries, validate_lock_entries_for_update,
    verify_locked_dependency_manifest, Dependency, EffectiveRoots, LockDependency, LockEntry,
};

fn git(name: &str, tag: &str) -> Dependency {
    Dependency {
        git: format!("https://example.com/{name}.git"),
        tag: tag.to_string(),
        rev: String::new(),
        branch: String::new(),
        path: String::new(),
    }
}

fn local(path: &str) -> Dependency {
    Dependency {
        git: String::new(),
        tag: String::new(),
        rev: String::new(),
        branch: String::new(),
        path: path.to_string(),
    }
}

fn edge(name: &str, tag: &str) -> LockDependency {
    LockDependency { name: name.to_string(), source: git(name, tag) }
}

fn entry(name: &str, tag: &str, commit_digit: char, dependencies: &[(&str, &str)]) -> LockEntry {
    LockEntry {
        name: name.to_string(),
        source: git(name, tag),
        commit: commit_digit.to_string().repeat(40),
        hash: format!("sha256:{}", commit_digit.to_string().repeat(64)),
        dependencies: dependencies.iter().map(|(name, tag)| edge(name, tag)).collect(),
    }
}

fn roots(git_roots: &[(&str, &str)], local_names: &[&str]) -> EffectiveRoots {
    EffectiveRoots {
        git: git_roots.iter().map(|(name, tag)| edge(name, tag)).collect(),
        local: local_names.iter().map(|name| name.to_string()).collect(),
    }
}

fn find<'a>(entries: &'a [LockEntry], name: &str) -> &'a LockEntry {
    entries.iter().find(|entry| entry.name == name).unwrap()
}

#[test]
fn reconciles_a_valid_transitive_diamond_without_dependency_caches() {
    let roots = roots(&[("left", "v1"), ("right", "v1")], &[]);
    let entries = vec![
        entry("left", "v1", '1', &[("shared", "v1")]),
        entry("right", "v1", '2', &[("shared", "v1")]),
        entry("shared", "v1", '3', &[]),
    ];
    reconcile_lock_entries(&roots, &entries).unwrap();
}

#[test]
fn rejects_missing_mismatched_cyclic_and_unreachable_nodes() {
    let root_roots = roots(&[("root", "v1")], &[]);

    let error = reconcile_lock_entries(&root_roots, &vec![]).unwrap_err();
    assert!(error.contains("missing package \"root\""), "{error}");

    let error = reconcile_lock_entries(&root_roots, &vec![entry("root", "v2", '1', &[])]).unwrap_err();
    assert!(error.contains("dependency graph requires"), "{error}");

    let branch_roots = EffectiveRoots {
        git: vec![LockDependency {
            name: "root".to_string(),
            source: Dependency {
                git: "https://example.com/root.git".to_string(),
                tag: String::new(),
                rev: String::new(),
                branch: "v1".to_string(),
                path: String::new(),
            },
        }],
        local: vec![],
    };
    let error = reconcile_lock_entries(&branch_roots, &vec![entry("root", "v1", '1', &[])]).unwrap_err();
    assert!(error.contains("branch \"v1\""), "{error}");
    assert!(error.contains("tag \"v1\""), "{error}");

    let error =
        reconcile_lock_entries(&root_roots, &vec![entry("root", "v1", '1', &[("missing", "v1")])]).unwrap_err();
    assert!(error.contains("missing package \"missing\""), "{error}");

    let error = reconcile_lock_entries(
        &root_roots,
        &vec![entry("root", "v1", '1', &[("child", "v1")]), entry("child", "v1", '2', &[("root", "v1")])],
    )
    .unwrap_err();
    assert!(error.contains("dependency cycle"), "{error}");

    let error = reconcile_lock_entries(
        &root_roots,
        &vec![entry("root", "v1", '1', &[]), entry("injected", "v1", '2', &[])],
    )
    .unwrap_err();
    assert!(error.contains("unreachable package entries"), "{error}");
    assert!(error.contains("injected"), "{error}");
}

#[test]
fn live_local_manifests_contribute_git_roots() {
    let roots = roots(&[("child", "v1")], &["local"]);
    assert!(requires_lock(&roots));
    reconcile_lock_entries(&roots, &vec![entry("child", "v1", '1', &[])]).unwrap();
    assert!(!requires_lock(&EffectiveRoots { git: vec![], local: vec!["local".to_string()] }));
}

#[test]
fn selected_dependency_manifest_must_match_recorded_edges() {
    let declared = vec![edge("child", "v1")];
    verify_locked_dependency_manifest("dep/yar.toml", &declared, &vec![edge("child", "v1")]).unwrap();
    let error = verify_locked_dependency_manifest("dep/yar.toml", &declared, &vec![edge("child", "v2")]).unwrap_err();
    assert!(error.contains("does not match"), "{error}");

    let declared = vec![LockDependency { name: "child".to_string(), source: local("../child") }];
    let error = verify_locked_dependency_manifest("dep/yar.toml", &declared, &vec![]).unwrap_err();
    assert!(error.contains("declares path dependency"), "{error}");
}

#[test]
fn selected_update_prunes_orphans_and_preserves_shared_nodes() {
    let roots = roots(&[("parent", "v1"), ("sibling", "v1")], &[]);
    let declared: Vec<LockDependency> =
        roots.git.iter().map(|d| LockDependency { name: d.name.clone(), source: clone_source(&d.source) }).collect();
    let existing = vec![
        entry("parent", "v1", '1', &[("old", "v1"), ("shared", "v1")]),
        entry("sibling", "v1", '2', &[("shared", "v1")]),
        entry("old", "v1", '3', &[]),
        entry("shared", "v1", '4', &[]),
    ];
    let replacement = vec![
        entry("parent", "v1", '5', &[("new", "v1"), ("shared", "v1")]),
        entry("new", "v1", '6', &[]),
        entry("shared", "v1", '7', &[]),
    ];

    let merged = merge_lock_entries_for_update(&roots, &declared, "parent", &existing, &replacement).unwrap();
    let names = merged.iter().map(|entry| entry.name.as_str()).collect::<Vec<_>>();
    assert_eq!(names, ["new", "parent", "shared", "sibling"]);
    assert_eq!(find(&merged, "sibling").commit, "2".repeat(40));
    assert_eq!(find(&merged, "shared").commit, "7".repeat(40));
}

fn clone_source(d: &Dependency) -> Dependency {
    Dependency {
        git: d.git.clone(),
        tag: d.tag.clone(),
        rev: d.rev.clone(),
        branch: d.branch.clone(),
        path: d.path.clone(),
    }
}

#[test]
fn selected_update_rejects_stale_unselected_roots_and_shared_conflicts() {
    let stale_roots = roots(&[("parent", "v1"), ("sibling", "v2")], &[]);
    let declared = vec![edge("parent", "v1"), edge("sibling", "v2")];
    let existing = vec![entry("parent", "v0", '1', &[]), entry("sibling", "v1", '2', &[])];
    let replacement = vec![entry("parent", "v1", '3', &[])];
    let error =
        merge_lock_entries_for_update(&stale_roots, &declared, "parent", &existing, &replacement).unwrap_err();
    assert!(error.contains("dependency graph requires"), "{error}");

    let roots = roots(&[("parent", "v1"), ("sibling", "v1")], &[]);
    let declared = vec![edge("parent", "v1"), edge("sibling", "v1")];
    let existing = vec![
        entry("parent", "v0", '1', &[]),
        entry("sibling", "v1", '2', &[("shared", "v1")]),
        entry("shared", "v1", '3', &[]),
    ];
    let replacement = vec![entry("parent", "v1", '4', &[("shared", "v2")]), entry("shared", "v2", '5', &[])];
    let error = merge_lock_entries_for_update(&roots, &declared, "parent", &existing, &replacement).unwrap_err();
    assert!(error.contains("dependency conflict for \"shared\""), "{error}");
}

#[test]
fn selected_update_can_replace_a_stale_git_alias_with_a_root_path_dependency() {
    let roots = roots(&[("parent", "v1")], &["old"]);
    let declared = vec![edge("parent", "v1"), LockDependency { name: "old".to_string(), source: local("local-old") }];
    let existing = vec![entry("parent", "v1", '1', &[("old", "v1")]), entry("old", "v1", '2', &[])];
    let replacement = vec![entry("parent", "v1", '3', &[])];

    validate_lock_entries_for_update(&roots, &declared, "parent", &existing).unwrap();
    let merged = merge_lock_entries_for_update(&roots, &declared, "parent", &existing, &replacement).unwrap();
    assert_eq!(merged.len(), 1);
    assert_eq!(merged[0].name, "parent");
    assert_eq!(merged[0].commit, "3".repeat(40));
}

#[test]
fn update_of_an_undeclared_or_path_alias_is_refused() {
    let roots = roots(&[("parent", "v1")], &["old"]);
    let declared = vec![edge("parent", "v1"), LockDependency { name: "old".to_string(), source: local("local-old") }];
    let error = merge_lock_entries_for_update(&roots, &declared, "nope", &vec![], &vec![]).unwrap_err();
    assert_eq!(error, "dependency \"nope\" is not declared in yar.toml");
    let error = validate_lock_entries_for_update(&roots, &declared, "old", &vec![]).unwrap_err();
    assert_eq!(
        error,
        "dependency \"old\" is a path dependency and has no independent locked revision; run 'yar lock'"
    );
}

#[test]
fn reachable_entries_come_in_name_order_and_cycles_name_their_path() {
    let roots = vec![edge("b", "v1")];
    let entries = vec![entry("b", "v1", '1', &[("a", "v1")]), entry("a", "v1", '2', &[]), entry("z", "v1", '3', &[])];
    let reachable = reachable_lock_entries(&roots, &entries).unwrap();
    let names = reachable.iter().map(|entry| entry.name.as_str()).collect::<Vec<_>>();
    assert_eq!(names, ["a", "b"]);

    let cyclic = vec![entry("b", "v1", '1', &[("a", "v1")]), entry("a", "v1", '2', &[("b", "v1")])];
    let error = reachable_lock_entries(&roots, &cyclic).unwrap_err();
    assert_eq!(error, "yar.lock: dependency cycle: b -> a -> b");
}

#[test]
fn duplicate_entries_and_edges_are_rejected() {
    let entries = vec![entry("a", "v1", '1', &[]), entry("a", "v2", '2', &[])];
    assert!(validate_lock_entries(&entries).unwrap_err().contains("duplicate package entry \"a\""));
    let entries = vec![entry("a", "v1", '1', &[("b", "v1"), ("b", "v1")])];
    assert!(validate_lock_entries(&entries).unwrap_err().contains("records dependency \"b\" twice"));
}

#[test]
fn merge_keeps_unreplaced_entries_and_reports_conflicts() {
    let preserved = vec![entry("a", "v1", '1', &[]), entry("b", "v1", '2', &[])];
    let merged = merge_lock_entries(&preserved, &vec![entry("b", "v1", '3', &[])]).unwrap();
    assert_eq!(merged.len(), 2);
    assert_eq!(find(&merged, "a").commit, "1".repeat(40));
    assert_eq!(find(&merged, "b").commit, "3".repeat(40));
    let error = merge_lock_entries(&preserved, &vec![entry("b", "v2", '3', &[])]).unwrap_err();
    assert_eq!(
        error,
        "dependency conflict for \"b\": selected update requires https://example.com/b.git tag \"v2\", but an unselected root requires https://example.com/b.git tag \"v1\""
    );
}

#[test]
fn sources_are_spelled_by_path_tag_revision_or_branch() {
    assert_eq!(format_dependency_source(&local("../x")), "path \"../x\"");
    assert_eq!(format_dependency_source(&git("x", "v1")), "https://example.com/x.git tag \"v1\"");
    let mut d = git("x", "");
    d.rev = "abc".to_string();
    assert_eq!(format_dependency_source(&d), "https://example.com/x.git rev \"abc\"");
    d.rev = String::new();
    d.branch = "main".to_string();
    assert_eq!(format_dependency_source(&d), "https://example.com/x.git branch \"main\"");
}
