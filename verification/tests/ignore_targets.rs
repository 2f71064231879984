use worktree_manager::ignore::IgnoreTargets;

fn names(content: &str) -> Vec<String> {
    IgnoreTargets::from_gitignore(content).names().clone()
}

fn has(targets: &IgnoreTargets, name: &str) -> bool {
    targets.contains(&name.to_string())
}

#[test]
fn plain_names_are_targets() {
    let targets = IgnoreTargets::from_gitignore("node_modules\n.env\ntarget\n");
    assert!(has(&targets, "node_modules"));
    assert!(has(&targets, ".env"));
    assert!(has(&targets, "target"));
    assert!(!has(&targets, "src"));
    assert_eq!(targets.len(), 3);
    assert!(!targets.is_empty());
}

#[test]
fn slashes_at_the_ends_are_dropped() {
    assert_eq!(names("/node_modules\nbuild/\n/dist/\n//x//\n"), vec!["node_modules", "build", "dist", "x"]);
}

#[test]
fn backslashes_count_as_slashes() {
    assert_eq!(names("\\node_modules\\\nout\\bin\n"), vec!["node_modules", "out/bin"]);
}

#[test]
fn comments_and_blank_lines_give_nothing() {
    assert_eq!(names("# build output\n\n   \n  # indented\ntarget\n"), vec!["target"]);
    assert!(IgnoreTargets::from_gitignore("# only\n\n").is_empty());
    assert!(IgnoreTargets::from_gitignore("").is_empty());
}

#[test]
fn whitespace_around_a_rule_does_not_count() {
    assert_eq!(names("  node_modules  \r\n\ttarget\t\n"), vec!["node_modules", "target"]);
    assert_eq!(names(" / build / "), vec![" build "]);
}

#[test]
fn a_rule_of_slashes_only_gives_nothing() {
    assert!(IgnoreTargets::from_gitignore("/\n//\n\\\n").is_empty());
}

#[test]
fn a_name_is_held_once() {
    let targets = IgnoreTargets::from_gitignore("target\n/target\ntarget/\n");
    assert_eq!(targets.len(), 1);
    assert_eq!(targets.names().clone(), vec!["target"]);
}

#[test]
fn wildcards_are_not_expanded() {
    let targets = IgnoreTargets::from_gitignore("*.log\nbuild/out\n");
    assert!(has(&targets, "*.log"));
    assert!(!has(&targets, "a.log"));
    assert!(has(&targets, "build/out"));
    assert!(!has(&targets, "out"));
}

#[test]
fn a_hash_inside_a_rule_is_no_comment() {
    assert_eq!(names("a#b\n"), vec!["a#b"]);
}

#[test]
fn insert_adds_a_name_once() {
    let mut targets = IgnoreTargets::new();
    assert!(targets.is_empty());
    assert_eq!(targets.len(), 0);
    targets.insert("a".to_string());
    targets.insert("b".to_string());
    targets.insert("a".to_string());
    assert_eq!(targets.len(), 2);
    assert!(has(&targets, "a"));
    assert!(has(&targets, "b"));
    assert!(!has(&targets, "c"));
}

#[test]
fn names_keep_the_order_in_which_the_file_first_gives_them() {
    assert_eq!(names("b\na\n/b/\nc\na\n"), vec!["b", "a", "c"]);
    let mut targets = IgnoreTargets::from_gitignore("z\ny\n");
    targets.insert("y".to_string());
    targets.insert("x".to_string());
    assert_eq!(targets.names().clone(), vec!["z", "y", "x"]);
}
