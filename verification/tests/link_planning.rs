use worktree_manager::paths::{lies_below, path_below, Platform};
use worktree_manager::planner::{holds_text, LinkPlanner, LinkTask, SourceEntry, Visit};

fn rel(path: &str) -> Vec<String> {
    path.split('/').filter(|c| !c.is_empty()).map(|c| c.to_string()).collect()
}

fn dir(path: &str) -> SourceEntry {
    SourceEntry { relative: rel(path), is_dir: true }
}

fn file(path: &str) -> SourceEntry {
    SourceEntry { relative: rel(path), is_dir: false }
}

fn task(path: &str, source: &str, dest: &str, is_directory: bool) -> LinkTask {
    LinkTask {
        relative: rel(path),
        source_path: source.to_string(),
        dest_path: dest.to_string(),
        is_directory,
    }
}

fn planner(gitignore: &str) -> LinkPlanner {
    LinkPlanner::new("/repo", "/repo-feature", Some(gitignore), Platform::Unix).unwrap()
}

#[test]
fn path_below_joins_with_the_separator() {
    assert_eq!(path_below("/repo", &rel("src/node_modules"), Platform::Unix), "/repo/src/node_modules");
    assert_eq!(path_below("C:\\repo", &rel("src/node_modules"), Platform::Windows), "C:\\repo\\src\\node_modules");
    assert_eq!(path_below("/repo", &rel(""), Platform::Unix), "/repo");
}

#[test]
fn path_below_writes_no_second_separator() {
    assert_eq!(path_below("/repo/", &rel("a"), Platform::Unix), "/repo/a");
    assert_eq!(path_below("/", &rel("a/b"), Platform::Unix), "/a/b");
    assert_eq!(path_below("C:\\repo\\", &rel("a"), Platform::Windows), "C:\\repo\\a");
    assert_eq!(path_below("C:/repo/", &rel("a"), Platform::Windows), "C:/repo/a");
    assert_eq!(path_below("C:/repo", &rel("a"), Platform::Windows), "C:/repo\\a");
    assert_eq!(path_below("dir\\", &rel("a"), Platform::Unix), "dir\\/a");
    assert_eq!(path_below("", &rel("a/b"), Platform::Unix), "a/b");
}

#[test]
fn lies_below_means_a_shorter_beginning() {
    assert!(lies_below(&rel("a/b/c"), &rel("a/b")));
    assert!(lies_below(&rel("a/b/c"), &rel("a")));
    assert!(lies_below(&rel("a"), &rel("")));
    assert!(!lies_below(&rel("a/b"), &rel("a/b")));
    assert!(!lies_below(&rel("a"), &rel("a/b")));
    assert!(!lies_below(&rel("a/bc"), &rel("a/b")));
    assert!(!lies_below(&rel("x/b/c"), &rel("a/b")));
}

#[test]
fn holds_text_finds_a_member() {
    let list = vec!["/a".to_string(), "/b".to_string()];
    assert!(holds_text(&list, &"/b".to_string()));
    assert!(!holds_text(&list, &"/c".to_string()));
    assert!(!holds_text(&Vec::new(), &"/a".to_string()));
}

#[test]
fn no_planner_without_targets() {
    assert!(LinkPlanner::new("/repo", "/w", None, Platform::Unix).is_none());
    assert!(LinkPlanner::new("/repo", "/w", Some(""), Platform::Unix).is_none());
    assert!(LinkPlanner::new("/repo", "/w", Some("# nothing\n\n"), Platform::Unix).is_none());
    assert!(LinkPlanner::new("/repo", "/w", Some("target\n"), Platform::Unix).is_some());
}

#[test]
fn visit_answers_by_name() {
    let mut p = planner("node_modules\n.env\n");
    assert_eq!(p.visit(&dir("src")), Visit::Descend);
    assert_eq!(p.visit(&file("src/main.go")), Visit::Descend);
    assert_eq!(p.visit(&dir(".git")), Visit::Prune);
    assert_eq!(
        p.visit(&file(".env")),
        Visit::Candidate(task(".env", "/repo/.env", "/repo-feature/.env", false))
    );
    assert_eq!(
        p.visit(&dir("src/node_modules")),
        Visit::Candidate(task(
            "src/node_modules",
            "/repo/src/node_modules",
            "/repo-feature/src/node_modules",
            true
        ))
    );
    assert_eq!(p.visit(&SourceEntry { relative: Vec::new(), is_dir: true }), Visit::Descend);
}

#[test]
fn visit_skips_what_lies_below_a_pruned_directory() {
    let mut p = planner("node_modules\n");
    assert!(matches!(p.visit(&dir("node_modules")), Visit::Candidate(_)));
    assert_eq!(p.visit(&dir("node_modules/pkg")), Visit::Skip);
    assert_eq!(p.visit(&dir("node_modules/pkg/node_modules")), Visit::Skip);
    assert_eq!(p.visit(&dir(".git")), Visit::Prune);
    assert_eq!(p.visit(&file(".git/config")), Visit::Skip);
    assert_eq!(p.visit(&dir(".git/node_modules")), Visit::Skip);
    assert_eq!(p.visit(&dir("node_modules2")), Visit::Descend);
}

#[test]
fn a_file_does_not_prune() {
    let mut p = planner("cache\n");
    assert!(matches!(p.visit(&file("cache")), Visit::Candidate(_)));
    assert!(matches!(p.visit(&dir("cache/cache")), Visit::Candidate(_)));
    assert_eq!(p.visit(&file(".git")), Visit::Prune);
    assert!(matches!(p.visit(&file(".git/cache")), Visit::Candidate(_)));
}

fn source_tree() -> Vec<SourceEntry> {
    vec![
        file(".gitignore"),
        dir(".git"),
        file(".git/HEAD"),
        dir("node_modules"),
        dir("node_modules/left-pad"),
        file("node_modules/left-pad/index.js"),
        dir("node_modules/left-pad/node_modules"),
        dir("src"),
        file("src/main.go"),
        dir("src/node_modules"),
        file("src/node_modules/x.js"),
    ]
}

#[test]
fn ignored_directories_are_linked_at_matching_paths() {
    let mut p = planner("node_modules\n");
    let tasks = p.plan(&source_tree(), &Vec::new());
    assert_eq!(
        tasks,
        vec![
            task("node_modules", "/repo/node_modules", "/repo-feature/node_modules", true),
            task(
                "src/node_modules",
                "/repo/src/node_modules",
                "/repo-feature/src/node_modules",
                true
            ),
        ]
    );
}

#[test]
fn second_pass_emits_nothing() {
    let entries = source_tree();
    let first = planner("node_modules\n").plan(&entries, &Vec::new());
    assert_eq!(first.len(), 2);
    let there: Vec<String> = first.iter().map(|t| t.dest_path.clone()).collect();
    let second = planner("node_modules\n").plan(&entries, &there);
    assert_eq!(second, Vec::<LinkTask>::new());
}

#[test]
fn existing_destinations_are_left_alone() {
    let there = vec!["/repo-feature/node_modules".to_string()];
    let tasks = planner("node_modules\n").plan(&source_tree(), &there);
    assert_eq!(
        tasks,
        vec![task(
            "src/node_modules",
            "/repo/src/node_modules",
            "/repo-feature/src/node_modules",
            true
        )]
    );
}

#[test]
fn nothing_is_linked_below_a_linked_directory() {
    let entries = vec![
        dir("a"),
        dir("a/target"),
        dir("a/target/target"),
        file("a/target/target/target"),
        dir("target"),
        file("target/.env"),
        file(".env"),
    ];
    let tasks = planner("target\n.env\n").plan(&entries, &Vec::new());
    let linked: Vec<Vec<String>> = tasks.iter().map(|t| t.relative.clone()).collect();
    assert_eq!(linked, vec![rel("a/target"), rel("target"), rel(".env")]);
    for (i, earlier) in tasks.iter().enumerate() {
        for later in &tasks[i + 1..] {
            assert!(!(earlier.is_directory && lies_below(&later.relative, &earlier.relative)));
        }
    }
}

#[test]
fn a_linked_directory_is_pruned_though_its_destination_is_there() {
    let entries = vec![dir("target"), dir("target/target")];
    let there = vec!["/repo-feature/target".to_string()];
    assert_eq!(planner("target\n").plan(&entries, &there), Vec::<LinkTask>::new());
}

#[test]
fn plan_on_windows_paths() {
    let mut p =
        LinkPlanner::new("C:\\repo", "C:\\repo-x", Some("node_modules\r\n"), Platform::Windows).unwrap();
    let tasks = p.plan(&vec![dir("web"), dir("web/node_modules")], &Vec::new());
    assert_eq!(
        tasks,
        vec![task(
            "web/node_modules",
            "C:\\repo\\web\\node_modules",
            "C:\\repo-x\\web\\node_modules",
            true
        )]
    );
}
