use worktree_manager::session::{Session, SessionTable};

fn path(p: &str) -> String {
    p.to_string()
}

fn sorted(mut paths: Vec<String>) -> Vec<String> {
    paths.sort();
    paths
}

#[test]
fn new_table_is_empty() {
    let table = SessionTable::new();
    assert_eq!(table.lookup(&path("/a")), None);
    assert_eq!(table.paths(), Vec::<String>::new());
    assert_eq!(table.sessions(), &Vec::<Session>::new());
}

#[test]
fn register_makes_a_session_found() {
    let mut table = SessionTable::new();
    table.register(path("/a"), 10);
    table.register(path("/b"), 20);
    assert_eq!(table.lookup(&path("/a")), Some(10));
    assert_eq!(table.lookup(&path("/b")), Some(20));
    assert_eq!(table.lookup(&path("/c")), None);
    assert_eq!(sorted(table.paths()), vec!["/a", "/b"]);
}

#[test]
fn register_forgets_the_session_before() {
    let mut table = SessionTable::new();
    table.register(path("/a"), 10);
    table.register(path("/b"), 20);
    table.register(path("/a"), 30);
    assert_eq!(table.lookup(&path("/a")), Some(30));
    assert_eq!(table.lookup(&path("/b")), Some(20));
    assert_eq!(table.paths().len(), 2);
    assert_eq!(table.sessions().len(), 2);
}

#[test]
fn forget_takes_one_session_out() {
    let mut table = SessionTable::new();
    table.register(path("/a"), 10);
    table.register(path("/b"), 20);
    table.register(path("/c"), 30);
    table.forget(&path("/b"));
    assert_eq!(table.lookup(&path("/a")), Some(10));
    assert_eq!(table.lookup(&path("/b")), None);
    assert_eq!(table.lookup(&path("/c")), Some(30));
    table.forget(&path("/b"));
    table.forget(&path("/zzz"));
    assert_eq!(sorted(table.paths()), vec!["/a", "/c"]);
}

#[test]
fn reap_takes_the_dead_out() {
    let mut table = SessionTable::new();
    for (i, p) in ["/a", "/b", "/c", "/d"].iter().enumerate() {
        table.register(path(p), i as u32);
    }
    table.reap(&vec![path("/d"), path("/a"), path("/nowhere"), path("/a")]);
    assert_eq!(sorted(table.paths()), vec!["/b", "/c"]);
    assert_eq!(table.lookup(&path("/b")), Some(1));
    table.reap(&Vec::new());
    assert_eq!(sorted(table.paths()), vec!["/b", "/c"]);
}

#[test]
fn a_session_is_listed_while_its_process_lives() {
    let mut table = SessionTable::new();
    table.register(path("/p"), 4711);
    table.register(path("/q"), 4712);
    assert_eq!(sorted(table.list(&Vec::new())), vec!["/p", "/q"]);
    assert_eq!(sorted(table.list(&vec![path("/q")])), vec!["/p"]);
    assert_eq!(table.lookup(&path("/p")), Some(4711));
}

#[test]
fn a_session_is_gone_after_one_sweep_that_finds_it_dead() {
    let mut table = SessionTable::new();
    table.register(path("/p"), 4711);
    assert_eq!(table.list(&vec![path("/p")]), Vec::<String>::new());
    assert_eq!(table.lookup(&path("/p")), None);
    assert_eq!(table.list(&Vec::new()), Vec::<String>::new());
}

#[test]
fn paths_differ_by_every_character() {
    let mut table = SessionTable::new();
    table.register(path("C:\\repo"), 1);
    table.register(path("C:\\repo\\"), 2);
    table.register(path("c:\\repo"), 3);
    assert_eq!(table.paths().len(), 3);
    assert_eq!(table.lookup(&path("C:\\repo")), Some(1));
    assert_eq!(table.lookup(&path("C:/repo")), None);
}
