use worktree_manager::assistant::Assistant;
use worktree_manager::failure::Failure;
use worktree_manager::paths::Platform;
use worktree_manager::session::SessionTable;
use worktree_manager::supervisor::{
    focus_command, focused, has_ended, kill_command, killed, launched_process, probe_command,
    spawn_command, spawned, sweep, KillPlan, Probe,
};
use worktree_manager::tool::{CommandLine, ToolOutput, ToolRun};

fn exited(success: bool, stdout: &str, stderr: &str) -> ToolRun {
    ToolRun::Exited(ToolOutput { success, stdout: stdout.to_string(), stderr: stderr.to_string() })
}

fn not_started(reason: &str) -> ToolRun {
    ToolRun::NotStarted(reason.to_string())
}

fn shell(flags: &[&str], request: &str) -> CommandLine {
    let mut args = vec!["-ExecutionPolicy".to_string(), "Bypass".to_string()];
    args.extend(flags.iter().map(|f| f.to_string()));
    args.push("-Command".to_string());
    args.push(request.to_string());
    CommandLine { program: "powershell".to_string(), args, dir: None }
}

fn helper() -> Assistant {
    Assistant { program: "helper".to_string(), name: "Helper".to_string() }
}

fn not_found() -> Failure {
    Failure::NotFound { assistant: "Helper".to_string() }
}

fn table_with(path: &str, process_id: u32) -> SessionTable {
    let mut table = SessionTable::new();
    table.register(path.to_string(), process_id);
    table
}

#[test]
fn spawn_command_opens_a_window_in_the_workspace() {
    assert_eq!(
        spawn_command("C:\\repo-x", &helper(), Platform::Windows),
        Ok(shell(
            &[],
            "Start-Process powershell -ArgumentList '-NoExit', '-Command', \"Set-Location -LiteralPath 'C:\\repo-x'; helper\" -PassThru | Select-Object -ExpandProperty Id"
        ))
    );
}

#[test]
fn spawn_command_needs_windows() {
    assert_eq!(
        spawn_command("/repo-x", &helper(), Platform::Unix),
        Err(Failure::Spawn("Helper integration currently only supports Windows".to_string()))
    );
}

#[test]
fn launched_process_reads_the_identifier() {
    assert_eq!(launched_process(&exited(true, "4711\r\n", "")), Ok(4711));
    assert_eq!(launched_process(&exited(true, "  12  ", "noise")), Ok(12));
    assert_eq!(launched_process(&exited(true, "+8", "")), Ok(8));
}

#[test]
fn launched_process_reports_an_identifier_it_cannot_read() {
    assert_eq!(
        launched_process(&exited(true, " abc \n", "")),
        Err(Failure::Spawn("Failed to parse PID from 'abc'".to_string()))
    );
    assert_eq!(
        launched_process(&exited(true, "", "")),
        Err(Failure::Spawn("Failed to parse PID from ''".to_string()))
    );
    assert_eq!(
        launched_process(&exited(true, "12 13", "")),
        Err(Failure::Spawn("Failed to parse PID from '12 13'".to_string()))
    );
    assert_eq!(
        launched_process(&exited(true, "4294967296", "")),
        Err(Failure::Spawn("Failed to parse PID from '4294967296'".to_string()))
    );
}

#[test]
fn launched_process_reports_a_failed_launch() {
    assert_eq!(
        launched_process(&exited(false, "4711", "access denied")),
        Err(Failure::Spawn("Failed to spawn process: access denied".to_string()))
    );
    assert_eq!(
        launched_process(&not_started("program not found")),
        Err(Failure::Spawn("program not found".to_string()))
    );
}

#[test]
fn spawned_registers_the_new_process() {
    let mut table = SessionTable::new();
    assert_eq!(spawned(&mut table, "/p", &exited(true, "4711\n", "")), Ok(()));
    assert_eq!(table.lookup(&"/p".to_string()), Some(4711));
    assert_eq!(table.list(&Vec::new()), vec!["/p"]);
}

#[test]
fn spawned_overwrites_the_session_before() {
    let mut table = table_with("/p", 1);
    assert_eq!(spawned(&mut table, "/p", &exited(true, "2", "")), Ok(()));
    assert_eq!(table.lookup(&"/p".to_string()), Some(2));
    assert_eq!(table.paths().len(), 1);
}

#[test]
fn spawned_leaves_the_table_on_failure() {
    let mut table = table_with("/p", 1);
    assert_eq!(
        spawned(&mut table, "/p", &exited(true, "none", "")),
        Err(Failure::Spawn("Failed to parse PID from 'none'".to_string()))
    );
    assert_eq!(
        spawned(&mut table, "/q", &exited(false, "", "boom")),
        Err(Failure::Spawn("Failed to spawn process: boom".to_string()))
    );
    assert_eq!(table.lookup(&"/p".to_string()), Some(1));
    assert_eq!(table.lookup(&"/q".to_string()), None);
}

#[test]
fn focus_command_activates_the_window() {
    let table = table_with("/p", 4711);
    assert_eq!(
        focus_command(&table, "/p", &helper(), Platform::Windows),
        Ok(shell(&[], "(New-Object -ComObject WScript.Shell).AppActivate(4711)"))
    );
}

#[test]
fn focus_command_does_not_find_an_unknown_path() {
    let table = table_with("/p", 4711);
    assert_eq!(focus_command(&table, "/q", &helper(), Platform::Windows), Err(not_found()));
    assert_eq!(focus_command(&table, "/q", &helper(), Platform::Unix), Err(not_found()));
    assert_eq!(not_found().message(), "No active Helper session found for this path");
}

#[test]
fn focus_command_needs_windows() {
    let table = table_with("/p", 4711);
    assert_eq!(
        focus_command(&table, "/p", &helper(), Platform::Unix),
        Err(Failure::Spawn("Not supported".to_string()))
    );
}

#[test]
fn focus_that_was_not_activated_is_a_success() {
    assert_eq!(focused(&exited(true, "False\r\n", "")), Ok(()));
    assert_eq!(focused(&exited(true, "True\r\n", "")), Ok(()));
    assert_eq!(focused(&exited(false, "", "error")), Ok(()));
    assert_eq!(focused(&not_started("gone")), Err(Failure::ExternalTool("gone".to_string())));
}

#[test]
fn probe_command_asks_for_the_process() {
    assert_eq!(
        probe_command(4711, Platform::Windows),
        Some(shell(&["-NoProfile"], "Get-Process -Id 4711 -ErrorAction SilentlyContinue"))
    );
    assert_eq!(probe_command(4711, Platform::Unix), None);
}

#[test]
fn a_probe_that_fails_finds_the_process_dead() {
    assert!(!has_ended(&exited(true, "", "")));
    assert!(has_ended(&exited(false, "", "")));
    assert!(has_ended(&not_started("gone")));
}

#[test]
fn kill_command_ends_the_process_tree() {
    let table = table_with("/p", 4711);
    assert_eq!(
        kill_command(&table, "/p", Platform::Windows),
        KillPlan::Terminate(CommandLine {
            program: "taskkill".to_string(),
            args: vec!["/F".to_string(), "/T".to_string(), "/PID".to_string(), "4711".to_string()],
            dir: None,
        })
    );
    assert_eq!(kill_command(&table, "/p", Platform::Unix), KillPlan::Forget);
    assert_eq!(kill_command(&table, "/q", Platform::Windows), KillPlan::Nothing);
}

#[test]
fn killed_forgets_the_session_whatever_came_of_the_run() {
    let mut table = table_with("/p", 1);
    assert_eq!(killed(&mut table, "/p", Some(&exited(false, "", "not found"))), Ok(()));
    assert_eq!(table.lookup(&"/p".to_string()), None);

    let mut table = table_with("/p", 1);
    assert_eq!(killed(&mut table, "/p", Some(&exited(true, "", ""))), Ok(()));
    assert_eq!(table.lookup(&"/p".to_string()), None);

    let mut table = table_with("/p", 1);
    assert_eq!(killed(&mut table, "/p", None), Ok(()));
    assert_eq!(table.lookup(&"/p".to_string()), None);

    let mut table = table_with("/p", 1);
    assert_eq!(
        killed(&mut table, "/p", Some(&not_started("no taskkill"))),
        Err(Failure::ExternalTool("no taskkill".to_string()))
    );
    assert_eq!(table.lookup(&"/p".to_string()), None);
}

#[test]
fn killing_twice_is_harmless() {
    let mut table = table_with("/p", 1);
    assert_eq!(killed(&mut table, "/p", None), Ok(()));
    assert_eq!(kill_command(&table, "/p", Platform::Windows), KillPlan::Nothing);
    assert_eq!(killed(&mut table, "/p", None), Ok(()));
    assert_eq!(table.paths(), Vec::<String>::new());
}

fn probe(path: &str, run: ToolRun) -> Probe {
    Probe { workspace_path: path.to_string(), run }
}

#[test]
fn a_sweep_forgets_the_sessions_found_dead() {
    let mut table = SessionTable::new();
    for (i, path) in ["/a", "/b", "/c", "/d"].iter().enumerate() {
        table.register(path.to_string(), 100 + i as u32);
    }
    let probes = vec![
        probe("/a", exited(true, "", "")),
        probe("/b", exited(false, "", "")),
        probe("/c", not_started("no shell")),
    ];
    let mut listed = sweep(&mut table, &probes);
    listed.sort();
    assert_eq!(listed, vec!["/a", "/d"]);
    assert_eq!(table.lookup(&"/a".to_string()), Some(100));
    assert_eq!(table.lookup(&"/b".to_string()), None);
    assert_eq!(table.lookup(&"/c".to_string()), None);
    assert_eq!(table.lookup(&"/d".to_string()), Some(103));
}

#[test]
fn a_launched_session_is_listed_until_a_probe_finds_it_dead() {
    let mut table = SessionTable::new();
    assert_eq!(spawned(&mut table, "/p", &exited(true, "4711\n", "")), Ok(()));
    assert_eq!(sweep(&mut table, &vec![probe("/p", exited(true, "", ""))]), vec!["/p"]);
    assert_eq!(sweep(&mut table, &Vec::new()), vec!["/p"]);
    assert_eq!(sweep(&mut table, &vec![probe("/q", exited(false, "", ""))]), vec!["/p"]);
    assert_eq!(
        sweep(&mut table, &vec![probe("/p", exited(false, "", ""))]),
        Vec::<String>::new()
    );
    assert_eq!(sweep(&mut table, &Vec::new()), Vec::<String>::new());
}

#[test]
fn one_dead_probe_among_several_is_enough() {
    let mut table = table_with("/p", 1);
    let probes = vec![probe("/p", exited(true, "", "")), probe("/p", exited(false, "", ""))];
    assert_eq!(sweep(&mut table, &probes), Vec::<String>::new());
}

#[test]
fn focusing_in_an_empty_table_finds_nothing_and_makes_no_command() {
    let table = SessionTable::new();
    for platform in [Platform::Windows, Platform::Unix] {
        assert_eq!(focus_command(&table, "/repo-feature", &helper(), platform), Err(not_found()));
    }
    assert_eq!(table.paths(), Vec::<String>::new());
}
