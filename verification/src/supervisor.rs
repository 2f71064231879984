//! Supervising assistant sessions: the command lines that launch, probe,
//! focus and end a session's process, and what their runs mean for the table.
//!
//! Processes are handled through the shell of the Windows platform. On any
//! other platform a session cannot be launched or focused, and no process is
//! probed or ended.

use crate::assistant::{Assistant, AssistantView};
use crate::decimal::{append_decimal, decimal, format_number, number, parse_number};
use crate::failure::{Failure, FailureView};
use crate::paths::Platform;
use crate::session::SessionTable;
use crate::text::{append_chars, chars_of, strip_both, strip_range, texts, CharClass};
use crate::tool::{CommandLine, CommandView, RunView, ToolRun};
use vstd::prelude::*;
use vstd::string::StringExecFns;

verus! {

/// The command line that has the shell carry out `request`, with the further
/// flags `flags`.
pub open spec fn shell_request(flags: Seq<Seq<char>>, request: Seq<char>) -> CommandView {
    CommandView {
        program: "powershell"@,
        args: seq!["-ExecutionPolicy"@, "Bypass"@] + flags + seq!["-Command"@, request],
        dir: None,
    }
}

/// The command line that has the shell carry out `request`.
fn shell(no_profile: bool, request: String) -> (line: CommandLine)
    ensures
        line@ == shell_request(
            if no_profile {
                seq!["-NoProfile"@]
            } else {
                Seq::empty()
            },
            request@,
        ),
{
    let mut args: Vec<String> = Vec::new();
    args.push(String::from_str("-ExecutionPolicy"));
    args.push(String::from_str("Bypass"));
    if no_profile {
        args.push(String::from_str("-NoProfile"));
    }
    args.push(String::from_str("-Command"));
    let ghost text = request@;
    args.push(request);
    proof {
        if no_profile {
            assert(texts(args@) =~= seq!["-ExecutionPolicy"@, "Bypass"@] + seq!["-NoProfile"@]
                + seq!["-Command"@, text]);
        } else {
            assert(texts(args@) =~= seq!["-ExecutionPolicy"@, "Bypass"@] + Seq::<
                Seq<char>,
            >::empty() + seq!["-Command"@, text]);
        }
    }
    CommandLine { program: String::from_str("powershell"), args, dir: None }
}

/// The request that opens a new shell window in `workspace_path`, starts the
/// program `program` in it, and prints the identifier of the window's
/// process.
pub open spec fn launch_request(workspace_path: Seq<char>, program: Seq<char>) -> Seq<char> {
    "Start-Process powershell -ArgumentList '-NoExit', '-Command', \"Set-Location -LiteralPath '"@
        + workspace_path + "'; "@ + program
        + "\" -PassThru | Select-Object -ExpandProperty Id"@
}

/// The failure of a launch on a platform without support for sessions.
pub open spec fn unsupported_launch(name: Seq<char>) -> FailureView {
    FailureView::Spawn(name + " integration currently only supports Windows"@)
}

/// The command line that launches the assistant as a session of
/// `workspace_path`.
pub fn spawn_command(workspace_path: &str, assistant: &Assistant, platform: Platform) -> (result:
    Result<CommandLine, Failure>)
    ensures
        match result {
            Ok(line) => platform == Platform::Windows && line@ == shell_request(
                Seq::empty(),
                launch_request(workspace_path@, assistant@.program),
            ),
            Err(error) => platform != Platform::Windows && error@ == unsupported_launch(
                assistant@.name,
            ),
        },
{
    match platform {
        Platform::Windows => {
            let mut request = String::from_str(
                "Start-Process powershell -ArgumentList '-NoExit', '-Command', \"Set-Location -LiteralPath '",
            );
            request.append(workspace_path);
            request.append("'; ");
            request.append(assistant.program.as_str());
            request.append("\" -PassThru | Select-Object -ExpandProperty Id");
            Ok(shell(false, request))
        },
        Platform::Unix => {
            let mut text = assistant.name.clone();
            text.append(" integration currently only supports Windows");
            Err(Failure::Spawn(text))
        },
    }
}

/// What the launching command's run means: the identifier of the new process,
/// read from what the command printed with the whitespace around it dropped,
/// or why there is none.
pub open spec fn launched(run: RunView) -> Result<u32, FailureView> {
    match run {
        RunView::NotStarted(reason) => Err(FailureView::Spawn(reason)),
        RunView::Exited { success, stdout, stderr } => if !success {
            Err(FailureView::Spawn("Failed to spawn process: "@ + stderr))
        } else {
            let printed = strip_both(stdout, CharClass::Whitespace);
            match number(printed) {
                Some(process_id) => Ok(process_id),
                None => Err(FailureView::Spawn("Failed to parse PID from '"@ + printed + "'"@)),
            }
        },
    }
}

/// The identifier of the process that a launch started.
pub fn launched_process(run: &ToolRun) -> (result: Result<u32, Failure>)
    ensures
        match result {
            Ok(process_id) => launched(run@) == Ok::<u32, FailureView>(process_id),
            Err(error) => launched(run@) == Err::<u32, FailureView>(error@),
        },
{
    match run {
        ToolRun::NotStarted(reason) => Err(Failure::Spawn(reason.clone())),
        ToolRun::Exited(output) => {
            if !output.success {
                let mut text = String::from_str("Failed to spawn process: ");
                text.append(output.stderr.as_str());
                Err(Failure::Spawn(text))
            } else {
                let chars = chars_of(output.stdout.as_str());
                let (from, to) = strip_range(&chars, 0, chars.len(), CharClass::Whitespace);
                proof {
                    assert(chars@.subrange(0, chars@.len() as int) =~= chars@);
                }
                match parse_number(&chars, from, to) {
                    Some(process_id) => Ok(process_id),
                    None => {
                        let mut text = String::from_str("Failed to parse PID from '");
                        append_chars(&mut text, &chars, from, to);
                        text.append("'");
                        Err(Failure::Spawn(text))
                    },
                }
            }
        },
    }
}

/// Takes in the run of a launch for `workspace_path`: registers the new
/// process, in place of any session that the path had, or reports why there
/// is none and leaves the table as it was.
pub fn spawned(table: &mut SessionTable, workspace_path: &str, run: &ToolRun) -> (result: Result<
    (),
    Failure,
>)
    requires
        old(table).wf(),
    ensures
        final(table).wf(),
        match result {
            Ok(()) => launched(run@) matches Ok(process_id) && final(table)@ == old(
                table,
            )@.insert(workspace_path@, process_id),
            Err(error) => launched(run@) == Err::<u32, FailureView>(error@) && final(table)@ == old(
                table,
            )@,
        },
{
    match launched_process(run) {
        Ok(process_id) => {
            table.register(String::from_str(workspace_path), process_id);
            Ok(())
        },
        Err(error) => Err(error),
    }
}

/// The request that brings the window of a process to the front.
pub open spec fn focus_request(process_id: u32) -> Seq<char> {
    "(New-Object -ComObject WScript.Shell).AppActivate("@ + decimal(process_id as nat) + ")"@
}

/// The failure of a focus on a platform without support for sessions.
pub open spec fn unsupported_focus() -> FailureView {
    FailureView::Spawn("Not supported"@)
}

/// What is to be done to focus the session of `workspace_path`: a path
/// without a session is not found, whatever the platform.
pub open spec fn focus_plan(
    table: Map<Seq<char>, u32>,
    workspace_path: Seq<char>,
    assistant: AssistantView,
    platform: Platform,
) -> Result<CommandView, FailureView> {
    if !table.dom().contains(workspace_path) {
        Err(FailureView::NotFound { assistant: assistant.name })
    } else if platform != Platform::Windows {
        Err(unsupported_focus())
    } else {
        Ok(shell_request(Seq::empty(), focus_request(table[workspace_path])))
    }
}

/// The command line that brings the window of the session of
/// `workspace_path` to the front.
pub fn focus_command(
    table: &SessionTable,
    workspace_path: &str,
    assistant: &Assistant,
    platform: Platform,
) -> (result: Result<CommandLine, Failure>)
    requires
        table.wf(),
    ensures
        match result {
            Ok(line) => focus_plan(table@, workspace_path@, assistant@, platform) == Ok::<
                CommandView,
                FailureView,
            >(line@),
            Err(error) => focus_plan(table@, workspace_path@, assistant@, platform) == Err::<
                CommandView,
                FailureView,
            >(error@),
        },
{
    let path = String::from_str(workspace_path);
    match table.lookup(&path) {
        None => Err(Failure::NotFound { assistant: assistant.name.clone() }),
        Some(process_id) => match platform {
            Platform::Unix => Err(Failure::Spawn(String::from_str("Not supported"))),
            Platform::Windows => {
                let mut request = String::from_str(
                    "(New-Object -ComObject WScript.Shell).AppActivate(",
                );
                append_decimal(&mut request, process_id);
                request.append(")");
                Ok(shell(false, request))
            },
        },
    }
}

/// What the focusing command's run means. Only a shell that could not be
/// started is a failure: what the shell printed does not count, since it
/// reports a window that was in front already as not activated.
pub open spec fn focus_outcome(run: RunView) -> Result<(), FailureView> {
    match run {
        RunView::NotStarted(reason) => Err(FailureView::ExternalTool(reason)),
        RunView::Exited { success, stdout, stderr } => Ok(()),
    }
}

/// What the run of the focusing command means.
pub fn focused(run: &ToolRun) -> (result: Result<(), Failure>)
    ensures
        match result {
            Ok(()) => focus_outcome(run@) == Ok::<(), FailureView>(()),
            Err(error) => focus_outcome(run@) == Err::<(), FailureView>(error@),
        },
{
    match run {
        ToolRun::NotStarted(reason) => Err(Failure::ExternalTool(reason.clone())),
        ToolRun::Exited(_) => Ok(()),
    }
}

/// The request that asks the system for a process.
pub open spec fn probe_request(process_id: u32) -> Seq<char> {
    "Get-Process -Id "@ + decimal(process_id as nat) + " -ErrorAction SilentlyContinue"@
}

/// The command line that asks whether the process `process_id` lives. There is
/// none on a platform without support for sessions: a process counts as alive
/// there.
pub fn probe_command(process_id: u32, platform: Platform) -> (line: Option<CommandLine>)
    ensures
        match line {
            Some(line) => platform == Platform::Windows && line@ == shell_request(
                seq!["-NoProfile"@],
                probe_request(process_id),
            ),
            None => platform != Platform::Windows,
        },
{
    match platform {
        Platform::Unix => None,
        Platform::Windows => {
            let mut request = String::from_str("Get-Process -Id ");
            append_decimal(&mut request, process_id);
            request.append(" -ErrorAction SilentlyContinue");
            Some(shell(true, request))
        },
    }
}

/// Whether a probe found the process dead: the probe could not be started, or
/// it reported failure.
pub open spec fn found_dead(run: RunView) -> bool {
    match run {
        RunView::NotStarted(reason) => true,
        RunView::Exited { success, stdout, stderr } => !success,
    }
}

/// Whether a probe found the process dead.
pub fn has_ended(run: &ToolRun) -> (dead: bool)
    ensures
        dead == found_dead(run@),
{
    match run {
        ToolRun::NotStarted(_) => true,
        ToolRun::Exited(output) => !output.success,
    }
}

/// One probe of a sweep: the path of a session, and the run of the command
/// that asked for its process.
#[derive(Debug, PartialEq, Eq)]
pub struct Probe {
    /// The workspace of the session.
    pub workspace_path: String,
    /// What came of asking for its process.
    pub run: ToolRun,
}

/// The views of a list of probes.
pub open spec fn probe_views(probes: Seq<Probe>) -> Seq<(Seq<char>, RunView)> {
    probes.map_values(|p: Probe| (p.workspace_path@, p.run@))
}

/// The paths whose process a probe found dead.
pub open spec fn dead_among(probes: Seq<(Seq<char>, RunView)>) -> Set<Seq<char>> {
    Set::new(
        |path: Seq<char>|
            exists|i: int|
                0 <= i < probes.len() && (#[trigger] probes[i]).0 == path && found_dead(
                    probes[i].1,
                ),
    )
}

/// Sweeps the table with the probes of its sessions and lists it: a session
/// whose process a probe found dead is forgotten, every other session stays,
/// and the paths that stay are returned.
pub fn sweep(table: &mut SessionTable, probes: &Vec<Probe>) -> (paths: Vec<String>)
    requires
        old(table).wf(),
    ensures
        final(table).wf(),
        final(table)@ == old(table)@.remove_keys(dead_among(probe_views(probes@))),
        texts(paths@).no_duplicates(),
        texts(paths@).to_set() == final(table)@.dom(),
{
    let mut dead: Vec<String> = Vec::new();
    let mut i: usize = 0;
    proof {
        assert(texts(dead@).to_set() =~= dead_among(probe_views(probes@).take(0)));
    }
    while i < probes.len()
        invariant
            i <= probes.len(),
            texts(dead@).to_set() == dead_among(probe_views(probes@).take(i as int)),
        decreases probes.len() - i,
    {
        let ghost seen = probe_views(probes@).take(i as int);
        let ghost upto = probe_views(probes@).take(i + 1);
        let ghost before = texts(dead@);
        let ghost path = probes@[i as int].workspace_path@;
        let ghost ended = found_dead(probes@[i as int].run@);
        proof {
            assert(upto =~= seen.push((path, probes@[i as int].run@)));
            assert forall|p: Seq<char>| dead_among(upto).contains(p) <==> (dead_among(
                seen,
            ).contains(p) || (ended && p == path)) by {
                if dead_among(upto).contains(p) {
                    let k = choose|k: int|
                        0 <= k < upto.len() && (#[trigger] upto[k]).0 == p && found_dead(
                            upto[k].1,
                        );
                    if k < i {
                        assert(seen[k] == upto[k]);
                    }
                }
                if dead_among(seen).contains(p) {
                    let k = choose|k: int|
                        0 <= k < seen.len() && (#[trigger] seen[k]).0 == p && found_dead(
                            seen[k].1,
                        );
                    assert(upto[k] == seen[k]);
                }
                if ended && p == path {
                    assert(upto[i as int].0 == p);
                }
            }
        }
        if has_ended(&probes[i].run) {
            let copy = probes[i].workspace_path.clone();
            dead.push(copy);
            proof {
                assert(texts(dead@) =~= before.push(path));
                before.lemma_push_to_set_commute(path);
                assert(texts(dead@).to_set() =~= dead_among(upto));
            }
        } else {
            proof {
                assert(texts(dead@).to_set() =~= dead_among(upto));
            }
        }
        i += 1;
    }
    proof {
        assert(probe_views(probes@).take(probes@.len() as int) =~= probe_views(probes@));
    }
    table.list(&dead)
}

/// A session is listed while its process lives, and no longer. Once a launch
/// for `path` has succeeded, a sweep none of whose probes finds the process of
/// `path` dead leaves the path in the table, with the process that was
/// launched; the first sweep with a probe that finds it dead takes the path
/// out.
pub proof fn lemma_listed_while_alive(
    table: Map<Seq<char>, u32>,
    path: Seq<char>,
    launch: RunView,
    probes: Seq<(Seq<char>, RunView)>,
)
    requires
        launched(launch) is Ok,
    ensures
        ({
            let process_id = launched(launch)->Ok_0;
            let swept = table.insert(path, process_id).remove_keys(dead_among(probes));
            &&& (forall|i: int|
                0 <= i < probes.len() && (#[trigger] probes[i]).0 == path ==> !found_dead(
                    probes[i].1,
                )) ==> swept.dom().contains(path) && swept[path] == process_id
            &&& (exists|i: int|
                0 <= i < probes.len() && (#[trigger] probes[i]).0 == path && found_dead(
                    probes[i].1,
                )) ==> !swept.dom().contains(path)
        }),
{
}

/// What is to be done to end the session of a path.
#[derive(Debug, PartialEq, Eq)]
pub enum KillPlan {
    /// The path has no session: there is nothing to do.
    Nothing,
    /// The session is only to be forgotten.
    Forget,
    /// This command line is to be run; then the session is to be forgotten,
    /// whatever came of the run.
    Terminate(CommandLine),
}

/// The command line that ends a process together with the processes that it
/// started.
pub open spec fn terminate_line(process_id: u32) -> CommandView {
    CommandView {
        program: "taskkill"@,
        args: seq!["/F"@, "/T"@, "/PID"@, decimal(process_id as nat)],
        dir: None,
    }
}

/// What is to be done to end the session of `workspace_path`.
pub fn kill_command(table: &SessionTable, workspace_path: &str, platform: Platform) -> (plan:
    KillPlan)
    requires
        table.wf(),
    ensures
        match plan {
            KillPlan::Nothing => !table@.dom().contains(workspace_path@),
            KillPlan::Forget => table@.dom().contains(workspace_path@) && platform
                != Platform::Windows,
            KillPlan::Terminate(line) => table@.dom().contains(workspace_path@) && platform
                == Platform::Windows && line@ == terminate_line(table@[workspace_path@]),
        },
{
    let path = String::from_str(workspace_path);
    match table.lookup(&path) {
        None => KillPlan::Nothing,
        Some(process_id) => match platform {
            Platform::Unix => KillPlan::Forget,
            Platform::Windows => {
                let mut args: Vec<String> = Vec::new();
                args.push(String::from_str("/F"));
                args.push(String::from_str("/T"));
                args.push(String::from_str("/PID"));
                args.push(format_number(process_id));
                proof {
                    assert(texts(args@) =~= seq![
                        "/F"@,
                        "/T"@,
                        "/PID"@,
                        decimal(process_id as nat),
                    ]);
                }
                KillPlan::Terminate(
                    CommandLine { program: String::from_str("taskkill"), args, dir: None },
                )
            },
        },
    }
}

/// What the run of the ending command means, where there was one. Only a
/// command that could not be started is a failure: a process that was gone
/// already is as good as one that was ended.
pub open spec fn kill_outcome(run: Option<RunView>) -> Result<(), FailureView> {
    match run {
        Some(RunView::NotStarted(reason)) => Err(FailureView::ExternalTool(reason)),
        _ => Ok(()),
    }
}

/// Ends the tracking of the session of `workspace_path`, after the run of its
/// ending command where there was one. The session is forgotten whatever came
/// of the run.
pub fn killed(table: &mut SessionTable, workspace_path: &str, run: Option<&ToolRun>) -> (result:
    Result<(), Failure>)
    requires
        old(table).wf(),
    ensures
        final(table).wf(),
        final(table)@ == old(table)@.remove(workspace_path@),
        match result {
            Ok(()) => kill_outcome(
                match run {
                    Some(run) => Some(run@),
                    None => None,
                },
            ) == Ok::<(), FailureView>(()),
            Err(error) => kill_outcome(
                match run {
                    Some(run) => Some(run@),
                    None => None,
                },
            ) == Err::<(), FailureView>(error@),
        },
{
    let path = String::from_str(workspace_path);
    table.forget(&path);
    match run {
        Some(ToolRun::NotStarted(reason)) => Err(Failure::ExternalTool(reason.clone())),
        _ => Ok(()),
    }
}

} // verus!
