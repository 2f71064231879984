//! How one entry is linked: the order in which the ways of linking are tried,
//! the command that makes a directory junction, and the batch of commands that
//! wait for elevated rights.

use crate::planner::{LinkTask, TaskView};
use crate::text::{append_chars, chars_of, replace_range, replaced, texts};
use crate::tool::{CommandLine, CommandView};
use vstd::prelude::*;
use vstd::string::StringExecFns;

verus! {

/// A way of making an entry appear at its destination.
#[derive(Clone, Copy, Debug, PartialEq, Eq, Structural)]
pub enum LinkMethod {
    /// A directory junction.
    Junction,
    /// A symbolic link to a file.
    Symlink,
    /// A hard link to a file.
    HardLink,
    /// A copy of the file's bytes.
    Copy,
}

/// What to do next for an entry.
#[derive(Clone, Copy, Debug, PartialEq, Eq, Structural)]
pub enum Step {
    /// Try this way of linking.
    Attempt(LinkMethod),
    /// Leave the link to the elevated batch.
    Defer,
    /// Nothing more is to be done.
    Finished,
}

/// How the linking of one entry ended.
#[derive(Clone, Copy, Debug, PartialEq, Eq, Structural)]
pub enum Outcome {
    /// The destination was there before.
    Present,
    /// The entry was linked in this way.
    Linked(LinkMethod),
    /// The link waits for elevated rights.
    Deferred,
    /// Every way failed.
    Unlinked,
}

/// The first step for an entry: none where the destination is there, a
/// junction for a directory, a symbolic link for a file.
pub open spec fn first_step(is_directory: bool, dest_exists: bool) -> Step {
    if dest_exists {
        Step::Finished
    } else if is_directory {
        Step::Attempt(LinkMethod::Junction)
    } else {
        Step::Attempt(LinkMethod::Symlink)
    }
}

/// The step after an attempt. A success ends the matter. A junction that
/// failed is deferred. A file goes on from symbolic link to hard link to copy,
/// and a copy that failed is given up.
pub open spec fn next_step(method: LinkMethod, succeeded: bool) -> Step {
    if succeeded {
        Step::Finished
    } else {
        match method {
            LinkMethod::Junction => Step::Defer,
            LinkMethod::Symlink => Step::Attempt(LinkMethod::HardLink),
            LinkMethod::HardLink => Step::Attempt(LinkMethod::Copy),
            LinkMethod::Copy => Step::Finished,
        }
    }
}

/// How following the steps from `step` on ends, where `works` tells which
/// attempts succeed and `last` is the attempt made before `step`, if any.
pub open spec fn followed(
    step: Step,
    last: Option<LinkMethod>,
    works: spec_fn(LinkMethod) -> bool,
    fuel: nat,
) -> Outcome
    decreases fuel,
{
    match step {
        Step::Defer => Outcome::Deferred,
        Step::Finished => match last {
            None => Outcome::Present,
            Some(method) => if works(method) {
                Outcome::Linked(method)
            } else {
                Outcome::Unlinked
            },
        },
        Step::Attempt(method) => if fuel == 0 {
            Outcome::Unlinked
        } else {
            followed(next_step(method, works(method)), Some(method), works, (fuel - 1) as nat)
        },
    }
}

/// How the linking of an entry ends: a directory is joined by a junction or
/// deferred; a file is linked in the first way that works, of symbolic link,
/// hard link and copy.
pub open spec fn resolved(
    is_directory: bool,
    dest_exists: bool,
    works: spec_fn(LinkMethod) -> bool,
) -> Outcome {
    if dest_exists {
        Outcome::Present
    } else if is_directory {
        if works(LinkMethod::Junction) {
            Outcome::Linked(LinkMethod::Junction)
        } else {
            Outcome::Deferred
        }
    } else if works(LinkMethod::Symlink) {
        Outcome::Linked(LinkMethod::Symlink)
    } else if works(LinkMethod::HardLink) {
        Outcome::Linked(LinkMethod::HardLink)
    } else if works(LinkMethod::Copy) {
        Outcome::Linked(LinkMethod::Copy)
    } else {
        Outcome::Unlinked
    }
}

/// Following the steps one by one ends as `resolved` says. So a file is never
/// deferred, a directory is never copied, and a copy is tried only after both
/// kinds of link have failed.
pub proof fn lemma_steps_resolve(
    is_directory: bool,
    dest_exists: bool,
    works: spec_fn(LinkMethod) -> bool,
)
    ensures
        followed(first_step(is_directory, dest_exists), None, works, 3) == resolved(
            is_directory,
            dest_exists,
            works,
        ),
        !is_directory ==> resolved(is_directory, dest_exists, works) != Outcome::Deferred,
        is_directory ==> resolved(is_directory, dest_exists, works) != Outcome::Linked(
            LinkMethod::Copy,
        ),
{
    reveal_with_fuel(followed, 5);
}

/// The first step for a task, given whether its destination is there.
pub fn begin(task: &LinkTask, dest_exists: bool) -> (step: Step)
    ensures
        step == first_step(task@.is_directory, dest_exists),
{
    if dest_exists {
        Step::Finished
    } else if task.is_directory {
        Step::Attempt(LinkMethod::Junction)
    } else {
        Step::Attempt(LinkMethod::Symlink)
    }
}

/// The step after an attempt, given whether it succeeded.
pub fn proceed(method: LinkMethod, succeeded: bool) -> (step: Step)
    ensures
        step == next_step(method, succeeded),
{
    if succeeded {
        Step::Finished
    } else {
        match method {
            LinkMethod::Junction => Step::Defer,
            LinkMethod::Symlink => Step::Attempt(LinkMethod::HardLink),
            LinkMethod::HardLink => Step::Attempt(LinkMethod::Copy),
            LinkMethod::Copy => Step::Finished,
        }
    }
}

/// The shell command that joins a task's destination to its source by a
/// junction. Both paths are written with backslashes and in double quotes.
pub open spec fn junction_text(task: TaskView) -> Seq<char> {
    "mklink /J \""@ + replaced(task.dest_path, '/', '\\') + "\" \""@ + replaced(
        task.source_path,
        '/',
        '\\',
    ) + "\""@
}

/// The shell command that joins a task's destination to its source by a
/// junction.
pub fn junction_command(task: &LinkTask) -> (command: String)
    ensures
        command@ == junction_text(task@),
{
    let dest = chars_of(task.dest_path.as_str());
    let source = chars_of(task.source_path.as_str());
    let dest = replace_range(&dest, 0, dest.len(), '/', '\\');
    let source = replace_range(&source, 0, source.len(), '/', '\\');
    proof {
        assert(task.dest_path@.subrange(0, task.dest_path@.len() as int) =~= task.dest_path@);
        assert(task.source_path@.subrange(0, task.source_path@.len() as int)
            =~= task.source_path@);
        assert(dest@.subrange(0, dest@.len() as int) =~= dest@);
        assert(source@.subrange(0, source@.len() as int) =~= source@);
    }
    let mut command = String::from_str("mklink /J \"");
    append_chars(&mut command, &dest, 0, dest.len());
    command.append("\" \"");
    append_chars(&mut command, &source, 0, source.len());
    command.append("\"");
    command
}

/// The command line that runs a shell command through the command
/// interpreter.
pub fn shell_line(command: &str) -> (line: CommandLine)
    ensures
        line@ == (CommandView { program: "cmd"@, args: seq!["/C"@, command@], dir: None }),
{
    let mut args: Vec<String> = Vec::new();
    args.push(String::from_str("/C"));
    args.push(String::from_str(command));
    let line = CommandLine { program: String::from_str("cmd"), args, dir: None };
    proof {
        assert(texts(line.args@) =~= seq!["/C"@, command@]);
    }
    line
}

/// The lines of a script that run the commands `commands`, one line each.
pub open spec fn script_body(commands: Seq<Seq<char>>) -> Seq<char>
    decreases commands.len(),
{
    if commands.len() == 0 {
        Seq::empty()
    } else {
        script_body(commands.drop_last()) + ("cmd /c '"@ + commands.last() + "'\n"@)
    }
}

/// The script that runs the commands `commands`: a byte order mark, a line
/// that makes the first failure stop the script, the commands in order, and
/// two lines that wait for a key.
pub open spec fn script_text(commands: Seq<Seq<char>>) -> Seq<char> {
    "\u{FEFF}"@ + "$ErrorActionPreference = 'Stop'\n"@ + script_body(commands)
        + "Write-Host 'Press Key to exit...'\n"@
        + "$null = $Host.UI.RawUI.ReadKey('NoEcho,IncludeKeyDown')\n"@
}

/// The argument that makes the shell run the script at `script_path` with
/// elevated rights and wait for it.
pub open spec fn elevation_text(script_path: Seq<char>) -> Seq<char> {
    "Start-Process powershell -Verb RunAs -ArgumentList '-ExecutionPolicy Bypass -File \""@
        + script_path + "\"' -Wait"@
}

/// The link commands of one planning pass that wait for elevated rights, in
/// the order in which they were deferred.
#[derive(Debug)]
pub struct ElevatedBatch {
    commands: Vec<String>,
}

impl View for ElevatedBatch {
    type V = Seq<Seq<char>>;

    closed spec fn view(&self) -> Seq<Seq<char>> {
        texts(self.commands@)
    }
}

impl ElevatedBatch {
    /// The batch without a command.
    pub fn new() -> (batch: ElevatedBatch)
        ensures
            batch@ == Seq::<Seq<char>>::empty(),
    {
        let batch = ElevatedBatch { commands: Vec::new() };
        proof {
            assert(batch@ =~= Seq::<Seq<char>>::empty());
        }
        batch
    }

    /// Adds a command at the end.
    pub fn defer(&mut self, command: String)
        ensures
            final(self)@ == old(self)@.push(command@),
    {
        self.commands.push(command);
        proof {
            assert(self@ =~= old(self)@.push(command@));
        }
    }

    /// The number of commands.
    pub fn len(&self) -> (n: usize)
        ensures
            n == self@.len(),
    {
        self.commands.len()
    }

    /// Whether there is nothing to run, and so nothing to ask elevated rights
    /// for.
    pub fn is_empty(&self) -> (empty: bool)
        ensures
            empty == (self@.len() == 0),
    {
        self.commands.len() == 0
    }

    /// The name of the script's file in the directory for temporary files.
    pub fn script_name() -> (name: String)
        ensures
            name@ == "git_worktree_links.ps1"@,
    {
        String::from_str("git_worktree_links.ps1")
    }

    /// The script that runs the whole batch.
    pub fn script(&self) -> (text: String)
        ensures
            text@ == script_text(self@),
    {
        let mut text = String::from_str("\u{FEFF}");
        text.append("$ErrorActionPreference = 'Stop'\n");
        let ghost head = text@;
        let mut i: usize = 0;
        proof {
            assert(self@.take(0) =~= Seq::<Seq<char>>::empty());
        }
        while i < self.commands.len()
            invariant
                i <= self.commands.len(),
                head == "\u{FEFF}"@ + "$ErrorActionPreference = 'Stop'\n"@,
                text@ == head + script_body(self@.take(i as int)),
            decreases self.commands.len() - i,
        {
            let ghost before = text@;
            text.append("cmd /c '");
            text.append(self.commands[i].as_str());
            text.append("'\n");
            proof {
                let upto = self@.take(i + 1);
                assert(upto.drop_last() =~= self@.take(i as int));
                assert(upto.last() == self.commands@[i as int]@);
                assert(text@ =~= before + ("cmd /c '"@ + upto.last() + "'\n"@));
            }
            i += 1;
        }
        proof {
            assert(self@.take(self@.len() as int) =~= self@);
        }
        text.append("Write-Host 'Press Key to exit...'\n");
        text.append("$null = $Host.UI.RawUI.ReadKey('NoEcho,IncludeKeyDown')\n");
        text
    }

    /// The command line that runs the script at `script_path` with elevated
    /// rights and waits until it has ended.
    pub fn launch(script_path: &str) -> (line: CommandLine)
        ensures
            line@ == (CommandView {
                program: "powershell"@,
                args: seq!["-Command"@, elevation_text(script_path@)],
                dir: None,
            }),
    {
        let mut request = String::from_str(
            "Start-Process powershell -Verb RunAs -ArgumentList '-ExecutionPolicy Bypass -File \"",
        );
        request.append(script_path);
        request.append("\"' -Wait");
        let mut args: Vec<String> = Vec::new();
        args.push(String::from_str("-Command"));
        args.push(request);
        let line = CommandLine { program: String::from_str("powershell"), args, dir: None };
        proof {
            assert(texts(line.args@) =~= seq!["-Command"@, elevation_text(script_path@)]);
        }
        line
    }
}

} // verus!
