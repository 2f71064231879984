//! The link planner: which entries of a source tree are linked into a new
//! worktree, and which directories are not walked into.
//!
//! The planner is fed the entries of a walk one by one and answers what to do
//! with each. It never touches the file system: whoever walks the tree
//! performs the answers.

use crate::ignore::{target_names, IgnoreTargets};
use crate::paths::{is_below, lies_below, path_below, path_under, Platform};
use crate::text::{clone_strings, texts};
use vstd::prelude::*;
use vstd::string::StringExecFns;

verus! {

/// One entry met on a walk of the source tree.
#[derive(Debug)]
pub struct SourceEntry {
    /// The components of the entry's path below the source root; the last one
    /// is the entry's name.
    pub relative: Vec<String>,
    /// Whether the entry is a directory.
    pub is_dir: bool,
}

/// What a `SourceEntry` holds, as plain values.
pub struct EntryView {
    pub relative: Seq<Seq<char>>,
    pub is_dir: bool,
}

impl View for SourceEntry {
    type V = EntryView;

    open spec fn view(&self) -> EntryView {
        EntryView { relative: texts(self.relative@), is_dir: self.is_dir }
    }
}

/// An entry to be linked into the new worktree.
#[derive(Debug, PartialEq, Eq)]
pub struct LinkTask {
    /// The components of the entry's path below either root.
    pub relative: Vec<String>,
    /// The entry in the source tree.
    pub source_path: String,
    /// Where the link is to stand in the new worktree.
    pub dest_path: String,
    /// Whether the entry is a directory.
    pub is_directory: bool,
}

/// What a `LinkTask` holds, as plain values.
pub struct TaskView {
    pub relative: Seq<Seq<char>>,
    pub source_path: Seq<char>,
    pub dest_path: Seq<char>,
    pub is_directory: bool,
}

impl View for LinkTask {
    type V = TaskView;

    open spec fn view(&self) -> TaskView {
        TaskView {
            relative: texts(self.relative@),
            source_path: self.source_path@,
            dest_path: self.dest_path@,
            is_directory: self.is_directory,
        }
    }
}

/// The planner's answer to one entry.
#[derive(Debug, PartialEq, Eq)]
pub enum Visit {
    /// The entry lies below a directory that was not to be walked into:
    /// nothing is done with it, and it is not walked into.
    Skip,
    /// Nothing is done with the entry; a directory is walked into.
    Descend,
    /// The entry is not linked, and not walked into.
    Prune,
    /// The entry is a link target. It is linked unless its destination is
    /// there already; a directory is not walked into either way.
    Candidate(LinkTask),
}

/// The four kinds of answer.
pub enum Verdict {
    Skip,
    Descend,
    Prune,
    Candidate,
}

/// What a planner is set up with.
pub struct Layout {
    /// The names of the link targets.
    pub targets: Set<Seq<char>>,
    /// The root of the source tree.
    pub source_root: Seq<char>,
    /// The root of the new worktree.
    pub dest_root: Seq<char>,
    /// The path syntax in use.
    pub platform: Platform,
}

/// The views of a list of relative paths.
pub open spec fn path_views(paths: Seq<Vec<String>>) -> Seq<Seq<Seq<char>>> {
    paths.map_values(|p: Vec<String>| texts(p@))
}

/// The views of a list of entries.
pub open spec fn entry_views(entries: Seq<SourceEntry>) -> Seq<EntryView> {
    entries.map_values(|e: SourceEntry| e@)
}

/// The views of a list of tasks.
pub open spec fn task_views(tasks: Seq<LinkTask>) -> Seq<TaskView> {
    tasks.map_values(|t: LinkTask| t@)
}

/// Whether `relative` lies below one of the directories `pruned`.
pub open spec fn under_pruned(pruned: Seq<Seq<Seq<char>>>, relative: Seq<Seq<char>>) -> bool {
    exists|i: int| 0 <= i < pruned.len() && is_below(relative, #[trigger] pruned[i])
}

/// The answer to an entry at `relative`, given the target names and the
/// directories that were not to be walked into. The root itself, with no
/// component, is walked into. An entry below a pruned directory is skipped.
/// The control directory `.git` is pruned. An entry whose name is a target is
/// a candidate. Anything else is passed over.
pub open spec fn verdict(
    targets: Set<Seq<char>>,
    pruned: Seq<Seq<Seq<char>>>,
    relative: Seq<Seq<char>>,
) -> Verdict {
    if relative.len() == 0 {
        Verdict::Descend
    } else if under_pruned(pruned, relative) {
        Verdict::Skip
    } else if relative.last() == ".git"@ {
        Verdict::Prune
    } else if targets.contains(relative.last()) {
        Verdict::Candidate
    } else {
        Verdict::Descend
    }
}

/// The directories not to be walked into, after an entry: a directory that is
/// pruned or a candidate joins them.
pub open spec fn pruned_after(
    targets: Set<Seq<char>>,
    pruned: Seq<Seq<Seq<char>>>,
    entry: EntryView,
) -> Seq<Seq<Seq<char>>> {
    match verdict(targets, pruned, entry.relative) {
        Verdict::Prune | Verdict::Candidate => if entry.is_dir {
            pruned.push(entry.relative)
        } else {
            pruned
        },
        _ => pruned,
    }
}

/// The task of linking `entry`: it stands in the new worktree at the relative
/// path that it has in the source tree.
pub open spec fn task_for(layout: Layout, entry: EntryView) -> TaskView {
    TaskView {
        relative: entry.relative,
        source_path: path_under(layout.source_root, entry.relative, layout.platform),
        dest_path: path_under(layout.dest_root, entry.relative, layout.platform),
        is_directory: entry.is_dir,
    }
}

/// The tasks that a pass over `entries` emits, in order, where the
/// destinations `existing` are there already: one for each candidate whose
/// destination is not.
pub open spec fn planned(
    layout: Layout,
    pruned: Seq<Seq<Seq<char>>>,
    existing: Set<Seq<char>>,
    entries: Seq<EntryView>,
) -> Seq<TaskView>
    decreases entries.len(),
{
    if entries.len() == 0 {
        Seq::empty()
    } else {
        let entry = entries[0];
        let rest = planned(
            layout,
            pruned_after(layout.targets, pruned, entry),
            existing,
            entries.drop_first(),
        );
        if verdict(layout.targets, pruned, entry.relative) == Verdict::Candidate
            && !existing.contains(task_for(layout, entry).dest_path) {
            seq![task_for(layout, entry)] + rest
        } else {
            rest
        }
    }
}

/// The directories not to be walked into, after a pass over `entries`.
pub open spec fn pruned_through(
    targets: Set<Seq<char>>,
    pruned: Seq<Seq<Seq<char>>>,
    entries: Seq<EntryView>,
) -> Seq<Seq<Seq<char>>>
    decreases entries.len(),
{
    if entries.len() == 0 {
        pruned
    } else {
        pruned_through(targets, pruned_after(targets, pruned, entries[0]), entries.drop_first())
    }
}

/// The destinations of `tasks`.
pub open spec fn destinations(tasks: Seq<TaskView>) -> Set<Seq<char>> {
    Set::new(|d: Seq<char>| exists|i: int| 0 <= i < tasks.len() && (#[trigger] tasks[i]).dest_path == d)
}

/// Decides, entry by entry, what a walk of the source tree links into the new
/// worktree.
pub struct LinkPlanner {
    targets: IgnoreTargets,
    source_root: String,
    dest_root: String,
    platform: Platform,
    pruned: Vec<Vec<String>>,
}

impl LinkPlanner {
    /// What the planner was set up with.
    pub closed spec fn layout(&self) -> Layout {
        Layout {
            targets: self.targets@,
            source_root: self.source_root@,
            dest_root: self.dest_root@,
            platform: self.platform,
        }
    }

    /// The directories that the planner has said not to walk into.
    pub closed spec fn pruned(&self) -> Seq<Seq<Seq<char>>> {
        path_views(self.pruned@)
    }

    /// A planner for linking from `source_root` into `dest_root`, with the
    /// targets that the source root's ignore file names. There is nothing to
    /// plan, and no planner, where the ignore file is absent or names no
    /// target.
    pub fn new(source_root: &str, dest_root: &str, gitignore: Option<&str>, platform: Platform) -> (planner:
        Option<LinkPlanner>)
        ensures
            match gitignore {
                Some(content) if target_names(content@) != Set::<Seq<char>>::empty() => {
                    &&& planner matches Some(p)
                    &&& p.layout() == (Layout {
                        targets: target_names(content@),
                        source_root: source_root@,
                        dest_root: dest_root@,
                        platform,
                    })
                    &&& p.pruned() == Seq::<Seq<Seq<char>>>::empty()
                },
                _ => planner is None,
            },
    {
        match gitignore {
            None => None,
            Some(content) => {
                let targets = IgnoreTargets::from_gitignore(content);
                if targets.is_empty() {
                    None
                } else {
                    let planner = LinkPlanner {
                        targets,
                        source_root: String::from_str(source_root),
                        dest_root: String::from_str(dest_root),
                        platform,
                        pruned: Vec::new(),
                    };
                    proof {
                        assert(planner.pruned() =~= Seq::<Seq<Seq<char>>>::empty());
                    }
                    Some(planner)
                }
            },
        }
    }

    /// Whether `relative` lies below a directory that was not to be walked
    /// into.
    fn is_under_pruned(&self, relative: &Vec<String>) -> (under: bool)
        ensures
            under == under_pruned(self.pruned(), texts(relative@)),
    {
        let mut i: usize = 0;
        while i < self.pruned.len()
            invariant
                i <= self.pruned.len(),
                forall|j: int| 0 <= j < i ==> !is_below(texts(relative@), #[trigger] self.pruned()[j]),
            decreases self.pruned.len() - i,
        {
            if lies_below(relative, &self.pruned[i]) {
                proof {
                    assert(self.pruned()[i as int] == texts(self.pruned@[i as int]@));
                }
                return true;
            }
            proof {
                assert(self.pruned()[i as int] == texts(self.pruned@[i as int]@));
            }
            i += 1;
        }
        false
    }

    /// Notes that the directory at `relative` is not to be walked into.
    fn prune(&mut self, relative: &Vec<String>)
        ensures
            final(self).layout() == old(self).layout(),
            final(self).pruned() == old(self).pruned().push(texts(relative@)),
    {
        let copy = clone_strings(relative);
        self.pruned.push(copy);
        proof {
            assert(self.pruned() =~= old(self).pruned().push(texts(relative@)));
        }
    }

    /// Answers what to do with the next entry of the walk.
    pub fn visit(&mut self, entry: &SourceEntry) -> (answer: Visit)
        ensures
            final(self).layout() == old(self).layout(),
            final(self).pruned() == pruned_after(
                old(self).layout().targets,
                old(self).pruned(),
                entry@,
            ),
            match verdict(old(self).layout().targets, old(self).pruned(), entry@.relative) {
                Verdict::Skip => answer is Skip,
                Verdict::Descend => answer is Descend,
                Verdict::Prune => answer is Prune,
                Verdict::Candidate => answer matches Visit::Candidate(task) && task@ == task_for(
                    old(self).layout(),
                    entry@,
                ),
            },
    {
        let n = entry.relative.len();
        if n == 0 {
            return Visit::Descend;
        }
        if self.is_under_pruned(&entry.relative) {
            return Visit::Skip;
        }
        let name = &entry.relative[n - 1];
        proof {
            assert(entry@.relative.last() == name@);
        }
        let control = String::from_str(".git");
        if *name == control {
            if entry.is_dir {
                self.prune(&entry.relative);
            }
            return Visit::Prune;
        }
        if self.targets.contains(name) {
            let task = LinkTask {
                relative: clone_strings(&entry.relative),
                source_path: path_below(self.source_root.as_str(), &entry.relative, self.platform),
                dest_path: path_below(self.dest_root.as_str(), &entry.relative, self.platform),
                is_directory: entry.is_dir,
            };
            if entry.is_dir {
                self.prune(&entry.relative);
            }
            return Visit::Candidate(task);
        }
        Visit::Descend
    }

    /// Plans a pass over a recorded walk: the tasks for the candidates among
    /// `entries` whose destination is not among `existing`, in the order of the
    /// walk.
    pub fn plan(&mut self, entries: &Vec<SourceEntry>, existing: &Vec<String>) -> (tasks: Vec<
        LinkTask,
    >)
        ensures
            final(self).layout() == old(self).layout(),
            final(self).pruned() == pruned_through(
                old(self).layout().targets,
                old(self).pruned(),
                entry_views(entries@),
            ),
            task_views(tasks@) == planned(
                old(self).layout(),
                old(self).pruned(),
                texts(existing@).to_set(),
                entry_views(entries@),
            ),
    {
        let mut tasks: Vec<LinkTask> = Vec::new();
        let ghost all = entry_views(entries@);
        let ghost there = texts(existing@).to_set();
        let mut i: usize = 0;
        proof {
            assert(all.skip(0) =~= all);
            assert(task_views(tasks@) =~= Seq::<TaskView>::empty());
        }
        while i < entries.len()
            invariant
                i <= entries.len(),
                all == entry_views(entries@),
                there == texts(existing@).to_set(),
                self.layout() == old(self).layout(),
                pruned_through(old(self).layout().targets, old(self).pruned(), all)
                    == pruned_through(self.layout().targets, self.pruned(), all.skip(i as int)),
                planned(old(self).layout(), old(self).pruned(), there, all) == task_views(tasks@)
                    + planned(self.layout(), self.pruned(), there, all.skip(i as int)),
            decreases entries.len() - i,
        {
            let ghost before = task_views(tasks@);
            let ghost left = all.skip(i as int);
            proof {
                assert(left[0] == entries@[i as int]@);
                assert(left.drop_first() =~= all.skip(i + 1));
            }
            match self.visit(&entries[i]) {
                Visit::Candidate(task) => {
                    if !holds_text(existing, &task.dest_path) {
                        tasks.push(task);
                        proof {
                            assert(task_views(tasks@) =~= before.push(task@));
                            assert(before.push(task@) + planned(
                                self.layout(),
                                self.pruned(),
                                there,
                                all.skip(i + 1),
                            ) =~= before + (seq![task@] + planned(
                                self.layout(),
                                self.pruned(),
                                there,
                                all.skip(i + 1),
                            )));
                        }
                    }
                },
                _ => {},
            }
            i += 1;
        }
        proof {
            assert(all.skip(i as int) =~= Seq::<EntryView>::empty());
            assert(task_views(tasks@) + Seq::<TaskView>::empty() =~= task_views(tasks@));
        }
        tasks
    }
}

/// Whether `text` is one of `list`.
pub fn holds_text(list: &Vec<String>, text: &String) -> (found: bool)
    ensures
        found == texts(list@).to_set().contains(text@),
{
    let mut i: usize = 0;
    while i < list.len()
        invariant
            i <= list.len(),
            forall|j: int| 0 <= j < i ==> texts(list@)[j] != text@,
        decreases list.len() - i,
    {
        if list[i] == *text {
            proof {
                assert(texts(list@)[i as int] == text@);
            }
            return true;
        }
        i += 1;
    }
    false
}

/// A pass in which every destination of the pass before is there emits
/// nothing.
proof fn lemma_replan(
    layout: Layout,
    pruned: Seq<Seq<Seq<char>>>,
    existing: Set<Seq<char>>,
    later: Set<Seq<char>>,
    entries: Seq<EntryView>,
)
    requires
        existing.subset_of(later),
        destinations(planned(layout, pruned, existing, entries)).subset_of(later),
    ensures
        planned(layout, pruned, later, entries) == Seq::<TaskView>::empty(),
    decreases entries.len(),
{
    if entries.len() > 0 {
        let entry = entries[0];
        let first = planned(layout, pruned, existing, entries);
        let next = pruned_after(layout.targets, pruned, entry);
        let rest = planned(layout, next, existing, entries.drop_first());
        let task = task_for(layout, entry);
        if verdict(layout.targets, pruned, entry.relative) == Verdict::Candidate
            && !existing.contains(task.dest_path) {
            assert(first[0] == task);
            assert(destinations(first).contains(task.dest_path));
            assert forall|d: Seq<char>| destinations(rest).contains(d) implies later.contains(
                d,
            ) by {
                let i = choose|i: int| 0 <= i < rest.len() && (#[trigger] rest[i]).dest_path == d;
                assert(first[i + 1] == rest[i]);
                assert(destinations(first).contains(d));
            }
        }
        lemma_replan(layout, next, existing, later, entries.drop_first());
    }
}

/// Planning is idempotent. Once the destinations of the tasks of one pass are
/// there, a second pass over the same entries emits no task, so it leaves the
/// destinations as the first pass left them.
pub proof fn lemma_second_pass_emits_nothing(
    layout: Layout,
    pruned: Seq<Seq<Seq<char>>>,
    existing: Set<Seq<char>>,
    entries: Seq<EntryView>,
)
    ensures
        ({
            let after_first = existing.union(
                destinations(planned(layout, pruned, existing, entries)),
            );
            let second = planned(layout, pruned, after_first, entries);
            &&& second == Seq::<TaskView>::empty()
            &&& after_first.union(destinations(second)) == after_first
        }),
{
    let after_first = existing.union(destinations(planned(layout, pruned, existing, entries)));
    lemma_replan(layout, pruned, existing, after_first, entries);
    assert(destinations(Seq::<TaskView>::empty()) =~= Set::<Seq<char>>::empty());
    assert(after_first.union(Set::<Seq<char>>::empty()) =~= after_first);
}

/// No task of a pass lies below a directory that was pruned before the pass,
/// nor below the directory of an earlier task of the pass.
proof fn lemma_tasks_outside_pruned(
    layout: Layout,
    pruned: Seq<Seq<Seq<char>>>,
    existing: Set<Seq<char>>,
    entries: Seq<EntryView>,
)
    ensures
        forall|j: int|
            0 <= j < planned(layout, pruned, existing, entries).len() ==> !under_pruned(
                pruned,
                (#[trigger] planned(layout, pruned, existing, entries)[j]).relative,
            ),
        forall|i: int, j: int|
            #![trigger planned(layout, pruned, existing, entries)[i], planned(layout, pruned, existing, entries)[j]]
            0 <= i < j < planned(layout, pruned, existing, entries).len() && planned(
                layout,
                pruned,
                existing,
                entries,
            )[i].is_directory ==> !is_below(
                planned(layout, pruned, existing, entries)[j].relative,
                planned(layout, pruned, existing, entries)[i].relative,
            ),
    decreases entries.len(),
{
    let all = planned(layout, pruned, existing, entries);
    if entries.len() > 0 {
        let entry = entries[0];
        let next = pruned_after(layout.targets, pruned, entry);
        let rest = planned(layout, next, existing, entries.drop_first());
        let task = task_for(layout, entry);
        lemma_tasks_outside_pruned(layout, next, existing, entries.drop_first());
        assert forall|k: int| 0 <= k < rest.len() implies !under_pruned(
            pruned,
            (#[trigger] rest[k]).relative,
        ) by {
            if under_pruned(pruned, rest[k].relative) {
                let w = choose|w: int|
                    0 <= w < pruned.len() && is_below(rest[k].relative, #[trigger] pruned[w]);
                assert(next[w] == pruned[w]);
                assert(under_pruned(next, rest[k].relative));
            }
        }
        let emitted = verdict(layout.targets, pruned, entry.relative) == Verdict::Candidate
            && !existing.contains(task.dest_path);
        if emitted {
            assert(all =~= seq![task] + rest);
            assert forall|j: int| 0 <= j < all.len() implies !under_pruned(
                pruned,
                (#[trigger] all[j]).relative,
            ) by {
                if j > 0 {
                    assert(all[j] == rest[j - 1]);
                }
            }
            assert forall|i: int, j: int|
                #![trigger all[i], all[j]]
                0 <= i < j < all.len() && all[i].is_directory implies !is_below(
                all[j].relative,
                all[i].relative,
            ) by {
                assert(all[j] == rest[j - 1]);
                if i == 0 {
                    assert(next == pruned.push(entry.relative));
                    assert(next[pruned.len() as int] == entry.relative);
                    if is_below(rest[j - 1].relative, entry.relative) {
                        assert(under_pruned(next, rest[j - 1].relative));
                    }
                } else {
                    assert(all[i] == rest[i - 1]);
                }
            }
        } else {
            assert(all == rest);
        }
    }
}

/// A linked directory is not walked into. Among the tasks of a pass, none
/// that comes after the task of a directory lies below that directory.
pub proof fn lemma_nothing_below_a_linked_directory(
    layout: Layout,
    pruned: Seq<Seq<Seq<char>>>,
    existing: Set<Seq<char>>,
    entries: Seq<EntryView>,
    i: int,
    j: int,
)
    requires
        0 <= i < j < planned(layout, pruned, existing, entries).len(),
        planned(layout, pruned, existing, entries)[i].is_directory,
    ensures
        !is_below(
            planned(layout, pruned, existing, entries)[j].relative,
            planned(layout, pruned, existing, entries)[i].relative,
        ),
{
    lemma_tasks_outside_pruned(layout, pruned, existing, entries);
}

/// Only targets are linked. Every task of a pass is the task of one of the
/// entries, whose name is a target and not the control directory's, and whose
/// destination was not there; whatever has another name is left alone.
pub proof fn lemma_only_targets_are_linked(
    layout: Layout,
    pruned: Seq<Seq<Seq<char>>>,
    existing: Set<Seq<char>>,
    entries: Seq<EntryView>,
    j: int,
)
    requires
        0 <= j < planned(layout, pruned, existing, entries).len(),
    ensures
        ({
            let task = planned(layout, pruned, existing, entries)[j];
            &&& task.relative.len() > 0
            &&& layout.targets.contains(task.relative.last())
            &&& task.relative.last() != ".git"@
            &&& !existing.contains(task.dest_path)
            &&& exists|i: int|
                0 <= i < entries.len() && task == task_for(layout, #[trigger] entries[i])
        }),
    decreases entries.len(),
{
    let all = planned(layout, pruned, existing, entries);
    let entry = entries[0];
    let next = pruned_after(layout.targets, pruned, entry);
    let tail = entries.drop_first();
    let rest = planned(layout, next, existing, tail);
    let emitted = verdict(layout.targets, pruned, entry.relative) == Verdict::Candidate
        && !existing.contains(task_for(layout, entry).dest_path);
    if emitted && j == 0 {
        assert(all[0] == task_for(layout, entries[0]));
    } else {
        let k = if emitted {
            j - 1
        } else {
            j
        };
        assert(all[j] == rest[k]);
        lemma_only_targets_are_linked(layout, next, existing, tail, k);
        let i = choose|i: int| 0 <= i < tail.len() && rest[k] == task_for(layout, #[trigger] tail[i]);
        assert(entries[i + 1] == tail[i]);
    }
}

/// The directories not to be walked into after two stretches of a walk are
/// those after the second, begun with those after the first.
proof fn lemma_pruned_through_split(
    targets: Set<Seq<char>>,
    pruned: Seq<Seq<Seq<char>>>,
    first: Seq<EntryView>,
    second: Seq<EntryView>,
)
    ensures
        pruned_through(targets, pruned, first + second) == pruned_through(
            targets,
            pruned_through(targets, pruned, first),
            second,
        ),
    decreases first.len(),
{
    if first.len() == 0 {
        assert(first + second =~= second);
    } else {
        assert((first + second)[0] == first[0]);
        assert((first + second).drop_first() =~= first.drop_first() + second);
        lemma_pruned_through_split(
            targets,
            pruned_after(targets, pruned, first[0]),
            first.drop_first(),
            second,
        );
    }
}

/// The tasks of a pass over two stretches of a walk are those of the first
/// stretch, then those of the second, planned with the directories that the
/// first left pruned.
pub proof fn lemma_planned_split(
    layout: Layout,
    pruned: Seq<Seq<Seq<char>>>,
    existing: Set<Seq<char>>,
    first: Seq<EntryView>,
    second: Seq<EntryView>,
)
    ensures
        planned(layout, pruned, existing, first + second) == planned(
            layout,
            pruned,
            existing,
            first,
        ) + planned(
            layout,
            pruned_through(layout.targets, pruned, first),
            existing,
            second,
        ),
    decreases first.len(),
{
    let later = planned(
        layout,
        pruned_through(layout.targets, pruned, first),
        existing,
        second,
    );
    if first.len() == 0 {
        assert(first + second =~= second);
        assert(Seq::<TaskView>::empty() + later =~= later);
    } else {
        let entry = first[0];
        let next = pruned_after(layout.targets, pruned, entry);
        assert((first + second)[0] == entry);
        assert((first + second).drop_first() =~= first.drop_first() + second);
        lemma_planned_split(layout, next, existing, first.drop_first(), second);
        let rest = planned(layout, next, existing, first.drop_first());
        assert(seq![task_for(layout, entry)] + (rest + later) =~= (seq![task_for(layout, entry)]
            + rest) + later);
    }
}

/// A directory that is a link target, or the control directory, is not walked
/// into, whether it is linked or its destination was there already. Where the
/// entry at `at` is such a directory, the tasks of the pass are those up to
/// that entry followed by those after it, and none of those after it lies
/// below the directory.
pub proof fn lemma_nothing_linked_below_a_pruned_directory(
    layout: Layout,
    pruned: Seq<Seq<Seq<char>>>,
    existing: Set<Seq<char>>,
    entries: Seq<EntryView>,
    at: int,
)
    requires
        0 <= at < entries.len(),
        entries[at].is_dir,
        ({
            let answer = verdict(
                layout.targets,
                pruned_through(layout.targets, pruned, entries.take(at)),
                entries[at].relative,
            );
            answer == Verdict::Candidate || answer == Verdict::Prune
        }),
    ensures
        ({
            let later = planned(
                layout,
                pruned_through(layout.targets, pruned, entries.take(at + 1)),
                existing,
                entries.skip(at + 1),
            );
            &&& planned(layout, pruned, existing, entries) == planned(
                layout,
                pruned,
                existing,
                entries.take(at + 1),
            ) + later
            &&& forall|k: int|
                0 <= k < later.len() ==> !is_below(
                    (#[trigger] later[k]).relative,
                    entries[at].relative,
                )
        }),
{
    let targets = layout.targets;
    let before = entries.take(at);
    let upto = entries.take(at + 1);
    let after = entries.skip(at + 1);
    let entry = entries[at];
    let pruned_before = pruned_through(targets, pruned, before);
    let pruned_upto = pruned_through(targets, pruned, upto);
    let later = planned(layout, pruned_upto, existing, after);
    assert(upto + after =~= entries);
    lemma_planned_split(layout, pruned, existing, upto, after);
    assert(upto =~= before + seq![entry]);
    lemma_pruned_through_split(targets, pruned, before, seq![entry]);
    assert(seq![entry].drop_first() =~= Seq::<EntryView>::empty());
    assert(pruned_through(targets, pruned_before, seq![entry]) == pruned_after(
        targets,
        pruned_before,
        entry,
    )) by {
        reveal_with_fuel(pruned_through, 2);
    }
    assert(pruned_upto == pruned_before.push(entry.relative));
    lemma_tasks_outside_pruned(layout, pruned_upto, existing, after);
    assert forall|k: int| 0 <= k < later.len() implies !is_below(
        (#[trigger] later[k]).relative,
        entry.relative,
    ) by {
        if is_below(later[k].relative, entry.relative) {
            assert(pruned_upto[pruned_before.len() as int] == entry.relative);
            assert(under_pruned(pruned_upto, later[k].relative));
        }
    }
}

} // verus!
