//! The table of assistant sessions: at most one process per workspace path.
//!
//! The table only remembers process identifiers. A process may end at any
//! time, so an entry is no proof of life: the table is swept whenever it is
//! listed.

use crate::text::texts;
use vstd::prelude::*;

verus! {

/// One session: the process that serves a workspace.
#[derive(Debug, PartialEq, Eq)]
pub struct Session {
    /// The workspace that the session is bound to.
    pub workspace_path: String,
    /// The identifier of its process.
    pub process_id: u32,
}

/// The workspace paths of a list of sessions.
pub open spec fn keys(sessions: Seq<Session>) -> Seq<Seq<char>> {
    sessions.map_values(|s: Session| s.workspace_path@)
}

/// The table that a list of sessions with distinct paths stands for.
pub open spec fn table_of(sessions: Seq<Session>) -> Map<Seq<char>, u32> {
    Map::new(
        |path: Seq<char>| keys(sessions).contains(path),
        |path: Seq<char>| sessions[keys(sessions).index_of(path)].process_id,
    )
}

/// In a list with distinct paths, each session is the table's entry for its
/// path.
proof fn lemma_entry(sessions: Seq<Session>, i: int)
    requires
        keys(sessions).no_duplicates(),
        0 <= i < sessions.len(),
    ensures
        table_of(sessions).dom().contains(sessions[i].workspace_path@),
        table_of(sessions)[sessions[i].workspace_path@] == sessions[i].process_id,
{
    let path = sessions[i].workspace_path@;
    assert(keys(sessions)[i] == path);
    let j = keys(sessions).index_of(path);
    assert(0 <= j < sessions.len() && keys(sessions)[j] == path);
}

/// The table from workspace path to process identifier.
#[derive(Debug)]
pub struct SessionTable {
    sessions: Vec<Session>,
}

impl View for SessionTable {
    type V = Map<Seq<char>, u32>;

    closed spec fn view(&self) -> Map<Seq<char>, u32> {
        table_of(self.sessions@)
    }
}

impl SessionTable {
    /// Whether the table is well formed: no path has two sessions.
    pub closed spec fn wf(&self) -> bool {
        keys(self.sessions@).no_duplicates()
    }

    /// The table without a session.
    pub fn new() -> (table: SessionTable)
        ensures
            table.wf(),
            table@ == Map::<Seq<char>, u32>::empty(),
    {
        let table = SessionTable { sessions: Vec::new() };
        proof {
            assert(table@ =~= Map::<Seq<char>, u32>::empty());
        }
        table
    }

    /// The place of the session of `path`, if it has one.
    fn position(&self, path: &String) -> (at: Option<usize>)
        ensures
            match at {
                Some(i) => i < self.sessions@.len() && self.sessions@[i as int].workspace_path@
                    == path@,
                None => !keys(self.sessions@).contains(path@),
            },
    {
        let mut i: usize = 0;
        while i < self.sessions.len()
            invariant
                i <= self.sessions.len(),
                forall|j: int| 0 <= j < i ==> keys(self.sessions@)[j] != path@,
            decreases self.sessions.len() - i,
        {
            if self.sessions[i].workspace_path == *path {
                return Some(i);
            }
            proof {
                assert(keys(self.sessions@)[i as int] == self.sessions@[i as int].workspace_path@);
            }
            i += 1;
        }
        None
    }

    /// The process registered for `path`, if there is one.
    pub fn lookup(&self, path: &String) -> (found: Option<u32>)
        requires
            self.wf(),
        ensures
            found == if self@.dom().contains(path@) {
                Some(self@[path@])
            } else {
                None
            },
    {
        match self.position(path) {
            Some(i) => {
                proof {
                    lemma_entry(self.sessions@, i as int);
                }
                Some(self.sessions[i].process_id)
            },
            None => None,
        }
    }

    /// Registers `process_id` for `path`. A session that the path had before
    /// is forgotten, whether its process lives or not.
    pub fn register(&mut self, path: String, process_id: u32)
        requires
            old(self).wf(),
        ensures
            final(self).wf(),
            final(self)@ == old(self)@.insert(path@, process_id),
    {
        let ghost before = self.sessions@;
        match self.position(&path) {
            Some(i) => {
                self.sessions.set(i, Session { workspace_path: path, process_id });
                proof {
                    let after = self.sessions@;
                    assert(keys(after) =~= keys(before));
                    assert forall|k: Seq<char>| #[trigger]
                        table_of(before).insert(path@, process_id).dom().contains(
                            k,
                        ) implies table_of(after)[k] == table_of(before).insert(
                        path@,
                        process_id,
                    )[k] by {
                        if k == path@ {
                            lemma_entry(after, i as int);
                        } else {
                            let j = keys(before).index_of(k);
                            assert(keys(before)[j] == k);
                            assert(keys(before)[i as int] == path@);
                            assert(after[j] == before[j]);
                        }
                    }
                    assert(table_of(after) =~= table_of(before).insert(path@, process_id));
                }
            },
            None => {
                self.sessions.push(Session { workspace_path: path, process_id });
                proof {
                    let after = self.sessions@;
                    assert(keys(after) =~= keys(before).push(path@));
                    assert forall|k: Seq<char>|
                        table_of(after).dom().contains(k) <==> #[trigger] table_of(before).insert(
                            path@,
                            process_id,
                        ).dom().contains(k) by {
                        if keys(after).contains(k) {
                            let j = keys(after).index_of(k);
                            if j < before.len() {
                                assert(keys(before)[j] == k);
                            }
                        }
                        if keys(before).contains(k) {
                            let j = keys(before).index_of(k);
                            assert(keys(after)[j] == k);
                        }
                        if k == path@ {
                            assert(keys(after)[before.len() as int] == k);
                        }
                    }
                    assert forall|k: Seq<char>| #[trigger]
                        table_of(after).dom().contains(k) implies table_of(after)[k] == table_of(
                        before,
                    ).insert(path@, process_id)[k] by {
                        let j = keys(after).index_of(k);
                        if j < before.len() {
                            assert(keys(before)[j] == k);
                            lemma_entry(before, j);
                            assert(after[j] == before[j]);
                        }
                    }
                    assert(table_of(after) =~= table_of(before).insert(path@, process_id));
                }
            },
        }
    }

    /// Forgets the session of `path`, if it has one.
    pub fn forget(&mut self, path: &String)
        requires
            old(self).wf(),
        ensures
            final(self).wf(),
            final(self)@ == old(self)@.remove(path@),
    {
        let ghost before = self.sessions@;
        match self.position(path) {
            Some(i) => {
                self.sessions.remove(i);
                proof {
                    let after = self.sessions@;
                    assert(keys(after) =~= keys(before).remove(i as int));
                    assert forall|a: int, b: int|
                        0 <= a < after.len() && 0 <= b < after.len() && a != b implies keys(
                        after,
                    )[a] != keys(after)[b] by {
                        let a0 = if a < i { a } else { a + 1 };
                        let b0 = if b < i { b } else { b + 1 };
                        assert(keys(after)[a] == keys(before)[a0]);
                        assert(keys(after)[b] == keys(before)[b0]);
                    }
                    assert forall|k: Seq<char>|
                        table_of(after).dom().contains(k) <==> #[trigger] table_of(before).remove(
                            path@,
                        ).dom().contains(k) by {
                        if keys(after).contains(k) {
                            let j = keys(after).index_of(k);
                            let j0 = if j < i { j } else { j + 1 };
                            assert(keys(before)[j0] == k);
                            assert(keys(before)[i as int] == path@);
                        }
                        if keys(before).contains(k) && k != path@ {
                            let j = keys(before).index_of(k);
                            assert(keys(before)[i as int] == path@);
                            let j1 = if j < i { j } else { j - 1 };
                            assert(keys(after)[j1] == k);
                        }
                    }
                    assert forall|k: Seq<char>| #[trigger]
                        table_of(after).dom().contains(k) implies table_of(after)[k] == table_of(
                        before,
                    ).remove(path@)[k] by {
                        let j = keys(after).index_of(k);
                        let j0 = if j < i { j } else { j + 1 };
                        assert(keys(after)[j] == k);
                        assert(after[j] == before[j0]);
                        assert(keys(before)[j0] == k);
                        assert(keys(before)[i as int] == path@);
                        lemma_entry(before, j0);
                    }
                    assert(table_of(after) =~= table_of(before).remove(path@));
                }
            },
            None => {
                proof {
                    assert(table_of(before) =~= table_of(before).remove(path@));
                }
            },
        }
    }

    /// Forgets the sessions of the paths `dead`.
    pub fn reap(&mut self, dead: &Vec<String>)
        requires
            old(self).wf(),
        ensures
            final(self).wf(),
            final(self)@ == old(self)@.remove_keys(texts(dead@).to_set()),
    {
        let mut i: usize = 0;
        proof {
            assert(texts(dead@).take(0).to_set() =~= Set::<Seq<char>>::empty());
            assert(self@ =~= self@.remove_keys(Set::<Seq<char>>::empty()));
        }
        while i < dead.len()
            invariant
                i <= dead.len(),
                self.wf(),
                self@ == old(self)@.remove_keys(texts(dead@).take(i as int).to_set()),
            decreases dead.len() - i,
        {
            let ghost done = texts(dead@).take(i as int);
            self.forget(&dead[i]);
            proof {
                let upto = texts(dead@).take(i + 1);
                assert(upto =~= done.push(dead@[i as int]@));
                done.lemma_push_to_set_commute(dead@[i as int]@);
                assert(old(self)@.remove_keys(done.to_set()).remove(dead@[i as int]@) =~= old(
                    self,
                )@.remove_keys(upto.to_set()));
            }
            i += 1;
        }
        proof {
            assert(texts(dead@).take(dead@.len() as int) =~= texts(dead@));
        }
    }

    /// The sessions, each path once, in no stated order.
    pub fn sessions(&self) -> (sessions: &Vec<Session>)
        requires
            self.wf(),
        ensures
            table_of(sessions@) == self@,
            keys(sessions@).no_duplicates(),
    {
        &self.sessions
    }

    /// The registered paths, each once, in no stated order.
    pub fn paths(&self) -> (paths: Vec<String>)
        requires
            self.wf(),
        ensures
            texts(paths@).no_duplicates(),
            texts(paths@).to_set() == self@.dom(),
    {
        let mut paths: Vec<String> = Vec::new();
        let mut i: usize = 0;
        while i < self.sessions.len()
            invariant
                i <= self.sessions.len(),
                texts(paths@) == keys(self.sessions@).take(i as int),
            decreases self.sessions.len() - i,
        {
            let ghost before = paths@;
            let path = self.sessions[i].workspace_path.clone();
            paths.push(path);
            proof {
                assert(texts(paths@) =~= texts(before).push(path@));
                assert(texts(paths@) =~= keys(self.sessions@).take(i + 1));
            }
            i += 1;
        }
        proof {
            assert(keys(self.sessions@).take(self.sessions@.len() as int) =~= keys(
                self.sessions@,
            ));
            assert(texts(paths@).to_set() =~= self@.dom());
        }
        paths
    }

    /// Sweeps the table and lists it: forgets the sessions of the paths
    /// `dead`, whose processes were found to have ended, and returns the
    /// paths that stay registered.
    pub fn list(&mut self, dead: &Vec<String>) -> (paths: Vec<String>)
        requires
            old(self).wf(),
        ensures
            final(self).wf(),
            final(self)@ == old(self)@.remove_keys(texts(dead@).to_set()),
            texts(paths@).no_duplicates(),
            texts(paths@).to_set() == final(self)@.dom(),
    {
        self.reap(dead);
        self.paths()
    }
}

} // verus!
