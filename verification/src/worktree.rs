//! Worktree records and the reader of the version-control tool's porcelain
//! listing.

use crate::text::{
    chars_of, lemma_lines_cons, lines, next_line, starts_with, text_of, without_cr,
};
use vstd::prelude::*;

verus! {

/// One working tree registered with a repository.
#[derive(Debug, PartialEq, Eq)]
pub struct Worktree {
    /// The directory of the working tree.
    pub path: String,
    /// The commit that is checked out.
    pub head_hash: String,
    /// The branch that is checked out, by its bare name; `None` on a detached
    /// head.
    pub branch: Option<String>,
}

/// What a `Worktree` holds, as plain text.
pub struct WorktreeView {
    pub path: Seq<char>,
    pub head_hash: Seq<char>,
    pub branch: Option<Seq<char>>,
}

impl View for Worktree {
    type V = WorktreeView;

    open spec fn view(&self) -> WorktreeView {
        WorktreeView {
            path: self.path@,
            head_hash: self.head_hash@,
            branch: match self.branch {
                Some(b) => Some(b@),
                None => None,
            },
        }
    }
}

/// The views of a sequence of worktrees.
pub open spec fn views(ws: Seq<Worktree>) -> Seq<WorktreeView> {
    ws.map_values(|w: Worktree| w@)
}

/// The record with nothing read into it yet.
pub open spec fn blank() -> WorktreeView {
    WorktreeView { path: Seq::empty(), head_hash: Seq::empty(), branch: None }
}

/// The reader's state between two lines.
pub struct Scan {
    /// The records that are complete.
    pub done: Seq<WorktreeView>,
    /// The record being read.
    pub current: WorktreeView,
    /// Whether the record being read has had its `worktree` line.
    pub has_data: bool,
}

/// The state before the first line.
pub open spec fn scan_start() -> Scan {
    Scan { done: Seq::empty(), current: blank(), has_data: false }
}

/// A ref name without a leading `refs/heads/`.
pub open spec fn branch_name(ref_name: Seq<char>) -> Seq<char> {
    if "refs/heads/"@.is_prefix_of(ref_name) {
        ref_name.skip("refs/heads/"@.len() as int)
    } else {
        ref_name
    }
}

/// The state after one more line. A blank line closes the record being read if
/// it has had its `worktree` line; a `worktree`, `HEAD` or `branch` line sets
/// the field it names; any other line is passed over.
pub open spec fn scan_line(st: Scan, line: Seq<char>) -> Scan {
    if line.len() == 0 {
        if st.has_data {
            Scan { done: st.done.push(st.current), current: blank(), has_data: false }
        } else {
            st
        }
    } else if "worktree "@.is_prefix_of(line) {
        Scan {
            current: WorktreeView { path: line.skip("worktree "@.len() as int), ..st.current },
            has_data: true,
            ..st
        }
    } else if "HEAD "@.is_prefix_of(line) {
        Scan {
            current: WorktreeView { head_hash: line.skip("HEAD "@.len() as int), ..st.current },
            ..st
        }
    } else if "branch "@.is_prefix_of(line) {
        Scan {
            current: WorktreeView {
                branch: Some(branch_name(line.skip("branch "@.len() as int))),
                ..st.current
            },
            ..st
        }
    } else {
        st
    }
}

/// The state after the lines `ls`, read in order.
pub open spec fn scan_lines(st: Scan, ls: Seq<Seq<char>>) -> Scan
    decreases ls.len(),
{
    if ls.len() == 0 {
        st
    } else {
        scan_lines(scan_line(st, ls[0]), ls.drop_first())
    }
}

/// The records of a state at the end of the text: a record that has had its
/// `worktree` line counts though no blank line closed it.
pub open spec fn scan_result(st: Scan) -> Seq<WorktreeView> {
    if st.has_data {
        st.done.push(st.current)
    } else {
        st.done
    }
}

/// The worktrees that a porcelain listing describes.
pub open spec fn parsed(text: Seq<char>) -> Seq<WorktreeView> {
    scan_result(scan_lines(scan_start(), lines(text)))
}

/// Reading one line and then the rest is reading them all.
proof fn lemma_scan_cons(st: Scan, line: Seq<char>, rest: Seq<Seq<char>>)
    ensures
        scan_lines(st, seq![line] + rest) == scan_lines(scan_line(st, line), rest),
{
    let all = seq![line] + rest;
    assert(all[0] == line);
    assert(all.drop_first() =~= rest);
}

/// Reads the listing that `git worktree list --porcelain` prints.
pub fn parse_worktrees(output: &str) -> (worktrees: Vec<Worktree>)
    ensures
        views(worktrees@) == parsed(output@),
{
    let chars = chars_of(output);
    let key_worktree = chars_of("worktree ");
    let key_head = chars_of("HEAD ");
    let key_branch = chars_of("branch ");
    let key_heads = chars_of("refs/heads/");

    let mut worktrees: Vec<Worktree> = Vec::new();
    let mut path = String::new();
    let mut head_hash = String::new();
    let mut branch: Option<String> = None;
    let mut has_data = false;
    let mut pos: usize = 0;

    proof {
        assert(chars@.skip(0) =~= chars@);
        assert(views(worktrees@) =~= Seq::<WorktreeView>::empty());
    }
    while pos < chars.len()
        invariant
            pos <= chars.len(),
            chars@ == output@,
            key_worktree@ == "worktree "@,
            key_head@ == "HEAD "@,
            key_branch@ == "branch "@,
            key_heads@ == "refs/heads/"@,
            scan_lines(scan_start(), lines(chars@)) == scan_lines(
                Scan {
                    done: views(worktrees@),
                    current: (Worktree { path, head_hash, branch })@,
                    has_data,
                },
                lines(chars@.skip(pos as int)),
            ),
        decreases chars.len() - pos,
    {
        let ghost before = Scan {
            done: views(worktrees@),
            current: (Worktree { path, head_hash, branch })@,
            has_data,
        };
        let (end, next) = next_line(&chars, pos);
        let ghost line = chars@.subrange(pos as int, end as int);
        proof {
            lemma_scan_cons(before, line, lines(chars@.skip(next as int)));
        }
        if end == pos {
            if has_data {
                let ghost old_done = worktrees@;
                worktrees.push(Worktree { path, head_hash, branch });
                path = String::new();
                head_hash = String::new();
                branch = None;
                has_data = false;
                proof {
                    assert(views(worktrees@) =~= views(old_done).push(before.current));
                }
            }
        } else if starts_with(&chars, pos, end, &key_worktree) {
            path = text_of(&chars, pos + key_worktree.len(), end);
            has_data = true;
            proof {
                assert(path@ =~= line.skip(key_worktree@.len() as int));
            }
        } else if starts_with(&chars, pos, end, &key_head) {
            head_hash = text_of(&chars, pos + key_head.len(), end);
            proof {
                assert(head_hash@ =~= line.skip(key_head@.len() as int));
            }
        } else if starts_with(&chars, pos, end, &key_branch) {
            let from = pos + key_branch.len();
            let ghost ref_name = line.skip(key_branch@.len() as int);
            proof {
                assert(chars@.subrange(from as int, end as int) =~= ref_name);
            }
            let name = if starts_with(&chars, from, end, &key_heads) {
                let name = text_of(&chars, from + key_heads.len(), end);
                proof {
                    assert(name@ =~= ref_name.skip(key_heads@.len() as int));
                }
                name
            } else {
                text_of(&chars, from, end)
            };
            branch = Some(name);
        }
        pos = next;
    }
    proof {
        assert(chars@.skip(pos as int) =~= Seq::<char>::empty());
        assert(lines(chars@.skip(pos as int)) =~= Seq::<Seq<char>>::empty());
    }
    if has_data {
        let ghost old_done = worktrees@;
        let ghost last = (Worktree { path, head_hash, branch })@;
        worktrees.push(Worktree { path, head_hash, branch });
        proof {
            assert(views(worktrees@) =~= views(old_done).push(last));
        }
    }
    worktrees
}

/// Whether `s` can stand in a line of a listing and be read back unchanged: it
/// holds no line feed and does not end in a carriage return.
pub open spec fn plain(s: Seq<char>) -> bool {
    &&& forall|i: int| 0 <= i < s.len() ==> s[i] != '\n'
    &&& s.len() > 0 ==> s.last() != '\r'
}

/// Whether each field of `w` is plain.
pub open spec fn well_formed(w: WorktreeView) -> bool {
    &&& plain(w.path)
    &&& plain(w.head_hash)
    &&& w.branch matches Some(b) ==> plain(b)
}

/// The line of a record that tells what is checked out.
pub open spec fn branch_line(w: WorktreeView) -> Seq<char> {
    match w.branch {
        Some(b) => "branch refs/heads/"@ + b,
        None => "detached"@,
    }
}

/// The three lines of a record, each with its line feed.
pub open spec fn record_text(w: WorktreeView) -> Seq<char> {
    ("worktree "@ + w.path) + seq!['\n'] + (("HEAD "@ + w.head_hash) + seq!['\n'] + (branch_line(w)
        + seq!['\n']))
}

/// The listing of `ws` with a blank line after each record.
pub open spec fn listing(ws: Seq<WorktreeView>) -> Seq<char>
    decreases ws.len(),
{
    if ws.len() == 0 {
        Seq::empty()
    } else {
        record_text(ws[0]) + (seq!['\n'] + listing(ws.drop_first()))
    }
}

/// A state between two records.
pub open spec fn between_records(done: Seq<WorktreeView>) -> Scan {
    Scan { done, current: blank(), has_data: false }
}

/// A plain text behind a key without line feed or carriage return is a line
/// that is read back whole.
proof fn lemma_keyed_line(key: Seq<char>, value: Seq<char>)
    requires
        key.len() > 0,
        forall|i: int| 0 <= i < key.len() ==> key[i] != '\n' && key[i] != '\r',
        plain(value),
    ensures
        forall|i: int| 0 <= i < (key + value).len() ==> (key + value)[i] != '\n',
        without_cr(key + value) == key + value,
        key.is_prefix_of(key + value),
        (key + value).skip(key.len() as int) == value,
        (key + value).len() > 0,
{
    let line = key + value;
    assert(line.subrange(0, key.len() as int) =~= key);
    assert(line.skip(key.len() as int) =~= value);
    if value.len() > 0 {
        assert(line.last() == value.last());
    } else {
        assert(line.last() == key.last());
    }
}

/// A line whose first character differs from that of `key` does not start
/// with `key`.
proof fn lemma_other_key(key: Seq<char>, line: Seq<char>)
    requires
        key.len() > 0,
        line.len() > 0,
        key[0] != line[0],
    ensures
        !key.is_prefix_of(line),
{
    if key.is_prefix_of(line) {
        assert(line.subrange(0, key.len() as int)[0] == line[0]);
    }
}

proof fn lemma_worktree_line(st: Scan, path: Seq<char>)
    requires
        plain(path),
    ensures
        scan_line(st, "worktree "@ + path) == (Scan {
            current: WorktreeView { path, ..st.current },
            has_data: true,
            ..st
        }),
        forall|i: int| 0 <= i < ("worktree "@ + path).len() ==> ("worktree "@ + path)[i] != '\n',
        without_cr("worktree "@ + path) == "worktree "@ + path,
{
    reveal_strlit("worktree ");
    lemma_keyed_line("worktree "@, path);
}

proof fn lemma_head_line(st: Scan, hash: Seq<char>)
    requires
        plain(hash),
    ensures
        scan_line(st, "HEAD "@ + hash) == (Scan {
            current: WorktreeView { head_hash: hash, ..st.current },
            ..st
        }),
        forall|i: int| 0 <= i < ("HEAD "@ + hash).len() ==> ("HEAD "@ + hash)[i] != '\n',
        without_cr("HEAD "@ + hash) == "HEAD "@ + hash,
{
    reveal_strlit("worktree ");
    reveal_strlit("HEAD ");
    lemma_keyed_line("HEAD "@, hash);
    lemma_other_key("worktree "@, "HEAD "@ + hash);
}

proof fn lemma_branch_line(st: Scan, name: Seq<char>)
    requires
        plain(name),
    ensures
        scan_line(st, "branch refs/heads/"@ + name) == (Scan {
            current: WorktreeView { branch: Some(name), ..st.current },
            ..st
        }),
        forall|i: int|
            0 <= i < ("branch refs/heads/"@ + name).len() ==> ("branch refs/heads/"@ + name)[i]
                != '\n',
        without_cr("branch refs/heads/"@ + name) == "branch refs/heads/"@ + name,
{
    reveal_strlit("worktree ");
    reveal_strlit("HEAD ");
    reveal_strlit("branch ");
    reveal_strlit("refs/heads/");
    reveal_strlit("branch refs/heads/");
    let line = "branch refs/heads/"@ + name;
    lemma_keyed_line("branch refs/heads/"@, name);
    lemma_other_key("worktree "@, line);
    lemma_other_key("HEAD "@, line);
    assert(line =~= "branch "@ + ("refs/heads/"@ + name));
    let ref_name = "refs/heads/"@ + name;
    assert(line.subrange(0, "branch "@.len() as int) =~= "branch "@);
    assert(line.skip("branch "@.len() as int) =~= ref_name);
    assert(ref_name.subrange(0, "refs/heads/"@.len() as int) =~= "refs/heads/"@);
    assert(ref_name.skip("refs/heads/"@.len() as int) =~= name);
}

proof fn lemma_detached_line(st: Scan)
    ensures
        scan_line(st, "detached"@) == st,
        forall|i: int| 0 <= i < "detached"@.len() ==> "detached"@[i] != '\n',
        without_cr("detached"@) == "detached"@,
{
    reveal_strlit("worktree ");
    reveal_strlit("HEAD ");
    reveal_strlit("branch ");
    reveal_strlit("detached");
    lemma_other_key("worktree "@, "detached"@);
    lemma_other_key("HEAD "@, "detached"@);
    lemma_other_key("branch "@, "detached"@);
}

/// The state after the three lines of a record, read between two records.
proof fn lemma_scan_record(done: Seq<WorktreeView>, w: WorktreeView, rest: Seq<char>)
    requires
        well_formed(w),
    ensures
        scan_lines(between_records(done), lines(record_text(w) + rest)) == scan_lines(
            Scan { done, current: w, has_data: true },
            lines(rest),
        ),
{
    let nl = seq!['\n'];
    let l1 = "worktree "@ + w.path;
    let l2 = "HEAD "@ + w.head_hash;
    let l3 = branch_line(w);
    let r2 = l3 + nl + rest;
    let r1 = l2 + nl + r2;
    let s0 = between_records(done);
    let s1 = scan_line(s0, l1);
    let s2 = scan_line(s1, l2);
    let s3 = scan_line(s2, l3);
    lemma_worktree_line(s0, w.path);
    lemma_head_line(s1, w.head_hash);
    match w.branch {
        Some(b) => {
            lemma_branch_line(s2, b);
        },
        None => {
            lemma_detached_line(s2);
        },
    }
    assert(s3 == Scan { done, current: w, has_data: true });
    assert(record_text(w) + rest =~= l1 + nl + r1);
    lemma_lines_cons(l1, r1);
    lemma_lines_cons(l2, r2);
    lemma_lines_cons(l3, rest);
    lemma_scan_cons(s0, l1, lines(r1));
    lemma_scan_cons(s1, l2, lines(r2));
    lemma_scan_cons(s2, l3, lines(rest));
}

/// The state after a listing with a blank line after each record, read between
/// two records: the records of the listing have joined the complete ones.
proof fn lemma_scan_listing(done: Seq<WorktreeView>, ws: Seq<WorktreeView>, rest: Seq<char>)
    requires
        forall|i: int| 0 <= i < ws.len() ==> well_formed(#[trigger] ws[i]),
    ensures
        scan_lines(between_records(done), lines(listing(ws) + rest)) == scan_lines(
            between_records(done + ws),
            lines(rest),
        ),
    decreases ws.len(),
{
    if ws.len() == 0 {
        assert(listing(ws) + rest =~= rest);
        assert(done + ws =~= done);
    } else {
        let w = ws[0];
        let tail = ws.drop_first();
        let after = listing(tail) + rest;
        assert(listing(ws) + rest =~= record_text(w) + (seq!['\n'] + after));
        lemma_scan_record(done, w, seq!['\n'] + after);
        let open = Scan { done, current: w, has_data: true };
        assert(seq!['\n'] + after =~= Seq::<char>::empty() + seq!['\n'] + after);
        lemma_lines_cons(Seq::empty(), after);
        lemma_scan_cons(open, Seq::empty(), lines(after));
        assert(scan_line(open, Seq::empty()) == between_records(done.push(w)));
        assert forall|i: int| 0 <= i < tail.len() implies well_formed(#[trigger] tail[i]) by {
            assert(tail[i] == ws[i + 1]);
        }
        lemma_scan_listing(done.push(w), tail, rest);
        assert(done.push(w) + tail =~= done + ws);
    }
}

/// A listing of well-formed records, each followed by a blank line, reads back
/// as those records: as many worktrees as records, each with the path and the
/// commit of its record, a `branch refs/heads/X` line giving the branch `X` and
/// a record without a `branch` line giving none.
pub proof fn lemma_parse_listing(ws: Seq<WorktreeView>)
    requires
        forall|i: int| 0 <= i < ws.len() ==> well_formed(#[trigger] ws[i]),
    ensures
        parsed(listing(ws)) == ws,
{
    lemma_scan_listing(Seq::empty(), ws, Seq::empty());
    assert(listing(ws) + Seq::<char>::empty() =~= listing(ws));
    assert(Seq::<WorktreeView>::empty() + ws =~= ws);
    assert(lines(Seq::<char>::empty()) =~= Seq::<Seq<char>>::empty());
}

/// The same holds where blank lines only separate the records and none
/// follows the last one.
pub proof fn lemma_parse_separated(ws: Seq<WorktreeView>, last: WorktreeView)
    requires
        forall|i: int| 0 <= i < ws.len() ==> well_formed(#[trigger] ws[i]),
        well_formed(last),
    ensures
        parsed(listing(ws) + record_text(last)) == ws.push(last),
{
    lemma_scan_listing(Seq::empty(), ws, record_text(last));
    assert(Seq::<WorktreeView>::empty() + ws =~= ws);
    lemma_scan_record(ws, last, Seq::empty());
    assert(record_text(last) + Seq::<char>::empty() =~= record_text(last));
    assert(lines(Seq::<char>::empty()) =~= Seq::<Seq<char>>::empty());
}

/// Whether `line` can follow the first line of a record: it is plain, not
/// blank, and no `worktree` line.
pub open spec fn is_attribute_line(line: Seq<char>) -> bool {
    line.len() > 0 && plain(line) && !"worktree "@.is_prefix_of(line)
}

/// Whether `record` is the lines of one record: a plain `worktree` line, then
/// attribute lines.
pub open spec fn is_record(record: Seq<Seq<char>>) -> bool {
    &&& record.len() > 0
    &&& plain(record[0])
    &&& "worktree "@.is_prefix_of(record[0])
    &&& forall|i: int| 1 <= i < record.len() ==> is_attribute_line(#[trigger] record[i])
}

/// The path that a record names in its first line.
pub open spec fn record_path(record: Seq<Seq<char>>) -> Seq<char> {
    record[0].skip("worktree "@.len() as int)
}

/// The text of the lines `ls`, each with its line feed.
pub open spec fn lines_text(ls: Seq<Seq<char>>) -> Seq<char>
    decreases ls.len(),
{
    if ls.len() == 0 {
        Seq::empty()
    } else {
        ls[0] + seq!['\n'] + lines_text(ls.drop_first())
    }
}

/// The text of the records `records`, with a blank line after each.
pub open spec fn records_text(records: Seq<Seq<Seq<char>>>) -> Seq<char>
    decreases records.len(),
{
    if records.len() == 0 {
        Seq::empty()
    } else {
        lines_text(records[0]) + (seq!['\n'] + records_text(records.drop_first()))
    }
}

/// Whether the worktrees `found` are those of the records `records`, one for
/// one and with their paths.
pub open spec fn one_for_one(found: Seq<WorktreeView>, records: Seq<Seq<Seq<char>>>) -> bool {
    &&& found.len() == records.len()
    &&& forall|i: int| 0 <= i < records.len() ==> (#[trigger] found[i]).path == record_path(
        records[i],
    )
}

/// Plain lines, each with its line feed, are read back as they are.
proof fn lemma_lines_of_text(ls: Seq<Seq<char>>, rest: Seq<char>)
    requires
        forall|i: int| 0 <= i < ls.len() ==> plain(#[trigger] ls[i]),
    ensures
        lines(lines_text(ls) + rest) == ls + lines(rest),
    decreases ls.len(),
{
    if ls.len() == 0 {
        assert(lines_text(ls) + rest =~= rest);
        assert(ls + lines(rest) =~= lines(rest));
    } else {
        let tail = ls.drop_first();
        assert(plain(ls[0]));
        assert forall|i: int| 0 <= i < tail.len() implies plain(#[trigger] tail[i]) by {
            assert(tail[i] == ls[i + 1]);
        }
        lemma_lines_of_text(tail, rest);
        assert(lines_text(ls) + rest =~= ls[0] + seq!['\n'] + (lines_text(tail) + rest));
        lemma_lines_cons(ls[0], lines_text(tail) + rest);
        assert(seq![ls[0]] + (tail + lines(rest)) =~= ls + lines(rest));
    }
}

/// Attribute lines leave the complete records, the path of the record being
/// read, and the fact that it is being read as they are.
proof fn lemma_scan_attributes(st: Scan, ls: Seq<Seq<char>>, rest: Seq<Seq<char>>)
    requires
        st.has_data,
        forall|i: int| 0 <= i < ls.len() ==> is_attribute_line(#[trigger] ls[i]),
    ensures
        exists|after: Scan|
            #![trigger scan_lines(after, rest)]
            {
                &&& scan_lines(st, ls + rest) == scan_lines(after, rest)
                &&& after.done == st.done
                &&& after.has_data
                &&& after.current.path == st.current.path
            },
    decreases ls.len(),
{
    if ls.len() == 0 {
        assert(ls + rest =~= rest);
        assert(scan_lines(st, ls + rest) == scan_lines(st, rest));
    } else {
        let tail = ls.drop_first();
        let next = scan_line(st, ls[0]);
        assert(is_attribute_line(ls[0]));
        assert forall|i: int| 0 <= i < tail.len() implies is_attribute_line(
            #[trigger] tail[i],
        ) by {
            assert(tail[i] == ls[i + 1]);
        }
        assert(ls + rest =~= seq![ls[0]] + (tail + rest));
        lemma_scan_cons(st, ls[0], tail + rest);
        lemma_scan_attributes(next, tail, rest);
        let after = choose|after: Scan|
            #![trigger scan_lines(after, rest)]
            {
                &&& scan_lines(next, tail + rest) == scan_lines(after, rest)
                &&& after.done == next.done
                &&& after.has_data
                &&& after.current.path == next.current.path
            };
        assert(scan_lines(st, ls + rest) == scan_lines(after, rest));
    }
}

/// Read between two records, the lines of a record and the blank line after
/// it add one worktree with the record's path to the complete ones.
proof fn lemma_scan_general_record(
    done: Seq<WorktreeView>,
    record: Seq<Seq<char>>,
    rest: Seq<Seq<char>>,
)
    requires
        is_record(record),
    ensures
        exists|found: WorktreeView|
            #![trigger done.push(found)]
            {
                &&& scan_lines(
                    between_records(done),
                    record + (seq![Seq::<char>::empty()] + rest),
                ) == scan_lines(between_records(done.push(found)), rest)
                &&& found.path == record_path(record)
            },
{
    reveal_strlit("worktree ");
    let blank_line = Seq::<char>::empty();
    let after_record = seq![blank_line] + rest;
    let first = record[0];
    let others = record.drop_first();
    let begun = scan_line(between_records(done), first);
    assert(record + after_record =~= seq![first] + (others + after_record));
    lemma_scan_cons(between_records(done), first, others + after_record);
    assert(begun.has_data && begun.done == done && begun.current.path == record_path(record));
    assert forall|i: int| 0 <= i < others.len() implies is_attribute_line(
        #[trigger] others[i],
    ) by {
        assert(others[i] == record[i + 1]);
    }
    lemma_scan_attributes(begun, others, after_record);
    let read = choose|read: Scan|
        #![trigger scan_lines(read, after_record)]
        {
            &&& scan_lines(begun, others + after_record) == scan_lines(read, after_record)
            &&& read.done == begun.done
            &&& read.has_data
            &&& read.current.path == begun.current.path
        };
    lemma_scan_cons(read, blank_line, rest);
    assert(scan_line(read, blank_line) == between_records(done.push(read.current)));
    assert(scan_lines(between_records(done), record + after_record) == scan_lines(
        between_records(done.push(read.current)),
        rest,
    ));
}

/// Read between two records, the lines of some records with a blank line
/// after each add one worktree for each record, with its path.
proof fn lemma_scan_general_records(
    done: Seq<WorktreeView>,
    records: Seq<Seq<Seq<char>>>,
)
    requires
        forall|i: int| 0 <= i < records.len() ==> is_record(#[trigger] records[i]),
    ensures
        exists|found: Seq<WorktreeView>|
            #![trigger one_for_one(found, records)]
            {
                &&& scan_lines(between_records(done), lines(records_text(records)))
                    == between_records(done + found)
                &&& one_for_one(found, records)
            },
    decreases records.len(),
{
    if records.len() == 0 {
        let found = Seq::<WorktreeView>::empty();
        assert(lines(records_text(records)) =~= Seq::<Seq<char>>::empty());
        assert(done + found =~= done);
        assert(one_for_one(found, records));
    } else {
        let record = records[0];
        let tail = records.drop_first();
        let tail_text = records_text(tail);
        assert(is_record(record));
        assert forall|i: int| 0 <= i < tail.len() implies is_record(#[trigger] tail[i]) by {
            assert(tail[i] == records[i + 1]);
        }
        assert forall|i: int| 0 <= i < record.len() implies plain(#[trigger] record[i]) by {
            if i > 0 {
                assert(is_attribute_line(record[i]));
            }
        }
        lemma_lines_of_text(record, seq!['\n'] + tail_text);
        assert(seq!['\n'] + tail_text =~= Seq::<char>::empty() + seq!['\n'] + tail_text);
        lemma_lines_cons(Seq::empty(), tail_text);
        assert(lines(records_text(records)) == record + (seq![Seq::<char>::empty()] + lines(
            tail_text,
        )));
        lemma_scan_general_record(done, record, lines(tail_text));
        let first = choose|first: WorktreeView|
            #![trigger done.push(first)]
            {
                &&& scan_lines(
                    between_records(done),
                    record + (seq![Seq::<char>::empty()] + lines(tail_text)),
                ) == scan_lines(between_records(done.push(first)), lines(tail_text))
                &&& first.path == record_path(record)
            };
        lemma_scan_general_records(done.push(first), tail);
        let others = choose|others: Seq<WorktreeView>|
            #![trigger one_for_one(others, tail)]
            {
                &&& scan_lines(between_records(done.push(first)), lines(tail_text))
                    == between_records(done.push(first) + others)
                &&& one_for_one(others, tail)
            };
        let found = seq![first] + others;
        assert(done.push(first) + others =~= done + found);
        assert forall|i: int| 0 <= i < records.len() implies (#[trigger] found[i]).path
            == record_path(records[i]) by {
            if i > 0 {
                assert(found[i] == others[i - 1]);
                assert(records[i] == tail[i - 1]);
            }
        }
        assert(one_for_one(found, records));
    }
}

/// A listing of records gives as many worktrees as it has records, and each
/// worktree has the path of its record. A record here is any run of plain
/// lines that are not blank, of which the first, and it alone, is a
/// `worktree` line; a blank line follows each record.
pub proof fn lemma_one_worktree_for_each_record(records: Seq<Seq<Seq<char>>>)
    requires
        forall|i: int| 0 <= i < records.len() ==> is_record(#[trigger] records[i]),
    ensures
        one_for_one(parsed(records_text(records)), records),
{
    lemma_scan_general_records(Seq::empty(), records);
    let found = choose|found: Seq<WorktreeView>|
        #![trigger one_for_one(found, records)]
        {
            &&& scan_lines(between_records(Seq::empty()), lines(records_text(records)))
                == between_records(Seq::<WorktreeView>::empty() + found)
            &&& one_for_one(found, records)
        };
    assert(Seq::<WorktreeView>::empty() + found =~= found);
}

} // verus!
