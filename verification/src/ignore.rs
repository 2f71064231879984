//! The names that an ignore file marks as link targets.
//!
//! Only literal names count: a rule is reduced to a bare name and matched
//! against entry names as it stands. Wildcards are not expanded and a rule
//! with an inner separator matches no entry.

use crate::text::{
    chars_of, lines, next_line, replace_range, replaced, strip_both, strip_range, text_of, texts,
    CharClass,
};
use vstd::prelude::*;

verus! {

/// The name that one line of an ignore file contributes, if any. Whitespace
/// around the rule does not count; a blank line and a comment give nothing;
/// backslashes are read as forward slashes, and the slashes at either end are
/// dropped.
pub open spec fn pattern_name(line: Seq<char>) -> Option<Seq<char>> {
    let rule = strip_both(line, CharClass::Whitespace);
    if rule.len() == 0 || rule[0] == '#' {
        None
    } else {
        let name = strip_both(replaced(rule, '\\', '/'), CharClass::Slash);
        if name.len() == 0 {
            None
        } else {
            Some(name)
        }
    }
}

/// The names that the lines `ls` contribute.
pub open spec fn names_of(ls: Seq<Seq<char>>) -> Set<Seq<char>> {
    Set::new(
        |name: Seq<char>|
            exists|i: int| 0 <= i < ls.len() && pattern_name(#[trigger] ls[i]) == Some(name),
    )
}

/// The target names of an ignore file.
pub open spec fn target_names(text: Seq<char>) -> Set<Seq<char>> {
    names_of(lines(text))
}

/// The names of a line and of the lines after it.
proof fn lemma_names_cons(line: Seq<char>, rest: Seq<Seq<char>>)
    ensures
        names_of(seq![line] + rest) == match pattern_name(line) {
            Some(name) => names_of(rest).insert(name),
            None => names_of(rest),
        },
{
    let all = seq![line] + rest;
    let want = match pattern_name(line) {
        Some(name) => names_of(rest).insert(name),
        None => names_of(rest),
    };
    assert forall|name: Seq<char>| names_of(all).contains(name) implies want.contains(name) by {
        let i = choose|i: int| 0 <= i < all.len() && pattern_name(#[trigger] all[i]) == Some(name);
        if i > 0 {
            assert(all[i] == rest[i - 1]);
        }
    }
    assert forall|name: Seq<char>| want.contains(name) implies names_of(all).contains(name) by {
        if pattern_name(line) == Some(name) {
            assert(all[0] == line);
        } else {
            let i = choose|i: int|
                0 <= i < rest.len() && pattern_name(#[trigger] rest[i]) == Some(name);
            assert(all[i + 1] == rest[i]);
        }
    }
    assert(names_of(all) =~= want);
}

/// The names that the lines `ls` contribute, each once, in the order in which
/// the lines first give them.
pub open spec fn names_in_order(ls: Seq<Seq<char>>) -> Seq<Seq<char>>
    decreases ls.len(),
{
    if ls.len() == 0 {
        Seq::empty()
    } else {
        let before = names_in_order(ls.drop_last());
        match pattern_name(ls.last()) {
            Some(name) => if before.contains(name) {
                before
            } else {
                before.push(name)
            },
            None => before,
        }
    }
}

/// A set of target names.
pub struct IgnoreTargets {
    names: Vec<String>,
}

impl View for IgnoreTargets {
    type V = Set<Seq<char>>;

    closed spec fn view(&self) -> Set<Seq<char>> {
        texts(self.names@).to_set()
    }
}

impl IgnoreTargets {
    /// Whether the set is well formed: it holds no name twice.
    pub closed spec fn wf(&self) -> bool {
        texts(self.names@).no_duplicates()
    }

    /// The names in the order in which they were added.
    pub closed spec fn order(&self) -> Seq<Seq<char>> {
        texts(self.names@)
    }

    /// The set without a name.
    pub fn new() -> (targets: IgnoreTargets)
        ensures
            targets.wf(),
            targets@ == Set::<Seq<char>>::empty(),
            targets.order() == Seq::<Seq<char>>::empty(),
    {
        let targets = IgnoreTargets { names: Vec::new() };
        proof {
            assert(texts(targets.names@) =~= Seq::<Seq<char>>::empty());
            assert(targets@ =~= Set::<Seq<char>>::empty());
        }
        targets
    }

    /// Whether `name` is a target.
    pub fn contains(&self, name: &String) -> (found: bool)
        ensures
            found == self@.contains(name@),
    {
        let mut i: usize = 0;
        while i < self.names.len()
            invariant
                i <= self.names.len(),
                forall|j: int| 0 <= j < i ==> texts(self.names@)[j] != name@,
            decreases self.names.len() - i,
        {
            if self.names[i] == *name {
                proof {
                    assert(texts(self.names@)[i as int] == name@);
                }
                return true;
            }
            i += 1;
        }
        false
    }

    /// Adds `name` to the set: at the end, unless the set holds it.
    pub fn insert(&mut self, name: String)
        requires
            old(self).wf(),
        ensures
            final(self).wf(),
            final(self)@ == old(self)@.insert(name@),
            final(self).order() == if old(self).order().contains(name@) {
                old(self).order()
            } else {
                old(self).order().push(name@)
            },
    {
        if !self.contains(&name) {
            let ghost before = texts(self.names@);
            self.names.push(name);
            proof {
                assert(texts(self.names@) =~= before.push(name@));
                before.lemma_push_to_set_commute(name@);
            }
        } else {
            proof {
                assert(self@ =~= self@.insert(name@));
            }
        }
    }

    /// Whether the set holds no name.
    pub fn is_empty(&self) -> (empty: bool)
        ensures
            empty == (self@ == Set::<Seq<char>>::empty()),
    {
        proof {
            if self.names.len() > 0 {
                assert(texts(self.names@)[0] == self.names@[0]@);
                assert(self@.contains(self.names@[0]@));
            } else {
                assert(self@ =~= Set::<Seq<char>>::empty());
            }
        }
        self.names.len() == 0
    }

    /// The number of names.
    pub fn len(&self) -> (n: usize)
        requires
            self.wf(),
        ensures
            n == self@.len(),
            self@.finite(),
    {
        proof {
            texts(self.names@).unique_seq_to_set();
        }
        self.names.len()
    }

    /// The names, each once, in the order in which they were added.
    pub fn names(&self) -> (names: &Vec<String>)
        requires
            self.wf(),
        ensures
            texts(names@) == self.order(),
            texts(names@).to_set() == self@,
            texts(names@).no_duplicates(),
    {
        &self.names
    }

    /// Reads the target names from the content of an ignore file, in the
    /// order in which the file first gives them.
    pub fn from_gitignore(content: &str) -> (targets: IgnoreTargets)
        ensures
            targets.wf(),
            targets@ == target_names(content@),
            targets.order() == names_in_order(lines(content@)),
    {
        let chars = chars_of(content);
        let mut targets = IgnoreTargets::new();
        let mut pos: usize = 0;
        let ghost mut seen: Seq<Seq<char>> = Seq::empty();
        proof {
            assert(chars@.skip(0) =~= chars@);
            assert(seen + lines(chars@) =~= lines(chars@));
        }
        while pos < chars.len()
            invariant
                pos <= chars.len(),
                chars@ == content@,
                targets.wf(),
                target_names(chars@) == targets@.union(names_of(lines(chars@.skip(pos as int)))),
                lines(chars@) == seen + lines(chars@.skip(pos as int)),
                targets.order() == names_in_order(seen),
            decreases chars.len() - pos,
        {
            let (end, next) = next_line(&chars, pos);
            let ghost line = chars@.subrange(pos as int, end as int);
            let ghost before = targets@;
            let ghost order_before = targets.order();
            proof {
                lemma_names_cons(line, lines(chars@.skip(next as int)));
                assert(seen.push(line) + lines(chars@.skip(next as int)) =~= seen + (seq![line]
                    + lines(chars@.skip(next as int))));
                assert(seen.push(line).drop_last() =~= seen);
                assert(seen.push(line).last() == line);
            }
            let (from, to) = strip_range(&chars, pos, end, CharClass::Whitespace);
            if from < to && chars[from] != '#' {
                let rule = replace_range(&chars, from, to, '\\', '/');
                let (a, b) = strip_range(&rule, 0, rule.len(), CharClass::Slash);
                proof {
                    assert(rule@.subrange(0, rule@.len() as int) =~= rule@);
                    assert(chars@.subrange(from as int, to as int)[0] == chars@[from as int]);
                }
                if a < b {
                    let name = text_of(&rule, a, b);
                    targets.insert(name);
                }
            } else {
                proof {
                    if from < to {
                        assert(chars@.subrange(from as int, to as int)[0] == chars@[from as int]);
                    }
                }
            }
            proof {
                let rest = names_of(lines(chars@.skip(next as int)));
                match pattern_name(line) {
                    Some(name) => {
                        assert(before.union(rest.insert(name)) =~= before.insert(name).union(rest));
                    },
                    None => {},
                }
            }
            proof {
                seen = seen.push(line);
            }
            pos = next;
        }
        proof {
            assert(chars@.skip(pos as int) =~= Seq::<char>::empty());
            assert(seen + Seq::<Seq<char>>::empty() =~= seen);
            assert(lines(chars@.skip(pos as int)) =~= Seq::<Seq<char>>::empty());
            assert(names_of(Seq::<Seq<char>>::empty()) =~= Set::<Seq<char>>::empty());
            assert(targets@.union(Set::<Seq<char>>::empty()) =~= targets@);
        }
        targets
    }
}

} // verus!
