//! Paths as text: how a relative path is laid under a root, and when one
//! relative path lies below another.

use crate::text::{chars_of, text_of, texts};
use vstd::prelude::*;

verus! {

/// The family of operating systems whose path syntax is used.
#[derive(Clone, Copy, Debug, PartialEq, Eq, Structural)]
pub enum Platform {
    /// Backslash between components; a forward slash separates too.
    Windows,
    /// Forward slash between components.
    Unix,
}

impl Platform {
    /// The character that is written between two components.
    pub open spec fn separator(self) -> char {
        match self {
            Platform::Windows => '\\',
            Platform::Unix => '/',
        }
    }

    /// Whether `c` separates components.
    pub open spec fn separates(self, c: char) -> bool {
        c == '/' || (self == Platform::Windows && c == '\\')
    }

    /// The character that is written between two components.
    pub fn separator_char(&self) -> (c: char)
        ensures
            c == self.separator(),
    {
        match self {
            Platform::Windows => '\\',
            Platform::Unix => '/',
        }
    }

    /// Whether `c` separates components.
    pub fn is_separator(&self, c: char) -> (b: bool)
        ensures
            b == self.separates(c),
    {
        match self {
            Platform::Windows => c == '/' || c == '\\',
            Platform::Unix => c == '/',
        }
    }
}

/// `base` with the component `name` added. A separator is written between the
/// two unless `base` is empty or ends in one.
pub open spec fn joined(base: Seq<char>, name: Seq<char>, platform: Platform) -> Seq<char> {
    if base.len() > 0 && !platform.separates(base.last()) {
        base.push(platform.separator()) + name
    } else {
        base + name
    }
}

/// The path that lies under `root` at the relative path `relative`, given by
/// its components.
pub open spec fn path_under(root: Seq<char>, relative: Seq<Seq<char>>, platform: Platform) -> Seq<
    char,
>
    decreases relative.len(),
{
    if relative.len() == 0 {
        root
    } else {
        joined(path_under(root, relative.drop_last(), platform), relative.last(), platform)
    }
}

/// Whether the relative path `inner` lies below the directory `outer`: `outer`
/// is a beginning of `inner` and shorter than it.
pub open spec fn is_below(inner: Seq<Seq<char>>, outer: Seq<Seq<char>>) -> bool {
    outer.len() < inner.len() && inner.take(outer.len() as int) == outer
}

/// The path that lies under `root` at the relative path `relative`.
pub fn path_below(root: &str, relative: &Vec<String>, platform: Platform) -> (path: String)
    ensures
        path@ == path_under(root@, texts(relative@), platform),
{
    let mut out = chars_of(root);
    let mut i: usize = 0;
    proof {
        assert(texts(relative@).take(0) =~= Seq::<Seq<char>>::empty());
    }
    while i < relative.len()
        invariant
            i <= relative.len(),
            out@ == path_under(root@, texts(relative@).take(i as int), platform),
        decreases relative.len() - i,
    {
        let ghost base = out@;
        let name = chars_of(relative[i].as_str());
        if out.len() > 0 && !platform.is_separator(out[out.len() - 1]) {
            out.push(platform.separator_char());
        }
        let ghost stem = out@;
        let mut k: usize = 0;
        while k < name.len()
            invariant
                k <= name.len(),
                out@ == stem + name@.take(k as int),
            decreases name.len() - k,
        {
            out.push(name[k]);
            proof {
                assert(out@ =~= stem + name@.take(k + 1));
            }
            k += 1;
        }
        proof {
            let upto = texts(relative@).take(i + 1);
            assert(name@.take(name@.len() as int) =~= name@);
            assert(upto.drop_last() =~= texts(relative@).take(i as int));
            assert(upto.last() == name@);
            assert(out@ =~= joined(base, name@, platform));
        }
        i += 1;
    }
    proof {
        assert(texts(relative@).take(relative@.len() as int) =~= texts(relative@));
    }
    text_of(&out, 0, out.len())
}

/// Whether the relative path `inner` lies below the directory `outer`.
pub fn lies_below(inner: &Vec<String>, outer: &Vec<String>) -> (below: bool)
    ensures
        below == is_below(texts(inner@), texts(outer@)),
{
    if outer.len() >= inner.len() {
        return false;
    }
    let mut i: usize = 0;
    while i < outer.len()
        invariant
            i <= outer.len() < inner.len(),
            forall|j: int| 0 <= j < i ==> texts(inner@)[j] == texts(outer@)[j],
        decreases outer.len() - i,
    {
        if inner[i] != outer[i] {
            proof {
                assert(texts(inner@).take(outer@.len() as int)[i as int] == texts(inner@)[i as int]);
                assert(texts(inner@)[i as int] != texts(outer@)[i as int]);
            }
            return false;
        }
        i += 1;
    }
    proof {
        assert(texts(inner@).take(outer@.len() as int) =~= texts(outer@));
    }
    true
}

} // verus!
