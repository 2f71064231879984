//! Character-level text handling shared by the parsers and the command builders.
//!
//! Text is modelled as `Seq<char>`. Executable code reads a string once into a
//! `Vec<char>` and works on index ranges of it.

use vstd::prelude::*;

verus! {

/// Appends one character to a string with `String::push`: afterwards the string
/// holds its former characters followed by `c`.
#[verifier::external_body]
pub(crate) fn push_char(s: &mut String, c: char)
    ensures
        final(s)@ == old(s)@.push(c),
{
    s.push(c)
}

/// The characters of `s`, in order.
pub fn chars_of(s: &str) -> (out: Vec<char>)
    ensures
        out@ == s@,
{
    let mut out: Vec<char> = Vec::new();
    for c in it: s.chars()
        invariant
            out@ == it.seq().take(it.index() as int),
            it.seq() == s@,
    {
        out.push(c);
    }
    out
}

/// The string made of `chars[from..to]`.
pub fn text_of(chars: &Vec<char>, from: usize, to: usize) -> (out: String)
    requires
        from <= to <= chars.len(),
    ensures
        out@ == chars@.subrange(from as int, to as int),
{
    let mut out = String::new();
    let mut i: usize = from;
    while i < to
        invariant
            from <= i <= to <= chars.len(),
            out@ == chars@.subrange(from as int, i as int),
        decreases to - i,
    {
        push_char(&mut out, chars[i]);
        i += 1;
    }
    out
}

/// Appends `chars[from..to]` to `out`.
pub fn append_chars(out: &mut String, chars: &Vec<char>, from: usize, to: usize)
    requires
        from <= to <= chars.len(),
    ensures
        final(out)@ == old(out)@ + chars@.subrange(from as int, to as int),
{
    let mut i: usize = from;
    while i < to
        invariant
            from <= i <= to <= chars.len(),
            out@ == old(out)@ + chars@.subrange(from as int, i as int),
        decreases to - i,
    {
        push_char(out, chars[i]);
        i += 1;
    }
}

/// Index of the first line feed in `s`, or `s.len()` where it holds none.
pub open spec fn line_end(s: Seq<char>) -> int
    decreases s.len(),
{
    if s.len() == 0 || s[0] == '\n' {
        0
    } else {
        1 + line_end(s.drop_first())
    }
}

/// `s` without one trailing carriage return.
pub open spec fn without_cr(s: Seq<char>) -> Seq<char> {
    if s.len() > 0 && s.last() == '\r' {
        s.drop_last()
    } else {
        s
    }
}

/// The lines of `s`. A line ends at a line feed, or at a carriage return
/// directly followed by one; the terminator is not part of the line. The last
/// line needs no terminator, and a terminator at the very end opens no further
/// line. A carriage return that no line feed follows stays in its line.
pub open spec fn lines(s: Seq<char>) -> Seq<Seq<char>>
    decreases s.len(),
{
    let n = line_end(s);
    if s.len() == 0 {
        Seq::empty()
    } else if 0 <= n < s.len() {
        seq![without_cr(s.take(n))] + lines(s.skip(n + 1))
    } else {
        seq![s]
    }
}

/// `line_end(s)` is the least index that holds a line feed, if there is one.
proof fn lemma_line_end(s: Seq<char>)
    ensures
        0 <= line_end(s) <= s.len(),
        forall|i: int| 0 <= i < line_end(s) ==> s[i] != '\n',
        line_end(s) < s.len() ==> s[line_end(s)] == '\n',
    decreases s.len(),
{
    if s.len() == 0 || s[0] == '\n' {
    } else {
        let t = s.drop_first();
        lemma_line_end(t);
        assert forall|i: int| 0 <= i < line_end(s) implies s[i] != '\n' by {
            if i > 0 {
                assert(s[i] == t[i - 1]);
            }
        }
        if line_end(s) < s.len() {
            assert(s[line_end(s)] == t[line_end(t)]);
        }
    }
}

/// An index with no line feed before it, which holds one or is the end, is
/// `line_end(s)`.
proof fn lemma_line_end_is(s: Seq<char>, k: int)
    requires
        0 <= k <= s.len(),
        forall|i: int| 0 <= i < k ==> s[i] != '\n',
        k < s.len() ==> s[k] == '\n',
    ensures
        line_end(s) == k,
{
    lemma_line_end(s);
    let n = line_end(s);
    if n < k {
        assert(s[n] != '\n');
    } else if k < n {
        assert(s[k] != '\n');
    }
}

/// Text that starts with a line, a line feed after it, splits into that line
/// and the lines of the rest.
pub proof fn lemma_lines_cons(line: Seq<char>, rest: Seq<char>)
    requires
        forall|i: int| 0 <= i < line.len() ==> line[i] != '\n',
    ensures
        lines(line + seq!['\n'] + rest) == seq![without_cr(line)] + lines(rest),
{
    let s = line + seq!['\n'] + rest;
    lemma_line_end_is(s, line.len() as int);
    assert(s.take(line.len() as int) =~= line);
    assert(s.skip(line.len() as int + 1) =~= rest);
}

/// Reads the line that starts at `pos`. Returns the index just past the line's
/// last character and the index at which the next line starts.
pub fn next_line(chars: &Vec<char>, pos: usize) -> (r: (usize, usize))
    requires
        pos < chars.len(),
    ensures
        pos <= r.0 <= r.1 <= chars.len(),
        pos < r.1,
        lines(chars@.skip(pos as int)) == seq![chars@.subrange(pos as int, r.0 as int)] + lines(
            chars@.skip(r.1 as int),
        ),
{
    let ghost s = chars@.skip(pos as int);
    let mut i: usize = pos;
    while i < chars.len() && chars[i] != '\n'
        invariant
            pos <= i <= chars.len(),
            forall|j: int| pos <= j < i ==> chars@[j] != '\n',
        decreases chars.len() - i,
    {
        i += 1;
    }
    proof {
        assert forall|j: int| 0 <= j < i - pos implies s[j] != '\n' by {
            assert(s[j] == chars@[pos + j]);
        }
        lemma_line_end_is(s, i - pos);
    }
    if i == chars.len() {
        proof {
            assert(chars@.subrange(pos as int, i as int) =~= s);
            assert(chars@.skip(i as int) =~= Seq::<char>::empty());
            assert(lines(chars@.skip(i as int)) =~= Seq::<Seq<char>>::empty());
        }
        (i, i)
    } else {
        let to: usize = if i > pos && chars[i - 1] == '\r' {
            i - 1
        } else {
            i
        };
        proof {
            let head = s.take(i - pos);
            assert(head =~= chars@.subrange(pos as int, i as int));
            assert(without_cr(head) =~= chars@.subrange(pos as int, to as int));
            assert(s.skip(i - pos + 1) =~= chars@.skip(i + 1));
        }
        (to, i + 1)
    }
}

/// A set of characters that can be stripped from the ends of a text.
#[derive(Clone, Copy, Debug, PartialEq, Eq, Structural)]
pub enum CharClass {
    /// The characters with Unicode's `White_Space` property.
    Whitespace,
    /// The forward slash.
    Slash,
}

/// Whether `c` has Unicode's `White_Space` property.
pub open spec fn is_space(c: char) -> bool {
    let n = c as u32;
    ||| 0x09 <= n <= 0x0d
    ||| n == 0x20
    ||| n == 0x85
    ||| n == 0xa0
    ||| n == 0x1680
    ||| 0x2000 <= n <= 0x200a
    ||| n == 0x2028
    ||| n == 0x2029
    ||| n == 0x202f
    ||| n == 0x205f
    ||| n == 0x3000
}

impl CharClass {
    /// Whether `c` belongs to the class.
    pub open spec fn holds(self, c: char) -> bool {
        match self {
            CharClass::Whitespace => is_space(c),
            CharClass::Slash => c == '/',
        }
    }

    /// Whether `c` belongs to the class.
    pub fn test(&self, c: char) -> (b: bool)
        ensures
            b == self.holds(c),
    {
        match self {
            CharClass::Whitespace => {
                let n: u32 = c as u32;
                (0x09 <= n && n <= 0x0d) || n == 0x20 || n == 0x85 || n == 0xa0 || n == 0x1680 || (
                0x2000 <= n && n <= 0x200a) || n == 0x2028 || n == 0x2029 || n == 0x202f || n
                    == 0x205f || n == 0x3000
            },
            CharClass::Slash => c == '/',
        }
    }
}

/// `s` without its longest prefix of characters of `class`.
pub open spec fn strip_start(s: Seq<char>, class: CharClass) -> Seq<char>
    decreases s.len(),
{
    if s.len() > 0 && class.holds(s[0]) {
        strip_start(s.drop_first(), class)
    } else {
        s
    }
}

/// `s` without its longest suffix of characters of `class`.
pub open spec fn strip_end(s: Seq<char>, class: CharClass) -> Seq<char>
    decreases s.len(),
{
    if s.len() > 0 && class.holds(s.last()) {
        strip_end(s.drop_last(), class)
    } else {
        s
    }
}

/// `s` without the characters of `class` at either end.
pub open spec fn strip_both(s: Seq<char>, class: CharClass) -> Seq<char> {
    strip_end(strip_start(s, class), class)
}

/// The range of `chars[from..to]` that is left when the characters of `class`
/// at either end are dropped.
pub fn strip_range(chars: &Vec<char>, from: usize, to: usize, class: CharClass) -> (r: (
    usize,
    usize,
))
    requires
        from <= to <= chars.len(),
    ensures
        from <= r.0 <= r.1 <= to,
        chars@.subrange(r.0 as int, r.1 as int) == strip_both(
            chars@.subrange(from as int, to as int),
            class,
        ),
{
    let mut a: usize = from;
    while a < to && class.test(chars[a])
        invariant
            from <= a <= to <= chars.len(),
            strip_start(chars@.subrange(from as int, to as int), class) == strip_start(
                chars@.subrange(a as int, to as int),
                class,
            ),
        decreases to - a,
    {
        proof {
            let cur = chars@.subrange(a as int, to as int);
            assert(cur.drop_first() =~= chars@.subrange(a + 1, to as int));
        }
        a += 1;
    }
    let mut b: usize = to;
    while a < b && class.test(chars[b - 1])
        invariant
            from <= a <= b <= to <= chars.len(),
            strip_both(chars@.subrange(from as int, to as int), class) == strip_end(
                chars@.subrange(a as int, b as int),
                class,
            ),
        decreases b - a,
    {
        proof {
            let cur = chars@.subrange(a as int, b as int);
            assert(cur.drop_last() =~= chars@.subrange(a as int, b - 1));
        }
        b -= 1;
    }
    (a, b)
}

/// Whether `chars[from..to]` starts with `prefix`.
pub fn starts_with(chars: &Vec<char>, from: usize, to: usize, prefix: &Vec<char>) -> (b: bool)
    requires
        from <= to <= chars.len(),
    ensures
        b == prefix@.is_prefix_of(chars@.subrange(from as int, to as int)),
{
    if prefix.len() > to - from {
        return false;
    }
    let ghost s = chars@.subrange(from as int, to as int);
    let mut i: usize = 0;
    while i < prefix.len()
        invariant
            from <= to <= chars.len(),
            prefix.len() <= to - from,
            i <= prefix.len(),
            s == chars@.subrange(from as int, to as int),
            forall|j: int| 0 <= j < i ==> s[j] == prefix@[j],
        decreases prefix.len() - i,
    {
        if chars[from + i] != prefix[i] {
            proof {
                assert(s[i as int] != prefix@[i as int]);
                assert(s.subrange(0, prefix@.len() as int)[i as int] == s[i as int]);
            }
            return false;
        }
        i += 1;
    }
    proof {
        assert(s.subrange(0, prefix@.len() as int) =~= prefix@);
    }
    true
}

/// `s` with every `from` turned into `to`.
pub open spec fn replaced(s: Seq<char>, from: char, to: char) -> Seq<char> {
    Seq::new(
        s.len(),
        |i: int|
            if s[i] == from {
                to
            } else {
                s[i]
            },
    )
}

/// A copy of `chars[from..to]` with every `old_char` turned into `new_char`.
pub fn replace_range(chars: &Vec<char>, from: usize, to: usize, old_char: char, new_char: char) -> (out:
    Vec<char>)
    requires
        from <= to <= chars.len(),
    ensures
        out@ == replaced(chars@.subrange(from as int, to as int), old_char, new_char),
{
    let mut out: Vec<char> = Vec::new();
    let mut i: usize = from;
    while i < to
        invariant
            from <= i <= to <= chars.len(),
            out@ == replaced(chars@.subrange(from as int, i as int), old_char, new_char),
        decreases to - i,
    {
        let c = chars[i];
        out.push(if c == old_char {
            new_char
        } else {
            c
        });
        proof {
            assert(out@ =~= replaced(chars@.subrange(from as int, i + 1), old_char, new_char));
        }
        i += 1;
    }
    out
}

/// The views of a sequence of strings.
pub open spec fn texts(names: Seq<String>) -> Seq<Seq<char>> {
    names.map_values(|s: String| s@)
}

/// A copy of a list of strings.
pub fn clone_strings(names: &Vec<String>) -> (out: Vec<String>)
    ensures
        texts(out@) == texts(names@),
{
    let mut out: Vec<String> = Vec::new();
    let mut i: usize = 0;
    while i < names.len()
        invariant
            i <= names.len(),
            texts(out@) == texts(names@).take(i as int),
        decreases names.len() - i,
    {
        let ghost before = texts(out@);
        let name = names[i].clone();
        out.push(name);
        proof {
            assert(texts(out@) =~= before.push(name@));
            assert(texts(out@) =~= texts(names@).take(i + 1));
        }
        i += 1;
    }
    proof {
        assert(texts(names@).take(names@.len() as int) =~= texts(names@));
    }
    out
}

} // verus!
