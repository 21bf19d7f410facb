//! Character-level helpers shared by the parsers of the crate.
//!
//! Every string of the crate is viewed as its sequence of characters. The
//! functions here move between `str`, `String` and `Vec<char>`, fold ASCII
//! case and split on a separator.

use vstd::prelude::*;

verus! {

/// Appends one character to a string.
///
/// Trusted: `String::push` of std, which adds the character at the end and
/// leaves the rest as it was.
#[verifier::external_body]
fn push_char(s: &mut String, c: char)
    ensures
        final(s)@ == old(s)@.push(c),
{
    s.push(c);
}

/// The characters of `s`, in order.
pub fn to_chars(s: &str) -> (out: Vec<char>)
    ensures
        out@ == s@,
{
    let mut out: Vec<char> = Vec::new();
    for c in it: s.chars()
        invariant
            out@ == s@.subrange(0, it.index() as int),
            it.seq() == s@,
    {
        out.push(c);
        proof {
            assert(out@ =~= s@.subrange(0, it.index() + 1));
        }
    }
    proof {
        assert(s@.subrange(0, s@.len() as int) =~= s@);
    }
    out
}

/// The string made of the characters of `v[from..to]`.
pub fn from_char_range(v: &Vec<char>, from: usize, to: usize) -> (out: String)
    requires
        from <= to <= v.len(),
    ensures
        out@ == v@.subrange(from as int, to as int),
{
    let mut out = String::new();
    let mut i: usize = from;
    while i < to
        invariant
            from <= i <= to <= v.len(),
            out@ == v@.subrange(from as int, i as int),
        decreases to - i,
    {
        push_char(&mut out, v[i]);
        i = i + 1;
        proof {
            assert(out@ =~= v@.subrange(from as int, i as int));
        }
    }
    out
}

/// The string made of the characters of `v`.
pub fn from_chars(v: &Vec<char>) -> (out: String)
    ensures
        out@ == v@,
{
    let out = from_char_range(v, 0, v.len());
    proof {
        assert(v@.subrange(0, v@.len() as int) =~= v@);
    }
    out
}

/// An owned copy of `s`.
pub fn owned(s: &str) -> (out: String)
    ensures
        out@ == s@,
{
    let v = to_chars(s);
    from_chars(&v)
}

/// `a` followed by `b`.
pub fn append_str(a: &str, b: &str) -> (out: String)
    ensures
        out@ == a@ + b@,
{
    let va = to_chars(a);
    let vb = to_chars(b);
    let mut out = from_chars(&va);
    let mut i: usize = 0;
    while i < vb.len()
        invariant
            i <= vb.len(),
            vb@ == b@,
            out@ == a@ + b@.subrange(0, i as int),
        decreases vb.len() - i,
    {
        push_char(&mut out, vb[i]);
        i = i + 1;
        proof {
            assert(out@ =~= a@ + b@.subrange(0, i as int));
        }
    }
    proof {
        assert(b@.subrange(0, b@.len() as int) =~= b@);
    }
    out
}

/// Whether two character vectors hold the same characters.
pub fn chars_equal(a: &Vec<char>, b: &Vec<char>) -> (same: bool)
    ensures
        same == (a@ == b@),
{
    if a.len() != b.len() {
        return false;
    }
    let mut i: usize = 0;
    while i < a.len()
        invariant
            i <= a.len(),
            a.len() == b.len(),
            a@.subrange(0, i as int) == b@.subrange(0, i as int),
        decreases a.len() - i,
    {
        if a[i] != b[i] {
            return false;
        }
        i = i + 1;
        proof {
            assert(a@.subrange(0, i as int) =~= a@.subrange(0, i - 1).push(a@[i - 1]));
            assert(b@.subrange(0, i as int) =~= b@.subrange(0, i - 1).push(b@[i - 1]));
        }
    }
    proof {
        assert(a@.subrange(0, a@.len() as int) =~= a@);
        assert(b@.subrange(0, b@.len() as int) =~= b@);
    }
    true
}

/// Whether two strings hold the same characters.
pub fn str_equal(a: &str, b: &str) -> (same: bool)
    ensures
        same == (a@ == b@),
{
    let va = to_chars(a);
    let vb = to_chars(b);
    chars_equal(&va, &vb)
}

/// The strings of a list by their characters.
pub open spec fn names_view(names: Seq<String>) -> Seq<Seq<char>> {
    Seq::new(names.len(), |i: int| names[i]@)
}

/// The lower-case form of an ASCII capital; every other character unchanged.
pub open spec fn lower_char(c: char) -> char {
    if 'A' <= c && c <= 'Z' {
        ((c as u8) + 32) as char
    } else {
        c
    }
}

/// `s` with every ASCII capital replaced by its lower-case form.
pub open spec fn lower(s: Seq<char>) -> Seq<char> {
    Seq::new(s.len(), |i: int| lower_char(s[i]))
}

/// Whether `a` and `b` differ at most in the case of ASCII letters.
pub open spec fn same_ignoring_case(a: Seq<char>, b: Seq<char>) -> bool {
    lower(a) == lower(b)
}

/// Lower-cases one character.
pub fn to_lower_char(c: char) -> (out: char)
    ensures
        out == lower_char(c),
{
    if 'A' <= c && c <= 'Z' {
        let b: u8 = c as u8;
        (b + 32) as char
    } else {
        c
    }
}

/// Lower-cases the ASCII letters of `s`.
pub fn to_lower(s: &str) -> (out: String)
    ensures
        out@ == lower(s@),
{
    let v = to_chars(s);
    let mut out = String::new();
    let mut i: usize = 0;
    while i < v.len()
        invariant
            i <= v.len(),
            v@ == s@,
            out@ == lower(s@).subrange(0, i as int),
        decreases v.len() - i,
    {
        push_char(&mut out, to_lower_char(v[i]));
        i = i + 1;
        proof {
            assert(out@ =~= lower(s@).subrange(0, i as int));
        }
    }
    proof {
        assert(lower(s@).subrange(0, s@.len() as int) =~= lower(s@));
    }
    out
}

/// Whether two strings are equal up to the case of ASCII letters.
pub fn equal_ignoring_case(a: &str, b: &str) -> (same: bool)
    ensures
        same == same_ignoring_case(a@, b@),
{
    let la = to_lower(a);
    let lb = to_lower(b);
    str_equal(la.as_str(), lb.as_str())
}

/// The parts of `s` between occurrences of `sep`.
///
/// A sequence without `sep` is one part; every `sep` starts a new part, so
/// there is always one part more than there are separators.
pub open spec fn split(s: Seq<char>, sep: char) -> Seq<Seq<char>>
    decreases s.len(),
{
    if s.len() == 0 {
        seq![Seq::<char>::empty()]
    } else {
        let before = split(s.drop_last(), sep);
        if s.last() == sep {
            before.push(Seq::<char>::empty())
        } else {
            before.drop_last().push(before.last().push(s.last()))
        }
    }
}

/// The parts of `parts` written one after the other with `sep` between them.
pub open spec fn join(parts: Seq<Seq<char>>, sep: char) -> Seq<char>
    decreases parts.len(),
{
    if parts.len() == 0 {
        Seq::<char>::empty()
    } else if parts.len() == 1 {
        parts[0]
    } else {
        join(parts.drop_last(), sep).push(sep) + parts.last()
    }
}

/// Splitting never yields an empty list, no part holds the separator, and
/// joining the parts with the separator gives the input back.
pub proof fn lemma_split_join(s: Seq<char>, sep: char)
    ensures
        split(s, sep).len() >= 1,
        forall|i: int| 0 <= i < split(s, sep).len() ==> !(#[trigger] split(s, sep)[i]).contains(sep),
        join(split(s, sep), sep) == s,
    decreases s.len(),
{
    if s.len() == 0 {
        assert(join(split(s, sep), sep) =~= s);
    } else {
        let before = split(s.drop_last(), sep);
        lemma_split_join(s.drop_last(), sep);
        let now = split(s, sep);
        if s.last() == sep {
            assert(now.drop_last() =~= before);
            assert(join(now, sep) =~= join(before, sep).push(sep) + Seq::<char>::empty());
            assert(join(now, sep) =~= s.drop_last().push(sep));
            assert(s.drop_last().push(s.last()) =~= s);
        } else {
            let grown = before.last().push(s.last());
            assert(now.last() == grown);
            assert(now.drop_last() =~= before.drop_last());
            assert forall|i: int| 0 <= i < now.len() implies !(#[trigger] now[i]).contains(sep) by {
                if i == now.len() - 1 {
                    assert(!before.last().contains(sep));
                    assert forall|k: int| 0 <= k < grown.len() implies grown[k] != sep by {
                        if k < before.last().len() {
                            assert(before.last().contains(before.last()[k]));
                        }
                    }
                } else {
                    assert(now[i] == before[i]);
                }
            }
            if before.len() == 1 {
                assert(join(before, sep) == before[0]);
                assert(join(now, sep) == grown);
                assert(grown =~= s.drop_last().push(s.last()));
            } else {
                assert(join(before, sep) == join(before.drop_last(), sep).push(sep) + before.last());
                assert(join(now, sep) == join(now.drop_last(), sep).push(sep) + grown);
                assert(join(now, sep) =~= (join(before.drop_last(), sep).push(sep) + before.last()).push(
                    s.last(),
                ));
            }
            assert(s.drop_last().push(s.last()) =~= s);
        }
    }
}

/// Splits `s` at every occurrence of `sep`.
pub fn split_on(s: &str, sep: char) -> (parts: Vec<String>)
    ensures
        parts@.len() == split(s@, sep).len(),
        forall|i: int| 0 <= i < parts@.len() ==> (#[trigger] parts@[i])@ == split(s@, sep)[i],
{
    let v = to_chars(s);
    let mut parts: Vec<String> = Vec::new();
    let mut current = String::new();
    let mut i: usize = 0;
    proof {
        assert(s@.subrange(0, 0) =~= Seq::<char>::empty());
    }
    while i < v.len()
        invariant
            i <= v.len(),
            v@ == s@,
            split(s@.subrange(0, i as int), sep).len() == parts@.len() + 1,
            forall|k: int|
                0 <= k < parts@.len() ==> (#[trigger] parts@[k])@ == split(
                    s@.subrange(0, i as int),
                    sep,
                )[k],
            current@ == split(s@.subrange(0, i as int), sep).last(),
        decreases v.len() - i,
    {
        let c = v[i];
        proof {
            let next = s@.subrange(0, i + 1);
            assert(next.drop_last() =~= s@.subrange(0, i as int));
            assert(next.last() == c);
        }
        if c == sep {
            parts.push(current);
            current = String::new();
        } else {
            push_char(&mut current, c);
        }
        i = i + 1;
    }
    proof {
        assert(s@.subrange(0, s@.len() as int) =~= s@);
    }
    parts.push(current);
    parts
}

/// Whether `c` is a blank: a space, a tab, a line feed, a vertical tab, a
/// form feed or a carriage return.
pub open spec fn is_space(c: char) -> bool {
    c == ' ' || c == '\t' || c == '\n' || c == '\x0b' || c == '\x0c' || c == '\r'
}

/// `s` without the blanks in front.
pub open spec fn trim_start(s: Seq<char>) -> Seq<char>
    decreases s.len(),
{
    if s.len() > 0 && is_space(s[0]) {
        trim_start(s.drop_first())
    } else {
        s
    }
}

/// `s` without the blanks at the end.
pub open spec fn trim_end(s: Seq<char>) -> Seq<char>
    decreases s.len(),
{
    if s.len() > 0 && is_space(s.last()) {
        trim_end(s.drop_last())
    } else {
        s
    }
}

/// `s` without the blanks in front and at the end.
pub open spec fn trimmed(s: Seq<char>) -> Seq<char> {
    trim_end(trim_start(s))
}

/// Whether a character is a blank.
fn char_is_space(c: char) -> (yes: bool)
    ensures
        yes == is_space(c),
{
    c == ' ' || c == '\t' || c == '\n' || c == '\x0b' || c == '\x0c' || c == '\r'
}

/// Removes the blanks in front and at the end.
pub fn trim(s: &str) -> (out: String)
    ensures
        out@ == trimmed(s@),
{
    let v = to_chars(s);
    let mut start: usize = 0;
    proof {
        assert(s@.subrange(0, s@.len() as int) =~= s@);
    }
    while start < v.len() && char_is_space(v[start])
        invariant
            start <= v.len(),
            v@ == s@,
            trim_start(s@) == trim_start(s@.subrange(start as int, s@.len() as int)),
        decreases v.len() - start,
    {
        proof {
            let rest = s@.subrange(start as int, s@.len() as int);
            assert(rest[0] == s@[start as int]);
            assert(rest.drop_first() =~= s@.subrange(start + 1, s@.len() as int));
        }
        start = start + 1;
    }
    let ghost front = s@.subrange(start as int, s@.len() as int);
    proof {
        if start < v.len() {
            assert(front[0] == s@[start as int]);
        }
        assert(trim_start(s@) == front);
        assert(front.subrange(0, front.len() as int) =~= front);
    }
    let mut end: usize = v.len();
    while end > start && char_is_space(v[end - 1])
        invariant
            start <= end <= v.len(),
            v@ == s@,
            front == s@.subrange(start as int, s@.len() as int),
            trim_end(front) == trim_end(front.subrange(0, end - start)),
        decreases end,
    {
        proof {
            let rest = front.subrange(0, end - start);
            assert(rest.last() == s@[end - 1]);
            assert(rest.drop_last() =~= front.subrange(0, end - 1 - start));
        }
        end = end - 1;
    }
    proof {
        let rest = front.subrange(0, end - start);
        if end > start {
            assert(rest.last() == s@[end - 1]);
        }
        assert(trim_end(front) == rest);
        assert(rest =~= s@.subrange(start as int, end as int));
    }
    from_char_range(&v, start, end)
}

/// A copy of a list of strings.
pub fn copy_strings(list: &Vec<String>) -> (out: Vec<String>)
    ensures
        out@.len() == list@.len(),
        forall|i: int| 0 <= i < out@.len() ==> (#[trigger] out@[i]) == list@[i],
{
    let mut out: Vec<String> = Vec::new();
    let mut i: usize = 0;
    while i < list.len()
        invariant
            i <= list.len(),
            out@.len() == i,
            forall|k: int| 0 <= k < i ==> (#[trigger] out@[k]) == list@[k],
        decreases list.len() - i,
    {
        out.push(list[i].clone());
        i = i + 1;
    }
    out
}

} // verus!
