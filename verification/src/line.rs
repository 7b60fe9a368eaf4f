//! Line framing on raw bytes: where the first newline stands, what a line's
//! text is once trailing whitespace is removed, and what stays buffered.

use vstd::prelude::*;

verus! {

/// The byte that ends a line.
pub const NEWLINE: u8 = 10;

/// ASCII whitespace: space, tab, line feed, vertical tab, form feed, carriage return.
pub open spec fn is_space(b: u8) -> bool {
    b == 32 || (9 <= b && b <= 13)
}

/// Index of the first newline of `s`, or `s.len()` where `s` holds none.
pub open spec fn newline_pos(s: Seq<u8>) -> nat
    decreases s.len(),
{
    if s.len() == 0 {
        0
    } else if s[0] == NEWLINE {
        0
    } else {
        1 + newline_pos(s.drop_first())
    }
}

/// Whether `s` holds at least one complete line.
pub open spec fn has_newline(s: Seq<u8>) -> bool {
    newline_pos(s) < s.len()
}

/// `s` without its trailing whitespace.
pub open spec fn trim_end(s: Seq<u8>) -> Seq<u8>
    decreases s.len(),
{
    if s.len() > 0 && is_space(s.last()) {
        trim_end(s.drop_last())
    } else {
        s
    }
}

/// Number of bytes the first line of `s` takes on the wire, newline included.
pub open spec fn line_wire_len(s: Seq<u8>) -> nat {
    newline_pos(s) + 1
}

/// Text of the first line of `s`: the bytes up to and including the first
/// newline, with trailing whitespace removed. Meaningful where `has_newline(s)`.
pub open spec fn line_text(s: Seq<u8>) -> Seq<u8> {
    trim_end(s.subrange(0, line_wire_len(s) as int))
}

/// What follows the first line of `s`. Meaningful where `has_newline(s)`.
pub open spec fn after_line(s: Seq<u8>) -> Seq<u8> {
    s.subrange(line_wire_len(s) as int, s.len() as int)
}

/// Every complete line of `s`, in order, each trimmed.
pub open spec fn complete_lines(s: Seq<u8>) -> Seq<Seq<u8>>
    decreases s.len(),
{
    if has_newline(s) {
        seq![line_text(s)] + complete_lines(after_line(s))
    } else {
        Seq::empty()
    }
}

/// The bytes of `s` behind its last newline: the line still being received.
pub open spec fn unfinished(s: Seq<u8>) -> Seq<u8>
    decreases s.len(),
{
    if has_newline(s) {
        unfinished(after_line(s))
    } else {
        s
    }
}

/// `newline_pos` is the least index that holds a newline.
pub proof fn lemma_newline_pos(s: Seq<u8>)
    ensures
        newline_pos(s) <= s.len(),
        forall|i: int| 0 <= i < newline_pos(s) ==> s[i] != NEWLINE,
        has_newline(s) ==> s[newline_pos(s) as int] == NEWLINE,
    decreases s.len(),
{
    if s.len() > 0 && s[0] != NEWLINE {
        let t = s.drop_first();
        lemma_newline_pos(t);
        assert forall|i: int| 0 <= i < newline_pos(s) implies s[i] != NEWLINE by {
            if i > 0 {
                assert(s[i] == t[i - 1]);
            }
        }
        if has_newline(s) {
            assert(s[newline_pos(s) as int] == t[newline_pos(t) as int]);
        }
    }
}

/// An index with no newline before it, that is the end or holds a newline,
/// is `newline_pos`.
pub proof fn lemma_newline_pos_is(s: Seq<u8>, p: int)
    requires
        0 <= p <= s.len(),
        forall|i: int| 0 <= i < p ==> s[i] != NEWLINE,
        p < s.len() ==> s[p] == NEWLINE,
    ensures
        newline_pos(s) == p,
{
    lemma_newline_pos(s);
    let q = newline_pos(s) as int;
    if q < p {
        assert(s[q] == NEWLINE);
    } else if p < q {
        assert(s[p] != NEWLINE);
    }
}

/// Trimming removes the whitespace at the end and nothing else: what is left
/// is a prefix that does not end in whitespace, and every byte behind it is
/// whitespace.
pub proof fn lemma_trim_end(s: Seq<u8>)
    ensures
        trim_end(s).len() <= s.len(),
        trim_end(s) == s.subrange(0, trim_end(s).len() as int),
        trim_end(s).len() > 0 ==> !is_space(trim_end(s).last()),
        forall|i: int| trim_end(s).len() <= i < s.len() ==> is_space(s[i]),
    decreases s.len(),
{
    if s.len() > 0 && is_space(s.last()) {
        let t = s.drop_last();
        lemma_trim_end(t);
        let n = trim_end(t).len() as int;
        assert(t.subrange(0, n) =~= s.subrange(0, n));
        assert forall|i: int| trim_end(s).len() <= i < s.len() implies is_space(s[i]) by {
            if i < t.len() {
                assert(s[i] == t[i]);
            }
        }
    } else {
        assert(s.subrange(0, s.len() as int) =~= s);
    }
}

/// Position of the first newline of `buf`, if it holds one.
pub fn find_newline(buf: &Vec<u8>) -> (pos: Option<usize>)
    ensures
        match pos {
            Some(p) => has_newline(buf@) && p == newline_pos(buf@),
            None => !has_newline(buf@),
        },
{
    let mut i: usize = 0;
    while i < buf.len()
        invariant
            i <= buf.len(),
            forall|j: int| 0 <= j < i ==> buf@[j] != NEWLINE,
        decreases buf.len() - i,
    {
        if buf[i] == NEWLINE {
            proof {
                lemma_newline_pos_is(buf@, i as int);
            }
            return Some(i);
        }
        i += 1;
    }
    proof {
        lemma_newline_pos_is(buf@, i as int);
    }
    None
}

/// Whether `b` is ASCII whitespace.
pub fn byte_is_space(b: u8) -> (r: bool)
    ensures
        r == is_space(b),
{
    b == 32 || (9 <= b && b <= 13)
}

/// Length of `buf` once its trailing whitespace is removed.
pub fn trimmed_len(buf: &Vec<u8>) -> (n: usize)
    ensures
        n <= buf@.len(),
        n == trim_end(buf@).len(),
        trim_end(buf@) == buf@.subrange(0, n as int),
{
    let mut n: usize = buf.len();
    proof {
        assert(buf@.subrange(0, n as int) =~= buf@);
    }
    while n > 0 && byte_is_space(buf[n - 1])
        invariant
            n <= buf.len(),
            trim_end(buf@) == trim_end(buf@.subrange(0, n as int)),
        decreases n,
    {
        proof {
            assert(buf@.subrange(0, n as int).drop_last() =~= buf@.subrange(0, n as int - 1));
        }
        n -= 1;
    }
    n
}

/// Takes the first complete line out of `buf`, if there is one.
///
/// On `Some((text, wire_len))`, `text` is the line without its trailing
/// whitespace, `wire_len` counts the bytes it took on the wire, and `buf`
/// keeps what followed the newline. On `None`, `buf` holds no newline and is
/// left as it was.
pub fn take_line(buf: &mut Vec<u8>) -> (taken: Option<(Vec<u8>, usize)>)
    ensures
        match taken {
            Some((text, wire_len)) => {
                &&& has_newline(old(buf)@)
                &&& text@ == line_text(old(buf)@)
                &&& wire_len == line_wire_len(old(buf)@)
                &&& final(buf)@ == after_line(old(buf)@)
            },
            None => !has_newline(old(buf)@) && final(buf)@ == old(buf)@,
        },
{
    let found = find_newline(buf);
    match found {
        None => None,
        Some(p) => {
            assert(p < buf.len());
            let wire_len: usize = p + 1;
            let mut text = buf.split_off(wire_len);
            core::mem::swap(buf, &mut text);
            let keep: usize = trimmed_len(&text);
            let ghost line = text@;
            text.truncate(keep);
            assert(text@ =~= line.subrange(0, keep as int));
            Some((text, wire_len))
        },
    }
}

} // verus!
