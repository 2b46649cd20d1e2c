//! Helpers over byte strings.
//!
//! Paths and file names are carried through the library as byte strings,
//! which is what a POSIX filesystem actually stores. This module holds the
//! small executable helpers (comparison, copying, concatenation, joining a
//! path component) together with their specifications.

use vstd::prelude::*;

verus! {

/// The byte value of the path separator `/`.
pub const SEP: u8 = 47;

/// Whether two byte strings hold the same bytes.
pub fn bytes_eq(a: &Vec<u8>, b: &Vec<u8>) -> (r: bool)
    ensures
        r == (a@ == b@),
{
    if a.len() != b.len() {
        return false;
    }
    let mut i: usize = 0;
    while i < a.len()
        invariant
            a@.len() == b@.len(),
            0 <= i <= a@.len(),
            forall|j: int| 0 <= j < i ==> a@[j] == b@[j],
        decreases a@.len() - i,
    {
        if a[i] != b[i] {
            return false;
        }
        i = i + 1;
    }
    proof {
        assert(a@ =~= b@);
    }
    true
}

/// Append all bytes of `src` to `dst`.
pub fn push_bytes(dst: &mut Vec<u8>, src: &Vec<u8>)
    ensures
        final(dst)@ == old(dst)@ + src@,
{
    let mut i: usize = 0;
    while i < src.len()
        invariant
            0 <= i <= src@.len(),
            dst@ == old(dst)@ + src@.subrange(0, i as int),
        decreases src@.len() - i,
    {
        dst.push(src[i]);
        i = i + 1;
        proof {
            assert(dst@ =~= old(dst)@ + src@.subrange(0, i as int));
        }
    }
    proof {
        assert(src@.subrange(0, src@.len() as int) =~= src@);
    }
}

/// A fresh copy of a byte string.
pub fn copy_bytes(src: &Vec<u8>) -> (r: Vec<u8>)
    ensures
        r@ == src@,
{
    let mut v: Vec<u8> = Vec::new();
    push_bytes(&mut v, src);
    proof {
        assert(Seq::<u8>::empty() + src@ =~= src@);
    }
    v
}

/// The bytes of `src` between positions `a` (inclusive) and `b` (exclusive).
pub fn sub_bytes(src: &Vec<u8>, a: usize, b: usize) -> (r: Vec<u8>)
    requires
        a <= b <= src@.len(),
    ensures
        r@ == src@.subrange(a as int, b as int),
{
    let mut v: Vec<u8> = Vec::new();
    let mut i: usize = a;
    while i < b
        invariant
            a <= i <= b <= src@.len(),
            v@ == src@.subrange(a as int, i as int),
        decreases b - i,
    {
        v.push(src[i]);
        i = i + 1;
        proof {
            assert(v@ =~= src@.subrange(a as int, i as int));
        }
    }
    v
}

/// How the driver joins a directory path and a relative component: a `/` is
/// inserted unless the directory is empty or already ends with one.
pub open spec fn joined(dir: Seq<u8>, name: Seq<u8>) -> Seq<u8> {
    if dir.len() == 0 {
        name
    } else if dir.last() == SEP {
        dir + name
    } else {
        dir + seq![SEP] + name
    }
}

/// Join a directory path and a relative component.
pub fn join_path(dir: &Vec<u8>, name: &Vec<u8>) -> (r: Vec<u8>)
    ensures
        r@ == joined(dir@, name@),
{
    let mut v = copy_bytes(dir);
    if dir.len() > 0 {
        if dir[dir.len() - 1] != SEP {
            v.push(SEP);
        }
    }
    push_bytes(&mut v, name);
    proof {
        if dir@.len() > 0 && dir@.last() != SEP {
            assert(dir@.push(SEP) + name@ =~= dir@ + seq![SEP] + name@);
        }
    }
    v
}

/// ASCII lowercasing of one byte; bytes outside `A`..`Z` are unchanged.
pub open spec fn lower_byte(b: u8) -> u8 {
    if 65 <= b && b <= 90 {
        (b + 32) as u8
    } else {
        b
    }
}

/// ASCII lowercasing of a byte string.
pub open spec fn lower(s: Seq<u8>) -> Seq<u8> {
    s.map_values(|b: u8| lower_byte(b))
}

/// The ASCII-lowercased copy of a byte string.
pub fn to_lower(src: &Vec<u8>) -> (r: Vec<u8>)
    ensures
        r@ == lower(src@),
{
    let mut v: Vec<u8> = Vec::new();
    let mut i: usize = 0;
    while i < src.len()
        invariant
            0 <= i <= src@.len(),
            v@.len() == i,
            forall|j: int| 0 <= j < i ==> v@[j] == lower_byte(src@[j]),
        decreases src@.len() - i,
    {
        let b = src[i];
        if 65 <= b && b <= 90 {
            v.push(b + 32);
        } else {
            v.push(b);
        }
        i = i + 1;
    }
    proof {
        assert(v@ =~= lower(src@));
    }
    v
}

} // verus!
