//! Destination resolution.
//!
//! Given the installation mode, the font kind and the source file name,
//! the resolver computes the target directory and a destination file name
//! that collides with no pre-existing file. The driver hands in the names
//! already present in the target directory; resolution itself is a pure
//! function of those values, so resolving twice returns the same name.
//!
//! Collision avoidance appends `-1`, `-2`, `-3`, ... to the file stem
//! (keeping the original extension, or omitting the separator entirely
//! when there is none) and takes the first candidate that is not present.
//! The proofs here show that the search always terminates: the candidate
//! names are pairwise distinct, so among any `n + 1` of them at least one
//! is absent from a directory holding `n` names.

use vstd::prelude::*;
use crate::bytes::{copy_bytes, bytes_eq, joined, join_path, push_bytes, sub_bytes};
use crate::decimal::{dec_rep, dec_u64, lemma_dec_rep_len, lemma_dec_rep_injective};
use crate::detect::{FontKind, subdir_of, kind_subdir};

verus! {

/// The byte value of `.`.
pub const DOT: u8 = 46;

/// The byte value of `-`.
pub const DASH: u8 = 45;

/// The position of the last `.` in `name` that starts an extension, or
/// `-1` when there is none. A dot at position 0 starts no extension: a
/// leading-dot name such as `.fonts` is all stem.
pub open spec fn last_dot(name: Seq<u8>) -> int
    decreases name.len(),
{
    if name.len() <= 1 {
        -1
    } else if name[name.len() - 1] == DOT {
        name.len() - 1
    } else {
        last_dot(name.drop_last())
    }
}

/// `last_dot` returns `-1` or a dot position in `[1, name.len())`.
pub proof fn lemma_last_dot(name: Seq<u8>)
    ensures
        last_dot(name) == -1 || (1 <= last_dot(name) < name.len() && name[last_dot(name)] == DOT),
    decreases name.len(),
{
    if name.len() <= 1 {
    } else if name[name.len() - 1] == DOT {
    } else {
        lemma_last_dot(name.drop_last());
    }
}

/// The stem of a file name: everything before the extension separator,
/// or the whole name when there is no extension.
pub open spec fn stem_of(name: Seq<u8>) -> Seq<u8> {
    if last_dot(name) < 0 {
        name
    } else {
        name.subrange(0, last_dot(name))
    }
}

/// The extension of a file name: everything after the last `.`, possibly
/// empty; empty also when the name has no `.` past its first byte.
pub open spec fn ext_of(name: Seq<u8>) -> Seq<u8> {
    if last_dot(name) < 0 {
        Seq::empty()
    } else {
        name.subrange(last_dot(name) + 1, name.len() as int)
    }
}

/// The `i`-th collision-avoidance candidate built from a stem and an
/// extension: `stem-i.ext`, or `stem-i` when the extension is empty.
pub open spec fn candidate_parts(stem: Seq<u8>, ext: Seq<u8>, i: nat) -> Seq<u8> {
    if ext.len() == 0 {
        stem + seq![DASH] + dec_rep(i)
    } else {
        stem + seq![DASH] + dec_rep(i) + seq![DOT] + ext
    }
}

/// The `i`-th collision-avoidance candidate for a file name.
pub open spec fn candidate(name: Seq<u8>, i: nat) -> Seq<u8> {
    candidate_parts(stem_of(name), ext_of(name), i)
}

/// Shape of a candidate: its length, and the digit block it embeds.
proof fn lemma_candidate_shape(name: Seq<u8>, i: nat)
    ensures
        candidate(name, i).len() == stem_of(name).len() + 1 + dec_rep(i).len() + (
        if ext_of(name).len() == 0 {
            0int
        } else {
            1 + ext_of(name).len() as int
        }),
        forall|k: int|
            0 <= k < dec_rep(i).len() ==> candidate(name, i)[stem_of(name).len() + 1 + k]
                == dec_rep(i)[k],
{
    let s = stem_of(name);
    let d = dec_rep(i);
    let e = ext_of(name);
    if e.len() == 0 {
        assert(candidate(name, i) == s + seq![DASH] + d);
        assert forall|k: int| 0 <= k < d.len() implies candidate(name, i)[s.len() + 1 + k]
            == d[k] by {
            assert((s + seq![DASH] + d)[s.len() + 1 + k] == d[k]);
        }
    } else {
        assert(candidate(name, i) == s + seq![DASH] + d + seq![DOT] + e);
        assert forall|k: int| 0 <= k < d.len() implies candidate(name, i)[s.len() + 1 + k]
            == d[k] by {
            assert((s + seq![DASH] + d + seq![DOT] + e)[s.len() + 1 + k] == d[k]);
        }
    }
}

/// Distinct counters give distinct candidate names.
pub proof fn lemma_candidate_injective(name: Seq<u8>, i: nat, j: nat)
    requires
        candidate(name, i) == candidate(name, j),
    ensures
        i == j,
{
    lemma_candidate_shape(name, i);
    lemma_candidate_shape(name, j);
    assert(dec_rep(i).len() == dec_rep(j).len());
    assert forall|k: int| 0 <= k < dec_rep(i).len() implies dec_rep(i)[k] == dec_rep(j)[k] by {
        assert(candidate(name, i)[stem_of(name).len() + 1 + k] == dec_rep(i)[k]);
        assert(candidate(name, j)[stem_of(name).len() + 1 + k] == dec_rep(j)[k]);
    }
    assert(dec_rep(i) =~= dec_rep(j));
    lemma_dec_rep_injective(i, j);
}

/// A candidate is strictly longer than the name it was built from, so it
/// never equals that name.
pub proof fn lemma_candidate_longer(name: Seq<u8>, i: nat)
    ensures
        candidate(name, i).len() > name.len(),
        candidate(name, i) != name,
{
    lemma_candidate_shape(name, i);
    lemma_dec_rep_len(i);
    lemma_last_dot(name);
    let p = last_dot(name);
    if p >= 0 {
        assert(stem_of(name).len() == p);
        assert(ext_of(name).len() == name.len() - p - 1);
    }
}

/// What it means for `r` to be the resolved destination name for `name`
/// against the set of names already `existing`: `name` itself when it is
/// free, otherwise the first candidate `stem-i(.ext)` that is free.
pub open spec fn is_resolution(name: Seq<u8>, existing: Seq<Seq<u8>>, r: Seq<u8>) -> bool {
    if !existing.contains(name) {
        r == name
    } else {
        exists|i: nat|
            #![trigger candidate(name, i)]
            1 <= i && r == candidate(name, i) && !existing.contains(candidate(name, i)) && (
            forall|j: nat|
                #![trigger candidate(name, j)]
                1 <= j < i ==> existing.contains(candidate(name, j)))
    }
}

/// Among the candidates numbered `start` through `start + existing.len()`
/// at least one is absent from `existing`: there is one more candidate
/// than there are names, and the candidates are pairwise distinct.
pub proof fn lemma_free_candidate(name: Seq<u8>, existing: Seq<Seq<u8>>, start: nat)
    ensures
        exists|i: nat|
            #![trigger candidate(name, i)]
            start <= i <= start + existing.len() && !existing.contains(candidate(name, i)),
    decreases existing.len(),
{
    if !existing.contains(candidate(name, start)) {
        assert(start <= start <= start + existing.len() && !existing.contains(
            candidate(name, start),
        ));
    } else {
        let k = choose|k: int| 0 <= k < existing.len() && existing[k] == candidate(name, start);
        let shorter = existing.remove(k);
        existing.remove_ensures(k);
        lemma_free_candidate(name, shorter, start + 1);
        let i = choose|i: nat|
            #![trigger candidate(name, i)]
            start + 1 <= i <= start + 1 + shorter.len() && !shorter.contains(candidate(name, i));
        assert(!existing.contains(candidate(name, i))) by {
            if existing.contains(candidate(name, i)) {
                let m = choose|m: int|
                    0 <= m < existing.len() && existing[m] == candidate(name, i);
                if m == k {
                    lemma_candidate_injective(name, i, start);
                    assert(false);
                } else if m < k {
                    assert(shorter[m] == existing[m]);
                    assert(shorter.contains(candidate(name, i)));
                } else {
                    assert(shorter[m - 1] == existing[m]);
                    assert(shorter.contains(candidate(name, i)));
                }
            }
        }
        assert(start <= i <= start + existing.len() && !existing.contains(candidate(name, i)));
    }
}

/// The resolution property determines the destination name uniquely:
/// resolving twice against the same directory contents returns the same
/// name both times.
pub proof fn lemma_resolution_deterministic(
    name: Seq<u8>,
    existing: Seq<Seq<u8>>,
    r1: Seq<u8>,
    r2: Seq<u8>,
)
    requires
        is_resolution(name, existing, r1),
        is_resolution(name, existing, r2),
    ensures
        r1 == r2,
{
    if existing.contains(name) {
        let i1 = choose|i: nat|
            #![trigger candidate(name, i)]
            1 <= i && r1 == candidate(name, i) && !existing.contains(candidate(name, i)) && (
            forall|j: nat|
                #![trigger candidate(name, j)]
                1 <= j < i ==> existing.contains(candidate(name, j)));
        let i2 = choose|i: nat|
            #![trigger candidate(name, i)]
            1 <= i && r2 == candidate(name, i) && !existing.contains(candidate(name, i)) && (
            forall|j: nat|
                #![trigger candidate(name, j)]
                1 <= j < i ==> existing.contains(candidate(name, j)));
        if i1 < i2 {
            assert(existing.contains(candidate(name, i1)));
            assert(false);
        }
        if i2 < i1 {
            assert(existing.contains(candidate(name, i2)));
            assert(false);
        }
    }
}

/// When the directory holds exactly `name, stem-1(.ext), ...,
/// stem-(n-1)(.ext)`, resolution steps past all of them and lands on
/// `stem-n(.ext)`.
pub proof fn lemma_resolution_fills_gap(
    name: Seq<u8>,
    existing: Seq<Seq<u8>>,
    r: Seq<u8>,
    n: nat,
)
    requires
        n >= 1,
        forall|s: Seq<u8>|
            #![trigger existing.contains(s)]
            existing.contains(s) <==> (s == name || (exists|j: nat|
                #![trigger candidate(name, j)]
                1 <= j < n && s == candidate(name, j))),
        is_resolution(name, existing, r),
    ensures
        r == candidate(name, n),
{
    assert(existing.contains(name));
    assert(!existing.contains(candidate(name, n))) by {
        lemma_candidate_longer(name, n);
        if existing.contains(candidate(name, n)) {
            let j = choose|j: nat|
                #![trigger candidate(name, j)]
                1 <= j < n && candidate(name, n) == candidate(name, j);
            lemma_candidate_injective(name, n, j);
            assert(false);
        }
    }
    let i = choose|i: nat|
        #![trigger candidate(name, i)]
        1 <= i && r == candidate(name, i) && !existing.contains(candidate(name, i)) && (
        forall|j: nat|
            #![trigger candidate(name, j)]
            1 <= j < i ==> existing.contains(candidate(name, j)));
    if i < n {
        assert(existing.contains(candidate(name, i)));
        assert(false);
    }
    if i > n {
        assert(existing.contains(candidate(name, n)));
        assert(false);
    }
}

/// Split a file name into stem and extension.
fn split_name(name: &Vec<u8>) -> (r: (Vec<u8>, Vec<u8>))
    ensures
        r.0@ == stem_of(name@),
        r.1@ == ext_of(name@),
{
    let ghost whole = name@;
    proof {
        assert(whole.subrange(0, whole.len() as int) =~= whole);
    }
    let mut i: usize = name.len();
    while i > 1
        invariant
            0 <= i <= name@.len(),
            last_dot(name@) == last_dot(name@.subrange(0, i as int)),
        decreases i,
    {
        if name[i - 1] == DOT {
            proof {
                assert(name@.subrange(0, i as int).len() == i);
                assert(name@.subrange(0, i as int)[i - 1] == DOT);
                assert(last_dot(name@.subrange(0, i as int)) == i - 1);
            }
            let stem = sub_bytes(name, 0, i - 1);
            let ext = sub_bytes(name, i, name.len());
            return (stem, ext);
        }
        proof {
            assert(name@.subrange(0, i as int).drop_last() =~= name@.subrange(0, (i - 1) as int));
        }
        i = i - 1;
    }
    proof {
        assert(name@.subrange(0, i as int).len() <= 1);
        assert(last_dot(name@) == -1);
        assert(Seq::<u8>::empty() =~= ext_of(name@));
    }
    let stem = copy_bytes(name);
    let ext: Vec<u8> = Vec::new();
    (stem, ext)
}

/// Build the `i`-th candidate name from a stem and an extension.
fn make_candidate(stem: &Vec<u8>, ext: &Vec<u8>, i: u64) -> (r: Vec<u8>)
    ensures
        r@ == candidate_parts(stem@, ext@, i as nat),
{
    let mut v = copy_bytes(stem);
    v.push(DASH);
    let digits = dec_u64(i);
    push_bytes(&mut v, &digits);
    if ext.len() > 0 {
        v.push(DOT);
        push_bytes(&mut v, ext);
    }
    proof {
        assert(v@ =~= candidate_parts(stem@, ext@, i as nat));
    }
    v
}

/// Whether `x` is among the names in `existing`.
fn contains_bytes(existing: &Vec<Vec<u8>>, x: &Vec<u8>) -> (r: bool)
    ensures
        r == existing.deep_view().contains(x@),
{
    let ghost dv = existing.deep_view();
    let mut m: usize = 0;
    while m < existing.len()
        invariant
            0 <= m <= existing@.len(),
            dv == existing.deep_view(),
            dv.len() == existing@.len(),
            forall|j: int| 0 <= j < m ==> dv[j] != x@,
        decreases existing@.len() - m,
    {
        proof {
            assert(dv[m as int] =~= existing@[m as int]@);
        }
        if bytes_eq(&existing[m], x) {
            proof {
                assert(dv[m as int] == x@);
            }
            return true;
        }
        m = m + 1;
    }
    proof {
        if dv.contains(x@) {
            let w = choose|w: int| 0 <= w < dv.len() && dv[w] == x@;
            assert(false);
        }
    }
    false
}

/// The destination file name for `name` in a directory whose entries are
/// `existing`: `name` itself when free, else the first free candidate
/// `stem-1(.ext)`, `stem-2(.ext)`, ... Resolution is a pure function of
/// its arguments; it touches nothing and always finds a free name.
pub fn unique_path(name: &Vec<u8>, existing: &Vec<Vec<u8>>) -> (r: Vec<u8>)
    requires
        existing@.len() < 0x1000_0000_0000_0000,
    ensures
        is_resolution(name@, existing.deep_view(), r@),
        !existing.deep_view().contains(r@),
{
    let ghost dv = existing.deep_view();
    if !contains_bytes(existing, name) {
        return copy_bytes(name);
    }
    let parts = split_name(name);
    let n: usize = existing.len();
    let mut i: u64 = 1;
    while i <= (n as u64) + 1
        invariant
            1 <= i <= n + 2,
            n == existing@.len(),
            n < 0x1000_0000_0000_0000,
            dv == existing.deep_view(),
            dv.len() == n,
            parts.0@ == stem_of(name@),
            parts.1@ == ext_of(name@),
            dv.contains(name@),
            forall|j: nat|
                #![trigger candidate(name@, j)]
                1 <= j < i ==> dv.contains(candidate(name@, j)),
        decreases n + 2 - i,
    {
        let cand = make_candidate(&parts.0, &parts.1, i);
        if !contains_bytes(existing, &cand) {
            proof {
                assert(cand@ == candidate(name@, i as nat));
                assert(1 <= i as nat && cand@ == candidate(name@, i as nat) && !dv.contains(
                    candidate(name@, i as nat),
                ) && (forall|j: nat|
                    #![trigger candidate(name@, j)]
                    1 <= j < i as nat ==> dv.contains(candidate(name@, j))));
            }
            return cand;
        }
        i = i + 1;
    }
    proof {
        lemma_free_candidate(name@, dv, 1);
        let w = choose|w: nat|
            #![trigger candidate(name@, w)]
            1 <= w <= 1 + dv.len() && !dv.contains(candidate(name@, w));
        assert(dv.contains(candidate(name@, w)));
        assert(false);
    }
    copy_bytes(name)
}

/// The fixed system font root `/usr/share/fonts`, as bytes.
pub open spec fn system_font_root() -> Seq<u8> {
    seq![47u8, 117u8, 115u8, 114u8, 47u8, 115u8, 104u8, 97u8, 114u8, 101u8, 47u8, 102u8, 111u8, 110u8, 116u8, 115u8]
}

/// The path segment `fonts`, as bytes.
pub open spec fn fonts_segment() -> Seq<u8> {
    seq![102u8, 111u8, 110u8, 116u8, 115u8]
}

/// The relative fallback `.local/share/fonts`, as bytes.
pub open spec fn user_fallback_rel() -> Seq<u8> {
    seq![46u8, 108u8, 111u8, 99u8, 97u8, 108u8, 47u8, 115u8, 104u8, 97u8, 114u8, 101u8, 47u8, 102u8, 111u8, 110u8, 116u8, 115u8]
}

/// The base font directory for a user-mode install, from the environment
/// values the driver read: `$XDG_DATA_HOME/fonts` when that variable is
/// set, else `$HOME/.local/share/fonts`, else the relative fallback
/// `.local/share/fonts`.
pub open spec fn user_base_spec(xdg: Option<Seq<u8>>, home: Option<Seq<u8>>) -> Seq<u8> {
    match xdg {
        Option::Some(x) => joined(x, fonts_segment()),
        Option::None => match home {
            Option::Some(h) => joined(h, user_fallback_rel()),
            Option::None => user_fallback_rel(),
        },
    }
}

/// The base font directory for an install: the user-mode directory, or
/// the fixed system root.
pub open spec fn base_dir_spec(user_mode: bool, xdg: Option<Seq<u8>>, home: Option<Seq<u8>>) -> Seq<u8> {
    if user_mode {
        user_base_spec(xdg, home)
    } else {
        system_font_root()
    }
}

/// The path segment `fonts`.
fn fonts_segment_vec() -> (r: Vec<u8>)
    ensures
        r@ == fonts_segment(),
{
    let mut v: Vec<u8> = Vec::new();
    v.push(102);
    v.push(111);
    v.push(110);
    v.push(116);
    v.push(115);
    proof {
        assert(v@ =~= fonts_segment());
    }
    v
}

/// The relative fallback `.local/share/fonts`.
fn user_fallback_vec() -> (r: Vec<u8>)
    ensures
        r@ == user_fallback_rel(),
{
    let mut v: Vec<u8> = Vec::new();
    v.push(46);
    v.push(108);
    v.push(111);
    v.push(99);
    v.push(97);
    v.push(108);
    v.push(47);
    v.push(115);
    v.push(104);
    v.push(97);
    v.push(114);
    v.push(101);
    v.push(47);
    v.push(102);
    v.push(111);
    v.push(110);
    v.push(116);
    v.push(115);
    proof {
        assert(v@ =~= user_fallback_rel());
    }
    v
}

/// The fixed system font root `/usr/share/fonts`.
fn system_root_vec() -> (r: Vec<u8>)
    ensures
        r@ == system_font_root(),
{
    let mut v: Vec<u8> = Vec::new();
    v.push(47);
    v.push(117);
    v.push(115);
    v.push(114);
    v.push(47);
    v.push(115);
    v.push(104);
    v.push(97);
    v.push(114);
    v.push(101);
    v.push(47);
    v.push(102);
    v.push(111);
    v.push(110);
    v.push(116);
    v.push(115);
    proof {
        assert(v@ =~= system_font_root());
    }
    v
}

/// The base font directory for a user-mode install, from the environment
/// values the driver read.
pub fn user_fonts_base(xdg: &Option<Vec<u8>>, home: &Option<Vec<u8>>) -> (r: Vec<u8>)
    ensures
        r@ == user_base_spec(xdg.deep_view(), home.deep_view()),
{
    match xdg {
        Option::Some(x) => {
            proof {
                assert(x.deep_view() =~= x@);
            }
            join_path(x, &fonts_segment_vec())
        },
        Option::None => match home {
            Option::Some(h) => {
                proof {
                    assert(h.deep_view() =~= h@);
                }
                join_path(h, &user_fallback_vec())
            },
            Option::None => user_fallback_vec(),
        },
    }
}

/// The base font directory for an install.
pub fn base_dir(user_mode: bool, xdg: &Option<Vec<u8>>, home: &Option<Vec<u8>>) -> (r: Vec<u8>)
    ensures
        r@ == base_dir_spec(user_mode, xdg.deep_view(), home.deep_view()),
{
    if user_mode {
        user_fonts_base(xdg, home)
    } else {
        system_root_vec()
    }
}

/// The resolved installation target: the directory to create, the
/// collision-free destination file name inside it, and their join.
pub struct InstallTarget {
    pub dir: Vec<u8>,
    pub file_name: Vec<u8>,
    pub dest: Vec<u8>,
}

/// Resolve the full installation target from the mode, the environment
/// values, the detected kind, the source file name, and the names already
/// present in the target directory.
pub fn resolve_target(
    user_mode: bool,
    xdg: &Option<Vec<u8>>,
    home: &Option<Vec<u8>>,
    kind: FontKind,
    file_name: &Vec<u8>,
    existing: &Vec<Vec<u8>>,
) -> (t: InstallTarget)
    requires
        existing@.len() < 0x1000_0000_0000_0000,
    ensures
        t.dir@ == joined(base_dir_spec(user_mode, xdg.deep_view(), home.deep_view()), subdir_of(kind)),
        is_resolution(file_name@, existing.deep_view(), t.file_name@),
        !existing.deep_view().contains(t.file_name@),
        t.dest@ == joined(t.dir@, t.file_name@),
{
    let base = base_dir(user_mode, xdg, home);
    let dir = join_path(&base, &kind_subdir(kind));
    let name = unique_path(file_name, existing);
    let dest = join_path(&dir, &name);
    InstallTarget { dir, file_name: name, dest }
}

} // verus!
