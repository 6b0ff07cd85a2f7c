//! The structural half of the compatibility relation: whether the bit
//! pattern of a value of one described type may be read back as another,
//! judged from the two layouts alone, with stability already set aside.

use vstd::prelude::*;

use crate::options::Waivers;
use crate::ty::ByteKind;
use crate::ty::Ty;
use crate::ty::bytes_fit;
use crate::ty::compute_vbytes;
use crate::ty::fits;
use crate::ty::size_of;
use crate::ty::ty_align;
use crate::ty::ty_eq;
use crate::ty::ty_size;
use crate::ty::ty_vbytes;
use crate::ty::ty_wf;
use crate::ty::align_of;

verus! {

/// Whether a plain by-value reinterpretation of `src`'s bytes as `dst` is
/// admissible: the sizes agree, and unless validity is waived every byte
/// of the source is acceptable where the destination expects it.
pub open spec fn bytes_rule(src: Ty, dst: Ty, w: Waivers) -> bool {
    &&& ty_size(src) == ty_size(dst)
    &&& (w.validity || bytes_fit(ty_vbytes(dst), ty_vbytes(src)))
}

/// The by-value structural relation, with stability already neglected:
/// `src`'s bit pattern may be read back as `dst` under waivers `w`.
///
/// Identical descriptions always convert. Matching pointer carriers
/// convert when their referents convert as places. Equal-length sequences
/// lift the relation over their elements. Everything else falls to the
/// byte rule, under which pointer bytes are never forged from plain data
/// nor read back as plain initialized data.
pub open spec fn structural(src: Ty, dst: Ty, w: Waivers) -> bool
    decreases src, 0int,
{
    ||| src == dst
    ||| match (src, dst) {
        (Ty::Ref(s), Ty::Ref(d)) => place_ok(*s, *d, w, true),
        (Ty::RefMut(s), Ty::RefMut(d)) => place_ok(*s, *d, w, true),
        (Ty::RefMut(s), Ty::Ref(d)) => place_ok(*s, *d, w, true),
        (Ty::RawPtr(s), Ty::RawPtr(d)) => place_ok(*s, *d, w, false),
        (Ty::Array(s, n), Ty::Array(d, m)) => (n == m && structural(*s, *d, w)) || bytes_rule(
            src,
            dst,
            w,
        ),
        _ => bytes_rule(src, dst, w),
    }
}

/// Whether storage holding an `s` may be read through a pointer to `d`:
/// the destination reads no further than the source's storage, its bytes
/// are acceptable unless validity is waived, and — for references, unless
/// alignment is waived — the destination demands no stricter alignment.
pub open spec fn place_ok(s: Ty, d: Ty, w: Waivers, is_ref: bool) -> bool
    decreases s, 1int,
{
    &&& (!is_ref || w.alignment || ty_align(d) <= ty_align(s))
    &&& (structural(s, d, w) || place_bytes_ok(s, d, w))
}

/// The prefix-read rule for places: the destination covers no more bytes
/// than the source's storage, and each covered byte is acceptable.
pub open spec fn place_bytes_ok(s: Ty, d: Ty, w: Waivers) -> bool {
    &&& ty_size(d) <= ty_size(s)
    &&& (w.validity || bytes_fit(ty_vbytes(d), ty_vbytes(s)))
}

/// A by-value structural conversion never changes the size.
pub proof fn lemma_structural_size(src: Ty, dst: Ty, w: Waivers)
    requires
        structural(src, dst, w),
    ensures
        ty_size(src) == ty_size(dst),
    decreases src,
{
    if src == dst {
    } else {
        match (src, dst) {
            (Ty::Array(s, n), Ty::Array(d, m)) => {
                if n == m && structural(*s, *d, w) {
                    lemma_structural_size(*s, *d, w);
                }
            },
            _ => {},
        }
    }
}

/// Waiving more guarantees never invalidates a structural conversion.
pub proof fn lemma_structural_monotone(src: Ty, dst: Ty, w: Waivers, w2: Waivers)
    requires
        structural(src, dst, w),
        w.le(w2),
    ensures
        structural(src, dst, w2),
    decreases src, 0int,
{
    if src == dst {
    } else {
        match (src, dst) {
            (Ty::Ref(s), Ty::Ref(d)) => lemma_place_monotone(*s, *d, w, w2, true),
            (Ty::RefMut(s), Ty::RefMut(d)) => lemma_place_monotone(*s, *d, w, w2, true),
            (Ty::RefMut(s), Ty::Ref(d)) => lemma_place_monotone(*s, *d, w, w2, true),
            (Ty::RawPtr(s), Ty::RawPtr(d)) => lemma_place_monotone(*s, *d, w, w2, false),
            (Ty::Array(s, n), Ty::Array(d, m)) => {
                if n == m && structural(*s, *d, w) {
                    lemma_structural_monotone(*s, *d, w, w2);
                }
            },
            _ => {},
        }
    }
}

/// Waiving more guarantees never invalidates a place conversion.
pub proof fn lemma_place_monotone(s: Ty, d: Ty, w: Waivers, w2: Waivers, is_ref: bool)
    requires
        place_ok(s, d, w, is_ref),
        w.le(w2),
    ensures
        place_ok(s, d, w2, is_ref),
    decreases s, 1int,
{
    if structural(s, d, w) {
        lemma_structural_monotone(s, d, w, w2);
    }
}

/// Decides the by-value structural relation.
pub fn is_structural(src: &Ty, dst: &Ty, w: Waivers) -> (r: bool)
    requires
        ty_wf(*src),
        ty_wf(*dst),
    ensures
        r == structural(*src, *dst, w),
    decreases *src, 0int,
{
    if ty_eq(src, dst) {
        return true;
    }
    match (src, dst) {
        (Ty::Ref(s), Ty::Ref(d)) => is_place_ok(&**s, &**d, w, true),
        (Ty::RefMut(s), Ty::RefMut(d)) => is_place_ok(&**s, &**d, w, true),
        (Ty::RefMut(s), Ty::Ref(d)) => is_place_ok(&**s, &**d, w, true),
        (Ty::RawPtr(s), Ty::RawPtr(d)) => is_place_ok(&**s, &**d, w, false),
        (Ty::Array(s, n), Ty::Array(d, m)) => {
            if *n == *m && is_structural(&**s, &**d, w) {
                true
            } else {
                check_bytes_rule(src, dst, w)
            }
        },
        _ => check_bytes_rule(src, dst, w),
    }
}

/// Decides the by-value byte rule.
fn check_bytes_rule(src: &Ty, dst: &Ty, w: Waivers) -> (r: bool)
    requires
        ty_wf(*src),
        ty_wf(*dst),
    ensures
        r == bytes_rule(*src, *dst, w),
{
    let ss = size_of(src);
    let ds = size_of(dst);
    if ss != ds {
        return false;
    }
    if w.validity {
        return true;
    }
    check_bytes_fit(dst, src)
}

/// Decides whether every byte the destination covers accepts the byte the
/// source supplies there.
fn check_bytes_fit(d: &Ty, s: &Ty) -> (r: bool)
    requires
        ty_wf(*d),
        ty_wf(*s),
        ty_size(*d) <= ty_size(*s),
    ensures
        r == bytes_fit(ty_vbytes(*d), ty_vbytes(*s)),
{
    let dv = compute_vbytes(d);
    let sv = compute_vbytes(s);
    let mut i: usize = 0;
    while i < dv.len()
        invariant
            dv@ == ty_vbytes(*d),
            sv@ == ty_vbytes(*s),
            dv@.len() <= sv@.len(),
            i <= dv.len(),
            forall|j: int| 0 <= j < i ==> fits(dv@[j], sv@[j]),
        decreases dv.len() - i,
    {
        if !byte_fits(dv[i], sv[i]) {
            return false;
        }
        i = i + 1;
    }
    true
}

/// Decides whether a destination byte accepts a source byte.
fn byte_fits(d: ByteKind, s: ByteKind) -> (r: bool)
    ensures
        r == fits(d, s),
{
    match d {
        ByteKind::Uninit => true,
        ByteKind::Init => match s {
            ByteKind::Init => true,
            _ => false,
        },
        ByteKind::Ptr => false,
    }
}

/// Decides the place relation for referents.
pub fn is_place_ok(s: &Ty, d: &Ty, w: Waivers, is_ref: bool) -> (r: bool)
    requires
        ty_wf(*s),
        ty_wf(*d),
    ensures
        r == place_ok(*s, *d, w, is_ref),
    decreases *s, 1int,
{
    if is_ref && !w.alignment {
        let da = align_of(d);
        let sa = align_of(s);
        if da > sa {
            return false;
        }
    }
    if is_structural(s, d, w) {
        return true;
    }
    let ss = size_of(s);
    let ds = size_of(d);
    if ds > ss {
        return false;
    }
    if w.validity {
        return true;
    }
    check_bytes_fit(d, s)
}


/// A place conversion never reads beyond the source's storage.
pub proof fn lemma_place_size(s: Ty, d: Ty, w: Waivers, is_ref: bool)
    requires
        place_ok(s, d, w, is_ref),
    ensures
        ty_size(d) <= ty_size(s),
{
    if structural(s, d, w) {
        lemma_structural_size(s, d, w);
    }
}


/// A structural conversion between references never widens the referent's
/// size.
pub proof fn lemma_ref_size_bound(src: Ty, dst: Ty, w: Waivers)
    requires
        structural(src, dst, w),
        src is Ref,
        dst is Ref,
    ensures
        ty_size(*dst->Ref_0) <= ty_size(*src->Ref_0),
{
    if src == dst {
    } else {
        lemma_place_size(*src->Ref_0, *dst->Ref_0, w, true);
    }
}

} // verus!
