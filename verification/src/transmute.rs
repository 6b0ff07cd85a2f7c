//! Bit-preserving conversions: the full compatibility relation, and the
//! conversions it justifies.
//!
//! A conversion is a linear hand-off of a value's bytes: the source
//! binding is consumed, its bit pattern is read back as the destination
//! type, and nothing is finalized twice. Whether the hand-off is
//! admissible is decided entirely from the two type descriptions and the
//! waiver set; there is no run-time re-check and no error path.

use vstd::prelude::*;
use vstd::arithmetic::div_mod::lemma_fundamental_div_mod;
use vstd::arithmetic::div_mod::lemma_mod_multiples_vanish;
use vstd::arithmetic::div_mod::lemma_small_mod;

use crate::options::SafeTransmuteOptions;
use crate::options::UnsafeTransmuteOptions;
use crate::options::Waivers;
use crate::relation::is_structural;
use crate::relation::lemma_structural_monotone;
use crate::relation::lemma_ref_size_bound;
use crate::relation::lemma_structural_size;
use crate::relation::place_ok;
use crate::relation::structural;
use crate::stability::Registry;
use crate::stability::in_arch;
use crate::stability::inbound_archetype;
use crate::stability::lemma_in_arch_sound;
use crate::stability::lemma_out_arch_sound;
use crate::stability::out_arch;
use crate::stability::outbound_archetype;
use crate::stability::reg_wf;
use crate::ty::ByteKind;
use crate::ty::Ty;
use crate::ty::bytes_fit;
use crate::ty::clone_ty;
use crate::ty::fits;
use crate::ty::lemma_rep_index;
use crate::ty::lemma_rep_len;
use crate::ty::lemma_vbytes_len;
use crate::ty::ty_size;
use crate::ty::ty_vbytes;
use crate::ty::ty_wf;

verus! {

/// One byte of a value's storage: either initialized with a value, or
/// uninitialized.
#[derive(Clone, Copy, PartialEq, Eq, Structural, Debug)]
pub enum MemByte {
    /// An initialized byte holding the given value.
    Init(u8),
    /// An uninitialized byte.
    Uninit,
}

/// Whether a byte constrained as `k` may actually hold `b`.
pub open spec fn kind_allows(k: ByteKind, b: MemByte) -> bool {
    match k {
        ByteKind::Uninit => true,
        ByteKind::Init => b is Init,
        ByteKind::Ptr => b is Init,
    }
}

/// Whether the bytes `b` form a legal instance of the described type `t`.
pub open spec fn val_ok(t: Ty, b: Seq<MemByte>) -> bool {
    &&& b.len() == ty_size(t)
    &&& forall|i: int| 0 <= i < b.len() ==> kind_allows(ty_vbytes(t)[i], b[i])
}

/// A value: a type description together with the bytes of one instance.
pub struct Value {
    /// The description of the value's type.
    pub ty: Ty,
    /// The value's storage, byte by byte.
    pub bytes: Vec<MemByte>,
}

impl Value {
    /// A well-formed value: its type is well formed and its bytes are a
    /// legal instance of it.
    pub open spec fn wf(self) -> bool {
        &&& ty_wf(self.ty)
        &&& val_ok(self.ty, self.bytes@)
    }
}

/// The full compatibility relation, "from" direction: the bit pattern of
/// a `src` may be read back as a `dst` under waiver set `w`.
///
/// With stability waived the two current layouts alone decide. With
/// stability demanded, both endpoints must be stability-committed and
/// their worst-case future shapes — the outbound archetype of the source
/// and the inbound archetype of the destination — must convert
/// structurally, with the remaining waivers still in force.
pub open spec fn transmutable_from(reg: Registry, dst: Ty, src: Ty, w: Waivers) -> bool {
    ||| (w.stability && structural(src, dst, w))
    ||| match (out_arch(reg, src), in_arch(reg, dst)) {
        (Some(a_s), Some(a_d)) => structural(a_s, a_d, w.with_stability()),
        _ => false,
    }
}

/// The full compatibility relation, "into" direction: defined purely by
/// flipping the argument order of [`transmutable_from`].
pub open spec fn transmutable_into(reg: Registry, src: Ty, dst: Ty, w: Waivers) -> bool {
    transmutable_from(reg, dst, src, w)
}

/// Bytes acceptable under source constraints are acceptable under any
/// destination constraints that fit them.
proof fn lemma_fit_allows(dv: Seq<ByteKind>, sv: Seq<ByteKind>, b: Seq<MemByte>)
    requires
        bytes_fit(dv, sv),
        b.len() == sv.len(),
        forall|i: int| 0 <= i < b.len() ==> kind_allows(sv[i], b[i]),
    ensures
        forall|i: int| 0 <= i < dv.len() ==> kind_allows(dv[i], b[i]),
{
    assert forall|i: int| 0 <= i < dv.len() implies kind_allows(dv[i], b[i]) by {
        assert(fits(dv[i], sv[i]));
        assert(kind_allows(sv[i], b[i]));
    }
}

/// A structural conversion that checks validity turns every legal source
/// instance into a legal destination instance.
pub proof fn lemma_structural_preserves_validity(s: Ty, d: Ty, w: Waivers, b: Seq<MemByte>)
    requires
        structural(s, d, w),
        !w.validity,
        val_ok(s, b),
    ensures
        val_ok(d, b),
    decreases s, 0int,
{
    lemma_vbytes_len(s);
    lemma_vbytes_len(d);
    lemma_structural_size(s, d, w);
    if s == d {
    } else {
        match (s, d) {
            (Ty::Array(se, n), Ty::Array(de, m)) => {
                if n == m && structural(*se, *de, w) {
                    lemma_array_elementwise_validity(*se, *de, n as nat, w, b);
                } else {
                    lemma_fit_allows(ty_vbytes(d), ty_vbytes(s), b);
                }
            },
            (Ty::Ref(_), Ty::Ref(_)) => {},
            (Ty::RefMut(_), Ty::RefMut(_)) => {},
            (Ty::RefMut(_), Ty::Ref(_)) => {},
            (Ty::RawPtr(_), Ty::RawPtr(_)) => {},
            _ => {
                lemma_fit_allows(ty_vbytes(d), ty_vbytes(s), b);
            },
        }
    }
}

/// Lifting a validity-checking conversion over the elements of two
/// equal-length sequences preserves instance validity.
proof fn lemma_array_elementwise_validity(se: Ty, de: Ty, n: nat, w: Waivers, b: Seq<MemByte>)
    requires
        structural(se, de, w),
        !w.validity,
        val_ok(Ty::Array(Box::new(se), n as usize), b),
        n <= usize::MAX,
    ensures
        val_ok(Ty::Array(Box::new(de), n as usize), b),
    decreases se, 1int,
{
    let s = Ty::Array(Box::new(se), n as usize);
    let d = Ty::Array(Box::new(de), n as usize);
    lemma_structural_size(se, de, w);
    let sz = ty_size(se) as int;
    lemma_vbytes_len(se);
    lemma_vbytes_len(de);
    lemma_rep_len(ty_vbytes(se), n);
    lemma_rep_len(ty_vbytes(de), n);
    assert(ty_size(s) == n * sz) by (nonlinear_arith)
        requires
            ty_size(s) == n * ty_size(se),
            sz == ty_size(se) as int,
    ;
    assert(ty_size(d) == n * sz) by (nonlinear_arith)
        requires
            ty_size(d) == n * ty_size(de),
            sz == ty_size(de) as int,
            ty_size(de) == ty_size(se),
    ;
    if sz == 0 {
        assert(n * sz == 0) by (nonlinear_arith)
            requires
                sz == 0,
        ;
        assert(b.len() == 0);
    } else {
        assert forall|i: int| 0 <= i < b.len() implies kind_allows(ty_vbytes(d)[i], b[i]) by {
            let k = i / sz;
            let j = i % sz;
            lemma_fundamental_div_mod(i, sz);
            assert(0 <= j < sz);
            assert(sz * k == k * sz) by (nonlinear_arith);
            assert(i == k * sz + j);
            assert(0 <= k < n) by (nonlinear_arith)
                requires
                    i == sz * k + j,
                    0 <= j < sz,
                    0 <= i < n * sz,
            ;
            assert(k * sz + sz <= n * sz) by (nonlinear_arith)
                requires
                    k < n,
                    sz > 0,
            ;
            let chunk = b.subrange(k * sz, k * sz + sz);
            assert forall|jj: int| 0 <= jj < sz implies kind_allows(
                ty_vbytes(se)[jj],
                chunk[jj],
            ) by {
                lemma_rep_index(ty_vbytes(se), n, k * sz + jj);
                lemma_mod_multiples_vanish(k, jj, sz);
                lemma_small_mod(jj as nat, sz as nat);
                assert(ty_vbytes(s)[k * sz + jj] == ty_vbytes(se)[jj]);
                assert(kind_allows(ty_vbytes(s)[k * sz + jj], b[k * sz + jj]));
            }
            assert(val_ok(se, chunk));
            lemma_structural_preserves_validity(se, de, w, chunk);
            lemma_rep_index(ty_vbytes(de), n, i);
            lemma_mod_multiples_vanish(k, j, sz);
            lemma_small_mod(j as nat, sz as nat);
            assert(ty_vbytes(d)[i] == ty_vbytes(de)[j]);
            assert(kind_allows(ty_vbytes(de)[j], chunk[j]));
            assert(chunk[j] == b[i]);
        }
    }
}

/// An admissible conversion never changes the size of the value.
pub proof fn lemma_transmutable_size(reg: Registry, dst: Ty, src: Ty, w: Waivers)
    requires
        reg_wf(reg),
        transmutable_from(reg, dst, src, w),
    ensures
        ty_size(src) == ty_size(dst),
{
    if w.stability && structural(src, dst, w) {
        lemma_structural_size(src, dst, w);
    } else {
        let a_s = out_arch(reg, src)->0;
        let a_d = in_arch(reg, dst)->0;
        lemma_out_arch_sound(reg, src, a_s);
        lemma_in_arch_sound(reg, dst, a_d);
        lemma_structural_size(src, a_s, Waivers::stability_only());
        lemma_structural_size(a_s, a_d, w.with_stability());
        lemma_structural_size(a_d, dst, Waivers::stability_only());
    }
}

/// An admissible conversion that checks validity turns every legal source
/// instance into a legal destination instance.
pub proof fn lemma_transmutable_preserves_validity(
    reg: Registry,
    dst: Ty,
    src: Ty,
    w: Waivers,
    b: Seq<MemByte>,
)
    requires
        reg_wf(reg),
        transmutable_from(reg, dst, src, w),
        !w.validity,
        val_ok(src, b),
    ensures
        val_ok(dst, b),
{
    if w.stability && structural(src, dst, w) {
        lemma_structural_preserves_validity(src, dst, w, b);
    } else {
        let a_s = out_arch(reg, src)->0;
        let a_d = in_arch(reg, dst)->0;
        lemma_out_arch_sound(reg, src, a_s);
        lemma_in_arch_sound(reg, dst, a_d);
        lemma_structural_preserves_validity(src, a_s, Waivers::stability_only(), b);
        lemma_structural_preserves_validity(a_s, a_d, w.with_stability(), b);
        lemma_structural_preserves_validity(a_d, dst, Waivers::stability_only(), b);
    }
}

/// Law: reading a value back as its own type is always admissible once
/// stability is neglected — no layout drift is relied upon.
pub proof fn lemma_reflexive(reg: Registry, t: Ty, w: Waivers)
    requires
        w.stability,
    ensures
        transmutable_from(reg, t, t, w),
{
}

/// Law: if a conversion holds under a waiver set, it holds under every
/// larger waiver set — waiving more never invalidates it.
pub proof fn lemma_waiver_monotone(reg: Registry, dst: Ty, src: Ty, w: Waivers, w2: Waivers)
    requires
        transmutable_from(reg, dst, src, w),
        w.le(w2),
    ensures
        transmutable_from(reg, dst, src, w2),
{
    if w.stability && structural(src, dst, w) {
        lemma_structural_monotone(src, dst, w, w2);
    } else {
        let a_s = out_arch(reg, src)->0;
        let a_d = in_arch(reg, dst)->0;
        lemma_structural_monotone(a_s, a_d, w.with_stability(), w2.with_stability());
    }
}

/// Decides the full compatibility relation, "from" direction, for a
/// waiver set given as a value.
pub(crate) fn check_transmutable_from(reg: &Registry, dst: &Ty, src: &Ty, w: Waivers) -> (r: bool)
    requires
        reg_wf(*reg),
        ty_wf(*dst),
        ty_wf(*src),
    ensures
        r == transmutable_from(*reg, *dst, *src, w),
{
    if w.stability && is_structural(src, dst, w) {
        return true;
    }
    match outbound_archetype(reg, src) {
        Some(a_s) => match inbound_archetype(reg, dst) {
            Some(a_d) => {
                let w2 = Waivers { stability: true, alignment: w.alignment, validity: w.validity };
                is_structural(&a_s, &a_d, w2)
            },
            None => false,
        },
        None => false,
    }
}

/// Decides the full compatibility relation, "from" direction.
pub fn is_transmutable_from<N: UnsafeTransmuteOptions>(
    reg: &Registry,
    dst: &Ty,
    src: &Ty,
    neglect: &N,
) -> (r: bool)
    requires
        reg_wf(*reg),
        ty_wf(*dst),
        ty_wf(*src),
    ensures
        r == transmutable_from(*reg, *dst, *src, neglect.waivers()),
{
    check_transmutable_from(reg, dst, src, neglect.waiver_set())
}

/// Decides the full compatibility relation, "into" direction.
pub fn is_transmutable_into<N: UnsafeTransmuteOptions>(
    reg: &Registry,
    src: &Ty,
    dst: &Ty,
    neglect: &N,
) -> (r: bool)
    requires
        reg_wf(*reg),
        ty_wf(*dst),
        ty_wf(*src),
    ensures
        r == transmutable_into(*reg, *src, *dst, neglect.waivers()),
{
    is_transmutable_from(reg, dst, src, neglect)
}

/// Reinterprets the bits of a value as another type, safely.
///
/// The conversion must be proven admissible by the caller; there is no
/// run-time check and no error path. The source is consumed: its bytes are
/// handed off linearly, never duplicated, and the result is a well-formed
/// instance of the destination type, bit-identical to the input.
pub fn safe_transmute<N: SafeTransmuteOptions>(
    reg: &Registry,
    src: Value,
    dst: &Ty,
    neglect: &N,
) -> (r: Value)
    requires
        reg_wf(*reg),
        src.wf(),
        ty_wf(*dst),
        transmutable_into(*reg, src.ty, *dst, neglect.waivers()),
    ensures
        r.ty == *dst,
        r.bytes@ == src.bytes@,
        r.wf(),
{
    proof {
        neglect.waivers_are_safe();
        lemma_transmutable_preserves_validity(*reg, *dst, src.ty, neglect.waivers(), src.bytes@);
    }
    Value { ty: clone_ty(dst), bytes: src.bytes }
}

/// Reinterprets the bits of a value as another type, potentially
/// unsafely: the waiver set may also neglect alignment or validity, and
/// the caller attests to whatever was waived.
///
/// The result is bit-identical to the input and has the destination's
/// size; it is a well-formed instance whenever validity was not waived.
pub fn unsafe_transmute<N: UnsafeTransmuteOptions>(
    reg: &Registry,
    src: Value,
    dst: &Ty,
    neglect: &N,
) -> (r: Value)
    requires
        reg_wf(*reg),
        src.wf(),
        ty_wf(*dst),
        transmutable_into(*reg, src.ty, *dst, neglect.waivers()),
    ensures
        r.ty == *dst,
        r.bytes@ == src.bytes@,
        r.bytes@.len() == ty_size(*dst),
        !neglect.waivers().validity ==> r.wf(),
{
    proof {
        lemma_transmutable_size(*reg, *dst, src.ty, neglect.waivers());
        if !neglect.waivers().validity {
            lemma_transmutable_preserves_validity(
                *reg,
                *dst,
                src.ty,
                neglect.waivers(),
                src.bytes@,
            );
        }
    }
    Value { ty: clone_ty(dst), bytes: src.bytes }
}

impl Value {
    /// Reinterprets the bits of this value as the destination type,
    /// safely. See [`safe_transmute`].
    pub fn transmute_into<N: SafeTransmuteOptions>(self, reg: &Registry, dst: &Ty, neglect: &N) -> (r:
        Value)
        requires
            reg_wf(*reg),
            self.wf(),
            ty_wf(*dst),
            transmutable_into(*reg, self.ty, *dst, neglect.waivers()),
        ensures
            r.ty == *dst,
            r.bytes@ == self.bytes@,
            r.wf(),
    {
        safe_transmute(reg, self, dst, neglect)
    }

    /// Reinterprets the bits of this value as the destination type,
    /// potentially unsafely. See [`unsafe_transmute`].
    pub fn unsafe_transmute_into<N: UnsafeTransmuteOptions>(
        self,
        reg: &Registry,
        dst: &Ty,
        neglect: &N,
    ) -> (r: Value)
        requires
            reg_wf(*reg),
            self.wf(),
            ty_wf(*dst),
            transmutable_into(*reg, self.ty, *dst, neglect.waivers()),
        ensures
            r.ty == *dst,
            r.bytes@ == self.bytes@,
            r.bytes@.len() == ty_size(*dst),
            !neglect.waivers().validity ==> r.wf(),
    {
        unsafe_transmute(reg, self, dst, neglect)
    }

    /// Instantiates the destination type from the bits of a source value,
    /// safely. The reciprocal of [`Value::transmute_into`].
    pub fn transmute_from<N: SafeTransmuteOptions>(
        reg: &Registry,
        src: Value,
        dst: &Ty,
        neglect: &N,
    ) -> (r: Value)
        requires
            reg_wf(*reg),
            src.wf(),
            ty_wf(*dst),
            transmutable_from(*reg, *dst, src.ty, neglect.waivers()),
        ensures
            r.ty == *dst,
            r.bytes@ == src.bytes@,
            r.wf(),
    {
        safe_transmute(reg, src, dst, neglect)
    }

    /// Instantiates the destination type from the bits of a source value,
    /// potentially unsafely. The reciprocal of
    /// [`Value::unsafe_transmute_into`].
    pub fn unsafe_transmute_from<N: UnsafeTransmuteOptions>(
        reg: &Registry,
        src: Value,
        dst: &Ty,
        neglect: &N,
    ) -> (r: Value)
        requires
            reg_wf(*reg),
            src.wf(),
            ty_wf(*dst),
            transmutable_from(*reg, *dst, src.ty, neglect.waivers()),
        ensures
            r.ty == *dst,
            r.bytes@ == src.bytes@,
            r.bytes@.len() == ty_size(*dst),
            !neglect.waivers().validity ==> r.wf(),
    {
        unsafe_transmute(reg, src, dst, neglect)
    }
}


/// One structural hop between references of equal referent size carries a
/// legal instance across.
proof fn lemma_ref_structural_transfer(src: Ty, dst: Ty, w: Waivers, c: Seq<MemByte>)
    requires
        structural(src, dst, w),
        src is Ref,
        dst is Ref,
        !w.validity,
        ty_size(*dst->Ref_0) == ty_size(*src->Ref_0),
        val_ok(*src->Ref_0, c),
    ensures
        val_ok(*dst->Ref_0, c),
{
    let s_ty = *src->Ref_0;
    let d_ty = *dst->Ref_0;
    lemma_vbytes_len(s_ty);
    lemma_vbytes_len(d_ty);
    if src == dst {
    } else {
        assert(place_ok(s_ty, d_ty, w, true));
        if structural(s_ty, d_ty, w) {
            lemma_structural_preserves_validity(s_ty, d_ty, w, c);
        } else {
            lemma_fit_allows(ty_vbytes(d_ty), ty_vbytes(s_ty), c);
        }
    }
}

/// An admissible conversion between references of equal referent size
/// carries a legal instance of the source referent into a legal instance
/// of the destination referent.
pub proof fn lemma_ref_transmutable_transfer(
    reg: Registry,
    d_ty: Ty,
    s_ty: Ty,
    w: Waivers,
    c: Seq<MemByte>,
)
    requires
        reg_wf(reg),
        transmutable_from(reg, Ty::Ref(Box::new(d_ty)), Ty::Ref(Box::new(s_ty)), w),
        !w.validity,
        ty_size(d_ty) == ty_size(s_ty),
        val_ok(s_ty, c),
    ensures
        val_ok(d_ty, c),
{
    let src = Ty::Ref(Box::new(s_ty));
    let dst = Ty::Ref(Box::new(d_ty));
    if w.stability && structural(src, dst, w) {
        lemma_ref_structural_transfer(src, dst, w, c);
    } else {
        let a_s = out_arch(reg, src)->0;
        let a_d = in_arch(reg, dst)->0;
        lemma_out_arch_sound(reg, src, a_s);
        lemma_in_arch_sound(reg, dst, a_d);
        let stab = Waivers::stability_only();
        lemma_ref_size_bound(src, a_s, stab);
        lemma_ref_size_bound(a_s, a_d, w.with_stability());
        lemma_ref_size_bound(a_d, dst, stab);
        lemma_ref_structural_transfer(src, a_s, stab, c);
        lemma_ref_structural_transfer(a_s, a_d, w.with_stability(), c);
        lemma_ref_structural_transfer(a_d, dst, stab, c);
    }
}

} // verus!
