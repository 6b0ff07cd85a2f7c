//! Bit-altering conversions over compound carriers: runs of elements seen
//! through a reference, and owning, capacity-bearing buffers.
//!
//! Slice casting reinterprets the contents of a run and rescales its
//! length; buffer casting reuses the allocation verbatim, which is why it
//! demands equal element size and alignment — a single count and capacity
//! must describe both element types' storage at once.

use vstd::prelude::*;
use vstd::arithmetic::div_mod::lemma_fundamental_div_mod;
use vstd::arithmetic::div_mod::lemma_mod_multiples_vanish;
use vstd::arithmetic::div_mod::lemma_small_mod;

use crate::mem::align_eq;
use crate::mem::check_align_eq;
use crate::mem::is_size_eq;
use crate::mem::lemma_size_le_sound;
use crate::mem::size_eq;
use crate::options::SafeTransmuteOptions;
use crate::options::Waivers;
use crate::options::UnsafeTransmuteOptions;
use crate::stability::Registry;
use crate::stability::reg_wf;
use crate::transmute::MemByte;
use crate::transmute::is_transmutable_from;
use crate::transmute::lemma_ref_transmutable_transfer;
use crate::transmute::lemma_transmutable_preserves_validity;
use crate::transmute::lemma_transmutable_size;
use crate::transmute::kind_allows;
use crate::transmute::transmutable_from;
use crate::transmute::val_ok;
use crate::ty::Ty;
use crate::ty::clone_ty;
use crate::ty::size_of;
use crate::ty::lemma_rep_index;
use crate::ty::lemma_rep_len;
use crate::ty::lemma_vbytes_len;
use crate::ty::lemma_wf_size_bound;
use crate::ty::ty_size;
use crate::ty::ty_vbytes;
use crate::ty::ty_wf;

verus! {

/// Options usable with any cast: every unsafe transmute option is one.
pub trait UnsafeCastOptions: UnsafeTransmuteOptions {
}

impl<N: UnsafeTransmuteOptions> UnsafeCastOptions for N {
}

/// Options usable with safe casts: every safe transmute option is one.
pub trait SafeCastOptions: SafeTransmuteOptions + UnsafeCastOptions {
}

impl<N: SafeTransmuteOptions> SafeCastOptions for N {
}

/// Safe options for casting runs of elements.
pub trait SafeSliceCastOptions: SafeCastOptions {
}

impl<N: SafeCastOptions> SafeSliceCastOptions for N {
}

/// Unsafe options for casting runs of elements.
pub trait UnsafeSliceCastOptions: UnsafeCastOptions {
}

impl<N: UnsafeCastOptions> UnsafeSliceCastOptions for N {
}

/// Safe options for casting owning buffers.
pub trait SafeVecCastOptions: SafeCastOptions {
}

impl<N: SafeCastOptions> SafeVecCastOptions for N {
}

/// Unsafe options for casting owning buffers.
pub trait UnsafeVecCastOptions: UnsafeCastOptions {
}

impl<N: UnsafeCastOptions> UnsafeVecCastOptions for N {
}

/// A run of elements seen through a reference: a borrowed view, not an
/// owning buffer. Casting it produces a new view over the same bytes.
pub struct SliceVal {
    /// The element type of the run.
    pub elem: Ty,
    /// The number of elements in the run.
    pub count: usize,
    /// The run's storage, byte by byte.
    pub data: Vec<MemByte>,
}

impl SliceVal {
    /// A well-formed run: its element type is well formed and its storage
    /// covers exactly its elements.
    pub open spec fn wf(self) -> bool {
        &&& ty_wf(self.elem)
        &&& self.data@.len() == self.count as nat * ty_size(self.elem)
    }
}

/// An owning, growable, capacity-bearing buffer of elements.
pub struct VecVal {
    /// The element type of the buffer.
    pub elem: Ty,
    /// The number of initialized elements.
    pub count: usize,
    /// The allocation's capacity, in elements.
    pub capacity: usize,
    /// The storage of the initialized elements, byte by byte.
    pub data: Vec<MemByte>,
}

impl VecVal {
    /// A well-formed buffer: its element type is well formed, its count
    /// fits its capacity, and its storage covers exactly its elements.
    pub open spec fn wf(self) -> bool {
        &&& ty_wf(self.elem)
        &&& self.count <= self.capacity
        &&& self.data@.len() == self.count as nat * ty_size(self.elem)
    }
}

/// Whether `data` holds, at each of `count` consecutive element
/// positions, a legal instance of `elem`.
pub open spec fn elems_ok(elem: Ty, count: nat, data: Seq<MemByte>) -> bool {
    &&& data.len() == count * ty_size(elem)
    &&& forall|k: int|
        0 <= k < count ==> val_ok(
            elem,
            #[trigger] data.subrange(k * ty_size(elem) as int, (k + 1) * ty_size(elem) as int),
        )
}

/// An admissible element conversion of equal size carries element
/// validity across a whole run.
proof fn lemma_elems_transfer(
    reg: Registry,
    src_elem: Ty,
    dst_elem: Ty,
    w: Waivers,
    count: nat,
    data: Seq<MemByte>,
)
    requires
        reg_wf(reg),
        transmutable_from(reg, dst_elem, src_elem, w),
        !w.validity,
        elems_ok(src_elem, count, data),
    ensures
        elems_ok(dst_elem, count, data),
{
    lemma_transmutable_size(reg, dst_elem, src_elem, w);
    assert forall|k: int|
        0 <= k < count implies val_ok(
        dst_elem,
        #[trigger] data.subrange(k * ty_size(dst_elem) as int, (k + 1) * ty_size(dst_elem) as int),
    ) by {
        let sz = ty_size(src_elem) as int;
        lemma_transmutable_preserves_validity(
            reg,
            dst_elem,
            src_elem,
            w,
            data.subrange(k * sz, (k + 1) * sz),
        );
    }
}

/// In a valid run, each byte satisfies the element's constraint at its
/// offset within its element.
proof fn lemma_elems_bytes(elem: Ty, count: nat, data: Seq<MemByte>, i: int)
    requires
        elems_ok(elem, count, data),
        ty_size(elem) > 0,
        0 <= i < data.len(),
    ensures
        kind_allows(ty_vbytes(elem)[i % ty_size(elem) as int], data[i]),
{
    let sz = ty_size(elem) as int;
    let k = i / sz;
    let j = i % sz;
    lemma_fundamental_div_mod(i, sz);
    assert(sz * k == k * sz) by (nonlinear_arith);
    assert(0 <= k < count) by (nonlinear_arith)
        requires
            i == k * sz + j,
            0 <= j < sz,
            0 <= i < count * sz,
    ;
    let chunk = data.subrange(k * ty_size(elem) as int, (k + 1) * ty_size(elem) as int);
    assert((k + 1) * sz <= count * sz) by (nonlinear_arith)
        requires
            k < count,
            sz > 0,
    ;
    assert(k * sz >= 0 && (k + 1) * sz == k * sz + sz) by (nonlinear_arith)
        requires
            k >= 0,
            sz > 0,
    ;
    assert(val_ok(elem, chunk));
    lemma_vbytes_len(elem);
    assert(chunk[j] == data[i]);
}

/// An admissible cross-wise run conversion carries element validity from
/// the source run to the rescaled destination run.
proof fn lemma_slice_cast_validity(
    reg: Registry,
    se: Ty,
    de: Ty,
    w: Waivers,
    count: nat,
    data: Seq<MemByte>,
    new_count: nat,
)
    requires
        reg_wf(reg),
        slice_castable(reg, se, de, w),
        !w.validity,
        elems_ok(se, count, data),
        ty_size(se) <= usize::MAX,
        ty_size(de) <= usize::MAX,
        ty_size(de) > 0 ==> new_count == data.len() / ty_size(de),
        ty_size(de) == 0 ==> new_count == 0,
    ensures
        elems_ok(de, new_count, data.take((new_count * ty_size(de)) as int)),
{
    let s_sz = ty_size(se) as int;
    let d_sz = ty_size(de) as int;
    let len = data.len() as int;
    lemma_vbytes_len(se);
    lemma_vbytes_len(de);
    if d_sz == 0 || s_sz == 0 {
        if s_sz == 0 {
            assert(count * ty_size(se) == 0) by (nonlinear_arith)
                requires
                    ty_size(se) == 0,
            ;
        }
        assert(new_count == 0);
        assert(new_count * ty_size(de) == 0) by (nonlinear_arith)
            requires
                new_count == 0,
        ;
        let empty_take = data.take(0);
        assert(empty_take =~= Seq::<MemByte>::empty());
        assert(0nat * ty_size(de) == 0) by (nonlinear_arith);
        assert(elems_ok(de, 0, empty_take));
    } else {
        let blk = s_sz * d_sz;
        assert(blk > 0) by (nonlinear_arith)
            requires
                s_sz > 0,
                d_sz > 0,
                blk == s_sz * d_sz,
        ;
        let nblocks = (count as int + d_sz - 1) / d_sz;
        lemma_fundamental_div_mod(count as int + d_sz - 1, d_sz);
        assert(nblocks * d_sz >= count) by (nonlinear_arith)
            requires
                count as int + d_sz - 1 == d_sz * nblocks + ((count as int + d_sz - 1)
                    % d_sz),
                0 <= (count as int + d_sz - 1) % d_sz < d_sz,
        ;
        assert(nblocks >= 0) by (nonlinear_arith)
            requires
                nblocks * d_sz >= count,
                count >= 0,
                d_sz > 0,
        ;
        assert(len == count * s_sz);
        assert(len <= nblocks * blk && nblocks * blk == (nblocks * d_sz) * s_sz)
            by (nonlinear_arith)
            requires
                len == count * s_sz,
                nblocks * d_sz >= count,
                s_sz > 0,
                blk == s_sz * d_sz,
        ;
        let padded = Seq::new(
            (nblocks * blk) as nat,
            |i: int|
                if i < len {
                    data[i]
                } else {
                    MemByte::Init(0)
                },
        );
        let src_arr = Ty::Array(Box::new(se), d_sz as usize);
        let dst_arr = Ty::Array(Box::new(de), s_sz as usize);
        assert(ty_size(src_arr) == blk && ty_size(dst_arr) == blk) by (nonlinear_arith)
            requires
                ty_size(src_arr) == d_sz as usize as nat * ty_size(se),
                ty_size(dst_arr) == s_sz as usize as nat * ty_size(de),
                s_sz == ty_size(se) as int,
                d_sz == ty_size(de) as int,
                0 <= s_sz <= usize::MAX,
                0 <= d_sz <= usize::MAX,
                blk == s_sz * d_sz,
        ;
        lemma_rep_len(ty_vbytes(se), d_sz as nat);
        lemma_rep_len(ty_vbytes(de), s_sz as nat);
        assert forall|b: int| 0 <= b < nblocks implies val_ok(
            dst_arr,
            #[trigger] padded.subrange(b * blk, (b + 1) * blk),
        ) by {
            let cb = padded.subrange(b * blk, (b + 1) * blk);
            assert((b + 1) * blk <= nblocks * blk) by (nonlinear_arith)
                requires
                    b < nblocks,
                    blk > 0,
            ;
            assert(b * blk >= 0 && (b + 1) * blk == b * blk + blk) by (nonlinear_arith)
                requires
                    b >= 0,
                    blk > 0,
            ;
            assert forall|j: int| 0 <= j < blk implies kind_allows(
                ty_vbytes(src_arr)[j],
                cb[j],
            ) by {
                lemma_rep_index(ty_vbytes(se), d_sz as nat, j);
                let i = b * blk + j;
                assert(0 <= i < nblocks * blk) by (nonlinear_arith)
                    requires
                        0 <= b < nblocks,
                        0 <= j < blk,
                        i == b * blk + j,
                ;
                if i < len {
                    lemma_elems_bytes(se, count, data, i);
                    assert(s_sz * (b * d_sz) == b * blk) by (nonlinear_arith)
                        requires
                            blk == s_sz * d_sz,
                    ;
                    lemma_mod_multiples_vanish(b * d_sz, j, s_sz);
                    assert(cb[j] == data[i]);
                    assert(kind_allows(ty_vbytes(se)[j % s_sz], cb[j]));
                } else {
                    assert(cb[j] == MemByte::Init(0));
                }
            }
            assert(val_ok(src_arr, cb));
            lemma_ref_transmutable_transfer(reg, dst_arr, src_arr, w, cb);
        }
        lemma_fundamental_div_mod(len, d_sz);
        assert(d_sz * new_count == new_count * d_sz) by (nonlinear_arith);
        let lp = new_count as int * d_sz;
        assert(lp <= len);
        let out = data.take((new_count * ty_size(de)) as int);
        assert(out.len() == lp);
        assert(out.len() == new_count * ty_size(de));
        assert forall|k: int| 0 <= k < new_count implies val_ok(
            de,
            #[trigger] out.subrange(k * ty_size(de) as int, (k + 1) * ty_size(de) as int),
        ) by {
            let chunk = out.subrange(k * ty_size(de) as int, (k + 1) * ty_size(de) as int);
            assert((k + 1) * d_sz <= new_count as int * d_sz) by (nonlinear_arith)
                requires
                    k < new_count,
                    d_sz > 0,
            ;
            assert(k * d_sz >= 0 && (k + 1) * d_sz == k * d_sz + d_sz) by (nonlinear_arith)
                requires
                    k >= 0,
                    d_sz > 0,
            ;
            assert forall|jj: int| 0 <= jj < d_sz implies kind_allows(
                ty_vbytes(de)[jj],
                chunk[jj],
            ) by {
                let i = k * d_sz + jj;
                assert(0 <= i < lp);
                let b = i / blk;
                let off = i % blk;
                lemma_fundamental_div_mod(i, blk);
                assert(0 <= off < blk);
                assert(0 <= b < nblocks) by (nonlinear_arith)
                    requires
                        i == blk * b + off,
                        0 <= off < blk,
                        0 <= i,
                        i < nblocks * blk,
                        blk > 0,
                ;
                let cb = padded.subrange(b * blk, (b + 1) * blk);
                assert(val_ok(dst_arr, cb));
                assert(blk * b == b * blk) by (nonlinear_arith);
                assert((b + 1) * blk <= nblocks * blk && b * blk >= 0 && (b + 1) * blk == b * blk
                    + blk) by (nonlinear_arith)
                    requires
                        0 <= b < nblocks,
                        blk > 0,
                ;
                lemma_rep_index(ty_vbytes(de), s_sz as nat, off);
                assert(kind_allows(ty_vbytes(dst_arr)[off], cb[off]));
                assert(cb[off] == padded[i]);
                assert(padded[i] == data[i]);
                assert(d_sz * (b * s_sz) == b * blk) by (nonlinear_arith)
                    requires
                        blk == s_sz * d_sz,
                ;
                lemma_mod_multiples_vanish(b * s_sz, off, d_sz);
                assert(off % d_sz == i % d_sz);
                assert(d_sz * k == k * d_sz) by (nonlinear_arith);
                lemma_mod_multiples_vanish(k, jj, d_sz);
                lemma_small_mod(jj as nat, d_sz as nat);
                assert(i % d_sz == jj);
                assert(chunk[jj] == data[i]);
            }
            assert(val_ok(de, chunk));
        }
        assert(elems_ok(de, new_count, out));
    }
}

/// Whether a run of `src_elem` may be cast to a run of `dst_elem`: a
/// reference to a fixed-length sequence of destination elements sized to
/// one source element must convert from a reference to a fixed-length
/// sequence of source elements sized to one destination element. The
/// cross-wise lengths account for the length rescaling.
pub open spec fn slice_castable(reg: Registry, src_elem: Ty, dst_elem: Ty, w: Waivers) -> bool {
    transmutable_from(
        reg,
        Ty::Ref(Box::new(Ty::Array(Box::new(dst_elem), ty_size(src_elem) as usize))),
        Ty::Ref(Box::new(Ty::Array(Box::new(src_elem), ty_size(dst_elem) as usize))),
        w,
    )
}

/// Whether a buffer of `src_elem` may be cast to a buffer of `dst_elem`:
/// the elements must convert, and — because one count and capacity must
/// describe both storages — the two element types must have equal size and
/// equal alignment, asked through the derived queries themselves. The
/// alignment question is asked with the alignment waiver stripped: the
/// capacity accounting demands equal alignment whatever the caller waives.
pub open spec fn vec_castable(reg: Registry, src_elem: Ty, dst_elem: Ty, w: Waivers) -> bool {
    &&& transmutable_from(reg, dst_elem, src_elem, w)
    &&& size_eq(reg, src_elem, dst_elem, w)
    &&& align_eq(reg, src_elem, dst_elem, w.without_alignment())
}

/// Decides whether a run may be cast.
pub fn is_slice_castable<N: UnsafeTransmuteOptions>(
    reg: &Registry,
    src_elem: &Ty,
    dst_elem: &Ty,
    neglect: &N,
) -> (r: bool)
    requires
        reg_wf(*reg),
        ty_wf(*src_elem),
        ty_wf(*dst_elem),
        ty_size(*src_elem) * ty_size(*dst_elem) <= usize::MAX,
    ensures
        r == slice_castable(*reg, *src_elem, *dst_elem, neglect.waivers()),
{
    let ss = size_of(src_elem);
    let ds = size_of(dst_elem);
    proof {
        assert(ss as nat * ty_size(*dst_elem) <= usize::MAX && ds as nat * ty_size(*src_elem)
            <= usize::MAX) by (nonlinear_arith)
            requires
                ss as nat == ty_size(*src_elem),
                ds as nat == ty_size(*dst_elem),
                ty_size(*src_elem) * ty_size(*dst_elem) <= usize::MAX,
        ;
    }
    let dst = Ty::Ref(Box::new(Ty::Array(Box::new(clone_ty(dst_elem)), ss)));
    let src = Ty::Ref(Box::new(Ty::Array(Box::new(clone_ty(src_elem)), ds)));
    proof {
        assert(ty_wf(Ty::Array(Box::new(*dst_elem), ss)));
        assert(ty_wf(Ty::Array(Box::new(*src_elem), ds)));
        assert(ty_wf(dst));
        assert(ty_wf(src));
    }
    is_transmutable_from(reg, &dst, &src, neglect)
}

/// Decides whether a buffer may be cast.
pub fn is_vec_castable<N: UnsafeTransmuteOptions>(
    reg: &Registry,
    src_elem: &Ty,
    dst_elem: &Ty,
    neglect: &N,
) -> (r: bool)
    requires
        reg_wf(*reg),
        ty_wf(*src_elem),
        ty_wf(*dst_elem),
    ensures
        r == vec_castable(*reg, *src_elem, *dst_elem, neglect.waivers()),
{
    let w = neglect.waiver_set();
    let w_aligned = Waivers { stability: w.stability, alignment: false, validity: w.validity };
    is_transmutable_from(reg, dst_elem, src_elem, neglect) && is_size_eq(
        reg,
        src_elem,
        dst_elem,
        neglect,
    ) && check_align_eq(reg, src_elem, dst_elem, w_aligned)
}

/// Casts a run of elements to a new element type, safely.
///
/// The new run covers only the complete destination elements that fit in
/// the source's bytes: its length is the source's byte length divided by
/// the destination element size, rounding down, and zero for a zero-sized
/// destination element; remainder bytes are unreachable, not an error.
pub fn cast_slice<N: SafeSliceCastOptions>(
    reg: &Registry,
    src: &SliceVal,
    dst_elem: &Ty,
    neglect: &N,
) -> (r: SliceVal)
    requires
        reg_wf(*reg),
        src.wf(),
        ty_wf(*dst_elem),
        ty_size(src.elem) * ty_size(*dst_elem) <= usize::MAX,
        slice_castable(*reg, src.elem, *dst_elem, neglect.waivers()),
    ensures
        r.elem == *dst_elem,
        r.count as nat == (if ty_size(*dst_elem) == 0 {
            0nat
        } else {
            src.data@.len() / ty_size(*dst_elem)
        }),
        r.data@ == src.data@.take(r.count as int * ty_size(*dst_elem) as int),
        r.wf(),
        (elems_ok(src.elem, src.count as nat, src.data@) && !neglect.waivers().validity)
            ==> elems_ok(*dst_elem, r.count as nat, r.data@),
{
    let r = cast_slice_bytes(src, dst_elem);
    proof {
        if elems_ok(src.elem, src.count as nat, src.data@) && !neglect.waivers().validity {
            lemma_wf_size_bound(src.elem);
            lemma_wf_size_bound(*dst_elem);
            lemma_slice_cast_validity(
                *reg,
                src.elem,
                *dst_elem,
                neglect.waivers(),
                src.count as nat,
                src.data@,
                r.count as nat,
            );
        }
    }
    r
}

/// Casts a run of elements to a new element type, potentially unsafely:
/// the waiver set may also neglect alignment or validity.
pub fn unsafe_cast_slice<N: UnsafeSliceCastOptions>(
    reg: &Registry,
    src: &SliceVal,
    dst_elem: &Ty,
    neglect: &N,
) -> (r: SliceVal)
    requires
        reg_wf(*reg),
        src.wf(),
        ty_wf(*dst_elem),
        ty_size(src.elem) * ty_size(*dst_elem) <= usize::MAX,
        slice_castable(*reg, src.elem, *dst_elem, neglect.waivers()),
    ensures
        r.elem == *dst_elem,
        r.count as nat == (if ty_size(*dst_elem) == 0 {
            0nat
        } else {
            src.data@.len() / ty_size(*dst_elem)
        }),
        r.data@ == src.data@.take(r.count as int * ty_size(*dst_elem) as int),
        r.wf(),
        (elems_ok(src.elem, src.count as nat, src.data@) && !neglect.waivers().validity)
            ==> elems_ok(*dst_elem, r.count as nat, r.data@),
{
    let r = cast_slice_bytes(src, dst_elem);
    proof {
        if elems_ok(src.elem, src.count as nat, src.data@) && !neglect.waivers().validity {
            lemma_wf_size_bound(src.elem);
            lemma_wf_size_bound(*dst_elem);
            lemma_slice_cast_validity(
                *reg,
                src.elem,
                *dst_elem,
                neglect.waivers(),
                src.count as nat,
                src.data@,
                r.count as nat,
            );
        }
    }
    r
}

/// Rescales a run's length to the destination element size and copies the
/// covered prefix of its bytes.
fn cast_slice_bytes(src: &SliceVal, dst_elem: &Ty) -> (r: SliceVal)
    requires
        src.wf(),
        ty_wf(*dst_elem),
    ensures
        r.elem == *dst_elem,
        r.count as nat == (if ty_size(*dst_elem) == 0 {
            0nat
        } else {
            src.data@.len() / ty_size(*dst_elem)
        }),
        r.data@ == src.data@.take(r.count as int * ty_size(*dst_elem) as int),
        r.wf(),
{
    let ds = size_of(dst_elem);
    if ds == 0 {
        let r = SliceVal { elem: clone_ty(dst_elem), count: 0, data: Vec::new() };
        proof {
            assert(r.data@ =~= src.data@.take(0));
            assert(0nat * ty_size(*dst_elem) == 0) by (nonlinear_arith);
        }
        return r;
    }
    let new_count = src.data.len() / ds;
    proof {
        lemma_fundamental_div_mod(src.data@.len() as int, ds as int);
        assert(ds as int * new_count as int == new_count as int * ds as int)
            by (nonlinear_arith);
        assert(new_count as int * ds as int <= src.data@.len());
    }
    let new_len = new_count * ds;
    let mut data: Vec<MemByte> = Vec::new();
    let mut i: usize = 0;
    while i < new_len
        invariant
            i <= new_len,
            new_len <= src.data@.len(),
            data@ == src.data@.take(i as int),
        decreases new_len - i,
    {
        let b = src.data[i];
        data.push(b);
        i = i + 1;
        proof {
            assert(data@ =~= src.data@.take(i as int));
        }
    }
    SliceVal { elem: clone_ty(dst_elem), count: new_count, data }
}

/// Casts an owning buffer to a new element type, safely.
///
/// The result reuses the buffer's storage verbatim: the element count and
/// the capacity carry over exactly.
pub fn cast_vec<N: SafeVecCastOptions>(
    reg: &Registry,
    src: VecVal,
    dst_elem: &Ty,
    neglect: &N,
) -> (r: VecVal)
    requires
        reg_wf(*reg),
        src.wf(),
        ty_wf(*dst_elem),
        vec_castable(*reg, src.elem, *dst_elem, neglect.waivers()),
    ensures
        r.elem == *dst_elem,
        r.count == src.count,
        r.capacity == src.capacity,
        r.data@ == src.data@,
        r.wf(),
        (elems_ok(src.elem, src.count as nat, src.data@) && !neglect.waivers().validity)
            ==> elems_ok(*dst_elem, r.count as nat, r.data@),
{
    proof {
        lemma_size_le_sound(*reg, src.elem, *dst_elem, neglect.waivers());
        lemma_size_le_sound(*reg, *dst_elem, src.elem, neglect.waivers());
        assert(src.count as nat * ty_size(src.elem) == src.count as nat * ty_size(*dst_elem))
            by (nonlinear_arith)
            requires
                ty_size(src.elem) == ty_size(*dst_elem),
        ;
        if elems_ok(src.elem, src.count as nat, src.data@) && !neglect.waivers().validity {
            lemma_elems_transfer(
                *reg,
                src.elem,
                *dst_elem,
                neglect.waivers(),
                src.count as nat,
                src.data@,
            );
        }
    }
    VecVal { elem: clone_ty(dst_elem), count: src.count, capacity: src.capacity, data: src.data }
}

/// Casts an owning buffer to a new element type, potentially unsafely:
/// the waiver set may also neglect alignment or validity.
pub fn unsafe_cast_vec<N: UnsafeVecCastOptions>(
    reg: &Registry,
    src: VecVal,
    dst_elem: &Ty,
    neglect: &N,
) -> (r: VecVal)
    requires
        reg_wf(*reg),
        src.wf(),
        ty_wf(*dst_elem),
        vec_castable(*reg, src.elem, *dst_elem, neglect.waivers()),
    ensures
        r.elem == *dst_elem,
        r.count == src.count,
        r.capacity == src.capacity,
        r.data@ == src.data@,
        r.wf(),
        (elems_ok(src.elem, src.count as nat, src.data@) && !neglect.waivers().validity)
            ==> elems_ok(*dst_elem, r.count as nat, r.data@),
{
    proof {
        lemma_size_le_sound(*reg, src.elem, *dst_elem, neglect.waivers());
        lemma_size_le_sound(*reg, *dst_elem, src.elem, neglect.waivers());
        assert(src.count as nat * ty_size(src.elem) == src.count as nat * ty_size(*dst_elem))
            by (nonlinear_arith)
            requires
                ty_size(src.elem) == ty_size(*dst_elem),
        ;
        if elems_ok(src.elem, src.count as nat, src.data@) && !neglect.waivers().validity {
            lemma_elems_transfer(
                *reg,
                src.elem,
                *dst_elem,
                neglect.waivers(),
                src.count as nat,
                src.data@,
            );
        }
    }
    VecVal { elem: clone_ty(dst_elem), count: src.count, capacity: src.capacity, data: src.data }
}

impl SliceVal {
    /// Casts this run into a run of the destination element type, safely.
    /// See [`cast_slice`].
    pub fn cast_into<N: SafeSliceCastOptions>(&self, reg: &Registry, dst_elem: &Ty, neglect: &N) -> (r:
        SliceVal)
        requires
            reg_wf(*reg),
            self.wf(),
            ty_wf(*dst_elem),
            ty_size(self.elem) * ty_size(*dst_elem) <= usize::MAX,
            slice_castable(*reg, self.elem, *dst_elem, neglect.waivers()),
        ensures
            r.elem == *dst_elem,
            r.count as nat == (if ty_size(*dst_elem) == 0 {
                0nat
            } else {
                self.data@.len() / ty_size(*dst_elem)
            }),
            r.data@ == self.data@.take(r.count as int * ty_size(*dst_elem) as int),
            r.wf(),
            (elems_ok(self.elem, self.count as nat, self.data@) && !neglect.waivers().validity)
                ==> elems_ok(*dst_elem, r.count as nat, r.data@),
    {
        cast_slice(reg, self, dst_elem, neglect)
    }

    /// Casts this run into a run of the destination element type,
    /// potentially unsafely. See [`unsafe_cast_slice`].
    pub fn unsafe_cast_into<N: UnsafeSliceCastOptions>(
        &self,
        reg: &Registry,
        dst_elem: &Ty,
        neglect: &N,
    ) -> (r: SliceVal)
        requires
            reg_wf(*reg),
            self.wf(),
            ty_wf(*dst_elem),
            ty_size(self.elem) * ty_size(*dst_elem) <= usize::MAX,
            slice_castable(*reg, self.elem, *dst_elem, neglect.waivers()),
        ensures
            r.elem == *dst_elem,
            r.count as nat == (if ty_size(*dst_elem) == 0 {
                0nat
            } else {
                self.data@.len() / ty_size(*dst_elem)
            }),
            r.data@ == self.data@.take(r.count as int * ty_size(*dst_elem) as int),
            r.wf(),
            (elems_ok(self.elem, self.count as nat, self.data@) && !neglect.waivers().validity)
                ==> elems_ok(*dst_elem, r.count as nat, r.data@),
    {
        unsafe_cast_slice(reg, self, dst_elem, neglect)
    }
}

impl VecVal {
    /// Casts this buffer into a buffer of the destination element type,
    /// safely. See [`cast_vec`].
    pub fn cast_into<N: SafeVecCastOptions>(self, reg: &Registry, dst_elem: &Ty, neglect: &N) -> (r:
        VecVal)
        requires
            reg_wf(*reg),
            self.wf(),
            ty_wf(*dst_elem),
            vec_castable(*reg, self.elem, *dst_elem, neglect.waivers()),
        ensures
            r.elem == *dst_elem,
            r.count == self.count,
            r.capacity == self.capacity,
            r.data@ == self.data@,
            r.wf(),
            (elems_ok(self.elem, self.count as nat, self.data@) && !neglect.waivers().validity)
                ==> elems_ok(*dst_elem, r.count as nat, r.data@),
    {
        cast_vec(reg, self, dst_elem, neglect)
    }

    /// Casts this buffer into a buffer of the destination element type,
    /// potentially unsafely. See [`unsafe_cast_vec`].
    pub fn unsafe_cast_into<N: UnsafeVecCastOptions>(
        self,
        reg: &Registry,
        dst_elem: &Ty,
        neglect: &N,
    ) -> (r: VecVal)
        requires
            reg_wf(*reg),
            self.wf(),
            ty_wf(*dst_elem),
            vec_castable(*reg, self.elem, *dst_elem, neglect.waivers()),
        ensures
            r.elem == *dst_elem,
            r.count == self.count,
            r.capacity == self.capacity,
            r.data@ == self.data@,
            r.wf(),
            (elems_ok(self.elem, self.count as nat, self.data@) && !neglect.waivers().validity)
                ==> elems_ok(*dst_elem, r.count as nat, r.data@),
    {
        unsafe_cast_vec(reg, self, dst_elem, neglect)
    }
}

} // verus!
