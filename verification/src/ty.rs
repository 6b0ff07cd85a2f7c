//! Type descriptions: the static facts a host type system supplies about a
//! type's layout — its size, its alignment, and which of its bytes are
//! constrained — plus the compound carriers built over element types.

use vstd::prelude::*;

verus! {

/// Size in bytes of a pointer or reference on the modelled host.
pub const PTR_SIZE: usize = 8;

/// Minimum alignment of a pointer or reference on the modelled host.
pub const PTR_ALIGN: usize = 8;

/// The primitive types whose layout is definitionally fixed by the host.
///
/// These are pre-declared stable with themselves as their own archetype.
#[derive(Clone, Copy, PartialEq, Eq, Structural, Debug)]
pub enum PrimTy {
    /// The zero-sized unit type.
    Unit,
    /// The zero-sized empty type. Only its layout is modelled here: that
    /// it has no instances plays no part in the relation.
    Never,
    U8,
    U16,
    U32,
    U64,
    U128,
    Usize,
    I8,
    I16,
    I32,
    I64,
    I128,
    Isize,
}

/// What a single byte position of a type's storage may legally hold.
#[derive(Clone, Copy, PartialEq, Eq, Structural, Debug)]
pub enum ByteKind {
    /// The byte may be uninitialized or hold any value (padding,
    /// uninitialized-capable slots).
    Uninit,
    /// The byte must be initialized and may hold any value.
    Init,
    /// The byte is a fragment of a pointer with provenance; it is never
    /// forged from plain data, and plain data is never read out of it.
    Ptr,
}

/// A description of a type's layout, as supplied by the host type system
/// for leaves and derived structurally for compound carriers.
pub enum Ty {
    /// A primitive with host-fixed layout.
    Prim(PrimTy),
    /// An uninitialized-capable slot: same size and alignment as the inner
    /// type, with no byte constrained.
    Uninit(Box<Ty>),
    /// A fixed-length sequence of elements.
    Array(Box<Ty>, usize),
    /// A record of fields laid out in declaration order, each field placed
    /// at the next offset that satisfies its alignment. The record's size
    /// ends with its last field; a host that rounds sizes up appends an
    /// explicit trailing `Uninit` field.
    Record(Fields),
    /// A shared reference to a value of the inner type.
    Ref(Box<Ty>),
    /// An exclusive reference to a value of the inner type.
    RefMut(Box<Ty>),
    /// A raw pointer to a value of the inner type.
    RawPtr(Box<Ty>),
}

/// The fields of a record, in declaration order.
pub enum Fields {
    Nil,
    Cons(Box<Ty>, Box<Fields>),
}

/// Size in bytes of a primitive.
pub open spec fn prim_size(p: PrimTy) -> nat {
    match p {
        PrimTy::Unit => 0,
        PrimTy::Never => 0,
        PrimTy::U8 => 1,
        PrimTy::U16 => 2,
        PrimTy::U32 => 4,
        PrimTy::U64 => 8,
        PrimTy::U128 => 16,
        PrimTy::Usize => 8,
        PrimTy::I8 => 1,
        PrimTy::I16 => 2,
        PrimTy::I32 => 4,
        PrimTy::I64 => 8,
        PrimTy::I128 => 16,
        PrimTy::Isize => 8,
    }
}

/// Minimum alignment of a primitive.
pub open spec fn prim_align(p: PrimTy) -> nat {
    match p {
        PrimTy::Unit => 1,
        PrimTy::Never => 1,
        PrimTy::U8 => 1,
        PrimTy::U16 => 2,
        PrimTy::U32 => 4,
        PrimTy::U64 => 8,
        PrimTy::U128 => 16,
        PrimTy::Usize => 8,
        PrimTy::I8 => 1,
        PrimTy::I16 => 2,
        PrimTy::I32 => 4,
        PrimTy::I64 => 8,
        PrimTy::I128 => 16,
        PrimTy::Isize => 8,
    }
}

/// The padding needed to advance `off` to the next multiple of `a`.
pub open spec fn pad_for(off: nat, a: nat) -> nat
    recommends
        a >= 1,
{
    (((a - off % a)) % (a as int)) as nat
}

/// `off` rounded up to the next multiple of `a`.
pub open spec fn round_up(off: nat, a: nat) -> nat
    recommends
        a >= 1,
{
    off + pad_for(off, a)
}

/// Size in bytes of a described type.
pub open spec fn ty_size(t: Ty) -> nat
    decreases t,
{
    match t {
        Ty::Prim(p) => prim_size(p),
        Ty::Uninit(inner) => ty_size(*inner),
        Ty::Array(elem, n) => n as nat * ty_size(*elem),
        Ty::Record(fs) => fields_end(fs, 0),
        Ty::Ref(_) => PTR_SIZE as nat,
        Ty::RefMut(_) => PTR_SIZE as nat,
        Ty::RawPtr(_) => PTR_SIZE as nat,
    }
}

/// The offset just past the last field, when the fields are laid out
/// starting at `off`.
pub open spec fn fields_end(fs: Fields, off: nat) -> nat
    decreases fs,
{
    match fs {
        Fields::Nil => off,
        Fields::Cons(f, rest) => fields_end(*rest, round_up(off, ty_align(*f)) + ty_size(*f)),
    }
}

/// Minimum alignment of a described type.
pub open spec fn ty_align(t: Ty) -> nat
    decreases t,
{
    match t {
        Ty::Prim(p) => prim_align(p),
        Ty::Uninit(inner) => ty_align(*inner),
        Ty::Array(elem, _) => ty_align(*elem),
        Ty::Record(fs) => fields_align(fs),
        Ty::Ref(_) => PTR_ALIGN as nat,
        Ty::RefMut(_) => PTR_ALIGN as nat,
        Ty::RawPtr(_) => PTR_ALIGN as nat,
    }
}

/// Minimum alignment of a record with the given fields.
pub open spec fn fields_align(fs: Fields) -> nat
    decreases fs,
{
    match fs {
        Fields::Nil => 1,
        Fields::Cons(f, rest) => if ty_align(*f) >= fields_align(*rest) {
            ty_align(*f)
        } else {
            fields_align(*rest)
        },
    }
}

/// A sequence repeated `n` times.
pub open spec fn rep<A>(s: Seq<A>, n: nat) -> Seq<A>
    decreases n,
{
    if n == 0 {
        Seq::empty()
    } else {
        rep(s, (n - 1) as nat) + s
    }
}

/// The validity bytes of a described type: what each byte position of its
/// storage may legally hold.
pub open spec fn ty_vbytes(t: Ty) -> Seq<ByteKind>
    decreases t,
{
    match t {
        Ty::Prim(p) => Seq::new(prim_size(p), |i: int| ByteKind::Init),
        Ty::Uninit(inner) => Seq::new(ty_size(*inner), |i: int| ByteKind::Uninit),
        Ty::Array(elem, n) => rep(ty_vbytes(*elem), n as nat),
        Ty::Record(fs) => fields_vbytes(fs, 0),
        Ty::Ref(_) => Seq::new(PTR_SIZE as nat, |i: int| ByteKind::Ptr),
        Ty::RefMut(_) => Seq::new(PTR_SIZE as nat, |i: int| ByteKind::Ptr),
        Ty::RawPtr(_) => Seq::new(PTR_SIZE as nat, |i: int| ByteKind::Ptr),
    }
}

/// The validity bytes of a record's fields laid out starting at `off`,
/// with alignment padding made explicit as unconstrained bytes.
pub open spec fn fields_vbytes(fs: Fields, off: nat) -> Seq<ByteKind>
    decreases fs,
{
    match fs {
        Fields::Nil => Seq::empty(),
        Fields::Cons(f, rest) => Seq::new(pad_for(off, ty_align(*f)), |i: int| ByteKind::Uninit)
            + ty_vbytes(*f) + fields_vbytes(*rest, round_up(off, ty_align(*f)) + ty_size(*f)),
    }
}

/// Every described type has alignment at least one.
pub proof fn lemma_align_pos(t: Ty)
    ensures
        ty_align(t) >= 1,
    decreases t,
{
    match t {
        Ty::Record(fs) => lemma_fields_align_pos(fs),
        Ty::Uninit(inner) => lemma_align_pos(*inner),
        Ty::Array(elem, _) => lemma_align_pos(*elem),
        _ => {},
    }
}

/// Every record alignment is at least one.
pub proof fn lemma_fields_align_pos(fs: Fields)
    ensures
        fields_align(fs) >= 1,
    decreases fs,
{
    match fs {
        Fields::Nil => {},
        Fields::Cons(f, rest) => lemma_fields_align_pos(*rest),
    }
}

/// A repeated sequence has length `n` times the original's.
pub proof fn lemma_rep_len<A>(s: Seq<A>, n: nat)
    ensures
        rep(s, n).len() == n * s.len(),
    decreases n,
{
    if n == 0 {
        assert(n * s.len() == 0) by (nonlinear_arith)
            requires
                n == 0,
        ;
    } else {
        lemma_rep_len(s, (n - 1) as nat);
        assert(n * s.len() == (n - 1) as nat * s.len() + s.len()) by (nonlinear_arith)
            requires
                n >= 1,
        ;
    }
}

/// Indexing into a repeated sequence wraps around the original.
pub proof fn lemma_rep_index<A>(s: Seq<A>, n: nat, i: int)
    requires
        s.len() > 0,
        0 <= i < n * s.len(),
    ensures
        rep(s, n).len() == n * s.len(),
        rep(s, n)[i] == s[i % s.len() as int],
    decreases n,
{
    lemma_rep_len(s, n);
    if n > 0 {
        let m = (n - 1) as nat;
        lemma_rep_len(s, m);
        assert(m * s.len() + s.len() == n * s.len()) by (nonlinear_arith)
            requires
                n >= 1,
                m == (n - 1) as nat,
        ;
        if i < m * s.len() {
            lemma_rep_index(s, m, i);
        } else {
            let j = i - m * s.len();
            assert(rep(s, n)[i] == s[j]);
            assert(i == m * s.len() + j);
            assert(i % s.len() as int == j) by (nonlinear_arith)
                requires
                    0 <= j < s.len(),
                    i == m * s.len() + j,
            ;
        }
    }
}

/// The validity bytes of a type cover exactly its size.
pub proof fn lemma_vbytes_len(t: Ty)
    ensures
        ty_vbytes(t).len() == ty_size(t),
    decreases t,
{
    match t {
        Ty::Array(elem, n) => {
            lemma_vbytes_len(*elem);
            lemma_rep_len(ty_vbytes(*elem), n as nat);
        },
        Ty::Record(fs) => {
            lemma_fields_vbytes_len(fs, 0);
        },
        _ => {},
    }
}

/// Laying fields out from `off` produces exactly the bytes between `off`
/// and the end offset.
pub proof fn lemma_fields_vbytes_len(fs: Fields, off: nat)
    ensures
        off + fields_vbytes(fs, off).len() == fields_end(fs, off),
        fields_end(fs, off) >= off,
    decreases fs,
{
    match fs {
        Fields::Nil => {},
        Fields::Cons(f, rest) => {
            lemma_align_pos(*f);
            lemma_vbytes_len(*f);
            let off2 = round_up(off, ty_align(*f)) + ty_size(*f);
            lemma_fields_vbytes_len(*rest, off2);
        },
    }
}

/// A described type is well formed when the size of every part of it fits
/// the host's address space.
pub open spec fn ty_wf(t: Ty) -> bool
    decreases t,
{
    match t {
        Ty::Prim(_) => true,
        Ty::Uninit(inner) => ty_wf(*inner),
        Ty::Array(elem, n) => ty_wf(*elem) && n as nat * ty_size(*elem) <= usize::MAX,
        Ty::Record(fs) => fields_wf(fs) && fields_end(fs, 0) <= usize::MAX,
        Ty::Ref(inner) => ty_wf(*inner),
        Ty::RefMut(inner) => ty_wf(*inner),
        Ty::RawPtr(inner) => ty_wf(*inner),
    }
}

/// All fields of a record are well formed.
pub open spec fn fields_wf(fs: Fields) -> bool
    decreases fs,
{
    match fs {
        Fields::Nil => true,
        Fields::Cons(f, rest) => ty_wf(*f) && fields_wf(*rest),
    }
}

/// No described type needs an alignment beyond the strictest primitive's.
pub proof fn lemma_align_bound(t: Ty)
    ensures
        ty_align(t) <= 16,
    decreases t,
{
    match t {
        Ty::Record(fs) => lemma_fields_align_bound(fs),
        Ty::Uninit(inner) => lemma_align_bound(*inner),
        Ty::Array(elem, _) => lemma_align_bound(*elem),
        _ => {},
    }
}

/// No record needs an alignment beyond the strictest primitive's.
pub proof fn lemma_fields_align_bound(fs: Fields)
    ensures
        fields_align(fs) <= 16,
    decreases fs,
{
    match fs {
        Fields::Nil => {},
        Fields::Cons(f, rest) => {
            lemma_align_bound(*f);
            lemma_fields_align_bound(*rest);
        },
    }
}

/// Decides structural equality of two type descriptions.
pub fn ty_eq(a: &Ty, b: &Ty) -> (r: bool)
    ensures
        r == (*a == *b),
    decreases *a,
{
    match (a, b) {
        (Ty::Prim(p), Ty::Prim(q)) => *p == *q,
        (Ty::Uninit(x), Ty::Uninit(y)) => ty_eq(&**x, &**y),
        (Ty::Array(x, n), Ty::Array(y, m)) => *n == *m && ty_eq(&**x, &**y),
        (Ty::Record(fs), Ty::Record(gs)) => fields_eq(fs, gs),
        (Ty::Ref(x), Ty::Ref(y)) => ty_eq(&**x, &**y),
        (Ty::RefMut(x), Ty::RefMut(y)) => ty_eq(&**x, &**y),
        (Ty::RawPtr(x), Ty::RawPtr(y)) => ty_eq(&**x, &**y),
        _ => false,
    }
}

/// Decides structural equality of two field lists.
pub fn fields_eq(a: &Fields, b: &Fields) -> (r: bool)
    ensures
        r == (*a == *b),
    decreases *a,
{
    match (a, b) {
        (Fields::Nil, Fields::Nil) => true,
        (Fields::Cons(f, rest), Fields::Cons(g, rest2)) => ty_eq(&**f, &**g) && fields_eq(
            &**rest,
            &**rest2,
        ),
        _ => false,
    }
}

/// Copies a type description.
pub fn clone_ty(t: &Ty) -> (r: Ty)
    ensures
        r == *t,
    decreases *t,
{
    match t {
        Ty::Prim(p) => Ty::Prim(*p),
        Ty::Uninit(x) => Ty::Uninit(Box::new(clone_ty(&**x))),
        Ty::Array(x, n) => Ty::Array(Box::new(clone_ty(&**x)), *n),
        Ty::Record(fs) => Ty::Record(clone_fields(fs)),
        Ty::Ref(x) => Ty::Ref(Box::new(clone_ty(&**x))),
        Ty::RefMut(x) => Ty::RefMut(Box::new(clone_ty(&**x))),
        Ty::RawPtr(x) => Ty::RawPtr(Box::new(clone_ty(&**x))),
    }
}

/// Copies a field list.
pub fn clone_fields(fs: &Fields) -> (r: Fields)
    ensures
        r == *fs,
    decreases *fs,
{
    match fs {
        Fields::Nil => Fields::Nil,
        Fields::Cons(f, rest) => Fields::Cons(
            Box::new(clone_ty(&**f)),
            Box::new(clone_fields(&**rest)),
        ),
    }
}

/// Minimum alignment of a described type.
pub fn align_of(t: &Ty) -> (a: usize)
    ensures
        a as nat == ty_align(*t),
        1 <= a <= 16,
    decreases *t,
{
    proof {
        lemma_align_pos(*t);
        lemma_align_bound(*t);
    }
    match t {
        Ty::Prim(p) => match p {
            PrimTy::Unit => 1,
            PrimTy::Never => 1,
            PrimTy::U8 => 1,
            PrimTy::U16 => 2,
            PrimTy::U32 => 4,
            PrimTy::U64 => 8,
            PrimTy::U128 => 16,
            PrimTy::Usize => 8,
            PrimTy::I8 => 1,
            PrimTy::I16 => 2,
            PrimTy::I32 => 4,
            PrimTy::I64 => 8,
            PrimTy::I128 => 16,
            PrimTy::Isize => 8,
        },
        Ty::Uninit(inner) => align_of(&**inner),
        Ty::Array(elem, _) => align_of(&**elem),
        Ty::Record(fs) => fields_align_of(fs),
        Ty::Ref(_) => PTR_ALIGN,
        Ty::RefMut(_) => PTR_ALIGN,
        Ty::RawPtr(_) => PTR_ALIGN,
    }
}

/// Minimum alignment of a record with the given fields.
pub fn fields_align_of(fs: &Fields) -> (a: usize)
    ensures
        a as nat == fields_align(*fs),
        1 <= a <= 16,
    decreases *fs,
{
    proof {
        lemma_fields_align_pos(*fs);
        lemma_fields_align_bound(*fs);
    }
    match fs {
        Fields::Nil => 1,
        Fields::Cons(f, rest) => {
            let fa = align_of(&**f);
            let ra = fields_align_of(&**rest);
            if fa >= ra {
                fa
            } else {
                ra
            }
        },
    }
}

/// Size in bytes of a described type, or nothing where some part of the
/// description does not fit the host's address space.
pub fn try_size(t: &Ty) -> (r: Option<usize>)
    ensures
        match r {
            Some(s) => ty_wf(*t) && s as nat == ty_size(*t),
            None => !ty_wf(*t),
        },
    decreases *t,
{
    match t {
        Ty::Prim(p) => match p {
            PrimTy::Unit => Some(0),
            PrimTy::Never => Some(0),
            PrimTy::U8 => Some(1),
            PrimTy::U16 => Some(2),
            PrimTy::U32 => Some(4),
            PrimTy::U64 => Some(8),
            PrimTy::U128 => Some(16),
            PrimTy::Usize => Some(8),
            PrimTy::I8 => Some(1),
            PrimTy::I16 => Some(2),
            PrimTy::I32 => Some(4),
            PrimTy::I64 => Some(8),
            PrimTy::I128 => Some(16),
            PrimTy::Isize => Some(8),
        },
        Ty::Uninit(inner) => try_size(&**inner),
        Ty::Array(elem, n) => match try_size(&**elem) {
            Some(es) => {
                let r = n.checked_mul(es);
                proof {
                    if r is Some {
                        assert((*n as nat) * ty_size(**elem) <= usize::MAX && r->0 as nat == (
                        *n as nat) * ty_size(**elem)) by (nonlinear_arith)
                            requires
                                r->0 == *n as int * es as int,
                                es as nat == ty_size(**elem),
                                r->0 <= usize::MAX,
                        ;
                    } else {
                        assert((*n as nat) * ty_size(**elem) > usize::MAX) by (nonlinear_arith)
                            requires
                                *n as int * es as int > usize::MAX,
                                es as nat == ty_size(**elem),
                        ;
                    }
                }
                r
            },
            None => None,
        },
        Ty::Record(fs) => match try_fields_end(fs, 0) {
            Some(s) => Some(s),
            None => None,
        },
        Ty::Ref(inner) => match try_size(&**inner) {
            Some(_) => Some(PTR_SIZE),
            None => None,
        },
        Ty::RefMut(inner) => match try_size(&**inner) {
            Some(_) => Some(PTR_SIZE),
            None => None,
        },
        Ty::RawPtr(inner) => match try_size(&**inner) {
            Some(_) => Some(PTR_SIZE),
            None => None,
        },
    }
}

/// The offset just past the last field when laying fields out from `off`,
/// or nothing where the layout does not fit the host's address space.
pub fn try_fields_end(fs: &Fields, off: usize) -> (r: Option<usize>)
    ensures
        match r {
            Some(s) => fields_wf(*fs) && s as nat == fields_end(*fs, off as nat),
            None => !fields_wf(*fs) || fields_end(*fs, off as nat) > usize::MAX,
        },
    decreases *fs,
{
    match fs {
        Fields::Nil => Some(off),
        Fields::Cons(f, rest) => {
            let a = align_of(&**f);
            let pad = (a - off % a) % a;
            match off.checked_add(pad) {
                Some(start) => {
                    assert(start as nat == round_up(off as nat, ty_align(**f)));
                    match try_size(&**f) {
                        Some(fsz) => match start.checked_add(fsz) {
                            Some(off2) => {
                                let r = try_fields_end(&**rest, off2);
                                proof {
                                    if r is None {
                                        lemma_fields_end_lb(**rest, off2 as nat);
                                    }
                                }
                                r
                            },
                            None => {
                                proof {
                                    lemma_fields_end_lb(
                                        **rest,
                                        round_up(off as nat, ty_align(**f)) + ty_size(**f),
                                    );
                                }
                                None
                            },
                        },
                        None => None,
                    }
                },
                None => {
                    proof {
                        lemma_fields_end_lb(
                            **rest,
                            round_up(off as nat, ty_align(**f)) + ty_size(**f),
                        );
                    }
                    None
                },
            }
        },
    }
}

/// Fields laid out from `off` end at or after `off`.
pub proof fn lemma_fields_end_lb(fs: Fields, off: nat)
    ensures
        fields_end(fs, off) >= off,
    decreases fs,
{
    match fs {
        Fields::Nil => {},
        Fields::Cons(f, rest) => {
            lemma_fields_end_lb(*rest, round_up(off, ty_align(*f)) + ty_size(*f));
        },
    }
}

/// Size in bytes of a well-formed described type.
pub fn size_of(t: &Ty) -> (s: usize)
    requires
        ty_wf(*t),
    ensures
        s as nat == ty_size(*t),
{
    try_size(t).unwrap()
}


/// Appends `n` copies of `kind` to `v`.
fn push_n(v: &mut Vec<ByteKind>, kind: ByteKind, n: usize)
    ensures
        final(v)@ == old(v)@ + Seq::new(n as nat, |i: int| kind),
{
    let mut k: usize = 0;
    while k < n
        invariant
            k <= n,
            v@ == old(v)@ + Seq::new(k as nat, |i: int| kind),
        decreases n - k,
    {
        v.push(kind);
        k = k + 1;
        proof {
            assert(v@ =~= old(v)@ + Seq::new(k as nat, |i: int| kind));
        }
    }
    proof {
        assert(v@ =~= old(v)@ + Seq::new(n as nat, |i: int| kind));
    }
}

/// Appends a copy of `w` to `v`.
fn append_copy(v: &mut Vec<ByteKind>, w: &Vec<ByteKind>)
    ensures
        final(v)@ == old(v)@ + w@,
{
    let mut k: usize = 0;
    while k < w.len()
        invariant
            k <= w.len(),
            v@ == old(v)@ + w@.take(k as int),
        decreases w.len() - k,
    {
        let b = w[k];
        v.push(b);
        k = k + 1;
        proof {
            assert(v@ =~= old(v)@ + w@.take(k as int));
        }
    }
    proof {
        assert(v@ =~= old(v)@ + w@);
    }
}

/// Computes the validity bytes of a well-formed described type.
pub fn compute_vbytes(t: &Ty) -> (v: Vec<ByteKind>)
    requires
        ty_wf(*t),
    ensures
        v@ == ty_vbytes(*t),
        v@.len() == ty_size(*t),
    decreases *t,
{
    proof {
        lemma_vbytes_len(*t);
    }
    let mut v: Vec<ByteKind> = Vec::new();
    match t {
        Ty::Prim(_) => {
            let n = size_of(t);
            push_n(&mut v, ByteKind::Init, n);
            proof {
                assert(v@ =~= ty_vbytes(*t));
            }
        },
        Ty::Uninit(inner) => {
            let n = size_of(&**inner);
            push_n(&mut v, ByteKind::Uninit, n);
            proof {
                assert(v@ =~= ty_vbytes(*t));
            }
        },
        Ty::Array(elem, n) => {
            if *n > 0 {
                let eb = compute_vbytes(&**elem);
                let mut k: usize = 0;
                while k < *n
                    invariant
                        k <= *n,
                        eb@ == ty_vbytes(**elem),
                        v@ == rep(ty_vbytes(**elem), k as nat),
                    decreases *n - k,
                {
                    append_copy(&mut v, &eb);
                    k = k + 1;
                }
            }
        },
        Ty::Record(fs) => {
            proof {
                lemma_fields_end_lb(*fs, 0);
            }
            v = compute_fields_vbytes(fs, 0);
        },
        Ty::Ref(_) => {
            push_n(&mut v, ByteKind::Ptr, PTR_SIZE);
            proof {
                assert(v@ =~= ty_vbytes(*t));
            }
        },
        Ty::RefMut(_) => {
            push_n(&mut v, ByteKind::Ptr, PTR_SIZE);
            proof {
                assert(v@ =~= ty_vbytes(*t));
            }
        },
        Ty::RawPtr(_) => {
            push_n(&mut v, ByteKind::Ptr, PTR_SIZE);
            proof {
                assert(v@ =~= ty_vbytes(*t));
            }
        },
    }
    v
}

/// Computes the validity bytes of a record's fields laid out from `off`.
fn compute_fields_vbytes(fs: &Fields, off: usize) -> (v: Vec<ByteKind>)
    requires
        fields_wf(*fs),
        fields_end(*fs, off as nat) <= usize::MAX,
    ensures
        v@ == fields_vbytes(*fs, off as nat),
    decreases *fs,
{
    let mut v: Vec<ByteKind> = Vec::new();
    match fs {
        Fields::Nil => {},
        Fields::Cons(f, rest) => {
            proof {
                lemma_fields_end_lb(**rest, round_up(off as nat, ty_align(**f)) + ty_size(**f));
            }
            let a = align_of(&**f);
            let pad = (a - off % a) % a;
            push_n(&mut v, ByteKind::Uninit, pad);
            let fb = compute_vbytes(&**f);
            append_copy(&mut v, &fb);
            let off2 = off + pad + size_of(&**f);
            let rb = compute_fields_vbytes(&**rest, off2);
            append_copy(&mut v, &rb);
            proof {
                assert(v@ =~= fields_vbytes(*fs, off as nat));
            }
        },
    }
    v
}

/// The field list holding the elements of `s` from index `i` on, in order.
pub open spec fn fields_from(s: Seq<Ty>, i: int) -> Fields
    decreases s.len() - i,
{
    if i < 0 || i >= s.len() {
        Fields::Nil
    } else {
        Fields::Cons(Box::new(s[i]), Box::new(fields_from(s, i + 1)))
    }
}

/// Builds a record type from a list of field types, laid out in order.
pub fn record_of(fields: Vec<Ty>) -> (t: Ty)
    ensures
        t == Ty::Record(fields_from(fields@, 0)),
{
    let ghost s = fields@;
    let mut fields = fields;
    let mut acc = Fields::Nil;
    proof {
        assert(s.take(s.len() as int) =~= s);
    }
    while fields.len() > 0
        invariant
            fields@.len() <= s.len(),
            fields@ == s.take(fields@.len() as int),
            acc == fields_from(s, fields@.len() as int),
        decreases fields.len(),
    {
        let ghost n = fields@.len() as int;
        let f = fields.pop().unwrap();
        proof {
            assert(s.take(n).last() == s[n - 1]);
            assert(fields@ =~= s.take(n - 1));
        }
        acc = Fields::Cons(Box::new(f), Box::new(acc));
    }
    Ty::Record(acc)
}


/// Whether a byte that the destination constrains as `dst` accepts a byte
/// the source constrains as `src`. Unconstrained destination bytes accept
/// anything; initialized destination bytes accept only initialized plain
/// data; pointer bytes are never reconstituted from a byte rule alone.
pub open spec fn fits(dst: ByteKind, src: ByteKind) -> bool {
    match dst {
        ByteKind::Uninit => true,
        ByteKind::Init => src == ByteKind::Init,
        ByteKind::Ptr => false,
    }
}

/// Every byte the destination covers accepts the byte the source supplies
/// at the same position; the destination covers no more than the source.
pub open spec fn bytes_fit(dst: Seq<ByteKind>, src: Seq<ByteKind>) -> bool {
    &&& dst.len() <= src.len()
    &&& forall|i: int| 0 <= i < dst.len() ==> fits(dst[i], src[i])
}


/// A well-formed type's size fits the host's address space.
pub proof fn lemma_wf_size_bound(t: Ty)
    requires
        ty_wf(t),
    ensures
        ty_size(t) <= usize::MAX,
    decreases t,
{
    match t {
        Ty::Uninit(inner) => lemma_wf_size_bound(*inner),
        _ => {},
    }
}

} // verus!
