//! Stability declarations: a type's committed bound on future layout
//! drift, recorded as an archetype, and the registry that holds the
//! declarations the compatibility relation consults.

use vstd::prelude::*;

use crate::options::Waivers;
use crate::relation::lemma_structural_size;
use crate::relation::is_structural;
use crate::relation::structural;
use crate::ty::Ty;
use crate::ty::clone_ty;
use crate::ty::ty_eq;
use crate::ty::ty_wf;

verus! {

/// A declaration that `ty` may be stably transmuted *into* other types:
/// `archetype` exemplifies the greatest extent to which `ty`'s layout may
/// change in future compatible revisions, as seen by a conversion reading
/// `ty` as its source.
pub struct PromiseTransmutableInto {
    /// The declared type.
    pub ty: Ty,
    /// The worst-case future shape of the declared type as a source.
    pub archetype: Ty,
}

/// A declaration that `ty` may be stably transmuted *from* other types:
/// `archetype` exemplifies the greatest extent to which `ty`'s layout may
/// change in future compatible revisions, as seen by a conversion
/// instantiating `ty` as its destination.
pub struct PromiseTransmutableFrom {
    /// The declared type.
    pub ty: Ty,
    /// The worst-case future shape of the declared type as a destination.
    pub archetype: Ty,
}

/// The registry of stability declarations the relation consults.
///
/// Primitives are pre-declared stable with themselves and need no entry;
/// compound carriers derive their archetype structurally from their
/// element's. Only records and uninitialized-capable slots are declared
/// here, through [`Registry::declare_outbound`] and
/// [`Registry::declare_inbound`], which keep the registry well formed.
pub struct Registry {
    /// Outbound declarations, in declaration order.
    pub outbound: Vec<PromiseTransmutableInto>,
    /// Inbound declarations, in declaration order.
    pub inbound: Vec<PromiseTransmutableFrom>,
}

/// The types whose stability must be declared rather than derived.
pub open spec fn declarable(t: Ty) -> bool {
    t is Record || t is Uninit
}

/// The archetype recorded for `t` by the first matching outbound entry.
pub open spec fn lookup_out(entries: Seq<PromiseTransmutableInto>, t: Ty) -> Option<Ty>
    decreases entries.len(),
{
    if entries.len() == 0 {
        None
    } else if entries[0].ty == t {
        Some(entries[0].archetype)
    } else {
        lookup_out(entries.skip(1), t)
    }
}

/// The archetype recorded for `t` by the first matching inbound entry.
pub open spec fn lookup_in(entries: Seq<PromiseTransmutableFrom>, t: Ty) -> Option<Ty>
    decreases entries.len(),
{
    if entries.len() == 0 {
        None
    } else if entries[0].ty == t {
        Some(entries[0].archetype)
    } else {
        lookup_in(entries.skip(1), t)
    }
}

/// The outbound archetype of `t`: itself for a primitive, the registered
/// archetype for a declared type, and the same carrier over the element's
/// archetype for a compound carrier — provided the original converts into
/// that shape while neglecting only stability.
pub open spec fn out_arch(reg: Registry, t: Ty) -> Option<Ty>
    decreases t,
{
    match t {
        Ty::Prim(_) => Some(t),
        Ty::Record(_) => lookup_out(reg.outbound@, t),
        Ty::Uninit(_) => lookup_out(reg.outbound@, t),
        Ty::Array(e, n) => match out_arch(reg, *e) {
            Some(a) => {
                let cand = Ty::Array(Box::new(a), n);
                if structural(t, cand, Waivers::stability_only()) {
                    Some(cand)
                } else {
                    None
                }
            },
            None => None,
        },
        Ty::Ref(e) => match out_arch(reg, *e) {
            Some(a) => {
                let cand = Ty::Ref(Box::new(a));
                if structural(t, cand, Waivers::stability_only()) {
                    Some(cand)
                } else {
                    None
                }
            },
            None => None,
        },
        Ty::RefMut(e) => match out_arch(reg, *e) {
            Some(a) => {
                let cand = Ty::RefMut(Box::new(a));
                if structural(t, cand, Waivers::stability_only()) {
                    Some(cand)
                } else {
                    None
                }
            },
            None => None,
        },
        Ty::RawPtr(e) => match out_arch(reg, *e) {
            Some(a) => {
                let cand = Ty::RawPtr(Box::new(a));
                if structural(t, cand, Waivers::stability_only()) {
                    Some(cand)
                } else {
                    None
                }
            },
            None => None,
        },
    }
}

/// The inbound archetype of `t`, symmetric to [`out_arch`]: the archetype
/// must convert into the original while neglecting only stability.
pub open spec fn in_arch(reg: Registry, t: Ty) -> Option<Ty>
    decreases t,
{
    match t {
        Ty::Prim(_) => Some(t),
        Ty::Record(_) => lookup_in(reg.inbound@, t),
        Ty::Uninit(_) => lookup_in(reg.inbound@, t),
        Ty::Array(e, n) => match in_arch(reg, *e) {
            Some(a) => {
                let cand = Ty::Array(Box::new(a), n);
                if structural(cand, t, Waivers::stability_only()) {
                    Some(cand)
                } else {
                    None
                }
            },
            None => None,
        },
        Ty::Ref(e) => match in_arch(reg, *e) {
            Some(a) => {
                let cand = Ty::Ref(Box::new(a));
                if structural(cand, t, Waivers::stability_only()) {
                    Some(cand)
                } else {
                    None
                }
            },
            None => None,
        },
        Ty::RefMut(e) => match in_arch(reg, *e) {
            Some(a) => {
                let cand = Ty::RefMut(Box::new(a));
                if structural(cand, t, Waivers::stability_only()) {
                    Some(cand)
                } else {
                    None
                }
            },
            None => None,
        },
        Ty::RawPtr(e) => match in_arch(reg, *e) {
            Some(a) => {
                let cand = Ty::RawPtr(Box::new(a));
                if structural(cand, t, Waivers::stability_only()) {
                    Some(cand)
                } else {
                    None
                }
            },
            None => None,
        },
    }
}

/// A sound outbound entry: a declarable, well-formed type whose archetype
/// is reachable from it while neglecting only stability, and is itself
/// outbound-committed.
pub open spec fn out_entry_ok(reg: Registry, e: PromiseTransmutableInto) -> bool {
    &&& declarable(e.ty)
    &&& ty_wf(e.ty)
    &&& ty_wf(e.archetype)
    &&& structural(e.ty, e.archetype, Waivers::stability_only())
    &&& out_arch(reg, e.archetype) is Some
}

/// A sound inbound entry, symmetric to [`out_entry_ok`].
pub open spec fn in_entry_ok(reg: Registry, e: PromiseTransmutableFrom) -> bool {
    &&& declarable(e.ty)
    &&& ty_wf(e.ty)
    &&& ty_wf(e.archetype)
    &&& structural(e.archetype, e.ty, Waivers::stability_only())
    &&& in_arch(reg, e.archetype) is Some
}

/// A well-formed registry holds only sound entries.
pub open spec fn reg_wf(reg: Registry) -> bool {
    &&& forall|i: int|
        0 <= i < reg.outbound@.len() ==> out_entry_ok(reg, #[trigger] reg.outbound@[i])
    &&& forall|i: int| 0 <= i < reg.inbound@.len() ==> in_entry_ok(reg, #[trigger] reg.inbound@[i])
}

/// A successful outbound lookup comes from some entry.
proof fn lemma_lookup_out_entry(entries: Seq<PromiseTransmutableInto>, t: Ty, a: Ty)
    requires
        lookup_out(entries, t) == Some(a),
    ensures
        exists|i: int|
            0 <= i < entries.len() && (#[trigger] entries[i]).ty == t && entries[i].archetype
                == a,
    decreases entries.len(),
{
    if entries[0].ty == t {
        assert(entries[0].ty == t && entries[0].archetype == a);
    } else {
        lemma_lookup_out_entry(entries.skip(1), t, a);
        let i = choose|i: int|
            0 <= i < entries.skip(1).len() && (#[trigger] entries.skip(1)[i]).ty == t
                && entries.skip(1)[i].archetype == a;
        assert(entries[i + 1].ty == t && entries[i + 1].archetype == a);
    }
}

/// A successful inbound lookup comes from some entry.
proof fn lemma_lookup_in_entry(entries: Seq<PromiseTransmutableFrom>, t: Ty, a: Ty)
    requires
        lookup_in(entries, t) == Some(a),
    ensures
        exists|i: int|
            0 <= i < entries.len() && (#[trigger] entries[i]).ty == t && entries[i].archetype
                == a,
    decreases entries.len(),
{
    if entries[0].ty == t {
        assert(entries[0].ty == t && entries[0].archetype == a);
    } else {
        lemma_lookup_in_entry(entries.skip(1), t, a);
        let i = choose|i: int|
            0 <= i < entries.skip(1).len() && (#[trigger] entries.skip(1)[i]).ty == t
                && entries.skip(1)[i].archetype == a;
        assert(entries[i + 1].ty == t && entries[i + 1].archetype == a);
    }
}

/// In a well-formed registry, a type converts into its outbound archetype
/// while neglecting only stability.
pub proof fn lemma_out_arch_sound(reg: Registry, t: Ty, a: Ty)
    requires
        reg_wf(reg),
        out_arch(reg, t) == Some(a),
    ensures
        structural(t, a, Waivers::stability_only()),
    decreases t,
{
    match t {
        Ty::Record(_) => {
            lemma_lookup_out_entry(reg.outbound@, t, a);
        },
        Ty::Uninit(_) => {
            lemma_lookup_out_entry(reg.outbound@, t, a);
        },
        _ => {},
    }
}

/// In a well-formed registry, an inbound archetype converts into its type
/// while neglecting only stability.
pub proof fn lemma_in_arch_sound(reg: Registry, t: Ty, a: Ty)
    requires
        reg_wf(reg),
        in_arch(reg, t) == Some(a),
    ensures
        structural(a, t, Waivers::stability_only()),
    decreases t,
{
    match t {
        Ty::Record(_) => {
            lemma_lookup_in_entry(reg.inbound@, t, a);
        },
        Ty::Uninit(_) => {
            lemma_lookup_in_entry(reg.inbound@, t, a);
        },
        _ => {},
    }
}

/// In a well-formed registry, the outbound archetype of a well-formed
/// type is well formed.
pub proof fn lemma_out_arch_wf(reg: Registry, t: Ty, a: Ty)
    requires
        reg_wf(reg),
        ty_wf(t),
        out_arch(reg, t) == Some(a),
    ensures
        ty_wf(a),
    decreases t,
{
    match t {
        Ty::Record(_) => {
            lemma_lookup_out_entry(reg.outbound@, t, a);
        },
        Ty::Uninit(_) => {
            lemma_lookup_out_entry(reg.outbound@, t, a);
        },
        Ty::Array(e, n) => {
            let ea = out_arch(reg, *e)->0;
            lemma_out_arch_wf(reg, *e, ea);
            lemma_out_arch_sound(reg, *e, ea);
            lemma_structural_size(*e, ea, Waivers::stability_only());
        },
        Ty::Ref(e) => {
            lemma_out_arch_wf(reg, *e, out_arch(reg, *e)->0);
        },
        Ty::RefMut(e) => {
            lemma_out_arch_wf(reg, *e, out_arch(reg, *e)->0);
        },
        Ty::RawPtr(e) => {
            lemma_out_arch_wf(reg, *e, out_arch(reg, *e)->0);
        },
        _ => {},
    }
}

/// In a well-formed registry, the inbound archetype of a well-formed type
/// is well formed.
pub proof fn lemma_in_arch_wf(reg: Registry, t: Ty, a: Ty)
    requires
        reg_wf(reg),
        ty_wf(t),
        in_arch(reg, t) == Some(a),
    ensures
        ty_wf(a),
    decreases t,
{
    match t {
        Ty::Record(_) => {
            lemma_lookup_in_entry(reg.inbound@, t, a);
        },
        Ty::Uninit(_) => {
            lemma_lookup_in_entry(reg.inbound@, t, a);
        },
        Ty::Array(e, n) => {
            let ea = in_arch(reg, *e)->0;
            lemma_in_arch_wf(reg, *e, ea);
            lemma_in_arch_sound(reg, *e, ea);
            lemma_structural_size(ea, *e, Waivers::stability_only());
        },
        Ty::Ref(e) => {
            lemma_in_arch_wf(reg, *e, in_arch(reg, *e)->0);
        },
        Ty::RefMut(e) => {
            lemma_in_arch_wf(reg, *e, in_arch(reg, *e)->0);
        },
        Ty::RawPtr(e) => {
            lemma_in_arch_wf(reg, *e, in_arch(reg, *e)->0);
        },
        _ => {},
    }
}


/// Appending an outbound entry resolves exactly the lookups that were
/// unresolved and match the new entry.
proof fn lemma_lookup_out_push(entries: Seq<PromiseTransmutableInto>, e: PromiseTransmutableInto, t: Ty)
    ensures
        lookup_out(entries.push(e), t) == (if lookup_out(entries, t) is Some {
            lookup_out(entries, t)
        } else if e.ty == t {
            Some(e.archetype)
        } else {
            None
        }),
    decreases entries.len(),
{
    if entries.len() == 0 {
        assert(entries.push(e).len() == 1);
        assert(entries.push(e)[0] == e);
        assert(entries.push(e).skip(1) =~= Seq::<PromiseTransmutableInto>::empty());
        assert(lookup_out(entries.push(e).skip(1), t) is None);
        assert(lookup_out(entries, t) is None);
        if e.ty == t {
            assert(lookup_out(entries.push(e), t) == Some(e.archetype));
        } else {
            assert(lookup_out(entries.push(e), t) is None);
        }
    } else {
        assert(entries.push(e)[0] == entries[0]);
        assert(entries.push(e).skip(1) =~= entries.skip(1).push(e));
        lemma_lookup_out_push(entries.skip(1), e, t);
    }
}

/// Appending an inbound entry resolves exactly the lookups that were
/// unresolved and match the new entry.
proof fn lemma_lookup_in_push(entries: Seq<PromiseTransmutableFrom>, e: PromiseTransmutableFrom, t: Ty)
    ensures
        lookup_in(entries.push(e), t) == (if lookup_in(entries, t) is Some {
            lookup_in(entries, t)
        } else if e.ty == t {
            Some(e.archetype)
        } else {
            None
        }),
    decreases entries.len(),
{
    if entries.len() == 0 {
        assert(entries.push(e).len() == 1);
        assert(entries.push(e)[0] == e);
        assert(entries.push(e).skip(1) =~= Seq::<PromiseTransmutableFrom>::empty());
        assert(lookup_in(entries.push(e).skip(1), t) is None);
        assert(lookup_in(entries, t) is None);
        if e.ty == t {
            assert(lookup_in(entries.push(e), t) == Some(e.archetype));
        } else {
            assert(lookup_in(entries.push(e), t) is None);
        }
    } else {
        assert(entries.push(e)[0] == entries[0]);
        assert(entries.push(e).skip(1) =~= entries.skip(1).push(e));
        lemma_lookup_in_push(entries.skip(1), e, t);
    }
}

/// Outbound archetypes depend only on the outbound entries.
proof fn lemma_out_arch_same(reg: Registry, reg2: Registry, t: Ty)
    requires
        reg.outbound@ == reg2.outbound@,
    ensures
        out_arch(reg, t) == out_arch(reg2, t),
    decreases t,
{
    match t {
        Ty::Array(e, _) => lemma_out_arch_same(reg, reg2, *e),
        Ty::Ref(e) => lemma_out_arch_same(reg, reg2, *e),
        Ty::RefMut(e) => lemma_out_arch_same(reg, reg2, *e),
        Ty::RawPtr(e) => lemma_out_arch_same(reg, reg2, *e),
        _ => {},
    }
}

/// Inbound archetypes depend only on the inbound entries.
proof fn lemma_in_arch_same(reg: Registry, reg2: Registry, t: Ty)
    requires
        reg.inbound@ == reg2.inbound@,
    ensures
        in_arch(reg, t) == in_arch(reg2, t),
    decreases t,
{
    match t {
        Ty::Array(e, _) => lemma_in_arch_same(reg, reg2, *e),
        Ty::Ref(e) => lemma_in_arch_same(reg, reg2, *e),
        Ty::RefMut(e) => lemma_in_arch_same(reg, reg2, *e),
        Ty::RawPtr(e) => lemma_in_arch_same(reg, reg2, *e),
        _ => {},
    }
}

/// Appending an outbound entry preserves every committed outbound
/// archetype.
proof fn lemma_out_arch_push(reg: Registry, reg2: Registry, e: PromiseTransmutableInto, t: Ty)
    requires
        reg2.outbound@ == reg.outbound@.push(e),
        out_arch(reg, t) is Some,
    ensures
        out_arch(reg2, t) == out_arch(reg, t),
    decreases t,
{
    match t {
        Ty::Record(_) => lemma_lookup_out_push(reg.outbound@, e, t),
        Ty::Uninit(_) => lemma_lookup_out_push(reg.outbound@, e, t),
        Ty::Array(el, _) => lemma_out_arch_push(reg, reg2, e, *el),
        Ty::Ref(el) => lemma_out_arch_push(reg, reg2, e, *el),
        Ty::RefMut(el) => lemma_out_arch_push(reg, reg2, e, *el),
        Ty::RawPtr(el) => lemma_out_arch_push(reg, reg2, e, *el),
        _ => {},
    }
}

/// Appending an inbound entry preserves every committed inbound archetype.
proof fn lemma_in_arch_push(reg: Registry, reg2: Registry, e: PromiseTransmutableFrom, t: Ty)
    requires
        reg2.inbound@ == reg.inbound@.push(e),
        in_arch(reg, t) is Some,
    ensures
        in_arch(reg2, t) == in_arch(reg, t),
    decreases t,
{
    match t {
        Ty::Record(_) => lemma_lookup_in_push(reg.inbound@, e, t),
        Ty::Uninit(_) => lemma_lookup_in_push(reg.inbound@, e, t),
        Ty::Array(el, _) => lemma_in_arch_push(reg, reg2, e, *el),
        Ty::Ref(el) => lemma_in_arch_push(reg, reg2, e, *el),
        Ty::RefMut(el) => lemma_in_arch_push(reg, reg2, e, *el),
        Ty::RawPtr(el) => lemma_in_arch_push(reg, reg2, e, *el),
        _ => {},
    }
}

/// Finds the outbound entry for `t`, if one was declared.
fn lookup_outbound(reg: &Registry, t: &Ty) -> (r: Option<Ty>)
    ensures
        r == lookup_out(reg.outbound@, *t),
{
    let mut i: usize = 0;
    proof {
        assert(reg.outbound@.skip(0) =~= reg.outbound@);
    }
    while i < reg.outbound.len()
        invariant
            i <= reg.outbound@.len(),
            lookup_out(reg.outbound@.skip(i as int), *t) == lookup_out(reg.outbound@, *t),
        decreases reg.outbound@.len() - i,
    {
        proof {
            assert(reg.outbound@.skip(i as int)[0] == reg.outbound@[i as int]);
            assert(reg.outbound@.skip(i as int).skip(1) =~= reg.outbound@.skip(i as int + 1));
        }
        let e = &reg.outbound[i];
        if ty_eq(&e.ty, t) {
            return Some(clone_ty(&e.archetype));
        }
        i = i + 1;
    }
    proof {
        assert(reg.outbound@.skip(i as int) =~= Seq::<PromiseTransmutableInto>::empty());
    }
    None
}

/// Finds the inbound entry for `t`, if one was declared.
fn lookup_inbound(reg: &Registry, t: &Ty) -> (r: Option<Ty>)
    ensures
        r == lookup_in(reg.inbound@, *t),
{
    let mut i: usize = 0;
    proof {
        assert(reg.inbound@.skip(0) =~= reg.inbound@);
    }
    while i < reg.inbound.len()
        invariant
            i <= reg.inbound@.len(),
            lookup_in(reg.inbound@.skip(i as int), *t) == lookup_in(reg.inbound@, *t),
        decreases reg.inbound@.len() - i,
    {
        proof {
            assert(reg.inbound@.skip(i as int)[0] == reg.inbound@[i as int]);
            assert(reg.inbound@.skip(i as int).skip(1) =~= reg.inbound@.skip(i as int + 1));
        }
        let e = &reg.inbound[i];
        if ty_eq(&e.ty, t) {
            return Some(clone_ty(&e.archetype));
        }
        i = i + 1;
    }
    proof {
        assert(reg.inbound@.skip(i as int) =~= Seq::<PromiseTransmutableFrom>::empty());
    }
    None
}

/// Computes the outbound archetype of `t`, if `t` is outbound-committed.
pub fn outbound_archetype(reg: &Registry, t: &Ty) -> (r: Option<Ty>)
    requires
        reg_wf(*reg),
        ty_wf(*t),
    ensures
        r == out_arch(*reg, *t),
        r is Some ==> ty_wf(r->0),
    decreases *t,
{
    proof {
        if out_arch(*reg, *t) is Some {
            lemma_out_arch_wf(*reg, *t, out_arch(*reg, *t)->0);
        }
    }
    let stab = Waivers { stability: true, alignment: false, validity: false };
    match t {
        Ty::Prim(p) => Some(Ty::Prim(*p)),
        Ty::Record(_) => {
            let r = lookup_outbound(reg, t);
            proof {
                if r is Some {
                    lemma_lookup_out_entry(reg.outbound@, *t, r->0);
                }
            }
            r
        },
        Ty::Uninit(_) => {
            let r = lookup_outbound(reg, t);
            proof {
                if r is Some {
                    lemma_lookup_out_entry(reg.outbound@, *t, r->0);
                }
            }
            r
        },
        Ty::Array(e, n) => match outbound_archetype(reg, &**e) {
            Some(a) => {
                proof {
                    lemma_out_arch_sound(*reg, **e, a);
                    lemma_structural_size(**e, a, Waivers::stability_only());
                }
                let cand = Ty::Array(Box::new(a), *n);
                if is_structural(t, &cand, stab) {
                    Some(cand)
                } else {
                    None
                }
            },
            None => None,
        },
        Ty::Ref(e) => match outbound_archetype(reg, &**e) {
            Some(a) => {
                let cand = Ty::Ref(Box::new(a));
                if is_structural(t, &cand, stab) {
                    Some(cand)
                } else {
                    None
                }
            },
            None => None,
        },
        Ty::RefMut(e) => match outbound_archetype(reg, &**e) {
            Some(a) => {
                let cand = Ty::RefMut(Box::new(a));
                if is_structural(t, &cand, stab) {
                    Some(cand)
                } else {
                    None
                }
            },
            None => None,
        },
        Ty::RawPtr(e) => match outbound_archetype(reg, &**e) {
            Some(a) => {
                let cand = Ty::RawPtr(Box::new(a));
                if is_structural(t, &cand, stab) {
                    Some(cand)
                } else {
                    None
                }
            },
            None => None,
        },
    }
}

/// Computes the inbound archetype of `t`, if `t` is inbound-committed.
pub fn inbound_archetype(reg: &Registry, t: &Ty) -> (r: Option<Ty>)
    requires
        reg_wf(*reg),
        ty_wf(*t),
    ensures
        r == in_arch(*reg, *t),
        r is Some ==> ty_wf(r->0),
    decreases *t,
{
    proof {
        if in_arch(*reg, *t) is Some {
            lemma_in_arch_wf(*reg, *t, in_arch(*reg, *t)->0);
        }
    }
    let stab = Waivers { stability: true, alignment: false, validity: false };
    match t {
        Ty::Prim(p) => Some(Ty::Prim(*p)),
        Ty::Record(_) => {
            let r = lookup_inbound(reg, t);
            proof {
                if r is Some {
                    lemma_lookup_in_entry(reg.inbound@, *t, r->0);
                }
            }
            r
        },
        Ty::Uninit(_) => {
            let r = lookup_inbound(reg, t);
            proof {
                if r is Some {
                    lemma_lookup_in_entry(reg.inbound@, *t, r->0);
                }
            }
            r
        },
        Ty::Array(e, n) => match inbound_archetype(reg, &**e) {
            Some(a) => {
                proof {
                    lemma_in_arch_sound(*reg, **e, a);
                    lemma_structural_size(a, **e, Waivers::stability_only());
                }
                let cand = Ty::Array(Box::new(a), *n);
                if is_structural(&cand, t, stab) {
                    Some(cand)
                } else {
                    None
                }
            },
            None => None,
        },
        Ty::Ref(e) => match inbound_archetype(reg, &**e) {
            Some(a) => {
                let cand = Ty::Ref(Box::new(a));
                if is_structural(&cand, t, stab) {
                    Some(cand)
                } else {
                    None
                }
            },
            None => None,
        },
        Ty::RefMut(e) => match inbound_archetype(reg, &**e) {
            Some(a) => {
                let cand = Ty::RefMut(Box::new(a));
                if is_structural(&cand, t, stab) {
                    Some(cand)
                } else {
                    None
                }
            },
            None => None,
        },
        Ty::RawPtr(e) => match inbound_archetype(reg, &**e) {
            Some(a) => {
                let cand = Ty::RawPtr(Box::new(a));
                if is_structural(&cand, t, stab) {
                    Some(cand)
                } else {
                    None
                }
            },
            None => None,
        },
    }
}

impl Registry {
    /// An empty registry: only the pre-declared primitives and the
    /// compound carriers over them are stability-committed.
    pub fn new() -> (r: Registry)
        ensures
            reg_wf(r),
            r.outbound@.len() == 0,
            r.inbound@.len() == 0,
    {
        Registry { outbound: Vec::new(), inbound: Vec::new() }
    }

    /// Declares that `t` is outbound-stable with the given archetype.
    ///
    /// The declaration is accepted exactly when `t` is a declarable type
    /// not yet declared, `t` converts into the archetype while neglecting
    /// only stability, and the archetype is itself outbound-committed —
    /// either already, or as its own fixed point. Nothing else changes: in
    /// particular the inbound side is untouched, so declaring outbound
    /// stability never commits a type as a destination.
    pub fn declare_outbound(&mut self, t: &Ty, archetype: &Ty) -> (ok: bool)
        requires
            reg_wf(*old(self)),
            ty_wf(*t),
            ty_wf(*archetype),
        ensures
            reg_wf(*final(self)),
            final(self).inbound@ == old(self).inbound@,
            forall|x: Ty| in_arch(*final(self), x) == in_arch(*old(self), x),
            forall|x: Ty|
                out_arch(*old(self), x) is Some ==> out_arch(*final(self), x) == out_arch(
                    *old(self),
                    x,
                ),
            ok <==> {
                &&& declarable(*t)
                &&& lookup_out(old(self).outbound@, *t) is None
                &&& structural(*t, *archetype, Waivers::stability_only())
                &&& (*archetype == *t || out_arch(*old(self), *archetype) is Some)
            },
            ok ==> out_arch(*final(self), *t) == Some(*archetype),
            !ok ==> final(self).outbound@ == old(self).outbound@,
    {
        let is_declarable = match t {
            Ty::Record(_) => true,
            Ty::Uninit(_) => true,
            _ => false,
        };
        if !is_declarable {
            return false;
        }
        match lookup_outbound(&*self, t) {
            Some(_) => {
                return false;
            },
            None => {},
        }
        let stab = Waivers { stability: true, alignment: false, validity: false };
        if !is_structural(t, archetype, stab) {
            return false;
        }
        let self_arch = ty_eq(t, archetype);
        if !self_arch {
            match outbound_archetype(&*self, archetype) {
                None => {
                    return false;
                },
                Some(_) => {},
            }
        }
        let e = PromiseTransmutableInto { ty: clone_ty(t), archetype: clone_ty(archetype) };
        let ghost reg0 = *self;
        self.outbound.push(e);
        proof {
            let reg2 = *self;
            assert(reg2.outbound@ == reg0.outbound@.push(e));
            assert forall|x: Ty| in_arch(reg2, x) == in_arch(reg0, x) by {
                lemma_in_arch_same(reg2, reg0, x);
            }
            assert forall|x: Ty|
                out_arch(reg0, x) is Some implies out_arch(reg2, x) == out_arch(reg0, x) by {
                lemma_out_arch_push(reg0, reg2, e, x);
            }
            lemma_lookup_out_push(reg0.outbound@, e, *t);
            assert(out_arch(reg2, *t) == Some(*archetype));
            assert forall|i: int|
                0 <= i < reg2.outbound@.len() implies out_entry_ok(
                reg2,
                #[trigger] reg2.outbound@[i],
            ) by {
                if i < reg0.outbound@.len() {
                    assert(reg2.outbound@[i] == reg0.outbound@[i]);
                    assert(out_entry_ok(reg0, reg0.outbound@[i]));
                    lemma_out_arch_push(reg0, reg2, e, reg0.outbound@[i].archetype);
                } else {
                    assert(reg2.outbound@[i] == e);
                    if *archetype == *t {
                        assert(out_arch(reg2, e.archetype) is Some);
                    } else {
                        lemma_out_arch_push(reg0, reg2, e, e.archetype);
                    }
                }
            }
            assert forall|i: int|
                0 <= i < reg2.inbound@.len() implies in_entry_ok(
                reg2,
                #[trigger] reg2.inbound@[i],
            ) by {
                assert(in_entry_ok(reg0, reg0.inbound@[i]));
                lemma_in_arch_same(reg0, reg2, reg0.inbound@[i].archetype);
            }
        }
        true
    }

    /// Declares that `t` is inbound-stable with the given archetype.
    ///
    /// Symmetric to [`Registry::declare_outbound`]: the archetype must
    /// convert into `t` while neglecting only stability, and the outbound
    /// side is untouched.
    pub fn declare_inbound(&mut self, t: &Ty, archetype: &Ty) -> (ok: bool)
        requires
            reg_wf(*old(self)),
            ty_wf(*t),
            ty_wf(*archetype),
        ensures
            reg_wf(*final(self)),
            final(self).outbound@ == old(self).outbound@,
            forall|x: Ty| out_arch(*final(self), x) == out_arch(*old(self), x),
            forall|x: Ty|
                in_arch(*old(self), x) is Some ==> in_arch(*final(self), x) == in_arch(
                    *old(self),
                    x,
                ),
            ok <==> {
                &&& declarable(*t)
                &&& lookup_in(old(self).inbound@, *t) is None
                &&& structural(*archetype, *t, Waivers::stability_only())
                &&& (*archetype == *t || in_arch(*old(self), *archetype) is Some)
            },
            ok ==> in_arch(*final(self), *t) == Some(*archetype),
            !ok ==> final(self).inbound@ == old(self).inbound@,
    {
        let is_declarable = match t {
            Ty::Record(_) => true,
            Ty::Uninit(_) => true,
            _ => false,
        };
        if !is_declarable {
            return false;
        }
        match lookup_inbound(&*self, t) {
            Some(_) => {
                return false;
            },
            None => {},
        }
        let stab = Waivers { stability: true, alignment: false, validity: false };
        if !is_structural(archetype, t, stab) {
            return false;
        }
        let self_arch = ty_eq(t, archetype);
        if !self_arch {
            match inbound_archetype(&*self, archetype) {
                None => {
                    return false;
                },
                Some(_) => {},
            }
        }
        let e = PromiseTransmutableFrom { ty: clone_ty(t), archetype: clone_ty(archetype) };
        let ghost reg0 = *self;
        self.inbound.push(e);
        proof {
            let reg2 = *self;
            assert(reg2.inbound@ == reg0.inbound@.push(e));
            assert forall|x: Ty| out_arch(reg2, x) == out_arch(reg0, x) by {
                lemma_out_arch_same(reg2, reg0, x);
            }
            assert forall|x: Ty|
                in_arch(reg0, x) is Some implies in_arch(reg2, x) == in_arch(reg0, x) by {
                lemma_in_arch_push(reg0, reg2, e, x);
            }
            lemma_lookup_in_push(reg0.inbound@, e, *t);
            assert(in_arch(reg2, *t) == Some(*archetype));
            assert forall|i: int|
                0 <= i < reg2.inbound@.len() implies in_entry_ok(
                reg2,
                #[trigger] reg2.inbound@[i],
            ) by {
                if i < reg0.inbound@.len() {
                    assert(reg2.inbound@[i] == reg0.inbound@[i]);
                    assert(in_entry_ok(reg0, reg0.inbound@[i]));
                    lemma_in_arch_push(reg0, reg2, e, reg0.inbound@[i].archetype);
                } else {
                    assert(reg2.inbound@[i] == e);
                    if *archetype == *t {
                        assert(in_arch(reg2, e.archetype) is Some);
                    } else {
                        lemma_in_arch_push(reg0, reg2, e, e.archetype);
                    }
                }
            }
            assert forall|i: int|
                0 <= i < reg2.outbound@.len() implies out_entry_ok(
                reg2,
                #[trigger] reg2.outbound@[i],
            ) by {
                assert(out_entry_ok(reg0, reg0.outbound@[i]));
                lemma_out_arch_same(reg0, reg2, reg0.outbound@[i].archetype);
            }
        }
        true
    }
}

} // verus!
