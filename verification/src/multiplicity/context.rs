//! Contexts of the linear type system: each variable is bound with a
//! multiplicity (or a quantity) and a type. Contexts are added pointwise and
//! scaled by a quantity.
use vstd::prelude::*;

use crate::ast::types::{Multiplicity, SpecType, Type};
use crate::multiplicity::semiring::{
    lemma_quantity_semiring, quantity_add, quantity_mul, spec_quantity_add, spec_quantity_mul, Quantity,
};
use crate::table::NameTable;

verus! {

/// Why two contexts cannot be added, or a context cannot be scaled.
#[derive(Debug, Clone, Copy, PartialEq, Eq, Structural)]
pub enum BorrowContextMix {
    CannotMixBorrowWithQuantity,
    CannotScaleBorrow,
}

impl BorrowContextMix {
    /// The message shown for this error.
    pub fn message(&self) -> (r: String)
        ensures
            *self is CannotMixBorrowWithQuantity ==> r@ == "Cannot mix borrow context with quantity context"@,
            *self is CannotScaleBorrow ==> r@ == "Cannot scale borrow"@,
    {
        match self {
            BorrowContextMix::CannotMixBorrowWithQuantity => crate::text::owned(
                "Cannot mix borrow context with quantity context",
            ),
            BorrowContextMix::CannotScaleBorrow => crate::text::owned("Cannot scale borrow"),
        }
    }
}

/// The sum of two multiplicities; a borrow cannot be added to anything.
pub open spec fn spec_mult_add(m1: Multiplicity, m2: Multiplicity) -> Option<Multiplicity> {
    match (m1, m2) {
        (Multiplicity::Borrow, _) => None,
        (_, Multiplicity::Borrow) => None,
        (Multiplicity::Zero, m) => Some(m),
        (m, Multiplicity::Zero) => Some(m),
        _ => Some(Multiplicity::Omega),
    }
}

/// Adds two multiplicities.
pub fn add_multiplicity(m1: Multiplicity, m2: Multiplicity) -> (r: Result<Multiplicity, BorrowContextMix>)
    ensures
        spec_mult_add(m1, m2) matches Some(m) ==> r == Ok::<Multiplicity, BorrowContextMix>(m),
        spec_mult_add(m1, m2) is None ==> r == Err::<Multiplicity, BorrowContextMix>(
            BorrowContextMix::CannotMixBorrowWithQuantity,
        ),
{
    match (m1, m2) {
        (Multiplicity::Borrow, _) | (_, Multiplicity::Borrow) => Err(BorrowContextMix::CannotMixBorrowWithQuantity),
        (Multiplicity::Zero, m) | (m, Multiplicity::Zero) => Ok(m),
        _ => Ok(Multiplicity::Omega),
    }
}

/// A multiplicity other than a borrow, scaled by a quantity: a linear
/// binding takes the quantity, unused and unrestricted bindings stay as they
/// are.
pub open spec fn spec_scale_mult(m: Multiplicity, q: Quantity) -> Multiplicity {
    match m {
        Multiplicity::One => match q {
            Quantity::Zero => Multiplicity::Zero,
            Quantity::One => Multiplicity::One,
            Quantity::Omega => Multiplicity::Omega,
        },
        _ => m,
    }
}

fn scale_multiplicity(m: Multiplicity, q: Quantity) -> (r: Multiplicity)
    ensures
        r == spec_scale_mult(m, q),
{
    match m {
        Multiplicity::One => match q {
            Quantity::Zero => Multiplicity::Zero,
            Quantity::One => Multiplicity::One,
            Quantity::Omega => Multiplicity::Omega,
        },
        _ => m,
    }
}

/// The value of one binding.
pub open spec fn binding_view(b: (Multiplicity, Type)) -> (Multiplicity, SpecType) {
    (b.0, b.1@)
}

/// The value of one quantity binding.
pub open spec fn qbinding_view(b: (Quantity, Type)) -> (Quantity, SpecType) {
    (b.0, b.1@)
}

/// The bindings of a table, by name.
pub open spec fn mtable_view(t: NameTable<(Multiplicity, Type)>) -> Map<Seq<char>, (Multiplicity, SpecType)> {
    t.spec_map().map_values(|b: (Multiplicity, Type)| binding_view(b))
}

/// The quantity bindings of a table, by name.
pub open spec fn qtable_view(t: NameTable<(Quantity, Type)>) -> Map<Seq<char>, (Quantity, SpecType)> {
    t.spec_map().map_values(|b: (Quantity, Type)| qbinding_view(b))
}

/// No variable bound in both contexts has a multiplicity that cannot be
/// added to the other.
pub open spec fn sums_cleanly(a: Map<Seq<char>, (Multiplicity, SpecType)>, b: Map<Seq<char>, (Multiplicity, SpecType)>) -> bool {
    forall|x: Seq<char>|
        a.dom().contains(x) && b.dom().contains(x) ==> (#[trigger] spec_mult_add(a[x].0, b[x].0)) is Some
}

/// The pointwise sum of two contexts: a variable bound in both gets the sum
/// of its multiplicities and the type from the left context when
/// `keep_left_type` holds, else from the right one; a variable bound in one
/// keeps its binding.
pub open spec fn ctx_sum(
    a: Map<Seq<char>, (Multiplicity, SpecType)>,
    b: Map<Seq<char>, (Multiplicity, SpecType)>,
    keep_left_type: bool,
) -> Map<Seq<char>, (Multiplicity, SpecType)> {
    Map::new(
        |x: Seq<char>| a.dom().contains(x) || b.dom().contains(x),
        |x: Seq<char>|
            if a.dom().contains(x) && b.dom().contains(x) {
                (spec_mult_add(a[x].0, b[x].0)->0, if keep_left_type { a[x].1 } else { b[x].1 })
            } else if a.dom().contains(x) {
                a[x]
            } else {
                b[x]
            },
    )
}

/// Some variable of the context is borrowed.
pub open spec fn has_borrow(a: Map<Seq<char>, (Multiplicity, SpecType)>) -> bool {
    exists|x: Seq<char>| a.dom().contains(x) && (#[trigger] a[x]).0 == Multiplicity::Borrow
}

/// Every multiplicity of the context scaled by `q`.
pub open spec fn ctx_scaled(a: Map<Seq<char>, (Multiplicity, SpecType)>, q: Quantity) -> Map<Seq<char>, (Multiplicity, SpecType)> {
    a.map_values(|b: (Multiplicity, SpecType)| (spec_scale_mult(b.0, q), b.1))
}

/// The quantity a multiplicity other than a borrow stands for.
pub open spec fn spec_mult_quantity(m: Multiplicity) -> Quantity {
    match m {
        Multiplicity::Zero => Quantity::Zero,
        Multiplicity::One => Quantity::One,
        _ => Quantity::Omega,
    }
}

/// The bindings of a context that are not borrows, as quantities.
pub open spec fn ctx_quantities(a: Map<Seq<char>, (Multiplicity, SpecType)>) -> Map<Seq<char>, (Quantity, SpecType)> {
    Map::new(
        |x: Seq<char>| a.dom().contains(x) && a[x].0 != Multiplicity::Borrow,
        |x: Seq<char>| (spec_mult_quantity(a[x].0), a[x].1),
    )
}

/// The pointwise sum of two quantity contexts, keeping the left type of a
/// variable bound in both.
pub open spec fn qctx_sum(a: Map<Seq<char>, (Quantity, SpecType)>, b: Map<Seq<char>, (Quantity, SpecType)>) -> Map<Seq<char>, (Quantity, SpecType)> {
    Map::new(
        |x: Seq<char>| a.dom().contains(x) || b.dom().contains(x),
        |x: Seq<char>|
            if a.dom().contains(x) && b.dom().contains(x) {
                (spec_quantity_add(a[x].0, b[x].0), a[x].1)
            } else if a.dom().contains(x) {
                a[x]
            } else {
                b[x]
            },
    )
}

/// Every quantity of the context multiplied by `q` on the left.
pub open spec fn qctx_scaled(a: Map<Seq<char>, (Quantity, SpecType)>, q: Quantity) -> Map<Seq<char>, (Quantity, SpecType)> {
    a.map_values(|b: (Quantity, SpecType)| (spec_quantity_mul(q, b.0), b.1))
}

/// The names of a table's first `i` entries.
pub open spec fn prefix_names<V>(t: NameTable<V>, i: int) -> Set<Seq<char>> {
    t.spec_keys().take(i).to_set()
}

pub(crate) proof fn lemma_mtable_insert(t: NameTable<(Multiplicity, Type)>, u: NameTable<(Multiplicity, Type)>, k: Seq<char>, v: (Multiplicity, Type))
    requires
        u.spec_map() == t.spec_map().insert(k, v),
    ensures
        mtable_view(u) == mtable_view(t).insert(k, binding_view(v)),
{
    assert(mtable_view(u) =~= mtable_view(t).insert(k, binding_view(v)));
}

proof fn lemma_qtable_insert(t: NameTable<(Quantity, Type)>, u: NameTable<(Quantity, Type)>, k: Seq<char>, v: (Quantity, Type))
    requires
        u.spec_map() == t.spec_map().insert(k, v),
    ensures
        qtable_view(u) == qtable_view(t).insert(k, qbinding_view(v)),
{
    assert(qtable_view(u) =~= qtable_view(t).insert(k, qbinding_view(v)));
}

/// Taking one more entry of a table adds that entry's name.
pub(crate) proof fn lemma_prefix_step<V>(t: NameTable<V>, i: int)
    requires
        t.wf(),
        0 <= i < t.spec_keys().len(),
    ensures
        prefix_names(t, i + 1) == prefix_names(t, i).insert(t.spec_keys()[i]),
        !prefix_names(t, i).contains(t.spec_keys()[i]),
        prefix_names(t, t.spec_keys().len() as int) == t.spec_map().dom(),
        t.spec_map().dom().contains(t.spec_keys()[i]),
{
    let ks = t.spec_keys();
    t.lemma_wf();
    let a = ks.take(i);
    let b = ks.take(i + 1);
    assert(b =~= a.push(ks[i]));
    assert(b.to_set() =~= a.to_set().insert(ks[i])) by {
        assert forall|x: Seq<char>| b.to_set().contains(x) <==> a.to_set().insert(ks[i]).contains(x) by {
            if b.contains(x) {
                let j = choose|j: int| 0 <= j < b.len() && b[j] == x;
                if j < i {
                    assert(a[j] == x);
                }
            }
            if a.contains(x) {
                let j = choose|j: int| 0 <= j < a.len() && a[j] == x;
                assert(b[j] == x);
            }
            if x == ks[i] {
                assert(b[i] == x);
            }
        }
    }
    if a.contains(ks[i]) {
        let j = choose|j: int| 0 <= j < a.len() && a[j] == ks[i];
        assert(ks[j] == ks[i]);
    }
    assert(ks.take(ks.len() as int) =~= ks);
    assert(ks.contains(ks[i]));
}

/// A copy of a table of bindings, entry by entry.
pub(crate) fn copy_bindings(t: &NameTable<(Multiplicity, Type)>) -> (r: NameTable<(Multiplicity, Type)>)
    requires
        t.wf(),
    ensures
        r.wf(),
        mtable_view(r) == mtable_view(*t),
{
    let mut r: NameTable<(Multiplicity, Type)> = NameTable::new();
    let n = t.len();
    let mut i: usize = 0;
    while i < n
        invariant
            t.wf(),
            r.wf(),
            n == t.spec_keys().len(),
            i <= n,
            mtable_view(r) == mtable_view(*t).restrict(prefix_names(*t, i as int)),
        decreases n - i,
    {
        let key = t.key_at(i);
        let b = t.value_at(i);
        let ghost old_r = r;
        let val = (b.0, b.1.clone());
        r.insert(key.clone(), val);
        proof {
            lemma_mtable_insert(old_r, r, key@, val);
            lemma_prefix_step(*t, i as int);
            assert(mtable_view(r) =~= mtable_view(*t).restrict(prefix_names(*t, i + 1)));
        }
        i += 1;
    }
    proof {
        if n > 0 {
            lemma_prefix_step(*t, 0);
        } else {
            t.lemma_wf();
            assert(t.spec_keys().take(0) =~= t.spec_keys());
        }
        assert(mtable_view(r) =~= mtable_view(*t));
    }
    r
}

/// A copy of a table of quantity bindings, entry by entry.
fn copy_qbindings(t: &NameTable<(Quantity, Type)>) -> (r: NameTable<(Quantity, Type)>)
    requires
        t.wf(),
    ensures
        r.wf(),
        qtable_view(r) == qtable_view(*t),
{
    let mut r: NameTable<(Quantity, Type)> = NameTable::new();
    let n = t.len();
    let mut i: usize = 0;
    while i < n
        invariant
            t.wf(),
            r.wf(),
            n == t.spec_keys().len(),
            i <= n,
            qtable_view(r) == qtable_view(*t).restrict(prefix_names(*t, i as int)),
        decreases n - i,
    {
        let key = t.key_at(i);
        let b = t.value_at(i);
        let ghost old_r = r;
        let val = (b.0, b.1.clone());
        r.insert(key.clone(), val);
        proof {
            lemma_qtable_insert(old_r, r, key@, val);
            lemma_prefix_step(*t, i as int);
            assert(qtable_view(r) =~= qtable_view(*t).restrict(prefix_names(*t, i + 1)));
        }
        i += 1;
    }
    proof {
        if n > 0 {
            lemma_prefix_step(*t, 0);
        } else {
            t.lemma_wf();
            assert(t.spec_keys().take(0) =~= t.spec_keys());
        }
        assert(qtable_view(r) =~= qtable_view(*t));
    }
    r
}


proof fn lemma_restrict_step<V>(b: Map<Seq<char>, V>, p: Set<Seq<char>>, k: Seq<char>)
    requires
        b.dom().contains(k),
    ensures
        b.restrict(p.insert(k)) == b.restrict(p).insert(k, b[k]),
{
    assert(b.restrict(p.insert(k)) =~= b.restrict(p).insert(k, b[k]));
}

proof fn lemma_restrict_all<V>(b: Map<Seq<char>, V>)
    ensures
        b.restrict(b.dom()) == b,
{
    assert(b.restrict(b.dom()) =~= b);
}

proof fn lemma_sum_step(
    a: Map<Seq<char>, (Multiplicity, SpecType)>,
    bi: Map<Seq<char>, (Multiplicity, SpecType)>,
    k: Seq<char>,
    v: (Multiplicity, SpecType),
    keep_left_type: bool,
)
    requires
        !bi.dom().contains(k),
    ensures
        ctx_sum(a, bi, keep_left_type).dom().contains(k) == a.dom().contains(k),
        a.dom().contains(k) ==> ctx_sum(a, bi, keep_left_type)[k] == a[k],
        ctx_sum(a, bi.insert(k, v), keep_left_type) == ctx_sum(a, bi, keep_left_type).insert(
            k,
            if a.dom().contains(k) {
                (spec_mult_add(a[k].0, v.0)->0, if keep_left_type { a[k].1 } else { v.1 })
            } else {
                v
            },
        ),
{
    assert(ctx_sum(a, bi.insert(k, v), keep_left_type) =~= ctx_sum(a, bi, keep_left_type).insert(
        k,
        if a.dom().contains(k) {
            (spec_mult_add(a[k].0, v.0)->0, if keep_left_type { a[k].1 } else { v.1 })
        } else {
            v
        },
    ));
}

proof fn lemma_qsum_step(
    a: Map<Seq<char>, (Quantity, SpecType)>,
    bi: Map<Seq<char>, (Quantity, SpecType)>,
    k: Seq<char>,
    v: (Quantity, SpecType),
)
    requires
        !bi.dom().contains(k),
    ensures
        qctx_sum(a, bi).dom().contains(k) == a.dom().contains(k),
        a.dom().contains(k) ==> qctx_sum(a, bi)[k] == a[k],
        qctx_sum(a, bi.insert(k, v)) == qctx_sum(a, bi).insert(
            k,
            if a.dom().contains(k) { (spec_quantity_add(a[k].0, v.0), a[k].1) } else { v },
        ),
{
    assert(qctx_sum(a, bi.insert(k, v)) =~= qctx_sum(a, bi).insert(
        k,
        if a.dom().contains(k) { (spec_quantity_add(a[k].0, v.0), a[k].1) } else { v },
    ));
}

/// The pointwise sum of two tables of bindings.
pub(crate) fn sum_bindings(
    a: &NameTable<(Multiplicity, Type)>,
    b: &NameTable<(Multiplicity, Type)>,
    keep_left_type: bool,
) -> (r: Result<NameTable<(Multiplicity, Type)>, BorrowContextMix>)
    requires
        a.wf(),
        b.wf(),
    ensures
        r matches Ok(t) ==> t.wf() && sums_cleanly(mtable_view(*a), mtable_view(*b)) && mtable_view(t) == ctx_sum(
            mtable_view(*a),
            mtable_view(*b),
            keep_left_type,
        ),
        r matches Err(e) ==> !sums_cleanly(mtable_view(*a), mtable_view(*b)) && e == BorrowContextMix::CannotMixBorrowWithQuantity,
{
    let ghost va = mtable_view(*a);
    let ghost vb = mtable_view(*b);
    let mut r = copy_bindings(a);
    let n = b.len();
    let mut i: usize = 0;
    proof {
        assert(vb.restrict(prefix_names(*b, 0)) =~= Map::empty());
        assert(ctx_sum(va, Map::empty(), keep_left_type) =~= va);
    }
    while i < n
        invariant
            a.wf(),
            b.wf(),
            r.wf(),
            va == mtable_view(*a),
            vb == mtable_view(*b),
            n == b.spec_keys().len(),
            i <= n,
            mtable_view(r) == ctx_sum(va, vb.restrict(prefix_names(*b, i as int)), keep_left_type),
            sums_cleanly(va, vb.restrict(prefix_names(*b, i as int))),
        decreases n - i,
    {
        let key = b.key_at(i);
        let bv = b.value_at(i);
        let ghost old_r = r;
        let ghost k = key@;
        let ghost bi = vb.restrict(prefix_names(*b, i as int));
        proof {
            lemma_prefix_step(*b, i as int);
            lemma_restrict_step(vb, prefix_names(*b, i as int), k);
            assert(vb[k] == binding_view(*bv));
            lemma_sum_step(va, bi, k, vb[k], keep_left_type);
        }
        match r.get(key.as_str()) {
            Some(cur) => {
                let m1 = cur.0;
                let t1 = if keep_left_type {
                    cur.1.clone()
                } else {
                    bv.1.clone()
                };
                proof {
                    assert(binding_view(*cur) == va[k]);
                }
                match add_multiplicity(m1, bv.0) {
                    Ok(m) => {
                        let val = (m, t1);
                        r.insert(key.clone(), val);
                        proof {
                            lemma_mtable_insert(old_r, r, k, val);
                            assert(binding_view(val) == (spec_mult_add(va[k].0, vb[k].0)->0, if keep_left_type {
                                va[k].1
                            } else {
                                vb[k].1
                            }));
                            let bj = bi.insert(k, vb[k]);
                            assert forall|x: Seq<char>| va.dom().contains(x) && bj.dom().contains(x) implies (#[trigger] spec_mult_add(
                                va[x].0,
                                bj[x].0,
                            )) is Some by {
                                if x != k {
                                    assert(bi.dom().contains(x));
                                    assert(spec_mult_add(va[x].0, bi[x].0) is Some);
                                }
                            }
                        }
                    },
                    Err(e) => {
                        proof {
                            assert(va.dom().contains(k) && vb.dom().contains(k));
                            assert(spec_mult_add(va[k].0, vb[k].0) is None);
                        }
                        return Err(e);
                    },
                }
            },
            None => {
                let val = (bv.0, bv.1.clone());
                r.insert(key.clone(), val);
                proof {
                    lemma_mtable_insert(old_r, r, k, val);
                    assert(!va.dom().contains(k));
                    let bj = bi.insert(k, vb[k]);
                    assert forall|x: Seq<char>| va.dom().contains(x) && bj.dom().contains(x) implies (#[trigger] spec_mult_add(
                        va[x].0,
                        bj[x].0,
                    )) is Some by {
                        assert(x != k);
                        assert(bi.dom().contains(x));
                        assert(spec_mult_add(va[x].0, bi[x].0) is Some);
                    }
                }
            },
        }
        i += 1;
    }
    proof {
        if n > 0 {
            lemma_prefix_step(*b, 0);
        } else {
            b.lemma_wf();
            assert(b.spec_keys().take(0) =~= b.spec_keys());
        }
        lemma_restrict_all(vb);
        assert(prefix_names(*b, i as int) == vb.dom());
        assert(vb.restrict(prefix_names(*b, i as int)) == vb);
    }
    Ok(r)
}

/// A table of bindings with every multiplicity scaled by `q`.
pub(crate) fn scale_bindings(t: &NameTable<(Multiplicity, Type)>, q: Quantity) -> (r: Result<NameTable<(Multiplicity, Type)>, BorrowContextMix>)
    requires
        t.wf(),
    ensures
        r matches Ok(u) ==> u.wf() && !has_borrow(mtable_view(*t)) && mtable_view(u) == ctx_scaled(mtable_view(*t), q),
        r matches Err(e) ==> has_borrow(mtable_view(*t)) && e == BorrowContextMix::CannotScaleBorrow,
{
    let ghost vt = mtable_view(*t);
    let mut r: NameTable<(Multiplicity, Type)> = NameTable::new();
    let n = t.len();
    let mut i: usize = 0;
    proof {
        assert(vt.restrict(prefix_names(*t, 0)) =~= Map::empty());
        assert(ctx_scaled(Map::empty(), q) =~= mtable_view(r));
    }
    while i < n
        invariant
            t.wf(),
            r.wf(),
            vt == mtable_view(*t),
            n == t.spec_keys().len(),
            i <= n,
            mtable_view(r) == ctx_scaled(vt.restrict(prefix_names(*t, i as int)), q),
            !has_borrow(vt.restrict(prefix_names(*t, i as int))),
        decreases n - i,
    {
        let key = t.key_at(i);
        let b = t.value_at(i);
        let ghost k = key@;
        let ghost ti = vt.restrict(prefix_names(*t, i as int));
        proof {
            lemma_prefix_step(*t, i as int);
            lemma_restrict_step(vt, prefix_names(*t, i as int), k);
            assert(vt[k] == binding_view(*b));
        }
        if b.0 == Multiplicity::Borrow {
            proof {
                assert(vt.dom().contains(k) && vt[k].0 == Multiplicity::Borrow);
            }
            return Err(BorrowContextMix::CannotScaleBorrow);
        }
        let ghost old_r = r;
        let val = (scale_multiplicity(b.0, q), b.1.clone());
        r.insert(key.clone(), val);
        proof {
            lemma_mtable_insert(old_r, r, k, val);
            let tj = ti.insert(k, vt[k]);
            assert(ctx_scaled(tj, q) =~= ctx_scaled(ti, q).insert(k, binding_view(val)));
            if has_borrow(tj) {
                let x = choose|x: Seq<char>| tj.dom().contains(x) && (#[trigger] tj[x]).0 == Multiplicity::Borrow;
                if x != k {
                    assert(ti.dom().contains(x) && ti[x].0 == Multiplicity::Borrow);
                }
            }
        }
        i += 1;
    }
    proof {
        if n > 0 {
            lemma_prefix_step(*t, 0);
        } else {
            t.lemma_wf();
            assert(t.spec_keys().take(0) =~= t.spec_keys());
        }
        lemma_restrict_all(vt);
        assert(prefix_names(*t, i as int) == vt.dom());
        assert(vt.restrict(prefix_names(*t, i as int)) == vt);
    }
    Ok(r)
}


/// The bindings of a table that are not borrows, as quantities.
fn quantity_bindings(t: &NameTable<(Multiplicity, Type)>) -> (r: NameTable<(Quantity, Type)>)
    requires
        t.wf(),
    ensures
        r.wf(),
        qtable_view(r) == ctx_quantities(mtable_view(*t)),
{
    let ghost vt = mtable_view(*t);
    let mut r: NameTable<(Quantity, Type)> = NameTable::new();
    let n = t.len();
    let mut i: usize = 0;
    proof {
        assert(vt.restrict(prefix_names(*t, 0)) =~= Map::empty());
        assert(ctx_quantities(Map::empty()) =~= qtable_view(r));
    }
    while i < n
        invariant
            t.wf(),
            r.wf(),
            vt == mtable_view(*t),
            n == t.spec_keys().len(),
            i <= n,
            qtable_view(r) == ctx_quantities(vt.restrict(prefix_names(*t, i as int))),
        decreases n - i,
    {
        let key = t.key_at(i);
        let b = t.value_at(i);
        let ghost k = key@;
        let ghost ti = vt.restrict(prefix_names(*t, i as int));
        proof {
            lemma_prefix_step(*t, i as int);
            lemma_restrict_step(vt, prefix_names(*t, i as int), k);
            assert(vt[k] == binding_view(*b));
        }
        let ghost old_r = r;
        let q = match b.0 {
            Multiplicity::Zero => Some(Quantity::Zero),
            Multiplicity::One => Some(Quantity::One),
            Multiplicity::Omega => Some(Quantity::Omega),
            Multiplicity::Borrow => None,
        };
        match q {
            Some(q) => {
                let val = (q, b.1.clone());
                r.insert(key.clone(), val);
                proof {
                    lemma_qtable_insert(old_r, r, k, val);
                    let tj = ti.insert(k, vt[k]);
                    assert(ctx_quantities(tj) =~= ctx_quantities(ti).insert(k, qbinding_view(val)));
                }
            },
            None => {
                proof {
                    let tj = ti.insert(k, vt[k]);
                    assert(ctx_quantities(tj) =~= ctx_quantities(ti));
                }
            },
        }
        i += 1;
    }
    proof {
        if n > 0 {
            lemma_prefix_step(*t, 0);
        } else {
            t.lemma_wf();
            assert(t.spec_keys().take(0) =~= t.spec_keys());
        }
        lemma_restrict_all(vt);
        assert(prefix_names(*t, i as int) == vt.dom());
        assert(vt.restrict(prefix_names(*t, i as int)) == vt);
    }
    r
}

/// The pointwise sum of two tables of quantity bindings.
fn sum_qbindings(a: &NameTable<(Quantity, Type)>, b: &NameTable<(Quantity, Type)>) -> (r: NameTable<(Quantity, Type)>)
    requires
        a.wf(),
        b.wf(),
    ensures
        r.wf(),
        qtable_view(r) == qctx_sum(qtable_view(*a), qtable_view(*b)),
{
    let ghost va = qtable_view(*a);
    let ghost vb = qtable_view(*b);
    let mut r = copy_qbindings(a);
    let n = b.len();
    let mut i: usize = 0;
    proof {
        assert(vb.restrict(prefix_names(*b, 0)) =~= Map::empty());
        assert(qctx_sum(va, Map::empty()) =~= va);
    }
    while i < n
        invariant
            a.wf(),
            b.wf(),
            r.wf(),
            va == qtable_view(*a),
            vb == qtable_view(*b),
            n == b.spec_keys().len(),
            i <= n,
            qtable_view(r) == qctx_sum(va, vb.restrict(prefix_names(*b, i as int))),
        decreases n - i,
    {
        let key = b.key_at(i);
        let bv = b.value_at(i);
        let ghost old_r = r;
        let ghost k = key@;
        let ghost bi = vb.restrict(prefix_names(*b, i as int));
        proof {
            lemma_prefix_step(*b, i as int);
            lemma_restrict_step(vb, prefix_names(*b, i as int), k);
            assert(vb[k] == qbinding_view(*bv));
            lemma_qsum_step(va, bi, k, vb[k]);
        }
        let val = match r.get(key.as_str()) {
            Some(cur) => {
                proof {
                    assert(qbinding_view(*cur) == va[k]);
                }
                (quantity_add(cur.0, bv.0), cur.1.clone())
            },
            None => (bv.0, bv.1.clone()),
        };
        r.insert(key.clone(), val);
        proof {
            lemma_qtable_insert(old_r, r, k, val);
        }
        i += 1;
    }
    proof {
        if n > 0 {
            lemma_prefix_step(*b, 0);
        } else {
            b.lemma_wf();
            assert(b.spec_keys().take(0) =~= b.spec_keys());
        }
        lemma_restrict_all(vb);
        assert(prefix_names(*b, i as int) == vb.dom());
        assert(vb.restrict(prefix_names(*b, i as int)) == vb);
    }
    r
}

/// A table of quantity bindings with every quantity multiplied by `q`.
fn scale_qbindings(t: &NameTable<(Quantity, Type)>, q: Quantity) -> (r: NameTable<(Quantity, Type)>)
    requires
        t.wf(),
    ensures
        r.wf(),
        qtable_view(r) == qctx_scaled(qtable_view(*t), q),
{
    let ghost vt = qtable_view(*t);
    let mut r: NameTable<(Quantity, Type)> = NameTable::new();
    let n = t.len();
    let mut i: usize = 0;
    proof {
        assert(vt.restrict(prefix_names(*t, 0)) =~= Map::empty());
        assert(qctx_scaled(Map::empty(), q) =~= qtable_view(r));
    }
    while i < n
        invariant
            t.wf(),
            r.wf(),
            vt == qtable_view(*t),
            n == t.spec_keys().len(),
            i <= n,
            qtable_view(r) == qctx_scaled(vt.restrict(prefix_names(*t, i as int)), q),
        decreases n - i,
    {
        let key = t.key_at(i);
        let b = t.value_at(i);
        let ghost k = key@;
        let ghost ti = vt.restrict(prefix_names(*t, i as int));
        proof {
            lemma_prefix_step(*t, i as int);
            lemma_restrict_step(vt, prefix_names(*t, i as int), k);
            assert(vt[k] == qbinding_view(*b));
        }
        let ghost old_r = r;
        let val = (quantity_mul(q, b.0), b.1.clone());
        r.insert(key.clone(), val);
        proof {
            lemma_qtable_insert(old_r, r, k, val);
            let tj = ti.insert(k, vt[k]);
            assert(qctx_scaled(tj, q) =~= qctx_scaled(ti, q).insert(k, qbinding_view(val)));
        }
        i += 1;
    }
    proof {
        if n > 0 {
            lemma_prefix_step(*t, 0);
        } else {
            t.lemma_wf();
            assert(t.spec_keys().take(0) =~= t.spec_keys());
        }
        lemma_restrict_all(vt);
        assert(prefix_names(*t, i as int) == vt.dom());
        assert(vt.restrict(prefix_names(*t, i as int)) == vt);
    }
    r
}


/// Variables bound with a multiplicity and a type.
#[derive(Debug)]
pub struct Context {
    bindings: NameTable<(Multiplicity, Type)>,
}

impl Context {
    #[verifier::type_invariant]
    spec fn inv(self) -> bool {
        self.bindings.wf()
    }
}

impl View for Context {
    type V = Map<Seq<char>, (Multiplicity, SpecType)>;

    closed spec fn view(&self) -> Map<Seq<char>, (Multiplicity, SpecType)> {
        mtable_view(self.bindings)
    }
}

impl Context {
    /// The empty context.
    pub fn new() -> (r: Context)
        ensures
            r@ == Map::<Seq<char>, (Multiplicity, SpecType)>::empty(),
    {
        let r = Context { bindings: NameTable::new() };
        assert(r@ =~= Map::<Seq<char>, (Multiplicity, SpecType)>::empty());
        r
    }

    /// This context with `var` bound to `mult` and `ty`, replacing any
    /// binding it had.
    pub fn extend(&self, var: String, mult: Multiplicity, ty: Type) -> (r: Context)
        ensures
            r@ == self@.insert(var@, (mult, ty@)),
    {
        proof {
            use_type_invariant(self);
        }
        let mut b = copy_bindings(&self.bindings);
        let ghost old_b = b;
        let ghost k = var@;
        let val = (mult, ty);
        b.insert(var, val);
        proof {
            lemma_mtable_insert(old_b, b, k, val);
        }
        Context { bindings: b }
    }

    /// The binding of `var`, if it has one.
    pub fn get(&self, var: &str) -> (r: Option<&(Multiplicity, Type)>)
        ensures
            r matches Some(b) ==> self@.dom().contains(var@) && binding_view(*b) == self@[var@],
            r is None ==> !self@.dom().contains(var@),
    {
        proof {
            use_type_invariant(self);
        }
        self.bindings.get(var)
    }

    pub fn contains(&self, var: &str) -> (r: bool)
        ensures
            r == self@.dom().contains(var@),
    {
        proof {
            use_type_invariant(self);
        }
        self.bindings.contains_key(var)
    }

    pub fn is_empty(&self) -> (r: bool)
        ensures
            r <==> self@.dom() == Set::<Seq<char>>::empty(),
    {
        proof {
            use_type_invariant(self);
            self.bindings.lemma_wf();
            assert(self@.dom() =~= self.bindings.spec_map().dom());
            if self.bindings.spec_keys().len() == 0 {
                assert(self.bindings.spec_keys().to_set() =~= Set::<Seq<char>>::empty());
            } else {
                assert(self.bindings.spec_keys().to_set().contains(self.bindings.spec_keys()[0]));
            }
        }
        self.bindings.len() == 0
    }

    /// The number of bound variables.
    pub fn len(&self) -> (r: usize)
        ensures
            r == self@.len(),
            self@.dom().finite(),
    {
        proof {
            use_type_invariant(self);
            self.bindings.lemma_wf();
            assert(self@.dom() =~= self.bindings.spec_map().dom());
        }
        self.bindings.len()
    }

    /// The bound variables, each once.
    pub fn keys(&self) -> (r: Vec<String>)
        ensures
            r@.map_values(|s: String| s@).to_set() == self@.dom(),
            r@.map_values(|s: String| s@).len() == self@.len(),
    {
        proof {
            use_type_invariant(self);
            self.bindings.lemma_wf();
        }
        let n = self.bindings.len();
        let mut r: Vec<String> = Vec::new();
        let mut i: usize = 0;
        while i < n
            invariant
                self.bindings.wf(),
                n == self.bindings.spec_keys().len(),
                i <= n,
                r@.map_values(|s: String| s@) == self.bindings.spec_keys().take(i as int),
            decreases n - i,
        {
            let k = self.bindings.key_at(i);
            let ghost old_r = r@;
            r.push(k.clone());
            proof {
                assert(r@ == old_r.push(*k));
                assert(r@.map_values(|s: String| s@) =~= old_r.map_values(|s: String| s@).push(k@));
                assert(self.bindings.spec_keys().take(i + 1) =~= self.bindings.spec_keys().take(i as int).push(k@));
            }
            i += 1;
        }
        proof {
            assert(self.bindings.spec_keys().take(n as int) =~= self.bindings.spec_keys());
            assert(self@.dom() =~= self.bindings.spec_map().dom());
            self.bindings.spec_keys().unique_seq_to_set();
        }
        r
    }

    /// The pointwise sum of two contexts; a variable bound in both keeps its
    /// type from `self`. Fails when a borrowed variable is bound in both.
    pub fn add(&self, other: &Context) -> (r: Result<Context, BorrowContextMix>)
        ensures
            r matches Ok(c) ==> sums_cleanly(self@, other@) && c@ == ctx_sum(self@, other@, true),
            r matches Err(e) ==> !sums_cleanly(self@, other@) && e == BorrowContextMix::CannotMixBorrowWithQuantity,
    {
        proof {
            use_type_invariant(self);
            use_type_invariant(other);
        }
        match sum_bindings(&self.bindings, &other.bindings, true) {
            Ok(b) => Ok(Context { bindings: b }),
            Err(e) => Err(e),
        }
    }

    /// Every multiplicity scaled by `q`. Fails when a variable is borrowed.
    pub fn scale(&self, q: Quantity) -> (r: Result<Context, BorrowContextMix>)
        ensures
            r matches Ok(c) ==> !has_borrow(self@) && c@ == ctx_scaled(self@, q),
            r matches Err(e) ==> has_borrow(self@) && e == BorrowContextMix::CannotScaleBorrow,
    {
        proof {
            use_type_invariant(self);
        }
        match scale_bindings(&self.bindings, q) {
            Ok(b) => Ok(Context { bindings: b }),
            Err(e) => Err(e),
        }
    }

    /// The bindings that are not borrows, with their multiplicities as
    /// quantities.
    pub fn to_quantity_context(&self) -> (r: QuantityContext)
        ensures
            r@ == ctx_quantities(self@),
    {
        proof {
            use_type_invariant(self);
        }
        QuantityContext { bindings: quantity_bindings(&self.bindings) }
    }
}

/// The sum of two contexts, as [`Context::add`].
pub fn ctx_add(c1: Context, c2: Context) -> (r: Result<Context, BorrowContextMix>)
    ensures
        r matches Ok(c) ==> sums_cleanly(c1@, c2@) && c@ == ctx_sum(c1@, c2@, true),
        r matches Err(e) ==> !sums_cleanly(c1@, c2@) && e == BorrowContextMix::CannotMixBorrowWithQuantity,
{
    c1.add(&c2)
}

/// A context scaled by a quantity, as [`Context::scale`].
pub fn ctx_scale(q: Quantity, ctx: Context) -> (r: Result<Context, BorrowContextMix>)
    ensures
        r matches Ok(c) ==> !has_borrow(ctx@) && c@ == ctx_scaled(ctx@, q),
        r matches Err(e) ==> has_borrow(ctx@) && e == BorrowContextMix::CannotScaleBorrow,
{
    ctx.scale(q)
}

/// Variables bound with a quantity and a type.
#[derive(Debug)]
pub struct QuantityContext {
    bindings: NameTable<(Quantity, Type)>,
}

impl QuantityContext {
    #[verifier::type_invariant]
    spec fn inv(self) -> bool {
        self.bindings.wf()
    }
}

impl View for QuantityContext {
    type V = Map<Seq<char>, (Quantity, SpecType)>;

    closed spec fn view(&self) -> Map<Seq<char>, (Quantity, SpecType)> {
        qtable_view(self.bindings)
    }
}

impl QuantityContext {
    /// The empty context.
    pub fn new() -> (r: QuantityContext)
        ensures
            r@ == Map::<Seq<char>, (Quantity, SpecType)>::empty(),
    {
        let r = QuantityContext { bindings: NameTable::new() };
        assert(r@ =~= Map::<Seq<char>, (Quantity, SpecType)>::empty());
        r
    }

    /// This context with `var` bound to `q` and `ty`, replacing any binding
    /// it had.
    pub fn extend(&self, var: String, q: Quantity, ty: Type) -> (r: QuantityContext)
        ensures
            r@ == self@.insert(var@, (q, ty@)),
    {
        proof {
            use_type_invariant(self);
        }
        let mut b = copy_qbindings(&self.bindings);
        let ghost old_b = b;
        let ghost k = var@;
        let val = (q, ty);
        b.insert(var, val);
        proof {
            lemma_qtable_insert(old_b, b, k, val);
        }
        QuantityContext { bindings: b }
    }

    /// The binding of `var`, if it has one.
    pub fn get(&self, var: &str) -> (r: Option<&(Quantity, Type)>)
        ensures
            r matches Some(b) ==> self@.dom().contains(var@) && qbinding_view(*b) == self@[var@],
            r is None ==> !self@.dom().contains(var@),
    {
        proof {
            use_type_invariant(self);
        }
        self.bindings.get(var)
    }

    pub fn is_empty(&self) -> (r: bool)
        ensures
            r <==> self@.dom() == Set::<Seq<char>>::empty(),
    {
        proof {
            use_type_invariant(self);
            self.bindings.lemma_wf();
            assert(self@.dom() =~= self.bindings.spec_map().dom());
            if self.bindings.spec_keys().len() == 0 {
                assert(self.bindings.spec_keys().to_set() =~= Set::<Seq<char>>::empty());
            } else {
                assert(self.bindings.spec_keys().to_set().contains(self.bindings.spec_keys()[0]));
            }
        }
        self.bindings.len() == 0
    }

    /// The number of bound variables.
    pub fn len(&self) -> (r: usize)
        ensures
            r == self@.len(),
            self@.dom().finite(),
    {
        proof {
            use_type_invariant(self);
            self.bindings.lemma_wf();
            assert(self@.dom() =~= self.bindings.spec_map().dom());
        }
        self.bindings.len()
    }

    /// The pointwise sum of two contexts; a variable bound in both keeps its
    /// type from `self`. Quantities always add, so this never fails.
    pub fn add(&self, other: &QuantityContext) -> (r: Result<QuantityContext, BorrowContextMix>)
        ensures
            r matches Ok(c) && c@ == qctx_sum(self@, other@),
    {
        proof {
            use_type_invariant(self);
            use_type_invariant(other);
        }
        Ok(QuantityContext { bindings: sum_qbindings(&self.bindings, &other.bindings) })
    }

    /// Every quantity multiplied by `q`.
    pub fn scale(&self, q: Quantity) -> (r: QuantityContext)
        ensures
            r@ == qctx_scaled(self@, q),
    {
        proof {
            use_type_invariant(self);
        }
        QuantityContext { bindings: scale_qbindings(&self.bindings, q) }
    }
}


/// Adding the empty context, on either side, succeeds and changes nothing.
pub proof fn lemma_ctx_sum_empty(a: Map<Seq<char>, (Multiplicity, SpecType)>, keep_left_type: bool)
    ensures
        sums_cleanly(a, Map::empty()),
        sums_cleanly(Map::empty(), a),
        ctx_sum(a, Map::empty(), keep_left_type) == a,
        ctx_sum(Map::empty(), a, keep_left_type) == a,
{
    assert(ctx_sum(a, Map::empty(), keep_left_type) =~= a);
    assert(ctx_sum(Map::empty(), a, keep_left_type) =~= a);
}

/// Adding contexts commutes: the sum of `a` and `b` exists exactly when the
/// sum of `b` and `a` does, and keeping the types of `a` gives the same
/// context either way round.
pub proof fn lemma_ctx_sum_commutes(a: Map<Seq<char>, (Multiplicity, SpecType)>, b: Map<Seq<char>, (Multiplicity, SpecType)>)
    ensures
        sums_cleanly(a, b) == sums_cleanly(b, a),
        ctx_sum(a, b, true) == ctx_sum(b, a, false),
{
    assert(forall|m1: Multiplicity, m2: Multiplicity| #[trigger] spec_mult_add(m1, m2) == spec_mult_add(m2, m1));
    if sums_cleanly(a, b) {
        assert forall|x: Seq<char>| b.dom().contains(x) && a.dom().contains(x) implies (#[trigger] spec_mult_add(
            b[x].0,
            a[x].0,
        )) is Some by {
            assert(spec_mult_add(a[x].0, b[x].0) is Some);
        }
    }
    if sums_cleanly(b, a) {
        assert forall|x: Seq<char>| a.dom().contains(x) && b.dom().contains(x) implies (#[trigger] spec_mult_add(
            a[x].0,
            b[x].0,
        )) is Some by {
            assert(spec_mult_add(b[x].0, a[x].0) is Some);
        }
    }
    assert(ctx_sum(a, b, true) =~= ctx_sum(b, a, false));
}

/// Scaling by one leaves a context without borrows unchanged.
pub proof fn lemma_ctx_scale_one(a: Map<Seq<char>, (Multiplicity, SpecType)>)
    requires
        !has_borrow(a),
    ensures
        ctx_scaled(a, Quantity::One) == a,
{
    assert(ctx_scaled(a, Quantity::One) =~= a);
}

/// Scaling a context by a nonzero quantity and then reading it as a
/// quantity context gives the quantity context scaled by the same quantity.
pub proof fn lemma_quantities_of_scaled(a: Map<Seq<char>, (Multiplicity, SpecType)>, q: Quantity)
    requires
        q != Quantity::Zero,
    ensures
        ctx_quantities(ctx_scaled(a, q)) == qctx_scaled(ctx_quantities(a), q),
{
    assert(ctx_quantities(ctx_scaled(a, q)) =~= qctx_scaled(ctx_quantities(a), q));
}

/// Adding the empty quantity context, on either side, changes nothing.
pub proof fn lemma_qctx_sum_empty(a: Map<Seq<char>, (Quantity, SpecType)>)
    ensures
        qctx_sum(a, Map::empty()) == a,
        qctx_sum(Map::empty(), a) == a,
{
    assert(qctx_sum(a, Map::empty()) =~= a);
    assert(qctx_sum(Map::empty(), a) =~= a);
}

/// Adding quantity contexts commutes on the bound variables and their
/// quantities.
pub proof fn lemma_qctx_sum_commutes(a: Map<Seq<char>, (Quantity, SpecType)>, b: Map<Seq<char>, (Quantity, SpecType)>)
    ensures
        qctx_sum(a, b).dom() == qctx_sum(b, a).dom(),
        forall|x: Seq<char>| #[trigger] qctx_sum(a, b).dom().contains(x) ==> qctx_sum(a, b)[x].0 == qctx_sum(b, a)[x].0,
{
    assert(qctx_sum(a, b).dom() =~= qctx_sum(b, a).dom());
    assert forall|x: Seq<char>| #[trigger] qctx_sum(a, b).dom().contains(x) implies qctx_sum(a, b)[x].0 == qctx_sum(b, a)[x].0 by {
        if a.dom().contains(x) && b.dom().contains(x) {
            lemma_quantity_semiring(a[x].0, b[x].0, Quantity::Zero);
        }
    }
}

/// Adding quantity contexts is associative.
pub proof fn lemma_qctx_sum_assoc(
    a: Map<Seq<char>, (Quantity, SpecType)>,
    b: Map<Seq<char>, (Quantity, SpecType)>,
    c: Map<Seq<char>, (Quantity, SpecType)>,
)
    ensures
        qctx_sum(qctx_sum(a, b), c) == qctx_sum(a, qctx_sum(b, c)),
{
    assert forall|x: Seq<char>| #[trigger] qctx_sum(qctx_sum(a, b), c).dom().contains(x) implies qctx_sum(qctx_sum(a, b), c)[x]
        == qctx_sum(a, qctx_sum(b, c))[x] by {
        if a.dom().contains(x) && b.dom().contains(x) && c.dom().contains(x) {
            lemma_quantity_semiring(a[x].0, b[x].0, c[x].0);
        }
    }
    assert(qctx_sum(qctx_sum(a, b), c) =~= qctx_sum(a, qctx_sum(b, c)));
}

/// Scaling a quantity context by one changes nothing.
pub proof fn lemma_qctx_scale_one(a: Map<Seq<char>, (Quantity, SpecType)>)
    ensures
        qctx_scaled(a, Quantity::One) == a,
{
    assert forall|x: Seq<char>| #[trigger] a.dom().contains(x) implies qctx_scaled(a, Quantity::One)[x] == a[x] by {
        lemma_quantity_semiring(a[x].0, a[x].0, a[x].0);
    }
    assert(qctx_scaled(a, Quantity::One) =~= a);
}

/// Scaling by `p` and then by `q` is scaling by `q · p`.
pub proof fn lemma_qctx_scale_compose(a: Map<Seq<char>, (Quantity, SpecType)>, p: Quantity, q: Quantity)
    ensures
        qctx_scaled(qctx_scaled(a, p), q) == qctx_scaled(a, spec_quantity_mul(q, p)),
{
    assert forall|x: Seq<char>| #[trigger] a.dom().contains(x) implies qctx_scaled(qctx_scaled(a, p), q)[x] == qctx_scaled(
        a,
        spec_quantity_mul(q, p),
    )[x] by {
        lemma_quantity_semiring(q, p, a[x].0);
    }
    assert(qctx_scaled(qctx_scaled(a, p), q) =~= qctx_scaled(a, spec_quantity_mul(q, p)));
}

/// Scaling distributes over the sum of quantity contexts.
pub proof fn lemma_qctx_scale_distributes(
    a: Map<Seq<char>, (Quantity, SpecType)>,
    b: Map<Seq<char>, (Quantity, SpecType)>,
    q: Quantity,
)
    ensures
        qctx_scaled(qctx_sum(a, b), q) == qctx_sum(qctx_scaled(a, q), qctx_scaled(b, q)),
{
    assert forall|x: Seq<char>| #[trigger] qctx_sum(a, b).dom().contains(x) implies qctx_scaled(qctx_sum(a, b), q)[x] == qctx_sum(
        qctx_scaled(a, q),
        qctx_scaled(b, q),
    )[x] by {
        if a.dom().contains(x) && b.dom().contains(x) {
            lemma_quantity_semiring(q, a[x].0, b[x].0);
        }
    }
    assert(qctx_scaled(qctx_sum(a, b), q) =~= qctx_sum(qctx_scaled(a, q), qctx_scaled(b, q)));
}

} // verus!
