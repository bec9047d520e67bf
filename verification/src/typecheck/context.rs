//! The typing context of the checker: variables with multiplicities and
//! types, and the constructors of inductive types.
use vstd::prelude::*;

use crate::ast::terms::{arrow1, binop, division_result};
use crate::ast::types::{clone_types, types_view, Multiplicity, NativeKind, SpecType, Type};
use crate::multiplicity::context::{
    copy_bindings, ctx_scaled, ctx_sum, has_borrow, lemma_mtable_insert, mtable_view, scale_bindings, sum_bindings,
    sums_cleanly, BorrowContextMix,
};
use crate::multiplicity::semiring::Quantity;
use crate::table::NameTable;
use crate::text::owned;

verus! {

/// What the checker knows of a constructor: the type it belongs to, the
/// types of its fields and the type it builds.
#[derive(Debug)]
pub struct ConstructorInfo {
    pub ty_name: String,
    pub field_types: Vec<Type>,
    pub result_type: Type,
}

/// The value of a constructor's information.
pub open spec fn ctor_view(c: ConstructorInfo) -> (Seq<char>, Seq<SpecType>, SpecType) {
    (c.ty_name@, types_view(c.field_types@), c.result_type@)
}

impl ConstructorInfo {
    /// A copy with the same value.
    pub fn copy(&self) -> (r: ConstructorInfo)
        ensures
            ctor_view(r) == ctor_view(*self),
    {
        let f = clone_types(&self.field_types);
        assert(types_view(f@) =~= types_view(self.field_types@));
        ConstructorInfo { ty_name: self.ty_name.clone(), field_types: f, result_type: self.result_type.clone() }
    }
}

/// The constructors of a table, by name.
pub open spec fn ctable_view(t: NameTable<ConstructorInfo>) -> Map<Seq<char>, (Seq<char>, Seq<SpecType>, SpecType)> {
    t.spec_map().map_values(|c: ConstructorInfo| ctor_view(c))
}

/// The value of a typing context: its bindings and its constructors.
pub struct TcView {
    pub bindings: Map<Seq<char>, (Multiplicity, SpecType)>,
    pub ctors: Map<Seq<char>, (Seq<char>, Seq<SpecType>, SpecType)>,
}

/// `Bool` as an inductive type.
pub open spec fn bool_adt() -> SpecType {
    SpecType::Inductive("Bool"@, seq![])
}

/// The primitive operations bound in every new context, each unrestricted.
pub open spec fn prim_context() -> Map<Seq<char>, (Multiplicity, SpecType)> {
    let i = SpecType::Native(NativeKind::Int);
    let f = SpecType::Native(NativeKind::Float);
    let c = SpecType::Native(NativeKind::Char);
    let b = bool_adt();
    let w = Multiplicity::Omega;
    Map::empty().insert("prim_iadd"@, (w, binop(i, i))).insert("prim_isub"@, (w, binop(i, i))).insert(
        "prim_imul"@,
        (w, binop(i, i)),
    ).insert("prim_ieq"@, (w, binop(i, b))).insert("prim_igt"@, (w, binop(i, b))).insert("prim_ilt"@, (w, binop(i, b))).insert(
        "prim_idiv"@,
        (w, arrow1(i, arrow1(i, division_result()))),
    ).insert("prim_irem"@, (w, arrow1(i, arrow1(i, division_result())))).insert("prim_ineg"@, (w, arrow1(i, i))).insert(
        "prim_ihash"@,
        (w, arrow1(i, i)),
    ).insert("prim_and"@, (w, binop(b, b))).insert("prim_or"@, (w, binop(b, b))).insert("prim_not"@, (w, arrow1(b, b))).insert(
        "prim_beq"@,
        (w, binop(b, b)),
    ).insert("prim_bhash"@, (w, arrow1(b, i))).insert("prim_fadd"@, (w, binop(f, f))).insert("prim_fsub"@, (w, binop(f, f))).insert(
        "prim_fmul"@,
        (w, binop(f, f)),
    ).insert("prim_fdiv"@, (w, binop(f, f))).insert("prim_feq"@, (w, binop(f, b))).insert("prim_fgt"@, (w, binop(f, b))).insert(
        "prim_fneg"@,
        (w, arrow1(f, f)),
    ).insert("prim_ceq"@, (w, binop(c, SpecType::Native(NativeKind::Bool)))).insert(
        "prim_cord"@,
        (w, binop(c, SpecType::Native(NativeKind::Bool))),
    ).insert("prim_chash"@, (w, arrow1(c, i)))
}

/// Binds `name` to `ty` as an unrestricted variable.
fn bind(t: &mut NameTable<(Multiplicity, Type)>, name: &str, ty: Type)
    requires
        old(t).wf(),
    ensures
        final(t).wf(),
        mtable_view(*final(t)) == mtable_view(*old(t)).insert(name@, (Multiplicity::Omega, ty@)),
{
    let ghost t0 = *t;
    let val = (Multiplicity::Omega, ty);
    t.insert(owned(name), val);
    proof {
        lemma_mtable_insert(t0, *t, name@, val);
    }
}

fn arrow_one(a: Type, r: Type) -> (t: Type)
    ensures
        t@ == arrow1(a@, r@),
{
    Type::arrow(a, Multiplicity::One, r)
}

fn bin_op(a: &Type, r: Type) -> (t: Type)
    ensures
        t@ == binop(a@, r@),
{
    arrow_one(a.clone(), arrow_one(a.clone(), r))
}

fn adt(name: &str) -> (t: Type)
    ensures
        t@ == SpecType::Inductive(name@, seq![]),
{
    let t = Type::inductive(name, Vec::new());
    assert(t@->Inductive_1 =~= seq![]);
    t
}

fn division_result_type() -> (t: Type)
    ensures
        t@ == division_result(),
{
    let dz = adt("DivisionByZero");
    let mut ps = Vec::new();
    ps.push(Type::int_type());
    ps.push(dz);
    let ghost pv = ps@;
    let t = Type::inductive("Result", ps);
    assert(t@->Inductive_1[0] == pv[0]@ && t@->Inductive_1[1] == pv[1]@);
    assert(t@->Inductive_1 =~= division_result()->Inductive_1);
    t
}

/// The table of primitive operations that every new context starts with.
fn primitive_bindings() -> (t: NameTable<(Multiplicity, Type)>)
    ensures
        t.wf(),
        mtable_view(t) == prim_context(),
{
    let mut t: NameTable<(Multiplicity, Type)> = NameTable::new();
    let i = Type::int_type();
    let f = Type::float();
    let c = Type::char();
    let b = adt("Bool");
    proof {
        assert(mtable_view(t) =~= Map::empty());
    }
    bind(&mut t, "prim_iadd", bin_op(&i, i.clone()));
    bind(&mut t, "prim_isub", bin_op(&i, i.clone()));
    bind(&mut t, "prim_imul", bin_op(&i, i.clone()));
    bind(&mut t, "prim_ieq", bin_op(&i, b.clone()));
    bind(&mut t, "prim_igt", bin_op(&i, b.clone()));
    bind(&mut t, "prim_ilt", bin_op(&i, b.clone()));
    bind(&mut t, "prim_idiv", arrow_one(i.clone(), arrow_one(i.clone(), division_result_type())));
    bind(&mut t, "prim_irem", arrow_one(i.clone(), arrow_one(i.clone(), division_result_type())));
    bind(&mut t, "prim_ineg", arrow_one(i.clone(), i.clone()));
    bind(&mut t, "prim_ihash", arrow_one(i.clone(), i.clone()));
    bind(&mut t, "prim_and", bin_op(&b, b.clone()));
    bind(&mut t, "prim_or", bin_op(&b, b.clone()));
    bind(&mut t, "prim_not", arrow_one(b.clone(), b.clone()));
    bind(&mut t, "prim_beq", bin_op(&b, b.clone()));
    bind(&mut t, "prim_bhash", arrow_one(b.clone(), i.clone()));
    bind(&mut t, "prim_fadd", bin_op(&f, f.clone()));
    bind(&mut t, "prim_fsub", bin_op(&f, f.clone()));
    bind(&mut t, "prim_fmul", bin_op(&f, f.clone()));
    bind(&mut t, "prim_fdiv", bin_op(&f, f.clone()));
    bind(&mut t, "prim_feq", bin_op(&f, b.clone()));
    bind(&mut t, "prim_fgt", bin_op(&f, b.clone()));
    bind(&mut t, "prim_fneg", arrow_one(f.clone(), f.clone()));
    bind(&mut t, "prim_ceq", bin_op(&c, Type::bool()));
    bind(&mut t, "prim_cord", bin_op(&c, Type::bool()));
    bind(&mut t, "prim_chash", arrow_one(c.clone(), i.clone()));
    t
}

/// A copy of a table of constructors, entry by entry.
fn copy_ctors(t: &NameTable<ConstructorInfo>) -> (r: NameTable<ConstructorInfo>)
    requires
        t.wf(),
    ensures
        r.wf(),
        ctable_view(r) == ctable_view(*t),
{
    let mut r: NameTable<ConstructorInfo> = NameTable::new();
    let n = t.len();
    let mut i: usize = 0;
    proof {
        assert(ctable_view(r) =~= ctable_view(*t).restrict(crate::multiplicity::context::prefix_names(*t, 0)));
    }
    while i < n
        invariant
            t.wf(),
            r.wf(),
            n == t.spec_keys().len(),
            i <= n,
            ctable_view(r) == ctable_view(*t).restrict(crate::multiplicity::context::prefix_names(*t, i as int)),
        decreases n - i,
    {
        let key = t.key_at(i);
        let c = t.value_at(i);
        let ghost r0 = r;
        let val = c.copy();
        r.insert(key.clone(), val);
        proof {
            crate::multiplicity::context::lemma_prefix_step(*t, i as int);
            assert(ctable_view(r) =~= ctable_view(r0).insert(key@, ctor_view(val)));
            assert(ctable_view(r) =~= ctable_view(*t).restrict(crate::multiplicity::context::prefix_names(*t, i + 1)));
        }
        i += 1;
    }
    proof {
        if n > 0 {
            crate::multiplicity::context::lemma_prefix_step(*t, 0);
        } else {
            t.lemma_wf();
            assert(t.spec_keys().take(0) =~= t.spec_keys());
        }
        assert(ctable_view(r) =~= ctable_view(*t));
    }
    r
}

/// The variables in scope with their multiplicities and types, and the
/// constructors known to the checker.
#[derive(Debug)]
pub struct TypeContext {
    bindings: NameTable<(Multiplicity, Type)>,
    constructors: NameTable<ConstructorInfo>,
}

impl TypeContext {
    #[verifier::type_invariant]
    spec fn inv(self) -> bool {
        self.bindings.wf() && self.constructors.wf()
    }
}

impl View for TypeContext {
    type V = TcView;

    closed spec fn view(&self) -> TcView {
        TcView { bindings: mtable_view(self.bindings), ctors: ctable_view(self.constructors) }
    }
}

impl TypeContext {
    /// A context that binds the primitive operations and knows no
    /// constructor.
    pub fn new() -> (r: TypeContext)
        ensures
            r@.bindings == prim_context(),
            r@.ctors == Map::<Seq<char>, (Seq<char>, Seq<SpecType>, SpecType)>::empty(),
    {
        let r = TypeContext { bindings: primitive_bindings(), constructors: NameTable::new() };
        assert(r@.ctors =~= Map::<Seq<char>, (Seq<char>, Seq<SpecType>, SpecType)>::empty());
        r
    }

    /// A copy of this context.
    pub fn copy(&self) -> (r: TypeContext)
        ensures
            r@ == self@,
    {
        proof {
            use_type_invariant(self);
        }
        TypeContext { bindings: copy_bindings(&self.bindings), constructors: copy_ctors(&self.constructors) }
    }

    /// This context with `var` bound to `mult` and `ty`.
    pub fn extend(&self, var: String, mult: Multiplicity, ty: Type) -> (r: TypeContext)
        ensures
            r@.bindings == self@.bindings.insert(var@, (mult, ty@)),
            r@.ctors == self@.ctors,
    {
        proof {
            use_type_invariant(self);
        }
        let mut b = copy_bindings(&self.bindings);
        let ghost b0 = b;
        let ghost k = var@;
        let val = (mult, ty);
        b.insert(var, val);
        proof {
            lemma_mtable_insert(b0, b, k, val);
        }
        TypeContext { bindings: b, constructors: copy_ctors(&self.constructors) }
    }

    /// The binding of `var`, if it has one.
    pub fn get(&self, var: &str) -> (r: Option<&(Multiplicity, Type)>)
        ensures
            r matches Some(b) ==> self@.bindings.dom().contains(var@) && (b.0, b.1@) == self@.bindings[var@],
            r is None ==> !self@.bindings.dom().contains(var@),
    {
        proof {
            use_type_invariant(self);
        }
        self.bindings.get(var)
    }

    pub fn contains(&self, var: &str) -> (r: bool)
        ensures
            r == self@.bindings.dom().contains(var@),
    {
        proof {
            use_type_invariant(self);
        }
        self.bindings.contains_key(var)
    }

    /// The constructor named `name`, if it is known.
    pub fn get_constructor(&self, name: &str) -> (r: Option<&ConstructorInfo>)
        ensures
            r matches Some(c) ==> self@.ctors.dom().contains(name@) && ctor_view(*c) == self@.ctors[name@],
            r is None ==> !self@.ctors.dom().contains(name@),
    {
        proof {
            use_type_invariant(self);
        }
        self.constructors.get(name)
    }

    /// This context with the constructor `name` registered.
    pub fn register_constructor(&self, name: String, info: ConstructorInfo) -> (r: TypeContext)
        ensures
            r@.ctors == self@.ctors.insert(name@, ctor_view(info)),
            r@.bindings == self@.bindings,
    {
        proof {
            use_type_invariant(self);
        }
        let mut c = copy_ctors(&self.constructors);
        let ghost c0 = c;
        let ghost k = name@;
        let ghost v = ctor_view(info);
        c.insert(name, info);
        proof {
            assert(ctable_view(c) =~= ctable_view(c0).insert(k, v));
        }
        TypeContext { bindings: copy_bindings(&self.bindings), constructors: c }
    }

    pub fn is_empty(&self) -> (r: bool)
        ensures
            r <==> self@.bindings.dom() == Set::<Seq<char>>::empty(),
    {
        proof {
            use_type_invariant(self);
            self.bindings.lemma_wf();
            assert(self@.bindings.dom() =~= self.bindings.spec_map().dom());
            if self.bindings.spec_keys().len() == 0 {
                assert(self.bindings.spec_keys().to_set() =~= Set::<Seq<char>>::empty());
            } else {
                assert(self.bindings.spec_keys().to_set().contains(self.bindings.spec_keys()[0]));
            }
        }
        self.bindings.len() == 0
    }

    /// The number of bound variables.
    pub fn len(&self) -> (r: usize)
        ensures
            r == self@.bindings.len(),
            self@.bindings.dom().finite(),
    {
        proof {
            use_type_invariant(self);
            self.bindings.lemma_wf();
            assert(self@.bindings.dom() =~= self.bindings.spec_map().dom());
        }
        self.bindings.len()
    }

    /// The pointwise sum of the bindings; a variable bound in both takes its
    /// type from `other`. The constructors are those of `self`.
    pub fn add(&self, other: &TypeContext) -> (r: Result<TypeContext, BorrowContextMix>)
        ensures
            r matches Ok(c) ==> sums_cleanly(self@.bindings, other@.bindings) && c@.bindings == ctx_sum(
                self@.bindings,
                other@.bindings,
                false,
            ) && c@.ctors == self@.ctors,
            r matches Err(e) ==> !sums_cleanly(self@.bindings, other@.bindings) && e
                == BorrowContextMix::CannotMixBorrowWithQuantity,
    {
        proof {
            use_type_invariant(self);
            use_type_invariant(other);
        }
        match sum_bindings(&self.bindings, &other.bindings, false) {
            Ok(b) => Ok(TypeContext { bindings: b, constructors: copy_ctors(&self.constructors) }),
            Err(e) => Err(e),
        }
    }

    /// Every multiplicity scaled by `q`. Fails when a variable is borrowed.
    pub fn scale(&self, q: Quantity) -> (r: Result<TypeContext, BorrowContextMix>)
        ensures
            r matches Ok(c) ==> !has_borrow(self@.bindings) && c@.bindings == ctx_scaled(self@.bindings, q) && c@.ctors
                == self@.ctors,
            r matches Err(e) ==> has_borrow(self@.bindings) && e == BorrowContextMix::CannotScaleBorrow,
    {
        proof {
            use_type_invariant(self);
        }
        match scale_bindings(&self.bindings, q) {
            Ok(b) => Ok(TypeContext { bindings: b, constructors: copy_ctors(&self.constructors) }),
            Err(e) => Err(e),
        }
    }

    /// This context with `var` bound to `ty` and never used.
    pub fn weaken(&self, var: String, ty: Type) -> (r: TypeContext)
        ensures
            r@.bindings == self@.bindings.insert(var@, (Multiplicity::Zero, ty@)),
            r@.ctors == self@.ctors,
    {
        self.extend(var, Multiplicity::Zero, ty)
    }
}

} // verus!
