//! What the operations on integers, booleans and characters compute, stated
//! in terms of their arguments.
use vstd::prelude::*;

use crate::runtime::primitives::{apply_panics, division_by_zero, ok_value, spec_apply, spec_prim_name_to_op, PrimOp, SpecPrimVal};

verus! {

/// Two integer arguments.
pub open spec fn ints(x: i64, y: i64) -> Seq<SpecPrimVal> {
    seq![SpecPrimVal::Int(x), SpecPrimVal::Int(y)]
}

/// Two boolean arguments.
pub open spec fn bools(x: bool, y: bool) -> Seq<SpecPrimVal> {
    seq![SpecPrimVal::Bool(x), SpecPrimVal::Bool(y)]
}

/// The comparisons of two integers agree with the order of the integers:
/// `prim_ile x y` is `x <= y`, so it holds of equal integers, and likewise
/// for `<`, `>=`, `>` and `==`; `prim_ifeq` gives 1 for equal integers and 0
/// otherwise.
pub proof fn law_integer_comparisons(x: i64, y: i64)
    ensures
        spec_apply(PrimOp::ILe, ints(x, y)) == Some(SpecPrimVal::Bool(x <= y)),
        spec_apply(PrimOp::ILt, ints(x, y)) == Some(SpecPrimVal::Bool(x < y)),
        spec_apply(PrimOp::IGe, ints(x, y)) == Some(SpecPrimVal::Bool(x >= y)),
        spec_apply(PrimOp::IGt, ints(x, y)) == Some(SpecPrimVal::Bool(x > y)),
        spec_apply(PrimOp::IEq, ints(x, y)) == Some(SpecPrimVal::Bool(x == y)),
        spec_apply(PrimOp::IFEq, ints(x, y)) == Some(SpecPrimVal::Int(if x == y { 1 } else { 0 })),
        spec_apply(PrimOp::ILe, ints(x, x)) == Some(SpecPrimVal::Bool(true)),
        spec_apply(PrimOp::ILt, ints(x, x)) == Some(SpecPrimVal::Bool(false)),
{
}

/// Sums, differences and products of integers are the mathematical ones
/// when they fit in 64 bits, and there is no result otherwise.
pub proof fn law_integer_arithmetic(x: i64, y: i64)
    ensures
        spec_apply(PrimOp::IAdd, ints(x, y)) is Some <==> i64::MIN <= x + y <= i64::MAX,
        spec_apply(PrimOp::IAdd, ints(x, y)) matches Some(v) ==> (v matches SpecPrimVal::Int(z) && z == x + y),
        spec_apply(PrimOp::ISub, ints(x, y)) is Some <==> i64::MIN <= x - y <= i64::MAX,
        spec_apply(PrimOp::ISub, ints(x, y)) matches Some(v) ==> (v matches SpecPrimVal::Int(z) && z == x - y),
        spec_apply(PrimOp::IMul, ints(x, y)) is Some <==> i64::MIN <= x * y <= i64::MAX,
        spec_apply(PrimOp::IMul, ints(x, y)) matches Some(v) ==> (v matches SpecPrimVal::Int(z) && z == x * y),
        x != i64::MIN ==> spec_apply(PrimOp::INeg, seq![SpecPrimVal::Int(x)]) == Some(SpecPrimVal::Int((-x) as i64)),
        x != i64::MIN ==> (-x) as i64 == -x,
        spec_apply(PrimOp::IHash, seq![SpecPrimVal::Int(x)]) == Some(SpecPrimVal::Int(x)),
{
}

/// Division by zero gives the error value; otherwise the quotient `q` and
/// remainder `r` are `Ok` values with `q * y + r == x`, `|r| < |y|`, and `r`
/// zero or of the sign of `x` (division rounds toward zero).
pub proof fn law_integer_division(x: i64, y: i64)
    requires
        !apply_panics(PrimOp::IDiv, ints(x, y)),
    ensures
        y == 0 ==> spec_apply(PrimOp::IDiv, ints(x, y)) == Some(division_by_zero()),
        y == 0 ==> spec_apply(PrimOp::IRem, ints(x, y)) == Some(division_by_zero()),
        y != 0 ==> exists|q: i64, r: i64|
            {
                &&& spec_apply(PrimOp::IDiv, ints(x, y)) == Some(ok_value(SpecPrimVal::Int(q)))
                &&& spec_apply(PrimOp::IRem, ints(x, y)) == Some(ok_value(SpecPrimVal::Int(r)))
                &&& q * y + r == x
                &&& (if r < 0 { -r } else { r as int }) < (if y < 0 { -y } else { y as int })
                &&& (r == 0 || ((r < 0) == (x < 0)))
            },
{
    if y != 0 {
        let ax: int = if x < 0 { -x } else { x as int };
        let ay: int = if y < 0 { -y } else { y as int };
        let q0: int = ax / ay;
        let r0: int = ax % ay;
        vstd::arithmetic::div_mod::lemma_fundamental_div_mod(ax, ay);
        assert(0 <= r0 < ay) by {
            vstd::arithmetic::div_mod::lemma_mod_bound(ax, ay);
        }
        assert(ax == ay * q0 + r0);
        let qi: int = if (x < 0) == (y < 0) { q0 } else { -q0 };
        let ri: int = x - y * qi;
        assert(x as int == ay * q0 + r0 || x as int == -(ay * q0 + r0));
        if x >= 0 {
            if y > 0 {
                assert(ri == r0);
            } else {
                assert(y * qi == (-y) * q0) by (nonlinear_arith)
                    requires qi == -q0;
                assert(ri == r0);
            }
        } else {
            if y > 0 {
                assert(y * qi == -(y * q0)) by (nonlinear_arith)
                    requires qi == -q0;
                assert(ri == -r0);
            } else {
                assert(y * qi == -((-y) * q0)) by (nonlinear_arith)
                    requires qi == q0;
                assert(ri == -r0);
            }
        }
        assert(0 <= q0 <= ax) by {
            vstd::arithmetic::div_mod::lemma_div_is_ordered_by_denominator(ax, 1, ay);
            vstd::arithmetic::div_mod::lemma_div_basics(ax);
            vstd::arithmetic::div_mod::lemma_div_pos_is_pos(ax, ay);
        }
        if ay >= 2 {
            vstd::arithmetic::div_mod::lemma_div_is_ordered_by_denominator(ax, 2, ay);
            assert(ax / 2 <= ax);
        } else {
            assert(ay == 1);
            vstd::arithmetic::div_mod::lemma_div_basics(ax);
            assert(q0 == ax);
        }
        assert(i64::MIN <= qi <= i64::MAX);
        assert(i64::MIN <= ri <= i64::MAX);
        let q = qi as i64;
        let r = ri as i64;
        assert(q * y + r == x) by (nonlinear_arith)
            requires q == qi, r == ri, ri == x - y * qi;
        assert(spec_apply(PrimOp::IDiv, ints(x, y)) == Some(ok_value(SpecPrimVal::Int(q))));
        assert(spec_apply(PrimOp::IRem, ints(x, y)) == Some(ok_value(SpecPrimVal::Int(r))));
    }
}

/// The boolean operations are negation, conjunction, disjunction and
/// equality of their arguments.
pub proof fn law_boolean_operations(x: bool, y: bool)
    ensures
        spec_apply(PrimOp::Not, seq![SpecPrimVal::Bool(x)]) == Some(SpecPrimVal::Bool(!x)),
        spec_apply(PrimOp::BNot, seq![SpecPrimVal::Bool(x)]) == Some(SpecPrimVal::Bool(!x)),
        spec_apply(PrimOp::And, bools(x, y)) == Some(SpecPrimVal::Bool(x && y)),
        spec_apply(PrimOp::BAnd, bools(x, y)) == Some(SpecPrimVal::Bool(x && y)),
        spec_apply(PrimOp::Or, bools(x, y)) == Some(SpecPrimVal::Bool(x || y)),
        spec_apply(PrimOp::BOr, bools(x, y)) == Some(SpecPrimVal::Bool(x || y)),
        spec_apply(PrimOp::BEq, bools(x, y)) == Some(SpecPrimVal::Bool(x == y)),
        spec_apply(PrimOp::BHash, seq![SpecPrimVal::Bool(x)]) == Some(SpecPrimVal::Int(if x { 1 } else { 0 })),
{
}

/// `ord` gives a character's code point and `chr` reads it back; two
/// characters compare equal exactly when they are the same.
pub proof fn law_character_operations(c: char, d: char)
    ensures
        spec_apply(PrimOp::Ord, seq![SpecPrimVal::Char(c)]) == Some(SpecPrimVal::Int(c as i64)),
        (c as i64) == (c as int),
        spec_apply(PrimOp::Chr, seq![SpecPrimVal::Int(c as i64)]) == Some(SpecPrimVal::Char(c)),
        spec_apply(PrimOp::CEq, seq![SpecPrimVal::Char(c), SpecPrimVal::Char(d)]) == Some(SpecPrimVal::Bool(c == d)),
        spec_apply(PrimOp::CharToString, seq![SpecPrimVal::Char(c)]) == Some(SpecPrimVal::Str(seq![c])),
{
}

/// The primitives a program names behave as their names say:
/// `prim_ile x y` is `x <= y`, `prim_ilt` is `<`, `prim_ige` is `>=`,
/// `prim_igt` is `>`, `prim_ieq` is `==`, and `prim_iadd`, `prim_isub`,
/// `prim_imul` add, subtract and multiply; `prim_not`, `prim_and` and
/// `prim_or` are negation, conjunction and disjunction.
pub proof fn law_named_primitives(x: i64, y: i64, a: bool, b: bool)
    ensures
        spec_apply(spec_prim_name_to_op("prim_ile"@)->0, ints(x, y)) == Some(SpecPrimVal::Bool(x <= y)),
        spec_apply(spec_prim_name_to_op("prim_ilt"@)->0, ints(x, y)) == Some(SpecPrimVal::Bool(x < y)),
        spec_apply(spec_prim_name_to_op("prim_ige"@)->0, ints(x, y)) == Some(SpecPrimVal::Bool(x >= y)),
        spec_apply(spec_prim_name_to_op("prim_igt"@)->0, ints(x, y)) == Some(SpecPrimVal::Bool(x > y)),
        spec_apply(spec_prim_name_to_op("prim_ieq"@)->0, ints(x, y)) == Some(SpecPrimVal::Bool(x == y)),
        i64::MIN <= x + y <= i64::MAX ==> spec_apply(spec_prim_name_to_op("prim_iadd"@)->0, ints(x, y)) == Some(
            SpecPrimVal::Int((x + y) as i64),
        ),
        i64::MIN <= x - y <= i64::MAX ==> spec_apply(spec_prim_name_to_op("prim_isub"@)->0, ints(x, y)) == Some(
            SpecPrimVal::Int((x - y) as i64),
        ),
        i64::MIN <= x * y <= i64::MAX ==> spec_apply(spec_prim_name_to_op("prim_imul"@)->0, ints(x, y)) == Some(
            SpecPrimVal::Int((x * y) as i64),
        ),
        spec_apply(spec_prim_name_to_op("prim_not"@)->0, seq![SpecPrimVal::Bool(a)]) == Some(SpecPrimVal::Bool(!a)),
        spec_apply(spec_prim_name_to_op("prim_and"@)->0, bools(a, b)) == Some(SpecPrimVal::Bool(a && b)),
        spec_apply(spec_prim_name_to_op("prim_or"@)->0, bools(a, b)) == Some(SpecPrimVal::Bool(a || b)),
{
    assert(spec_prim_name_to_op("prim_ile"@) == Some(PrimOp::ILe)) by {
        reveal_strlit("prim_iadd");
        reveal_strlit("prim_isub");
        reveal_strlit("prim_imul");
        reveal_strlit("prim_idiv");
        reveal_strlit("prim_irem");
        reveal_strlit("prim_ineg");
        reveal_strlit("prim_ihash");
        reveal_strlit("prim_fadd");
        reveal_strlit("prim_fsub");
        reveal_strlit("prim_fmul");
        reveal_strlit("prim_fdiv");
        reveal_strlit("prim_frem");
        reveal_strlit("prim_fneg");
        reveal_strlit("prim_ieq");
        reveal_strlit("prim_ifeq");
        reveal_strlit("prim_igt");
        reveal_strlit("prim_ige");
        reveal_strlit("prim_ilt");
        reveal_strlit("prim_ile");
        assert("prim_ile"@.len() != "prim_iadd"@.len());
        assert("prim_ile"@.len() != "prim_isub"@.len());
        assert("prim_ile"@.len() != "prim_imul"@.len());
        assert("prim_ile"@.len() != "prim_idiv"@.len());
        assert("prim_ile"@.len() != "prim_irem"@.len());
        assert("prim_ile"@.len() != "prim_ineg"@.len());
        assert("prim_ile"@.len() != "prim_ihash"@.len());
        assert("prim_ile"@.len() != "prim_fadd"@.len());
        assert("prim_ile"@.len() != "prim_fsub"@.len());
        assert("prim_ile"@.len() != "prim_fmul"@.len());
        assert("prim_ile"@.len() != "prim_fdiv"@.len());
        assert("prim_ile"@.len() != "prim_frem"@.len());
        assert("prim_ile"@.len() != "prim_fneg"@.len());
        assert("prim_ile"@[6] != "prim_ieq"@[6]);
        assert("prim_ile"@.len() != "prim_ifeq"@.len());
        assert("prim_ile"@[6] != "prim_igt"@[6]);
        assert("prim_ile"@[6] != "prim_ige"@[6]);
        assert("prim_ile"@[7] != "prim_ilt"@[7]);
    }
    assert(spec_prim_name_to_op("prim_ilt"@) == Some(PrimOp::ILt)) by {
        reveal_strlit("prim_iadd");
        reveal_strlit("prim_isub");
        reveal_strlit("prim_imul");
        reveal_strlit("prim_idiv");
        reveal_strlit("prim_irem");
        reveal_strlit("prim_ineg");
        reveal_strlit("prim_ihash");
        reveal_strlit("prim_fadd");
        reveal_strlit("prim_fsub");
        reveal_strlit("prim_fmul");
        reveal_strlit("prim_fdiv");
        reveal_strlit("prim_frem");
        reveal_strlit("prim_fneg");
        reveal_strlit("prim_ieq");
        reveal_strlit("prim_ifeq");
        reveal_strlit("prim_igt");
        reveal_strlit("prim_ige");
        reveal_strlit("prim_ilt");
        assert("prim_ilt"@.len() != "prim_iadd"@.len());
        assert("prim_ilt"@.len() != "prim_isub"@.len());
        assert("prim_ilt"@.len() != "prim_imul"@.len());
        assert("prim_ilt"@.len() != "prim_idiv"@.len());
        assert("prim_ilt"@.len() != "prim_irem"@.len());
        assert("prim_ilt"@.len() != "prim_ineg"@.len());
        assert("prim_ilt"@.len() != "prim_ihash"@.len());
        assert("prim_ilt"@.len() != "prim_fadd"@.len());
        assert("prim_ilt"@.len() != "prim_fsub"@.len());
        assert("prim_ilt"@.len() != "prim_fmul"@.len());
        assert("prim_ilt"@.len() != "prim_fdiv"@.len());
        assert("prim_ilt"@.len() != "prim_frem"@.len());
        assert("prim_ilt"@.len() != "prim_fneg"@.len());
        assert("prim_ilt"@[6] != "prim_ieq"@[6]);
        assert("prim_ilt"@.len() != "prim_ifeq"@.len());
        assert("prim_ilt"@[6] != "prim_igt"@[6]);
        assert("prim_ilt"@[6] != "prim_ige"@[6]);
    }
    assert(spec_prim_name_to_op("prim_ige"@) == Some(PrimOp::IGe)) by {
        reveal_strlit("prim_iadd");
        reveal_strlit("prim_isub");
        reveal_strlit("prim_imul");
        reveal_strlit("prim_idiv");
        reveal_strlit("prim_irem");
        reveal_strlit("prim_ineg");
        reveal_strlit("prim_ihash");
        reveal_strlit("prim_fadd");
        reveal_strlit("prim_fsub");
        reveal_strlit("prim_fmul");
        reveal_strlit("prim_fdiv");
        reveal_strlit("prim_frem");
        reveal_strlit("prim_fneg");
        reveal_strlit("prim_ieq");
        reveal_strlit("prim_ifeq");
        reveal_strlit("prim_igt");
        reveal_strlit("prim_ige");
        assert("prim_ige"@.len() != "prim_iadd"@.len());
        assert("prim_ige"@.len() != "prim_isub"@.len());
        assert("prim_ige"@.len() != "prim_imul"@.len());
        assert("prim_ige"@.len() != "prim_idiv"@.len());
        assert("prim_ige"@.len() != "prim_irem"@.len());
        assert("prim_ige"@.len() != "prim_ineg"@.len());
        assert("prim_ige"@.len() != "prim_ihash"@.len());
        assert("prim_ige"@.len() != "prim_fadd"@.len());
        assert("prim_ige"@.len() != "prim_fsub"@.len());
        assert("prim_ige"@.len() != "prim_fmul"@.len());
        assert("prim_ige"@.len() != "prim_fdiv"@.len());
        assert("prim_ige"@.len() != "prim_frem"@.len());
        assert("prim_ige"@.len() != "prim_fneg"@.len());
        assert("prim_ige"@[6] != "prim_ieq"@[6]);
        assert("prim_ige"@.len() != "prim_ifeq"@.len());
        assert("prim_ige"@[7] != "prim_igt"@[7]);
    }
    assert(spec_prim_name_to_op("prim_igt"@) == Some(PrimOp::IGt)) by {
        reveal_strlit("prim_iadd");
        reveal_strlit("prim_isub");
        reveal_strlit("prim_imul");
        reveal_strlit("prim_idiv");
        reveal_strlit("prim_irem");
        reveal_strlit("prim_ineg");
        reveal_strlit("prim_ihash");
        reveal_strlit("prim_fadd");
        reveal_strlit("prim_fsub");
        reveal_strlit("prim_fmul");
        reveal_strlit("prim_fdiv");
        reveal_strlit("prim_frem");
        reveal_strlit("prim_fneg");
        reveal_strlit("prim_ieq");
        reveal_strlit("prim_ifeq");
        reveal_strlit("prim_igt");
        assert("prim_igt"@.len() != "prim_iadd"@.len());
        assert("prim_igt"@.len() != "prim_isub"@.len());
        assert("prim_igt"@.len() != "prim_imul"@.len());
        assert("prim_igt"@.len() != "prim_idiv"@.len());
        assert("prim_igt"@.len() != "prim_irem"@.len());
        assert("prim_igt"@.len() != "prim_ineg"@.len());
        assert("prim_igt"@.len() != "prim_ihash"@.len());
        assert("prim_igt"@.len() != "prim_fadd"@.len());
        assert("prim_igt"@.len() != "prim_fsub"@.len());
        assert("prim_igt"@.len() != "prim_fmul"@.len());
        assert("prim_igt"@.len() != "prim_fdiv"@.len());
        assert("prim_igt"@.len() != "prim_frem"@.len());
        assert("prim_igt"@.len() != "prim_fneg"@.len());
        assert("prim_igt"@[6] != "prim_ieq"@[6]);
        assert("prim_igt"@.len() != "prim_ifeq"@.len());
    }
    assert(spec_prim_name_to_op("prim_ieq"@) == Some(PrimOp::IEq)) by {
        reveal_strlit("prim_iadd");
        reveal_strlit("prim_isub");
        reveal_strlit("prim_imul");
        reveal_strlit("prim_idiv");
        reveal_strlit("prim_irem");
        reveal_strlit("prim_ineg");
        reveal_strlit("prim_ihash");
        reveal_strlit("prim_fadd");
        reveal_strlit("prim_fsub");
        reveal_strlit("prim_fmul");
        reveal_strlit("prim_fdiv");
        reveal_strlit("prim_frem");
        reveal_strlit("prim_fneg");
        reveal_strlit("prim_ieq");
        assert("prim_ieq"@.len() != "prim_iadd"@.len());
        assert("prim_ieq"@.len() != "prim_isub"@.len());
        assert("prim_ieq"@.len() != "prim_imul"@.len());
        assert("prim_ieq"@.len() != "prim_idiv"@.len());
        assert("prim_ieq"@.len() != "prim_irem"@.len());
        assert("prim_ieq"@.len() != "prim_ineg"@.len());
        assert("prim_ieq"@.len() != "prim_ihash"@.len());
        assert("prim_ieq"@.len() != "prim_fadd"@.len());
        assert("prim_ieq"@.len() != "prim_fsub"@.len());
        assert("prim_ieq"@.len() != "prim_fmul"@.len());
        assert("prim_ieq"@.len() != "prim_fdiv"@.len());
        assert("prim_ieq"@.len() != "prim_frem"@.len());
        assert("prim_ieq"@.len() != "prim_fneg"@.len());
    }
    assert(spec_prim_name_to_op("prim_iadd"@) == Some(PrimOp::IAdd)) by {
        reveal_strlit("prim_iadd");
    }
    assert(spec_prim_name_to_op("prim_isub"@) == Some(PrimOp::ISub)) by {
        reveal_strlit("prim_iadd");
        reveal_strlit("prim_isub");
        assert("prim_isub"@[6] != "prim_iadd"@[6]);
    }
    assert(spec_prim_name_to_op("prim_imul"@) == Some(PrimOp::IMul)) by {
        reveal_strlit("prim_iadd");
        reveal_strlit("prim_isub");
        reveal_strlit("prim_imul");
        assert("prim_imul"@[6] != "prim_iadd"@[6]);
        assert("prim_imul"@[6] != "prim_isub"@[6]);
    }
    assert(spec_prim_name_to_op("prim_not"@) == Some(PrimOp::Not)) by {
        reveal_strlit("prim_iadd");
        reveal_strlit("prim_isub");
        reveal_strlit("prim_imul");
        reveal_strlit("prim_idiv");
        reveal_strlit("prim_irem");
        reveal_strlit("prim_ineg");
        reveal_strlit("prim_ihash");
        reveal_strlit("prim_fadd");
        reveal_strlit("prim_fsub");
        reveal_strlit("prim_fmul");
        reveal_strlit("prim_fdiv");
        reveal_strlit("prim_frem");
        reveal_strlit("prim_fneg");
        reveal_strlit("prim_ieq");
        reveal_strlit("prim_ifeq");
        reveal_strlit("prim_igt");
        reveal_strlit("prim_ige");
        reveal_strlit("prim_ilt");
        reveal_strlit("prim_ile");
        reveal_strlit("prim_feq");
        reveal_strlit("prim_fne");
        reveal_strlit("prim_fgt");
        reveal_strlit("prim_fge");
        reveal_strlit("prim_flt");
        reveal_strlit("prim_fle");
        reveal_strlit("prim_not");
        assert("prim_not"@.len() != "prim_iadd"@.len());
        assert("prim_not"@.len() != "prim_isub"@.len());
        assert("prim_not"@.len() != "prim_imul"@.len());
        assert("prim_not"@.len() != "prim_idiv"@.len());
        assert("prim_not"@.len() != "prim_irem"@.len());
        assert("prim_not"@.len() != "prim_ineg"@.len());
        assert("prim_not"@.len() != "prim_ihash"@.len());
        assert("prim_not"@.len() != "prim_fadd"@.len());
        assert("prim_not"@.len() != "prim_fsub"@.len());
        assert("prim_not"@.len() != "prim_fmul"@.len());
        assert("prim_not"@.len() != "prim_fdiv"@.len());
        assert("prim_not"@.len() != "prim_frem"@.len());
        assert("prim_not"@.len() != "prim_fneg"@.len());
        assert("prim_not"@[5] != "prim_ieq"@[5]);
        assert("prim_not"@.len() != "prim_ifeq"@.len());
        assert("prim_not"@[5] != "prim_igt"@[5]);
        assert("prim_not"@[5] != "prim_ige"@[5]);
        assert("prim_not"@[5] != "prim_ilt"@[5]);
        assert("prim_not"@[5] != "prim_ile"@[5]);
        assert("prim_not"@[5] != "prim_feq"@[5]);
        assert("prim_not"@[5] != "prim_fne"@[5]);
        assert("prim_not"@[5] != "prim_fgt"@[5]);
        assert("prim_not"@[5] != "prim_fge"@[5]);
        assert("prim_not"@[5] != "prim_flt"@[5]);
        assert("prim_not"@[5] != "prim_fle"@[5]);
    }
    assert(spec_prim_name_to_op("prim_and"@) == Some(PrimOp::And)) by {
        reveal_strlit("prim_iadd");
        reveal_strlit("prim_isub");
        reveal_strlit("prim_imul");
        reveal_strlit("prim_idiv");
        reveal_strlit("prim_irem");
        reveal_strlit("prim_ineg");
        reveal_strlit("prim_ihash");
        reveal_strlit("prim_fadd");
        reveal_strlit("prim_fsub");
        reveal_strlit("prim_fmul");
        reveal_strlit("prim_fdiv");
        reveal_strlit("prim_frem");
        reveal_strlit("prim_fneg");
        reveal_strlit("prim_ieq");
        reveal_strlit("prim_ifeq");
        reveal_strlit("prim_igt");
        reveal_strlit("prim_ige");
        reveal_strlit("prim_ilt");
        reveal_strlit("prim_ile");
        reveal_strlit("prim_feq");
        reveal_strlit("prim_fne");
        reveal_strlit("prim_fgt");
        reveal_strlit("prim_fge");
        reveal_strlit("prim_flt");
        reveal_strlit("prim_fle");
        reveal_strlit("prim_not");
        reveal_strlit("prim_and");
        assert("prim_and"@.len() != "prim_iadd"@.len());
        assert("prim_and"@.len() != "prim_isub"@.len());
        assert("prim_and"@.len() != "prim_imul"@.len());
        assert("prim_and"@.len() != "prim_idiv"@.len());
        assert("prim_and"@.len() != "prim_irem"@.len());
        assert("prim_and"@.len() != "prim_ineg"@.len());
        assert("prim_and"@.len() != "prim_ihash"@.len());
        assert("prim_and"@.len() != "prim_fadd"@.len());
        assert("prim_and"@.len() != "prim_fsub"@.len());
        assert("prim_and"@.len() != "prim_fmul"@.len());
        assert("prim_and"@.len() != "prim_fdiv"@.len());
        assert("prim_and"@.len() != "prim_frem"@.len());
        assert("prim_and"@.len() != "prim_fneg"@.len());
        assert("prim_and"@[5] != "prim_ieq"@[5]);
        assert("prim_and"@.len() != "prim_ifeq"@.len());
        assert("prim_and"@[5] != "prim_igt"@[5]);
        assert("prim_and"@[5] != "prim_ige"@[5]);
        assert("prim_and"@[5] != "prim_ilt"@[5]);
        assert("prim_and"@[5] != "prim_ile"@[5]);
        assert("prim_and"@[5] != "prim_feq"@[5]);
        assert("prim_and"@[5] != "prim_fne"@[5]);
        assert("prim_and"@[5] != "prim_fgt"@[5]);
        assert("prim_and"@[5] != "prim_fge"@[5]);
        assert("prim_and"@[5] != "prim_flt"@[5]);
        assert("prim_and"@[5] != "prim_fle"@[5]);
        assert("prim_and"@[5] != "prim_not"@[5]);
    }
    assert(spec_prim_name_to_op("prim_or"@) == Some(PrimOp::Or)) by {
        reveal_strlit("prim_iadd");
        reveal_strlit("prim_isub");
        reveal_strlit("prim_imul");
        reveal_strlit("prim_idiv");
        reveal_strlit("prim_irem");
        reveal_strlit("prim_ineg");
        reveal_strlit("prim_ihash");
        reveal_strlit("prim_fadd");
        reveal_strlit("prim_fsub");
        reveal_strlit("prim_fmul");
        reveal_strlit("prim_fdiv");
        reveal_strlit("prim_frem");
        reveal_strlit("prim_fneg");
        reveal_strlit("prim_ieq");
        reveal_strlit("prim_ifeq");
        reveal_strlit("prim_igt");
        reveal_strlit("prim_ige");
        reveal_strlit("prim_ilt");
        reveal_strlit("prim_ile");
        reveal_strlit("prim_feq");
        reveal_strlit("prim_fne");
        reveal_strlit("prim_fgt");
        reveal_strlit("prim_fge");
        reveal_strlit("prim_flt");
        reveal_strlit("prim_fle");
        reveal_strlit("prim_not");
        reveal_strlit("prim_and");
        reveal_strlit("prim_or");
        assert("prim_or"@.len() != "prim_iadd"@.len());
        assert("prim_or"@.len() != "prim_isub"@.len());
        assert("prim_or"@.len() != "prim_imul"@.len());
        assert("prim_or"@.len() != "prim_idiv"@.len());
        assert("prim_or"@.len() != "prim_irem"@.len());
        assert("prim_or"@.len() != "prim_ineg"@.len());
        assert("prim_or"@.len() != "prim_ihash"@.len());
        assert("prim_or"@.len() != "prim_fadd"@.len());
        assert("prim_or"@.len() != "prim_fsub"@.len());
        assert("prim_or"@.len() != "prim_fmul"@.len());
        assert("prim_or"@.len() != "prim_fdiv"@.len());
        assert("prim_or"@.len() != "prim_frem"@.len());
        assert("prim_or"@.len() != "prim_fneg"@.len());
        assert("prim_or"@.len() != "prim_ieq"@.len());
        assert("prim_or"@.len() != "prim_ifeq"@.len());
        assert("prim_or"@.len() != "prim_igt"@.len());
        assert("prim_or"@.len() != "prim_ige"@.len());
        assert("prim_or"@.len() != "prim_ilt"@.len());
        assert("prim_or"@.len() != "prim_ile"@.len());
        assert("prim_or"@.len() != "prim_feq"@.len());
        assert("prim_or"@.len() != "prim_fne"@.len());
        assert("prim_or"@.len() != "prim_fgt"@.len());
        assert("prim_or"@.len() != "prim_fge"@.len());
        assert("prim_or"@.len() != "prim_flt"@.len());
        assert("prim_or"@.len() != "prim_fle"@.len());
        assert("prim_or"@.len() != "prim_not"@.len());
        assert("prim_or"@.len() != "prim_and"@.len());
    }
}

} // verus!
