use lambda_cicle::runtime::primitives::{
    is_valid_primitive, prim_name_to_io_op, prim_name_to_op, IOOp, NativeKind, PrimOp, PrimVal,
};

fn eval_prim(op: PrimOp, args: Vec<PrimVal>) -> Option<PrimVal> {
    op.apply(&args)
}

#[test]
fn test_prim_iadd() {
    assert_eq!(
        eval_prim(PrimOp::IAdd, vec![PrimVal::Int(3), PrimVal::Int(5)]),
        Some(PrimVal::Int(8))
    );
    assert_eq!(
        eval_prim(PrimOp::IAdd, vec![PrimVal::Int(-1), PrimVal::Int(1)]),
        Some(PrimVal::Int(0))
    );
    assert_eq!(
        eval_prim(PrimOp::IAdd, vec![PrimVal::Int(0), PrimVal::Int(0)]),
        Some(PrimVal::Int(0))
    );
}

#[test]
fn test_prim_isub() {
    assert_eq!(
        eval_prim(PrimOp::ISub, vec![PrimVal::Int(10), PrimVal::Int(3)]),
        Some(PrimVal::Int(7))
    );
    assert_eq!(
        eval_prim(PrimOp::ISub, vec![PrimVal::Int(3), PrimVal::Int(10)]),
        Some(PrimVal::Int(-7))
    );
}

#[test]
fn test_prim_imul() {
    assert_eq!(
        eval_prim(PrimOp::IMul, vec![PrimVal::Int(6), PrimVal::Int(7)]),
        Some(PrimVal::Int(42))
    );
    assert_eq!(
        eval_prim(PrimOp::IMul, vec![PrimVal::Int(-3), PrimVal::Int(5)]),
        Some(PrimVal::Int(-15))
    );
}

#[test]
fn test_prim_ineg() {
    assert_eq!(
        eval_prim(PrimOp::INeg, vec![PrimVal::Int(5)]),
        Some(PrimVal::Int(-5))
    );
    assert_eq!(
        eval_prim(PrimOp::INeg, vec![PrimVal::Int(-5)]),
        Some(PrimVal::Int(5))
    );
    assert_eq!(
        eval_prim(PrimOp::INeg, vec![PrimVal::Int(0)]),
        Some(PrimVal::Int(0))
    );
}

#[test]
fn test_prim_ihash() {
    let result = eval_prim(PrimOp::IHash, vec![PrimVal::Int(42)]);
    assert!(matches!(result, Some(PrimVal::Int(n)) if n >= 0));
}

#[test]
fn test_prim_arities() {
    assert_eq!(PrimOp::INeg.arity(), 1);
    assert_eq!(PrimOp::IAdd.arity(), 2);
    assert_eq!(PrimOp::IEq.arity(), 2);
}

#[test]
fn test_prim_prim_name_to_op() {
    assert!(prim_name_to_op("prim_iadd").is_some());
    assert!(prim_name_to_op("prim_ieq").is_some());
    assert!(prim_name_to_op("prim_idiv").is_some());
    assert!(prim_name_to_op("invalid_prim").is_none());
}

#[test]
fn prim_names_map_to_their_operations() {
    assert_eq!(prim_name_to_op("prim_iadd"), Some(PrimOp::IAdd));
    assert_eq!(prim_name_to_op("prim_idiv"), Some(PrimOp::IDiv));
    assert_eq!(prim_name_to_op("prim_fneg"), Some(PrimOp::FNeg));
    assert_eq!(prim_name_to_op("iadd"), None);
}

#[test]
fn io_names_map_to_their_operations() {
    assert_eq!(prim_name_to_io_op("prim_io_println"), Some(IOOp::Println));
    assert_eq!(prim_name_to_io_op("prim_io_read_line"), Some(IOOp::ReadLine));
    assert_eq!(prim_name_to_io_op("prim_iadd"), None);
    assert_eq!(IOOp::ReadLine.arity(), 0);
    assert_eq!(IOOp::Open.arity(), 2);
}

#[test]
fn integer_division_truncates_toward_zero() {
    assert_eq!(
        eval_prim(PrimOp::IDiv, vec![PrimVal::Int(-7), PrimVal::Int(2)]),
        Some(PrimVal::Constructor("Ok".to_string(), vec![PrimVal::Int(-3)]))
    );
    assert_eq!(
        eval_prim(PrimOp::IRem, vec![PrimVal::Int(-7), PrimVal::Int(2)]),
        Some(PrimVal::Constructor("Ok".to_string(), vec![PrimVal::Int(-1)]))
    );
}

#[test]
fn division_by_zero_is_an_error_value() {
    assert_eq!(
        eval_prim(PrimOp::IDiv, vec![PrimVal::Int(7), PrimVal::Int(0)]),
        Some(PrimVal::Constructor(
            "Err".to_string(),
            vec![PrimVal::Constructor("DivisionByZero".to_string(), vec![])]
        ))
    );
}

#[test]
fn wrong_argument_kinds_give_nothing() {
    assert_eq!(eval_prim(PrimOp::IAdd, vec![PrimVal::Bool(true), PrimVal::Int(1)]), None);
    assert_eq!(eval_prim(PrimOp::INeg, vec![]), None);
}

#[test]
fn native_kinds_are_listed_in_order() {
    assert_eq!(
        NativeKind::all(),
        vec![NativeKind::Int, NativeKind::Float, NativeKind::Bool, NativeKind::Char, NativeKind::Unit]
    );
    assert_eq!(PrimVal::Int(3).native_kind(), NativeKind::Int);
    assert_eq!(PrimVal::Unit.native_kind(), NativeKind::Unit);
}

#[test]
fn valid_primitives_are_recognised() {
    assert!(is_valid_primitive("prim_iadd"));
    assert!(!is_valid_primitive("not_a_primitive"));
}
