//! Primitive operations of the runtime and their evaluation.
use vstd::prelude::*;

use crate::text::{str_eq, string_of};

verus! {

/// The kinds of runtime values.
#[derive(Debug, Clone, Copy, PartialEq, Eq, Hash, Structural)]
pub enum NativeKind {
    Int,
    Float,
    Bool,
    Char,
    Unit,
}

impl NativeKind {
    /// Every kind, in declaration order.
    pub fn all() -> (r: Vec<NativeKind>)
        ensures
            r@ == seq![NativeKind::Int, NativeKind::Float, NativeKind::Bool, NativeKind::Char, NativeKind::Unit],
    {
        let mut v = Vec::new();
        v.push(NativeKind::Int);
        v.push(NativeKind::Float);
        v.push(NativeKind::Bool);
        v.push(NativeKind::Char);
        v.push(NativeKind::Unit);
        v
    }
}

/// Input and output operations, which take an IO token besides their
/// arguments.
#[derive(Debug, Clone, Copy, PartialEq, Eq, Hash, Structural)]
pub enum IOOp {
    Print,
    Println,
    EPrint,
    EPrintln,
    ReadLine,
    Open,
    Close,
    Read,
    Write,
}

impl IOOp {
    pub open spec fn spec_arity(self) -> usize {
        match self {
            IOOp::Print | IOOp::Println | IOOp::EPrint | IOOp::EPrintln | IOOp::Close | IOOp::Read => 1,
            IOOp::Open | IOOp::Write => 2,
            IOOp::ReadLine => 0,
        }
    }

    /// The number of value arguments; `ReadLine` takes only the IO token.
    pub fn arity(&self) -> (r: usize)
        ensures
            r == self.spec_arity(),
    {
        match self {
            IOOp::Print | IOOp::Println | IOOp::EPrint | IOOp::EPrintln | IOOp::Close | IOOp::Read => 1,
            IOOp::Open | IOOp::Write => 2,
            IOOp::ReadLine => 0,
        }
    }
}

/// The primitive operations on native values.
#[derive(Debug, Clone, Copy, PartialEq, Eq, Hash, Structural)]
pub enum PrimOp {
    IAdd,
    ISub,
    IMul,
    IDiv,
    IRem,
    INeg,
    IHash,
    FAdd,
    FSub,
    FMul,
    FDiv,
    FRem,
    FNeg,
    IEq,
    IFEq,
    IGt,
    IGe,
    ILt,
    ILe,
    FEq,
    FNe,
    FGt,
    FGe,
    FLt,
    FLe,
    Not,
    BNot,
    And,
    BAnd,
    Or,
    BOr,
    Chr,
    Ord,
    CEq,
    COrd,
    CHash,
    BEq,
    BHash,
    IntToString,
    FloatToString,
    CharToString,
}

impl PrimOp {
    pub open spec fn spec_arity(self) -> usize {
        match self {
            PrimOp::INeg | PrimOp::FNeg | PrimOp::Not | PrimOp::BNot | PrimOp::Chr | PrimOp::Ord | PrimOp::IHash | PrimOp::CEq | PrimOp::COrd | PrimOp::CHash | PrimOp::BEq | PrimOp::BHash | PrimOp::IntToString | PrimOp::FloatToString | PrimOp::CharToString => 1,
            _ => 2,
        }
    }

    /// The number of arguments: one for the unary operations, two otherwise.
    pub fn arity(&self) -> (r: usize)
        ensures
            r == self.spec_arity(),
    {
        match self {
            PrimOp::INeg | PrimOp::FNeg | PrimOp::Not | PrimOp::BNot | PrimOp::Chr | PrimOp::Ord | PrimOp::IHash | PrimOp::CEq | PrimOp::COrd | PrimOp::CHash | PrimOp::BEq | PrimOp::BHash | PrimOp::IntToString | PrimOp::FloatToString | PrimOp::CharToString => 1,
            _ => 2,
        }
    }

    /// The operations whose arguments or result are floating-point numbers.
    pub open spec fn spec_is_float_op(self) -> bool {
        match self {
            PrimOp::FAdd | PrimOp::FSub | PrimOp::FMul | PrimOp::FDiv | PrimOp::FRem | PrimOp::FNeg | PrimOp::FEq | PrimOp::FNe | PrimOp::FGt | PrimOp::FGe | PrimOp::FLt | PrimOp::FLe | PrimOp::FloatToString => true,
            _ => false,
        }
    }

    pub fn is_float_op(&self) -> (r: bool)
        ensures
            r == self.spec_is_float_op(),
    {
        match self {
            PrimOp::FAdd | PrimOp::FSub | PrimOp::FMul | PrimOp::FDiv | PrimOp::FRem | PrimOp::FNeg | PrimOp::FEq | PrimOp::FNe | PrimOp::FGt | PrimOp::FGe | PrimOp::FLt | PrimOp::FLe | PrimOp::FloatToString => true,
            _ => false,
        }
    }
}

/// The primitive named by `name`, if any.
pub open spec fn spec_prim_name_to_op(name: Seq<char>) -> Option<PrimOp> {
    if name == "prim_iadd"@ {
        Some(PrimOp::IAdd)
    } else if name == "prim_isub"@ {
        Some(PrimOp::ISub)
    } else if name == "prim_imul"@ {
        Some(PrimOp::IMul)
    } else if name == "prim_idiv"@ {
        Some(PrimOp::IDiv)
    } else if name == "prim_irem"@ {
        Some(PrimOp::IRem)
    } else if name == "prim_ineg"@ {
        Some(PrimOp::INeg)
    } else if name == "prim_ihash"@ {
        Some(PrimOp::IHash)
    } else if name == "prim_fadd"@ {
        Some(PrimOp::FAdd)
    } else if name == "prim_fsub"@ {
        Some(PrimOp::FSub)
    } else if name == "prim_fmul"@ {
        Some(PrimOp::FMul)
    } else if name == "prim_fdiv"@ {
        Some(PrimOp::FDiv)
    } else if name == "prim_frem"@ {
        Some(PrimOp::FRem)
    } else if name == "prim_fneg"@ {
        Some(PrimOp::FNeg)
    } else if name == "prim_ieq"@ {
        Some(PrimOp::IEq)
    } else if name == "prim_ifeq"@ {
        Some(PrimOp::IFEq)
    } else if name == "prim_igt"@ {
        Some(PrimOp::IGt)
    } else if name == "prim_ige"@ {
        Some(PrimOp::IGe)
    } else if name == "prim_ilt"@ {
        Some(PrimOp::ILt)
    } else if name == "prim_ile"@ {
        Some(PrimOp::ILe)
    } else if name == "prim_feq"@ {
        Some(PrimOp::FEq)
    } else if name == "prim_fne"@ {
        Some(PrimOp::FNe)
    } else if name == "prim_fgt"@ {
        Some(PrimOp::FGt)
    } else if name == "prim_fge"@ {
        Some(PrimOp::FGe)
    } else if name == "prim_flt"@ {
        Some(PrimOp::FLt)
    } else if name == "prim_fle"@ {
        Some(PrimOp::FLe)
    } else if name == "prim_not"@ {
        Some(PrimOp::Not)
    } else if name == "prim_and"@ {
        Some(PrimOp::And)
    } else if name == "prim_or"@ {
        Some(PrimOp::Or)
    } else if name == "prim_bnot"@ {
        Some(PrimOp::BNot)
    } else if name == "prim_band"@ {
        Some(PrimOp::BAnd)
    } else if name == "prim_bor"@ {
        Some(PrimOp::BOr)
    } else if name == "prim_chr"@ {
        Some(PrimOp::Chr)
    } else if name == "prim_ord"@ {
        Some(PrimOp::Ord)
    } else if name == "prim_ceq"@ {
        Some(PrimOp::CEq)
    } else if name == "prim_cord"@ {
        Some(PrimOp::COrd)
    } else if name == "prim_chash"@ {
        Some(PrimOp::CHash)
    } else if name == "prim_beq"@ {
        Some(PrimOp::BEq)
    } else if name == "prim_bhash"@ {
        Some(PrimOp::BHash)
    } else if name == "prim_int_to_string"@ {
        Some(PrimOp::IntToString)
    } else if name == "prim_float_to_string"@ {
        Some(PrimOp::FloatToString)
    } else if name == "prim_char_to_string"@ {
        Some(PrimOp::CharToString)
    } else {
        None
    }
}

pub fn prim_name_to_op(name: &str) -> (r: Option<PrimOp>)
    ensures
        r == spec_prim_name_to_op(name@),
{
    if str_eq(name, "prim_iadd") {
        Some(PrimOp::IAdd)
    } else if str_eq(name, "prim_isub") {
        Some(PrimOp::ISub)
    } else if str_eq(name, "prim_imul") {
        Some(PrimOp::IMul)
    } else if str_eq(name, "prim_idiv") {
        Some(PrimOp::IDiv)
    } else if str_eq(name, "prim_irem") {
        Some(PrimOp::IRem)
    } else if str_eq(name, "prim_ineg") {
        Some(PrimOp::INeg)
    } else if str_eq(name, "prim_ihash") {
        Some(PrimOp::IHash)
    } else if str_eq(name, "prim_fadd") {
        Some(PrimOp::FAdd)
    } else if str_eq(name, "prim_fsub") {
        Some(PrimOp::FSub)
    } else if str_eq(name, "prim_fmul") {
        Some(PrimOp::FMul)
    } else if str_eq(name, "prim_fdiv") {
        Some(PrimOp::FDiv)
    } else if str_eq(name, "prim_frem") {
        Some(PrimOp::FRem)
    } else if str_eq(name, "prim_fneg") {
        Some(PrimOp::FNeg)
    } else if str_eq(name, "prim_ieq") {
        Some(PrimOp::IEq)
    } else if str_eq(name, "prim_ifeq") {
        Some(PrimOp::IFEq)
    } else if str_eq(name, "prim_igt") {
        Some(PrimOp::IGt)
    } else if str_eq(name, "prim_ige") {
        Some(PrimOp::IGe)
    } else if str_eq(name, "prim_ilt") {
        Some(PrimOp::ILt)
    } else if str_eq(name, "prim_ile") {
        Some(PrimOp::ILe)
    } else if str_eq(name, "prim_feq") {
        Some(PrimOp::FEq)
    } else if str_eq(name, "prim_fne") {
        Some(PrimOp::FNe)
    } else if str_eq(name, "prim_fgt") {
        Some(PrimOp::FGt)
    } else if str_eq(name, "prim_fge") {
        Some(PrimOp::FGe)
    } else if str_eq(name, "prim_flt") {
        Some(PrimOp::FLt)
    } else if str_eq(name, "prim_fle") {
        Some(PrimOp::FLe)
    } else if str_eq(name, "prim_not") {
        Some(PrimOp::Not)
    } else if str_eq(name, "prim_and") {
        Some(PrimOp::And)
    } else if str_eq(name, "prim_or") {
        Some(PrimOp::Or)
    } else if str_eq(name, "prim_bnot") {
        Some(PrimOp::BNot)
    } else if str_eq(name, "prim_band") {
        Some(PrimOp::BAnd)
    } else if str_eq(name, "prim_bor") {
        Some(PrimOp::BOr)
    } else if str_eq(name, "prim_chr") {
        Some(PrimOp::Chr)
    } else if str_eq(name, "prim_ord") {
        Some(PrimOp::Ord)
    } else if str_eq(name, "prim_ceq") {
        Some(PrimOp::CEq)
    } else if str_eq(name, "prim_cord") {
        Some(PrimOp::COrd)
    } else if str_eq(name, "prim_chash") {
        Some(PrimOp::CHash)
    } else if str_eq(name, "prim_beq") {
        Some(PrimOp::BEq)
    } else if str_eq(name, "prim_bhash") {
        Some(PrimOp::BHash)
    } else if str_eq(name, "prim_int_to_string") {
        Some(PrimOp::IntToString)
    } else if str_eq(name, "prim_float_to_string") {
        Some(PrimOp::FloatToString)
    } else if str_eq(name, "prim_char_to_string") {
        Some(PrimOp::CharToString)
    } else {
        None
    }
}

/// The primitive named by `name`, if any.
pub open spec fn spec_prim_name_to_io_op(name: Seq<char>) -> Option<IOOp> {
    if name == "prim_io_print"@ {
        Some(IOOp::Print)
    } else if name == "prim_io_println"@ {
        Some(IOOp::Println)
    } else if name == "prim_io_eprint"@ {
        Some(IOOp::EPrint)
    } else if name == "prim_io_eprintln"@ {
        Some(IOOp::EPrintln)
    } else if name == "prim_io_read_line"@ {
        Some(IOOp::ReadLine)
    } else if name == "prim_io_open"@ {
        Some(IOOp::Open)
    } else if name == "prim_io_close"@ {
        Some(IOOp::Close)
    } else if name == "prim_io_read"@ {
        Some(IOOp::Read)
    } else if name == "prim_io_write"@ {
        Some(IOOp::Write)
    } else {
        None
    }
}

pub fn prim_name_to_io_op(name: &str) -> (r: Option<IOOp>)
    ensures
        r == spec_prim_name_to_io_op(name@),
{
    if str_eq(name, "prim_io_print") {
        Some(IOOp::Print)
    } else if str_eq(name, "prim_io_println") {
        Some(IOOp::Println)
    } else if str_eq(name, "prim_io_eprint") {
        Some(IOOp::EPrint)
    } else if str_eq(name, "prim_io_eprintln") {
        Some(IOOp::EPrintln)
    } else if str_eq(name, "prim_io_read_line") {
        Some(IOOp::ReadLine)
    } else if str_eq(name, "prim_io_open") {
        Some(IOOp::Open)
    } else if str_eq(name, "prim_io_close") {
        Some(IOOp::Close)
    } else if str_eq(name, "prim_io_read") {
        Some(IOOp::Read)
    } else if str_eq(name, "prim_io_write") {
        Some(IOOp::Write)
    } else {
        None
    }
}

/// The names of the intrinsics that programs may call.
pub open spec fn spec_intrinsics() -> Seq<Seq<char>> {
    seq![
        "prim_iadd"@,
        "prim_isub"@,
        "prim_imul"@,
        "prim_idiv"@,
        "prim_irem"@,
        "prim_ineg"@,
        "prim_ihash"@,
        "prim_fadd"@,
        "prim_fsub"@,
        "prim_fmul"@,
        "prim_fdiv"@,
        "prim_frem"@,
        "prim_fneg"@,
        "prim_ieq"@,
        "prim_igt"@,
        "prim_ige"@,
        "prim_ilt"@,
        "prim_ile"@,
        "prim_feq"@,
        "prim_fne"@,
        "prim_fgt"@,
        "prim_fge"@,
        "prim_flt"@,
        "prim_fle"@,
        "prim_bnot"@,
        "prim_band"@,
        "prim_bor"@,
        "prim_beq"@,
        "prim_bhash"@,
        "prim_ceq"@,
        "prim_cord"@,
        "prim_chash"@,
        "prim_io_print"@,
        "prim_io_println"@,
        "prim_io_eprint"@,
        "prim_io_eprintln"@,
        "prim_io_read_line"@,
        "prim_io_open"@,
        "prim_io_close"@,
        "prim_io_read"@,
        "prim_io_write"@,
    ]
}

/// The names of the intrinsics that programs may call, in table order.
pub fn intrinsics_table() -> (r: Vec<&'static str>)
    ensures
        r@.map_values(|s: &str| s@) == spec_intrinsics(),
{
    let mut v: Vec<&'static str> = Vec::new();
    v.push("prim_iadd");
    v.push("prim_isub");
    v.push("prim_imul");
    v.push("prim_idiv");
    v.push("prim_irem");
    v.push("prim_ineg");
    v.push("prim_ihash");
    v.push("prim_fadd");
    v.push("prim_fsub");
    v.push("prim_fmul");
    v.push("prim_fdiv");
    v.push("prim_frem");
    v.push("prim_fneg");
    v.push("prim_ieq");
    v.push("prim_igt");
    v.push("prim_ige");
    v.push("prim_ilt");
    v.push("prim_ile");
    v.push("prim_feq");
    v.push("prim_fne");
    v.push("prim_fgt");
    v.push("prim_fge");
    v.push("prim_flt");
    v.push("prim_fle");
    v.push("prim_bnot");
    v.push("prim_band");
    v.push("prim_bor");
    v.push("prim_beq");
    v.push("prim_bhash");
    v.push("prim_ceq");
    v.push("prim_cord");
    v.push("prim_chash");
    v.push("prim_io_print");
    v.push("prim_io_println");
    v.push("prim_io_eprint");
    v.push("prim_io_eprintln");
    v.push("prim_io_read_line");
    v.push("prim_io_open");
    v.push("prim_io_close");
    v.push("prim_io_read");
    v.push("prim_io_write");
    proof {
        assert(v@.map_values(|s: &str| s@) =~= spec_intrinsics());
    }
    v
}

pub fn is_valid_primitive(name: &str) -> (r: bool)
    ensures
        r == spec_intrinsics().contains(name@),
{
    let table = intrinsics_table();
    let mut i: usize = 0;
    while i < table.len()
        invariant
            i <= table.len(),
            table@.map_values(|s: &str| s@) == spec_intrinsics(),
            forall|j: int| 0 <= j < i ==> spec_intrinsics()[j] != name@,
        decreases table.len() - i,
    {
        assert(spec_intrinsics()[i as int] == table@[i as int]@);
        if str_eq(table[i], name) {
            return true;
        }
        i += 1;
    }
    false
}

/// A runtime value. A floating-point number is held as the bits of its IEEE 754
/// double-precision encoding.
#[derive(Debug, PartialEq)]
pub enum PrimVal {
    Int(i64),
    Float(u64),
    Bool(bool),
    Char(char),
    Unit,
    String(String),
    Constructor(String, Vec<PrimVal>),
}

/// The mathematical value of a [`PrimVal`].
pub enum SpecPrimVal {
    Int(i64),
    Float(u64),
    Bool(bool),
    Char(char),
    Unit,
    Str(Seq<char>),
    Constructor(Seq<char>, Seq<SpecPrimVal>),
}

impl PrimVal {
    pub open spec fn spec_view(self) -> SpecPrimVal
        decreases self,
    {
        match self {
            PrimVal::Int(n) => SpecPrimVal::Int(n),
            PrimVal::Float(b) => SpecPrimVal::Float(b),
            PrimVal::Bool(b) => SpecPrimVal::Bool(b),
            PrimVal::Char(c) => SpecPrimVal::Char(c),
            PrimVal::Unit => SpecPrimVal::Unit,
            PrimVal::String(s) => SpecPrimVal::Str(s@),
            PrimVal::Constructor(n, args) => SpecPrimVal::Constructor(
                n@,
                Seq::new(args.len() as nat, |i: int| if 0 <= i < args.len() { args@[i].spec_view() } else { SpecPrimVal::Unit }),
            ),
        }
    }

    pub open spec fn spec_native_kind(self) -> NativeKind {
        match self {
            PrimVal::Int(_) => NativeKind::Int,
            PrimVal::Float(_) => NativeKind::Float,
            PrimVal::Bool(_) => NativeKind::Bool,
            PrimVal::Char(_) => NativeKind::Char,
            _ => NativeKind::Unit,
        }
    }

    /// The kind of a native value; strings and constructed values count as unit.
    pub fn native_kind(&self) -> (r: NativeKind)
        ensures
            r == self.spec_native_kind(),
    {
        match self {
            PrimVal::Int(_) => NativeKind::Int,
            PrimVal::Float(_) => NativeKind::Float,
            PrimVal::Bool(_) => NativeKind::Bool,
            PrimVal::Char(_) => NativeKind::Char,
            PrimVal::Unit => NativeKind::Unit,
            PrimVal::String(_) => NativeKind::Unit,
            PrimVal::Constructor(_, _) => NativeKind::Unit,
        }
    }
}

impl View for PrimVal {
    type V = SpecPrimVal;

    open spec fn view(&self) -> SpecPrimVal {
        self.spec_view()
    }
}

/// The view of a constructed value lists the views of its arguments.
pub proof fn lemma_constructor_value_view(n: String, args: Vec<PrimVal>)
    ensures
        PrimVal::Constructor(n, args)@ is Constructor,
        PrimVal::Constructor(n, args)@->Constructor_0 == n@,
        PrimVal::Constructor(n, args)@->Constructor_1.len() == args.len(),
        forall|i: int| 0 <= i < args.len() ==> PrimVal::Constructor(n, args)@->Constructor_1[i] == #[trigger] args@[i]@,
{
    let p = PrimVal::Constructor(n, args);
    assert(p@ == SpecPrimVal::Constructor(n@, p@->Constructor_1));
    assert(forall|i: int| 0 <= i < args.len() ==> p@->Constructor_1[i] == args@[i]@);
}

/// A copy of a list of values, element by element.
pub fn clone_values(v: &Vec<PrimVal>) -> (r: Vec<PrimVal>)
    ensures
        r.len() == v.len(),
        forall|i: int| 0 <= i < v.len() ==> #[trigger] r@[i]@ == v@[i]@,
    decreases v, 0nat,
{
    let mut r: Vec<PrimVal> = Vec::new();
    let mut i: usize = 0;
    while i < v.len()
        invariant
            i <= v.len(),
            r.len() == i,
            forall|j: int| 0 <= j < i ==> #[trigger] r@[j]@ == v@[j]@,
        decreases v.len() - i,
    {
        proof {
            broadcast use vstd::std_specs::vec::group_vec_axioms;
            assert(decreases_to!(*v => v@[i as int]));
        }
        r.push(v[i].clone());
        i += 1;
    }
    r
}

impl Clone for PrimVal {
    fn clone(&self) -> (r: PrimVal)
        ensures
            r@ == self@,
        decreases self, 1nat,
    {
        match self {
            PrimVal::Int(n) => PrimVal::Int(*n),
            PrimVal::Float(b) => PrimVal::Float(*b),
            PrimVal::Bool(b) => PrimVal::Bool(*b),
            PrimVal::Char(c) => PrimVal::Char(*c),
            PrimVal::Unit => PrimVal::Unit,
            PrimVal::String(s) => PrimVal::String(s.clone()),
            PrimVal::Constructor(n, args) => {
                let c = clone_values(args);
                let nn = n.clone();
                proof {
                    lemma_constructor_value_view(*n, *args);
                    lemma_constructor_value_view(nn, c);
                }
                let r = PrimVal::Constructor(nn, c);
                assert(forall|i: int| 0 <= i < c.len() ==> r@->Constructor_1[i] == c@[i]@);
                assert(forall|i: int| 0 <= i < c.len() ==> self@->Constructor_1[i] == args@[i]@);
                assert(r@->Constructor_1 =~= self@->Constructor_1);
                assert(r@ == SpecPrimVal::Constructor(r@->Constructor_0, r@->Constructor_1));
                assert(self@ == SpecPrimVal::Constructor(self@->Constructor_0, self@->Constructor_1));
                r
            }
        }
    }
}

/// The decimal digit for `d < 10`.
pub open spec fn digit_char(d: int) -> char {
    if d == 0 { '0' } else if d == 1 { '1' } else if d == 2 { '2' } else if d == 3 { '3' } else if d == 4 { '4' }
    else if d == 5 { '5' } else if d == 6 { '6' } else if d == 7 { '7' } else if d == 8 { '8' } else { '9' }
}

/// The decimal numeral of a natural number, without leading zeros.
pub open spec fn nat_decimal(n: nat) -> Seq<char>
    decreases n,
{
    if n < 10 {
        seq![digit_char(n as int)]
    } else {
        nat_decimal(n / 10).push(digit_char((n % 10) as int))
    }
}

/// The decimal numeral of an integer, with a minus sign when negative.
pub open spec fn int_decimal(n: int) -> Seq<char> {
    if n < 0 {
        seq!['-'] + nat_decimal((-n) as nat)
    } else {
        nat_decimal(n as nat)
    }
}

fn digit(d: u64) -> (c: char)
    requires
        d < 10,
    ensures
        c == digit_char(d as int),
{
    if d == 0 { '0' } else if d == 1 { '1' } else if d == 2 { '2' } else if d == 3 { '3' } else if d == 4 { '4' }
    else if d == 5 { '5' } else if d == 6 { '6' } else if d == 7 { '7' } else if d == 8 { '8' } else { '9' }
}

fn push_decimal(n: u64, out: &mut Vec<char>)
    ensures
        final(out)@ == old(out)@ + nat_decimal(n as nat),
    decreases n,
{
    if n < 10 {
        out.push(digit(n));
    } else {
        push_decimal(n / 10, out);
        out.push(digit(n % 10));
    }
}

/// The decimal numeral of `n`, as `format!("{}", n)` writes it.
pub fn int_to_decimal(n: i64) -> (r: String)
    ensures
        r@ == int_decimal(n as int),
{
    let mut v: Vec<char> = Vec::new();
    if n < 0 {
        v.push('-');
        let m: u64 = if n == i64::MIN { 9223372036854775808u64 } else { (-n) as u64 };
        push_decimal(m, &mut v);
    } else {
        push_decimal(n as u64, &mut v);
    }
    string_of(&v)
}

/// The decimal numeral of `n`, as `format!("{}", n)` writes it.
pub fn usize_to_decimal(n: usize) -> (r: String)
    ensures
        r@ == nat_decimal(n as nat),
{
    let mut v: Vec<char> = Vec::new();
    push_decimal(n as u64, &mut v);
    assert(v@ =~= nat_decimal(n as nat));
    string_of(&v)
}

/// `std::char::from_u32`: the character with scalar value `n`, when `n` is a
/// Unicode scalar value (at most 0x10FFFF and not a surrogate).
#[verifier::external_body]
fn char_from_u32(n: u32) -> (r: Option<char>)
    ensures
        r is Some <==> (n <= 0x10FFFF && !(0xD800 <= n <= 0xDFFF)),
        r matches Some(c) ==> c as u32 == n && c == n as char,
{
    char::from_u32(n)
}

/// Division rounded toward zero, as Rust's `/` computes it on integers.
pub open spec fn trunc_div(x: int, y: int) -> int {
    let q = (if x < 0 { -x } else { x }) / (if y < 0 { -y } else { y });
    if (x < 0) == (y < 0) { q } else { -q }
}

/// The remainder of [`trunc_div`], which has the sign of `x`.
pub open spec fn trunc_rem(x: int, y: int) -> int {
    x - y * trunc_div(x, y)
}

fn div_trunc(x: i64, y: i64) -> (r: (i64, i64))
    requires
        y != 0,
        !(x == i64::MIN && y == -1),
    ensures
        r.0 == trunc_div(x as int, y as int),
        r.1 == trunc_rem(x as int, y as int),
{
    let ax: u64 = if x < 0 { if x == i64::MIN { 9223372036854775808u64 } else { (-x) as u64 } } else { x as u64 };
    let ay: u64 = if y < 0 { if y == i64::MIN { 9223372036854775808u64 } else { (-y) as u64 } } else { y as u64 };
    let q: u64 = ax / ay;
    let rem: u64 = ax % ay;
    assert(ax == ay * q + rem) by (nonlinear_arith)
        requires ay > 0, q == ax / ay, rem == ax % ay;
    assert(q <= ax) by (nonlinear_arith)
        requires ay > 0, q == ax / ay;
    assert(rem < ay);
    // the quotient fits: it is below 2^63 except for MIN / -1, which is excluded
    assert(q <= 9223372036854775807u64 || ((x < 0) != (y < 0))) by (nonlinear_arith)
        requires ax <= 9223372036854775808u64, ay >= 1, q == ax / ay, ax == ay * q + rem, rem < ay,
            (ax == 9223372036854775808u64 && ay == 1) ==> (x < 0) != (y < 0),
            x < 0 ==> ax as int == -(x as int), x >= 0 ==> ax as int == x as int,
            y < 0 ==> ay as int == -(y as int), y >= 0 ==> ay as int == y as int;
    let qi: i64 = if (x < 0) == (y < 0) { q as i64 } else { if q == 9223372036854775808u64 { i64::MIN } else { -(q as i64) } };
    let ri: i64 = if x < 0 { -(rem as i64) } else { rem as i64 };
    assert(ri as int == x as int - (y as int) * (qi as int)) by (nonlinear_arith)
        requires ax as int == ay as int * q as int + rem as int,
            x < 0 ==> ax as int == -(x as int), x >= 0 ==> ax as int == x as int,
            y < 0 ==> ay as int == -(y as int), y >= 0 ==> ay as int == y as int,
            (x < 0) == (y < 0) ==> qi as int == q as int,
            (x < 0) != (y < 0) ==> qi as int == -(q as int),
            x < 0 ==> ri as int == -(rem as int), x >= 0 ==> ri as int == rem as int;
    (qi, ri)
}

/// The `i`-th argument, if given.
pub open spec fn arg(args: Seq<SpecPrimVal>, i: int) -> Option<SpecPrimVal> {
    if 0 <= i < args.len() { Some(args[i]) } else { None }
}

/// `Ok(v)` and `Err(DivisionByZero)` as runtime values.
pub open spec fn ok_value(v: SpecPrimVal) -> SpecPrimVal {
    SpecPrimVal::Constructor("Ok"@, seq![v])
}

pub open spec fn division_by_zero() -> SpecPrimVal {
    SpecPrimVal::Constructor("Err"@, seq![SpecPrimVal::Constructor("DivisionByZero"@, seq![])])
}

/// The inputs on which an operation would overflow and panic: the
/// negation, quotient and remainder of the least integer.
pub open spec fn apply_panics(op: PrimOp, args: Seq<SpecPrimVal>) -> bool {
    match (op, arg(args, 0), arg(args, 1)) {
        (PrimOp::INeg, Some(SpecPrimVal::Int(x)), _) => x == i64::MIN,
        (PrimOp::IDiv, Some(SpecPrimVal::Int(x)), Some(SpecPrimVal::Int(y))) => x == i64::MIN && y == -1,
        (PrimOp::IRem, Some(SpecPrimVal::Int(x)), Some(SpecPrimVal::Int(y))) => x == i64::MIN && y == -1,
        _ => false,
    }
}

/// The result of applying an operation on integers, booleans or characters
/// to its arguments; `None` when the arguments have the wrong kinds or an
/// integer result would not fit in 64 bits.
pub open spec fn spec_apply(op: PrimOp, args: Seq<SpecPrimVal>) -> Option<SpecPrimVal> {
    let a = arg(args, 0);
    let b = arg(args, 1);
    match op {
        PrimOp::IEq => match (a, b) {
            (Some(SpecPrimVal::Int(x)), Some(SpecPrimVal::Int(y))) => Some(SpecPrimVal::Bool(x == y)),
            _ => None,
        },
        PrimOp::IFEq => match (a, b) {
            (Some(SpecPrimVal::Int(x)), Some(SpecPrimVal::Int(y))) => Some(SpecPrimVal::Int(if x == y { 1 } else { 0 })),
            _ => None,
        },
        PrimOp::IGt => match (a, b) {
            (Some(SpecPrimVal::Int(x)), Some(SpecPrimVal::Int(y))) => Some(SpecPrimVal::Bool(x > y)),
            _ => None,
        },
        PrimOp::IGe => match (a, b) {
            (Some(SpecPrimVal::Int(x)), Some(SpecPrimVal::Int(y))) => Some(SpecPrimVal::Bool(x >= y)),
            _ => None,
        },
        PrimOp::ILt => match (a, b) {
            (Some(SpecPrimVal::Int(x)), Some(SpecPrimVal::Int(y))) => Some(SpecPrimVal::Bool(x < y)),
            _ => None,
        },
        PrimOp::ILe => match (a, b) {
            (Some(SpecPrimVal::Int(x)), Some(SpecPrimVal::Int(y))) => Some(SpecPrimVal::Bool(x <= y)),
            _ => None,
        },
        PrimOp::IAdd => match (a, b) {
            (Some(SpecPrimVal::Int(x)), Some(SpecPrimVal::Int(y))) => if i64::MIN <= x + y <= i64::MAX {
                Some(SpecPrimVal::Int((x + y) as i64))
            } else {
                None
            },
            _ => None,
        },
        PrimOp::ISub => match (a, b) {
            (Some(SpecPrimVal::Int(x)), Some(SpecPrimVal::Int(y))) => if i64::MIN <= x - y <= i64::MAX {
                Some(SpecPrimVal::Int((x - y) as i64))
            } else {
                None
            },
            _ => None,
        },
        PrimOp::IMul => match (a, b) {
            (Some(SpecPrimVal::Int(x)), Some(SpecPrimVal::Int(y))) => if i64::MIN <= x * y <= i64::MAX {
                Some(SpecPrimVal::Int((x * y) as i64))
            } else {
                None
            },
            _ => None,
        },
        PrimOp::IDiv => match (a, b) {
            (Some(SpecPrimVal::Int(x)), Some(SpecPrimVal::Int(y))) => if y == 0 {
                Some(division_by_zero())
            } else {
                Some(ok_value(SpecPrimVal::Int(trunc_div(x as int, y as int) as i64)))
            },
            _ => None,
        },
        PrimOp::IRem => match (a, b) {
            (Some(SpecPrimVal::Int(x)), Some(SpecPrimVal::Int(y))) => if y == 0 {
                Some(division_by_zero())
            } else {
                Some(ok_value(SpecPrimVal::Int(trunc_rem(x as int, y as int) as i64)))
            },
            _ => None,
        },
        PrimOp::INeg => match a {
            Some(SpecPrimVal::Int(x)) => Some(SpecPrimVal::Int((-x) as i64)),
            _ => None,
        },
        PrimOp::Not | PrimOp::BNot => match a {
            Some(SpecPrimVal::Bool(x)) => Some(SpecPrimVal::Bool(!x)),
            _ => None,
        },
        PrimOp::And | PrimOp::BAnd => match (a, b) {
            (Some(SpecPrimVal::Bool(x)), Some(SpecPrimVal::Bool(y))) => Some(SpecPrimVal::Bool(x && y)),
            _ => None,
        },
        PrimOp::Or | PrimOp::BOr => match (a, b) {
            (Some(SpecPrimVal::Bool(x)), Some(SpecPrimVal::Bool(y))) => Some(SpecPrimVal::Bool(x || y)),
            _ => None,
        },
        PrimOp::Chr => match a {
            Some(SpecPrimVal::Int(n)) => {
                let u = n as u32;
                if u <= 0x10FFFF && !(0xD800 <= u <= 0xDFFF) {
                    Some(SpecPrimVal::Char(u as char))
                } else {
                    None
                }
            },
            _ => None,
        },
        PrimOp::Ord | PrimOp::CHash => match a {
            Some(SpecPrimVal::Char(c)) => Some(SpecPrimVal::Int(c as i64)),
            _ => None,
        },
        PrimOp::IntToString => match a {
            Some(SpecPrimVal::Int(n)) => Some(SpecPrimVal::Str(int_decimal(n as int))),
            _ => None,
        },
        PrimOp::CharToString => match a {
            Some(SpecPrimVal::Char(c)) => Some(SpecPrimVal::Str(seq![c])),
            _ => None,
        },
        PrimOp::IHash => match a {
            Some(SpecPrimVal::Int(x)) => Some(SpecPrimVal::Int(x)),
            _ => None,
        },
        PrimOp::CEq => match (a, b) {
            (Some(SpecPrimVal::Char(x)), Some(SpecPrimVal::Char(y))) => Some(SpecPrimVal::Bool(x == y)),
            _ => None,
        },
        PrimOp::COrd => match a {
            Some(SpecPrimVal::Char(c)) => Some(SpecPrimVal::Int(if (c as int) > 0 { 1 } else { 0 })),
            _ => None,
        },
        PrimOp::BEq => match (a, b) {
            (Some(SpecPrimVal::Bool(x)), Some(SpecPrimVal::Bool(y))) => Some(SpecPrimVal::Bool(x == y)),
            _ => None,
        },
        PrimOp::BHash => match a {
            Some(SpecPrimVal::Bool(x)) => Some(SpecPrimVal::Int(if x { 1 } else { 0 })),
            _ => None,
        },
        _ => None,
    }
}

/// The views of a list of values.
pub open spec fn values_view(args: Seq<PrimVal>) -> Seq<SpecPrimVal> {
    args.map_values(|v: PrimVal| v@)
}

fn ok_of(v: PrimVal) -> (r: PrimVal)
    ensures
        r@ == ok_value(v@),
{
    let mut args = Vec::new();
    args.push(v);
    let n = crate::text::owned("Ok");
    proof {
        lemma_constructor_value_view(n, args);
    }
    let r = PrimVal::Constructor(n, args);
    assert(r@->Constructor_1 =~= seq![v@]);
    assert(r@ == SpecPrimVal::Constructor(r@->Constructor_0, r@->Constructor_1));
    r
}

fn division_by_zero_value() -> (r: PrimVal)
    ensures
        r@ == division_by_zero(),
{
    let n = crate::text::owned("DivisionByZero");
    let empty: Vec<PrimVal> = Vec::new();
    proof {
        lemma_constructor_value_view(n, empty);
    }
    let inner = PrimVal::Constructor(n, empty);
    assert(inner@->Constructor_1 =~= Seq::<SpecPrimVal>::empty());
    assert(inner@ == SpecPrimVal::Constructor(inner@->Constructor_0, inner@->Constructor_1));
    let mut args = Vec::new();
    args.push(inner);
    let e = crate::text::owned("Err");
    proof {
        lemma_constructor_value_view(e, args);
    }
    let r = PrimVal::Constructor(e, args);
    assert(r@->Constructor_1 =~= seq![inner@]);
    assert(r@ == SpecPrimVal::Constructor(r@->Constructor_0, r@->Constructor_1));
    r
}

impl PrimOp {
    /// Applies an operation on integers, booleans or characters. The
    /// floating-point operations are evaluated outside this crate.
    pub fn apply(&self, args: &[PrimVal]) -> (r: Option<PrimVal>)
        requires
            !self.spec_is_float_op(),
            !apply_panics(*self, values_view(args@)),
        ensures
            r matches Some(v) ==> spec_apply(*self, values_view(args@)) == Some(v@),
            r is None ==> spec_apply(*self, values_view(args@)) is None,
    {
        let ghost va = values_view(args@);
        let a: Option<&PrimVal> = if args.len() > 0 { Some(&args[0]) } else { None };
        let b: Option<&PrimVal> = if args.len() > 1 { Some(&args[1]) } else { None };
        assert(a matches Some(x) ==> arg(va, 0) == Some(x@));
        assert(a is None ==> arg(va, 0) is None);
        assert(b matches Some(x) ==> arg(va, 1) == Some(x@));
        assert(b is None ==> arg(va, 1) is None);
        match self {
            PrimOp::IEq => match (a, b) {
                (Some(PrimVal::Int(x)), Some(PrimVal::Int(y))) => Some(PrimVal::Bool(*x == *y)),
                _ => None,
            },
            PrimOp::IFEq => match (a, b) {
                (Some(PrimVal::Int(x)), Some(PrimVal::Int(y))) => Some(PrimVal::Int(if *x == *y { 1 } else { 0 })),
                _ => None,
            },
            PrimOp::IGt => match (a, b) {
                (Some(PrimVal::Int(x)), Some(PrimVal::Int(y))) => Some(PrimVal::Bool(*x > *y)),
                _ => None,
            },
            PrimOp::IGe => match (a, b) {
                (Some(PrimVal::Int(x)), Some(PrimVal::Int(y))) => Some(PrimVal::Bool(*x >= *y)),
                _ => None,
            },
            PrimOp::ILt => match (a, b) {
                (Some(PrimVal::Int(x)), Some(PrimVal::Int(y))) => Some(PrimVal::Bool(*x < *y)),
                _ => None,
            },
            PrimOp::ILe => match (a, b) {
                (Some(PrimVal::Int(x)), Some(PrimVal::Int(y))) => Some(PrimVal::Bool(*x <= *y)),
                _ => None,
            },
            PrimOp::IAdd => match (a, b) {
                (Some(PrimVal::Int(x)), Some(PrimVal::Int(y))) => match x.checked_add(*y) {
                    Some(z) => Some(PrimVal::Int(z)),
                    None => None,
                },
                _ => None,
            },
            PrimOp::ISub => match (a, b) {
                (Some(PrimVal::Int(x)), Some(PrimVal::Int(y))) => match x.checked_sub(*y) {
                    Some(z) => Some(PrimVal::Int(z)),
                    None => None,
                },
                _ => None,
            },
            PrimOp::IMul => match (a, b) {
                (Some(PrimVal::Int(x)), Some(PrimVal::Int(y))) => match x.checked_mul(*y) {
                    Some(z) => Some(PrimVal::Int(z)),
                    None => None,
                },
                _ => None,
            },
            PrimOp::IDiv => match (a, b) {
                (Some(PrimVal::Int(x)), Some(PrimVal::Int(y))) => {
                    if *y == 0 {
                        Some(division_by_zero_value())
                    } else {
                        let (q, _) = div_trunc(*x, *y);
                        Some(ok_of(PrimVal::Int(q)))
                    }
                },
                _ => None,
            },
            PrimOp::IRem => match (a, b) {
                (Some(PrimVal::Int(x)), Some(PrimVal::Int(y))) => {
                    if *y == 0 {
                        Some(division_by_zero_value())
                    } else {
                        let (_, m) = div_trunc(*x, *y);
                        Some(ok_of(PrimVal::Int(m)))
                    }
                },
                _ => None,
            },
            PrimOp::INeg => match a {
                Some(PrimVal::Int(x)) => Some(PrimVal::Int(-*x)),
                _ => None,
            },
            PrimOp::Not | PrimOp::BNot => match a {
                Some(PrimVal::Bool(x)) => Some(PrimVal::Bool(!*x)),
                _ => None,
            },
            PrimOp::And | PrimOp::BAnd => match (a, b) {
                (Some(PrimVal::Bool(x)), Some(PrimVal::Bool(y))) => Some(PrimVal::Bool(*x && *y)),
                _ => None,
            },
            PrimOp::Or | PrimOp::BOr => match (a, b) {
                (Some(PrimVal::Bool(x)), Some(PrimVal::Bool(y))) => Some(PrimVal::Bool(*x || *y)),
                _ => None,
            },
            PrimOp::Chr => match a {
                Some(PrimVal::Int(n)) => match char_from_u32(#[verifier::truncate] (*n as u32)) {
                    Some(c) => Some(PrimVal::Char(c)),
                    None => None,
                },
                _ => None,
            },
            PrimOp::Ord | PrimOp::CHash => match a {
                Some(PrimVal::Char(c)) => Some(PrimVal::Int(*c as i64)),
                _ => None,
            },
            PrimOp::IntToString => match a {
                Some(PrimVal::Int(n)) => Some(PrimVal::String(int_to_decimal(*n))),
                _ => None,
            },
            PrimOp::CharToString => match a {
                Some(PrimVal::Char(c)) => {
                    let mut v = Vec::new();
                    v.push(*c);
                    let s = string_of(&v);
                    assert(v@ =~= seq![*c]);
                    Some(PrimVal::String(s))
                },
                _ => None,
            },
            PrimOp::IHash => match a {
                Some(PrimVal::Int(x)) => Some(PrimVal::Int(*x)),
                _ => None,
            },
            PrimOp::CEq => match (a, b) {
                (Some(PrimVal::Char(x)), Some(PrimVal::Char(y))) => Some(PrimVal::Bool(*x == *y)),
                _ => None,
            },
            PrimOp::COrd => match a {
                Some(PrimVal::Char(c)) => Some(PrimVal::Int(if (*c as i64) > 0 { 1 } else { 0 })),
                _ => None,
            },
            PrimOp::BEq => match (a, b) {
                (Some(PrimVal::Bool(x)), Some(PrimVal::Bool(y))) => Some(PrimVal::Bool(*x == *y)),
                _ => None,
            },
            PrimOp::BHash => match a {
                Some(PrimVal::Bool(x)) => Some(PrimVal::Int(if *x { 1 } else { 0 })),
                _ => None,
            },
            _ => None,
        }
    }
}

} // verus!
