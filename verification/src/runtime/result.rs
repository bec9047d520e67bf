//! What evaluation leaves as its result: the first node of the net that
//! holds a value.
use vstd::prelude::*;

use crate::parser::lexer::{decimal_value, is_digit, lemma_decimal_monotone, lemma_decimal_nonneg};
use crate::runtime::net::{Agent, AgentView, Net, NetView, NodeId};
use crate::runtime::primitives::{PrimVal, SpecPrimVal};
use crate::text::{chars_of, str_eq};

verus! {

/// The value of a string read as a decimal `i64`, as `str::parse::<i64>`
/// reads it: an optional `+` or `-`, then at least one digit and nothing
/// else, within the range of `i64`.
pub open spec fn int_of(s: Seq<char>) -> Option<i64> {
    let digits = unsigned_part(s);
    if digits.len() == 0 || !all_digits(digits) {
        None
    } else {
        let n = if s.len() > 0 && s[0] == '-' { -decimal_value(digits) } else { decimal_value(digits) };
        if i64::MIN <= n <= i64::MAX {
            Some(n as i64)
        } else {
            None
        }
    }
}

/// A string without its leading sign, if it has one.
pub open spec fn unsigned_part(s: Seq<char>) -> Seq<char> {
    if s.len() > 0 && (s[0] == '-' || s[0] == '+') { s.drop_first() } else { s }
}

pub open spec fn all_digits(d: Seq<char>) -> bool {
    forall|i: int| 0 <= i < d.len() ==> is_digit(#[trigger] d[i])
}

/// Reads a string as a decimal `i64`; see [`int_of`].
pub fn parse_int(s: &str) -> (r: Option<i64>)
    ensures
        r == int_of(s@),
{
    let cs = chars_of(s);
    let signed = cs.len() > 0 && (cs[0] == '-' || cs[0] == '+');
    let negative = signed && cs[0] == '-';
    let start: usize = if signed { 1 } else { 0 };
    let ghost digits = if signed { s@.drop_first() } else { s@ };
    assert(digits =~= cs@.skip(start as int));
    if cs.len() == start {
        return None;
    }
    let mut i: usize = start;
    while i < cs.len()
        invariant
            cs@ == s@,
            signed == (s@.len() > 0 && (s@[0] == '-' || s@[0] == '+')),
            negative == (signed && s@[0] == '-'),
            start == (if signed { 1usize } else { 0usize }),
            digits == (if signed { s@.drop_first() } else { s@ }),
            start <= i <= cs.len(),
            digits =~= cs@.skip(start as int),
            forall|k: int| start <= k < i ==> is_digit(#[trigger] cs@[k]),
        decreases cs.len() - i,
    {
        if !('0' <= cs[i] && cs[i] <= '9') {
            assert(digits.len() == cs.len() - start);
            assert(digits[i - start] == cs@[i as int]);
            assert(!is_digit(digits[i - start]));
            assert(digits.len() > 0);
            assert(!all_digits(digits));
            return None;
        }
        i += 1;
    }
    assert(forall|k: int| 0 <= k < digits.len() ==> is_digit(#[trigger] digits[k])) by {
        assert forall|k: int| 0 <= k < digits.len() implies is_digit(#[trigger] digits[k]) by {
            assert(digits[k] == cs@[start + k]);
        }
    }
    // the magnitude, while it stays within 2^63
    let limit: u64 = 9223372036854775808u64;
    let mut acc: u64 = 0;
    let mut j: usize = start;
    while j < cs.len()
        invariant
            cs@ == s@,
            signed == (s@.len() > 0 && (s@[0] == '-' || s@[0] == '+')),
            negative == (signed && s@[0] == '-'),
            start == (if signed { 1usize } else { 0usize }),
            digits == (if signed { s@.drop_first() } else { s@ }),
            start <= j <= cs.len(),
            digits =~= cs@.skip(start as int),
            forall|k: int| 0 <= k < digits.len() ==> is_digit(#[trigger] digits[k]),
            acc == decimal_value(digits.take(j - start)),
            acc <= limit,
            limit == 9223372036854775808u64,
        decreases cs.len() - j,
    {
        assert(digits[j - start] == cs@[j as int]);
        assert(is_digit(digits[j - start]));
        let d: u64 = (cs[j] as u32 - '0' as u32) as u64;
        assert(d <= 9);
        assert(digits.take(j - start + 1).drop_last() =~= digits.take(j - start));
        if acc > (limit - d) / 10 {
            proof {
                assert(acc * 10 + d > limit) by (nonlinear_arith)
                    requires acc > (limit - d) / 10, d <= 9, limit > 9;
                lemma_decimal_monotone(digits, j - start + 1);
            }
            return None;
        }
        assert(acc * 10 + d <= limit) by (nonlinear_arith)
            requires acc <= (limit - d) / 10, d <= 9;
        acc = acc * 10 + d;
        j += 1;
    }
    assert(digits.take(digits.len() as int) =~= digits);
    if negative {
        if acc == limit {
            Some(i64::MIN)
        } else {
            Some(-(acc as i64))
        }
    } else {
        if acc == limit {
            None
        } else {
            Some(acc as i64)
        }
    }
}

/// What a net's result is read as: unit, a value, or an integer or boolean
/// named by a constructor.
#[derive(Debug)]
pub enum Extracted {
    Unit,
    Value(PrimVal),
    Int(i64),
    Bool(bool),
}

pub enum ExtractedView {
    Unit,
    Value(SpecPrimVal),
    Int(i64),
    Bool(bool),
}

impl View for Extracted {
    type V = ExtractedView;

    open spec fn view(&self) -> ExtractedView {
        match self {
            Extracted::Unit => ExtractedView::Unit,
            Extracted::Value(v) => ExtractedView::Value(v@),
            Extracted::Int(n) => ExtractedView::Int(*n),
            Extracted::Bool(b) => ExtractedView::Bool(*b),
        }
    }
}

/// The result read from the nodes from the `i`-th on: the first value that
/// is not a string, or the first constructor named `()` or `Unit`, or by an
/// integer numeral, or by `true` or `false`.
pub open spec fn extract_from(v: NetView, i: nat) -> Option<ExtractedView>
    decreases v.nodes.len() - i,
{
    if i >= v.nodes.len() {
        None
    } else {
        match v.nodes[i as int].agent {
            AgentView::PrimVal(x) => if x is Str {
                extract_from(v, i + 1)
            } else {
                Some(ExtractedView::Value(x))
            },
            AgentView::Constructor(n) => if n == "()"@ || n == "Unit"@ {
                Some(ExtractedView::Unit)
            } else {
                match int_of(n) {
                    Some(k) => Some(ExtractedView::Int(k)),
                    None => if n == "true"@ {
                        Some(ExtractedView::Bool(true))
                    } else if n == "false"@ {
                        Some(ExtractedView::Bool(false))
                    } else {
                        extract_from(v, i + 1)
                    },
                }
            },
            _ => extract_from(v, i + 1),
        }
    }
}

/// The result of a net: unit for an empty net, else see [`extract_from`].
pub open spec fn extracted(v: NetView) -> Option<ExtractedView> {
    if v.nodes.len() == 0 && v.wires.len() == 0 {
        Some(ExtractedView::Unit)
    } else {
        extract_from(v, 0)
    }
}

/// Reads the result of an evaluated net.
pub fn extract_result(net: &Net) -> (r: Option<Extracted>)
    ensures
        r matches Some(e) ==> extracted(net@) == Some(e@),
        r is None ==> extracted(net@) is None,
{
    if net.is_empty() {
        return Some(Extracted::Unit);
    }
    let n = net.nodes().len();
    let mut i: usize = 0;
    while i < n
        invariant
            n == net@.nodes.len(),
            i <= n,
            extracted(net@) == extract_from(net@, i as nat),
        decreases n - i,
    {
        match net.get_node(NodeId(i)) {
            Some(node) => match &node.agent {
                Agent::PrimVal(PrimVal::String(_)) => {},
                Agent::PrimVal(x) => return Some(Extracted::Value(x.clone())),
                Agent::Constructor(name) => {
                    if str_eq(name.as_str(), "()") || str_eq(name.as_str(), "Unit") {
                        return Some(Extracted::Unit);
                    }
                    match parse_int(name.as_str()) {
                        Some(k) => return Some(Extracted::Int(k)),
                        None => {},
                    }
                    if str_eq(name.as_str(), "true") {
                        return Some(Extracted::Bool(true));
                    }
                    if str_eq(name.as_str(), "false") {
                        return Some(Extracted::Bool(false));
                    }
                },
                _ => {},
            },
            None => {},
        }
        i += 1;
    }
    None
}

} // verus!
