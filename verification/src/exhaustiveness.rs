//! The exhaustiveness check on the patterns of a match.
use vstd::prelude::*;

use crate::ast::patterns::{Pattern, SpecPattern};
use crate::ast::types::Type;
use crate::typecheck::errors::TypeError;

verus! {

/// A pattern that matches every value: a wildcard, or a constructor whose
/// arguments all are such patterns. A variable does not count.
pub open spec fn catches_all(p: SpecPattern) -> bool
    decreases p,
{
    match p {
        SpecPattern::Wildcard => true,
        SpecPattern::Var(_) => false,
        SpecPattern::Constructor(_, args) => forall|i: int| 0 <= i < args.len() ==> catches_all(#[trigger] args[i]),
    }
}

/// The definition of [`catches_all`] for a constructor pattern.
pub proof fn lemma_catches_all_constructor(n: Seq<char>, a: Seq<SpecPattern>)
    ensures
        catches_all(SpecPattern::Constructor(n, a)) == forall|i: int| 0 <= i < a.len() ==> catches_all(#[trigger] a[i]),
{
    broadcast use vstd::seq::group_seq_axioms;
    let c = SpecPattern::Constructor(n, a);
    assert(decreases_to!(c => c->Constructor_1));
}

/// The patterns of a list, by value.
pub open spec fn patterns_view(ps: Seq<Pattern>) -> Seq<SpecPattern> {
    ps.map_values(|p: Pattern| p@)
}

/// Decides whether the arms of a match cover every value.
#[derive(Debug, Clone, Copy)]
pub struct ExhaustivenessChecker;

impl ExhaustivenessChecker {
    pub fn new() -> (r: ExhaustivenessChecker) {
        ExhaustivenessChecker
    }

    /// Whether the pattern matches every value.
    pub fn is_wildcard_pattern(&self, pattern: &Pattern) -> (r: bool)
        ensures
            r == catches_all(pattern@),
        decreases pattern,
    {
        match pattern {
            Pattern::Wildcard => true,
            Pattern::Var(_) => false,
            Pattern::Constructor(n, args) => {
                proof {
                    crate::ast::patterns::lemma_constructor_view(*n, *args);
                    lemma_catches_all_constructor(n@, pattern@->Constructor_1);
                }
                let mut i: usize = 0;
                while i < args.len()
                    invariant
                        i <= args.len(),
                        *pattern == Pattern::Constructor(*n, *args),
                        forall|k: int| 0 <= k < i ==> catches_all(#[trigger] args@[k]@),
                    decreases args.len() - i,
                {
                    proof {
                        broadcast use vstd::std_specs::vec::group_vec_axioms;
                        let p = *pattern;
                        assert(decreases_to!(p => p->Constructor_1));
                        assert(p->Constructor_1 == *args);
                        assert(decreases_to!(*args => args@[i as int]));
                    }
                    if !self.is_wildcard_pattern(&args[i]) {
                        proof {
                            assert(pattern@->Constructor_1[i as int] == args@[i as int]@);
                        }
                        return false;
                    }
                    i += 1;
                }
                proof {
                    assert forall|k: int| 0 <= k < pattern@->Constructor_1.len() implies catches_all(
                        #[trigger] pattern@->Constructor_1[k],
                    ) by {
                        assert(pattern@->Constructor_1[k] == args@[k]@);
                    }
                }
                true
            },
        }
    }

    /// Whether some pattern matches every value; never an error.
    pub fn check(&self, ty: &Type, patterns: &[Pattern]) -> (r: Result<bool, TypeError>)
        ensures
            r matches Ok(b) && b == exists|i: int| 0 <= i < patterns@.len() && catches_all(#[trigger] patterns@[i]@),
    {
        if patterns.len() == 0 {
            return Ok(false);
        }
        let mut i: usize = 0;
        while i < patterns.len()
            invariant
                i <= patterns.len(),
                forall|k: int| 0 <= k < i ==> !catches_all(#[trigger] patterns@[k]@),
            decreases patterns.len() - i,
        {
            if self.is_wildcard_pattern(&patterns[i]) {
                return Ok(true);
            }
            i += 1;
        }
        Ok(false)
    }

    /// Fails unless some pattern matches every value.
    pub fn check_match(&self, scrutinee_ty: &Type, arms: &[Pattern]) -> (r: Result<(), TypeError>)
        ensures
            r is Ok <==> exists|i: int| 0 <= i < arms@.len() && catches_all(#[trigger] arms@[i]@),
            r matches Err(e) ==> e is NonExhaustivePattern,
    {
        let is_exhaustive = match self.check(scrutinee_ty, arms) {
            Ok(b) => b,
            Err(e) => {
                return Err(e);
            },
        };
        if !is_exhaustive {
            return Err(TypeError::NonExhaustivePattern);
        }
        Ok(())
    }
}

} // verus!
