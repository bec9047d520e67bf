//! The borrow checker walks a term with a stack of scopes, recording the
//! variables bound as borrows in each.
use vstd::prelude::*;

use crate::ast::patterns::Pattern;
use crate::ast::terms::{Arm, Term};
use crate::ast::types::Multiplicity;
use crate::text::str_eq;
use crate::typecheck::errors::TypeError;

verus! {

/// The names of the borrowed variables of each open scope, innermost last.
#[derive(Debug)]
pub struct BorrowChecker {
    scope_stack: Vec<Vec<String>>,
}

impl View for BorrowChecker {
    type V = Seq<Seq<Seq<char>>>;

    closed spec fn view(&self) -> Seq<Seq<Seq<char>>> {
        self.scope_stack@.map_values(|s: Vec<String>| s@.map_values(|n: String| n@))
    }
}

/// The variables a pattern binds, in order, all recorded as borrows when
/// `as_borrow` holds.
pub open spec fn pattern_borrows(p: crate::ast::patterns::SpecPattern, as_borrow: bool) -> Seq<Seq<char>> {
    if as_borrow {
        crate::ast::patterns::spec_bindings(p)
    } else {
        seq![]
    }
}

/// The stack with `names` appended to the innermost scope; a stack with no
/// open scope is left as it is.
pub open spec fn with_borrows(s: Seq<Seq<Seq<char>>>, names: Seq<Seq<char>>) -> Seq<Seq<Seq<char>>> {
    if s.len() > 0 {
        s.update(s.len() - 1, s.last() + names)
    } else {
        s
    }
}

/// Appending two lists of names one after the other appends their
/// concatenation.
proof fn lemma_with_borrows_twice(s: Seq<Seq<Seq<char>>>, a: Seq<Seq<char>>, b: Seq<Seq<char>>)
    ensures
        with_borrows(with_borrows(s, a), b) == with_borrows(s, a + b),
{
    if s.len() > 0 {
        assert(s.last() + a + b =~= s.last() + (a + b));
        assert(with_borrows(with_borrows(s, a), b) =~= with_borrows(s, a + b));
    }
}

impl BorrowChecker {
    /// A checker with no open scope.
    pub fn new() -> (r: BorrowChecker)
        ensures
            r@ == Seq::<Seq<Seq<char>>>::empty(),
    {
        let r = BorrowChecker { scope_stack: Vec::new() };
        assert(r@ =~= Seq::<Seq<Seq<char>>>::empty());
        r
    }

    /// Opens an empty scope.
    pub fn enter_scope(&mut self)
        ensures
            final(self)@ == old(self)@.push(Seq::<Seq<char>>::empty()),
    {
        let empty: Vec<String> = Vec::new();
        assert(empty@.map_values(|n: String| n@) =~= Seq::<Seq<char>>::empty());
        self.scope_stack.push(empty);
        assert(self@ =~= old(self)@.push(Seq::<Seq<char>>::empty()));
    }

    /// Closes the innermost scope, if one is open.
    pub fn exit_scope(&mut self) -> (r: Result<(), TypeError>)
        ensures
            r is Ok,
            old(self)@.len() > 0 ==> final(self)@ == old(self)@.drop_last(),
            old(self)@.len() == 0 ==> final(self)@ == old(self)@,
    {
        let _ = self.scope_stack.pop();
        assert(old(self)@.len() > 0 ==> self@ =~= old(self)@.drop_last());
        assert(old(self)@.len() == 0 ==> self@ =~= old(self)@);
        Ok(())
    }

    /// Records `var` as borrowed in the innermost scope, if one is open.
    pub fn add_borrow(&mut self, var: String)
        ensures
            old(self)@.len() > 0 ==> final(self)@ == old(self)@.update(
                old(self)@.len() - 1,
                old(self)@.last().push(var@),
            ),
            old(self)@.len() == 0 ==> final(self)@ == old(self)@,
    {
        let n = self.scope_stack.len();
        if n > 0 {
            let mut top: Vec<String> = Vec::new();
            std::mem::swap(&mut top, &mut self.scope_stack[n - 1]);
            let ghost t0 = top@;
            let ghost k = var@;
            top.push(var);
            self.scope_stack.set(n - 1, top);
            proof {
                assert(top@.map_values(|s: String| s@) =~= t0.map_values(|s: String| s@).push(k));
                assert(self@ =~= old(self)@.update(old(self)@.len() - 1, old(self)@.last().push(k)));
            }
        }
    }

    /// Whether some open scope records `var` as borrowed.
    pub fn is_borrow_in_scope(&self, var: &str) -> (r: bool)
        ensures
            r == exists|i: int| 0 <= i < self@.len() && (#[trigger] self@[i]).contains(var@),
    {
        let mut i: usize = 0;
        while i < self.scope_stack.len()
            invariant
                i <= self.scope_stack.len(),
                forall|k: int| 0 <= k < i ==> !(#[trigger] self@[k]).contains(var@),
            decreases self.scope_stack.len() - i,
        {
            let scope = &self.scope_stack[i];
            let mut j: usize = 0;
            while j < scope.len()
                invariant
                    j <= scope.len(),
                    i < self.scope_stack.len(),
                    *scope == self.scope_stack@[i as int],
                    forall|m: int| 0 <= m < j ==> scope@[m]@ != var@,
                decreases scope.len() - j,
            {
                if str_eq(scope[j].as_str(), var) {
                    assert(self@[i as int] == scope@.map_values(|n: String| n@));
                    assert(self@[i as int][j as int] == var@);
                    return true;
                }
                j += 1;
            }
            proof {
                assert(self@[i as int] == scope@.map_values(|n: String| n@));
                if self@[i as int].contains(var@) {
                    let m = choose|m: int| 0 <= m < self@[i as int].len() && self@[i as int][m] == var@;
                    assert(scope@[m]@ == var@);
                }
            }
            i += 1;
        }
        false
    }

    /// Records the pattern's variables, from left to right, as borrowed in
    /// the innermost scope when `as_borrow` holds; no pattern is rejected.
    fn add_pattern_binds(&mut self, pattern: &Pattern, as_borrow: bool) -> (r: Result<(), TypeError>)
        ensures
            r is Ok,
            final(self)@ == with_borrows(old(self)@, pattern_borrows(pattern@, as_borrow)),
        decreases pattern,
    {
        match pattern {
            Pattern::Wildcard => {
                assert(with_borrows(old(self)@, seq![]) =~= old(self)@);
                Ok(())
            },
            Pattern::Var(name) => {
                if as_borrow {
                    self.add_borrow(name.clone());
                    assert(old(self)@.len() > 0 ==> old(self)@.last().push(name@) =~= old(self)@.last() + seq![name@]);
                } else {
                    assert(with_borrows(old(self)@, seq![]) =~= old(self)@);
                }
                Ok(())
            },
            Pattern::Constructor(n, args) => {
                let ghost pv = pattern@->Constructor_1;
                proof {
                    crate::ast::patterns::lemma_constructor_view(*n, *args);
                    assert(with_borrows(old(self)@, seq![]) =~= old(self)@);
                }
                let ghost mut acc: Seq<Seq<char>> = seq![];
                let mut i: usize = 0;
                while i < args.len()
                    invariant
                        i <= args.len(),
                        *pattern == Pattern::Constructor(*n, *args),
                        pv.len() == args.len(),
                        forall|k: int| 0 <= k < args.len() ==> pv[k] == #[trigger] args@[k]@,
                        as_borrow ==> acc + crate::ast::patterns::bindings_from(pv, i as int)
                            == crate::ast::patterns::bindings_from(pv, 0),
                        !as_borrow ==> acc == Seq::<Seq<char>>::empty(),
                        self@ == with_borrows(old(self)@, acc),
                    decreases args.len() - i,
                {
                    proof {
                        broadcast use vstd::std_specs::vec::group_vec_axioms;
                        let p = *pattern;
                        assert(p is Constructor);
                        assert(decreases_to!(p => p->Constructor_1));
                        assert(p->Constructor_1 == *args);
                        assert(decreases_to!(*args => args@[i as int]));
                    }
                    let ghost before = self@;
                    let _ = self.add_pattern_binds(&args[i], as_borrow);
                    proof {
                        let pb = pattern_borrows(args@[i as int]@, as_borrow);
                        lemma_with_borrows_twice(old(self)@, acc, pb);
                        if as_borrow {
                            assert(crate::ast::patterns::bindings_from(pv, i as int)
                                == crate::ast::patterns::spec_bindings(pv[i as int])
                                + crate::ast::patterns::bindings_from(pv, i + 1));
                            assert(acc + pb + crate::ast::patterns::bindings_from(pv, i + 1)
                                =~= acc + crate::ast::patterns::bindings_from(pv, i as int));
                        } else {
                            assert(acc + pb =~= Seq::<Seq<char>>::empty());
                        }
                        acc = acc + pb;
                    }
                    i += 1;
                }
                proof {
                    if as_borrow {
                        assert(acc + crate::ast::patterns::bindings_from(pv, i as int) =~= acc);
                    }
                }
                Ok(())
            },
        }
    }

    /// Walks the arms of a match or view, each in a scope of its own.
    fn check_arms(&mut self, arms: &Vec<Arm>, as_borrow: bool) -> (r: Result<(), TypeError>)
        ensures
            r is Ok,
            final(self)@ == old(self)@,
        decreases arms, 0nat,
    {
        let mut i: usize = 0;
        while i < arms.len()
            invariant
                i <= arms.len(),
                self@ == old(self)@,
            decreases arms.len() - i,
        {
            proof {
                broadcast use vstd::std_specs::vec::group_vec_axioms;
                assert(decreases_to!(*arms => arms@[i as int]));
                assert(decreases_to!(arms@[i as int] => arms@[i as int].body));
            }
            self.enter_scope();
            let _ = self.add_pattern_binds(&arms[i].pattern, as_borrow);
            let _ = self.check_term(&arms[i].body);
            let _ = self.exit_scope();
            assert(self@ =~= old(self)@);
            i += 1;
        }
        Ok(())
    }

    /// Walks the terms of a list.
    fn check_list(&mut self, ts: &Vec<Term>) -> (r: Result<(), TypeError>)
        ensures
            r is Ok,
            final(self)@ == old(self)@,
        decreases ts, 0nat,
    {
        let mut i: usize = 0;
        while i < ts.len()
            invariant
                i <= ts.len(),
                self@ == old(self)@,
            decreases ts.len() - i,
        {
            proof {
                broadcast use vstd::std_specs::vec::group_vec_axioms;
                assert(decreases_to!(*ts => ts@[i as int]));
            }
            let _ = self.check_term(&ts[i]);
            i += 1;
        }
        Ok(())
    }

    /// Walks a term: binders open a scope, closed again afterwards, that
    /// records the variables they bind as borrows. No term is rejected, and
    /// the stack of scopes is left as it was.
    fn check_term(&mut self, term: &Term) -> (r: Result<(), TypeError>)
        ensures
            r is Ok,
            final(self)@ == old(self)@,
        decreases term, 1nat,
    {
        match term {
            Term::Var(_) => Ok(()),
            Term::Abs { var, multiplicity, body, .. } => {
                self.enter_scope();
                if *multiplicity == Multiplicity::Borrow {
                    self.add_borrow(var.clone());
                }
                let result = self.check_term(body);
                let _ = self.exit_scope();
                assert(self@ =~= old(self)@);
                result
            },
            Term::App { fun, arg } => {
                let _ = self.check_term(fun);
                let _ = self.check_term(arg);
                Ok(())
            },
            Term::Let { var, multiplicity, value, body, .. } => {
                let _ = self.check_term(value);
                self.enter_scope();
                if *multiplicity == Multiplicity::Borrow {
                    self.add_borrow(var.clone());
                }
                let result = self.check_term(body);
                let _ = self.exit_scope();
                assert(self@ =~= old(self)@);
                result
            },
            Term::Match { scrutinee, arms } => {
                let _ = self.check_term(scrutinee);
                self.check_arms(arms, false)
            },
            Term::View { scrutinee, arms } => {
                let _ = self.check_term(scrutinee);
                self.check_arms(arms, true)
            },
            Term::TraitMethod { arg, .. } => self.check_term(arg),
            Term::Constructor(_, args) => self.check_list(args),
            Term::NativeLiteral(_) => Ok(()),
            Term::PrimCall { args, .. } => self.check_list(args),
        }
    }

    /// Checks a term with a fresh checker; no term is rejected.
    pub fn check(&self, term: &Term) -> (r: Result<(), TypeError>)
        ensures
            r is Ok,
    {
        let mut checker = BorrowChecker::new();
        checker.check_term(term)
    }
}

} // verus!
