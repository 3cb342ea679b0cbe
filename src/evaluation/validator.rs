use crate::evaluation::metrics::register_values;
use crate::model::encoder::{tokens_view, AssemblyToken, TokenType};
use crate::model::optimizer::TokenView;
use vstd::prelude::*;

verus! {

/// Heuristic checks of a rewrite.
pub struct OptimizationValidator {
    pub check_correctness: bool,
    pub check_performance: bool,
}

/// The outcome of [`OptimizationValidator::validate`]; a check that is switched off reports
/// `false`.
#[derive(Debug, Default)]
pub struct ValidationResult {
    pub semantically_equivalent: bool,
    pub performance_improved: bool,
}

/// Both sequences name the same set of registers, ignoring order and repetition.
pub open spec fn same_registers(original: Seq<TokenView>, optimized: Seq<TokenView>) -> bool {
    register_values(original) == register_values(optimized)
}

/// The register names of `tokens` as a list without repeats.
pub open spec fn lists_registers(regs: Seq<String>, toks: Seq<TokenView>) -> bool {
    forall|v: Seq<char>|
        #![trigger register_values(toks).contains(v)]
        register_values(toks).contains(v) <==> exists|k: int| 0 <= k < regs.len() && (#[trigger] regs[k])@ == v
}

fn contains_string(list: &Vec<String>, s: &String) -> (r: bool)
    ensures
        r == exists|k: int| 0 <= k < list@.len() && (#[trigger] list@[k])@ == s@,
{
    let mut k: usize = 0;
    while k < list.len()
        invariant
            k <= list@.len(),
            forall|m: int| 0 <= m < k ==> (#[trigger] list@[m])@ != s@,
        decreases list@.len() - k,
    {
        if list[k] == *s {
            return true;
        }
        k = k + 1;
    }
    false
}

impl OptimizationValidator {
    /// A validator with both checks switched on.
    pub fn new() -> (r: Self)
        ensures
            r.check_correctness,
            r.check_performance,
    {
        OptimizationValidator { check_correctness: true, check_performance: true }
    }

    /// Runs the enabled checks: equal register sets, and a token count that did not grow.
    pub fn validate(&self, original: &[AssemblyToken], optimized: &[AssemblyToken]) -> (r: ValidationResult)
        ensures
            r.semantically_equivalent == (self.check_correctness && same_registers(
                tokens_view(original@),
                tokens_view(optimized@),
            )),
            r.performance_improved == (self.check_performance && optimized@.len() <= original@.len()),
    {
        let mut result = ValidationResult { semantically_equivalent: false, performance_improved: false };
        if self.check_correctness {
            result.semantically_equivalent = self.check_semantic_equivalence(original, optimized);
        }
        if self.check_performance {
            result.performance_improved = self.check_performance_improvement(original, optimized);
        }
        result
    }

    fn check_semantic_equivalence(&self, original: &[AssemblyToken], optimized: &[AssemblyToken]) -> (r: bool)
        ensures
            r == same_registers(tokens_view(original@), tokens_view(optimized@)),
    {
        let original_regs = self.extract_registers(original);
        let optimized_regs = self.extract_registers(optimized);
        let ghost a = register_values(tokens_view(original@));
        let ghost b = register_values(tokens_view(optimized@));
        let mut i: usize = 0;
        while i < original_regs.len()
            invariant
                a == register_values(tokens_view(original@)),
                b == register_values(tokens_view(optimized@)),
                i <= original_regs@.len(),
                lists_registers(original_regs@, tokens_view(original@)),
                lists_registers(optimized_regs@, tokens_view(optimized@)),
                forall|k: int| 0 <= k < i ==> b.contains((#[trigger] original_regs@[k])@),
            decreases original_regs@.len() - i,
        {
            if !contains_string(&optimized_regs, &original_regs[i]) {
                assert(a.contains(original_regs@[i as int]@));
                assert(!b.contains(original_regs@[i as int]@));
                return false;
            }
            i = i + 1;
        }
        let mut j: usize = 0;
        while j < optimized_regs.len()
            invariant
                a == register_values(tokens_view(original@)),
                b == register_values(tokens_view(optimized@)),
                j <= optimized_regs@.len(),
                lists_registers(original_regs@, tokens_view(original@)),
                lists_registers(optimized_regs@, tokens_view(optimized@)),
                forall|k: int| 0 <= k < original_regs@.len() ==> b.contains((#[trigger] original_regs@[k])@),
                forall|k: int| 0 <= k < j ==> a.contains((#[trigger] optimized_regs@[k])@),
            decreases optimized_regs@.len() - j,
        {
            if !contains_string(&original_regs, &optimized_regs[j]) {
                assert(b.contains(optimized_regs@[j as int]@));
                assert(!a.contains(optimized_regs@[j as int]@));
                return false;
            }
            j = j + 1;
        }
        assert(a =~= b) by {
            assert forall|v: Seq<char>| a.contains(v) implies b.contains(v) by {
                let k = choose|k: int| 0 <= k < original_regs@.len() && (#[trigger] original_regs@[k])@ == v;
            }
            assert forall|v: Seq<char>| b.contains(v) implies a.contains(v) by {
                let k = choose|k: int| 0 <= k < optimized_regs@.len() && (#[trigger] optimized_regs@[k])@ == v;
            }
        }
        true
    }

    fn check_performance_improvement(&self, original: &[AssemblyToken], optimized: &[AssemblyToken]) -> (r: bool)
        ensures
            r == (optimized@.len() <= original@.len()),
    {
        optimized.len() <= original.len()
    }

    /// The register names of `tokens`, each once.
    fn extract_registers(&self, tokens: &[AssemblyToken]) -> (r: Vec<String>)
        ensures
            lists_registers(r@, tokens_view(tokens@)),
    {
        let ghost toks = tokens_view(tokens@);
        let mut regs: Vec<String> = Vec::new();
        let mut i: usize = 0;
        assert(toks.subrange(0, 0) =~= Seq::<TokenView>::empty());
        while i < tokens.len()
            invariant
                i <= toks.len(),
                toks == tokens_view(tokens@),
                lists_registers(regs@, toks.subrange(0, i as int)),
            decreases toks.len() - i,
        {
            let ghost prefix = toks.subrange(0, i + 1);
            let ghost prev = toks.subrange(0, i as int);
            assert(prefix.drop_last() =~= prev);
            let ghost old_regs = regs@;
            let ghost val = tokens[i as int].value@;
            if tokens[i].token_type == TokenType::Register {
                assert(register_values(prefix) == register_values(prev).insert(val));
                if !contains_string(&regs, &tokens[i].value) {
                    regs.push(tokens[i].value.clone());
                    assert(regs@[old_regs.len() as int]@ == val);
                    assert forall|v: Seq<char>| #![trigger register_values(prefix).contains(v)]
                        register_values(prefix).contains(v) <==> exists|k: int|
                        0 <= k < regs@.len() && (#[trigger] regs@[k])@ == v by {
                        if exists|k: int| 0 <= k < regs@.len() && (#[trigger] regs@[k])@ == v {
                            let k = choose|k: int| 0 <= k < regs@.len() && (#[trigger] regs@[k])@ == v;
                            if k < old_regs.len() {
                                assert(old_regs[k]@ == v);
                                assert(register_values(prev).contains(v));
                            }
                        }
                        if register_values(prev).contains(v) {
                            let k = choose|k: int| 0 <= k < old_regs.len() && (#[trigger] old_regs[k])@ == v;
                            assert(regs@[k]@ == v);
                        }
                    }
                } else {
                    assert forall|v: Seq<char>| #![trigger register_values(prefix).contains(v)]
                        register_values(prefix).contains(v) <==> exists|k: int|
                        0 <= k < regs@.len() && (#[trigger] regs@[k])@ == v by {
                        if v == val {
                            assert(register_values(prev).contains(v));
                        }
                    }
                }
            } else {
                assert(register_values(prefix) == register_values(prev));
            }
            i = i + 1;
        }
        assert(toks.subrange(0, toks.len() as int) =~= toks);
        regs
    }
}

} // verus!
