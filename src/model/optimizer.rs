use crate::model::encoder::{tokens_view, AssemblyToken, TokenType};
use vstd::prelude::*;

verus! {

/// Which rewrite passes run.
#[derive(Debug, Clone)]
pub struct OptimizationConfig {
    pub enable_peephole: bool,
    pub enable_register_allocation: bool,
    pub enable_dead_code_elimination: bool,
    pub vocab_size: i64,
}

impl Default for OptimizationConfig {
    fn default() -> (r: Self)
        ensures
            r.enable_peephole,
            r.enable_register_allocation,
            r.enable_dead_code_elimination,
            r.vocab_size == 1000,
    {
        OptimizationConfig {
            enable_peephole: true,
            enable_register_allocation: true,
            enable_dead_code_elimination: true,
            vocab_size: 1000,
        }
    }
}

/// An extra condition on the values of the tokens that a pattern's types matched.
pub enum ValuePredicate {
    /// No condition.
    Always,
    /// A three-token instruction whose mnemonic is the given text and whose two register
    /// operands are the same register.
    SelfMove(String),
}

/// A rewrite rule: a run of token types, what replaces the run, and a condition on values.
pub struct OptimizationPattern {
    pub pattern: Vec<TokenType>,
    pub replacement: Vec<AssemblyToken>,
    pub predicate: ValuePredicate,
}

/// The abstract token type.
pub type TokenView = (TokenType, Seq<char>);

/// The condition of `p` holds of the tokens from `i` on.
pub open spec fn predicate_holds(p: ValuePredicate, toks: Seq<TokenView>, i: int) -> bool {
    match p {
        ValuePredicate::Always => true,
        ValuePredicate::SelfMove(m) => i + 3 <= toks.len() && toks[i].1 == m@ && toks[i + 1].1
            == toks[i + 2].1,
    }
}

/// Pattern `p` matches the tokens from position `i` on: enough tokens are left, their types
/// equal the pattern's types position by position, and its value condition holds.
pub open spec fn pattern_matches(p: OptimizationPattern, toks: Seq<TokenView>, i: int) -> bool {
    &&& 0 <= i
    &&& i + p.pattern@.len() <= toks.len()
    &&& forall|k: int| 0 <= k < p.pattern@.len() ==> toks[i + k].0 == p.pattern@[k]
    &&& predicate_holds(p.predicate, toks, i)
}

/// The first pattern at index `k` or later that matches at position `i`.
pub open spec fn first_match(pats: Seq<OptimizationPattern>, toks: Seq<TokenView>, i: int, k: int) -> Option<int>
    decreases pats.len() - k,
{
    if k < 0 || k >= pats.len() {
        None
    } else if pattern_matches(pats[k], toks, i) {
        Some(k)
    } else {
        first_match(pats, toks, i, k + 1)
    }
}

/// The peephole pass over the tokens from position `i` on: at each position the first
/// matching pattern's replacement stands for the tokens it matched; where none matches,
/// the token is kept and the scan moves on by one.
pub open spec fn peephole_from(pats: Seq<OptimizationPattern>, toks: Seq<TokenView>, i: int) -> Seq<TokenView>
    decreases toks.len() - i,
{
    if i < 0 || i >= toks.len() {
        Seq::empty()
    } else {
        match first_match(pats, toks, i, 0) {
            Some(j) => if 0 <= j < pats.len() && pats[j].pattern@.len() > 0 && i + pats[j].pattern@.len()
                <= toks.len() {
                tokens_view(pats[j].replacement@) + peephole_from(pats, toks, i + pats[j].pattern@.len())
            } else {
                seq![toks[i]] + peephole_from(pats, toks, i + 1)
            },
            None => seq![toks[i]] + peephole_from(pats, toks, i + 1),
        }
    }
}

/// The peephole pass over a whole sequence.
pub open spec fn peephole(pats: Seq<OptimizationPattern>, toks: Seq<TokenView>) -> Seq<TokenView> {
    peephole_from(pats, toks, 0)
}

/// The tokens of `toks` that are not labels, in order.
pub open spec fn remove_labels(toks: Seq<TokenView>) -> Seq<TokenView>
    decreases toks.len(),
{
    if toks.len() == 0 {
        Seq::empty()
    } else if toks.last().0 == TokenType::Label {
        remove_labels(toks.drop_last())
    } else {
        remove_labels(toks.drop_last()).push(toks.last())
    }
}

/// The number of labels in `toks`.
pub open spec fn label_count(toks: Seq<TokenView>) -> nat
    decreases toks.len(),
{
    if toks.len() == 0 {
        0
    } else if toks.last().0 == TokenType::Label {
        label_count(toks.drop_last()) + 1
    } else {
        label_count(toks.drop_last())
    }
}

/// Every pattern matches at least one token.
pub open spec fn patterns_wf(pats: Seq<OptimizationPattern>) -> bool {
    forall|j: int| 0 <= j < pats.len() ==> (#[trigger] pats[j]).pattern@.len() > 0
}

/// The built-in table: one pattern, `mnemonic register register`, that deletes a `mov`
/// of a register to itself.
pub open spec fn is_default_table(pats: Seq<OptimizationPattern>) -> bool {
    &&& pats.len() == 1
    &&& pats[0].pattern@ == seq![TokenType::Mnemonic, TokenType::Register, TokenType::Register]
    &&& pats[0].replacement@.len() == 0
    &&& pats[0].predicate matches ValuePredicate::SelfMove(m) && m@ == "mov"@
}

/// A pattern-driven rewriter with a fixed table of patterns.
pub struct OptimizationModel {
    config: OptimizationConfig,
    patterns: Vec<OptimizationPattern>,
}

fn copy_tokens(tokens: &[AssemblyToken], out: &mut Vec<AssemblyToken>)
    ensures
        tokens_view(final(out)@) == tokens_view(old(out)@) + tokens_view(tokens@),
{
    let mut i: usize = 0;
    while i < tokens.len()
        invariant
            i <= tokens@.len(),
            tokens_view(out@) == tokens_view(old(out)@) + tokens_view(tokens@.subrange(0, i as int)),
        decreases tokens@.len() - i,
    {
        let ghost before = out@;
        let t = tokens[i].duplicate();
        out.push(t);
        assert(tokens@.subrange(0, i + 1) =~= tokens@.subrange(0, i as int).push(tokens@[i as int]));
        assert(tokens_view(tokens@.subrange(0, i + 1)) =~= tokens_view(tokens@.subrange(0, i as int)).push(t@));
        assert(tokens_view(out@) =~= tokens_view(before).push(t@));
        assert(tokens_view(out@) =~= tokens_view(old(out)@) + tokens_view(
            tokens@.subrange(0, i + 1),
        ));
        i = i + 1;
    }
    assert(tokens@.subrange(0, tokens@.len() as int) =~= tokens@);
}

impl OptimizationModel {
    /// The pattern table, in registration order.
    pub closed spec fn patterns(&self) -> Seq<OptimizationPattern> {
        self.patterns@
    }

    /// The configuration the model was made with.
    pub closed spec fn config(&self) -> OptimizationConfig {
        self.config
    }

    pub open spec fn wf(&self) -> bool {
        patterns_wf(self.patterns())
    }

    /// What `optimize` makes of `toks`: the peephole pass if enabled, then the dead-code
    /// pass if enabled.
    pub open spec fn optimized(&self, toks: Seq<TokenView>) -> Seq<TokenView> {
        let after_peephole = if self.config().enable_peephole {
            peephole(self.patterns(), toks)
        } else {
            toks
        };
        if self.config().enable_dead_code_elimination {
            remove_labels(after_peephole)
        } else {
            after_peephole
        }
    }

    pub fn new(config: OptimizationConfig) -> (r: Self)
        ensures
            r.wf(),
            r.config() == config,
            is_default_table(r.patterns()),
    {
        let patterns = Self::initialize_patterns();
        OptimizationModel { config, patterns }
    }

    fn initialize_patterns() -> (r: Vec<OptimizationPattern>)
        ensures
            patterns_wf(r@),
            is_default_table(r@),
    {
        let mut pattern: Vec<TokenType> = Vec::new();
        pattern.push(TokenType::Mnemonic);
        pattern.push(TokenType::Register);
        pattern.push(TokenType::Register);
        let mut patterns: Vec<OptimizationPattern> = Vec::new();
        patterns.push(
            OptimizationPattern {
                pattern,
                replacement: Vec::new(),
                predicate: ValuePredicate::SelfMove("mov".to_owned()),
            },
        );
        assert(patterns@[0].pattern@ =~= seq![
            TokenType::Mnemonic,
            TokenType::Register,
            TokenType::Register,
        ]);
        patterns
    }

    /// Runs the enabled passes over `input_tokens`: the peephole pass, then the dead-code pass.
    pub fn optimize(&self, input_tokens: &[AssemblyToken]) -> (r: Vec<AssemblyToken>)
        requires
            self.wf(),
        ensures
            tokens_view(r@) == self.optimized(tokens_view(input_tokens@)),
    {
        let mut optimized: Vec<AssemblyToken> = Vec::new();
        copy_tokens(input_tokens, &mut optimized);
        assert(tokens_view(optimized@) =~= tokens_view(input_tokens@));
        if self.config.enable_peephole {
            optimized = self.apply_peephole_optimizations(optimized);
        }
        if self.config.enable_dead_code_elimination {
            optimized = self.eliminate_dead_code(optimized);
        }
        optimized
    }

    /// Loads a saved model. The pattern table is built in, so nothing is read: this only
    /// fails, leaving the model as it was, when the model file does not exist.
    pub fn load(&mut self, file_exists: bool) -> (r: Result<(), String>)
        ensures
            final(self).patterns() == old(self).patterns(),
            final(self).config() == old(self).config(),
            r is Ok <==> file_exists,
            r matches Err(e) ==> e@ == "Model file not found"@,
    {
        if !file_exists {
            return Err("Model file not found".to_owned());
        }
        Ok(())
    }

    /// The peephole pass.
    fn apply_peephole_optimizations(&self, tokens: Vec<AssemblyToken>) -> (r: Vec<AssemblyToken>)
        requires
            self.wf(),
        ensures
            tokens_view(r@) == peephole(self.patterns(), tokens_view(tokens@)),
    {
        let ghost toks = tokens_view(tokens@);
        let ghost pats = self.patterns();
        let mut result: Vec<AssemblyToken> = Vec::new();
        let mut i: usize = 0;
        while i < tokens.len()
            invariant
                i <= tokens@.len(),
                toks == tokens_view(tokens@),
                pats == self.patterns(),
                patterns_wf(pats),
                tokens_view(result@) + peephole_from(pats, toks, i as int) == peephole(pats, toks),
            decreases tokens@.len() - i,
        {
            let ghost before = tokens_view(result@);
            match self.find_pattern(&tokens, i) {
                Some((j, new_tokens)) => {
                    assert(pats[j as int].pattern@.len() > 0);
                    copy_tokens(new_tokens.as_slice(), &mut result);
                    assert(tokens_view(result@) + peephole_from(
                        pats,
                        toks,
                        i + pats[j as int].pattern@.len(),
                    ) =~= before + peephole_from(pats, toks, i as int));
                    i = i + self.patterns[j].pattern.len();
                },
                None => {
                    result.push(tokens[i].duplicate());
                    assert(tokens_view(result@) =~= before.push(toks[i as int]));
                    assert(tokens_view(result@) + peephole_from(pats, toks, i + 1) =~= before
                        + peephole_from(pats, toks, i as int));
                    i = i + 1;
                },
            }
        }
        result
    }

    /// The first pattern, in registration order, that matches the tokens from `start` on,
    /// with a copy of its replacement.
    fn find_pattern(&self, tokens: &Vec<AssemblyToken>, start: usize) -> (r: Option<(usize, Vec<AssemblyToken>)>)
        requires
            self.wf(),
            start < tokens@.len(),
        ensures
            r is None ==> first_match(self.patterns(), tokens_view(tokens@), start as int, 0) is None,
            r matches Some((j, v)) ==> first_match(self.patterns(), tokens_view(tokens@), start as int, 0)
                == Some(j as int) && j < self.patterns().len() && start + self.patterns()[j as int].pattern@.len()
                <= tokens@.len() && tokens_view(v@) == tokens_view(self.patterns()[j as int].replacement@),
    {
        let ghost toks = tokens_view(tokens@);
        let ghost pats = self.patterns();
        let mut j: usize = 0;
        while j < self.patterns.len()
            invariant
                j <= pats.len(),
                start < tokens@.len(),
                toks == tokens_view(tokens@),
                pats == self.patterns(),
                first_match(pats, toks, start as int, 0) == first_match(pats, toks, start as int, j as int),
            decreases pats.len() - j,
        {
            match self.try_match_pattern(tokens, start, &self.patterns[j]) {
                Some(new_tokens) => {
                    return Some((j, new_tokens));
                },
                None => {},
            }
            j = j + 1;
        }
        None
    }

    /// The replacement of `pattern` if it matches the tokens from `start` on.
    fn try_match_pattern(&self, tokens: &Vec<AssemblyToken>, start: usize, pattern: &OptimizationPattern) -> (r:
        Option<Vec<AssemblyToken>>)
        requires
            start <= tokens@.len(),
        ensures
            r is Some <==> pattern_matches(*pattern, tokens_view(tokens@), start as int),
            r matches Some(v) ==> tokens_view(v@) == tokens_view(pattern.replacement@),
    {
        let ghost toks = tokens_view(tokens@);
        if tokens.len() - start < pattern.pattern.len() {
            return None;
        }
        let mut k: usize = 0;
        let n = tokens.len();
        while k < pattern.pattern.len()
            invariant
                n == tokens@.len(),
                start + pattern.pattern@.len() <= tokens@.len(),
                toks == tokens_view(tokens@),
                k <= pattern.pattern@.len(),
                forall|m: int| 0 <= m < k ==> toks[start + m].0 == pattern.pattern@[m],
            decreases pattern.pattern@.len() - k,
        {
            if tokens[start + k].token_type != pattern.pattern[k] {
                assert(toks[start + k].0 != pattern.pattern@[k as int]);
                return None;
            }
            k = k + 1;
        }
        match &pattern.predicate {
            ValuePredicate::Always => {},
            ValuePredicate::SelfMove(mnemonic) => {
                if tokens.len() - start < 3 {
                    return None;
                }
                if !(tokens[start].value == *mnemonic) || !(tokens[start + 1].value == tokens[start
                    + 2].value) {
                    return None;
                }
            },
        }
        let mut replacement: Vec<AssemblyToken> = Vec::new();
        copy_tokens(&pattern.replacement, &mut replacement);
        assert(tokens_view(replacement@) =~= tokens_view(pattern.replacement@));
        Some(replacement)
    }

    /// The dead-code pass: drops every label token and keeps the rest in order.
    fn eliminate_dead_code(&self, tokens: Vec<AssemblyToken>) -> (r: Vec<AssemblyToken>)
        ensures
            tokens_view(r@) == remove_labels(tokens_view(tokens@)),
    {
        let mut result: Vec<AssemblyToken> = Vec::new();
        let mut i: usize = 0;
        while i < tokens.len()
            invariant
                i <= tokens@.len(),
                tokens_view(result@) == remove_labels(tokens_view(tokens@.subrange(0, i as int))),
            decreases tokens@.len() - i,
        {
            let ghost prefix = tokens_view(tokens@.subrange(0, i + 1));
            assert(prefix.drop_last() =~= tokens_view(tokens@.subrange(0, i as int)));
            if tokens[i].token_type != TokenType::Label {
                result.push(tokens[i].duplicate());
                assert(tokens_view(result@) =~= remove_labels(prefix));
            }
            i = i + 1;
        }
        assert(tokens@.subrange(0, tokens@.len() as int) =~= tokens@);
        result
    }
}

/// The dead-code pass shortens a sequence by exactly its number of labels, and what remains
/// holds no label.
pub proof fn lemma_dead_code_removes_labels(toks: Seq<TokenView>)
    ensures
        remove_labels(toks).len() == toks.len() - label_count(toks),
        forall|k: int| 0 <= k < remove_labels(toks).len() ==> remove_labels(toks)[k].0 != TokenType::Label,
    decreases toks.len(),
{
    if toks.len() > 0 {
        lemma_dead_code_removes_labels(toks.drop_last());
    }
}

} // verus!
