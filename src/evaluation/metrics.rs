use crate::model::encoder::{tokens_view, AssemblyToken, TokenType};
use crate::model::optimizer::TokenView;
use crate::model::text::{chars_of, contains_chars, contains_text, lower_of, lowercase};
use vstd::prelude::*;

verus! {

/// A snapshot of the cost of one token sequence.
#[derive(Debug, Clone)]
pub struct PerformanceMetrics {
    /// Number of instructions (mnemonic tokens).
    pub instruction_count: usize,
    /// Sum of the estimated cycle costs of the mnemonics.
    pub estimated_cycles: u64,
    /// Memory tokens inside instructions that move data to or from memory.
    pub memory_ops: usize,
    /// Number of distinct registers named.
    pub register_pressure: usize,
    /// Number of tokens.
    pub code_size: usize,
    /// Measured running time in nanoseconds, when measured.
    pub execution_time: Option<u64>,
}

/// How execution time is measured.
#[derive(Debug, Clone)]
pub struct MetricsConfig {
    /// Number of runs to average over.
    pub benchmark_iterations: usize,
    /// Whether to measure execution time at all.
    pub measure_execution_time: bool,
    /// Scratch directory for the program to measure; `None` stands for a `neurassembly`
    /// directory inside the system's temporary directory.
    pub temp_dir: Option<String>,
}

impl Default for MetricsConfig {
    fn default() -> (r: Self)
        ensures
            r.benchmark_iterations == 100,
            r.measure_execution_time,
            r.temp_dir is None,
    {
        MetricsConfig { benchmark_iterations: 100, measure_execution_time: true, temp_dir: None }
    }
}

/// A percentage as the exact fraction `numerator / denominator`.
#[derive(Debug, Clone, Copy, PartialEq, Eq, Structural)]
pub struct Percentage {
    pub numerator: i128,
    pub denominator: u64,
}

/// The numerator of the relative change from `original` to `new`, in percent.
pub open spec fn change_numerator(original: int, new: int) -> int {
    if original == 0 {
        0
    } else {
        (original - new) * 100
    }
}

/// The denominator of the relative change from `original` to `new`.
pub open spec fn change_denominator(original: int) -> int {
    if original == 0 {
        1
    } else {
        original
    }
}

/// `p` is the relative change from `original` to `new`: `(original - new) / original * 100`,
/// or 0 when `original` is 0. Positive is a reduction.
pub open spec fn is_change(p: Percentage, original: int, new: int) -> bool {
    p.numerator == change_numerator(original, new) && p.denominator == change_denominator(original)
}

/// The relative change from `original` to `new` in percent: 0 when `original` is 0, else
/// `(original - new) / original * 100`.
pub fn percentage_change(original: u64, new: u64) -> (r: Percentage)
    ensures
        is_change(r, original as int, new as int),
        r.denominator > 0,
{
    if original == 0 {
        return Percentage { numerator: 0, denominator: 1 };
    }
    let difference = original as i128 - new as i128;
    Percentage { numerator: difference * 100, denominator: original }
}

/// Relative changes between two snapshots; positive values are reductions.
#[derive(Debug, Clone)]
pub struct MetricsComparison {
    pub instruction_reduction: Percentage,
    pub cycle_reduction: Percentage,
    pub memory_ops_reduction: Percentage,
    pub register_pressure_change: Percentage,
    pub code_size_reduction: Percentage,
    /// Present only when both snapshots carry a measured time.
    pub execution_time_reduction: Option<Percentage>,
}

/// The mean of `runs` timings that add up to `total_nanos`; `None` when there were no runs.
pub fn mean_run_time(total_nanos: u128, runs: usize) -> (r: Option<u128>)
    ensures
        r is None <==> runs == 0,
        r matches Some(m) ==> m == total_nanos / (runs as u128),
{
    if runs == 0 {
        None
    } else {
        Some(total_nanos / (runs as u128))
    }
}

/// The cycle-cost table: lowercase mnemonic and estimated cycles.
pub open spec fn cost_table() -> Seq<(Seq<char>, u64)> {
    seq![
        ("mov"@, 1u64), ("add"@, 1u64), ("sub"@, 1u64), ("inc"@, 1u64), ("dec"@, 1u64),
        ("and"@, 1u64), ("or"@, 1u64), ("xor"@, 1u64), ("not"@, 1u64),
        ("push"@, 3u64), ("pop"@, 3u64), ("load"@, 4u64), ("store"@, 4u64),
        ("jmp"@, 2u64), ("je"@, 2u64), ("jne"@, 2u64), ("call"@, 3u64), ("ret"@, 3u64),
        ("mul"@, 3u64), ("div"@, 15u64), ("idiv"@, 15u64),
        ("movaps"@, 1u64), ("addps"@, 3u64), ("mulps"@, 4u64),
    ]
}

/// The cost of the first entry of `table` for mnemonic `m`; 0 when none is.
pub open spec fn table_cost(table: Seq<(Seq<char>, u64)>, m: Seq<char>) -> u64
    decreases table.len(),
{
    if table.len() == 0 {
        0
    } else if table[0].0 == m {
        table[0].1
    } else {
        table_cost(table.drop_first(), m)
    }
}

/// An instruction with this lowercase mnemonic moves data to or from memory.
pub open spec fn is_memory_mnemonic(m: Seq<char>) -> bool {
    contains_text(m, "mov"@) || contains_text(m, "load"@) || contains_text(m, "store"@)
        || contains_text(m, "push"@) || contains_text(m, "pop"@)
}

/// Number of mnemonic tokens.
pub open spec fn mnemonic_count(toks: Seq<TokenView>) -> nat
    decreases toks.len(),
{
    if toks.len() == 0 {
        0
    } else {
        mnemonic_count(toks.drop_last()) + if toks.last().0 == TokenType::Mnemonic { 1nat } else { 0 }
    }
}

/// Sum of the table costs of the lowercased mnemonics.
pub open spec fn cycle_total(table: Seq<(Seq<char>, u64)>, toks: Seq<TokenView>) -> nat
    decreases toks.len(),
{
    if toks.len() == 0 {
        0
    } else {
        cycle_total(table, toks.drop_last()) + if toks.last().0 == TokenType::Mnemonic {
            table_cost(table, lower_of(toks.last().1)) as nat
        } else {
            0
        }
    }
}

/// The text of the last mnemonic token, if any.
pub open spec fn last_mnemonic(toks: Seq<TokenView>) -> Option<Seq<char>>
    decreases toks.len(),
{
    if toks.len() == 0 {
        None
    } else if toks.last().0 == TokenType::Mnemonic {
        Some(toks.last().1)
    } else {
        last_mnemonic(toks.drop_last())
    }
}

/// Number of memory tokens whose most recent mnemonic, lowercased, moves data to or from
/// memory.
pub open spec fn memory_op_count(toks: Seq<TokenView>) -> nat
    decreases toks.len(),
{
    if toks.len() == 0 {
        0
    } else {
        memory_op_count(toks.drop_last()) + if toks.last().0 == TokenType::Memory && (
        last_mnemonic(toks.drop_last()) matches Some(m) && is_memory_mnemonic(lower_of(m))) {
            1nat
        } else {
            0
        }
    }
}

/// The set of register names in `toks`.
pub open spec fn register_values(toks: Seq<TokenView>) -> Set<Seq<char>>
    decreases toks.len(),
{
    if toks.len() == 0 {
        Set::empty()
    } else if toks.last().0 == TokenType::Register {
        register_values(toks.drop_last()).insert(toks.last().1)
    } else {
        register_values(toks.drop_last())
    }
}

/// The register names in `toks`, in order of first appearance, without repeats.
pub open spec fn distinct_registers_wf(regs: Seq<String>, toks: Seq<TokenView>) -> bool {
    &&& regs.map_values(|s: String| s@).no_duplicates()
    &&& regs.map_values(|s: String| s@).to_set() == register_values(toks)
}

/// What `calculate_metrics` reports for `toks` with cost table `table`.
pub open spec fn metrics_of(m: PerformanceMetrics, table: Seq<(Seq<char>, u64)>, toks: Seq<TokenView>) -> bool {
    &&& m.instruction_count == mnemonic_count(toks)
    &&& m.estimated_cycles == cycle_total(table, toks)
    &&& m.memory_ops == memory_op_count(toks)
    &&& m.register_pressure == register_values(toks).len()
    &&& m.code_size == toks.len()
    &&& m.execution_time is None
}

/// What `compare_snapshots` reports for two snapshots.
pub open spec fn comparison_of(c: MetricsComparison, a: PerformanceMetrics, b: PerformanceMetrics) -> bool {
    &&& is_change(c.instruction_reduction, a.instruction_count as int, b.instruction_count as int)
    &&& is_change(c.cycle_reduction, a.estimated_cycles as int, b.estimated_cycles as int)
    &&& is_change(c.memory_ops_reduction, a.memory_ops as int, b.memory_ops as int)
    &&& is_change(c.register_pressure_change, a.register_pressure as int, b.register_pressure as int)
    &&& is_change(c.code_size_reduction, a.code_size as int, b.code_size as int)
    &&& (c.execution_time_reduction is Some <==> (a.execution_time is Some && b.execution_time is Some))
    &&& (c.execution_time_reduction matches Some(p) ==> is_change(
        p,
        a.execution_time->0 as int,
        b.execution_time->0 as int,
    ))
}

proof fn lemma_table_cost_bound(table: Seq<(Seq<char>, u64)>, m: Seq<char>)
    requires
        forall|k: int| 0 <= k < table.len() ==> (#[trigger] table[k]).1 <= 15,
    ensures
        table_cost(table, m) <= 15,
    decreases table.len(),
{
    if table.len() > 0 && table[0].0 != m {
        assert forall|k: int| 0 <= k < table.drop_first().len() implies (#[trigger] table.drop_first()[k]).1 <= 15 by {
            assert(table.drop_first()[k] == table[k + 1]);
        }
        lemma_table_cost_bound(table.drop_first(), m);
    }
}

proof fn lemma_bounds(table: Seq<(Seq<char>, u64)>, toks: Seq<TokenView>)
    requires
        forall|k: int| 0 <= k < table.len() ==> (#[trigger] table[k]).1 <= 15,
    ensures
        cycle_total(table, toks) <= 15 * toks.len(),
        mnemonic_count(toks) <= toks.len(),
        memory_op_count(toks) <= toks.len(),
    decreases toks.len(),
{
    if toks.len() > 0 {
        lemma_bounds(table, toks.drop_last());
        lemma_table_cost_bound(table, lower_of(toks.last().1));
    }
}

/// No slice of tokens is longer: a token takes 32 bytes and an allocation at most
/// `isize::MAX` bytes.
pub const MAX_TOKENS: u64 = 0x0400_0000_0000_0000;

/// Estimates the cost of token sequences.
pub struct PerformanceEvaluator {
    config: MetricsConfig,
    instruction_costs: Vec<(String, u64)>,
}

impl PerformanceEvaluator {
    /// The cost table, entry by entry.
    pub closed spec fn costs(&self) -> Seq<(Seq<char>, u64)> {
        self.instruction_costs@.map_values(|e: (String, u64)| (e.0@, e.1))
    }

    /// The configuration the evaluator was made with.
    pub closed spec fn config_spec(&self) -> MetricsConfig {
        self.config
    }

    pub open spec fn wf(&self) -> bool {
        self.costs() == cost_table()
    }

    pub fn new(config: MetricsConfig) -> (r: Self)
        ensures
            r.wf(),
            r.config_spec() == config,
    {
        let mut evaluator = PerformanceEvaluator { config, instruction_costs: Vec::new() };
        evaluator.initialize_instruction_costs();
        evaluator
    }

    /// The configuration the evaluator was made with.
    pub fn config(&self) -> (r: &MetricsConfig)
        ensures
            *r == self.config_spec(),
    {
        &self.config
    }

    fn add_cost(&mut self, mnemonic: &str, cost: u64)
        ensures
            final(self).costs() == old(self).costs().push((mnemonic@, cost)),
            final(self).config == old(self).config,
    {
        self.instruction_costs.push((mnemonic.to_owned(), cost));
        assert(self.costs() =~= old(self).costs().push((mnemonic@, cost)));
    }

    /// Fills the cycle-cost table.
    fn initialize_instruction_costs(&mut self)
        requires
            old(self).instruction_costs@.len() == 0,
        ensures
            final(self).wf(),
            final(self).config == old(self).config,
    {
        assert(self.costs() =~= Seq::<(Seq<char>, u64)>::empty());
        self.add_cost("mov", 1);
        self.add_cost("add", 1);
        self.add_cost("sub", 1);
        self.add_cost("inc", 1);
        self.add_cost("dec", 1);
        self.add_cost("and", 1);
        self.add_cost("or", 1);
        self.add_cost("xor", 1);
        self.add_cost("not", 1);
        self.add_cost("push", 3);
        self.add_cost("pop", 3);
        self.add_cost("load", 4);
        self.add_cost("store", 4);
        self.add_cost("jmp", 2);
        self.add_cost("je", 2);
        self.add_cost("jne", 2);
        self.add_cost("call", 3);
        self.add_cost("ret", 3);
        self.add_cost("mul", 3);
        self.add_cost("div", 15);
        self.add_cost("idiv", 15);
        self.add_cost("movaps", 1);
        self.add_cost("addps", 3);
        self.add_cost("mulps", 4);
        assert(self.costs() =~= cost_table());
    }

    /// How many runs to time: `None` when measuring is switched off.
    pub fn measurement_runs(&self) -> (r: Option<usize>)
        ensures
            r is None <==> !self.config_spec().measure_execution_time,
            r matches Some(n) ==> n == self.config_spec().benchmark_iterations,
    {
        if self.config.measure_execution_time {
            Some(self.config.benchmark_iterations)
        } else {
            None
        }
    }

    /// The table cost of lowercase mnemonic `m`.
    fn instruction_cost(&self, m: &String) -> (r: u64)
        ensures
            r == table_cost(self.costs(), m@),
    {
        let ghost table = self.costs();
        assert(table.subrange(0, table.len() as int) =~= table);
        let mut i: usize = 0;
        while i < self.instruction_costs.len()
            invariant
                i <= table.len(),
                table == self.costs(),
                table_cost(table, m@) == table_cost(table.subrange(i as int, table.len() as int), m@),
            decreases table.len() - i,
        {
            let ghost rest = table.subrange(i as int, table.len() as int);
            assert(rest.drop_first() =~= table.subrange(i + 1, table.len() as int));
            if self.instruction_costs[i].0 == *m {
                return self.instruction_costs[i].1;
            }
            i = i + 1;
        }
        0
    }

    /// Whether lowercase mnemonic `m` moves data to or from memory.
    fn is_memory_instruction(m: &String) -> (r: bool)
        ensures
            r == is_memory_mnemonic(m@),
    {
        let text = chars_of(m.as_str());
        contains_chars(&text, &chars_of("mov")) || contains_chars(&text, &chars_of("load"))
            || contains_chars(&text, &chars_of("store")) || contains_chars(&text, &chars_of("push"))
            || contains_chars(&text, &chars_of("pop"))
    }

    /// The metrics of `tokens`: instruction count, estimated cycles, memory operations,
    /// distinct registers and token count.
    pub fn calculate_metrics(&self, tokens: &[AssemblyToken]) -> (r: PerformanceMetrics)
        requires
            self.wf(),
            tokens@.len() <= MAX_TOKENS,
        ensures
            metrics_of(r, cost_table(), tokens_view(tokens@)),
    {
        let ghost toks = tokens_view(tokens@);
        let mut instruction_count: usize = 0;
        let mut estimated_cycles: u64 = 0;
        let mut memory_ops: usize = 0;
        let mut used_registers: Vec<String> = Vec::new();
        let mut in_memory_instruction = false;
        proof {
            assert(used_registers@.map_values(|s: String| s@) =~= Seq::<Seq<char>>::empty());
            assert(toks.subrange(0, 0) =~= Seq::<TokenView>::empty());
            assert(Seq::<Seq<char>>::empty().to_set() =~= Set::<Seq<char>>::empty());
        }
        let mut i: usize = 0;
        while i < tokens.len()
            invariant
                self.wf(),
                tokens@.len() <= MAX_TOKENS,
                toks == tokens_view(tokens@),
                i <= toks.len(),
                instruction_count == mnemonic_count(toks.subrange(0, i as int)),
                estimated_cycles == cycle_total(cost_table(), toks.subrange(0, i as int)),
                memory_ops == memory_op_count(toks.subrange(0, i as int)),
                distinct_registers_wf(used_registers@, toks.subrange(0, i as int)),
                in_memory_instruction == (last_mnemonic(toks.subrange(0, i as int)) matches Some(m)
                    && is_memory_mnemonic(lower_of(m))),
            decreases toks.len() - i,
        {
            let ghost prefix = toks.subrange(0, i + 1);
            proof {
                assert(prefix.drop_last() =~= toks.subrange(0, i as int));
                assert(forall|k: int| 0 <= k < cost_table().len() ==> (#[trigger] cost_table()[k]).1 <= 15);
                lemma_bounds(cost_table(), toks.subrange(0, i as int));
            }
            let token = &tokens[i];
            match token.token_type {
                TokenType::Mnemonic => {
                    instruction_count = instruction_count + 1;
                    let lower = lowercase(token.value.as_str());
                    proof {
                        lemma_table_cost_bound(cost_table(), lower@);
                    }
                    estimated_cycles = estimated_cycles + self.instruction_cost(&lower);
                    in_memory_instruction = Self::is_memory_instruction(&lower);
                },
                TokenType::Register => {
                    let ghost old_regs = used_registers@;
                    let mut k: usize = 0;
                    let mut seen = false;
                    while k < used_registers.len()
                        invariant
                            k <= used_registers@.len(),
                            seen == (exists|m: int| 0 <= m < k && used_registers@[m]@ == token.value@),
                        decreases used_registers@.len() - k,
                    {
                        if used_registers[k] == token.value {
                            seen = true;
                        }
                        k = k + 1;
                    }
                    let ghost old_view = used_registers@.map_values(|s: String| s@);
                    if !seen {
                        used_registers.push(token.value.clone());
                        proof {
                            let new_view = used_registers@.map_values(|s: String| s@);
                            assert(new_view =~= old_view.push(token.value@));
                            old_view.lemma_push_to_set_commute(token.value@);
                            assert(!old_view.contains(token.value@)) by {
                                if old_view.contains(token.value@) {
                                    let m = choose|m: int| 0 <= m < old_view.len() && old_view[m] == token.value@;
                                    assert(used_registers@[m]@ == token.value@);
                                }
                            }
                        }
                    } else {
                        proof {
                            let m = choose|m: int| 0 <= m < k && used_registers@[m]@ == token.value@;
                            assert(old_view[m] == token.value@);
                            assert(old_view.to_set().insert(token.value@) =~= old_view.to_set());
                        }
                    }
                },
                TokenType::Memory => {
                    if in_memory_instruction {
                        memory_ops = memory_ops + 1;
                    }
                },
                _ => {},
            }
            i = i + 1;
        }
        proof {
            assert(toks.subrange(0, toks.len() as int) =~= toks);
            used_registers@.map_values(|s: String| s@).unique_seq_to_set();
        }
        PerformanceMetrics {
            instruction_count,
            estimated_cycles,
            memory_ops,
            register_pressure: used_registers.len(),
            code_size: tokens.len(),
            execution_time: None,
        }
    }

    /// The relative change of each metric from `original` to `optimized`; the execution
    /// time's only when both carry one.
    pub fn compare_snapshots(original: &PerformanceMetrics, optimized: &PerformanceMetrics) -> (r: MetricsComparison)
        ensures
            comparison_of(r, *original, *optimized),
    {
        let execution_time_reduction = match (original.execution_time, optimized.execution_time) {
            (Some(a), Some(b)) => Some(percentage_change(a, b)),
            _ => None,
        };
        MetricsComparison {
            instruction_reduction: percentage_change(
                original.instruction_count as u64,
                optimized.instruction_count as u64,
            ),
            cycle_reduction: percentage_change(original.estimated_cycles, optimized.estimated_cycles),
            memory_ops_reduction: percentage_change(original.memory_ops as u64, optimized.memory_ops as u64),
            register_pressure_change: percentage_change(
                original.register_pressure as u64,
                optimized.register_pressure as u64,
            ),
            code_size_reduction: percentage_change(original.code_size as u64, optimized.code_size as u64),
            execution_time_reduction,
        }
    }

    /// Compares the metrics of an original sequence and its optimized form.
    pub fn compare_metrics(&self, original: &[AssemblyToken], optimized: &[AssemblyToken]) -> (r: MetricsComparison)
        requires
            self.wf(),
            original@.len() <= MAX_TOKENS,
            optimized@.len() <= MAX_TOKENS,
        ensures
            exists|a: PerformanceMetrics, b: PerformanceMetrics|
                metrics_of(a, cost_table(), tokens_view(original@)) && metrics_of(b, cost_table(), tokens_view(optimized@))
                && #[trigger] comparison_of(r, a, b),
    {
        let original_metrics = self.calculate_metrics(original);
        let optimized_metrics = self.calculate_metrics(optimized);
        let r = Self::compare_snapshots(&original_metrics, &optimized_metrics);
        assert(comparison_of(r, original_metrics, optimized_metrics));
        r
    }
}

/// How the change from `x` to `y` (as `p`) and the change from `y` to `x` (as `q`) relate:
/// when both values are nonzero the numerators are negations of each other, so a reduction
/// one way round is an increase the other way round; a change from 0 is 0; and for equal
/// values both changes are 0, each the negation of the other.
pub open spec fn swapped_changes(p: Percentage, q: Percentage, x: int, y: int) -> bool {
    &&& (x != 0 && y != 0 ==> p.numerator == -q.numerator)
    &&& (x == 0 ==> p.numerator == 0)
    &&& (x == y ==> p.numerator == 0 && q.numerator == 0)
}

/// Swapping the two snapshots of a comparison reverses every percentage field: each
/// numerator is negated where neither value is 0, a field whose first value is 0 stays 0,
/// and equal values give 0 both ways. The execution-time field is present in both or in
/// neither, and when present relates the same way.
pub proof fn lemma_compare_swapped(a: PerformanceMetrics, b: PerformanceMetrics, ab: MetricsComparison, ba: MetricsComparison)
    requires
        comparison_of(ab, a, b),
        comparison_of(ba, b, a),
    ensures
        swapped_changes(ab.instruction_reduction, ba.instruction_reduction, a.instruction_count as int, b.instruction_count as int),
        swapped_changes(ab.cycle_reduction, ba.cycle_reduction, a.estimated_cycles as int, b.estimated_cycles as int),
        swapped_changes(ab.memory_ops_reduction, ba.memory_ops_reduction, a.memory_ops as int, b.memory_ops as int),
        swapped_changes(ab.register_pressure_change, ba.register_pressure_change, a.register_pressure as int, b.register_pressure as int),
        swapped_changes(ab.code_size_reduction, ba.code_size_reduction, a.code_size as int, b.code_size as int),
        ab.execution_time_reduction is Some <==> ba.execution_time_reduction is Some,
        ab.execution_time_reduction is Some ==> swapped_changes(
            ab.execution_time_reduction->0,
            ba.execution_time_reduction->0,
            a.execution_time->0 as int,
            b.execution_time->0 as int,
        ),
{
}

} // verus!
