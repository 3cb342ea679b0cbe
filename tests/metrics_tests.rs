use neurassembly::evaluation::metrics::{
    mean_run_time, percentage_change, MetricsConfig, Percentage, PerformanceEvaluator, PerformanceMetrics,
};
use neurassembly::model::encoder::{AssemblyEncoder, AssemblyToken, TokenType};

// mov rax, rbx / add rax, 1 / push rax
const MOV_ADD_PUSH: [u8; 8] = [0x48, 0x89, 0xd8, 0x48, 0x83, 0xc0, 0x01, 0x50];

fn value(p: Percentage) -> f64 {
    p.numerator as f64 / p.denominator as f64
}

fn token(token_type: TokenType, value: &str) -> AssemblyToken {
    AssemblyToken { token_type, value: value.to_string() }
}

#[test]
fn test_metrics_calculation() {
    let encoder = AssemblyEncoder::new();
    let evaluator = PerformanceEvaluator::new(MetricsConfig::default());

    let tokens = encoder.decode(&MOV_ADD_PUSH);

    let metrics = evaluator.calculate_metrics(&tokens);

    assert_eq!(metrics.instruction_count, 3);
    assert!(metrics.estimated_cycles > 0);
    assert_eq!(metrics.estimated_cycles, 5);
    // `push rax` has no memory operand, so no memory token is counted
    assert_eq!(metrics.memory_ops, 0);
    assert!(metrics.register_pressure > 0);
    assert_eq!(metrics.code_size, tokens.len());
}

#[test]
fn test_metrics_comparison() {
    let encoder = AssemblyEncoder::new();
    let evaluator = PerformanceEvaluator::new(MetricsConfig::default());

    // mov rax, 0 / add rax, 1
    let original_tokens =
        encoder.decode(&[0x48, 0xc7, 0xc0, 0, 0, 0, 0, 0x48, 0x83, 0xc0, 0x01]);
    // mov rax, 0 / inc rax
    let optimized_tokens = encoder.decode(&[0x48, 0xc7, 0xc0, 0, 0, 0, 0, 0x48, 0xff, 0xc0]);

    let comparison = evaluator.compare_metrics(&original_tokens, &optimized_tokens);

    assert!(value(comparison.instruction_reduction) >= 0.0);
    assert!(value(comparison.cycle_reduction) >= 0.0);
    assert!(comparison.execution_time_reduction.is_none());
}

#[test]
fn test_memory_operations_counting() {
    let encoder = AssemblyEncoder::new();
    let evaluator = PerformanceEvaluator::new(MetricsConfig::default());

    // mov rax, [rbx] / push rax / pop rcx / mov [rdx], rax
    let tokens = encoder.decode(&[0x48, 0x8b, 0x03, 0x50, 0x59, 0x48, 0x89, 0x02]);

    let metrics = evaluator.calculate_metrics(&tokens);

    assert_eq!(metrics.memory_ops, 4);
}

#[test]
fn test_register_pressure() {
    let encoder = AssemblyEncoder::new();
    let evaluator = PerformanceEvaluator::new(MetricsConfig::default());

    // mov rax, rbx / mov rcx, rdx / add rax, rcx
    let tokens = encoder.decode(&[0x48, 0x89, 0xd8, 0x48, 0x89, 0xd1, 0x48, 0x01, 0xc8]);

    let metrics = evaluator.calculate_metrics(&tokens);

    assert_eq!(metrics.register_pressure, 4);
}

#[test]
fn mnemonics_are_costed_case_insensitively() {
    let evaluator = PerformanceEvaluator::new(MetricsConfig::default());
    let tokens = vec![
        token(TokenType::Mnemonic, "MOV"),
        token(TokenType::Register, "rax"),
        token(TokenType::Mnemonic, "Div"),
        token(TokenType::Register, "rcx"),
        token(TokenType::Mnemonic, "nop"),
        token(TokenType::Mnemonic, "PUSHFQ"),
        token(TokenType::Memory, "["),
        token(TokenType::Register, "rax"),
        token(TokenType::Memory, "]"),
        token(TokenType::Label, "start"),
    ];
    let metrics = evaluator.calculate_metrics(&tokens);
    assert_eq!(metrics.instruction_count, 4);
    // mov 1 + div 15; nop and pushfq are not in the table
    assert_eq!(metrics.estimated_cycles, 16);
    // both brackets count: "pushfq" contains "push"
    assert_eq!(metrics.memory_ops, 2);
    assert_eq!(metrics.register_pressure, 2);
    assert_eq!(metrics.code_size, 10);
    assert!(metrics.execution_time.is_none());
}

#[test]
fn memory_tokens_outside_data_moves_are_not_counted() {
    let evaluator = PerformanceEvaluator::new(MetricsConfig::default());
    let tokens = vec![
        token(TokenType::Memory, "["),
        token(TokenType::Mnemonic, "add"),
        token(TokenType::Memory, "["),
        token(TokenType::Memory, "]"),
    ];
    let metrics = evaluator.calculate_metrics(&tokens);
    assert_eq!(metrics.memory_ops, 0);
    assert_eq!(evaluator.calculate_metrics(&[]).code_size, 0);
}

#[test]
fn percentage_change_values() {
    let zero = percentage_change(0, 7);
    assert_eq!(value(zero), 0.0);
    assert_eq!(value(percentage_change(0, 0)), 0.0);
    assert_eq!(value(percentage_change(10, 5)), 50.0);
    assert_eq!(value(percentage_change(10, 20)), -100.0);
    assert_eq!(percentage_change(10, 5), Percentage { numerator: 500, denominator: 10 });
    assert_eq!(value(percentage_change(u64::MAX, 0)), 100.0);
}

fn snapshot(count: usize, cycles: u64, time: Option<u64>) -> PerformanceMetrics {
    PerformanceMetrics {
        instruction_count: count,
        estimated_cycles: cycles,
        memory_ops: 0,
        register_pressure: 3,
        code_size: count * 3,
        execution_time: time,
    }
}

#[test]
fn swapping_snapshots_reverses_the_changes() {
    let a = snapshot(10, 0, Some(200));
    let b = snapshot(5, 4, Some(100));
    let ab = PerformanceEvaluator::compare_snapshots(&a, &b);
    let ba = PerformanceEvaluator::compare_snapshots(&b, &a);
    assert_eq!(value(ab.instruction_reduction), 50.0);
    assert_eq!(value(ba.instruction_reduction), -100.0);
    assert_eq!(ab.instruction_reduction.numerator, -ba.instruction_reduction.numerator);
    // a change from 0 is 0 whatever the other value
    assert_eq!(value(ab.cycle_reduction), 0.0);
    assert_eq!(value(ba.cycle_reduction), 100.0);
    // equal values: 0 both ways
    assert_eq!(value(ab.memory_ops_reduction), 0.0);
    assert_eq!(value(ba.register_pressure_change), 0.0);
    assert_eq!(value(ab.execution_time_reduction.unwrap()), 50.0);
    assert_eq!(value(ba.execution_time_reduction.unwrap()), -100.0);
}

#[test]
fn execution_time_change_needs_both_times() {
    let a = snapshot(1, 1, Some(5));
    let b = snapshot(1, 1, None);
    assert!(PerformanceEvaluator::compare_snapshots(&a, &b).execution_time_reduction.is_none());
    assert!(PerformanceEvaluator::compare_snapshots(&b, &a).execution_time_reduction.is_none());
}

#[test]
fn default_metrics_config() {
    let config = MetricsConfig::default();
    assert_eq!(config.benchmark_iterations, 100);
    assert!(config.measure_execution_time);
    assert!(config.temp_dir.is_none());
    let evaluator = PerformanceEvaluator::new(config);
    assert_eq!(evaluator.config().benchmark_iterations, 100);
}

#[test]
fn mean_run_time_values() {
    assert_eq!(mean_run_time(1000, 4), Some(250));
    assert_eq!(mean_run_time(7, 2), Some(3));
    assert_eq!(mean_run_time(1000, 0), None);
    let mut config = MetricsConfig::default();
    assert_eq!(PerformanceEvaluator::new(config.clone()).measurement_runs(), Some(100));
    config.measure_execution_time = false;
    assert_eq!(PerformanceEvaluator::new(config).measurement_runs(), None);
}
