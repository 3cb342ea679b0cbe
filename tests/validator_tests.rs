use neurassembly::evaluation::validator::OptimizationValidator;
use neurassembly::model::encoder::{AssemblyToken, TokenType};

fn token(token_type: TokenType, value: &str) -> AssemblyToken {
    AssemblyToken { token_type, value: value.to_string() }
}

#[test]
fn same_registers_in_another_order_are_equivalent() {
    let original = vec![
        token(TokenType::Mnemonic, "mov"),
        token(TokenType::Register, "rax"),
        token(TokenType::Register, "rbx"),
        token(TokenType::Register, "rax"),
    ];
    let optimized = vec![token(TokenType::Register, "rbx"), token(TokenType::Register, "rax")];
    let result = OptimizationValidator::new().validate(&original, &optimized);
    assert!(result.semantically_equivalent);
    assert!(result.performance_improved);
}

#[test]
fn a_lost_register_is_not_equivalent() {
    let original = vec![token(TokenType::Register, "rax"), token(TokenType::Register, "rbx")];
    let optimized = vec![
        token(TokenType::Register, "rax"),
        token(TokenType::Immediate, "rbx"),
        token(TokenType::Separator, ","),
    ];
    let result = OptimizationValidator::new().validate(&original, &optimized);
    assert!(!result.semantically_equivalent);
    assert!(!result.performance_improved);
    let gained = OptimizationValidator::new().validate(&optimized, &original);
    assert!(!gained.semantically_equivalent);
    assert!(gained.performance_improved);
}

#[test]
fn switched_off_checks_report_false() {
    let validator = OptimizationValidator { check_correctness: false, check_performance: false };
    let result = validator.validate(&[], &[]);
    assert!(!result.semantically_equivalent);
    assert!(!result.performance_improved);
    let on = OptimizationValidator::new().validate(&[], &[]);
    assert!(on.semantically_equivalent);
    assert!(on.performance_improved);
}
