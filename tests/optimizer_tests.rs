use neurassembly::model::encoder::{AssemblyEncoder, AssemblyToken, TokenType};
use neurassembly::model::optimizer::{OptimizationConfig, OptimizationModel};

fn token(token_type: TokenType, value: &str) -> AssemblyToken {
    AssemblyToken { token_type, value: value.to_string() }
}

fn pairs(tokens: &[AssemblyToken]) -> Vec<(TokenType, String)> {
    tokens.iter().map(|t| (t.token_type, t.value.clone())).collect()
}

fn only_peephole() -> OptimizationModel {
    OptimizationModel::new(OptimizationConfig {
        enable_dead_code_elimination: false,
        ..Default::default()
    })
}

fn only_dead_code() -> OptimizationModel {
    OptimizationModel::new(OptimizationConfig { enable_peephole: false, ..Default::default() })
}

#[test]
fn test_model_creation() {
    let config = OptimizationConfig::default();
    let _model = OptimizationModel::new(config);
    // Just testing that model creation doesn't panic
}

#[test]
fn test_model_optimization() {
    let encoder = AssemblyEncoder::new();
    // mov rax, rbx / add rax, 1
    let tokens = encoder.decode(&[0x48, 0x89, 0xd8, 0x48, 0x83, 0xc0, 0x01]);

    let config = OptimizationConfig {
        vocab_size: encoder.get_vocabulary_size() as i64,
        ..Default::default()
    };
    let model = OptimizationModel::new(config);

    let optimized_tokens = model.optimize(&tokens);
    assert!(!optimized_tokens.is_empty());
    assert_eq!(pairs(&optimized_tokens), pairs(&tokens));
}

#[test]
fn self_move_is_removed() {
    let tokens = vec![
        token(TokenType::Mnemonic, "mov"),
        token(TokenType::Register, "rax"),
        token(TokenType::Register, "rax"),
    ];
    assert!(only_peephole().optimize(&tokens).is_empty());
}

#[test]
fn move_between_registers_is_kept() {
    let tokens = vec![
        token(TokenType::Mnemonic, "mov"),
        token(TokenType::Register, "rax"),
        token(TokenType::Register, "rbx"),
    ];
    assert_eq!(pairs(&only_peephole().optimize(&tokens)), pairs(&tokens));
}

#[test]
fn other_mnemonic_with_same_registers_is_kept() {
    let tokens = vec![
        token(TokenType::Mnemonic, "xor"),
        token(TokenType::Register, "rax"),
        token(TokenType::Register, "rax"),
    ];
    assert_eq!(pairs(&only_peephole().optimize(&tokens)), pairs(&tokens));
}

#[test]
fn peephole_scans_once_left_to_right() {
    let tokens = vec![
        token(TokenType::Mnemonic, "push"),
        token(TokenType::Mnemonic, "mov"),
        token(TokenType::Register, "rcx"),
        token(TokenType::Register, "rcx"),
        token(TokenType::Register, "rcx"),
        token(TokenType::Label, "l"),
    ];
    let out = only_peephole().optimize(&tokens);
    assert_eq!(pairs(&out), vec![
        (TokenType::Mnemonic, "push".to_string()),
        (TokenType::Register, "rcx".to_string()),
        (TokenType::Label, "l".to_string()),
    ]);
}

#[test]
fn dead_code_pass_removes_only_labels() {
    let tokens = vec![
        token(TokenType::Label, "start"),
        token(TokenType::Mnemonic, "ret"),
        token(TokenType::Label, "end"),
        token(TokenType::Prefix, "uint8"),
    ];
    let out = only_dead_code().optimize(&tokens);
    assert_eq!(out.len(), tokens.len() - 2);
    assert_eq!(pairs(&out), vec![
        (TokenType::Mnemonic, "ret".to_string()),
        (TokenType::Prefix, "uint8".to_string()),
    ]);
}

#[test]
fn both_passes_in_order() {
    let tokens = vec![
        token(TokenType::Label, "top"),
        token(TokenType::Mnemonic, "mov"),
        token(TokenType::Register, "rdx"),
        token(TokenType::Register, "rdx"),
        token(TokenType::Mnemonic, "ret"),
    ];
    let model = OptimizationModel::new(OptimizationConfig::default());
    assert_eq!(pairs(&model.optimize(&tokens)), vec![(TokenType::Mnemonic, "ret".to_string())]);
    let off = OptimizationModel::new(OptimizationConfig {
        enable_peephole: false,
        enable_dead_code_elimination: false,
        ..Default::default()
    });
    assert_eq!(pairs(&off.optimize(&tokens)), pairs(&tokens));
}

#[test]
fn model_load_needs_the_file() {
    let mut model = OptimizationModel::new(OptimizationConfig::default());
    assert_eq!(model.load(false), Err("Model file not found".to_string()));
    assert_eq!(model.load(true), Ok(()));
}

#[test]
fn default_optimization_config() {
    let config = OptimizationConfig::default();
    assert!(config.enable_peephole);
    assert!(config.enable_register_allocation);
    assert!(config.enable_dead_code_elimination);
    assert_eq!(config.vocab_size, 1000);
}
