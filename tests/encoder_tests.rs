use neurassembly::model::encoder::{AssemblyEncoder, AssemblyToken, TokenType};
use neurassembly::model::instruction::{decode_instructions, DecodedInstruction, MemoryOperand, Operand};

fn kinds_and_values(tokens: &[AssemblyToken]) -> Vec<(TokenType, String)> {
    tokens.iter().map(|t| (t.token_type, t.value.clone())).collect()
}

#[test]
fn test_basic_instruction_encoding() {
    let encoder = AssemblyEncoder::new();
    // mov rax, rbx
    let tokens = encoder.decode(&[0x48, 0x89, 0xd8]);

    assert_eq!(tokens.len(), 4); // mnemonic + register + separator + register
    assert_eq!(tokens[0].token_type, TokenType::Mnemonic);
    assert_eq!(tokens[0].value, "mov");
    assert_eq!(tokens[1].token_type, TokenType::Register);
    assert_eq!(tokens[1].value, "rax");
    assert_eq!(tokens[2].token_type, TokenType::Separator);
    assert_eq!(tokens[2].value, ",");
    assert_eq!(tokens[3].token_type, TokenType::Register);
    assert_eq!(tokens[3].value, "rbx");
}

#[test]
fn test_memory_operand_encoding() {
    let encoder = AssemblyEncoder::new();
    // mov dword ptr [rax + rbx*4 + 0x10], ecx
    let tokens = encoder.decode(&[0x89, 0x4c, 0x98, 0x10]);

    let memory_tokens: Vec<_> = tokens
        .iter()
        .filter(|t| matches!(t.token_type, TokenType::Memory | TokenType::Register | TokenType::Immediate))
        .collect();

    assert!(tokens.iter().any(|t| t.value == "uint32")); // Size prefix
    assert!(memory_tokens.iter().any(|t| t.value == "rax")); // Base register
    assert!(memory_tokens.iter().any(|t| t.value == "rbx")); // Index register
    assert!(memory_tokens.iter().any(|t| t.value == "4")); // Scale
    assert!(memory_tokens.iter().any(|t| t.value == "0x10")); // Displacement
    assert!(memory_tokens.iter().any(|t| t.value == "ecx")); // Source register
}

#[test]
fn memory_operand_tokens_in_fixed_order() {
    let encoder = AssemblyEncoder::new();
    let tokens = encoder.decode(&[0x89, 0x4c, 0x98, 0x10]);
    let expected = vec![
        (TokenType::Mnemonic, "mov"),
        (TokenType::Prefix, "uint32"),
        (TokenType::Memory, "["),
        (TokenType::Register, "rax"),
        (TokenType::Separator, "+"),
        (TokenType::Register, "rbx"),
        (TokenType::Separator, "*"),
        (TokenType::Immediate, "4"),
        (TokenType::Separator, "+"),
        (TokenType::Immediate, "0x10"),
        (TokenType::Memory, "]"),
        (TokenType::Separator, ","),
        (TokenType::Register, "ecx"),
    ];
    let expected: Vec<(TokenType, String)> =
        expected.into_iter().map(|(t, v)| (t, v.to_string())).collect();
    assert_eq!(kinds_and_values(&tokens), expected);
}

#[test]
fn register_to_register_move_from_plain_values() {
    let encoder = AssemblyEncoder::new();
    let instruction = DecodedInstruction {
        mnemonic: "mov".to_string(),
        operands: vec![Operand::Register("rax".to_string()), Operand::Register("rbx".to_string())],
    };
    let tokens = encoder.tokenize(&[instruction]);
    let expected: Vec<(TokenType, String)> = vec![
        (TokenType::Mnemonic, "mov".to_string()),
        (TokenType::Register, "rax".to_string()),
        (TokenType::Separator, ",".to_string()),
        (TokenType::Register, "rbx".to_string()),
    ];
    assert_eq!(kinds_and_values(&tokens), expected);
}

#[test]
fn memory_operand_without_base_or_scale() {
    let encoder = AssemblyEncoder::new();
    let instruction = DecodedInstruction {
        mnemonic: "lea".to_string(),
        operands: vec![
            Operand::Register("rax".to_string()),
            Operand::Memory(MemoryOperand {
                size: None,
                base: None,
                index: Some("rcx".to_string()),
                scale: 1,
                displacement: 0xff,
            }),
            Operand::Other,
            Operand::Immediate(255),
        ],
    };
    let tokens = encoder.tokenize(&[instruction]);
    let expected: Vec<(TokenType, String)> = vec![
        (TokenType::Mnemonic, "lea"),
        (TokenType::Register, "rax"),
        (TokenType::Separator, ","),
        (TokenType::Memory, "["),
        (TokenType::Register, "rcx"),
        (TokenType::Separator, "+"),
        (TokenType::Immediate, "0xff"),
        (TokenType::Memory, "]"),
        (TokenType::Separator, ","),
        (TokenType::Separator, ","),
        (TokenType::Immediate, "0xff"),
    ]
    .into_iter()
    .map(|(t, v)| (t, v.to_string()))
    .collect();
    assert_eq!(kinds_and_values(&tokens), expected);
}

#[test]
fn truncated_tail_is_dropped() {
    let encoder = AssemblyEncoder::new();
    // push rax, then the first two bytes of a longer instruction
    let tokens = encoder.decode(&[0x50, 0x48, 0x89]);
    assert_eq!(tokens.len(), 2);
    assert_eq!(tokens[0].value, "push");
    assert_eq!(tokens[1].value, "rax");
    assert!(encoder.decode(&[]).is_empty());
}

#[test]
fn immediate_operand_is_hexadecimal() {
    let encoder = AssemblyEncoder::new();
    // mov eax, 0x12345678
    let tokens = encoder.decode(&[0xb8, 0x78, 0x56, 0x34, 0x12]);
    assert_eq!(tokens.len(), 4);
    assert_eq!(tokens[1].value, "eax");
    assert_eq!(tokens[3].token_type, TokenType::Immediate);
    assert_eq!(tokens[3].value, "0x12345678");
}

#[test]
fn encode_reads_the_text_bytes() {
    let mut encoder = AssemblyEncoder::new();
    // "P" is 0x50: push rax
    let tokens = encoder.encode("P");
    assert_eq!(kinds_and_values(&tokens), vec![
        (TokenType::Mnemonic, "push".to_string()),
        (TokenType::Register, "rax".to_string()),
    ]);
}

#[test]
fn test_vocabulary_building() {
    let mut encoder = AssemblyEncoder::new();

    // Get IDs for some tokens
    let mov_id = encoder.get_token_id("mov");
    let rax_id = encoder.get_token_id("rax");
    let rbx_id = encoder.get_token_id("rbx");

    // Verify we can get the tokens back
    assert_eq!(encoder.get_token(mov_id), Some("mov"));
    assert_eq!(encoder.get_token(rax_id), Some("rax"));
    assert_eq!(encoder.get_token(rbx_id), Some("rbx"));

    // Verify vocabulary size
    assert_eq!(encoder.get_vocabulary_size(), 3);
}

#[test]
fn vocabulary_ids_are_stable_and_sequential() {
    let mut encoder = AssemblyEncoder::new();
    assert_eq!(encoder.get_token_id("mov"), 0);
    assert_eq!(encoder.get_token_id("rax"), 1);
    assert_eq!(encoder.get_token_id("mov"), 0);
    assert_eq!(encoder.get_vocabulary_size(), 2);
    assert_eq!(encoder.get_token(1), Some("rax"));
    assert_eq!(encoder.get_token(2), None);
}

#[test]
fn decoded_prefix_length_is_reported() {
    let (instructions, covered) = decode_instructions(&[0x50, 0x59, 0x48, 0x89]);
    assert_eq!(instructions.len(), 2);
    assert_eq!(covered, 2);
    assert_eq!(instructions[1].mnemonic, "pop");
    let (all, covered) = decode_instructions(&[0x48, 0x89, 0xd8]);
    assert_eq!(all.len(), 1);
    assert_eq!(covered, 3);
}

#[test]
fn undecodable_tail_gives_the_prefix_tokens() {
    let mut encoder = AssemblyEncoder::new();
    // "PX" is push rax / pop rax; 0x0f 0x0b is ud2's prefix cut short after 0x0f
    let prefix = encoder.decode(&[0x50, 0x58]);
    let with_tail = encoder.decode(&[0x50, 0x58, 0x0f]);
    assert_eq!(kinds_and_values(&prefix), kinds_and_values(&with_tail));
    assert_eq!(with_tail.iter().filter(|t| t.token_type == TokenType::Mnemonic).count(), 2);
    assert_eq!(kinds_and_values(&encoder.encode("PX")), kinds_and_values(&encoder.encode("PX")));
}

#[test]
fn sign_extended_immediate_gives_no_token() {
    let encoder = AssemblyEncoder::new();
    // add rax, 1: the 1 is an 8-bit immediate sign-extended to 64 bits
    let tokens = encoder.decode(&[0x48, 0x83, 0xc0, 0x01]);
    assert_eq!(kinds_and_values(&tokens), vec![
        (TokenType::Mnemonic, "add".to_string()),
        (TokenType::Register, "rax".to_string()),
        (TokenType::Separator, ",".to_string()),
    ]);
    // add eax, 0x1234: a plain 32-bit immediate
    let tokens = encoder.decode(&[0x05, 0x34, 0x12, 0x00, 0x00]);
    assert_eq!(tokens[3].token_type, TokenType::Immediate);
    assert_eq!(tokens[3].value, "0x1234");
}
