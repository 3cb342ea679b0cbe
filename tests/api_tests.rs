use neurassembly::api::{optimize_assembly, render_tokens, OptimizeRequest};
use neurassembly::model::encoder::{AssemblyEncoder, AssemblyToken, TokenType};

fn token(token_type: TokenType, value: &str) -> AssemblyToken {
    AssemblyToken { token_type, value: value.to_string() }
}

#[test]
fn tokens_render_one_instruction_per_line() {
    let encoder = AssemblyEncoder::new();
    // mov [rax+rbx*4+0x10], ecx / push rax
    let tokens = encoder.decode(&[0x89, 0x4c, 0x98, 0x10, 0x50]);
    assert_eq!(render_tokens(&tokens), "mov uint32 [rax+rbx*4+0x10], ecx\npush rax");
    assert_eq!(render_tokens(&[]), "");
}

#[test]
fn optimize_request_renders_the_rewritten_code() {
    // "P" is push rax, "X" is pop rax
    let request = OptimizeRequest { assembly: "PX".to_string() };
    assert_eq!(optimize_assembly(&request).optimized_assembly, "push rax\npop rax");
}

#[test]
fn label_renders_on_its_own_line() {
    let tokens = vec![
        token(TokenType::Label, "l"),
        token(TokenType::Mnemonic, "ret"),
    ];
    assert_eq!(render_tokens(&tokens), "l\nret");
}
