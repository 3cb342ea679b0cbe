use crate::model::encoder::{stream_tokens, tokens_view, AssemblyEncoder, AssemblyToken, TokenType};
use crate::model::instruction::decoded_from;
use crate::model::optimizer::{is_default_table, OptimizationConfig, OptimizationModel, TokenView};
use crate::model::text::string_from_chars;
use vstd::prelude::*;
use vstd::string::StringSliceAdditionalSpecFns;
use vstd::utf8::encode_utf8;

verus! {

/// A request to optimize a piece of machine code, carried as text.
pub struct OptimizeRequest {
    pub assembly: String,
}

/// The optimized code, rendered as assembly text.
pub struct OptimizeResponse {
    pub optimized_assembly: String,
}

/// What goes before token `t` when it follows `prev`: a newline before every mnemonic but
/// the first, a space after a mnemonic, after a `,` and after a size prefix, and nothing
/// inside an operand.
pub open spec fn gap_before(prev: Option<TokenView>, t: TokenView) -> Seq<char> {
    match prev {
        None => Seq::empty(),
        Some(p) => if t.0 == TokenType::Mnemonic {
            seq!['\n']
        } else if p.0 == TokenType::Mnemonic || p.0 == TokenType::Prefix || (p.0
            == TokenType::Separator && p.1 == ","@) {
            seq![' ']
        } else {
            Seq::empty()
        },
    }
}

/// The text of the tokens: each token's value after its gap, one instruction per line.
pub open spec fn rendered(toks: Seq<TokenView>) -> Seq<char>
    decreases toks.len(),
{
    if toks.len() == 0 {
        Seq::empty()
    } else {
        let prev = if toks.len() > 1 { Some(toks[toks.len() - 2]) } else { None };
        rendered(toks.drop_last()) + gap_before(prev, toks.last()) + toks.last().1
    }
}

/// The tokens of the machine code that the text `assembly` carries in its UTF-8 bytes.
pub open spec fn request_tokens(assembly: Seq<char>) -> Seq<TokenView> {
    stream_tokens(decoded_from(encode_utf8(assembly), 0), decoded_from(encode_utf8(assembly), 0).len())
}

fn is_comma(t: &AssemblyToken) -> (r: bool)
    ensures
        r == (t@.0 == TokenType::Separator && t@.1 == ","@),
{
    if t.token_type != TokenType::Separator {
        return false;
    }
    let comma = ",".to_owned();
    t.value == comma
}

/// Renders tokens as assembly text, one instruction per line.
pub fn render_tokens(tokens: &[AssemblyToken]) -> (r: String)
    ensures
        r@ == rendered(tokens_view(tokens@)),
{
    let ghost toks = tokens_view(tokens@);
    let mut out: Vec<char> = Vec::new();
    let mut i: usize = 0;
    assert(toks.subrange(0, 0) =~= Seq::<TokenView>::empty());
    while i < tokens.len()
        invariant
            i <= toks.len(),
            toks == tokens_view(tokens@),
            out@ == rendered(toks.subrange(0, i as int)),
        decreases toks.len() - i,
    {
        let ghost prefix = toks.subrange(0, i + 1);
        assert(prefix.drop_last() =~= toks.subrange(0, i as int));
        let ghost before = out@;
        let t = &tokens[i];
        if i > 0 {
            let p = &tokens[i - 1];
            if t.token_type == TokenType::Mnemonic {
                out.push('\n');
            } else if p.token_type == TokenType::Mnemonic || p.token_type == TokenType::Prefix
                || is_comma(p) {
                out.push(' ');
            }
        }
        let ghost with_gap = out@;
        assert(with_gap == before + gap_before(
            if i > 0 { Some(toks[i - 1]) } else { None },
            toks[i as int],
        )) by {
            assert(with_gap =~= before + gap_before(
                if i > 0 { Some(toks[i - 1]) } else { None },
                toks[i as int],
            ));
        }
        let value = crate::model::text::chars_of(t.value.as_str());
        let mut k: usize = 0;
        while k < value.len()
            invariant
                k <= value@.len(),
                out@ == with_gap + value@.subrange(0, k as int),
            decreases value@.len() - k,
        {
            out.push(value[k]);
            assert(out@ =~= with_gap + value@.subrange(0, k + 1));
            k = k + 1;
        }
        assert(value@.subrange(0, k as int) =~= value@);
        assert(out@ =~= rendered(prefix));
        i = i + 1;
    }
    assert(toks.subrange(0, toks.len() as int) =~= toks);
    string_from_chars(&out)
}

/// Serves one optimize request: tokenizes the code, runs the default rewrite passes and
/// renders what is left.
pub fn optimize_assembly(request: &OptimizeRequest) -> (r: OptimizeResponse)
    ensures
        exists|model: OptimizationModel|
            model.config().enable_peephole && model.config().enable_dead_code_elimination
                && is_default_table(model.patterns()) && r.optimized_assembly@ == #[trigger] rendered(
                model.optimized(request_tokens(request.assembly@)),
            ),
{
    let mut encoder = AssemblyEncoder::new();
    let model = OptimizationModel::new(OptimizationConfig::default());
    let assembly = request.assembly.as_str();
    let input_tokens = encoder.encode(assembly);
    let optimized_tokens = model.optimize(input_tokens.as_slice());
    let text = render_tokens(optimized_tokens.as_slice());
    assert(assembly.spec_bytes() == encode_utf8(request.assembly@));
    assert(text@ == rendered(model.optimized(request_tokens(request.assembly@))));
    OptimizeResponse { optimized_assembly: text }
}

} // verus!
