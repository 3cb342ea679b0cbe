use crate::model::instruction::{
    decode_instructions, decoded_from, DecodedInstruction, InstructionView, MemoryOperand, MemoryView,
    Operand, OperandView,
};
use crate::model::text::{decimal_string, decimal_text, hex_string, hex_text};
use vstd::prelude::*;
use vstd::string::StringSliceAdditionalSpecFns;

verus! {

/// The kind of an assembly token.
#[derive(Debug, Clone, Copy, PartialEq, Eq, Structural)]
pub enum TokenType {
    Mnemonic,
    Register,
    Immediate,
    Memory,
    Prefix,
    Separator,
    Label,
}

/// One token of an instruction stream: its kind and its text.
#[derive(Debug, Clone)]
pub struct AssemblyToken {
    pub token_type: TokenType,
    pub value: String,
}

impl View for AssemblyToken {
    type V = (TokenType, Seq<char>);

    open spec fn view(&self) -> (TokenType, Seq<char>) {
        (self.token_type, self.value@)
    }
}

/// The abstract contents of a token sequence.
pub open spec fn tokens_view(tokens: Seq<AssemblyToken>) -> Seq<(TokenType, Seq<char>)> {
    tokens.map_values(|t: AssemblyToken| t@)
}

impl AssemblyToken {
    /// A token of the given kind holding a copy of `value`.
    pub fn new(token_type: TokenType, value: &str) -> (r: AssemblyToken)
        ensures
            r@ == (token_type, value@),
    {
        AssemblyToken { token_type, value: value.to_owned() }
    }

    /// An equal, independently owned token.
    pub fn duplicate(&self) -> (r: AssemblyToken)
        ensures
            r@ == self@,
    {
        AssemblyToken { token_type: self.token_type, value: self.value.clone() }
    }
}

/// A sequence of one abstract token, or none.
pub open spec fn token_if(cond: bool, t: TokenType, v: Seq<char>) -> Seq<(TokenType, Seq<char>)> {
    if cond {
        seq![(t, v)]
    } else {
        Seq::empty()
    }
}

/// The tokens of a memory operand: an optional size prefix, then inside `[` and `]` the
/// base register, `+`, the index register, `*` and the scale when it exceeds 1, then `+`
/// and the hexadecimal displacement when it is nonzero.
pub open spec fn memory_operand_tokens(m: MemoryView) -> Seq<(TokenType, Seq<char>)> {
    let prefix = match m.size {
        Some(s) => seq![(TokenType::Prefix, s)],
        None => Seq::empty(),
    };
    let base = match m.base {
        Some(b) => seq![(TokenType::Register, b)],
        None => Seq::empty(),
    };
    let index = match m.index {
        Some(x) => token_if(m.base is Some, TokenType::Separator, "+"@) + seq![
            (TokenType::Register, x),
        ] + token_if(m.scale > 1, TokenType::Separator, "*"@) + token_if(
            m.scale > 1,
            TokenType::Immediate,
            decimal_text(m.scale as nat),
        ),
        None => Seq::empty(),
    };
    let displacement = token_if(
        m.displacement != 0 && (m.base is Some || m.index is Some),
        TokenType::Separator,
        "+"@,
    ) + token_if(m.displacement != 0, TokenType::Immediate, hex_text(m.displacement as nat));
    prefix + seq![(TokenType::Memory, "["@)] + base + index + displacement + seq![
        (TokenType::Memory, "]"@),
    ]
}

/// The tokens of one operand; an operand of another kind has none.
pub open spec fn operand_tokens(op: OperandView) -> Seq<(TokenType, Seq<char>)> {
    match op {
        OperandView::Register(name) => seq![(TokenType::Register, name)],
        OperandView::Memory(m) => memory_operand_tokens(m),
        OperandView::Immediate(v) => seq![(TokenType::Immediate, hex_text(v as nat))],
        OperandView::Other => Seq::empty(),
    }
}

/// The tokens of the first `n` operands, with a `,` before each but the first.
pub open spec fn operands_tokens(ops: Seq<OperandView>, n: nat) -> Seq<(TokenType, Seq<char>)>
    decreases n,
{
    if n == 0 {
        Seq::empty()
    } else {
        operands_tokens(ops, (n - 1) as nat) + token_if(n > 1, TokenType::Separator, ","@)
            + operand_tokens(ops[n - 1])
    }
}

/// The tokens of one instruction: its mnemonic, then its operands.
pub open spec fn instruction_tokens(ins: InstructionView) -> Seq<(TokenType, Seq<char>)> {
    seq![(TokenType::Mnemonic, ins.mnemonic)] + operands_tokens(ins.operands, ins.operands.len())
}

/// The tokens of the first `n` instructions, one after another.
pub open spec fn stream_tokens(instrs: Seq<InstructionView>, n: nat) -> Seq<
    (TokenType, Seq<char>),
>
    decreases n,
{
    if n == 0 {
        Seq::empty()
    } else {
        stream_tokens(instrs, (n - 1) as nat) + instruction_tokens(instrs[n - 1])
    }
}

fn push_token(tokens: &mut Vec<AssemblyToken>, token: AssemblyToken)
    ensures
        tokens_view(final(tokens)@) == tokens_view(old(tokens)@).push(token@),
{
    tokens.push(token);
    assert(tokens_view(tokens@) =~= tokens_view(old(tokens)@).push(token@));
}

/// Tokenizer state: the vocabulary that maps token text to dense ids.
pub struct AssemblyEncoder {
    vocabulary: Vec<String>,
}

/// No text occurs twice in `texts`.
pub open spec fn distinct_texts(texts: Seq<Seq<char>>) -> bool {
    forall|i: int, j: int| 0 <= i < j < texts.len() ==> texts[i] != texts[j]
}

/// One request for the id of `s`, taking vocabulary `before` to `after` and answering `id`:
/// a text already present keeps its id and nothing changes; a new text gets the next id.
pub open spec fn assigns_id(before: Seq<Seq<char>>, s: Seq<char>, after: Seq<Seq<char>>, id: int) -> bool {
    &&& before.contains(s) ==> after == before && 0 <= id < before.len() && before[id] == s
    &&& !before.contains(s) ==> after == before.push(s) && id == before.len()
}

impl View for AssemblyEncoder {
    /// The texts of the vocabulary, indexed by their id.
    type V = Seq<Seq<char>>;

    closed spec fn view(&self) -> Seq<Seq<char>> {
        self.vocabulary@.map_values(|s: String| s@)
    }
}

impl AssemblyEncoder {
    /// Ids are assigned without gaps and no text has two ids.
    pub open spec fn wf(&self) -> bool {
        distinct_texts(self@)
    }

    pub fn new() -> (r: AssemblyEncoder)
        ensures
            r.wf(),
            r@ == Seq::<Seq<char>>::empty(),
    {
        let r = AssemblyEncoder { vocabulary: Vec::new() };
        assert(r@ =~= Seq::<Seq<char>>::empty());
        r
    }

    /// Appends the tokens of memory operand `m`.
    fn encode_memory_operand(&self, m: &MemoryOperand, tokens: &mut Vec<AssemblyToken>)
        ensures
            tokens_view(final(tokens)@) == tokens_view(old(tokens)@) + memory_operand_tokens(m@),
    {
        let ghost start = tokens_view(tokens@);
        match &m.size {
            Some(size) => push_token(tokens, AssemblyToken::new(TokenType::Prefix, size.as_str())),
            None => {},
        }
        push_token(tokens, AssemblyToken::new(TokenType::Memory, "["));
        match &m.base {
            Some(base) => push_token(tokens, AssemblyToken::new(TokenType::Register, base.as_str())),
            None => {},
        }
        match &m.index {
            Some(index) => {
                if m.base.is_some() {
                    push_token(tokens, AssemblyToken::new(TokenType::Separator, "+"));
                }
                push_token(tokens, AssemblyToken::new(TokenType::Register, index.as_str()));
                if m.scale > 1 {
                    push_token(tokens, AssemblyToken::new(TokenType::Separator, "*"));
                    let scale = decimal_string(m.scale as u64);
                    push_token(tokens, AssemblyToken { token_type: TokenType::Immediate, value: scale });
                }
            },
            None => {},
        }
        if m.displacement != 0 {
            if m.base.is_some() || m.index.is_some() {
                push_token(tokens, AssemblyToken::new(TokenType::Separator, "+"));
            }
            let displacement = hex_string(m.displacement as u64);
            push_token(tokens, AssemblyToken { token_type: TokenType::Immediate, value: displacement });
        }
        push_token(tokens, AssemblyToken::new(TokenType::Memory, "]"));
        assert(tokens_view(tokens@) =~= start + memory_operand_tokens(m@));
    }

    /// Appends the tokens of one operand.
    fn encode_operand(&self, op: &Operand, tokens: &mut Vec<AssemblyToken>)
        ensures
            tokens_view(final(tokens)@) == tokens_view(old(tokens)@) + operand_tokens(op@),
    {
        match op {
            Operand::Register(name) => {
                push_token(tokens, AssemblyToken::new(TokenType::Register, name.as_str()));
                assert(tokens_view(tokens@) =~= tokens_view(old(tokens)@) + operand_tokens(op@));
            },
            Operand::Memory(m) => self.encode_memory_operand(m, tokens),
            Operand::Immediate(v) => {
                let value = hex_string(*v);
                push_token(tokens, AssemblyToken { token_type: TokenType::Immediate, value });
                assert(tokens_view(tokens@) =~= tokens_view(old(tokens)@) + operand_tokens(op@));
            },
            Operand::Other => {
                assert(tokens_view(tokens@) =~= tokens_view(old(tokens)@) + operand_tokens(op@));
            },
        }
    }

    /// Appends the tokens of one instruction: its mnemonic, then each operand, with a `,`
    /// between operands.
    fn encode_instruction(&self, ins: &DecodedInstruction, tokens: &mut Vec<AssemblyToken>)
        ensures
            tokens_view(final(tokens)@) == tokens_view(old(tokens)@) + instruction_tokens(ins@),
    {
        let ghost start = tokens_view(tokens@);
        push_token(tokens, AssemblyToken::new(TokenType::Mnemonic, ins.mnemonic.as_str()));
        let mut i: usize = 0;
        while i < ins.operands.len()
            invariant
                i <= ins.operands@.len(),
                tokens_view(tokens@) == start + seq![(TokenType::Mnemonic, ins.mnemonic@)]
                    + operands_tokens(ins@.operands, i as nat),
            decreases ins.operands@.len() - i,
        {
            if i > 0 {
                push_token(tokens, AssemblyToken::new(TokenType::Separator, ","));
            }
            self.encode_operand(&ins.operands[i], tokens);
            assert(ins@.operands[i as int] == ins.operands@[i as int]@);
            assert(tokens_view(tokens@) =~= start + seq![(TokenType::Mnemonic, ins.mnemonic@)]
                + operands_tokens(ins@.operands, (i + 1) as nat));
            i = i + 1;
        }
        assert(tokens_view(tokens@) =~= start + instruction_tokens(ins@));
    }

    /// The token sequence of the given instructions, in order.
    pub fn tokenize(&self, instructions: &[DecodedInstruction]) -> (r: Vec<AssemblyToken>)
        ensures
            tokens_view(r@) == stream_tokens(
                instructions@.map_values(|d: DecodedInstruction| d@),
                instructions@.len(),
            ),
    {
        let ghost views = instructions@.map_values(|d: DecodedInstruction| d@);
        let mut tokens: Vec<AssemblyToken> = Vec::new();
        let mut i: usize = 0;
        assert(tokens_view(tokens@) =~= stream_tokens(views, 0));
        while i < instructions.len()
            invariant
                i <= instructions@.len(),
                views == instructions@.map_values(|d: DecodedInstruction| d@),
                tokens_view(tokens@) == stream_tokens(views, i as nat),
            decreases instructions@.len() - i,
        {
            self.encode_instruction(&instructions[i], &mut tokens);
            i = i + 1;
        }
        tokens
    }

    /// Tokenizes 64-bit machine code: decodes instructions from the start until the rest
    /// cannot be decoded, and emits the tokens of each decoded instruction in order. Bytes
    /// after the last decoded instruction are dropped.
    pub fn decode(&self, bytes: &[u8]) -> (r: Vec<AssemblyToken>)
        ensures
            tokens_view(r@) == stream_tokens(decoded_from(bytes@, 0), decoded_from(bytes@, 0).len()),
    {
        let (instructions, _) = decode_instructions(bytes);
        self.tokenize(instructions.as_slice())
    }

    /// Tokenizes the bytes of `assembly` as 64-bit machine code (see [`Self::decode`]).
    pub fn encode(&mut self, assembly: &str) -> (r: Vec<AssemblyToken>)
        ensures
            final(self)@ == old(self)@,
            tokens_view(r@) == stream_tokens(
                decoded_from(assembly.spec_bytes(), 0),
                decoded_from(assembly.spec_bytes(), 0).len(),
            ),
    {
        self.decode(assembly.as_bytes())
    }

    /// Number of distinct texts seen so far.
    pub fn get_vocabulary_size(&self) -> (r: usize)
        ensures
            r == self@.len(),
    {
        self.vocabulary.len()
    }

    /// The id of `token`: the one it already has, or else the next free id.
    pub fn get_token_id(&mut self, token: &str) -> (r: usize)
        requires
            old(self).wf(),
        ensures
            final(self).wf(),
            assigns_id(old(self)@, token@, final(self)@, r as int),
    {
        let text = token.to_owned();
        let mut i: usize = 0;
        while i < self.vocabulary.len()
            invariant
                i <= self.vocabulary@.len(),
                self@ == old(self)@,
                text@ == token@,
                self.wf(),
                forall|k: int| 0 <= k < i ==> self@[k] != token@,
            decreases self.vocabulary@.len() - i,
        {
            if self.vocabulary[i] == text {
                assert(self@[i as int] == token@);
                return i;
            }
            i = i + 1;
        }
        assert(!old(self)@.contains(token@));
        let id = self.vocabulary.len();
        self.vocabulary.push(text);
        assert(self@ =~= old(self)@.push(token@));
        id
    }

    /// The text with the given id, if one has it.
    pub fn get_token(&self, id: usize) -> (r: Option<&str>)
        ensures
            r is Some <==> id < self@.len(),
            r matches Some(s) ==> s@ == self@[id as int],
    {
        if id < self.vocabulary.len() {
            Some(self.vocabulary[id].as_str())
        } else {
            None
        }
    }
}

/// A request for an id keeps every id given before it.
pub proof fn lemma_ids_persist(before: Seq<Seq<char>>, s: Seq<char>, after: Seq<Seq<char>>, id: int)
    requires
        assigns_id(before, s, after, id),
    ensures
        before.len() <= after.len(),
        forall|k: int| 0 <= k < before.len() ==> after[k] == before[k],
{
}

/// Over any run of id requests, each taking `vs[k]` to `vs[k + 1]`, the ids present at the
/// start keep their texts to the end.
pub proof fn lemma_ids_persist_over_requests(vs: Seq<Seq<Seq<char>>>, texts: Seq<Seq<char>>, ids: Seq<int>)
    requires
        vs.len() == texts.len() + 1,
        ids.len() == texts.len(),
        forall|k: int| 0 <= k < texts.len() ==> #[trigger] assigns_id(vs[k], texts[k], vs[k + 1], ids[k]),
    ensures
        vs[0].len() <= vs.last().len(),
        forall|k: int| 0 <= k < vs[0].len() ==> vs.last()[k] == vs[0][k],
    decreases texts.len(),
{
    if texts.len() > 0 {
        let n = texts.len() - 1;
        assert(assigns_id(vs[n], texts[n], vs[n + 1], ids[n]));
        lemma_ids_persist_over_requests(vs.drop_last(), texts.drop_last(), ids.drop_last());
        assert(vs.drop_last().last() == vs[n]);
    }
}

/// Looking up the id that a text was given yields that text, however many requests for
/// other texts follow: `vs[0]` is the vocabulary just after `s` got `id`.
pub proof fn lemma_lookup_after_requests(
    v0: Seq<Seq<char>>,
    s: Seq<char>,
    id: int,
    vs: Seq<Seq<Seq<char>>>,
    texts: Seq<Seq<char>>,
    ids: Seq<int>,
)
    requires
        distinct_texts(v0),
        assigns_id(v0, s, vs[0], id),
        vs.len() == texts.len() + 1,
        ids.len() == texts.len(),
        forall|k: int| 0 <= k < texts.len() ==> #[trigger] assigns_id(vs[k], texts[k], vs[k + 1], ids[k]),
    ensures
        0 <= id < vs.last().len(),
        vs.last()[id] == s,
{
    lemma_ids_persist_over_requests(vs, texts, ids);
}

/// Looking up the id that a text was given yields that text, and asking again for the id
/// of the same text yields the same id and leaves the vocabulary as it was.
pub proof fn lemma_vocabulary_round_trip(
    v0: Seq<Seq<char>>,
    s: Seq<char>,
    v1: Seq<Seq<char>>,
    id1: int,
    v2: Seq<Seq<char>>,
    id2: int,
)
    requires
        distinct_texts(v0),
        assigns_id(v0, s, v1, id1),
        assigns_id(v1, s, v2, id2),
    ensures
        0 <= id1 < v1.len(),
        v1[id1] == s,
        id2 == id1,
        v2 == v1,
{
    if !v0.contains(s) {
        assert(v1[id1] == s);
        assert forall|i: int, j: int| 0 <= i < j < v1.len() implies v1[i] != v1[j] by {
            if j == v0.len() {
                assert(v0[i] == v1[i]);
            }
        }
    }
    assert(v1.contains(s)) by {
        assert(v1[id1] == s);
    }
}

} // verus!
