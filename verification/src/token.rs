use vstd::prelude::*;

verus! {

/// How a group of tokens is delimited.
#[derive(Clone, Copy, Debug, PartialEq, Eq, Structural)]
pub enum Delimiter {
    Parenthesis,
    Brace,
    Bracket,
    Invisible,
}

/// One token tree of a macro's input, held as plain values.
///
/// A group keeps its inner tokens together with two renderings: `text` is the
/// whole group as source text (delimiters included), `stream_text` is the text
/// of the inner tokens alone.
#[derive(Debug)]
pub enum Token {
    Group { delimiter: Delimiter, stream: Vec<Token>, text: String, stream_text: String },
    Ident(String),
    Punct(char),
    Literal(String),
}

/// The number of token trees in `t`, nested ones included.
pub open spec fn token_size(t: Token) -> nat
    decreases t, 0int,
{
    match t {
        Token::Group { stream, .. } => {
            proof {
                assert(decreases_to!(stream => stream@));
            }
            1 + tokens_size_from(stream@, 0)
        },
        _ => 1,
    }
}

/// The number of token trees in `s` from index `pos` on, nested ones included.
pub open spec fn tokens_size_from(s: Seq<Token>, pos: int) -> nat
    decreases s, s.len() - pos,
{
    if 0 <= pos < s.len() {
        token_size(s[pos]) + tokens_size_from(s, pos + 1)
    } else {
        0
    }
}

/// The number of token trees in `s`, nested ones included.
pub open spec fn token_count(s: Seq<Token>) -> nat {
    tokens_size_from(s, 0)
}

/// Each token tree from `p` up to `q` adds at least one to the size.
pub proof fn lemma_size_from_mono(s: Seq<Token>, p: int, q: int)
    requires
        0 <= p <= q <= s.len(),
    ensures
        tokens_size_from(s, p) >= tokens_size_from(s, q) + (q - p),
    decreases q - p,
{
    if p < q {
        lemma_size_from_mono(s, p + 1, q);
        assert(token_size(s[p]) >= 1);
        assert(tokens_size_from(s, p) == token_size(s[p]) + tokens_size_from(s, p + 1));
    }
}

/// The inner tokens of a group are smaller than the tokens from the group on.
pub proof fn lemma_size_group(s: Seq<Token>, p: int)
    requires
        0 <= p < s.len(),
        s[p] is Group,
    ensures
        tokens_size_from(s[p]->stream@, 0) < tokens_size_from(s, p),
        tokens_size_from(s[p]->stream@, 0) + 1 + tokens_size_from(s, p + 1) == tokens_size_from(
            s,
            p,
        ),
{
    assert(tokens_size_from(s, p) == token_size(s[p]) + tokens_size_from(s, p + 1));
    assert(token_size(s[p]) == 1 + tokens_size_from(s[p]->stream@, 0));
}

} // verus!
