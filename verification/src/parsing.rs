pub mod data;
pub mod object_pattern;
pub mod pattern_parser;

use vstd::prelude::*;

use crate::data::{
    count_next, lemma_pats_model_push, pats_model,
    ObjectPattern, PatternModel,
};
use crate::parsing::data::{
    bang, chain_check, check_chain, fatal, is_recoverable, literal_token, make_fatal, or_else,
    pat_agrees, pats_agree, punct, recoverable, spec_bang, spec_literal_token, spec_punct,
    spec_wild, wild, MatchError, SpecResult,
};
use crate::token::Token;

verus! {

/// `! ;`: a hole followed by a semicolon.
pub open spec fn spec_next_semi(t: Seq<Token>, p: int) -> SpecResult<PatternModel> {
    match spec_bang(t, p) {
        Err(e) => Err(e),
        Ok((q, o)) => match spec_punct(t, q, ';') {
            Err(e) => Err(e),
            Ok(r) => Ok((r, o)),
        },
    }
}

pub open spec fn spec_star_next_semi(t: Seq<Token>, p: int, acc: Seq<PatternModel>) -> SpecResult<
    Seq<PatternModel>,
>
    decreases t.len() - p,
{
    match spec_next_semi(t, p) {
        Ok((q, v)) => if p < q <= t.len() {
            spec_star_next_semi(t, q, acc.push(v))
        } else {
            Ok((p, acc))
        },
        Err(e) => if recoverable(e) {
            Ok((p, acc))
        } else {
            Err(e)
        },
    }
}

/// The last pattern: `_` or a literal.
pub open spec fn spec_last_option(t: Seq<Token>, p: int) -> SpecResult<PatternModel> {
    or_else(
        spec_wild(t, p),
        match spec_literal_token(t, p) {
            Ok((q, l)) => Ok((q, PatternModel::Literal(l))),
            Err(e) => Err(e),
        },
    )
}

/// Holes ended by `;`, then (committed) a last pattern.
pub open spec fn spec_next_chain(t: Seq<Token>, p: int) -> SpecResult<Seq<PatternModel>> {
    match spec_star_next_semi(t, p, seq![]) {
        Err(e) => Err(e),
        Ok((q, os)) => match spec_last_option(t, q) {
            Err(e) => Err(fatal(e)),
            Ok((r, o)) => Ok((r, os.push(o))),
        },
    }
}

/// What a chain of holes parses to: the whole input must be the chain, and
/// the chain must pass [`chain_check`].
pub open spec fn spec_parse_next_chain(t: Seq<Token>) -> Result<Seq<PatternModel>, MatchError> {
    match spec_next_chain(t, 0) {
        Err(e) => Err(e),
        Ok((q, pats)) => if q != t.len() {
            Err(MatchError::FatalEndOfFile)
        } else {
            match chain_check(pats) {
                Err(e) => Err(e),
                Ok(_) => Ok(pats),
            }
        },
    }
}

/// `n` holes, each `! ;`, followed by `_` or a literal.
pub open spec fn holes_then_last(t: Seq<Token>, n: int) -> bool {
    &&& n >= 0
    &&& t.len() == 2 * n + 1
    &&& forall|j: int| 0 <= j < n ==> #[trigger] t[2 * j] == Token::Punct('!')
    &&& forall|j: int| 0 <= j < n ==> #[trigger] t[2 * j + 1] == Token::Punct(';')
    &&& (t[2 * n] is Literal || (t[2 * n] is Ident && t[2 * n]->Ident_0@ == seq!['_']))
}

/// The pattern that `_` or a literal stands for.
pub open spec fn last_pattern(tok: Token) -> PatternModel {
    if tok is Literal {
        PatternModel::Literal(tok->Literal_0@)
    } else {
        PatternModel::Wild
    }
}

proof fn lemma_star_holes(t: Seq<Token>, n: int, i: int)
    requires
        holes_then_last(t, n),
        0 <= i <= n,
    ensures
        spec_star_next_semi(t, 2 * i, Seq::new(i as nat, |j: int| PatternModel::Next))
            == Ok::<(int, Seq<PatternModel>), MatchError>(
            (2 * n, Seq::new(n as nat, |j: int| PatternModel::Next)),
        ),
    decreases n - i,
{
    if i < n {
        assert(t[2 * i] == Token::Punct('!'));
        assert(t[2 * i + 1] == Token::Punct(';'));
        assert(spec_next_semi(t, 2 * i) == Ok::<(int, PatternModel), MatchError>(
            (2 * i + 2, PatternModel::Next),
        ));
        assert(Seq::new(i as nat, |j: int| PatternModel::Next).push(PatternModel::Next) =~= Seq::new(
            (i + 1) as nat,
            |j: int| PatternModel::Next,
        ));
        lemma_star_holes(t, n, i + 1);
        assert(2 * (i + 1) == 2 * i + 2);
    } else {
        assert(t[2 * n] != Token::Punct('!'));
        assert(spec_next_semi(t, 2 * i) is Err);
    }
}

/// Any number of holes, zero included, followed by `_` or a literal parses
/// to that many `Next` patterns followed by the last pattern; so a lone `_`
/// parses to `[Wild]`.
pub proof fn lemma_holes_then_last_parse(t: Seq<Token>, n: int)
    requires
        holes_then_last(t, n),
    ensures
        spec_parse_next_chain(t) == Ok::<Seq<PatternModel>, MatchError>(
            Seq::new(n as nat, |j: int| PatternModel::Next).push(last_pattern(t[2 * n])),
        ),
{
    let nexts = Seq::new(n as nat, |j: int| PatternModel::Next);
    assert(Seq::new(0, |j: int| PatternModel::Next) =~= Seq::<PatternModel>::empty());
    lemma_star_holes(t, n, 0);
    assert(spec_last_option(t, 2 * n) == Ok::<(int, PatternModel), MatchError>(
        (2 * n + 1, last_pattern(t[2 * n])),
    ));
    let pats = nexts.push(last_pattern(t[2 * n]));
    assert(spec_next_chain(t, 0) == Ok::<(int, Seq<PatternModel>), MatchError>((2 * n + 1, pats)));
    assert forall|i: int| 0 <= i < pats.len() - 1 implies #[trigger] count_next(pats[i]) != 0 by {
        assert(pats[i] == PatternModel::Next);
    }
    assert(count_next(pats.last()) == 0);
}

fn next_semi(toks: &Vec<Token>, pos: usize) -> (r: Result<(usize, ObjectPattern), MatchError>)
    requires
        pos <= toks.len(),
    ensures
        pat_agrees(r, spec_next_semi(toks@, pos as int)),
        r matches Ok((q, v)) ==> pos < q <= toks.len() && count_next(v@) == 1,
{
    let (q, o) = bang(toks, pos)?;
    let r = punct(toks, q, ';')?;
    Ok((r, o))
}

fn star_next_semi(toks: &Vec<Token>, pos: usize, acc: Vec<ObjectPattern>) -> (r: Result<
    (usize, Vec<ObjectPattern>),
    MatchError,
>)
    requires
        pos <= toks.len(),
    ensures
        pats_agree(r, spec_star_next_semi(toks@, pos as int, pats_model(acc@))),
        r matches Ok((q, _)) ==> pos <= q <= toks.len(),
    decreases toks.len() - pos,
{
    match next_semi(toks, pos) {
        Ok((q, v)) => {
            proof {
                lemma_pats_model_push(acc@, v);
            }
            let mut acc = acc;
            acc.push(v);
            star_next_semi(toks, q, acc)
        },
        Err(e) => if is_recoverable(&e) {
            Ok((pos, acc))
        } else {
            Err(e)
        },
    }
}

fn last_option(toks: &Vec<Token>, pos: usize) -> (r: Result<(usize, ObjectPattern), MatchError>)
    requires
        pos <= toks.len(),
    ensures
        pat_agrees(r, spec_last_option(toks@, pos as int)),
        r matches Ok((q, _)) ==> pos < q <= toks.len(),
{
    match wild(toks, pos) {
        Ok(x) => return Ok(x),
        Err(e) => if !is_recoverable(&e) {
            return Err(e);
        },
    }
    let (q, l) = literal_token(toks, pos)?;
    Ok((q, ObjectPattern::Literal(l)))
}

/// Parses a chain of holes: `! ;` any number of times, then `_` or a
/// literal, which must be all of the input. Every pattern but the last holds
/// a hole, so the chain passes its check whenever it parses.
pub fn parse_object_pattern(input: &Vec<Token>) -> (r: Result<Vec<ObjectPattern>, MatchError>)
    ensures
        match r {
            Ok(pats) => spec_parse_next_chain(input@) == Ok::<_, MatchError>(pats_model(pats@)),
            Err(e) => spec_parse_next_chain(input@) == Err::<Seq<PatternModel>, MatchError>(e),
        },
{
    let acc: Vec<ObjectPattern> = Vec::new();
    proof {
        assert(pats_model(acc@) =~= seq![]);
    }
    let (q, mut pats) = star_next_semi(input, 0, acc)?;
    let (r, last) = match last_option(input, q) {
        Ok(x) => x,
        Err(e) => return Err(make_fatal(e)),
    };
    proof {
        lemma_pats_model_push(pats@, last);
    }
    pats.push(last);
    if r != input.len() {
        return Err(MatchError::FatalEndOfFile);
    }
    check_chain(&pats)?;
    Ok(pats)
}

} // verus!
