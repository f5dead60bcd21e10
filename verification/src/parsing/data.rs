use vstd::prelude::*;

use crate::data::{
    count_next, lemma_pats_model, no_execute, pats_model, ObjectPattern, PatternModel,
};
use crate::token::{lemma_size_from_mono, token_size, tokens_size_from, Token};

verus! {

/// The outcome of a single-step pattern parser.
#[derive(Debug)]
pub enum ParseResult<T> {
    Success(T),
    Error,
    Fatal,
}

/// Why a parse failed.
///
/// An `Error` may be recovered from: an alternative or a repetition that
/// meets one tries the next option or stops. A `Fatal` one ends the whole
/// parse. The position is the index of the offending token in the token list
/// that was being parsed (the inside of a group counts from zero).
#[derive(Clone, Copy, Debug, PartialEq, Eq, Structural)]
pub enum MatchError {
    Error(usize),
    Fatal(usize),
    ErrorEndOfFile,
    FatalEndOfFile,
}

/// A parse result: the position after what was consumed, and the value.
pub type SpecResult<T> = Result<(int, T), MatchError>;

/// The recoverable error for a token that does not fit at `pos`.
pub open spec fn failure(t: Seq<Token>, pos: int) -> MatchError {
    if 0 <= pos < t.len() {
        MatchError::Error(pos as usize)
    } else {
        MatchError::ErrorEndOfFile
    }
}

/// The same error made fatal.
pub open spec fn fatal(e: MatchError) -> MatchError {
    match e {
        MatchError::Error(i) => MatchError::Fatal(i),
        MatchError::ErrorEndOfFile => MatchError::FatalEndOfFile,
        _ => e,
    }
}

pub open spec fn recoverable(e: MatchError) -> bool {
    e is Error || e is ErrorEndOfFile
}

/// Ordered choice: `r` unless it failed recoverably, then `f`.
pub open spec fn or_else<T>(r: SpecResult<T>, f: SpecResult<T>) -> SpecResult<T> {
    match r {
        Ok(_) => r,
        Err(e) => if recoverable(e) {
            f
        } else {
            r
        },
    }
}

/// A punctuation character `c` at `pos`.
pub open spec fn spec_punct(t: Seq<Token>, pos: int, c: char) -> Result<int, MatchError> {
    if 0 <= pos < t.len() && t[pos] is Punct && t[pos]->Punct_0 == c {
        Ok(pos + 1)
    } else {
        Err(failure(t, pos))
    }
}

/// An identifier at `pos`, and its text.
pub open spec fn spec_ident(t: Seq<Token>, pos: int) -> SpecResult<Seq<char>> {
    if 0 <= pos < t.len() && t[pos] is Ident {
        Ok((pos + 1, t[pos]->Ident_0@))
    } else {
        Err(failure(t, pos))
    }
}

/// A literal at `pos`, and its text.
pub open spec fn spec_literal_token(t: Seq<Token>, pos: int) -> SpecResult<Seq<char>> {
    if 0 <= pos < t.len() && t[pos] is Literal {
        Ok((pos + 1, t[pos]->Literal_0@))
    } else {
        Err(failure(t, pos))
    }
}

/// The identifier `_` at `pos`.
pub open spec fn spec_wild(t: Seq<Token>, pos: int) -> SpecResult<PatternModel> {
    if 0 <= pos < t.len() && t[pos] is Ident && t[pos]->Ident_0@ == seq!['_'] {
        Ok((pos + 1, PatternModel::Wild))
    } else {
        Err(failure(t, pos))
    }
}

/// The punctuation `!` at `pos`.
pub open spec fn spec_bang(t: Seq<Token>, pos: int) -> SpecResult<PatternModel> {
    match spec_punct(t, pos, '!') {
        Ok(q) => Ok((q, PatternModel::Next)),
        Err(e) => Err(e),
    }
}

pub open spec fn unit_agrees(r: Result<usize, MatchError>, s: Result<int, MatchError>) -> bool {
    match r {
        Ok(q) => s == Ok::<int, MatchError>(q as int),
        Err(e) => s == Err::<int, MatchError>(e),
    }
}

pub open spec fn str_agrees(
    r: Result<(usize, String), MatchError>,
    s: SpecResult<Seq<char>>,
) -> bool {
    match r {
        Ok((q, v)) => s == Ok::<(int, Seq<char>), MatchError>((q as int, v@)),
        Err(e) => s == Err::<(int, Seq<char>), MatchError>(e),
    }
}

pub open spec fn pat_agrees(
    r: Result<(usize, ObjectPattern), MatchError>,
    s: SpecResult<PatternModel>,
) -> bool {
    match r {
        Ok((q, v)) => s == Ok::<(int, PatternModel), MatchError>((q as int, v@)),
        Err(e) => s == Err::<(int, PatternModel), MatchError>(e),
    }
}

pub open spec fn pats_agree(
    r: Result<(usize, Vec<ObjectPattern>), MatchError>,
    s: SpecResult<Seq<PatternModel>>,
) -> bool {
    match r {
        Ok((q, v)) => s == Ok::<(int, Seq<PatternModel>), MatchError>((q as int, pats_model(v@))),
        Err(e) => s == Err::<(int, Seq<PatternModel>), MatchError>(e),
    }
}

/// A parsed pattern that came from the tokens between `pos` and its end
/// position: it holds no `Execute` node and no more `Next` nodes than tokens.
pub open spec fn pat_fits(
    t: Seq<Token>,
    pos: int,
    r: Result<(usize, ObjectPattern), MatchError>,
) -> bool {
    r matches Ok((q, v)) ==> {
        &&& pos < q <= t.len()
        &&& no_execute(v@)
        &&& count_next(v@) + tokens_size_from(t, q as int) <= tokens_size_from(t, pos)
    }
}

pub(crate) fn failure_at(toks: &Vec<Token>, pos: usize) -> (e: MatchError)
    ensures
        e == failure(toks@, pos as int),
{
    if pos < toks.len() {
        MatchError::Error(pos)
    } else {
        MatchError::ErrorEndOfFile
    }
}

pub(crate) fn make_fatal(e: MatchError) -> (r: MatchError)
    ensures
        r == fatal(e),
{
    match e {
        MatchError::Error(i) => MatchError::Fatal(i),
        MatchError::ErrorEndOfFile => MatchError::FatalEndOfFile,
        _ => e,
    }
}

pub(crate) fn is_recoverable(e: &MatchError) -> (r: bool)
    ensures
        r == recoverable(*e),
{
    match e {
        MatchError::Error(_) => true,
        MatchError::ErrorEndOfFile => true,
        _ => false,
    }
}

pub(crate) fn punct(toks: &Vec<Token>, pos: usize, c: char) -> (r: Result<usize, MatchError>)
    requires
        pos <= toks.len(),
    ensures
        unit_agrees(r, spec_punct(toks@, pos as int, c)),
        r matches Ok(q) ==> q == pos + 1 && q <= toks.len(),
{
    if pos < toks.len() {
        if let Token::Punct(x) = &toks[pos] {
            if *x == c {
                return Ok(pos + 1);
            }
        }
    }
    Err(failure_at(toks, pos))
}

pub(crate) fn ident(toks: &Vec<Token>, pos: usize) -> (r: Result<(usize, String), MatchError>)
    requires
        pos <= toks.len(),
    ensures
        str_agrees(r, spec_ident(toks@, pos as int)),
        r matches Ok((q, _)) ==> q == pos + 1 && q <= toks.len(),
{
    if pos < toks.len() {
        if let Token::Ident(s) = &toks[pos] {
            return Ok((pos + 1, s.clone()));
        }
    }
    Err(failure_at(toks, pos))
}

pub(crate) fn literal_token(toks: &Vec<Token>, pos: usize) -> (r: Result<(usize, String), MatchError>)
    requires
        pos <= toks.len(),
    ensures
        str_agrees(r, spec_literal_token(toks@, pos as int)),
        r matches Ok((q, _)) ==> q == pos + 1 && q <= toks.len(),
{
    if pos < toks.len() {
        if let Token::Literal(s) = &toks[pos] {
            return Ok((pos + 1, s.clone()));
        }
    }
    Err(failure_at(toks, pos))
}

pub(crate) fn wild(toks: &Vec<Token>, pos: usize) -> (r: Result<(usize, ObjectPattern), MatchError>)
    requires
        pos <= toks.len(),
    ensures
        pat_agrees(r, spec_wild(toks@, pos as int)),
        pat_fits(toks@, pos as int, r),
{
    if pos < toks.len() {
        if let Token::Ident(s) = &toks[pos] {
            let text = s.as_str();
            if text.unicode_len() == 1 && text.get_char(0) == '_' {
                proof {
                    assert(s@ =~= seq!['_']);
                    lemma_size_from_mono(toks@, pos as int, pos + 1);
                }
                return Ok((pos + 1, ObjectPattern::Wild));
            }
        }
    }
    Err(failure_at(toks, pos))
}

pub(crate) fn bang(toks: &Vec<Token>, pos: usize) -> (r: Result<(usize, ObjectPattern), MatchError>)
    requires
        pos <= toks.len(),
    ensures
        pat_agrees(r, spec_bang(toks@, pos as int)),
        pat_fits(toks@, pos as int, r),
{
    match punct(toks, pos, '!') {
        Ok(q) => {
            proof {
                lemma_size_from_mono(toks@, pos as int, q as int);
                assert(tokens_size_from(toks@, pos as int) == token_size(toks@[pos as int])
                    + tokens_size_from(toks@, q as int));
            }
            Ok((q, ObjectPattern::Next))
        },
        Err(e) => Err(e),
    }
}

/// Every pattern of a chain but the last must hold a `Next`, and the last
/// must not: a pattern without `Next` ends the chain.
pub open spec fn chain_check(pats: Seq<PatternModel>) -> Result<(), MatchError> {
    if exists|i: int| 0 <= i < pats.len() - 1 && #[trigger] count_next(pats[i]) == 0 {
        Err(MatchError::FatalEndOfFile)
    } else if pats.len() > 0 && count_next(pats.last()) == 0 {
        Ok(())
    } else {
        Err(MatchError::ErrorEndOfFile)
    }
}

pub(crate) fn check_chain(pats: &Vec<ObjectPattern>) -> (r: Result<(), MatchError>)
    ensures
        r == chain_check(pats_model(pats@)),
{
    let ghost m = pats_model(pats@);
    proof {
        lemma_pats_model(pats@);
    }
    let mut i: usize = 0;
    while i < pats.len() && pats[i].has_next()
        invariant
            0 <= i <= pats.len(),
            m == pats_model(pats@),
            m.len() == pats.len(),
            forall|j: int| 0 <= j < pats.len() ==> #[trigger] m[j] == pats@[j]@,
            forall|j: int| 0 <= j < i ==> count_next(#[trigger] m[j]) > 0,
        decreases pats.len() - i,
    {
        i = i + 1;
    }
    if i == pats.len() {
        return Err(MatchError::ErrorEndOfFile);
    }
    assert(count_next(m[i as int]) == 0);
    if i + 1 != pats.len() {
        return Err(MatchError::FatalEndOfFile);
    }
    Ok(())
}

} // verus!
