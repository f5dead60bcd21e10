use vstd::prelude::*;

use crate::data::{
    chain_ready, strip_execute, tops_ok, all_no_execute, count_fields, count_list, count_next, fields_no_execute, lemma_count_fields_push,
    lemma_count_list_push, lemma_fields_model_push, lemma_pats_model_push, pat_model, fields_model, no_execute, pats_model, ObjPatsAct, ObjectPattern,
    PatternModel,
};
use crate::parsing::data::{
    chain_check, check_chain, bang, failure, failure_at, fatal, ident, is_recoverable, literal_token, make_fatal, or_else,
    pat_agrees, pat_fits, pats_agree, punct, recoverable, spec_bang, spec_ident,
    spec_literal_token, spec_punct, spec_wild, str_agrees, unit_agrees, wild, MatchError,
    SpecResult,
};
use crate::token::{token_count, lemma_size_from_mono, lemma_size_group, tokens_size_from, Delimiter, Token};

verus! {

// ---------------------------------------------------------------------------
// The grammar of object patterns, as spec functions over token lists.
//
// Every production takes the tokens and a position and gives the position
// after what it consumed with the value, or an error. A production marked
// "committed" turns a recoverable error of its part into a fatal one.
// ---------------------------------------------------------------------------

/// `..`: a dot, then (committed) a dot.
pub open spec fn spec_dot_dot(t: Seq<Token>, p: int) -> Result<int, MatchError> {
    match spec_punct(t, p, '.') {
        Ok(q) => match spec_punct(t, q, '.') {
            Ok(r) => Ok(r),
            Err(e) => Err(fatal(e)),
        },
        Err(e) => Err(e),
    }
}

/// `..` as the rest pattern.
pub open spec fn spec_rest(t: Seq<Token>, p: int) -> SpecResult<PatternModel> {
    match spec_dot_dot(t, p) {
        Ok(q) => Ok((q, PatternModel::Rest)),
        Err(e) => Err(e),
    }
}

/// `::`: a colon, then (committed) a colon.
pub open spec fn spec_colon_colon(t: Seq<Token>, p: int) -> SpecResult<Seq<char>> {
    match spec_punct(t, p, ':') {
        Ok(q) => match spec_punct(t, q, ':') {
            Ok(r) => Ok((r, "::"@)),
            Err(e) => Err(fatal(e)),
        },
        Err(e) => Err(e),
    }
}

/// `=>`: an equals sign, then (committed) a greater-than sign.
pub open spec fn spec_arrow(t: Seq<Token>, p: int) -> Result<int, MatchError> {
    match spec_punct(t, p, '=') {
        Ok(q) => match spec_punct(t, q, '>') {
            Ok(r) => Ok(r),
            Err(e) => Err(fatal(e)),
        },
        Err(e) => Err(e),
    }
}

/// A literal, or a minus sign followed (committed) by a literal.
pub open spec fn spec_lit_text(t: Seq<Token>, p: int) -> SpecResult<Seq<char>> {
    or_else(
        spec_literal_token(t, p),
        match spec_punct(t, p, '-') {
            Ok(q) => match spec_literal_token(t, q) {
                Ok((r, l)) => Ok((r, "-"@ + l)),
                Err(e) => Err(fatal(e)),
            },
            Err(e) => Err(e),
        },
    )
}

pub open spec fn spec_literal(t: Seq<Token>, p: int) -> SpecResult<PatternModel> {
    match spec_lit_text(t, p) {
        Ok((q, l)) => Ok((q, PatternModel::Literal(l))),
        Err(e) => Err(e),
    }
}

/// `a..=b`: a literal, `..`, then (committed) `=` and a literal.
pub open spec fn spec_range(t: Seq<Token>, p: int) -> SpecResult<PatternModel> {
    match spec_lit_text(t, p) {
        Err(e) => Err(e),
        Ok((q1, start)) => match spec_dot_dot(t, q1) {
            Err(e) => Err(e),
            Ok(q2) => match spec_punct(t, q2, '=') {
                Err(e) => Err(fatal(e)),
                Ok(q3) => match spec_lit_text(t, q3) {
                    Err(e) => Err(fatal(e)),
                    Ok((q4, end)) => Ok((q4, PatternModel::RangeInclusive { start, end })),
                },
            },
        },
    }
}

/// `name::`
pub open spec fn spec_ident_colon_colon(t: Seq<Token>, p: int) -> SpecResult<Seq<char>> {
    match spec_ident(t, p) {
        Err(e) => Err(e),
        Ok((q, i)) => match spec_colon_colon(t, q) {
            Err(e) => Err(e),
            Ok((r, c)) => Ok((r, i + c)),
        },
    }
}

/// Zero or more `name::`, their texts joined onto `acc`.
pub open spec fn spec_star_ident_colon_colon(t: Seq<Token>, p: int, acc: Seq<char>) -> SpecResult<
    Seq<char>,
>
    decreases t.len() - p,
{
    match spec_ident_colon_colon(t, p) {
        Ok((q, s)) => if p < q <= t.len() {
            spec_star_ident_colon_colon(t, q, acc + s)
        } else {
            Ok((p, acc))
        },
        Err(e) => if recoverable(e) {
            Ok((p, acc))
        } else {
            Err(e)
        },
    }
}

/// A path such as `::a::b::C`: an optional leading `::`, any number of
/// `name::`, and a last name.
pub open spec fn spec_cons_tag(t: Seq<Token>, p: int) -> SpecResult<Seq<char>> {
    let lead = match spec_colon_colon(t, p) {
        Ok((q, c)) => Ok((q, c)),
        Err(e) => if recoverable(e) {
            Ok((p, Seq::<char>::empty()))
        } else {
            Err(e)
        },
    };
    match lead {
        Err(e) => Err(e),
        Ok((q1, prefix)) => match spec_star_ident_colon_colon(t, q1, Seq::<char>::empty()) {
            Err(e) => Err(e),
            Ok((q2, body)) => match spec_ident(t, q2) {
                Err(e) => Err(e),
                Ok((q3, last)) => Ok((q3, prefix + body + last)),
            },
        },
    }
}

pub open spec fn spec_cons_alone(t: Seq<Token>, p: int) -> SpecResult<PatternModel> {
    match spec_cons_tag(t, p) {
        Err(e) => Err(e),
        Ok((q, tag)) => Ok((q, PatternModel::Cons { cons: tag, params: seq![] })),
    }
}

/// `x @ ..`
pub open spec fn spec_at_dot_dot(t: Seq<Token>, p: int) -> SpecResult<PatternModel> {
    match spec_ident(t, p) {
        Err(e) => Err(e),
        Ok((q1, name)) => match spec_punct(t, q1, '@') {
            Err(e) => Err(e),
            Ok(q2) => match spec_dot_dot(t, q2) {
                Err(e) => Err(e),
                Ok(q3) => Ok(
                    (q3, PatternModel::At { name, pattern: Box::new(PatternModel::Rest) }),
                ),
            },
        },
    }
}

/// A field written as its name alone, which binds the field to that name.
pub open spec fn spec_field_alone(t: Seq<Token>, p: int) -> SpecResult<(Seq<char>, PatternModel)> {
    match spec_ident(t, p) {
        Err(e) => Err(e),
        Ok((q, name)) => Ok((q, (name, PatternModel::Literal(name)))),
    }
}

/// A group token at `p`.
pub open spec fn spec_group(t: Seq<Token>, p: int) -> Result<int, MatchError> {
    if 0 <= p < t.len() && t[p] is Group {
        Ok(p + 1)
    } else {
        Err(failure(t, p))
    }
}

/// `? { .. }`: a question mark, then (committed) a group, taken as its text.
pub open spec fn spec_condition(t: Seq<Token>, p: int) -> SpecResult<Seq<char>> {
    match spec_punct(t, p, '?') {
        Err(e) => Err(e),
        Ok(q) => match spec_group(t, q) {
            Err(e) => Err(fatal(e)),
            Ok(r) => Ok((r, t[q]->Group_text@)),
        },
    }
}

/// `& { .. }`: an ampersand, then (committed) a group, taken as the text of
/// its inside.
pub open spec fn spec_execute(t: Seq<Token>, p: int) -> SpecResult<Seq<char>> {
    match spec_punct(t, p, '&') {
        Err(e) => Err(e),
        Ok(q) => match spec_group(t, q) {
            Err(e) => Err(fatal(e)),
            Ok(r) => Ok((r, t[q]->Group_stream_text@)),
        },
    }
}

/// Something optional: `None` where it fails recoverably.
pub open spec fn optional<T>(r: SpecResult<T>, p: int) -> SpecResult<Option<T>> {
    match r {
        Ok((q, v)) => Ok((q, Some(v))),
        Err(e) => if recoverable(e) {
            Ok((p, None))
        } else {
            Err(e)
        },
    }
}

/// An optional condition followed by an optional executable block.
pub open spec fn spec_guards(t: Seq<Token>, p: int) -> SpecResult<
    (Option<Seq<char>>, Option<Seq<char>>),
> {
    match optional(spec_condition(t, p), p) {
        Err(e) => Err(e),
        Ok((q, c)) => match optional(spec_execute(t, q), q) {
            Err(e) => Err(e),
            Ok((r, x)) => Ok((r, (c, x))),
        },
    }
}

/// A pattern with its optional condition and executable block attached.
pub open spec fn wrap(o: PatternModel, c: Option<Seq<char>>, x: Option<Seq<char>>) -> PatternModel {
    match (c, x) {
        (Some(condition), Some(action)) => PatternModel::Execute {
            action,
            pattern: Box::new(PatternModel::If { condition, pattern: Box::new(o) }),
        },
        (Some(condition), None) => PatternModel::If { condition, pattern: Box::new(o) },
        (None, Some(action)) => PatternModel::Execute { action, pattern: Box::new(o) },
        (None, None) => o,
    }
}

// The recursive part of the grammar. Each production decreases the size of
// the tokens from its position on, and, at one position, a rank. Where a
// production goes on at the position another one returned, it checks that the
// position moved forward within the tokens; the parser's postconditions show
// that every production that succeeds consumes at least one token, so these
// checks always hold.

/// `( .. )`: a parenthesized group holding a comma separated pattern list.
pub open spec fn spec_params(t: Seq<Token>, p: int) -> SpecResult<Seq<PatternModel>>
    decreases tokens_size_from(t, p), 1int,
{
    if 0 <= p < t.len() && t[p] is Group {
        if t[p]->Group_delimiter != Delimiter::Parenthesis {
            Err(MatchError::ErrorEndOfFile)
        } else {
            let inner = t[p]->Group_stream@;
            if inner.len() == 0 {
                Ok((p + 1, seq![]))
            } else {
                proof {
                    lemma_size_group(t, p);
                }
                match spec_pat_list(inner, 0) {
                    Err(e) => Err(e),
                    Ok((q, v)) => if q != inner.len() {
                        Err(MatchError::FatalEndOfFile)
                    } else {
                        Ok((p + 1, v))
                    },
                }
            }
        }
    } else {
        Err(failure(t, p))
    }
}

/// `{ .. }` of a struct pattern: a braced group holding fields.
pub open spec fn spec_structure_fields(t: Seq<Token>, p: int) -> SpecResult<
    (Seq<(Seq<char>, PatternModel)>, bool),
>
    decreases tokens_size_from(t, p), 1int,
{
    if 0 <= p < t.len() && t[p] is Group {
        if t[p]->Group_delimiter != Delimiter::Brace {
            Err(MatchError::ErrorEndOfFile)
        } else {
            let inner = t[p]->Group_stream@;
            if inner.len() == 0 {
                Err(MatchError::FatalEndOfFile)
            } else {
                proof {
                    lemma_size_group(t, p);
                }
                match spec_fields(inner, 0) {
                    Err(e) => Err(e),
                    Ok((q, v)) => if q != inner.len() {
                        Err(MatchError::FatalEndOfFile)
                    } else {
                        Ok((p + 1, v))
                    },
                }
            }
        }
    } else {
        Err(failure(t, p))
    }
}

/// `[ .. ]`: a bracketed group holding a comma separated item list.
pub open spec fn spec_list(t: Seq<Token>, p: int) -> SpecResult<PatternModel>
    decreases tokens_size_from(t, p), 1int,
{
    if 0 <= p < t.len() && t[p] is Group {
        if t[p]->Group_delimiter != Delimiter::Bracket {
            Err(MatchError::ErrorEndOfFile)
        } else {
            let inner = t[p]->Group_stream@;
            if inner.len() == 0 {
                Ok((p + 1, PatternModel::List(seq![])))
            } else {
                proof {
                    lemma_size_group(t, p);
                }
                match spec_list_items(inner, 0) {
                    Err(e) => Err(e),
                    Ok((q, v)) => if q != inner.len() {
                        Err(MatchError::FatalEndOfFile)
                    } else {
                        Ok((p + 1, PatternModel::List(v)))
                    },
                }
            }
        }
    } else {
        Err(failure(t, p))
    }
}

/// `x @ pattern`: a name, `@`, then (committed) a pattern.
pub open spec fn spec_at_pat(t: Seq<Token>, p: int) -> SpecResult<PatternModel>
    decreases tokens_size_from(t, p), 1int,
{
    match spec_ident(t, p) {
        Err(e) => Err(e),
        Ok((q1, name)) => match spec_punct(t, q1, '@') {
            Err(e) => Err(e),
            Ok(q2) => {
                proof {
                    lemma_size_from_mono(t, p, q2);
                }
                match spec_option(t, q2) {
                    Err(e) => Err(fatal(e)),
                    Ok((q3, o)) => Ok((q3, PatternModel::At { name, pattern: Box::new(o) })),
                }
            },
        },
    }
}

/// `Name { fields }`
pub open spec fn spec_structure(t: Seq<Token>, p: int) -> SpecResult<PatternModel>
    decreases tokens_size_from(t, p), 1int,
{
    match spec_ident(t, p) {
        Err(e) => Err(e),
        Ok((q1, name)) => {
            proof {
                lemma_size_from_mono(t, p, q1);
            }
            match spec_structure_fields(t, q1) {
                Err(e) => Err(e),
                Ok((q2, (fields, rest))) => Ok((q2, PatternModel::Struct { name, fields, rest })),
            }
        },
    }
}

/// `name : pattern`
pub open spec fn spec_field_with_pattern(t: Seq<Token>, p: int) -> SpecResult<
    (Seq<char>, PatternModel),
>
    decreases tokens_size_from(t, p), 1int,
{
    match spec_ident(t, p) {
        Err(e) => Err(e),
        Ok((q1, name)) => match spec_punct(t, q1, ':') {
            Err(e) => Err(e),
            Ok(q2) => {
                proof {
                    lemma_size_from_mono(t, p, q2);
                }
                match spec_option(t, q2) {
                    Err(e) => Err(e),
                    Ok((q3, o)) => Ok((q3, (name, o))),
                }
            },
        },
    }
}

/// `Path(params)`
pub open spec fn spec_cons_with_param(t: Seq<Token>, p: int) -> SpecResult<PatternModel>
    decreases tokens_size_from(t, p), 1int,
{
    match spec_cons_tag(t, p) {
        Err(e) => Err(e),
        Ok((q1, tag)) => {
            proof {
                lemma_cons_tag_progress(t, p);
                lemma_size_from_mono(t, p, q1);
            }
            match spec_params(t, q1) {
                Err(e) => Err(e),
                Ok((q2, params)) => Ok((q2, PatternModel::Cons { cons: tag, params })),
            }
        },
    }
}

/// `(params)` without a path.
pub open spec fn spec_tuple(t: Seq<Token>, p: int) -> SpecResult<PatternModel>
    decreases tokens_size_from(t, p), 2int,
{
    match spec_params(t, p) {
        Err(e) => Err(e),
        Ok((q, params)) => Ok((q, PatternModel::Tuple(params))),
    }
}

pub open spec fn spec_cons(t: Seq<Token>, p: int) -> SpecResult<PatternModel>
    decreases tokens_size_from(t, p), 2int,
{
    or_else(spec_cons_with_param(t, p), spec_cons_alone(t, p))
}

pub open spec fn spec_field(t: Seq<Token>, p: int) -> SpecResult<(Seq<char>, PatternModel)>
    decreases tokens_size_from(t, p), 2int,
{
    or_else(spec_field_with_pattern(t, p), spec_field_alone(t, p))
}

/// One alternative of an or-pattern; the first of these that fits is taken.
pub open spec fn spec_item(t: Seq<Token>, p: int) -> SpecResult<PatternModel>
    decreases tokens_size_from(t, p), 3int,
{
    or_else(
        spec_at_pat(t, p),
        or_else(
            spec_wild(t, p),
            or_else(
                spec_range(t, p),
                or_else(
                    spec_structure(t, p),
                    or_else(
                        spec_literal(t, p),
                        or_else(
                            spec_bang(t, p),
                            or_else(spec_cons(t, p), or_else(spec_tuple(t, p), spec_list(t, p))),
                        ),
                    ),
                ),
            ),
        ),
    )
}

pub open spec fn spec_field_comma(t: Seq<Token>, p: int) -> SpecResult<(Seq<char>, PatternModel)>
    decreases tokens_size_from(t, p), 3int,
{
    match spec_field(t, p) {
        Err(e) => Err(e),
        Ok((q, f)) => match spec_punct(t, q, ',') {
            Err(e) => Err(e),
            Ok(r) => Ok((r, f)),
        },
    }
}

pub open spec fn spec_item_or(t: Seq<Token>, p: int) -> SpecResult<PatternModel>
    decreases tokens_size_from(t, p), 4int,
{
    match spec_item(t, p) {
        Err(e) => Err(e),
        Ok((q, v)) => match spec_punct(t, q, '|') {
            Err(e) => Err(e),
            Ok(r) => Ok((r, v)),
        },
    }
}

pub open spec fn spec_star_field_comma(
    t: Seq<Token>,
    p: int,
    acc: Seq<(Seq<char>, PatternModel)>,
) -> SpecResult<Seq<(Seq<char>, PatternModel)>>
    decreases tokens_size_from(t, p), 4int,
{
    match spec_field_comma(t, p) {
        Ok((q, f)) => if 0 <= p < q <= t.len() {
            proof {
                lemma_size_from_mono(t, p, q);
            }
            spec_star_field_comma(t, q, acc.push(f))
        } else {
            Ok((p, acc))
        },
        Err(e) => if recoverable(e) {
            Ok((p, acc))
        } else {
            Err(e)
        },
    }
}

pub open spec fn spec_star_item_or(t: Seq<Token>, p: int, acc: Seq<PatternModel>) -> SpecResult<
    Seq<PatternModel>,
>
    decreases tokens_size_from(t, p), 5int,
{
    match spec_item_or(t, p) {
        Ok((q, v)) => if 0 <= p < q <= t.len() {
            proof {
                lemma_size_from_mono(t, p, q);
            }
            spec_star_item_or(t, q, acc.push(v))
        } else {
            Ok((p, acc))
        },
        Err(e) => if recoverable(e) {
            Ok((p, acc))
        } else {
            Err(e)
        },
    }
}

/// Fields ending in `..`.
pub open spec fn spec_fields_with_rest(t: Seq<Token>, p: int) -> SpecResult<
    (Seq<(Seq<char>, PatternModel)>, bool),
>
    decreases tokens_size_from(t, p), 5int,
{
    match spec_star_field_comma(t, p, seq![]) {
        Err(e) => Err(e),
        Ok((q, fs)) => match spec_dot_dot(t, q) {
            Err(e) => Err(e),
            Ok(r) => Ok((r, (fs, true))),
        },
    }
}

/// Fields ending in a field.
pub open spec fn spec_fields_alone(t: Seq<Token>, p: int) -> SpecResult<
    (Seq<(Seq<char>, PatternModel)>, bool),
>
    decreases tokens_size_from(t, p), 5int,
{
    match spec_star_field_comma(t, p, seq![]) {
        Err(e) => Err(e),
        Ok((q, fs)) => if 0 <= p <= q <= t.len() {
            proof {
                lemma_size_from_mono(t, p, q);
            }
            match spec_field(t, q) {
                Err(e) => Err(e),
                Ok((r, f)) => Ok((r, (fs.push(f), false))),
            }
        } else {
            Err(MatchError::FatalEndOfFile)
        },
    }
}

/// `a | b | c`: one or more alternatives, the last one committed. The result
/// is always an or-pattern, also of a single alternative.
pub open spec fn spec_option(t: Seq<Token>, p: int) -> SpecResult<PatternModel>
    decreases tokens_size_from(t, p), 6int,
{
    match spec_star_item_or(t, p, seq![]) {
        Err(e) => Err(e),
        Ok((q, items)) => if 0 <= p <= q <= t.len() {
            proof {
                lemma_size_from_mono(t, p, q);
            }
            match spec_item(t, q) {
                Err(e) => Err(fatal(e)),
                Ok((r, v)) => Ok((r, PatternModel::Or(items.push(v)))),
            }
        } else {
            Err(MatchError::FatalEndOfFile)
        },
    }
}

pub open spec fn spec_fields(t: Seq<Token>, p: int) -> SpecResult<
    (Seq<(Seq<char>, PatternModel)>, bool),
>
    decreases tokens_size_from(t, p), 6int,
{
    or_else(spec_fields_with_rest(t, p), spec_fields_alone(t, p))
}

/// A pattern or `..`, as a parameter.
pub open spec fn spec_opts(t: Seq<Token>, p: int) -> SpecResult<PatternModel>
    decreases tokens_size_from(t, p), 7int,
{
    or_else(spec_option(t, p), spec_rest(t, p))
}

/// `..`, `x @ ..` or a pattern, as a list item.
pub open spec fn spec_list_item(t: Seq<Token>, p: int) -> SpecResult<PatternModel>
    decreases tokens_size_from(t, p), 7int,
{
    or_else(spec_rest(t, p), or_else(spec_at_dot_dot(t, p), spec_option(t, p)))
}

pub open spec fn spec_pat_comma(t: Seq<Token>, p: int) -> SpecResult<PatternModel>
    decreases tokens_size_from(t, p), 8int,
{
    match spec_opts(t, p) {
        Err(e) => Err(e),
        Ok((q, v)) => match spec_punct(t, q, ',') {
            Err(e) => Err(e),
            Ok(r) => Ok((r, v)),
        },
    }
}

pub open spec fn spec_item_comma(t: Seq<Token>, p: int) -> SpecResult<PatternModel>
    decreases tokens_size_from(t, p), 8int,
{
    match spec_list_item(t, p) {
        Err(e) => Err(e),
        Ok((q, v)) => match spec_punct(t, q, ',') {
            Err(e) => Err(e),
            Ok(r) => Ok((r, v)),
        },
    }
}

pub open spec fn spec_star_pat_comma(t: Seq<Token>, p: int, acc: Seq<PatternModel>) -> SpecResult<
    Seq<PatternModel>,
>
    decreases tokens_size_from(t, p), 9int,
{
    match spec_pat_comma(t, p) {
        Ok((q, v)) => if 0 <= p < q <= t.len() {
            proof {
                lemma_size_from_mono(t, p, q);
            }
            spec_star_pat_comma(t, q, acc.push(v))
        } else {
            Ok((p, acc))
        },
        Err(e) => if recoverable(e) {
            Ok((p, acc))
        } else {
            Err(e)
        },
    }
}

pub open spec fn spec_star_item_comma(t: Seq<Token>, p: int, acc: Seq<PatternModel>) -> SpecResult<
    Seq<PatternModel>,
>
    decreases tokens_size_from(t, p), 9int,
{
    match spec_item_comma(t, p) {
        Ok((q, v)) => if 0 <= p < q <= t.len() {
            proof {
                lemma_size_from_mono(t, p, q);
            }
            spec_star_item_comma(t, q, acc.push(v))
        } else {
            Ok((p, acc))
        },
        Err(e) => if recoverable(e) {
            Ok((p, acc))
        } else {
            Err(e)
        },
    }
}

/// Parameters separated by commas, the last one committed.
pub open spec fn spec_pat_list(t: Seq<Token>, p: int) -> SpecResult<Seq<PatternModel>>
    decreases tokens_size_from(t, p), 10int,
{
    match spec_star_pat_comma(t, p, seq![]) {
        Err(e) => Err(e),
        Ok((q, first)) => if 0 <= p <= q <= t.len() {
            proof {
                lemma_size_from_mono(t, p, q);
            }
            match spec_opts(t, q) {
                Err(e) => Err(fatal(e)),
                Ok((r, last)) => Ok((r, first.push(last))),
            }
        } else {
            Err(MatchError::FatalEndOfFile)
        },
    }
}

/// List items separated by commas, the last one committed.
pub open spec fn spec_list_items(t: Seq<Token>, p: int) -> SpecResult<Seq<PatternModel>>
    decreases tokens_size_from(t, p), 10int,
{
    match spec_star_item_comma(t, p, seq![]) {
        Err(e) => Err(e),
        Ok((q, first)) => if 0 <= p <= q <= t.len() {
            proof {
                lemma_size_from_mono(t, p, q);
            }
            match spec_list_item(t, q) {
                Err(e) => Err(fatal(e)),
                Ok((r, last)) => Ok((r, first.push(last))),
            }
        } else {
            Err(MatchError::FatalEndOfFile)
        },
    }
}

/// A pattern with its guards, ended by `;`.
pub open spec fn spec_option_semi(t: Seq<Token>, p: int) -> SpecResult<PatternModel> {
    match spec_option(t, p) {
        Err(e) => Err(e),
        Ok((q1, o)) => match spec_guards(t, q1) {
            Err(e) => Err(e),
            Ok((q2, (c, x))) => match spec_punct(t, q2, ';') {
                Err(e) => Err(e),
                Ok(q3) => Ok((q3, wrap(o, c, x))),
            },
        },
    }
}

pub open spec fn spec_star_option_semi(t: Seq<Token>, p: int, acc: Seq<PatternModel>) -> SpecResult<
    Seq<PatternModel>,
>
    decreases t.len() - p,
{
    match spec_option_semi(t, p) {
        Ok((q, v)) => if p < q <= t.len() {
            spec_star_option_semi(t, q, acc.push(v))
        } else {
            Ok((p, acc))
        },
        Err(e) => if recoverable(e) {
            Ok((p, acc))
        } else {
            Err(e)
        },
    }
}

/// The chain: patterns ended by `;`, then (committed) a last pattern, each
/// with its guards.
pub open spec fn spec_options(t: Seq<Token>, p: int) -> SpecResult<Seq<PatternModel>> {
    match spec_star_option_semi(t, p, seq![]) {
        Err(e) => Err(e),
        Ok((q, os)) => match spec_option(t, q) {
            Err(e) => Err(fatal(e)),
            Ok((q2, o)) => match spec_guards(t, q2) {
                Err(e) => Err(e),
                Ok((q3, (c, x))) => Ok((q3, os.push(wrap(o, c, x)))),
            },
        },
    }
}

/// The chain, `=>`, and a group whose text is the action.
pub open spec fn spec_obj_pat_with_action(t: Seq<Token>) -> SpecResult<
    (Seq<PatternModel>, Seq<char>),
> {
    match spec_options(t, 0) {
        Err(e) => Err(e),
        Ok((q1, pats)) => match spec_arrow(t, q1) {
            Err(e) => Err(e),
            Ok(q2) => match spec_group(t, q2) {
                Err(e) => Err(e),
                Ok(q3) => Ok((q3, (pats, t[q2]->Group_text@))),
            },
        },
    }
}

/// What the input of `object_pattern!` parses to: the whole input must be a
/// chain with its action, and the chain must pass [`chain_check`].
pub open spec fn spec_parse_object_pattern(t: Seq<Token>) -> Result<
    (Seq<PatternModel>, Seq<char>),
    MatchError,
> {
    match spec_obj_pat_with_action(t) {
        Err(e) => Err(e),
        Ok((q, (pats, action))) => if q != t.len() {
            Err(MatchError::FatalEndOfFile)
        } else {
            match chain_check(pats) {
                Err(e) => Err(e),
                Ok(_) => Ok((pats, action)),
            }
        },
    }
}

/// A chain that parses has at least one pattern; every pattern but the last
/// holds a `!`, and the last holds none.
pub proof fn lemma_parsed_chain_shape(t: Seq<Token>)
    ensures
        spec_parse_object_pattern(t) matches Ok((pats, _)) ==> {
            &&& pats.len() > 0
            &&& forall|i: int| 0 <= i < pats.len() - 1 ==> count_next(#[trigger] pats[i]) > 0
            &&& count_next(pats.last()) == 0
        },
{
}

/// A pattern followed by `? {condition}` and `;` (no executable block) is
/// guarded by that condition: the result is an `If` node around the pattern,
/// whose condition is the text of the group.
pub proof fn lemma_condition_guards_pattern(t: Seq<Token>, p: int)
    requires
        spec_option(t, p) is Ok,
        ({
            let q = spec_option(t, p)->Ok_0.0;
            &&& 0 <= q && q + 2 < t.len()
            &&& t[q] == Token::Punct('?')
            &&& t[q + 1] is Group
            &&& t[q + 2] == Token::Punct(';')
        }),
    ensures
        ({
            let (q, o) = spec_option(t, p)->Ok_0;
            spec_option_semi(t, p) == Ok::<(int, PatternModel), MatchError>(
                (
                    q + 3,
                    PatternModel::If { pattern: Box::new(o), condition: t[q + 1]->Group_text@ },
                ),
            )
        }),
{
}

/// The last pattern of a chain, followed by `? {condition}` and no executable
/// block, is guarded by that condition too.
pub proof fn lemma_condition_guards_last_pattern(t: Seq<Token>, p: int)
    requires
        spec_star_option_semi(t, p, seq![]) is Ok,
        ({
            let q0 = spec_star_option_semi(t, p, seq![])->Ok_0.0;
            spec_option(t, q0) is Ok
        }),
        ({
            let q0 = spec_star_option_semi(t, p, seq![])->Ok_0.0;
            let q = spec_option(t, q0)->Ok_0.0;
            &&& 0 <= q && q + 1 < t.len()
            &&& t[q] == Token::Punct('?')
            &&& t[q + 1] is Group
            &&& (q + 2 == t.len() || t[q + 2] != Token::Punct('&'))
        }),
    ensures
        ({
            let (q0, os) = spec_star_option_semi(t, p, seq![])->Ok_0;
            let (q, o) = spec_option(t, q0)->Ok_0;
            spec_options(t, p) == Ok::<(int, Seq<PatternModel>), MatchError>(
                (
                    q + 2,
                    os.push(
                        PatternModel::If {
                            pattern: Box::new(o),
                            condition: t[q + 1]->Group_text@,
                        },
                    ),
                ),
            )
        }),
{
}

/// In pattern position, a minus sign followed by a literal (and not by `..`)
/// is the negative literal, its text the minus sign and the literal's text.
pub proof fn lemma_negative_literal(t: Seq<Token>, p: int)
    requires
        0 <= p && p + 1 < t.len(),
        t[p] == Token::Punct('-'),
        t[p + 1] is Literal,
        p + 2 == t.len() || t[p + 2] != Token::Punct('.'),
    ensures
        spec_item(t, p) == Ok::<(int, PatternModel), MatchError>(
            (p + 2, PatternModel::Literal("-"@ + t[p + 1]->Literal_0@)),
        ),
{
    assert(spec_at_pat(t, p) == Err::<(int, PatternModel), MatchError>(MatchError::Error(p as usize)));
    assert(spec_structure(t, p) == Err::<(int, PatternModel), MatchError>(
        MatchError::Error(p as usize),
    ));
    assert(spec_range(t, p) is Err);
}

/// `k + 1` field names separated by commas, as the inside of a struct pattern.
pub open spec fn comma_separated_names(s: Seq<Token>, k: int) -> bool {
    &&& k >= 0
    &&& s.len() == 2 * k + 1
    &&& forall|j: int| 0 <= j <= k ==> (#[trigger] s[2 * j]) is Ident
    &&& forall|j: int| 0 <= j < k ==> #[trigger] s[2 * j + 1] == Token::Punct(',')
}

/// The fields written as bare names: each binds the field to its name.
pub open spec fn bare_fields(s: Seq<Token>, k: int) -> Seq<(Seq<char>, PatternModel)> {
    Seq::new(
        (k + 1) as nat,
        |j: int| (s[2 * j]->Ident_0@, PatternModel::Literal(s[2 * j]->Ident_0@)),
    )
}

proof fn lemma_star_bare_fields(s: Seq<Token>, k: int, i: int)
    requires
        comma_separated_names(s, k),
        0 <= i <= k,
    ensures
        spec_star_field_comma(s, 2 * i, bare_fields(s, k).take(i)) == Ok::<
            (int, Seq<(Seq<char>, PatternModel)>),
            MatchError,
        >((2 * k, bare_fields(s, k).take(k))),
    decreases k - i,
{
    let f = bare_fields(s, k);
    assert(s[2 * i] is Ident);
    assert(spec_ident(s, 2 * i) == Ok::<(int, Seq<char>), MatchError>(
        (2 * i + 1, s[2 * i]->Ident_0@),
    ));
    if i < k {
        assert(s[2 * i + 1] == Token::Punct(','));
        assert(spec_field_with_pattern(s, 2 * i) is Err);
        assert(spec_field(s, 2 * i) == Ok::<(int, (Seq<char>, PatternModel)), MatchError>(
            (2 * i + 1, f[i]),
        ));
        assert(spec_field_comma(s, 2 * i) == Ok::<(int, (Seq<char>, PatternModel)), MatchError>(
            (2 * i + 2, f[i]),
        ));
        assert(f.take(i).push(f[i]) =~= f.take(i + 1));
        lemma_star_bare_fields(s, k, i + 1);
        assert(2 * (i + 1) == 2 * i + 2);
    } else {
        assert(spec_field_with_pattern(s, 2 * i) is Err);
        assert(spec_field_comma(s, 2 * i) == Err::<(int, (Seq<char>, PatternModel)), MatchError>(
            MatchError::ErrorEndOfFile,
        ));
    }
}

/// A braced struct body of comma separated names, without `..`, gives one
/// field per name written, in order, the last one included.
pub proof fn lemma_struct_fields_all_kept(t: Seq<Token>, p: int, k: int)
    requires
        0 <= p < t.len(),
        t[p] is Group,
        t[p]->Group_delimiter == Delimiter::Brace,
        comma_separated_names(t[p]->Group_stream@, k),
    ensures
        spec_structure_fields(t, p) == Ok::<
            (int, (Seq<(Seq<char>, PatternModel)>, bool)),
            MatchError,
        >((p + 1, (bare_fields(t[p]->Group_stream@, k), false))),
        bare_fields(t[p]->Group_stream@, k).len() == k + 1,
{
    let s = t[p]->Group_stream@;
    let f = bare_fields(s, k);
    assert(f.take(0) =~= Seq::<(Seq<char>, PatternModel)>::empty());
    lemma_star_bare_fields(s, k, 0);
    assert(f.take(k) =~= f.drop_last());
    assert(s[2 * k] is Ident);
    assert(spec_dot_dot(s, 2 * k) is Err);
    assert(spec_fields_with_rest(s, 0) == Err::<
        (int, (Seq<(Seq<char>, PatternModel)>, bool)),
        MatchError,
    >(MatchError::Error((2 * k) as usize)));
    assert(spec_field_with_pattern(s, 2 * k) is Err);
    assert(spec_field(s, 2 * k) == Ok::<(int, (Seq<char>, PatternModel)), MatchError>(
        (2 * k + 1, f[k]),
    ));
    assert(f.drop_last().push(f[k]) =~= f);
}

pub proof fn lemma_star_ident_colon_colon_progress(t: Seq<Token>, p: int, acc: Seq<char>)
    ensures
        spec_star_ident_colon_colon(t, p, acc) matches Ok((q, _)) ==> q == p || 0 <= p < q <= t.len(),
    decreases t.len() - p,
{
    if let Ok((q, s)) = spec_ident_colon_colon(t, p) {
        if p < q <= t.len() {
            lemma_star_ident_colon_colon_progress(t, q, acc + s);
        }
    }
}

pub proof fn lemma_cons_tag_progress(t: Seq<Token>, p: int)
    ensures
        spec_cons_tag(t, p) matches Ok((q, _)) ==> 0 <= p < q <= t.len(),
{
    let lead = match spec_colon_colon(t, p) {
        Ok((q, c)) => Ok((q, c)),
        Err(e) => if recoverable(e) {
            Ok((p, Seq::<char>::empty()))
        } else {
            Err(e)
        },
    };
    if let Ok((q1, _)) = lead {
        lemma_star_ident_colon_colon_progress(t, q1, Seq::<char>::empty());
    }
}

// ---------------------------------------------------------------------------
// The parser: one executable function for each production above.
// ---------------------------------------------------------------------------

fn dot_dot(toks: &Vec<Token>, pos: usize) -> (r: Result<usize, MatchError>)
    requires
        pos <= toks.len(),
    ensures
        unit_agrees(r, spec_dot_dot(toks@, pos as int)),
        r matches Ok(q) ==> q == pos + 2 && q <= toks.len(),
{
    let q = punct(toks, pos, '.')?;
    match punct(toks, q, '.') {
        Ok(r) => Ok(r),
        Err(e) => Err(make_fatal(e)),
    }
}

fn rest(toks: &Vec<Token>, pos: usize) -> (r: Result<(usize, ObjectPattern), MatchError>)
    requires
        pos <= toks.len(),
    ensures
        pat_agrees(r, spec_rest(toks@, pos as int)),
        pat_fits(toks@, pos as int, r),
{
    let q = dot_dot(toks, pos)?;
    proof {
        lemma_size_from_mono(toks@, pos as int, q as int);
    }
    Ok((q, ObjectPattern::Rest))
}

fn colon_colon(toks: &Vec<Token>, pos: usize) -> (r: Result<(usize, String), MatchError>)
    requires
        pos <= toks.len(),
    ensures
        str_agrees(r, spec_colon_colon(toks@, pos as int)),
        r matches Ok((q, _)) ==> q == pos + 2 && q <= toks.len(),
{
    let q = punct(toks, pos, ':')?;
    match punct(toks, q, ':') {
        Ok(r) => Ok((r, String::from_str("::"))),
        Err(e) => Err(make_fatal(e)),
    }
}

fn arrow(toks: &Vec<Token>, pos: usize) -> (r: Result<usize, MatchError>)
    requires
        pos <= toks.len(),
    ensures
        unit_agrees(r, spec_arrow(toks@, pos as int)),
        r matches Ok(q) ==> q == pos + 2 && q <= toks.len(),
{
    let q = punct(toks, pos, '=')?;
    match punct(toks, q, '>') {
        Ok(r) => Ok(r),
        Err(e) => Err(make_fatal(e)),
    }
}

fn lit_text(toks: &Vec<Token>, pos: usize) -> (r: Result<(usize, String), MatchError>)
    requires
        pos <= toks.len(),
    ensures
        str_agrees(r, spec_lit_text(toks@, pos as int)),
        r matches Ok((q, _)) ==> pos < q <= toks.len(),
{
    match literal_token(toks, pos) {
        Ok(x) => return Ok(x),
        Err(e) => if !is_recoverable(&e) {
            return Err(e);
        },
    }
    let q = punct(toks, pos, '-')?;
    match literal_token(toks, q) {
        Ok((r, l)) => {
            let mut text = String::from_str("-");
            text.append(l.as_str());
            Ok((r, text))
        },
        Err(e) => Err(make_fatal(e)),
    }
}

fn literal(toks: &Vec<Token>, pos: usize) -> (r: Result<(usize, ObjectPattern), MatchError>)
    requires
        pos <= toks.len(),
    ensures
        pat_agrees(r, spec_literal(toks@, pos as int)),
        pat_fits(toks@, pos as int, r),
{
    let (q, l) = lit_text(toks, pos)?;
    proof {
        lemma_size_from_mono(toks@, pos as int, q as int);
    }
    Ok((q, ObjectPattern::Literal(l)))
}

fn range(toks: &Vec<Token>, pos: usize) -> (r: Result<(usize, ObjectPattern), MatchError>)
    requires
        pos <= toks.len(),
    ensures
        pat_agrees(r, spec_range(toks@, pos as int)),
        pat_fits(toks@, pos as int, r),
{
    let (q1, start) = lit_text(toks, pos)?;
    let q2 = dot_dot(toks, q1)?;
    let q3 = match punct(toks, q2, '=') {
        Ok(q) => q,
        Err(e) => return Err(make_fatal(e)),
    };
    let (q4, end) = match lit_text(toks, q3) {
        Ok(x) => x,
        Err(e) => return Err(make_fatal(e)),
    };
    proof {
        lemma_size_from_mono(toks@, pos as int, q4 as int);
    }
    Ok((q4, ObjectPattern::RangeInclusive { start, end }))
}

fn ident_colon_colon(toks: &Vec<Token>, pos: usize) -> (r: Result<(usize, String), MatchError>)
    requires
        pos <= toks.len(),
    ensures
        str_agrees(r, spec_ident_colon_colon(toks@, pos as int)),
        r matches Ok((q, _)) ==> pos < q <= toks.len(),
{
    let (q, mut i) = ident(toks, pos)?;
    let (r, c) = colon_colon(toks, q)?;
    i.append(c.as_str());
    Ok((r, i))
}

fn star_ident_colon_colon(toks: &Vec<Token>, pos: usize, acc: String) -> (r: Result<
    (usize, String),
    MatchError,
>)
    requires
        pos <= toks.len(),
    ensures
        str_agrees(r, spec_star_ident_colon_colon(toks@, pos as int, acc@)),
        r matches Ok((q, _)) ==> pos <= q <= toks.len(),
    decreases toks.len() - pos,
{
    match ident_colon_colon(toks, pos) {
        Ok((q, s)) => {
            let mut acc = acc;
            acc.append(s.as_str());
            star_ident_colon_colon(toks, q, acc)
        },
        Err(e) => if is_recoverable(&e) {
            Ok((pos, acc))
        } else {
            Err(e)
        },
    }
}

fn cons_tag(toks: &Vec<Token>, pos: usize) -> (r: Result<(usize, String), MatchError>)
    requires
        pos <= toks.len(),
    ensures
        str_agrees(r, spec_cons_tag(toks@, pos as int)),
        r matches Ok((q, _)) ==> pos < q <= toks.len(),
{
    let (q1, prefix) = match colon_colon(toks, pos) {
        Ok(x) => x,
        Err(e) => if is_recoverable(&e) {
            (pos, String::new())
        } else {
            return Err(e);
        },
    };
    let (q2, body) = star_ident_colon_colon(toks, q1, String::new())?;
    let (q3, last) = ident(toks, q2)?;
    let mut tag = prefix;
    tag.append(body.as_str());
    tag.append(last.as_str());
    Ok((q3, tag))
}

fn cons_alone(toks: &Vec<Token>, pos: usize) -> (r: Result<(usize, ObjectPattern), MatchError>)
    requires
        pos <= toks.len(),
    ensures
        pat_agrees(r, spec_cons_alone(toks@, pos as int)),
        pat_fits(toks@, pos as int, r),
{
    let (q, cons) = cons_tag(toks, pos)?;
    proof {
        lemma_size_from_mono(toks@, pos as int, q as int);
    }
    let params: Vec<ObjectPattern> = Vec::new();
    proof {
        assert(pats_model(params@) =~= seq![]);
        assert(count_list(seq![]) == 0);
        assert(all_no_execute(seq![]));
    }
    Ok((q, ObjectPattern::Cons { cons, params }))
}

fn at_dot_dot(toks: &Vec<Token>, pos: usize) -> (r: Result<(usize, ObjectPattern), MatchError>)
    requires
        pos <= toks.len(),
    ensures
        pat_agrees(r, spec_at_dot_dot(toks@, pos as int)),
        pat_fits(toks@, pos as int, r),
{
    let (q1, name) = ident(toks, pos)?;
    let q2 = punct(toks, q1, '@')?;
    let q3 = dot_dot(toks, q2)?;
    proof {
        lemma_size_from_mono(toks@, pos as int, q3 as int);
        assert(pat_model(ObjectPattern::Rest) == PatternModel::Rest);
        assert(count_next(PatternModel::Rest) == 0);
        assert(no_execute(PatternModel::Rest));
    }
    Ok((q3, ObjectPattern::At { name, pattern: Box::new(ObjectPattern::Rest) }))
}

fn group_at(toks: &Vec<Token>, pos: usize) -> (r: Result<usize, MatchError>)
    requires
        pos <= toks.len(),
    ensures
        unit_agrees(r, spec_group(toks@, pos as int)),
        r matches Ok(q) ==> q == pos + 1 && q <= toks.len(),
{
    if pos < toks.len() {
        if let Token::Group { .. } = &toks[pos] {
            return Ok(pos + 1);
        }
    }
    Err(failure_at(toks, pos))
}

fn condition(toks: &Vec<Token>, pos: usize) -> (r: Result<(usize, String), MatchError>)
    requires
        pos <= toks.len(),
    ensures
        str_agrees(r, spec_condition(toks@, pos as int)),
        r matches Ok((q, _)) ==> pos < q <= toks.len(),
{
    let q = punct(toks, pos, '?')?;
    match group_at(toks, q) {
        Err(e) => Err(make_fatal(e)),
        Ok(r) => match &toks[q] {
            Token::Group { text, .. } => Ok((r, text.clone())),
            _ => Err(MatchError::FatalEndOfFile),
        },
    }
}

fn execute(toks: &Vec<Token>, pos: usize) -> (r: Result<(usize, String), MatchError>)
    requires
        pos <= toks.len(),
    ensures
        str_agrees(r, spec_execute(toks@, pos as int)),
        r matches Ok((q, _)) ==> pos < q <= toks.len(),
{
    let q = punct(toks, pos, '&')?;
    match group_at(toks, q) {
        Err(e) => Err(make_fatal(e)),
        Ok(r) => match &toks[q] {
            Token::Group { stream_text, .. } => Ok((r, stream_text.clone())),
            _ => Err(MatchError::FatalEndOfFile),
        },
    }
}

pub open spec fn opt_view(o: Option<String>) -> Option<Seq<char>> {
    match o {
        Some(s) => Some(s@),
        None => None,
    }
}

fn guards(toks: &Vec<Token>, pos: usize) -> (r: Result<
    (usize, (Option<String>, Option<String>)),
    MatchError,
>)
    requires
        pos <= toks.len(),
    ensures
        match r {
            Ok((q, (c, x))) => {
                &&& spec_guards(toks@, pos as int) == Ok::<_, MatchError>(
                    (q as int, (opt_view(c), opt_view(x))),
                )
                &&& pos <= q <= toks.len()
            },
            Err(e) => spec_guards(toks@, pos as int) == Err::<
                (int, (Option<Seq<char>>, Option<Seq<char>>)),
                MatchError,
            >(e),
        },
{
    let (q, c) = match condition(toks, pos) {
        Ok((q, c)) => (q, Some(c)),
        Err(e) => if is_recoverable(&e) {
            (pos, None)
        } else {
            return Err(e);
        },
    };
    let (r, x) = match execute(toks, q) {
        Ok((r, x)) => (r, Some(x)),
        Err(e) => if is_recoverable(&e) {
            (q, None)
        } else {
            return Err(e);
        },
    };
    Ok((r, (c, x)))
}

fn wrap_pattern(o: ObjectPattern, c: Option<String>, x: Option<String>) -> (r: ObjectPattern)
    ensures
        r@ == wrap(o@, opt_view(c), opt_view(x)),
        count_next(r@) == count_next(o@),
{
    match (c, x) {
        (Some(condition), Some(action)) => {
            let inner = ObjectPattern::If { condition, pattern: Box::new(o) };
            proof {
                assert(count_next(inner@) == count_next(o@));
            }
            ObjectPattern::Execute { action, pattern: Box::new(inner) }
        },
        (Some(condition), None) => ObjectPattern::If { condition, pattern: Box::new(o) },
        (None, Some(action)) => ObjectPattern::Execute { action, pattern: Box::new(o) },
        (None, None) => o,
    }
}

pub open spec fn field_agrees(
    r: Result<(usize, (String, ObjectPattern)), MatchError>,
    s: SpecResult<(Seq<char>, PatternModel)>,
) -> bool {
    match r {
        Ok((q, (n, v))) => s == Ok::<(int, (Seq<char>, PatternModel)), MatchError>(
            (q as int, (n@, v@)),
        ),
        Err(e) => s == Err::<(int, (Seq<char>, PatternModel)), MatchError>(e),
    }
}

pub open spec fn field_list_agrees(
    r: Result<(usize, Vec<(String, ObjectPattern)>), MatchError>,
    s: SpecResult<Seq<(Seq<char>, PatternModel)>>,
) -> bool {
    match r {
        Ok((q, v)) => s == Ok::<(int, Seq<(Seq<char>, PatternModel)>), MatchError>(
            (q as int, fields_model(v@)),
        ),
        Err(e) => s == Err::<(int, Seq<(Seq<char>, PatternModel)>), MatchError>(e),
    }
}

pub open spec fn fields_agree(
    r: Result<(usize, (Vec<(String, ObjectPattern)>, bool)), MatchError>,
    s: SpecResult<(Seq<(Seq<char>, PatternModel)>, bool)>,
) -> bool {
    match r {
        Ok((q, (v, b))) => s == Ok::<(int, (Seq<(Seq<char>, PatternModel)>, bool)), MatchError>(
            (q as int, (fields_model(v@), b)),
        ),
        Err(e) => s == Err::<(int, (Seq<(Seq<char>, PatternModel)>, bool)), MatchError>(e),
    }
}

/// Patterns parsed from the tokens between `p` and the end position, on top
/// of `acc_count` `Next` nodes already found.
pub open spec fn pats_fit(
    t: Seq<Token>,
    p: int,
    r: Result<(usize, Vec<ObjectPattern>), MatchError>,
    acc_count: nat,
) -> bool {
    r matches Ok((q, v)) ==> {
        &&& p <= q <= t.len()
        &&& all_no_execute(pats_model(v@))
        &&& count_list(pats_model(v@)) + tokens_size_from(t, q as int) <= acc_count
            + tokens_size_from(t, p)
    }
}

pub open spec fn field_list_fits(
    t: Seq<Token>,
    p: int,
    r: Result<(usize, Vec<(String, ObjectPattern)>), MatchError>,
    acc_count: nat,
) -> bool {
    r matches Ok((q, v)) ==> {
        &&& p <= q <= t.len()
        &&& fields_no_execute(fields_model(v@))
        &&& count_fields(fields_model(v@)) + tokens_size_from(t, q as int) <= acc_count
            + tokens_size_from(t, p)
    }
}

pub open spec fn field_fits(
    t: Seq<Token>,
    p: int,
    r: Result<(usize, (String, ObjectPattern)), MatchError>,
) -> bool {
    r matches Ok((q, (_, v))) ==> {
        &&& p < q <= t.len()
        &&& no_execute(v@)
        &&& count_next(v@) + tokens_size_from(t, q as int) <= tokens_size_from(t, p)
    }
}

pub open spec fn fields_fit(
    t: Seq<Token>,
    p: int,
    r: Result<(usize, (Vec<(String, ObjectPattern)>, bool)), MatchError>,
) -> bool {
    r matches Ok((q, (v, _))) ==> {
        &&& p < q <= t.len()
        &&& fields_no_execute(fields_model(v@))
        &&& count_fields(fields_model(v@)) + tokens_size_from(t, q as int) <= tokens_size_from(
            t,
            p,
        )
    }
}

fn field_alone(toks: &Vec<Token>, pos: usize) -> (r: Result<
    (usize, (String, ObjectPattern)),
    MatchError,
>)
    requires
        pos <= toks.len(),
    ensures
        field_agrees(r, spec_field_alone(toks@, pos as int)),
        field_fits(toks@, pos as int, r),
{
    let (q, name) = ident(toks, pos)?;
    proof {
        lemma_size_from_mono(toks@, pos as int, q as int);
    }
    let lit = ObjectPattern::Literal(name.clone());
    Ok((q, (name, lit)))
}

fn params(toks: &Vec<Token>, pos: usize) -> (r: Result<(usize, Vec<ObjectPattern>), MatchError>)
    requires
        pos <= toks.len(),
    ensures
        pats_agree(r, spec_params(toks@, pos as int)),
        pats_fit(toks@, pos as int, r, 0),
        r matches Ok((q, _)) ==> pos < q,
    decreases tokens_size_from(toks@, pos as int), 1int,
{
    if pos < toks.len() {
        if let Token::Group { delimiter, stream, .. } = &toks[pos] {
            if *delimiter != Delimiter::Parenthesis {
                return Err(MatchError::ErrorEndOfFile);
            }
            proof {
                lemma_size_group(toks@, pos as int);
            }
            if stream.len() == 0 {
                let v: Vec<ObjectPattern> = Vec::new();
                proof {
                    assert(pats_model(v@) =~= seq![]);
                }
                return Ok((pos + 1, v));
            }
            let (q, v) = pat_list(stream, 0)?;
            if q != stream.len() {
                return Err(MatchError::FatalEndOfFile);
            }
            return Ok((pos + 1, v));
        }
    }
    Err(failure_at(toks, pos))
}

fn structure_fields(toks: &Vec<Token>, pos: usize) -> (r: Result<
    (usize, (Vec<(String, ObjectPattern)>, bool)),
    MatchError,
>)
    requires
        pos <= toks.len(),
    ensures
        fields_agree(r, spec_structure_fields(toks@, pos as int)),
        fields_fit(toks@, pos as int, r),
    decreases tokens_size_from(toks@, pos as int), 1int,
{
    if pos < toks.len() {
        if let Token::Group { delimiter, stream, .. } = &toks[pos] {
            if *delimiter != Delimiter::Brace {
                return Err(MatchError::ErrorEndOfFile);
            }
            if stream.len() == 0 {
                return Err(MatchError::FatalEndOfFile);
            }
            proof {
                lemma_size_group(toks@, pos as int);
            }
            let (q, v) = fields(stream, 0)?;
            if q != stream.len() {
                return Err(MatchError::FatalEndOfFile);
            }
            return Ok((pos + 1, v));
        }
    }
    Err(failure_at(toks, pos))
}

fn list(toks: &Vec<Token>, pos: usize) -> (r: Result<(usize, ObjectPattern), MatchError>)
    requires
        pos <= toks.len(),
    ensures
        pat_agrees(r, spec_list(toks@, pos as int)),
        pat_fits(toks@, pos as int, r),
    decreases tokens_size_from(toks@, pos as int), 1int,
{
    if pos < toks.len() {
        if let Token::Group { delimiter, stream, .. } = &toks[pos] {
            if *delimiter != Delimiter::Bracket {
                return Err(MatchError::ErrorEndOfFile);
            }
            proof {
                lemma_size_group(toks@, pos as int);
            }
            if stream.len() == 0 {
                let v: Vec<ObjectPattern> = Vec::new();
                proof {
                    assert(pats_model(v@) =~= seq![]);
                    assert(count_list(seq![]) == 0);
                    assert(all_no_execute(seq![]));
                }
                return Ok((pos + 1, ObjectPattern::List(v)));
            }
            let (q, v) = list_items(stream, 0)?;
            if q != stream.len() {
                return Err(MatchError::FatalEndOfFile);
            }
            proof {
                assert(tokens_size_from(stream@, q as int) == 0);
            }
            return Ok((pos + 1, ObjectPattern::List(v)));
        }
    }
    Err(failure_at(toks, pos))
}

fn at_pat(toks: &Vec<Token>, pos: usize) -> (r: Result<(usize, ObjectPattern), MatchError>)
    requires
        pos <= toks.len(),
    ensures
        pat_agrees(r, spec_at_pat(toks@, pos as int)),
        pat_fits(toks@, pos as int, r),
    decreases tokens_size_from(toks@, pos as int), 1int,
{
    let (q1, name) = ident(toks, pos)?;
    let q2 = punct(toks, q1, '@')?;
    proof {
        lemma_size_from_mono(toks@, pos as int, q2 as int);
    }
    match option(toks, q2) {
        Err(e) => Err(make_fatal(e)),
        Ok((q3, o)) => Ok((q3, ObjectPattern::At { name, pattern: Box::new(o) })),
    }
}

fn structure(toks: &Vec<Token>, pos: usize) -> (r: Result<(usize, ObjectPattern), MatchError>)
    requires
        pos <= toks.len(),
    ensures
        pat_agrees(r, spec_structure(toks@, pos as int)),
        pat_fits(toks@, pos as int, r),
    decreases tokens_size_from(toks@, pos as int), 1int,
{
    let (q1, name) = ident(toks, pos)?;
    proof {
        lemma_size_from_mono(toks@, pos as int, q1 as int);
    }
    let (q2, (fields, rest)) = structure_fields(toks, q1)?;
    Ok((q2, ObjectPattern::Struct { name, fields, rest }))
}

fn field_with_pattern(toks: &Vec<Token>, pos: usize) -> (r: Result<
    (usize, (String, ObjectPattern)),
    MatchError,
>)
    requires
        pos <= toks.len(),
    ensures
        field_agrees(r, spec_field_with_pattern(toks@, pos as int)),
        field_fits(toks@, pos as int, r),
    decreases tokens_size_from(toks@, pos as int), 1int,
{
    let (q1, name) = ident(toks, pos)?;
    let q2 = punct(toks, q1, ':')?;
    proof {
        lemma_size_from_mono(toks@, pos as int, q2 as int);
    }
    let (q3, o) = option(toks, q2)?;
    Ok((q3, (name, o)))
}

fn cons_with_param(toks: &Vec<Token>, pos: usize) -> (r: Result<(usize, ObjectPattern), MatchError>)
    requires
        pos <= toks.len(),
    ensures
        pat_agrees(r, spec_cons_with_param(toks@, pos as int)),
        pat_fits(toks@, pos as int, r),
    decreases tokens_size_from(toks@, pos as int), 1int,
{
    let (q1, cons) = cons_tag(toks, pos)?;
    proof {
        lemma_size_from_mono(toks@, pos as int, q1 as int);
    }
    let (q2, params) = params(toks, q1)?;
    Ok((q2, ObjectPattern::Cons { cons, params }))
}

fn tuple(toks: &Vec<Token>, pos: usize) -> (r: Result<(usize, ObjectPattern), MatchError>)
    requires
        pos <= toks.len(),
    ensures
        pat_agrees(r, spec_tuple(toks@, pos as int)),
        pat_fits(toks@, pos as int, r),
    decreases tokens_size_from(toks@, pos as int), 2int,
{
    let (q, params) = params(toks, pos)?;
    Ok((q, ObjectPattern::Tuple(params)))
}

fn cons(toks: &Vec<Token>, pos: usize) -> (r: Result<(usize, ObjectPattern), MatchError>)
    requires
        pos <= toks.len(),
    ensures
        pat_agrees(r, spec_cons(toks@, pos as int)),
        pat_fits(toks@, pos as int, r),
    decreases tokens_size_from(toks@, pos as int), 2int,
{
    match cons_with_param(toks, pos) {
        Ok(x) => Ok(x),
        Err(e) => if is_recoverable(&e) {
            cons_alone(toks, pos)
        } else {
            Err(e)
        },
    }
}

fn field(toks: &Vec<Token>, pos: usize) -> (r: Result<(usize, (String, ObjectPattern)), MatchError>)
    requires
        pos <= toks.len(),
    ensures
        field_agrees(r, spec_field(toks@, pos as int)),
        field_fits(toks@, pos as int, r),
    decreases tokens_size_from(toks@, pos as int), 2int,
{
    match field_with_pattern(toks, pos) {
        Ok(x) => Ok(x),
        Err(e) => if is_recoverable(&e) {
            field_alone(toks, pos)
        } else {
            Err(e)
        },
    }
}

fn item(toks: &Vec<Token>, pos: usize) -> (r: Result<(usize, ObjectPattern), MatchError>)
    requires
        pos <= toks.len(),
    ensures
        pat_agrees(r, spec_item(toks@, pos as int)),
        pat_fits(toks@, pos as int, r),
    decreases tokens_size_from(toks@, pos as int), 3int,
{
    match at_pat(toks, pos) {
        Ok(x) => return Ok(x),
        Err(e) => if !is_recoverable(&e) {
            return Err(e);
        },
    }
    match wild(toks, pos) {
        Ok(x) => return Ok(x),
        Err(e) => if !is_recoverable(&e) {
            return Err(e);
        },
    }
    match range(toks, pos) {
        Ok(x) => return Ok(x),
        Err(e) => if !is_recoverable(&e) {
            return Err(e);
        },
    }
    match structure(toks, pos) {
        Ok(x) => return Ok(x),
        Err(e) => if !is_recoverable(&e) {
            return Err(e);
        },
    }
    match literal(toks, pos) {
        Ok(x) => return Ok(x),
        Err(e) => if !is_recoverable(&e) {
            return Err(e);
        },
    }
    match bang(toks, pos) {
        Ok(x) => return Ok(x),
        Err(e) => if !is_recoverable(&e) {
            return Err(e);
        },
    }
    match cons(toks, pos) {
        Ok(x) => return Ok(x),
        Err(e) => if !is_recoverable(&e) {
            return Err(e);
        },
    }
    match tuple(toks, pos) {
        Ok(x) => return Ok(x),
        Err(e) => if !is_recoverable(&e) {
            return Err(e);
        },
    }
    list(toks, pos)
}

fn field_comma(toks: &Vec<Token>, pos: usize) -> (r: Result<
    (usize, (String, ObjectPattern)),
    MatchError,
>)
    requires
        pos <= toks.len(),
    ensures
        field_agrees(r, spec_field_comma(toks@, pos as int)),
        field_fits(toks@, pos as int, r),
    decreases tokens_size_from(toks@, pos as int), 3int,
{
    let (q, f) = field(toks, pos)?;
    let r = punct(toks, q, ',')?;
    proof {
        lemma_size_from_mono(toks@, q as int, r as int);
    }
    Ok((r, f))
}

fn item_or(toks: &Vec<Token>, pos: usize) -> (r: Result<(usize, ObjectPattern), MatchError>)
    requires
        pos <= toks.len(),
    ensures
        pat_agrees(r, spec_item_or(toks@, pos as int)),
        pat_fits(toks@, pos as int, r),
    decreases tokens_size_from(toks@, pos as int), 4int,
{
    let (q, v) = item(toks, pos)?;
    let r = punct(toks, q, '|')?;
    proof {
        lemma_size_from_mono(toks@, q as int, r as int);
    }
    Ok((r, v))
}

fn star_field_comma(toks: &Vec<Token>, pos: usize, acc: Vec<(String, ObjectPattern)>) -> (r: Result<
    (usize, Vec<(String, ObjectPattern)>),
    MatchError,
>)
    requires
        pos <= toks.len(),
        fields_no_execute(fields_model(acc@)),
    ensures
        field_list_agrees(r, spec_star_field_comma(toks@, pos as int, fields_model(acc@))),
        field_list_fits(toks@, pos as int, r, count_fields(fields_model(acc@))),
    decreases tokens_size_from(toks@, pos as int), 4int,
{
    match field_comma(toks, pos) {
        Ok((q, f)) => {
            proof {
                lemma_size_from_mono(toks@, pos as int, q as int);
                lemma_fields_model_push(acc@, f);
                lemma_count_fields_push(fields_model(acc@), (f.0@, f.1@));
            }
            let mut acc = acc;
            acc.push(f);
            star_field_comma(toks, q, acc)
        },
        Err(e) => if is_recoverable(&e) {
            Ok((pos, acc))
        } else {
            Err(e)
        },
    }
}

fn star_item_or(toks: &Vec<Token>, pos: usize, acc: Vec<ObjectPattern>) -> (r: Result<
    (usize, Vec<ObjectPattern>),
    MatchError,
>)
    requires
        pos <= toks.len(),
        all_no_execute(pats_model(acc@)),
    ensures
        pats_agree(r, spec_star_item_or(toks@, pos as int, pats_model(acc@))),
        pats_fit(toks@, pos as int, r, count_list(pats_model(acc@))),
    decreases tokens_size_from(toks@, pos as int), 5int,
{
    match item_or(toks, pos) {
        Ok((q, v)) => {
            proof {
                lemma_size_from_mono(toks@, pos as int, q as int);
                lemma_pats_model_push(acc@, v);
                lemma_count_list_push(pats_model(acc@), v@);
            }
            let mut acc = acc;
            acc.push(v);
            star_item_or(toks, q, acc)
        },
        Err(e) => if is_recoverable(&e) {
            Ok((pos, acc))
        } else {
            Err(e)
        },
    }
}

fn fields_with_rest(toks: &Vec<Token>, pos: usize) -> (r: Result<
    (usize, (Vec<(String, ObjectPattern)>, bool)),
    MatchError,
>)
    requires
        pos <= toks.len(),
    ensures
        fields_agree(r, spec_fields_with_rest(toks@, pos as int)),
        fields_fit(toks@, pos as int, r),
    decreases tokens_size_from(toks@, pos as int), 5int,
{
    let acc: Vec<(String, ObjectPattern)> = Vec::new();
    proof {
        assert(fields_model(acc@) =~= seq![]);
    }
    let (q, fs) = star_field_comma(toks, pos, acc)?;
    let r = dot_dot(toks, q)?;
    proof {
        lemma_size_from_mono(toks@, q as int, r as int);
    }
    Ok((r, (fs, true)))
}

fn fields_alone(toks: &Vec<Token>, pos: usize) -> (r: Result<
    (usize, (Vec<(String, ObjectPattern)>, bool)),
    MatchError,
>)
    requires
        pos <= toks.len(),
    ensures
        fields_agree(r, spec_fields_alone(toks@, pos as int)),
        fields_fit(toks@, pos as int, r),
    decreases tokens_size_from(toks@, pos as int), 5int,
{
    let acc: Vec<(String, ObjectPattern)> = Vec::new();
    proof {
        assert(fields_model(acc@) =~= seq![]);
    }
    let (q, mut fs) = star_field_comma(toks, pos, acc)?;
    proof {
        lemma_size_from_mono(toks@, pos as int, q as int);
    }
    let (r, f) = field(toks, q)?;
    proof {
        lemma_fields_model_push(fs@, f);
        lemma_count_fields_push(fields_model(fs@), (f.0@, f.1@));
    }
    fs.push(f);
    Ok((r, (fs, false)))
}

fn option(toks: &Vec<Token>, pos: usize) -> (r: Result<(usize, ObjectPattern), MatchError>)
    requires
        pos <= toks.len(),
    ensures
        pat_agrees(r, spec_option(toks@, pos as int)),
        pat_fits(toks@, pos as int, r),
    decreases tokens_size_from(toks@, pos as int), 6int,
{
    let acc: Vec<ObjectPattern> = Vec::new();
    proof {
        assert(pats_model(acc@) =~= seq![]);
    }
    let (q, mut items) = star_item_or(toks, pos, acc)?;
    proof {
        lemma_size_from_mono(toks@, pos as int, q as int);
    }
    match item(toks, q) {
        Err(e) => Err(make_fatal(e)),
        Ok((r, v)) => {
            proof {
                lemma_pats_model_push(items@, v);
                lemma_count_list_push(pats_model(items@), v@);
            }
            items.push(v);
            Ok((r, ObjectPattern::Or(items)))
        },
    }
}

fn fields(toks: &Vec<Token>, pos: usize) -> (r: Result<
    (usize, (Vec<(String, ObjectPattern)>, bool)),
    MatchError,
>)
    requires
        pos <= toks.len(),
    ensures
        fields_agree(r, spec_fields(toks@, pos as int)),
        fields_fit(toks@, pos as int, r),
    decreases tokens_size_from(toks@, pos as int), 6int,
{
    match fields_with_rest(toks, pos) {
        Ok(x) => Ok(x),
        Err(e) => if is_recoverable(&e) {
            fields_alone(toks, pos)
        } else {
            Err(e)
        },
    }
}

fn opts(toks: &Vec<Token>, pos: usize) -> (r: Result<(usize, ObjectPattern), MatchError>)
    requires
        pos <= toks.len(),
    ensures
        pat_agrees(r, spec_opts(toks@, pos as int)),
        pat_fits(toks@, pos as int, r),
    decreases tokens_size_from(toks@, pos as int), 7int,
{
    match option(toks, pos) {
        Ok(x) => Ok(x),
        Err(e) => if is_recoverable(&e) {
            rest(toks, pos)
        } else {
            Err(e)
        },
    }
}

fn list_item(toks: &Vec<Token>, pos: usize) -> (r: Result<(usize, ObjectPattern), MatchError>)
    requires
        pos <= toks.len(),
    ensures
        pat_agrees(r, spec_list_item(toks@, pos as int)),
        pat_fits(toks@, pos as int, r),
    decreases tokens_size_from(toks@, pos as int), 7int,
{
    match rest(toks, pos) {
        Ok(x) => return Ok(x),
        Err(e) => if !is_recoverable(&e) {
            return Err(e);
        },
    }
    match at_dot_dot(toks, pos) {
        Ok(x) => return Ok(x),
        Err(e) => if !is_recoverable(&e) {
            return Err(e);
        },
    }
    option(toks, pos)
}

fn pat_comma(toks: &Vec<Token>, pos: usize) -> (r: Result<(usize, ObjectPattern), MatchError>)
    requires
        pos <= toks.len(),
    ensures
        pat_agrees(r, spec_pat_comma(toks@, pos as int)),
        pat_fits(toks@, pos as int, r),
    decreases tokens_size_from(toks@, pos as int), 8int,
{
    let (q, v) = opts(toks, pos)?;
    let r = punct(toks, q, ',')?;
    proof {
        lemma_size_from_mono(toks@, q as int, r as int);
    }
    Ok((r, v))
}

fn item_comma(toks: &Vec<Token>, pos: usize) -> (r: Result<(usize, ObjectPattern), MatchError>)
    requires
        pos <= toks.len(),
    ensures
        pat_agrees(r, spec_item_comma(toks@, pos as int)),
        pat_fits(toks@, pos as int, r),
    decreases tokens_size_from(toks@, pos as int), 8int,
{
    let (q, v) = list_item(toks, pos)?;
    let r = punct(toks, q, ',')?;
    proof {
        lemma_size_from_mono(toks@, q as int, r as int);
    }
    Ok((r, v))
}

fn star_pat_comma(toks: &Vec<Token>, pos: usize, acc: Vec<ObjectPattern>) -> (r: Result<
    (usize, Vec<ObjectPattern>),
    MatchError,
>)
    requires
        pos <= toks.len(),
        all_no_execute(pats_model(acc@)),
    ensures
        pats_agree(r, spec_star_pat_comma(toks@, pos as int, pats_model(acc@))),
        pats_fit(toks@, pos as int, r, count_list(pats_model(acc@))),
    decreases tokens_size_from(toks@, pos as int), 9int,
{
    match pat_comma(toks, pos) {
        Ok((q, v)) => {
            proof {
                lemma_size_from_mono(toks@, pos as int, q as int);
                lemma_pats_model_push(acc@, v);
                lemma_count_list_push(pats_model(acc@), v@);
            }
            let mut acc = acc;
            acc.push(v);
            star_pat_comma(toks, q, acc)
        },
        Err(e) => if is_recoverable(&e) {
            Ok((pos, acc))
        } else {
            Err(e)
        },
    }
}

fn star_item_comma(toks: &Vec<Token>, pos: usize, acc: Vec<ObjectPattern>) -> (r: Result<
    (usize, Vec<ObjectPattern>),
    MatchError,
>)
    requires
        pos <= toks.len(),
        all_no_execute(pats_model(acc@)),
    ensures
        pats_agree(r, spec_star_item_comma(toks@, pos as int, pats_model(acc@))),
        pats_fit(toks@, pos as int, r, count_list(pats_model(acc@))),
    decreases tokens_size_from(toks@, pos as int), 9int,
{
    match item_comma(toks, pos) {
        Ok((q, v)) => {
            proof {
                lemma_size_from_mono(toks@, pos as int, q as int);
                lemma_pats_model_push(acc@, v);
                lemma_count_list_push(pats_model(acc@), v@);
            }
            let mut acc = acc;
            acc.push(v);
            star_item_comma(toks, q, acc)
        },
        Err(e) => if is_recoverable(&e) {
            Ok((pos, acc))
        } else {
            Err(e)
        },
    }
}

fn pat_list(toks: &Vec<Token>, pos: usize) -> (r: Result<(usize, Vec<ObjectPattern>), MatchError>)
    requires
        pos <= toks.len(),
    ensures
        pats_agree(r, spec_pat_list(toks@, pos as int)),
        pats_fit(toks@, pos as int, r, 0),
    decreases tokens_size_from(toks@, pos as int), 10int,
{
    let acc: Vec<ObjectPattern> = Vec::new();
    proof {
        assert(pats_model(acc@) =~= seq![]);
    }
    let (q, mut first) = star_pat_comma(toks, pos, acc)?;
    proof {
        lemma_size_from_mono(toks@, pos as int, q as int);
    }
    match opts(toks, q) {
        Err(e) => Err(make_fatal(e)),
        Ok((r, last)) => {
            proof {
                lemma_pats_model_push(first@, last);
                lemma_count_list_push(pats_model(first@), last@);
            }
            first.push(last);
            Ok((r, first))
        },
    }
}

fn list_items(toks: &Vec<Token>, pos: usize) -> (r: Result<(usize, Vec<ObjectPattern>), MatchError>)
    requires
        pos <= toks.len(),
    ensures
        pats_agree(r, spec_list_items(toks@, pos as int)),
        pats_fit(toks@, pos as int, r, 0),
    decreases tokens_size_from(toks@, pos as int), 10int,
{
    let acc: Vec<ObjectPattern> = Vec::new();
    proof {
        assert(pats_model(acc@) =~= seq![]);
    }
    let (q, mut first) = star_item_comma(toks, pos, acc)?;
    proof {
        lemma_size_from_mono(toks@, pos as int, q as int);
    }
    match list_item(toks, q) {
        Err(e) => Err(make_fatal(e)),
        Ok((r, last)) => {
            proof {
                lemma_pats_model_push(first@, last);
                lemma_count_list_push(pats_model(first@), last@);
            }
            first.push(last);
            Ok((r, first))
        },
    }
}

/// A top-level pattern parsed from the tokens between `p` and its end:
/// `Execute` only at its top, no more `Next` nodes than tokens.
pub open spec fn top_fits(t: Seq<Token>, p: int, r: Result<(usize, ObjectPattern), MatchError>) -> bool {
    r matches Ok((q, v)) ==> {
        &&& p < q <= t.len()
        &&& no_execute(strip_execute(v@))
        &&& count_next(v@) + tokens_size_from(t, q as int) <= tokens_size_from(t, p)
    }
}

pub open spec fn tops_fit(
    t: Seq<Token>,
    p: int,
    r: Result<(usize, Vec<ObjectPattern>), MatchError>,
    acc_count: nat,
) -> bool {
    r matches Ok((q, v)) ==> {
        &&& p <= q <= t.len()
        &&& tops_ok(pats_model(v@))
        &&& count_list(pats_model(v@)) + tokens_size_from(t, q as int) <= acc_count
            + tokens_size_from(t, p)
    }
}

proof fn lemma_wrap_top(o: PatternModel, c: Option<Seq<char>>, x: Option<Seq<char>>)
    requires
        no_execute(o),
    ensures
        no_execute(strip_execute(wrap(o, c, x))),
{
}

proof fn lemma_tops_push(s: Seq<ObjectPattern>, v: ObjectPattern)
    requires
        tops_ok(pats_model(s)),
        no_execute(strip_execute(v@)),
    ensures
        tops_ok(pats_model(s.push(v))),
        count_list(pats_model(s.push(v))) == count_list(pats_model(s)) + count_next(v@),
{
    lemma_pats_model_push(s, v);
    lemma_count_list_push(pats_model(s), v@);
    let m = pats_model(s.push(v));
    assert forall|i: int| 0 <= i < m.len() implies no_execute(#[trigger] strip_execute(m[i])) by {
        if i < m.len() - 1 {
            assert(m[i] == pats_model(s)[i]);
        }
    }
}

fn option_semi(toks: &Vec<Token>, pos: usize) -> (r: Result<(usize, ObjectPattern), MatchError>)
    requires
        pos <= toks.len(),
    ensures
        pat_agrees(r, spec_option_semi(toks@, pos as int)),
        top_fits(toks@, pos as int, r),
{
    let (q1, o) = option(toks, pos)?;
    let (q2, (c, x)) = guards(toks, q1)?;
    let q3 = punct(toks, q2, ';')?;
    proof {
        lemma_wrap_top(o@, opt_view(c), opt_view(x));
        lemma_size_from_mono(toks@, q1 as int, q3 as int);
    }
    Ok((q3, wrap_pattern(o, c, x)))
}

fn star_option_semi(toks: &Vec<Token>, pos: usize, acc: Vec<ObjectPattern>) -> (r: Result<
    (usize, Vec<ObjectPattern>),
    MatchError,
>)
    requires
        pos <= toks.len(),
        tops_ok(pats_model(acc@)),
    ensures
        pats_agree(r, spec_star_option_semi(toks@, pos as int, pats_model(acc@))),
        tops_fit(toks@, pos as int, r, count_list(pats_model(acc@))),
    decreases toks.len() - pos,
{
    match option_semi(toks, pos) {
        Ok((q, v)) => {
            proof {
                lemma_tops_push(acc@, v);
                lemma_pats_model_push(acc@, v);
            }
            let mut acc = acc;
            acc.push(v);
            star_option_semi(toks, q, acc)
        },
        Err(e) => if is_recoverable(&e) {
            Ok((pos, acc))
        } else {
            Err(e)
        },
    }
}

fn options(toks: &Vec<Token>, pos: usize) -> (r: Result<(usize, Vec<ObjectPattern>), MatchError>)
    requires
        pos <= toks.len(),
    ensures
        pats_agree(r, spec_options(toks@, pos as int)),
        tops_fit(toks@, pos as int, r, 0),
{
    let acc: Vec<ObjectPattern> = Vec::new();
    proof {
        assert(pats_model(acc@) =~= seq![]);
    }
    let (q, mut os) = star_option_semi(toks, pos, acc)?;
    let (q2, o) = match option(toks, q) {
        Ok(x) => x,
        Err(e) => return Err(make_fatal(e)),
    };
    let (q3, (c, x)) = guards(toks, q2)?;
    proof {
        lemma_wrap_top(o@, opt_view(c), opt_view(x));
        lemma_size_from_mono(toks@, q2 as int, q3 as int);
    }
    let last = wrap_pattern(o, c, x);
    proof {
        lemma_tops_push(os@, last);
        lemma_pats_model_push(os@, last);
    }
    os.push(last);
    Ok((q3, os))
}

fn obj_pat_with_action(toks: &Vec<Token>) -> (r: Result<(usize, ObjPatsAct), MatchError>)
    ensures
        match r {
            Ok((q, pa)) => spec_obj_pat_with_action(toks@) == Ok::<_, MatchError>(
                (q as int, (pats_model(pa.obj_pats@), pa.action@)),
            ),
            Err(e) => spec_obj_pat_with_action(toks@) == Err::<
                (int, (Seq<PatternModel>, Seq<char>)),
                MatchError,
            >(e),
        },
        r matches Ok((q, pa)) ==> {
            &&& q <= toks.len()
            &&& tops_ok(pats_model(pa.obj_pats@))
            &&& count_list(pats_model(pa.obj_pats@)) <= token_count(toks@)
        },
{
    let (q1, obj_pats) = options(toks, 0)?;
    let q2 = arrow(toks, q1)?;
    let q3 = group_at(toks, q2)?;
    match &toks[q2] {
        Token::Group { text, .. } => Ok((q3, ObjPatsAct { obj_pats, action: text.clone() })),
        _ => Err(MatchError::FatalEndOfFile),
    }
}

/// Parses the input of `object_pattern!`: patterns separated by `;`, each
/// with an optional `? {condition}` and `& {block}`, then `=>` and the action
/// group. Every pattern but the last must hold a `!`, and the last must not.
pub fn parse_object_pattern(input: &Vec<Token>) -> (r: Result<ObjPatsAct, MatchError>)
    ensures
        match r {
            Ok(pa) => spec_parse_object_pattern(input@) == Ok::<_, MatchError>(
                (pats_model(pa.obj_pats@), pa.action@),
            ),
            Err(e) => spec_parse_object_pattern(input@) == Err::<
                (Seq<PatternModel>, Seq<char>),
                MatchError,
            >(e),
        },
        r matches Ok(pa) ==> {
            &&& chain_ready(pats_model(pa.obj_pats@))
            &&& count_list(pats_model(pa.obj_pats@)) <= token_count(input@)
        },
{
    let (q, pats) = obj_pat_with_action(input)?;
    if q != input.len() {
        return Err(MatchError::FatalEndOfFile);
    }
    check_chain(&pats.obj_pats)?;
    Ok(pats)
}

} // verus!
