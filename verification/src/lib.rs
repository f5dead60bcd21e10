//! Object patterns: chains of Rust patterns, each matched against what the
//! `!` holes of the one before it bound, expanded into nested `match` code.

pub mod data;
pub mod gen;
pub mod parsing;
pub mod token;

use vstd::prelude::*;

use crate::data::{GenSym, PatternModel};
use crate::gen::object_pattern::{matcher_text, object_pattern_matcher};
use crate::parsing::data::MatchError;
use crate::parsing::object_pattern::{parse_object_pattern, spec_parse_object_pattern};
use crate::token::{token_count, Token};

verus! {

/// Expands the input of `object_pattern!` into the source text of the
/// closure it stands for, or says why the input is not an object pattern.
pub fn object_pattern(input: &Vec<Token>) -> (r: Result<String, MatchError>)
    requires
        token_count(input@) <= u64::MAX,
    ensures
        match r {
            Ok(code) => spec_parse_object_pattern(input@) matches Ok((pats, action)) && code@
                == matcher_text(pats, action, 0),
            Err(e) => spec_parse_object_pattern(input@) == Err::<
                (Seq<PatternModel>, Seq<char>),
                MatchError,
            >(e),
        },
{
    let obj_pat_with_action = parse_object_pattern(input)?;
    let mut g = GenSym::new();
    let o = object_pattern_matcher(&mut g, obj_pat_with_action);
    Ok(o)
}

} // verus!
