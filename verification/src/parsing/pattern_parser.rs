use vstd::prelude::*;

use crate::data::{ObjectPattern, PatternModel};
use crate::parsing::data::{spec_wild, wild, ParseResult};
use crate::token::Token;

verus! {

/// Reads one token at `*pos`: the wild pattern `_` parses, and an empty input
/// is an error. Any other token is not handled, which the precondition rules
/// out.
pub fn parse(input: &Vec<Token>, pos: &mut usize) -> (r: ParseResult<ObjectPattern>)
    requires
        *old(pos) <= input.len(),
        *old(pos) == input.len() || spec_wild(input@, *old(pos) as int) is Ok,
    ensures
        *old(pos) == input.len() ==> r is Error && *final(pos) == *old(pos),
        *old(pos) < input.len() ==> (r matches ParseResult::Success(p) && p@ == PatternModel::Wild)
            && *final(pos) == *old(pos) + 1,
{
    if *pos == input.len() {
        return ParseResult::Error;
    }
    let at = *pos;
    *pos = at + 1;
    match wild(input, at) {
        Ok(_) => ParseResult::Success(ObjectPattern::Wild),
        Err(_) => {
            proof {
                assert(false);
            }
            ParseResult::Error
        },
    }
}

} // verus!
