pub mod object_pattern;

use vstd::prelude::*;

verus! {

} // verus!
