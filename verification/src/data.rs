use vstd::prelude::*;

verus! {

/// A chain of object patterns and the action run when the whole chain matches.
#[derive(Debug)]
pub struct ObjPatsAct {
    pub obj_pats: Vec<ObjectPattern>,
    pub action: String,
}

/// One pattern of an object pattern chain.
#[derive(Debug)]
pub enum ObjectPattern {
    Wild,
    Rest,
    Next,
    Literal(String),
    Cons { cons: String, params: Vec<ObjectPattern> },
    Tuple(Vec<ObjectPattern>),
    At { name: String, pattern: Box<ObjectPattern> },
    RangeInclusive { start: String, end: String },
    If { pattern: Box<ObjectPattern>, condition: String },
    Or(Vec<ObjectPattern>),
    Struct { name: String, fields: Vec<(String, ObjectPattern)>, rest: bool },
    List(Vec<ObjectPattern>),
    Execute { pattern: Box<ObjectPattern>, action: String },
}

/// The mathematical value of an [`ObjectPattern`]: texts as character
/// sequences, children as sequences.
pub enum PatternModel {
    Wild,
    Rest,
    Next,
    Literal(Seq<char>),
    Cons { cons: Seq<char>, params: Seq<PatternModel> },
    Tuple(Seq<PatternModel>),
    At { name: Seq<char>, pattern: Box<PatternModel> },
    RangeInclusive { start: Seq<char>, end: Seq<char> },
    If { pattern: Box<PatternModel>, condition: Seq<char> },
    Or(Seq<PatternModel>),
    Struct { name: Seq<char>, fields: Seq<(Seq<char>, PatternModel)>, rest: bool },
    List(Seq<PatternModel>),
    Execute { pattern: Box<PatternModel>, action: Seq<char> },
}

pub open spec fn pat_model(p: ObjectPattern) -> PatternModel
    decreases p, 0int,
{
    match p {
        ObjectPattern::Wild => PatternModel::Wild,
        ObjectPattern::Rest => PatternModel::Rest,
        ObjectPattern::Next => PatternModel::Next,
        ObjectPattern::Literal(l) => PatternModel::Literal(l@),
        ObjectPattern::Cons { cons, params } => {
            proof {
                assert(decreases_to!(params => params@));
            }
            PatternModel::Cons { cons: cons@, params: pats_model(params@) }
        },
        ObjectPattern::Tuple(params) => {
            proof {
                assert(decreases_to!(params => params@));
            }
            PatternModel::Tuple(pats_model(params@))
        },
        ObjectPattern::At { name, pattern } => PatternModel::At {
            name: name@,
            pattern: Box::new(pat_model(*pattern)),
        },
        ObjectPattern::RangeInclusive { start, end } => PatternModel::RangeInclusive {
            start: start@,
            end: end@,
        },
        ObjectPattern::If { pattern, condition } => PatternModel::If {
            pattern: Box::new(pat_model(*pattern)),
            condition: condition@,
        },
        ObjectPattern::Or(pats) => {
            proof {
                assert(decreases_to!(pats => pats@));
            }
            PatternModel::Or(pats_model(pats@))
        },
        ObjectPattern::Struct { name, fields, rest } => {
            proof {
                assert(decreases_to!(fields => fields@));
            }
            PatternModel::Struct { name: name@, fields: fields_model(fields@), rest }
        },
        ObjectPattern::List(items) => {
            proof {
                assert(decreases_to!(items => items@));
            }
            PatternModel::List(pats_model(items@))
        },
        ObjectPattern::Execute { pattern, action } => PatternModel::Execute {
            pattern: Box::new(pat_model(*pattern)),
            action: action@,
        },
    }
}

pub open spec fn pats_model(s: Seq<ObjectPattern>) -> Seq<PatternModel>
    decreases s, 1int,
{
    if s.len() == 0 {
        seq![]
    } else {
        pats_model(s.drop_last()).push(pat_model(s.last()))
    }
}

pub open spec fn fields_model(s: Seq<(String, ObjectPattern)>) -> Seq<(Seq<char>, PatternModel)>
    decreases s, 1int,
{
    if s.len() == 0 {
        seq![]
    } else {
        proof {
            assert(decreases_to!(s => s.last()));
        }
        fields_model(s.drop_last()).push((s.last().0@, pat_model(s.last().1)))
    }
}

impl View for ObjectPattern {
    type V = PatternModel;

    open spec fn view(&self) -> PatternModel {
        pat_model(*self)
    }
}

/// The number of `Next` nodes in a pattern tree.
pub open spec fn count_next(p: PatternModel) -> nat
    decreases p, 0int,
{
    match p {
        PatternModel::Next => 1,
        PatternModel::Cons { params, .. } => count_list(params),
        PatternModel::Tuple(ps) => count_list(ps),
        PatternModel::At { pattern, .. } => count_next(*pattern),
        PatternModel::If { pattern, .. } => count_next(*pattern),
        PatternModel::Or(ps) => count_list(ps),
        PatternModel::Struct { fields, .. } => count_fields(fields),
        PatternModel::List(ps) => count_list(ps),
        PatternModel::Execute { pattern, .. } => count_next(*pattern),
        _ => 0,
    }
}

pub open spec fn count_list(s: Seq<PatternModel>) -> nat
    decreases s, 1int,
{
    if s.len() == 0 {
        0
    } else {
        count_list(s.drop_last()) + count_next(s.last())
    }
}

pub open spec fn count_fields(s: Seq<(Seq<char>, PatternModel)>) -> nat
    decreases s, 1int,
{
    if s.len() == 0 {
        0
    } else {
        proof {
            assert(decreases_to!(s => s.last()));
        }
        count_fields(s.drop_last()) + count_next(s.last().1)
    }
}

/// The total number of `Next` nodes in a sequence of patterns.
pub open spec fn total_next(s: Seq<PatternModel>) -> nat {
    count_list(s)
}

/// No `Execute` node occurs anywhere in the pattern tree.
pub open spec fn no_execute(p: PatternModel) -> bool
    decreases p, 0int,
{
    match p {
        PatternModel::Cons { params, .. } => all_no_execute(params),
        PatternModel::Tuple(ps) => all_no_execute(ps),
        PatternModel::At { pattern, .. } => no_execute(*pattern),
        PatternModel::If { pattern, .. } => no_execute(*pattern),
        PatternModel::Or(ps) => all_no_execute(ps),
        PatternModel::Struct { fields, .. } => fields_no_execute(fields),
        PatternModel::List(ps) => all_no_execute(ps),
        PatternModel::Execute { .. } => false,
        _ => true,
    }
}

pub open spec fn all_no_execute(s: Seq<PatternModel>) -> bool
    decreases s, 1int,
{
    if s.len() == 0 {
        true
    } else {
        all_no_execute(s.drop_last()) && no_execute(s.last())
    }
}

pub open spec fn fields_no_execute(s: Seq<(Seq<char>, PatternModel)>) -> bool
    decreases s, 1int,
{
    if s.len() == 0 {
        true
    } else {
        proof {
            assert(decreases_to!(s => s.last()));
        }
        fields_no_execute(s.drop_last()) && no_execute(s.last().1)
    }
}

/// The direct sub-patterns of a pattern, in order.
pub open spec fn children(p: PatternModel) -> Seq<PatternModel> {
    match p {
        PatternModel::Cons { params, .. } => params,
        PatternModel::Tuple(ps) => ps,
        PatternModel::At { pattern, .. } => seq![*pattern],
        PatternModel::If { pattern, .. } => seq![*pattern],
        PatternModel::Or(ps) => ps,
        PatternModel::Struct { fields, .. } => fields.map_values(|f: (Seq<char>, PatternModel)| f.1),
        PatternModel::List(ps) => ps,
        PatternModel::Execute { pattern, .. } => seq![*pattern],
        _ => seq![],
    }
}

proof fn lemma_count_fields_as_list(s: Seq<(Seq<char>, PatternModel)>)
    ensures
        count_fields(s) == count_list(s.map_values(|f: (Seq<char>, PatternModel)| f.1)),
    decreases s.len(),
{
    if s.len() > 0 {
        lemma_count_fields_as_list(s.drop_last());
        assert(s.map_values(|f: (Seq<char>, PatternModel)| f.1).drop_last() =~= s.drop_last().map_values(
            |f: (Seq<char>, PatternModel)| f.1,
        ));
    }
}

/// Counting the `Next` nodes of a tree is counting them along a walk that
/// visits each node and then its children as [`ObjectPattern::l_next`] gives
/// them.
pub proof fn lemma_count_next_children(p: PatternModel)
    ensures
        count_next(p) == (if p is Next {
            1nat
        } else {
            0nat
        }) + count_list(children(p)),
{
    match p {
        PatternModel::At { pattern, .. } => {
            assert(seq![*pattern].drop_last() =~= Seq::<PatternModel>::empty());
            assert(count_list(Seq::<PatternModel>::empty()) == 0);
            assert(seq![*pattern].last() == *pattern);
        },
        PatternModel::If { pattern, .. } => {
            assert(seq![*pattern].drop_last() =~= Seq::<PatternModel>::empty());
            assert(count_list(Seq::<PatternModel>::empty()) == 0);
            assert(seq![*pattern].last() == *pattern);
        },
        PatternModel::Execute { pattern, .. } => {
            assert(seq![*pattern].drop_last() =~= Seq::<PatternModel>::empty());
            assert(count_list(Seq::<PatternModel>::empty()) == 0);
            assert(seq![*pattern].last() == *pattern);
        },
        PatternModel::Struct { fields, .. } => {
            lemma_count_fields_as_list(fields);
        },
        _ => {},
    }
}

pub proof fn lemma_pats_model(s: Seq<ObjectPattern>)
    ensures
        pats_model(s).len() == s.len(),
        forall|i: int| 0 <= i < s.len() ==> #[trigger] pats_model(s)[i] == pat_model(s[i]),
    decreases s.len(),
{
    if s.len() > 0 {
        lemma_pats_model(s.drop_last());
    }
}

pub proof fn lemma_fields_model(s: Seq<(String, ObjectPattern)>)
    ensures
        fields_model(s).len() == s.len(),
        forall|i: int|
            0 <= i < s.len() ==> #[trigger] fields_model(s)[i] == (s[i].0@, pat_model(s[i].1)),
    decreases s.len(),
{
    if s.len() > 0 {
        lemma_fields_model(s.drop_last());
    }
}

pub proof fn lemma_pats_model_push(s: Seq<ObjectPattern>, x: ObjectPattern)
    ensures
        pats_model(s.push(x)) == pats_model(s).push(pat_model(x)),
{
    assert(s.push(x).drop_last() =~= s);
}

pub proof fn lemma_fields_model_push(s: Seq<(String, ObjectPattern)>, x: (String, ObjectPattern))
    ensures
        fields_model(s.push(x)) == fields_model(s).push((x.0@, pat_model(x.1))),
{
    assert(s.push(x).drop_last() =~= s);
}

pub proof fn lemma_count_list_push(s: Seq<PatternModel>, x: PatternModel)
    ensures
        count_list(s.push(x)) == count_list(s) + count_next(x),
        all_no_execute(s.push(x)) == (all_no_execute(s) && no_execute(x)),
{
    assert(s.push(x).drop_last() =~= s);
}

pub proof fn lemma_count_fields_push(s: Seq<(Seq<char>, PatternModel)>, x: (Seq<char>, PatternModel))
    ensures
        count_fields(s.push(x)) == count_fields(s) + count_next(x.1),
        fields_no_execute(s.push(x)) == (fields_no_execute(s) && no_execute(x.1)),
{
    assert(s.push(x).drop_last() =~= s);
}

/// A pattern with a top-level `Execute` taken off.
pub open spec fn strip_execute(p: PatternModel) -> PatternModel {
    match p {
        PatternModel::Execute { pattern, .. } => *pattern,
        _ => p,
    }
}

/// The text of a top-level `Execute`, or nothing.
pub open spec fn execute_action(p: PatternModel) -> Seq<char> {
    match p {
        PatternModel::Execute { action, .. } => action,
        _ => Seq::empty(),
    }
}

/// Every pattern holds `Execute` at most as its top node.
pub open spec fn tops_ok(pats: Seq<PatternModel>) -> bool {
    forall|i: int| 0 <= i < pats.len() ==> no_execute(#[trigger] strip_execute(pats[i]))
}

/// A chain that code can be generated for: `Execute` only at the top of a
/// pattern, and no `Next` in the last pattern (nothing follows it).
pub open spec fn chain_ready(pats: Seq<PatternModel>) -> bool {
    &&& tops_ok(pats)
    &&& pats.len() > 0 ==> count_next(pats.last()) == 0
}

impl ObjectPattern {
    /// The direct sub-patterns, in order: what a walk of the pattern tree
    /// visits below this node.
    pub fn l_next(&self) -> (r: Vec<&ObjectPattern>)
        ensures
            r@.len() == children(self@).len(),
            forall|i: int| 0 <= i < r@.len() ==> #[trigger] r@[i]@ == children(self@)[i],
    {
        match self {
            ObjectPattern::Cons { params, .. } => refs_of(params),
            ObjectPattern::Tuple(params) => refs_of(params),
            ObjectPattern::At { pattern, .. } => vec![&**pattern],
            ObjectPattern::If { pattern, .. } => vec![&**pattern],
            ObjectPattern::Or(pats) => refs_of(pats),
            ObjectPattern::Struct { fields, .. } => {
                let mut r: Vec<&ObjectPattern> = Vec::new();
                let mut i: usize = 0;
                proof {
                    lemma_fields_model(fields@);
                }
                while i < fields.len()
                    invariant
                        0 <= i <= fields.len(),
                        r@.len() == i,
                        forall|j: int| 0 <= j < i ==> #[trigger] r@[j] == fields@[j].1,
                    decreases fields.len() - i,
                {
                    r.push(&fields[i].1);
                    i = i + 1;
                }
                r
            },
            ObjectPattern::List(items) => refs_of(items),
            ObjectPattern::Execute { pattern, .. } => vec![&**pattern],
            _ => Vec::new(),
        }
    }

    /// Whether a `Next` node occurs anywhere in the pattern tree.
    pub fn has_next(&self) -> (r: bool)
        ensures
            r == (count_next(self@) > 0),
        decreases self,
    {
        match self {
            ObjectPattern::Next => true,
            ObjectPattern::Cons { params, .. } => list_has_next(params),
            ObjectPattern::Tuple(params) => list_has_next(params),
            ObjectPattern::At { pattern, .. } => pattern.has_next(),
            ObjectPattern::If { pattern, .. } => pattern.has_next(),
            ObjectPattern::Or(pats) => list_has_next(pats),
            ObjectPattern::Struct { fields, .. } => fields_has_next(fields),
            ObjectPattern::List(items) => list_has_next(items),
            ObjectPattern::Execute { pattern, .. } => pattern.has_next(),
            _ => false,
        }
    }
}

fn refs_of(v: &Vec<ObjectPattern>) -> (r: Vec<&ObjectPattern>)
    ensures
        r@.len() == v@.len(),
        r@.len() == pats_model(v@).len(),
        forall|i: int| 0 <= i < r@.len() ==> #[trigger] r@[i]@ == pats_model(v@)[i],
{
    let mut r: Vec<&ObjectPattern> = Vec::new();
    let mut i: usize = 0;
    proof {
        lemma_pats_model(v@);
    }
    while i < v.len()
        invariant
            0 <= i <= v.len(),
            r@.len() == i,
            forall|j: int| 0 <= j < i ==> #[trigger] r@[j] == v@[j],
        decreases v.len() - i,
    {
        r.push(&v[i]);
        i = i + 1;
    }
    r
}

fn list_has_next(v: &Vec<ObjectPattern>) -> (r: bool)
    ensures
        r == (count_list(pats_model(v@)) > 0),
    decreases v,
{
    let mut found = false;
    let mut i: usize = 0;
    while i < v.len()
        invariant
            0 <= i <= v.len(),
            found == (count_list(pats_model(v@.take(i as int))) > 0),
        decreases v.len() - i,
    {
        let h = v[i].has_next();
        proof {
            assert(v@.take(i + 1) =~= v@.take(i as int).push(v@[i as int]));
            lemma_pats_model_push(v@.take(i as int), v@[i as int]);
            lemma_count_list_push(pats_model(v@.take(i as int)), pat_model(v@[i as int]));
        }
        found = found || h;
        i = i + 1;
    }
    proof {
        assert(v@.take(i as int) =~= v@);
    }
    found
}

fn fields_has_next(v: &Vec<(String, ObjectPattern)>) -> (r: bool)
    ensures
        r == (count_fields(fields_model(v@)) > 0),
    decreases v,
{
    let mut found = false;
    let mut i: usize = 0;
    while i < v.len()
        invariant
            0 <= i <= v.len(),
            found == (count_fields(fields_model(v@.take(i as int))) > 0),
        decreases v.len() - i,
    {
        let h = v[i].1.has_next();
        proof {
            assert(v@.take(i + 1) =~= v@.take(i as int).push(v@[i as int]));
            lemma_fields_model_push(v@.take(i as int), v@[i as int]);
            lemma_count_fields_push(
                fields_model(v@.take(i as int)),
                (v@[i as int].0@, pat_model(v@[i as int].1)),
            );
        }
        found = found || h;
        i = i + 1;
    }
    proof {
        assert(v@.take(i as int) =~= v@);
    }
    found
}

/// The decimal digit `d` as a character.
pub open spec fn digit_char(d: nat) -> char {
    (d + 48) as char
}

/// The decimal representation of `n`, without leading zeros.
pub open spec fn decimal(n: nat) -> Seq<char>
    decreases n,
{
    if n < 10 {
        seq![digit_char(n)]
    } else {
        decimal(n / 10).push(digit_char(n % 10))
    }
}

/// The name that a fresh-name generator hands out at index `i`.
pub open spec fn gensym_name(i: nat) -> Seq<char> {
    "gen_sym_"@ + decimal(i)
}

fn digit_str(d: u64) -> (r: &'static str)
    requires
        d < 10,
    ensures
        r@ == seq![digit_char(d as nat)],
{
    proof {
        reveal_strlit("0");
        reveal_strlit("1");
        reveal_strlit("2");
        reveal_strlit("3");
        reveal_strlit("4");
        reveal_strlit("5");
        reveal_strlit("6");
        reveal_strlit("7");
        reveal_strlit("8");
        reveal_strlit("9");
    }
    if d == 0 {
        "0"
    } else if d == 1 {
        "1"
    } else if d == 2 {
        "2"
    } else if d == 3 {
        "3"
    } else if d == 4 {
        "4"
    } else if d == 5 {
        "5"
    } else if d == 6 {
        "6"
    } else if d == 7 {
        "7"
    } else if d == 8 {
        "8"
    } else {
        "9"
    }
}

/// Writes `n` in decimal.
pub fn decimal_string(n: u64) -> (r: String)
    ensures
        r@ == decimal(n as nat),
    decreases n,
{
    if n < 10 {
        String::from_str(digit_str(n))
    } else {
        let mut s = decimal_string(n / 10);
        s.append(digit_str(n % 10));
        s
    }
}

proof fn lemma_digit_char(a: nat, b: nat)
    requires
        a < 10,
        b < 10,
        digit_char(a) == digit_char(b),
    ensures
        a == b,
{
    assert((a + 48) as char as int == a + 48);
    assert((b + 48) as char as int == b + 48);
}

proof fn lemma_decimal_injective(a: nat, b: nat)
    requires
        decimal(a) == decimal(b),
    ensures
        a == b,
    decreases a + b,
{
    if a < 10 && b < 10 {
        assert(decimal(a)[0] == digit_char(a));
        lemma_digit_char(a, b);
    } else if a < 10 {
        assert(decimal(b).len() == decimal(b / 10).len() + 1);
        assert(decimal(b / 10).len() > 0) by {
            if b / 10 >= 10 {
            }
        }
    } else if b < 10 {
        assert(decimal(a).len() == decimal(a / 10).len() + 1);
        assert(decimal(a / 10).len() > 0) by {
            if a / 10 >= 10 {
            }
        }
    } else {
        assert(decimal(a).drop_last() =~= decimal(a / 10));
        assert(decimal(b).drop_last() =~= decimal(b / 10));
        lemma_decimal_injective(a / 10, b / 10);
        assert(decimal(a).last() == digit_char(a % 10));
        lemma_digit_char(a % 10, b % 10);
    }
}

/// Fresh names are distinct: the names handed out at two different indices
/// differ.
pub proof fn lemma_gensym_names_distinct(i: nat, j: nat)
    requires
        i != j,
    ensures
        gensym_name(i) != gensym_name(j),
{
    if gensym_name(i) == gensym_name(j) {
        let p = "gen_sym_"@;
        assert(gensym_name(i).skip(p.len() as int) =~= decimal(i));
        assert(gensym_name(j).skip(p.len() as int) =~= decimal(j));
        lemma_decimal_injective(i, j);
    }
}

/// A generator of fresh names `gen_sym_0`, `gen_sym_1`, ...
pub struct GenSym {
    index: u64,
}

impl View for GenSym {
    type V = nat;

    /// The index of the next name to be handed out.
    closed spec fn view(&self) -> nat {
        self.index as nat
    }
}

impl GenSym {
    pub fn new() -> (g: Self)
        ensures
            g@ == 0,
    {
        GenSym { index: 0 }
    }

    /// Hands out the next fresh name.
    pub fn gen(&mut self) -> (name: String)
        requires
            old(self)@ < u64::MAX,
        ensures
            name@ == gensym_name(old(self)@),
            final(self)@ == old(self)@ + 1,
    {
        let mut ret = String::from_str("gen_sym_");
        let digits = decimal_string(self.index);
        ret.append(digits.as_str());
        self.index = self.index + 1;
        ret
    }
}

} // verus!
