use vstd::prelude::*;

use crate::data::{
    all_no_execute, count_fields, count_list, count_next, fields_model, fields_no_execute,
    lemma_fields_model, lemma_pats_model, no_execute, pats_model, ObjectPattern, PatternModel,
    chain_ready, execute_action, gensym_name, strip_execute, total_next, GenSym, ObjPatsAct,
};

verus! {

/// The texts of a list of strings.
pub open spec fn strs(v: Seq<String>) -> Seq<Seq<char>> {
    v.map_values(|s: String| s@)
}

/// The source text of a pattern. The `Next` nodes take the names from the
/// front of `names`, in the order the pattern is written: the i-th `!` takes
/// the i-th name.
pub open spec fn render(p: PatternModel, names: Seq<Seq<char>>) -> Seq<char>
    decreases p, 0int,
{
    match p {
        PatternModel::Wild => "_"@,
        PatternModel::Rest => ".."@,
        PatternModel::Next => names[0],
        PatternModel::Literal(l) => l,
        PatternModel::Cons { cons, params } => if params.len() == 0 {
            cons
        } else {
            cons + "("@ + render_list(params, names, ", "@) + ")"@
        },
        PatternModel::Tuple(ps) => "("@ + render_list(ps, names, ", "@) + ")"@,
        PatternModel::At { name, pattern } => name + " @ "@ + render(*pattern, names),
        PatternModel::RangeInclusive { start, end } => start + "..="@ + end,
        PatternModel::If { pattern, condition } => render(*pattern, names) + " if "@ + condition,
        PatternModel::Or(ps) => render_list(ps, names, " | "@),
        PatternModel::Struct { name, fields, rest } => {
            let fs = render_fields(fields, names);
            if rest {
                if fs.len() != 0 {
                    name + " { "@ + fs + ", .. }"@
                } else {
                    name + " { .. }"@
                }
            } else {
                name + " { "@ + fs + " }"@
            }
        },
        PatternModel::List(ps) => "["@ + render_list(ps, names, ", "@) + "]"@,
        PatternModel::Execute { .. } => Seq::empty(),
    }
}

/// The patterns rendered one after the other, joined by `sep`; each takes its
/// names from what follows the names the ones before it took.
pub open spec fn render_list(s: Seq<PatternModel>, names: Seq<Seq<char>>, sep: Seq<char>) -> Seq<
    char,
>
    decreases s, 1int,
{
    if s.len() == 0 {
        Seq::empty()
    } else if s.len() == 1 {
        render(s[0], names)
    } else {
        render_list(s.drop_last(), names, sep) + sep + render(
            s.last(),
            names.skip(count_list(s.drop_last()) as int),
        )
    }
}

/// The fields rendered as `name : pattern`, joined by `, `.
pub open spec fn render_fields(s: Seq<(Seq<char>, PatternModel)>, names: Seq<Seq<char>>) -> Seq<
    char,
>
    decreases s, 1int,
{
    if s.len() == 0 {
        Seq::empty()
    } else {
        proof {
            assert(decreases_to!(s => s.last()));
        }
        let field = s.last().0 + " : "@ + render(
            s.last().1,
            names.skip(count_fields(s.drop_last()) as int),
        );
        if s.len() == 1 {
            field
        } else {
            render_fields(s.drop_last(), names) + ", "@ + field
        }
    }
}

/// An or-pattern of a single alternative is written as that alternative and
/// takes the same names.
pub proof fn lemma_render_single_or(p: PatternModel, names: Seq<Seq<char>>)
    ensures
        render(PatternModel::Or(seq![p]), names) == render(p, names),
        count_next(PatternModel::Or(seq![p])) == count_next(p),
{
    let s = seq![p];
    assert(s.len() == 1);
    assert(s[0] == p);
    assert(s.last() == p);
    assert(s.drop_last() =~= Seq::<PatternModel>::empty());
    assert(count_list(Seq::<PatternModel>::empty()) == 0);
    assert(render_list(s, names, " | "@) == render(p, names));
    assert(count_list(s) == count_next(p));
}

pub proof fn lemma_all_no_execute(s: Seq<PatternModel>)
    requires
        all_no_execute(s),
    ensures
        forall|i: int| 0 <= i < s.len() ==> no_execute(#[trigger] s[i]),
    decreases s.len(),
{
    if s.len() > 0 {
        lemma_all_no_execute(s.drop_last());
        assert forall|i: int| 0 <= i < s.len() implies no_execute(#[trigger] s[i]) by {
            if i < s.len() - 1 {
                assert(s[i] == s.drop_last()[i]);
            }
        }
    }
}

pub proof fn lemma_fields_no_execute(s: Seq<(Seq<char>, PatternModel)>)
    requires
        fields_no_execute(s),
    ensures
        forall|i: int| 0 <= i < s.len() ==> no_execute(#[trigger] s[i].1),
    decreases s.len(),
{
    if s.len() > 0 {
        lemma_fields_no_execute(s.drop_last());
        assert forall|i: int| 0 <= i < s.len() implies no_execute(#[trigger] s[i].1) by {
            if i < s.len() - 1 {
                assert(s[i] == s.drop_last()[i]);
            }
        }
    }
}

pub proof fn lemma_count_list_prefix(s: Seq<PatternModel>, i: int)
    requires
        0 <= i <= s.len(),
    ensures
        count_list(s.take(i)) <= count_list(s),
    decreases s.len() - i,
{
    if i < s.len() {
        lemma_count_list_prefix(s, i + 1);
        assert(s.take(i + 1).drop_last() =~= s.take(i));
    } else {
        assert(s.take(i) =~= s);
    }
}

pub proof fn lemma_count_fields_prefix(s: Seq<(Seq<char>, PatternModel)>, i: int)
    requires
        0 <= i <= s.len(),
    ensures
        count_fields(s.take(i)) <= count_fields(s),
    decreases s.len() - i,
{
    if i < s.len() {
        lemma_count_fields_prefix(s, i + 1);
        assert(s.take(i + 1).drop_last() =~= s.take(i));
    } else {
        assert(s.take(i) =~= s);
    }
}

/// Writes a pattern as source text, filling the `Next` nodes, in writing
/// order, with names taken from the front of `next_names`.
fn obj_pat_to_string(input: &ObjectPattern, next_names: &mut Vec<String>) -> (r: String)
    requires
        no_execute(input@),
        count_next(input@) <= old(next_names)@.len(),
    ensures
        r@ == render(input@, strs(old(next_names)@)),
        final(next_names)@ == old(next_names)@.skip(count_next(input@) as int),
    decreases input,
{
    let ghost names0 = next_names@;
    match input {
        ObjectPattern::Wild => {
            proof {
                assert(next_names@.skip(0) =~= next_names@);
            }
            String::from_str("_")
        },
        ObjectPattern::Rest => {
            proof {
                assert(next_names@.skip(0) =~= next_names@);
            }
            String::from_str("..")
        },
        ObjectPattern::Next => {
            let name = next_names.remove(0);
            proof {
                assert(strs(names0)[0] == names0[0]@);
                assert(next_names@ =~= names0.skip(1));
            }
            name
        },
        ObjectPattern::Literal(l) => {
            proof {
                assert(next_names@.skip(0) =~= next_names@);
            }
            l.clone()
        },
        ObjectPattern::Cons { cons, params } => {
            proof {
                lemma_pats_model(params@);
            }
            if params.len() == 0 {
                proof {
                    assert(count_list(pats_model(params@)) == 0);
                    assert(next_names@.skip(0) =~= next_names@);
                }
                cons.clone()
            } else {
                let mut s = cons.clone();
                s.append("(");
                let inner = list_to_string(params, next_names, ", ");
                s.append(inner.as_str());
                s.append(")");
                s
            }
        },
        ObjectPattern::Tuple(params) => {
            let mut s = String::from_str("(");
            let inner = list_to_string(params, next_names, ", ");
            s.append(inner.as_str());
            s.append(")");
            s
        },
        ObjectPattern::At { name, pattern } => {
            let mut s = name.clone();
            s.append(" @ ");
            let inner = obj_pat_to_string(pattern, next_names);
            s.append(inner.as_str());
            s
        },
        ObjectPattern::RangeInclusive { start, end } => {
            proof {
                assert(next_names@.skip(0) =~= next_names@);
            }
            let mut s = start.clone();
            s.append("..=");
            s.append(end.as_str());
            s
        },
        ObjectPattern::If { pattern, condition } => {
            let mut s = obj_pat_to_string(pattern, next_names);
            s.append(" if ");
            s.append(condition.as_str());
            s
        },
        ObjectPattern::Or(pats) => list_to_string(pats, next_names, " | "),
        ObjectPattern::Struct { name, fields, rest } => {
            let fs = fields_to_string(fields, next_names);
            let mut s = name.clone();
            if *rest {
                if !fs.as_str().is_empty() {
                    s.append(" { ");
                    s.append(fs.as_str());
                    s.append(", .. }");
                } else {
                    s.append(" { .. }");
                }
            } else {
                s.append(" { ");
                s.append(fs.as_str());
                s.append(" }");
            }
            s
        },
        ObjectPattern::List(items) => {
            let mut s = String::from_str("[");
            let inner = list_to_string(items, next_names, ", ");
            s.append(inner.as_str());
            s.append("]");
            s
        },
        ObjectPattern::Execute { .. } => {
            proof {
                assert(false);
            }
            String::new()
        },
    }
}

/// Writes patterns one after the other, joined by `sep`.
fn list_to_string(ps: &Vec<ObjectPattern>, next_names: &mut Vec<String>, sep: &str) -> (r: String)
    requires
        all_no_execute(pats_model(ps@)),
        count_list(pats_model(ps@)) <= old(next_names)@.len(),
    ensures
        r@ == render_list(pats_model(ps@), strs(old(next_names)@), sep@),
        final(next_names)@ == old(next_names)@.skip(count_list(pats_model(ps@)) as int),
    decreases ps,
{
    let ghost names0 = next_names@;
    let ghost m = pats_model(ps@);
    proof {
        lemma_pats_model(ps@);
        lemma_all_no_execute(m);
        assert(names0.skip(0) =~= names0);
    }
    let mut out = String::new();
    let mut i: usize = 0;
    while i < ps.len()
        invariant
            0 <= i <= ps.len(),
            m == pats_model(ps@),
            m.len() == ps@.len(),
            forall|j: int| 0 <= j < ps@.len() ==> #[trigger] m[j] == ps@[j]@,
            forall|j: int| 0 <= j < ps@.len() ==> no_execute(#[trigger] m[j]),
            count_list(m) <= names0.len(),
            out@ == render_list(m.take(i as int), strs(names0), sep@),
            next_names@ == names0.skip(count_list(m.take(i as int)) as int),
        decreases ps.len() - i,
    {
        proof {
            assert(m.take(i + 1).drop_last() =~= m.take(i as int));
            assert(m.take(i + 1).last() == m[i as int]);
            lemma_count_list_prefix(m, i + 1);
            assert(strs(names0).skip(count_list(m.take(i as int)) as int) =~= strs(next_names@));
        }
        proof {
            if i == 0 {
                assert(m.take(0) =~= Seq::<PatternModel>::empty());
                assert(next_names@ =~= names0);
                assert(out@ =~= Seq::<char>::empty());
            }
        }
        if i > 0 {
            out.append(sep);
        }
        let s = obj_pat_to_string(&ps[i], next_names);
        out.append(s.as_str());
        i = i + 1;
    }
    proof {
        assert(m.take(i as int) =~= m);
    }
    out
}

/// Writes struct fields as `name : pattern`, joined by `, `.
fn fields_to_string(fs: &Vec<(String, ObjectPattern)>, next_names: &mut Vec<String>) -> (r: String)
    requires
        fields_no_execute(fields_model(fs@)),
        count_fields(fields_model(fs@)) <= old(next_names)@.len(),
    ensures
        r@ == render_fields(fields_model(fs@), strs(old(next_names)@)),
        final(next_names)@ == old(next_names)@.skip(count_fields(fields_model(fs@)) as int),
    decreases fs,
{
    let ghost names0 = next_names@;
    let ghost m = fields_model(fs@);
    proof {
        lemma_fields_model(fs@);
        lemma_fields_no_execute(m);
        assert(names0.skip(0) =~= names0);
    }
    let mut out = String::new();
    let mut i: usize = 0;
    while i < fs.len()
        invariant
            0 <= i <= fs.len(),
            m == fields_model(fs@),
            m.len() == fs@.len(),
            forall|j: int| 0 <= j < fs@.len() ==> #[trigger] m[j] == (fs@[j].0@, fs@[j].1@),
            forall|j: int| 0 <= j < fs@.len() ==> no_execute(#[trigger] m[j].1),
            count_fields(m) <= names0.len(),
            out@ == render_fields(m.take(i as int), strs(names0)),
            next_names@ == names0.skip(count_fields(m.take(i as int)) as int),
        decreases fs.len() - i,
    {
        proof {
            assert(m.take(i + 1).drop_last() =~= m.take(i as int));
            assert(m.take(i + 1).last() == m[i as int]);
            lemma_count_fields_prefix(m, i + 1);
            assert(strs(names0).skip(count_fields(m.take(i as int)) as int) =~= strs(
                next_names@,
            ));
        }
        proof {
            if i == 0 {
                assert(m.take(0) =~= Seq::<(Seq<char>, PatternModel)>::empty());
                assert(next_names@ =~= names0);
                assert(out@ =~= Seq::<char>::empty());
            }
        }
        if i > 0 {
            out.append(", ");
        }
        out.append(fs[i].0.as_str());
        out.append(" : ");
        let s = obj_pat_to_string(&fs[i].1, next_names);
        out.append(s.as_str());
        i = i + 1;
    }
    proof {
        assert(m.take(i as int) =~= m);
    }
    out
}

/// `n` fresh names, starting at index `start`.
pub open spec fn gensyms(start: nat, n: nat) -> Seq<Seq<char>> {
    Seq::new(n, |k: int| gensym_name((start + k) as nat))
}

pub proof fn lemma_gensyms_concat(a: nat, m: nat, n: nat)
    ensures
        gensyms(a, m) + gensyms(a + m, n) =~= gensyms(a, m + n),
{
}

/// Hands out a fresh name for each `Next` in the pattern tree.
fn gen_names(p: &ObjectPattern, g: &mut GenSym, names: &mut Vec<String>)
    requires
        old(g)@ + count_next(p@) <= u64::MAX,
    ensures
        strs(final(names)@) == strs(old(names)@) + gensyms(old(g)@, count_next(p@)),
        final(g)@ == old(g)@ + count_next(p@),
    decreases p,
{
    let ghost names0 = names@;
    let ghost g0 = g@;
    match p {
        ObjectPattern::Next => {
            let name = g.gen();
            names.push(name);
            proof {
                assert(strs(names@) =~= strs(names0) + gensyms(g0, 1));
            }
        },
        ObjectPattern::Cons { params, .. } => list_gen_names(params, g, names),
        ObjectPattern::Tuple(params) => list_gen_names(params, g, names),
        ObjectPattern::At { pattern, .. } => gen_names(pattern, g, names),
        ObjectPattern::If { pattern, .. } => gen_names(pattern, g, names),
        ObjectPattern::Or(pats) => list_gen_names(pats, g, names),
        ObjectPattern::Struct { fields, .. } => fields_gen_names(fields, g, names),
        ObjectPattern::List(items) => list_gen_names(items, g, names),
        ObjectPattern::Execute { pattern, .. } => gen_names(pattern, g, names),
        _ => {
            proof {
                assert(strs(names@) =~= strs(names0) + gensyms(g0, 0));
            }
        },
    }
}

fn list_gen_names(ps: &Vec<ObjectPattern>, g: &mut GenSym, names: &mut Vec<String>)
    requires
        old(g)@ + count_list(pats_model(ps@)) <= u64::MAX,
    ensures
        strs(final(names)@) == strs(old(names)@) + gensyms(old(g)@, count_list(pats_model(ps@))),
        final(g)@ == old(g)@ + count_list(pats_model(ps@)),
    decreases ps,
{
    let ghost names0 = names@;
    let ghost g0 = g@;
    let ghost m = pats_model(ps@);
    proof {
        lemma_pats_model(ps@);
        assert(m.take(0) =~= Seq::<PatternModel>::empty());
        assert(strs(names@) =~= strs(names0) + gensyms(g0, 0));
    }
    let mut i: usize = 0;
    while i < ps.len()
        invariant
            0 <= i <= ps.len(),
            m == pats_model(ps@),
            m.len() == ps@.len(),
            forall|j: int| 0 <= j < ps@.len() ==> #[trigger] m[j] == ps@[j]@,
            g0 + count_list(m) <= u64::MAX,
            strs(names@) == strs(names0) + gensyms(g0, count_list(m.take(i as int))),
            g@ == g0 + count_list(m.take(i as int)),
        decreases ps.len() - i,
    {
        proof {
            assert(m.take(i + 1).drop_last() =~= m.take(i as int));
            lemma_count_list_prefix(m, i + 1);
            lemma_gensyms_concat(g0, count_list(m.take(i as int)), count_next(m[i as int]));
        }
        gen_names(&ps[i], g, names);
        i = i + 1;
    }
    proof {
        assert(m.take(i as int) =~= m);
    }
}

fn fields_gen_names(fs: &Vec<(String, ObjectPattern)>, g: &mut GenSym, names: &mut Vec<String>)
    requires
        old(g)@ + count_fields(fields_model(fs@)) <= u64::MAX,
    ensures
        strs(final(names)@) == strs(old(names)@) + gensyms(
            old(g)@,
            count_fields(fields_model(fs@)),
        ),
        final(g)@ == old(g)@ + count_fields(fields_model(fs@)),
    decreases fs,
{
    let ghost names0 = names@;
    let ghost g0 = g@;
    let ghost m = fields_model(fs@);
    proof {
        lemma_fields_model(fs@);
        assert(m.take(0) =~= Seq::<(Seq<char>, PatternModel)>::empty());
        assert(strs(names@) =~= strs(names0) + gensyms(g0, 0));
    }
    let mut i: usize = 0;
    while i < fs.len()
        invariant
            0 <= i <= fs.len(),
            m == fields_model(fs@),
            m.len() == fs@.len(),
            forall|j: int| 0 <= j < fs@.len() ==> #[trigger] m[j] == (fs@[j].0@, fs@[j].1@),
            g0 + count_fields(m) <= u64::MAX,
            strs(names@) == strs(names0) + gensyms(g0, count_fields(m.take(i as int))),
            g@ == g0 + count_fields(m.take(i as int)),
        decreases fs.len() - i,
    {
        proof {
            assert(m.take(i + 1).drop_last() =~= m.take(i as int));
            lemma_count_fields_prefix(m, i + 1);
            lemma_gensyms_concat(g0, count_fields(m.take(i as int)), count_next(m[i as int].1));
        }
        gen_names(&fs[i].1, g, names);
        i = i + 1;
    }
    proof {
        assert(m.take(i as int) =~= m);
    }
}

/// One match arm of the generated code: match `name`, on success run
/// `execute`, then `next`.
pub open spec fn match_arm(name: Seq<char>, pat: Seq<char>, execute: Seq<char>, next: Seq<char>) -> Seq<
    char,
> {
    "\n        match "@ + name + ".borrow() {\n            "@ + pat + " => { \n                "@
        + execute + "\n                "@ + next + " \n            },\n            _ => {},\n        }\n        "@
}

/// The match arms for all `names`, one after the other.
pub open spec fn match_arms(
    pat: Seq<char>,
    execute: Seq<char>,
    next: Seq<char>,
    names: Seq<Seq<char>>,
) -> Seq<char>
    decreases names.len(),
{
    if names.len() == 0 {
        Seq::empty()
    } else {
        match_arms(pat, execute, next, names.drop_last()) + match_arm(
            names.last(),
            pat,
            execute,
            next,
        )
    }
}

/// The match arms for two lists of names, one after the other, are the arms
/// for the first list followed by the arms for the second.
pub proof fn lemma_match_arms_concat(
    pat: Seq<char>,
    execute: Seq<char>,
    next: Seq<char>,
    a: Seq<Seq<char>>,
    b: Seq<Seq<char>>,
)
    ensures
        match_arms(pat, execute, next, a + b) == match_arms(pat, execute, next, a) + match_arms(
            pat,
            execute,
            next,
            b,
        ),
    decreases b.len(),
{
    if b.len() == 0 {
        assert(a + b =~= a);
        assert(match_arms(pat, execute, next, a) + Seq::<char>::empty() =~= match_arms(
            pat,
            execute,
            next,
            a,
        ));
    } else {
        lemma_match_arms_concat(pat, execute, next, a, b.drop_last());
        assert((a + b).drop_last() =~= a + b.drop_last());
        assert((a + b).last() == b.last());
    }
}

/// Matches `pat` against each of `prev_names`, running `execute` and then
/// `next` on each match.
fn obj_pat_match(pat: String, execute: &str, next: String, prev_names: &Vec<String>) -> (r: String)
    ensures
        r@ == match_arms(pat@, execute@, next@, strs(prev_names@)),
{
    let ghost ns = strs(prev_names@);
    let mut out = String::new();
    let mut i: usize = 0;
    proof {
        assert(ns.take(0) =~= Seq::<Seq<char>>::empty());
    }
    while i < prev_names.len()
        invariant
            0 <= i <= prev_names.len(),
            ns == strs(prev_names@),
            out@ == match_arms(pat@, execute@, next@, ns.take(i as int)),
        decreases prev_names.len() - i,
    {
        proof {
            assert(ns.take(i + 1).drop_last() =~= ns.take(i as int));
            assert(ns.take(i + 1).last() == prev_names@[i as int]@);
        }
        out.append("\n        match ");
        out.append(prev_names[i].as_str());
        out.append(".borrow() {\n            ");
        out.append(pat.as_str());
        out.append(" => { \n                ");
        out.append(execute);
        out.append("\n                ");
        out.append(next.as_str());
        out.append(" \n            },\n            _ => {},\n        }\n        ");
        i = i + 1;
    }
    proof {
        assert(ns.take(i as int) =~= ns);
    }
    out
}

/// The innermost code: push the action's value.
pub open spec fn initial_next(action: Seq<char>) -> Seq<char> {
    "{ ret.push( "@ + action + " ); }"@
}

/// The code and the scrutinee names after the patterns from index `k` on
/// have been wrapped around the action, working from the last pattern
/// outwards, and the generator's index by then.
///
/// Pattern `k` is matched against each name of its scrutinees: the closure's
/// input for the first pattern, else fresh names, one for each `Next` of
/// pattern `k - 1`. Its own `Next` nodes are filled with the names handed
/// out for it.
pub open spec fn chain_state(pats: Seq<PatternModel>, action: Seq<char>, g0: nat, k: int) -> (
    Seq<char>,
    Seq<Seq<char>>,
    nat,
)
    decreases pats.len() - k,
{
    if 0 <= k < pats.len() {
        let (next, names, g) = chain_state(pats, action, g0, k + 1);
        let prev_names = if k == 0 {
            seq!["gen_sym_input"@]
        } else {
            gensyms(g, count_next(pats[k - 1]))
        };
        let g2 = if k == 0 {
            g
        } else {
            g + count_next(pats[k - 1])
        };
        let cur = render(strip_execute(pats[k]), names);
        (match_arms(cur, execute_action(pats[k]), next, prev_names), prev_names, g2)
    } else {
        (initial_next(action), seq![], g0)
    }
}

/// The closure that the matcher expands to.
pub open spec fn closure_text(body: Seq<char>) -> Seq<char> {
    "\n    |gen_sym_input| {\n        use std::borrow::Borrow;\n        let mut ret = vec![];\n        "@
        + body + "\n        ret\n    }\n    "@
}

/// The code generated for a chain with its action, with fresh names handed
/// out from index `g0`.
pub open spec fn matcher_text(pats: Seq<PatternModel>, action: Seq<char>, g0: nat) -> Seq<char> {
    closure_text(chain_state(pats, action, g0, 0).0)
}

proof fn lemma_chain_state_index(pats: Seq<PatternModel>, action: Seq<char>, g0: nat, k: int)
    requires
        1 <= k <= pats.len(),
    ensures
        chain_state(pats, action, g0, k).2 + count_list(pats.take(k - 1)) == g0 + count_list(
            pats.take(pats.len() - 1),
        ),
    decreases pats.len() - k,
{
    if k < pats.len() {
        lemma_chain_state_index(pats, action, g0, k + 1);
        assert(pats.take(k).drop_last() =~= pats.take(k - 1));
    }
}

/// The code for a chain uses up exactly one fresh name per `!` of the chain:
/// the generator's index moves on by the number of `Next` nodes.
pub proof fn lemma_matcher_uses_all_names(pats: Seq<PatternModel>, action: Seq<char>, g0: nat)
    requires
        chain_ready(pats),
    ensures
        chain_state(pats, action, g0, 0).2 == g0 + total_next(pats),
{
    if pats.len() > 0 {
        lemma_chain_state_index(pats, action, g0, 1);
        assert(pats.take(0) =~= Seq::<PatternModel>::empty());
        assert(pats.drop_last() =~= pats.take(pats.len() - 1));
    }
}

/// `frag` occurs in `s`.
pub open spec fn contains_text(s: Seq<char>, frag: Seq<char>) -> bool {
    exists|i: int| 0 <= i && i + frag.len() <= s.len() && #[trigger] s.subrange(i, i + frag.len()) == frag
}

proof fn lemma_contains_self(f: Seq<char>)
    ensures
        contains_text(f, f),
{
    assert(f.subrange(0int, 0int + f.len()) =~= f);
}

proof fn lemma_contains_in_concat(a: Seq<char>, b: Seq<char>, c: Seq<char>, f: Seq<char>)
    requires
        contains_text(b, f),
    ensures
        contains_text(a + b + c, f),
{
    let i = choose|i: int| 0 <= i && i + f.len() <= b.len() && #[trigger] b.subrange(i, i + f.len()) == f;
    let j = i + a.len();
    assert((a + b + c).subrange(j, j + f.len()) =~= b.subrange(i, i + f.len()));
}

proof fn lemma_contains_trans(s: Seq<char>, m: Seq<char>, f: Seq<char>)
    requires
        contains_text(s, m),
        contains_text(m, f),
    ensures
        contains_text(s, f),
{
    let i = choose|i: int| 0 <= i && i + m.len() <= s.len() && #[trigger] s.subrange(i, i + m.len()) == m;
    let j = choose|j: int| 0 <= j && j + f.len() <= m.len() && #[trigger] m.subrange(j, j + f.len()) == f;
    assert(s.subrange(i + j, i + j + f.len()) =~= m.subrange(j, j + f.len()));
}

/// The part of a match arm that holds its executable block.
pub open spec fn block_text(execute: Seq<char>) -> Seq<char> {
    " => { \n                "@ + execute + "\n                "@
}

proof fn lemma_regroup(
    x1: Seq<char>,
    x2: Seq<char>,
    x3: Seq<char>,
    x4: Seq<char>,
    x5: Seq<char>,
    x6: Seq<char>,
    x7: Seq<char>,
    x8: Seq<char>,
    x9: Seq<char>,
)
    ensures
        x1 + x2 + x3 + x4 + x5 + x6 + x7 + x8 + x9 == (x1 + x2 + x3 + x4) + (x5 + x6 + x7) + (x8
            + x9),
        x1 + x2 + x3 + x4 + x5 + x6 + x7 + x8 + x9 == (x1 + x2 + x3 + x4 + x5 + x6 + x7) + x8 + x9,
{
    assert(x1 + x2 + x3 + x4 + x5 + x6 + x7 + x8 + x9 =~= (x1 + x2 + x3 + x4) + (x5 + x6 + x7) + (x8
        + x9));
    assert(x1 + x2 + x3 + x4 + x5 + x6 + x7 + x8 + x9 =~= (x1 + x2 + x3 + x4 + x5 + x6 + x7) + x8
        + x9);
}

/// A match arm holds its executable block, and the code that runs after it.
proof fn lemma_arm_holds(name: Seq<char>, pat: Seq<char>, execute: Seq<char>, next: Seq<char>)
    ensures
        contains_text(match_arm(name, pat, execute, next), block_text(execute)),
        contains_text(match_arm(name, pat, execute, next), next),
{
    let l1 = "\n        match "@;
    let l2 = ".borrow() {\n            "@;
    let l3 = " => { \n                "@;
    let l4 = "\n                "@;
    let l5 = " \n            },\n            _ => {},\n        }\n        "@;
    lemma_regroup(l1, name, l2, pat, l3, execute, l4, next, l5);
    lemma_contains_self(block_text(execute));
    lemma_contains_in_concat(l1 + name + l2 + pat, l3 + execute + l4, next + l5, block_text(execute));
    lemma_contains_self(next);
    lemma_contains_in_concat(l1 + name + l2 + pat + l3 + execute + l4, next, l5, next);
}

/// The arms for a non-empty list of names hold the executable block, and the
/// code that runs after it.
proof fn lemma_arms_hold(
    pat: Seq<char>,
    execute: Seq<char>,
    next: Seq<char>,
    names: Seq<Seq<char>>,
)
    requires
        names.len() > 0,
    ensures
        contains_text(match_arms(pat, execute, next, names), block_text(execute)),
        contains_text(match_arms(pat, execute, next, names), next),
{
    let arm = match_arm(names.last(), pat, execute, next);
    lemma_arm_holds(names.last(), pat, execute, next);
    let before = match_arms(pat, execute, next, names.drop_last());
    lemma_contains_in_concat(before, arm, Seq::empty(), block_text(execute));
    lemma_contains_in_concat(before, arm, Seq::empty(), next);
    assert(before + arm + Seq::<char>::empty() =~= match_arms(pat, execute, next, names));
}

proof fn lemma_chain_holds_block(
    pats: Seq<PatternModel>,
    action: Seq<char>,
    g0: nat,
    j: int,
    k: int,
)
    requires
        0 <= j <= k < pats.len(),
        forall|i: int| 0 <= i < pats.len() - 1 ==> count_next(#[trigger] pats[i]) > 0,
    ensures
        contains_text(chain_state(pats, action, g0, j).0, block_text(execute_action(pats[k]))),
    decreases k - j,
{
    let (next, names, g) = chain_state(pats, action, g0, j + 1);
    let prev_names = if j == 0 {
        seq!["gen_sym_input"@]
    } else {
        gensyms(g, count_next(pats[j - 1]))
    };
    assert(prev_names.len() > 0);
    let cur = render(strip_execute(pats[j]), names);
    lemma_arms_hold(cur, execute_action(pats[j]), next, prev_names);
    if j < k {
        lemma_chain_holds_block(pats, action, g0, j + 1, k);
        lemma_contains_trans(
            chain_state(pats, action, g0, j).0,
            next,
            block_text(execute_action(pats[k])),
        );
    }
}

/// Every executable block of a chain whose patterns but the last each hold a
/// `!` appears in the generated code, the block of each pattern of the chain,
/// not only the first.
pub proof fn lemma_matcher_keeps_blocks(pats: Seq<PatternModel>, action: Seq<char>, g0: nat, k: int)
    requires
        0 <= k < pats.len(),
        forall|i: int| 0 <= i < pats.len() - 1 ==> count_next(#[trigger] pats[i]) > 0,
    ensures
        contains_text(matcher_text(pats, action, g0), block_text(execute_action(pats[k]))),
{
    lemma_chain_holds_block(pats, action, g0, 0, k);
    let body = chain_state(pats, action, g0, 0).0;
    let head = "\n    |gen_sym_input| {\n        use std::borrow::Borrow;\n        let mut ret = vec![];\n        "@;
    let tail = "\n        ret\n    }\n    "@;
    lemma_contains_in_concat(head, body, tail, block_text(execute_action(pats[k])));
}

/// Generates the closure for an object pattern chain: a nest of `match`
/// statements, one level per pattern, that pushes the action's value onto
/// the returned vector for every way the chain matches.
pub fn object_pattern_matcher(g: &mut GenSym, input: ObjPatsAct) -> (r: String)
    requires
        chain_ready(pats_model(input.obj_pats@)),
        old(g)@ + total_next(pats_model(input.obj_pats@)) <= u64::MAX,
    ensures
        r@ == matcher_text(pats_model(input.obj_pats@), input.action@, old(g)@),
        final(g)@ == chain_state(pats_model(input.obj_pats@), input.action@, old(g)@, 0).2,
{
    let ObjPatsAct { obj_pats, action } = input;
    let ghost m = pats_model(obj_pats@);
    let ghost g0 = g@;
    let ghost act = action@;
    proof {
        lemma_pats_model(obj_pats@);
        reveal_strlit("");
    }
    let mut next = String::from_str("{ ret.push( ");
    next.append(action.as_str());
    next.append(" ); }");
    let mut names: Vec<String> = Vec::new();
    let mut i: usize = obj_pats.len();
    proof {
        assert(strs(names@) =~= seq![]);
        if i > 0 {
            lemma_count_list_prefix(m, i - 1);
        }
    }
    while i > 0
        invariant
            0 <= i <= obj_pats.len(),
            m == pats_model(obj_pats@),
            m.len() == obj_pats@.len(),
            forall|j: int| 0 <= j < obj_pats@.len() ==> #[trigger] m[j] == obj_pats@[j]@,
            chain_ready(m),
            g0 + count_list(m) <= u64::MAX,
            i > 0 ==> g@ + count_list(m.take(i - 1)) <= g0 + count_list(m),
            (next@, strs(names@), g@) == chain_state(m, act, g0, i as int),
        decreases i,
    {
        let k = i - 1;
        proof {
            assert(no_execute(strip_execute(m[k as int])));
            if k > 0 {
                assert(m.take(k as int).drop_last() =~= m.take(k - 1));
                lemma_count_list_prefix(m, k - 1);
            }
        }
        let prev_names: Vec<String> = if k == 0 {
            vec![String::from_str("gen_sym_input")]
        } else {
            let mut v: Vec<String> = Vec::new();
            proof {
                assert(strs(v@) =~= seq![]);
            }
            gen_names(&obj_pats[k - 1], g, &mut v);
            proof {
                assert(strs(v@) =~= gensyms(chain_state(m, act, g0, i as int).2, count_next(m[k - 1])));
            }
            v
        };
        proof {
            if k == 0 {
                assert(strs(prev_names@) =~= seq!["gen_sym_input"@]);
            }
        }
        let mut cur_names = names;
        let cur = &obj_pats[k];
        let (cur_text, exec_text) = match cur {
            ObjectPattern::Execute { action: block, pattern } => (
                obj_pat_to_string(pattern, &mut cur_names),
                block.as_str(),
            ),
            _ => (obj_pat_to_string(cur, &mut cur_names), ""),
        };
        proof {
            reveal_strlit("");
            assert(cur_text@ == render(strip_execute(m[k as int]), chain_state(m, act, g0, i as int).1));
            assert(exec_text@ == execute_action(m[k as int]));
        }
        next = obj_pat_match(cur_text, exec_text, next, &prev_names);
        names = prev_names;
        i = k;
    }
    let mut out = String::from_str(
        "\n    |gen_sym_input| {\n        use std::borrow::Borrow;\n        let mut ret = vec![];\n        ",
    );
    out.append(next.as_str());
    out.append("\n        ret\n    }\n    ");
    out
}

} // verus!
