//! What holds of every evaluation, proved of the semantics.
use vstd::prelude::*;
use crate::env::{bind, chained, lookup, with_child, Store};
use crate::semantics::{
    all_numbers, apply, apply_builtin, bind_params, bound_count, call, define_form, done, eval,
    eval_each, failed, fold_numbers, if_form, numbers, quoted, truthy, Doubles,
};
use crate::types::{Builtin, Failure, Value};

verus! {

/// What a frame sees depends on that frame and the frames before it alone.
pub proof fn lemma_lookup_agrees(s1: Store, s2: Store, j: nat, name: Seq<char>)
    requires
        j < s1.len(),
        j < s2.len(),
        forall|i: int| 0 <= i <= j ==> s1[i] == s2[i],
    ensures
        lookup(s1, j, name) == lookup(s2, j, name),
    decreases j,
{
    if !s1[j as int].vars.contains_key(name) {
        match s1[j as int].outer {
            Some(k) => {
                if k < j {
                    lemma_lookup_agrees(s1, s2, k, name);
                }
            },
            None => {},
        }
    }
}

/// Binding parameters touches the one frame, keeps its outer link, and adds
/// no name but the parameters'.
pub proof fn lemma_bind_params(
    s: Store,
    g: nat,
    params: Seq<Seq<char>>,
    args: Seq<Value>,
    n: nat,
)
    requires
        g < s.len(),
        n <= params.len(),
    ensures
        bind_params(s, g, params, args, n).len() == s.len(),
        forall|i: int|
            0 <= i < s.len() && i != g ==> bind_params(s, g, params, args, n)[i] == s[i],
        bind_params(s, g, params, args, n)[g as int].outer == s[g as int].outer,
        forall|k: Seq<char>|
            !params.contains(k) && !s[g as int].vars.contains_key(k) ==> !bind_params(
                s,
                g,
                params,
                args,
                n,
            )[g as int].vars.contains_key(k),
    decreases n,
{
    if n > 0 {
        lemma_bind_params(s, g, params, args, (n - 1) as nat);
        assert(params.contains(params[n - 1]));
    }
}

/// A store that has every frame of `s`, each with the outer link it has in
/// `s`, and maybe more frames behind them.
pub open spec fn extends(after: Store, s: Store) -> bool {
    &&& after.len() >= s.len()
    &&& forall|i: int| 0 <= i < s.len() ==> (#[trigger] after[i]).outer == s[i].outer
}

/// What extends an extension of `a` extends `a`.
pub proof fn lemma_extends_twice(c: Store, b: Store, a: Store)
    requires
        extends(c, b),
        extends(b, a),
    ensures
        extends(c, a),
{
    assert forall|i: int| 0 <= i < a.len() implies (#[trigger] c[i]).outer == a[i].outer by {
        assert(b[i].outer == a[i].outer);
    }
}

/// No evaluation removes a frame or changes an outer link, and none makes
/// a cycle of outer links.
pub proof fn lemma_eval_grows<A: Doubles>(e: Value, s: Store, f: nat, depth: nat)
    requires
        f < s.len(),
    ensures
        extends(eval::<A>(e, s, f, depth).store, s),
        chained(s) ==> chained(eval::<A>(e, s, f, depth).store),
    decreases depth, 0nat, 0nat,
{
    if depth > 0 {
        match e {
            Value::List(l) => {
                if l.len() > 0 {
                    match l[0] {
                        Value::Symbol(name) => match lookup(s, f, name) {
                            Some(h) => {
                                lemma_apply_grows::<A>(h, l, s, f, (depth - 1) as nat);
                            },
                            None => {},
                        },
                        _ => {},
                    }
                }
            },
            _ => {},
        }
    }
}

/// No run of evaluations removes a frame or changes an outer link, and none
/// makes a cycle of outer links.
pub proof fn lemma_each_grows<A: Doubles>(
    l: Seq<Value>,
    i: nat,
    acc: Seq<Value>,
    s: Store,
    f: nat,
    depth: nat,
    numeric: Option<Builtin>,
)
    requires
        f < s.len(),
    ensures
        extends(eval_each::<A>(l, i, acc, s, f, depth, numeric).store, s),
        chained(s) ==> chained(eval_each::<A>(l, i, acc, s, f, depth, numeric).store),
    decreases depth, 1nat, l.len() - i,
{
    if i < l.len() {
        lemma_eval_grows::<A>(l[i as int], s, f, depth);
        let o = eval::<A>(l[i as int], s, f, depth);
        match o.result {
            Ok(v) => {
                if !(numeric is Some && !(v is Number)) {
                    lemma_each_grows::<A>(l, i + 1, acc.push(v), o.store, f, depth, numeric);
                }
            },
            Err(_) => {},
        }
    }
}

/// No application removes a frame or changes an outer link, and none makes
/// a cycle of outer links.
pub proof fn lemma_apply_grows<A: Doubles>(h: Value, l: Seq<Value>, s: Store, f: nat, depth: nat)
    requires
        f < s.len(),
    ensures
        extends(apply::<A>(h, l, s, f, depth).store, s),
        chained(s) ==> chained(apply::<A>(h, l, s, f, depth).store),
    decreases depth, 4nat, 0nat,
{
    match h {
        Value::Builtin(b) => {
            match b {
                Builtin::Begin => {
                    lemma_each_grows::<A>(l, 1, Seq::empty(), s, f, depth, None);
                },
                Builtin::Define => {
                    if l.len() >= 3 {
                        lemma_eval_grows::<A>(l[2], s, f, depth);
                        let o = eval::<A>(l[2], s, f, depth);
                        if o.result is Ok && l[1] is Symbol {
                            let bound = bind(o.store, f, l[1]->Symbol_0, o.result->Ok_0);
                            assert(extends(bound, o.store));
                            lemma_extends_twice(bound, o.store, s);
                        }
                    }
                },
                Builtin::If => {
                    if l.len() >= 2 {
                        lemma_eval_grows::<A>(l[1], s, f, depth);
                        let o = eval::<A>(l[1], s, f, depth);
                        if l.len() >= 4 && o.result is Ok {
                            lemma_eval_grows::<A>(l[2], o.store, f, depth);
                            lemma_eval_grows::<A>(l[3], o.store, f, depth);
                            lemma_extends_twice(eval::<A>(l[2], o.store, f, depth).store, o.store, s);
                            lemma_extends_twice(eval::<A>(l[3], o.store, f, depth).store, o.store, s);
                        }
                    }
                },
                Builtin::Lambda => {},
                Builtin::Quote => {},
                _ => {
                    lemma_each_grows::<A>(l, 1, Seq::empty(), s, f, depth, Some(b));
                },
            }
        },
        Value::Procedure { body, params, capture } => {
            if capture < s.len() {
                lemma_each_grows::<A>(l, 1, Seq::empty(), s, f, depth, None);
                let r = eval_each::<A>(l, 1, Seq::empty(), s, f, depth, None);
                match r.result {
                    Ok(args) => {
                        let g = r.store.len();
                        let child = with_child(r.store, capture);
                        let n = bound_count(params, args);
                        lemma_bind_params(child, g, params, args, n);
                        let framed = bind_params(child, g, params, args, n);
                        lemma_eval_grows::<A>(*body, framed, g, depth);
                        assert(extends(child, r.store));
                        assert(extends(framed, child));
                        lemma_extends_twice(framed, child, r.store);
                        lemma_extends_twice(framed, r.store, s);
                        lemma_extends_twice(eval::<A>(*body, framed, g, depth).store, framed, s);
                    },
                    Err(_) => {},
                }
            }
        },
        _ => {},
    }
}

/// What a run of evaluations returns begins with what it was given.
pub proof fn lemma_each_extends<A: Doubles>(
    l: Seq<Value>,
    i: nat,
    acc: Seq<Value>,
    s: Store,
    f: nat,
    depth: nat,
    numeric: Option<Builtin>,
)
    requires
        eval_each::<A>(l, i, acc, s, f, depth, numeric).result is Ok,
    ensures
        ({
            let vs = eval_each::<A>(l, i, acc, s, f, depth, numeric).result->Ok_0;
            &&& vs.len() >= acc.len()
            &&& forall|j: int| 0 <= j < acc.len() ==> vs[j] == acc[j]
        }),
    decreases l.len() - i,
{
    if i < l.len() {
        let o = eval::<A>(l[i as int], s, f, depth);
        let v = o.result->Ok_0;
        lemma_each_extends::<A>(l, i + 1, acc.push(v), o.store, f, depth, numeric);
    }
}

/// Where the operands from `i` on evaluate without failure, a numeric form
/// gets the same values and store if all of them are numbers, and fails with
/// a type mismatch if one is not.
pub proof fn lemma_each_typed<A: Doubles>(
    op: Builtin,
    l: Seq<Value>,
    i: nat,
    acc: Seq<Value>,
    s: Store,
    f: nat,
    depth: nat,
)
    requires
        eval_each::<A>(l, i, acc, s, f, depth, None).result is Ok,
    ensures
        ({
            let plain = eval_each::<A>(l, i, acc, s, f, depth, None);
            let typed = eval_each::<A>(l, i, acc, s, f, depth, Some(op));
            let vs = plain.result->Ok_0;
            if forall|j: int| acc.len() <= j < vs.len() ==> (#[trigger] vs[j]) is Number {
                typed == plain
            } else {
                typed.result == Err::<Seq<Value>, Failure>(Failure::TypeMismatch(op))
            }
        }),
    decreases l.len() - i,
{
    if i < l.len() {
        let o = eval::<A>(l[i as int], s, f, depth);
        let v = o.result->Ok_0;
        let vs = eval_each::<A>(l, i, acc, s, f, depth, None).result->Ok_0;
        lemma_each_extends::<A>(l, i + 1, acc.push(v), o.store, f, depth, None);
        assert(vs[acc.len() as int] == acc.push(v)[acc.len() as int]);
        if v is Number {
            lemma_each_typed::<A>(op, l, i + 1, acc.push(v), o.store, f, depth);
        }
    }
}

/// `*`, `-` and `=` fail with a type mismatch that names the operation
/// whenever their operands evaluate without failure and one of the values is
/// no number.
pub proof fn law_numeric_type_error<A: Doubles>(
    op: Builtin,
    l: Seq<Value>,
    s: Store,
    f: nat,
    depth: nat,
)
    requires
        op is Times || op is Sub || op is Eq,
        eval_each::<A>(l, 1, Seq::empty(), s, f, depth, None).result is Ok,
        !all_numbers(eval_each::<A>(l, 1, Seq::empty(), s, f, depth, None).result->Ok_0),
    ensures
        apply_builtin::<A>(op, l, s, f, depth).result == Err::<Value, Failure>(
            Failure::TypeMismatch(op),
        ),
{
    lemma_each_typed::<A>(op, l, 1, Seq::empty(), s, f, depth);
}

/// `*`, `-` and `=` give the fold of their operands' values whenever the
/// operands evaluate without failure to numbers.
pub proof fn law_numeric_fold<A: Doubles>(op: Builtin, l: Seq<Value>, s: Store, f: nat, depth: nat)
    requires
        op is Times || op is Sub || op is Eq,
        eval_each::<A>(l, 1, Seq::empty(), s, f, depth, None).result is Ok,
        all_numbers(eval_each::<A>(l, 1, Seq::empty(), s, f, depth, None).result->Ok_0),
    ensures
        ({
            let r = eval_each::<A>(l, 1, Seq::empty(), s, f, depth, None);
            apply_builtin::<A>(op, l, s, f, depth) == done(
                fold_numbers::<A>(op, numbers(r.result->Ok_0)),
                r.store,
            )
        }),
{
    lemma_each_typed::<A>(op, l, 1, Seq::empty(), s, f, depth);
}

/// `quote` gives its operand back as it stands and leaves the store alone,
/// whatever the operand would do if it were evaluated.
pub proof fn law_quote_is_literal<A: Doubles>(
    head: Seq<char>,
    x: Value,
    s: Store,
    f: nat,
    depth: nat,
)
    requires
        depth > 0,
        lookup(s, f, head) == Some(Value::Builtin(Builtin::Quote)),
    ensures
        eval::<A>(Value::List(seq![Value::Symbol(head), x]), s, f, depth) == done(x, s),
{
}

/// After a successful `define`, the symbol resolves in the same frame to the
/// value that was defined.
pub proof fn law_define_then_reference<A: Doubles>(
    head: Seq<char>,
    name: Seq<char>,
    x: Value,
    s: Store,
    f: nat,
    depth: nat,
    later: nat,
)
    requires
        depth > 0,
        later > 0,
        f < s.len(),
        !quoted(name),
        lookup(s, f, head) == Some(Value::Builtin(Builtin::Define)),
        eval::<A>(
            Value::List(seq![Value::Symbol(head), Value::Symbol(name), x]),
            s,
            f,
            depth,
        ).result is Ok,
    ensures
        ({
            let defined = eval::<A>(x, s, f, (depth - 1) as nat);
            let after = eval::<A>(
                Value::List(seq![Value::Symbol(head), Value::Symbol(name), x]),
                s,
                f,
                depth,
            ).store;
            &&& defined.result is Ok
            &&& after == bind(defined.store, f, name, defined.result->Ok_0)
            &&& eval::<A>(Value::Symbol(name), after, f, later) == done(
                defined.result->Ok_0,
                after,
            )
        }),
{
    let l = seq![Value::Symbol(head), Value::Symbol(name), x];
    let inner = (depth - 1) as nat;
    lemma_eval_grows::<A>(x, s, f, inner);
    assert(eval::<A>(Value::List(l), s, f, depth) == apply::<A>(
        Value::Builtin(Builtin::Define),
        l,
        s,
        f,
        inner,
    ));
    assert(apply_builtin::<A>(Builtin::Define, l, s, f, inner) == define_form::<A>(l, s, f, inner));
}

/// A binding made in a frame is what a fresh frame that defers to it sees,
/// until that frame binds the name itself.
pub proof fn law_binding_seen_from_nested_scope(s: Store, f: nat, name: Seq<char>, v: Value)
    requires
        f < s.len(),
    ensures
        lookup(with_child(bind(s, f, name, v), f), s.len(), name) == Some(v),
{
    let bound = bind(s, f, name, v);
    lemma_lookup_agrees(with_child(bound, f), bound, f, name);
}

/// A binding made in a frame changes nothing that an earlier frame sees; its
/// outer frame in particular keeps its own binding of the name.
pub proof fn law_bind_leaves_outer_scopes(
    s: Store,
    f: nat,
    name: Seq<char>,
    v: Value,
    p: nat,
    any: Seq<char>,
)
    requires
        p < f < s.len(),
    ensures
        lookup(bind(s, f, name, v), p, any) == lookup(s, p, any),
{
    lemma_lookup_agrees(bind(s, f, name, v), s, p, any);
}

/// A free variable of a procedure resolves in the frame that the procedure
/// captured, in the store that the operands left: the caller's frame `f`
/// has no part in it.
pub proof fn law_free_variable_is_lexical<A: Doubles>(
    x: Seq<char>,
    params: Seq<Seq<char>>,
    capture: nat,
    l: Seq<Value>,
    s: Store,
    f: nat,
    depth: nat,
)
    requires
        depth > 0,
        f < s.len(),
        capture < s.len(),
        !quoted(x),
        !params.contains(x),
        eval_each::<A>(l, 1, Seq::empty(), s, f, depth, None).result is Ok,
    ensures
        ({
            let r = eval_each::<A>(l, 1, Seq::empty(), s, f, depth, None);
            call::<A>(Value::Symbol(x), params, capture, l, s, f, depth).result == match lookup(
                r.store,
                capture,
                x,
            ) {
                Some(v) => Ok::<Value, Failure>(v),
                None => Err::<Value, Failure>(Failure::UndefinedSymbol(x)),
            }
        }),
{
    let r = eval_each::<A>(l, 1, Seq::empty(), s, f, depth, None);
    lemma_each_grows::<A>(l, 1, Seq::empty(), s, f, depth, None);
    let args = r.result->Ok_0;
    let g = r.store.len();
    let child = with_child(r.store, capture);
    let n = bound_count(params, args);
    lemma_bind_params(child, g, params, args, n);
    let framed = bind_params(child, g, params, args, n);
    assert(!framed[g as int].vars.contains_key(x));
    assert(framed[g as int].outer == Some(capture));
    assert forall|i: int| 0 <= i <= capture implies framed[i] == r.store[i] by {
        assert(child[i] == r.store[i]);
    }
    lemma_lookup_agrees(framed, r.store, capture, x);
}

/// A call depends on the caller's frame through the operands alone: from two
/// frames in which the operands evaluate alike, it gives the same outcome.
pub proof fn law_call_ignores_caller_frame<A: Doubles>(
    body: Value,
    params: Seq<Seq<char>>,
    capture: nat,
    l: Seq<Value>,
    s: Store,
    f1: nat,
    f2: nat,
    depth: nat,
)
    requires
        eval_each::<A>(l, 1, Seq::empty(), s, f1, depth, None) == eval_each::<A>(
            l,
            1,
            Seq::empty(),
            s,
            f2,
            depth,
            None,
        ),
    ensures
        call::<A>(body, params, capture, l, s, f1, depth) == call::<A>(
            body,
            params,
            capture,
            l,
            s,
            f2,
            depth,
        ),
{
}

/// `if` evaluates the test and then the branch that the test selects, in the
/// store that the test left. The other branch has no part in the outcome.
pub proof fn law_if_skips_untaken_branch<A: Doubles>(
    head: Seq<char>,
    test: Value,
    consequent: Value,
    alternative: Value,
    s: Store,
    f: nat,
    depth: nat,
)
    requires
        depth > 0,
        lookup(s, f, head) == Some(Value::Builtin(Builtin::If)),
        eval::<A>(test, s, f, (depth - 1) as nat).result is Ok,
    ensures
        ({
            let t = eval::<A>(test, s, f, (depth - 1) as nat);
            let whole = eval::<A>(
                Value::List(seq![Value::Symbol(head), test, consequent, alternative]),
                s,
                f,
                depth,
            );
            &&& truthy(t.result->Ok_0) ==> whole == eval::<A>(
                consequent,
                t.store,
                f,
                (depth - 1) as nat,
            )
            &&& !truthy(t.result->Ok_0) ==> whole == eval::<A>(
                alternative,
                t.store,
                f,
                (depth - 1) as nat,
            )
        }),
{
    let l = seq![Value::Symbol(head), test, consequent, alternative];
    let inner = (depth - 1) as nat;
    assert(eval::<A>(Value::List(l), s, f, depth) == apply::<A>(
        Value::Builtin(Builtin::If),
        l,
        s,
        f,
        inner,
    ));
    assert(apply_builtin::<A>(Builtin::If, l, s, f, inner) == if_form::<A>(l, s, f, inner));
}

/// A list whose head resolves to a number, a symbol or a list cannot be
/// applied, and the failure names the value.
pub proof fn law_only_forms_and_procedures_apply<A: Doubles>(
    name: Seq<char>,
    l: Seq<Value>,
    h: Value,
    s: Store,
    f: nat,
    depth: nat,
)
    requires
        depth > 0,
        l.len() > 0,
        l[0] == Value::Symbol(name),
        lookup(s, f, name) == Some(h),
        h is Number || h is Symbol || h is List,
    ensures
        eval::<A>(Value::List(l), s, f, depth) == failed(Failure::NotCallable(h), s),
{
}

} // verus!
