//! The evaluator: symbols resolve along the chain of frames, a list applies
//! the form or procedure that its head names.
use vstd::prelude::*;
use vstd::string::StrSliceExecFns;
use crate::env::{global_env, global_store, Env, Store};
use crate::semantics::{
    all_numbers, all_symbols, apply, begin_form, bind_params, bound_count, define_form,
    difference_of, eval, eval_each, fold_numbers, if_form, lambda_form, numbers, numeric_form,
    product_of, quote_form, quoted, same_number, symbol_names, Doubles, Outcome, Outcomes,
    INFINITY_BITS, MAGNITUDE_MASK, ONE_BITS, ZERO_BITS,
};
use crate::types::{
    clone_expr, lemma_views_of, names_view, views_of, Atom, Builtin, EvalError, Expr, Failure,
    List, Procedure, Shape, Value,
};

verus! {

/// How deep an `Evaluator` lets evaluations nest unless told otherwise.
pub const DEFAULT_DEPTH: usize = 256;

/// The result `r` and the store `after` are what the semantics gives.
pub open spec fn agrees(r: Result<Expr, EvalError>, after: Store, o: Outcome) -> bool {
    &&& o.store == after
    &&& match r {
        Ok(v) => o.result == Ok::<Value, Failure>(v@),
        Err(e) => o.result == Err::<Value, Failure>(e@),
    }
}

/// The results `r` and the store `after` are what the semantics gives.
pub open spec fn agree(r: Result<List, EvalError>, after: Store, o: Outcomes) -> bool {
    &&& o.store == after
    &&& match r {
        Ok(vs) => o.result == Ok::<Seq<Value>, Failure>(views_of(vs)),
        Err(e) => o.result == Err::<Seq<Value>, Failure>(e@),
    }
}

/// Whether a symbol begins with the quoting sigil.
pub fn is_quoted(name: &String) -> (r: bool)
    ensures
        r == quoted(name@),
{
    let t = name.as_str();
    t.unicode_len() > 0 && t.get_char(0) == '\''
}

/// Equality of two doubles given by their bit patterns.
pub fn numbers_equal(a: u64, b: u64) -> (r: bool)
    ensures
        r == same_number(a, b),
{
    (a & MAGNITUDE_MASK) <= INFINITY_BITS && (b & MAGNITUDE_MASK) <= INFINITY_BITS && (a == b || ((a
        & MAGNITUDE_MASK) == 0 && (b & MAGNITUDE_MASK) == 0))
}

/// Evaluates `e` in frame `frame` of `env`, nesting at most `depth` deep.
pub fn eval_env<A: Doubles>(e: Expr, env: &mut Env, frame: usize, depth: usize) -> (r: Result<
    Expr,
    EvalError,
>)
    requires
        old(env).wf(),
        frame < old(env)@.len(),
    ensures
        final(env).wf(),
        final(env)@.len() >= old(env)@.len(),
        agrees(r, final(env)@, eval::<A>(e@, old(env)@, frame as nat, depth as nat)),
    decreases depth, 0nat, 0nat,
{
    if depth == 0 {
        return Err(EvalError::DepthExceeded);
    }
    match e {
        Expr::List(list) => {
            proof {
                lemma_views_of(list);
            }
            if list.len() == 0 {
                return Err(EvalError::EmptyApplication);
            }
            let name: String = match &list[0] {
                Expr::Atom(Atom::Symbol(s)) => s.clone(),
                _ => {
                    return Err(EvalError::InvalidHead);
                },
            };
            match env.get(frame, &name) {
                Some(h) => eval_call::<A>(h, list, env, frame, depth - 1),
                None => Err(EvalError::UndefinedSymbol(name)),
            }
        },
        Expr::Atom(Atom::Symbol(s)) => {
            if is_quoted(&s) {
                Ok(Expr::Atom(Atom::Symbol(s)))
            } else {
                match env.get(frame, &s) {
                    Some(v) => Ok(v),
                    None => Err(EvalError::UndefinedSymbol(s)),
                }
            }
        },
        other => Ok(other),
    }
}

/// Applies `h`, the value that the head of `list` resolved to.
pub fn eval_call<A: Doubles>(
    h: Expr,
    list: List,
    env: &mut Env,
    frame: usize,
    depth: usize,
) -> (r: Result<Expr, EvalError>)
    requires
        old(env).wf(),
        frame < old(env)@.len(),
    ensures
        final(env).wf(),
        final(env)@.len() >= old(env)@.len(),
        agrees(
            r,
            final(env)@,
            apply::<A>(h@, views_of(list), old(env)@, frame as nat, depth as nat),
        ),
    decreases depth, 4nat, 0nat,
{
    match h {
        Expr::Builtin(b) => match b {
            Builtin::Begin => eval_begin::<A>(list, env, frame, depth),
            Builtin::Define => eval_define::<A>(list, env, frame, depth),
            Builtin::If => eval_if::<A>(list, env, frame, depth),
            Builtin::Lambda => eval_lambda(list, &*env, frame),
            Builtin::Quote => eval_quote(list, &*env),
            Builtin::Times => eval_times::<A>(list, env, frame, depth),
            Builtin::Sub => eval_sub::<A>(list, env, frame, depth),
            Builtin::Eq => eval_eq::<A>(list, env, frame, depth),
        },
        Expr::Procedure(p) => {
            if p.capture >= env.len() {
                return Err(EvalError::NotCallable(Expr::Procedure(p)));
            }
            let args = match eval_operands::<A>(&list, env, frame, depth, None) {
                Ok(args) => args,
                Err(e) => {
                    return Err(e);
                },
            };
            let g = env.child(p.capture);
            let ghost s2 = env@;
            let mut i: usize = 0;
            while i < p.params.len() && i < args.len()
                invariant
                    env.wf(),
                    g < env@.len(),
                    env@.len() == s2.len(),
                    i <= p.params.len(),
                    i <= args.len(),
                    env@ == bind_params(
                        s2,
                        g as nat,
                        names_view(p.params@),
                        views_of(args),
                        i as nat,
                    ),
                decreases p.params.len() - i,
            {
                env.insert(g, p.params[i].clone(), clone_expr(&args[i]));
                i += 1;
            }
            assert(i == bound_count(names_view(p.params@), views_of(args)));
            eval_env::<A>(*p.body, env, g, depth)
        },
        other => Err(EvalError::NotCallable(other)),
    }
}

/// Evaluates the operands of `l`, all items after the head, from left to
/// right. With `numeric` set, each must give a number.
pub fn eval_operands<A: Doubles>(
    l: &List,
    env: &mut Env,
    frame: usize,
    depth: usize,
    numeric: Option<Builtin>,
) -> (r: Result<List, EvalError>)
    requires
        old(env).wf(),
        frame < old(env)@.len(),
    ensures
        final(env).wf(),
        final(env)@.len() >= old(env)@.len(),
        agree(
            r,
            final(env)@,
            eval_each::<A>(
                views_of(*l),
                1,
                Seq::empty(),
                old(env)@,
                frame as nat,
                depth as nat,
                numeric,
            ),
        ),
        numeric is Some && r is Ok ==> all_numbers(views_of(r->Ok_0)),
    decreases depth, 1nat, 0nat,
{
    let ghost s0 = env@;
    let ghost whole = eval_each::<A>(
        views_of(*l),
        1,
        Seq::empty(),
        s0,
        frame as nat,
        depth as nat,
        numeric,
    );
    let mut out: Vec<Expr> = Vec::new();
    let mut i: usize = 1;
    assert(views_of(out) =~= Seq::<Value>::empty());
    proof {
        lemma_views_of(*l);
    }
    while i < l.len()
        invariant
            s0 == old(env)@,
            views_of(*l).len() == l.len(),
            forall|j: int| 0 <= j < l.len() ==> #[trigger] views_of(*l)[j] == l[j]@,
            whole == eval_each::<A>(
                views_of(*l),
                1,
                Seq::empty(),
                s0,
                frame as nat,
                depth as nat,
                numeric,
            ),
            env.wf(),
            frame < env@.len(),
            env@.len() >= s0.len(),
            1 <= i,
            whole == eval_each::<A>(
                views_of(*l),
                i as nat,
                views_of(out),
                env@,
                frame as nat,
                depth as nat,
                numeric,
            ),
            numeric is Some ==> all_numbers(views_of(out)),
        decreases l.len() - i,
    {
        let ghost before = views_of(out);
        match eval_env::<A>(clone_expr(&l[i]), env, frame, depth) {
            Err(e) => {
                return Err(e);
            },
            Ok(v) => {
                match numeric {
                    Some(op) => {
                        if !is_number(&v) {
                            return Err(EvalError::TypeMismatch(op));
                        }
                    },
                    None => {},
                }
                out.push(v);
                assert(views_of(out) =~= before.push(v@));
                i += 1;
            },
        }
    }
    Ok(out)
}

/// Whether an expression is a number atom.
pub fn is_number(e: &Expr) -> (r: bool)
    ensures
        r == (e@ is Number),
{
    match e {
        Expr::Atom(Atom::Number(_)) => true,
        _ => false,
    }
}

/// The number that a number atom holds.
pub fn number_of(e: &Expr) -> (n: u64)
    requires
        e@ is Number,
    ensures
        e@ == Value::Number(n),
{
    match e {
        Expr::Atom(Atom::Number(n)) => *n,
        _ => vstd::pervasive::unreached(),
    }
}

/// Folds the numbers of `vs` as the operation `op` asks.
pub fn fold_operands<A: Doubles>(op: Builtin, vs: &List) -> (r: Expr)
    requires
        all_numbers(views_of(*vs)),
    ensures
        r@ == fold_numbers::<A>(op, numbers(views_of(*vs))),
{
    let ghost ns = numbers(views_of(*vs));
    proof {
        lemma_views_of(*vs);
    }
    match op {
        Builtin::Times | Builtin::Sub => {
            if vs.len() == 0 {
                return match op {
                    Builtin::Times => Expr::Atom(Atom::Number(ONE_BITS)),
                    _ => Expr::Atom(Atom::Number(ZERO_BITS)),
                };
            }
            assert(views_of(*vs)[0] == vs[0]@);
            let mut acc: u64 = number_of(&vs[0]);
            let mut i: usize = 1;
            assert(ns.take(1).len() == 1 && ns.take(1)[0] == ns[0]);
            while i < vs.len()
                invariant
                    1 <= i <= vs.len(),
                    ns == numbers(views_of(*vs)),
                    views_of(*vs).len() == vs.len(),
                    forall|j: int| 0 <= j < vs.len() ==> #[trigger] views_of(*vs)[j] == vs[j]@,
                    all_numbers(views_of(*vs)),
                    op is Times || op is Sub,
                    op is Times ==> acc == product_of::<A>(ns.take(i as int)),
                    op is Sub ==> acc == difference_of::<A>(ns.take(i as int)),
                decreases vs.len() - i,
            {
                assert(views_of(*vs)[i as int] == vs[i as int]@);
                let n = number_of(&vs[i]);
                assert(ns.take(i + 1).drop_last() =~= ns.take(i as int));
                assert(ns.take(i + 1).last() == n);
                acc =
                match op {
                    Builtin::Times => A::mul(acc, n),
                    _ => A::sub(acc, n),
                };
                i += 1;
            }
            assert(ns.take(vs.len() as int) =~= ns);
            Expr::Atom(Atom::Number(acc))
        },
        _ => {
            if vs.len() == 0 {
                return Expr::tru();
            }
            assert(views_of(*vs)[0] == vs[0]@);
            let first: u64 = number_of(&vs[0]);
            let mut i: usize = 1;
            while i < vs.len()
                invariant
                    1 <= i <= vs.len(),
                    ns == numbers(views_of(*vs)),
                    views_of(*vs).len() == vs.len(),
                    forall|j: int| 0 <= j < vs.len() ==> #[trigger] views_of(*vs)[j] == vs[j]@,
                    all_numbers(views_of(*vs)),
                    first == ns[0],
                    !(op is Times) && !(op is Sub),
                    forall|j: int| 1 <= j < i ==> same_number(#[trigger] ns[j], ns[0]),
                decreases vs.len() - i,
            {
                assert(views_of(*vs)[i as int] == vs[i as int]@);
                if !numbers_equal(number_of(&vs[i]), first) {
                    assert(!same_number(ns[i as int], ns[0]));
                    return Expr::fals();
                }
                i += 1;
            }
            Expr::tru()
        },
    }
}

/// `begin`: evaluates every operand in turn and returns the last value, or
/// 0 where there is no operand.
pub fn eval_begin<A: Doubles>(l: List, env: &mut Env, frame: usize, depth: usize) -> (r: Result<
    Expr,
    EvalError,
>)
    requires
        old(env).wf(),
        frame < old(env)@.len(),
    ensures
        final(env).wf(),
        final(env)@.len() >= old(env)@.len(),
        agrees(
            r,
            final(env)@,
            begin_form::<A>(views_of(l), old(env)@, frame as nat, depth as nat),
        ),
    decreases depth, 2nat, 0nat,
{
    match eval_operands::<A>(&l, env, frame, depth, None) {
        Err(e) => Err(e),
        Ok(vs) => {
            let mut vs = vs;
            match vs.pop() {
                Some(v) => Ok(v),
                None => Ok(Expr::Atom(Atom::Number(ZERO_BITS))),
            }
        },
    }
}

/// `define`: binds the symbol that is the first operand, in `frame` alone,
/// to the value of the second.
pub fn eval_define<A: Doubles>(l: List, env: &mut Env, frame: usize, depth: usize) -> (r:
    Result<Expr, EvalError>)
    requires
        old(env).wf(),
        frame < old(env)@.len(),
    ensures
        final(env).wf(),
        final(env)@.len() >= old(env)@.len(),
        agrees(
            r,
            final(env)@,
            define_form::<A>(views_of(l), old(env)@, frame as nat, depth as nat),
        ),
    decreases depth, 2nat, 0nat,
{
    if l.len() < 2 {
        return Err(EvalError::FormArityOrShape(Builtin::Define, Shape::MissingSymbol));
    }
    let name: String = match &l[1] {
        Expr::Atom(Atom::Symbol(s)) => s.clone(),
        _ => {
            return Err(EvalError::FormArityOrShape(Builtin::Define, Shape::NotASymbol));
        },
    };
    if l.len() < 3 {
        return Err(EvalError::FormArityOrShape(Builtin::Define, Shape::MissingValue));
    }
    match eval_env::<A>(clone_expr(&l[2]), env, frame, depth) {
        Err(e) => Err(e),
        Ok(v) => {
            env.insert(frame, name, v);
            Ok(Expr::Atom(Atom::Symbol(String::new())))
        },
    }
}

/// `if`: evaluates the test, then the consequent where the test's value is
/// truthy and the alternative where it is not; never the other branch.
pub fn eval_if<A: Doubles>(l: List, env: &mut Env, frame: usize, depth: usize) -> (r: Result<
    Expr,
    EvalError,
>)
    requires
        old(env).wf(),
        frame < old(env)@.len(),
    ensures
        final(env).wf(),
        final(env)@.len() >= old(env)@.len(),
        agrees(r, final(env)@, if_form::<A>(views_of(l), old(env)@, frame as nat, depth as nat)),
    decreases depth, 2nat, 0nat,
{
    if l.len() < 2 {
        return Err(EvalError::FormArityOrShape(Builtin::If, Shape::MissingTest));
    }
    let test = match eval_env::<A>(clone_expr(&l[1]), env, frame, depth) {
        Err(e) => {
            return Err(e);
        },
        Ok(t) => t,
    };
    if l.len() < 3 {
        return Err(EvalError::FormArityOrShape(Builtin::If, Shape::MissingConsequent));
    }
    if l.len() < 4 {
        return Err(EvalError::FormArityOrShape(Builtin::If, Shape::MissingAlternative));
    }
    if test.truthy() {
        eval_env::<A>(clone_expr(&l[2]), env, frame, depth)
    } else {
        eval_env::<A>(clone_expr(&l[3]), env, frame, depth)
    }
}

/// `=`: evaluates the operands, which must be numbers, and returns the
/// marker for true where all equal the first, else the marker for false.
pub fn eval_eq<A: Doubles>(l: List, env: &mut Env, frame: usize, depth: usize) -> (r: Result<
    Expr,
    EvalError,
>)
    requires
        old(env).wf(),
        frame < old(env)@.len(),
    ensures
        final(env).wf(),
        final(env)@.len() >= old(env)@.len(),
        agrees(
            r,
            final(env)@,
            numeric_form::<A>(Builtin::Eq, views_of(l), old(env)@, frame as nat, depth as nat),
        ),
    decreases depth, 2nat, 0nat,
{
    match eval_operands::<A>(&l, env, frame, depth, Some(Builtin::Eq)) {
        Err(e) => Err(e),
        Ok(vs) => Ok(fold_operands::<A>(Builtin::Eq, &vs)),
    }
}

/// `*`: evaluates the operands, which must be numbers, and multiplies them
/// from the left; 1 where there is none.
pub fn eval_times<A: Doubles>(l: List, env: &mut Env, frame: usize, depth: usize) -> (r: Result<
    Expr,
    EvalError,
>)
    requires
        old(env).wf(),
        frame < old(env)@.len(),
    ensures
        final(env).wf(),
        final(env)@.len() >= old(env)@.len(),
        agrees(
            r,
            final(env)@,
            numeric_form::<A>(Builtin::Times, views_of(l), old(env)@, frame as nat, depth as nat),
        ),
    decreases depth, 2nat, 0nat,
{
    match eval_operands::<A>(&l, env, frame, depth, Some(Builtin::Times)) {
        Err(e) => Err(e),
        Ok(vs) => Ok(fold_operands::<A>(Builtin::Times, &vs)),
    }
}

/// `-`: evaluates the operands, which must be numbers, and takes each of the
/// others from the first in turn; 0 where there is none.
pub fn eval_sub<A: Doubles>(l: List, env: &mut Env, frame: usize, depth: usize) -> (r: Result<
    Expr,
    EvalError,
>)
    requires
        old(env).wf(),
        frame < old(env)@.len(),
    ensures
        final(env).wf(),
        final(env)@.len() >= old(env)@.len(),
        agrees(
            r,
            final(env)@,
            numeric_form::<A>(Builtin::Sub, views_of(l), old(env)@, frame as nat, depth as nat),
        ),
    decreases depth, 2nat, 0nat,
{
    match eval_operands::<A>(&l, env, frame, depth, Some(Builtin::Sub)) {
        Err(e) => Err(e),
        Ok(vs) => Ok(fold_operands::<A>(Builtin::Sub, &vs)),
    }
}

/// `lambda`: makes a procedure of the parameter names and the body, which
/// captures `frame`.
pub fn eval_lambda(l: List, env: &Env, frame: usize) -> (r: Result<Expr, EvalError>)
    ensures
        agrees(r, env@, lambda_form(views_of(l), env@, frame as nat)),
{
    proof {
        lemma_views_of(l);
    }
    if l.len() < 2 {
        return Err(EvalError::FormArityOrShape(Builtin::Lambda, Shape::MissingParams));
    }
    let ps: &List = match &l[1] {
        Expr::List(ps) => ps,
        _ => {
            return Err(EvalError::FormArityOrShape(Builtin::Lambda, Shape::ParamsNotAList));
        },
    };
    proof {
        lemma_views_of(*ps);
    }
    let mut names: Vec<String> = Vec::new();
    let mut i: usize = 0;
    while i < ps.len()
        invariant
            i <= ps.len(),
            names.len() == i,
            l.len() >= 2,
            views_of(l)[1] == Value::List(views_of(*ps)),
            views_of(*ps).len() == ps.len(),
            forall|j: int| 0 <= j < ps.len() ==> #[trigger] views_of(*ps)[j] == ps[j]@,
            forall|j: int| 0 <= j < i ==> (#[trigger] views_of(*ps)[j]) is Symbol,
            forall|j: int| 0 <= j < i ==> names[j]@ == views_of(*ps)[j]->Symbol_0,
        decreases ps.len() - i,
    {
        match &ps[i] {
            Expr::Atom(Atom::Symbol(s)) => {
                names.push(s.clone());
            },
            _ => {
                assert(!(views_of(*ps)[i as int] is Symbol));
                return Err(EvalError::FormArityOrShape(Builtin::Lambda, Shape::ParamNotASymbol));
            },
        }
        i += 1;
    }
    assert(all_symbols(views_of(*ps)));
    assert(names_view(names@) =~= symbol_names(views_of(*ps)));
    if l.len() < 3 {
        return Err(EvalError::FormArityOrShape(Builtin::Lambda, Shape::MissingBody));
    }
    Ok(Expr::Procedure(Procedure::new(clone_expr(&l[2]), names, frame)))
}

/// `quote`: returns the operand as it stands, unevaluated.
pub fn eval_quote(l: List, env: &Env) -> (r: Result<Expr, EvalError>)
    ensures
        agrees(r, env@, quote_form(views_of(l), env@)),
{
    if l.len() < 2 {
        return Err(EvalError::FormArityOrShape(Builtin::Quote, Shape::MissingExpression));
    }
    Ok(clone_expr(&l[1]))
}

/// An interpreter session: the arena of frames, whose frame 0 is global, and
/// the depth to which evaluations may nest.
#[derive(Debug)]
pub struct Evaluator {
    env: Env,
    depth: usize,
}

impl Evaluator {
    /// The frames as they stand.
    pub closed spec fn store(&self) -> Store {
        self.env@
    }

    /// The nesting depth allowed to each evaluation.
    pub closed spec fn depth(&self) -> nat {
        self.depth as nat
    }

    /// The session's arena is well formed.
    pub closed spec fn wf(&self) -> bool {
        self.env.wf()
    }

    /// A session with the startup bindings and the default depth.
    pub fn new() -> (r: Evaluator)
        ensures
            r.wf(),
            r.store() == global_store(),
            r.depth() == DEFAULT_DEPTH,
    {
        Evaluator { env: global_env(), depth: DEFAULT_DEPTH }
    }

    /// A session with the startup bindings that lets evaluations nest
    /// `depth` deep.
    pub fn with_depth(depth: usize) -> (r: Evaluator)
        ensures
            r.wf(),
            r.store() == global_store(),
            r.depth() == depth,
    {
        Evaluator { env: global_env(), depth }
    }

    /// Evaluates `e` in the global frame. What earlier evaluations defined
    /// stays defined, also where this one fails.
    pub fn eval<A: Doubles>(&mut self, e: Expr) -> (r: Result<Expr, EvalError>)
        requires
            old(self).wf(),
        ensures
            final(self).wf(),
            final(self).depth() == old(self).depth(),
            agrees(r, final(self).store(), eval::<A>(e@, old(self).store(), 0, old(self).depth())),
    {
        proof {
            self.env.lemma_wf();
        }
        eval_env::<A>(e, &mut self.env, 0, self.depth)
    }
}

} // verus!
