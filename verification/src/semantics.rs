//! What evaluation means: a big-step semantics over views, bounded by a
//! nesting depth.
use vstd::prelude::*;
use crate::env::{bind, lookup, with_child, Store};
use crate::types::{Builtin, Failure, Shape, Value};

verus! {

/// The bit pattern of the double 1.
pub const ONE_BITS: u64 = 0x3FF0000000000000;

/// The bit pattern of the double 0.
pub const ZERO_BITS: u64 = 0;

/// All bits of a double but its sign.
pub const MAGNITUDE_MASK: u64 = 0x7FFFFFFFFFFFFFFF;

/// The magnitude bits of the infinities; a larger magnitude is no number.
pub const INFINITY_BITS: u64 = 0x7FF0000000000000;

/// The characters of a word of text.
pub type Letters = Seq<char>;

/// What the interpreter needs of double-precision numbers, each given and
/// returned as its bit pattern: their notation, their product and their
/// difference. The program that uses the interpreter supplies them, and the
/// interpreter is proved for every such supply: all that it takes for
/// granted is that each operation is a function of its arguments alone.
pub trait Doubles {
    /// The pattern of the double that `word` denotes, where it denotes one.
    spec fn numeral(word: Letters) -> Option<u64>;

    /// The pattern of the product of the doubles with patterns `a` and `b`.
    spec fn product(a: u64, b: u64) -> u64;

    /// The pattern of the double with pattern `a` less the one with `b`.
    spec fn difference(a: u64, b: u64) -> u64;

    fn number(word: &str) -> (r: Option<u64>)
        ensures
            r == Self::numeral(word@),
    ;

    fn mul(a: u64, b: u64) -> (r: u64)
        ensures
            r == Self::product(a, b),
    ;

    fn sub(a: u64, b: u64) -> (r: u64)
        ensures
            r == Self::difference(a, b),
    ;
}

/// The result of one evaluation and the store it leaves.
pub struct Outcome {
    pub result: Result<Value, Failure>,
    pub store: Store,
}

/// The results of evaluating several expressions in turn.
pub struct Outcomes {
    pub result: Result<Seq<Value>, Failure>,
    pub store: Store,
}

/// The outcome that is the value `v`, with the store `s`.
pub open spec fn done(v: Value, s: Store) -> Outcome {
    Outcome { result: Ok(v), store: s }
}

/// The outcome that is the failure `e`, with the store `s`.
pub open spec fn failed(e: Failure, s: Store) -> Outcome {
    Outcome { result: Err(e), store: s }
}

/// The marker for true.
pub open spec fn true_marker() -> Value {
    Value::Symbol(seq!['#', 't'])
}

/// The marker for false.
pub open spec fn false_marker() -> Value {
    Value::Symbol(seq!['#', 'f'])
}

/// Everything but the marker for false counts as true.
pub open spec fn truthy(v: Value) -> bool {
    v != false_marker()
}

/// A symbol that begins with the quoting sigil stands for itself.
pub open spec fn quoted(name: Seq<char>) -> bool {
    name.len() > 0 && name[0] == '\''
}

/// Whether a bit pattern is a double that is no number.
pub open spec fn not_a_number(a: u64) -> bool {
    (a & MAGNITUDE_MASK) > INFINITY_BITS
}

/// Equality of doubles, on their bit patterns: what is no number equals
/// nothing, the two zeros are equal, and otherwise the patterns decide.
pub open spec fn same_number(a: u64, b: u64) -> bool {
    !not_a_number(a) && !not_a_number(b) && (a == b || ((a & MAGNITUDE_MASK) == 0 && (b
        & MAGNITUDE_MASK) == 0))
}

/// Whether every item is a number atom.
pub open spec fn all_numbers(vs: Seq<Value>) -> bool {
    forall|j: int| 0 <= j < vs.len() ==> (#[trigger] vs[j]) is Number
}

/// The numbers that a sequence of number atoms holds.
pub open spec fn numbers(vs: Seq<Value>) -> Seq<u64> {
    Seq::new(vs.len(), |i: int| vs[i]->Number_0)
}

/// The numbers multiplied from the left; 1 where there is none.
pub open spec fn product_of<A: Doubles>(ns: Seq<u64>) -> u64
    decreases ns.len(),
{
    if ns.len() == 0 {
        ONE_BITS
    } else if ns.len() == 1 {
        ns[0]
    } else {
        A::product(product_of::<A>(ns.drop_last()), ns.last())
    }
}

/// The first number less each of the others in turn; 0 where there is none.
pub open spec fn difference_of<A: Doubles>(ns: Seq<u64>) -> u64
    decreases ns.len(),
{
    if ns.len() == 0 {
        ZERO_BITS
    } else if ns.len() == 1 {
        ns[0]
    } else {
        A::difference(difference_of::<A>(ns.drop_last()), ns.last())
    }
}

/// Every number after the first equals the first.
pub open spec fn all_same(ns: Seq<u64>) -> bool {
    forall|i: int| 1 <= i < ns.len() ==> same_number(#[trigger] ns[i], ns[0])
}

/// Whether every item is a bare symbol.
pub open spec fn all_symbols(ps: Seq<Value>) -> bool {
    forall|i: int| 0 <= i < ps.len() ==> (#[trigger] ps[i]) is Symbol
}

/// The names of a sequence of symbols.
pub open spec fn symbol_names(ps: Seq<Value>) -> Seq<Seq<char>> {
    Seq::new(ps.len(), |i: int| ps[i]->Symbol_0)
}

/// The store after the first `n` parameters are bound, in order, to the
/// first `n` arguments in frame `g`.
pub open spec fn bind_params(
    s: Store,
    g: nat,
    params: Seq<Seq<char>>,
    args: Seq<Value>,
    n: nat,
) -> Store
    decreases n,
{
    if n == 0 {
        s
    } else {
        bind(bind_params(s, g, params, args, (n - 1) as nat), g, params[n - 1], args[n - 1])
    }
}

/// How many parameters get an argument.
pub open spec fn bound_count(params: Seq<Seq<char>>, args: Seq<Value>) -> nat {
    if params.len() <= args.len() {
        params.len()
    } else {
        args.len()
    }
}

/// The evaluation of `e` in frame `f` of store `s`, with `depth` levels of
/// nesting allowed.
pub open spec fn eval<A: Doubles>(e: Value, s: Store, f: nat, depth: nat) -> Outcome
    decreases depth, 0nat, 0nat,
{
    if depth == 0 {
        failed(Failure::DepthExceeded, s)
    } else {
        match e {
            Value::List(l) => {
                if l.len() == 0 {
                    failed(Failure::EmptyApplication, s)
                } else {
                    match l[0] {
                        Value::Symbol(name) => match lookup(s, f, name) {
                            Some(h) => apply::<A>(h, l, s, f, (depth - 1) as nat),
                            None => failed(Failure::UndefinedSymbol(name), s),
                        },
                        _ => failed(Failure::InvalidHead, s),
                    }
                }
            },
            Value::Symbol(name) => {
                if quoted(name) {
                    done(e, s)
                } else {
                    match lookup(s, f, name) {
                        Some(v) => done(v, s),
                        None => failed(Failure::UndefinedSymbol(name), s),
                    }
                }
            },
            _ => done(e, s),
        }
    }
}

/// The items of `l` from index `i` on, evaluated from left to right, each in
/// the store that the one before left; the first failure ends it. With
/// `numeric` set, a result that is no number is a type mismatch of that
/// operation.
pub open spec fn eval_each<A: Doubles>(
    l: Seq<Value>,
    i: nat,
    acc: Seq<Value>,
    s: Store,
    f: nat,
    depth: nat,
    numeric: Option<Builtin>,
) -> Outcomes
    decreases depth, 1nat, l.len() - i,
{
    if i >= l.len() {
        Outcomes { result: Ok(acc), store: s }
    } else {
        let o = eval::<A>(l[i as int], s, f, depth);
        match o.result {
            Err(e) => Outcomes { result: Err(e), store: o.store },
            Ok(v) => {
                if numeric is Some && !(v is Number) {
                    Outcomes { result: Err(Failure::TypeMismatch(numeric->Some_0)), store: o.store }
                } else {
                    eval_each::<A>(l, i + 1, acc.push(v), o.store, f, depth, numeric)
                }
            },
        }
    }
}

/// `begin`: every operand in turn; the last value, or 0 without operands.
pub open spec fn begin_form<A: Doubles>(l: Seq<Value>, s: Store, f: nat, depth: nat) -> Outcome
    decreases depth, 2nat, 0nat,
{
    let r = eval_each::<A>(l, 1, Seq::empty(), s, f, depth, None);
    match r.result {
        Err(e) => failed(e, r.store),
        Ok(vs) => if vs.len() == 0 {
            done(Value::Number(ZERO_BITS), r.store)
        } else {
            done(vs.last(), r.store)
        },
    }
}

/// `define`: the value of the second operand, bound in frame `f` alone to the
/// symbol that is the first operand.
pub open spec fn define_form<A: Doubles>(l: Seq<Value>, s: Store, f: nat, depth: nat) -> Outcome
    decreases depth, 2nat, 0nat,
{
    if l.len() < 2 {
        failed(Failure::FormArityOrShape(Builtin::Define, Shape::MissingSymbol), s)
    } else {
        match l[1] {
            Value::Symbol(name) => {
                if l.len() < 3 {
                    failed(Failure::FormArityOrShape(Builtin::Define, Shape::MissingValue), s)
                } else {
                    let o = eval::<A>(l[2], s, f, depth);
                    match o.result {
                        Err(e) => o,
                        Ok(v) => done(Value::Symbol(Seq::empty()), bind(o.store, f, name, v)),
                    }
                }
            },
            _ => failed(Failure::FormArityOrShape(Builtin::Define, Shape::NotASymbol), s),
        }
    }
}

/// `if`: the test, then the one branch that its value selects.
pub open spec fn if_form<A: Doubles>(l: Seq<Value>, s: Store, f: nat, depth: nat) -> Outcome
    decreases depth, 2nat, 0nat,
{
    if l.len() < 2 {
        failed(Failure::FormArityOrShape(Builtin::If, Shape::MissingTest), s)
    } else {
        let o = eval::<A>(l[1], s, f, depth);
        match o.result {
            Err(e) => o,
            Ok(t) => {
                if l.len() < 3 {
                    failed(
                        Failure::FormArityOrShape(Builtin::If, Shape::MissingConsequent),
                        o.store,
                    )
                } else if l.len() < 4 {
                    failed(
                        Failure::FormArityOrShape(Builtin::If, Shape::MissingAlternative),
                        o.store,
                    )
                } else if truthy(t) {
                    eval::<A>(l[2], o.store, f, depth)
                } else {
                    eval::<A>(l[3], o.store, f, depth)
                }
            },
        }
    }
}

/// `lambda`: a procedure that captures frame `f`.
pub open spec fn lambda_form(l: Seq<Value>, s: Store, f: nat) -> Outcome {
    if l.len() < 2 {
        failed(Failure::FormArityOrShape(Builtin::Lambda, Shape::MissingParams), s)
    } else {
        match l[1] {
            Value::List(ps) => {
                if !all_symbols(ps) {
                    failed(Failure::FormArityOrShape(Builtin::Lambda, Shape::ParamNotASymbol), s)
                } else if l.len() < 3 {
                    failed(Failure::FormArityOrShape(Builtin::Lambda, Shape::MissingBody), s)
                } else {
                    done(
                        Value::Procedure {
                            body: Box::new(l[2]),
                            params: symbol_names(ps),
                            capture: f,
                        },
                        s,
                    )
                }
            },
            _ => failed(Failure::FormArityOrShape(Builtin::Lambda, Shape::ParamsNotAList), s),
        }
    }
}

/// `quote`: the operand as it stands.
pub open spec fn quote_form(l: Seq<Value>, s: Store) -> Outcome {
    if l.len() < 2 {
        failed(Failure::FormArityOrShape(Builtin::Quote, Shape::MissingExpression), s)
    } else {
        done(l[1], s)
    }
}

/// What an arithmetic operation makes of its operands' numbers.
pub open spec fn fold_numbers<A: Doubles>(op: Builtin, ns: Seq<u64>) -> Value {
    match op {
        Builtin::Times => Value::Number(product_of::<A>(ns)),
        Builtin::Sub => Value::Number(difference_of::<A>(ns)),
        _ => if all_same(ns) {
            true_marker()
        } else {
            false_marker()
        },
    }
}

/// `*`, `-` and `=`: every operand in turn, each of which must be a number,
/// then the fold of the numbers.
pub open spec fn numeric_form<A: Doubles>(
    op: Builtin,
    l: Seq<Value>,
    s: Store,
    f: nat,
    depth: nat,
) -> Outcome
    decreases depth, 2nat, 0nat,
{
    let r = eval_each::<A>(l, 1, Seq::empty(), s, f, depth, Some(op));
    match r.result {
        Err(e) => failed(e, r.store),
        Ok(vs) => done(fold_numbers::<A>(op, numbers(vs)), r.store),
    }
}

/// A built-in form gets the whole list, head included, as it stands.
pub open spec fn apply_builtin<A: Doubles>(
    b: Builtin,
    l: Seq<Value>,
    s: Store,
    f: nat,
    depth: nat,
) -> Outcome
    decreases depth, 3nat, 0nat,
{
    match b {
        Builtin::Begin => begin_form::<A>(l, s, f, depth),
        Builtin::Define => define_form::<A>(l, s, f, depth),
        Builtin::If => if_form::<A>(l, s, f, depth),
        Builtin::Lambda => lambda_form(l, s, f),
        Builtin::Quote => quote_form(l, s),
        _ => numeric_form::<A>(b, l, s, f, depth),
    }
}

/// The call of a procedure: the operands after the head are evaluated in the
/// caller's frame `f`; a fresh frame that defers to the captured frame binds
/// the parameters to them by position; the body is evaluated there.
pub open spec fn call<A: Doubles>(
    body: Value,
    params: Seq<Seq<char>>,
    capture: nat,
    l: Seq<Value>,
    s: Store,
    f: nat,
    depth: nat,
) -> Outcome
    decreases depth, 3nat, 0nat,
{
    let r = eval_each::<A>(l, 1, Seq::empty(), s, f, depth, None);
    match r.result {
        Err(e) => failed(e, r.store),
        Ok(args) => {
            let g = r.store.len();
            let framed = bind_params(
                with_child(r.store, capture),
                g,
                params,
                args,
                bound_count(params, args),
            );
            eval::<A>(body, framed, g, depth)
        },
    }
}

/// The application of the value `h` that the head of `l` resolved to. A
/// procedure whose captured frame is not in the store cannot be called.
pub open spec fn apply<A: Doubles>(
    h: Value,
    l: Seq<Value>,
    s: Store,
    f: nat,
    depth: nat,
) -> Outcome
    decreases depth, 4nat, 0nat,
{
    match h {
        Value::Builtin(b) => apply_builtin::<A>(b, l, s, f, depth),
        Value::Procedure { body, params, capture } => {
            if capture < s.len() {
                call::<A>(*body, params, capture, l, s, f, depth)
            } else {
                failed(Failure::NotCallable(h), s)
            }
        },
        _ => failed(Failure::NotCallable(h), s),
    }
}

} // verus!
