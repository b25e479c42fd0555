//! The value model: atoms, lists, built-in forms and procedures, with their
//! mathematical views.
use vstd::prelude::*;
use vstd::std_specs::convert::{FromSpecImpl, IntoSpec};
use vstd::string::StrSliceExecFns;
use crate::semantics::{false_marker, true_marker, truthy};

verus! {

/// The name of a variable or of a built-in form.
pub type Symbol = String;

/// An ordered sequence of expressions, which may be empty.
pub type List = Vec<Expr>;

/// An indivisible value. A number is a double held as its 64-bit pattern.
#[derive(Debug, PartialEq)]
pub enum Atom {
    Symbol(Symbol),
    Number(u64),
}

/// The fixed set of primitive operations.
#[derive(Debug, Clone, Copy, PartialEq, Eq, Structural)]
pub enum Builtin {
    Begin,
    Define,
    If,
    Times,
    Sub,
    Eq,
    Lambda,
    Quote,
}

/// A closure: its body, its parameter names, and the index of the frame that
/// was active where it was made.
#[derive(Debug, PartialEq)]
pub struct Procedure {
    pub body: Box<Expr>,
    pub params: Vec<String>,
    pub capture: usize,
}

/// Syntax and value in one type.
#[derive(Debug, PartialEq)]
pub enum Expr {
    Atom(Atom),
    List(List),
    Builtin(Builtin),
    Procedure(Procedure),
}

/// What an expression is, mathematically.
pub enum Value {
    Symbol(Seq<char>),
    Number(u64),
    List(Seq<Value>),
    Builtin(Builtin),
    Procedure { body: Box<Value>, params: Seq<Seq<char>>, capture: nat },
}

/// Which part of a form's shape was wrong.
#[derive(Debug, Clone, Copy, PartialEq, Eq, Structural)]
pub enum Shape {
    MissingSymbol,
    NotASymbol,
    MissingValue,
    MissingTest,
    MissingConsequent,
    MissingAlternative,
    MissingParams,
    ParamsNotAList,
    ParamNotASymbol,
    MissingBody,
    MissingExpression,
}

/// Why an evaluation failed.
#[derive(Debug, PartialEq)]
pub enum EvalError {
    UndefinedSymbol(String),
    EmptyApplication,
    InvalidHead,
    NotCallable(Expr),
    FormArityOrShape(Builtin, Shape),
    TypeMismatch(Builtin),
    DepthExceeded,
}

/// The view of an `EvalError`.
pub enum Failure {
    UndefinedSymbol(Seq<char>),
    EmptyApplication,
    InvalidHead,
    NotCallable(Value),
    FormArityOrShape(Builtin, Shape),
    TypeMismatch(Builtin),
    DepthExceeded,
}

/// The views of a sequence of names.
pub open spec fn names_view(names: Seq<String>) -> Seq<Seq<char>> {
    Seq::new(names.len(), |i: int| names[i]@)
}

/// The views of the items of a list.
pub open spec fn views_of(l: List) -> Seq<Value>
    decreases l,
{
    Seq::new(
        l.len() as nat,
        |i: int|
            if 0 <= i < l.len() {
                l[i].view()
            } else {
                Value::List(Seq::empty())
            },
    )
}

impl Expr {
    /// The expression with its names as sequences of characters and its
    /// lists as sequences of views.
    pub open spec fn view(&self) -> Value
        decreases self,
    {
        match self {
            Expr::Atom(Atom::Symbol(s)) => Value::Symbol(s@),
            Expr::Atom(Atom::Number(n)) => Value::Number(*n),
            Expr::List(l) => Value::List(views_of(*l)),
            Expr::Builtin(b) => Value::Builtin(*b),
            Expr::Procedure(p) => Value::Procedure {
                body: Box::new(p.body.view()),
                params: names_view(p.params@),
                capture: p.capture as nat,
            },
        }
    }
}

impl EvalError {
    /// The failure with its name or value by view.
    pub open spec fn view(&self) -> Failure {
        match self {
            EvalError::UndefinedSymbol(s) => Failure::UndefinedSymbol(s@),
            EvalError::EmptyApplication => Failure::EmptyApplication,
            EvalError::InvalidHead => Failure::InvalidHead,
            EvalError::NotCallable(e) => Failure::NotCallable(e@),
            EvalError::FormArityOrShape(b, s) => Failure::FormArityOrShape(*b, *s),
            EvalError::TypeMismatch(b) => Failure::TypeMismatch(*b),
            EvalError::DepthExceeded => Failure::DepthExceeded,
        }
    }
}

/// A copy of a list of names.
pub fn clone_names(names: &Vec<String>) -> (r: Vec<String>)
    ensures
        names_view(r@) == names_view(names@),
{
    let mut out: Vec<String> = Vec::new();
    let mut i: usize = 0;
    while i < names.len()
        invariant
            i <= names.len(),
            out.len() == i,
            forall|j: int| 0 <= j < i ==> out[j]@ == names[j]@,
        decreases names.len() - i,
    {
        out.push(names[i].clone());
        i += 1;
    }
    assert(names_view(out@) =~= names_view(names@));
    out
}

/// A deep copy of a list of expressions.
pub fn clone_list(l: &List) -> (r: List)
    ensures
        views_of(r) == views_of(*l),
    decreases l,
{
    let mut out: Vec<Expr> = Vec::new();
    let mut i: usize = 0;
    while i < l.len()
        invariant
            i <= l.len(),
            out.len() == i,
            forall|j: int| 0 <= j < i ==> out[j]@ == l[j]@,
        decreases l.len() - i,
    {
        out.push(clone_expr(&l[i]));
        i += 1;
    }
    assert(views_of(out) =~= views_of(*l));
    out
}

/// A deep copy of an expression.
pub fn clone_expr(e: &Expr) -> (r: Expr)
    ensures
        r@ == e@,
    decreases e,
{
    match e {
        Expr::Atom(Atom::Symbol(s)) => Expr::Atom(Atom::Symbol(s.clone())),
        Expr::Atom(Atom::Number(n)) => Expr::Atom(Atom::Number(*n)),
        Expr::List(l) => Expr::List(clone_list(l)),
        Expr::Builtin(b) => Expr::Builtin(*b),
        Expr::Procedure(p) => Expr::Procedure(
            Procedure {
                body: Box::new(clone_expr(&p.body)),
                params: clone_names(&p.params),
                capture: p.capture,
            },
        ),
    }
}

/// The view of a list is the views of its items.
pub proof fn lemma_views_of(l: List)
    ensures
        views_of(l).len() == l.len(),
        forall|i: int| 0 <= i < l.len() ==> #[trigger] views_of(l)[i] == l[i]@,
{
}

impl Procedure {
    /// A procedure with the given body and parameters that captures the
    /// frame `capture`.
    pub fn new(body: Expr, params: Vec<String>, capture: usize) -> (r: Procedure)
        ensures
            r.body == body,
            r.params == params,
            r.capture == capture,
    {
        Procedure { body: Box::new(body), params, capture }
    }
}

impl From<String> for Atom {
    fn from(s: String) -> (r: Atom) {
        Atom::Symbol(s)
    }
}

impl FromSpecImpl<String> for Atom {
    open spec fn obeys_from_spec() -> bool {
        true
    }

    open spec fn from_spec(s: String) -> Atom {
        Atom::Symbol(s)
    }
}

impl From<u64> for Atom {
    fn from(bits: u64) -> (r: Atom) {
        Atom::Number(bits)
    }
}

impl FromSpecImpl<u64> for Atom {
    open spec fn obeys_from_spec() -> bool {
        true
    }

    open spec fn from_spec(bits: u64) -> Atom {
        Atom::Number(bits)
    }
}

impl Expr {
    /// The atom that `t` converts to, as an expression: a symbol from its
    /// name, a number from its bit pattern.
    pub fn of<T: Into<Atom>>(t: T) -> (r: Expr)
        ensures
            T::obeys_into_spec() ==> r == Expr::Atom(t.into_spec()),
    {
        Expr::Atom(t.into())
    }

    /// The marker for true.
    pub fn tru() -> (r: Expr)
        ensures
            r@ == true_marker(),
    {
        let s = "#t".to_owned();
        proof {
            reveal_strlit("#t");
            assert(s@ =~= seq!['#', 't']);
        }
        Expr::Atom(Atom::Symbol(s))
    }

    /// The marker for false.
    pub fn fals() -> (r: Expr)
        ensures
            r@ == false_marker(),
    {
        let s = "#f".to_owned();
        proof {
            reveal_strlit("#f");
            assert(s@ =~= seq!['#', 'f']);
        }
        Expr::Atom(Atom::Symbol(s))
    }

    /// Whether this value counts as true: every value does but the marker
    /// for false.
    pub fn truthy(&self) -> (r: bool)
        ensures
            r == truthy(self@),
    {
        match self {
            Expr::Atom(Atom::Symbol(s)) => {
                let t = s.as_str();
                let is_false = t.unicode_len() == 2 && t.get_char(0) == '#' && t.get_char(1)
                    == 'f';
                proof {
                    if is_false {
                        assert(s@ =~= seq!['#', 'f']);
                    }
                }
                !is_false
            },
            _ => true,
        }
    }
}

impl Clone for Atom {
    fn clone(&self) -> (r: Self)
        ensures
            Expr::Atom(r)@ == Expr::Atom(*self)@,
    {
        match self {
            Atom::Symbol(s) => Atom::Symbol(s.clone()),
            Atom::Number(n) => Atom::Number(*n),
        }
    }
}

impl Clone for Procedure {
    fn clone(&self) -> (r: Self)
        ensures
            Expr::Procedure(r)@ == Expr::Procedure(*self)@,
    {
        Procedure {
            body: Box::new(clone_expr(&self.body)),
            params: clone_names(&self.params),
            capture: self.capture,
        }
    }
}

impl Clone for Expr {
    fn clone(&self) -> (r: Self)
        ensures
            r@ == self@,
    {
        clone_expr(self)
    }
}

} // verus!
