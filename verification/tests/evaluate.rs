use lirs::{Atom, Builtin, Doubles, EvalError, Evaluator, Expr, Letters, Shape};

struct Native;

impl Doubles for Native {
    fn numeral(_: Letters) -> Option<u64> {
        unreachable!()
    }

    fn number(word: &str) -> Option<u64> {
        word.parse::<f64>().ok().map(f64::to_bits)
    }

    fn product(_: u64, _: u64) -> u64 {
        unreachable!()
    }

    fn difference(_: u64, _: u64) -> u64 {
        unreachable!()
    }

    fn mul(a: u64, b: u64) -> u64 {
        (f64::from_bits(a) * f64::from_bits(b)).to_bits()
    }

    fn sub(a: u64, b: u64) -> u64 {
        (f64::from_bits(a) - f64::from_bits(b)).to_bits()
    }
}

fn sym(s: &str) -> Expr {
    Expr::Atom(Atom::Symbol(s.to_string()))
}

fn num(x: f64) -> Expr {
    Expr::Atom(Atom::Number(x.to_bits()))
}

fn form(items: Vec<Expr>) -> Expr {
    Expr::List(items)
}

fn run(ev: &mut Evaluator, e: Expr) -> Result<Expr, EvalError> {
    ev.eval::<Native>(e)
}

#[test]
fn times_multiplies() {
    let mut ev = Evaluator::new();
    assert_eq!(run(&mut ev, form(vec![sym("*"), num(2.0), num(3.0)])), Ok(num(6.0)));
}

#[test]
fn times_without_operands_is_one() {
    let mut ev = Evaluator::new();
    assert_eq!(run(&mut ev, form(vec![sym("*")])), Ok(num(1.0)));
}

#[test]
fn sub_folds_from_the_left() {
    let mut ev = Evaluator::new();
    assert_eq!(
        run(&mut ev, form(vec![sym("-"), num(10.0), num(3.0), num(2.0)])),
        Ok(num(5.0))
    );
}

#[test]
fn sub_without_operands_is_zero() {
    let mut ev = Evaluator::new();
    assert_eq!(run(&mut ev, form(vec![sym("-")])), Ok(num(0.0)));
    assert_eq!(run(&mut ev, form(vec![sym("-"), num(4.0)])), Ok(num(4.0)));
}

#[test]
fn eq_compares_all_with_the_first() {
    let mut ev = Evaluator::new();
    assert_eq!(
        run(&mut ev, form(vec![sym("="), num(1.0), num(1.0), num(1.0)])),
        Ok(Expr::tru())
    );
    assert_eq!(run(&mut ev, form(vec![sym("="), num(1.0), num(2.0)])), Ok(Expr::fals()));
    assert_eq!(
        run(&mut ev, form(vec![sym("="), num(1.0), num(1.0), num(2.0)])),
        Ok(Expr::fals())
    );
    assert_eq!(run(&mut ev, form(vec![sym("=")])), Ok(Expr::tru()));
    assert_eq!(run(&mut ev, form(vec![sym("="), num(7.0)])), Ok(Expr::tru()));
}

#[test]
fn eq_follows_the_rules_of_doubles() {
    let mut ev = Evaluator::new();
    assert_eq!(run(&mut ev, form(vec![sym("="), num(0.0), num(-0.0)])), Ok(Expr::tru()));
    assert_eq!(
        run(&mut ev, form(vec![sym("="), num(f64::NAN), num(f64::NAN)])),
        Ok(Expr::fals())
    );
    assert_eq!(
        run(&mut ev, form(vec![sym("="), num(f64::INFINITY), num(f64::INFINITY)])),
        Ok(Expr::tru())
    );
}

#[test]
fn square_of_five() {
    let mut ev = Evaluator::new();
    let lambda = form(vec![
        sym("lambda"),
        form(vec![sym("n")]),
        form(vec![sym("*"), sym("n"), sym("n")]),
    ]);
    assert_eq!(run(&mut ev, form(vec![sym("define"), sym("square"), lambda])), Ok(sym("")));
    assert_eq!(run(&mut ev, form(vec![sym("square"), num(5.0)])), Ok(num(25.0)));
}

#[test]
fn begin_returns_the_last_value() {
    let mut ev = Evaluator::new();
    let e = form(vec![
        sym("begin"),
        form(vec![sym("define"), sym("x"), num(1.0)]),
        form(vec![sym("define"), sym("x"), num(2.0)]),
        sym("x"),
    ]);
    assert_eq!(run(&mut ev, e), Ok(num(2.0)));
    assert_eq!(run(&mut ev, form(vec![sym("begin")])), Ok(num(0.0)));
}

#[test]
fn numeric_forms_reject_what_is_no_number() {
    let mut ev = Evaluator::new();
    let quoted = form(vec![sym("quote"), sym("a")]);
    assert_eq!(
        run(&mut ev, form(vec![sym("*"), num(2.0), quoted.clone()])),
        Err(EvalError::TypeMismatch(Builtin::Times))
    );
    assert_eq!(
        run(&mut ev, form(vec![sym("-"), quoted.clone()])),
        Err(EvalError::TypeMismatch(Builtin::Sub))
    );
    assert_eq!(
        run(&mut ev, form(vec![sym("="), num(1.0), sym("'b")])),
        Err(EvalError::TypeMismatch(Builtin::Eq))
    );
}

#[test]
fn quote_leaves_its_operand_unevaluated() {
    let mut ev = Evaluator::new();
    let inner = form(vec![sym("nowhere"), num(1.0)]);
    assert_eq!(run(&mut ev, form(vec![sym("quote"), inner.clone()])), Ok(inner));
    assert_eq!(
        run(&mut ev, form(vec![sym("quote")])),
        Err(EvalError::FormArityOrShape(Builtin::Quote, Shape::MissingExpression))
    );
}

#[test]
fn if_leaves_the_other_branch_alone() {
    let mut ev = Evaluator::new();
    let truth = form(vec![sym("="), num(1.0), num(1.0)]);
    let lie = form(vec![sym("="), num(1.0), num(2.0)]);
    assert_eq!(
        run(&mut ev, form(vec![sym("if"), truth, num(1.0), sym("nowhere")])),
        Ok(num(1.0))
    );
    assert_eq!(
        run(&mut ev, form(vec![sym("if"), lie, sym("nowhere"), num(2.0)])),
        Ok(num(2.0))
    );
    assert_eq!(
        run(&mut ev, form(vec![sym("if"), num(0.0), num(1.0), num(2.0)])),
        Ok(num(1.0))
    );
}

#[test]
fn calling_a_number_fails() {
    let mut ev = Evaluator::new();
    assert_eq!(run(&mut ev, form(vec![sym("define"), sym("x"), num(3.0)])), Ok(sym("")));
    assert_eq!(
        run(&mut ev, form(vec![sym("x"), num(1.0)])),
        Err(EvalError::NotCallable(num(3.0)))
    );
    assert_eq!(
        run(&mut ev, form(vec![sym("pi")])),
        Err(EvalError::NotCallable(num(std::f64::consts::PI)))
    );
}

#[test]
fn free_variables_resolve_where_the_procedure_was_made() {
    let mut ev = Evaluator::new();
    assert_eq!(run(&mut ev, form(vec![sym("define"), sym("x"), num(1.0)])), Ok(sym("")));
    let f = form(vec![sym("lambda"), form(vec![]), sym("x")]);
    assert_eq!(run(&mut ev, form(vec![sym("define"), sym("f"), f])), Ok(sym("")));
    let g = form(vec![
        sym("lambda"),
        form(vec![]),
        form(vec![
            sym("begin"),
            form(vec![sym("define"), sym("x"), num(2.0)]),
            form(vec![sym("f")]),
        ]),
    ]);
    assert_eq!(run(&mut ev, form(vec![sym("define"), sym("g"), g])), Ok(sym("")));
    assert_eq!(run(&mut ev, form(vec![sym("g")])), Ok(num(1.0)));
    assert_eq!(run(&mut ev, sym("x")), Ok(num(1.0)));
}

#[test]
fn define_in_a_call_leaves_the_outer_binding() {
    let mut ev = Evaluator::new();
    assert_eq!(run(&mut ev, form(vec![sym("define"), sym("x"), num(1.0)])), Ok(sym("")));
    let f = form(vec![
        sym("lambda"),
        form(vec![]),
        form(vec![
            sym("begin"),
            form(vec![sym("define"), sym("x"), num(2.0)]),
            sym("x"),
        ]),
    ]);
    assert_eq!(run(&mut ev, form(vec![sym("define"), sym("f"), f])), Ok(sym("")));
    assert_eq!(run(&mut ev, form(vec![sym("f")])), Ok(num(2.0)));
    assert_eq!(run(&mut ev, sym("x")), Ok(num(1.0)));
}

#[test]
fn a_later_define_in_the_captured_frame_is_seen() {
    let mut ev = Evaluator::new();
    let f = form(vec![sym("lambda"), form(vec![]), sym("y")]);
    assert_eq!(run(&mut ev, form(vec![sym("define"), sym("f"), f])), Ok(sym("")));
    assert_eq!(
        run(&mut ev, form(vec![sym("f")])),
        Err(EvalError::UndefinedSymbol("y".to_string()))
    );
    assert_eq!(run(&mut ev, form(vec![sym("define"), sym("y"), num(9.0)])), Ok(sym("")));
    assert_eq!(run(&mut ev, form(vec![sym("f")])), Ok(num(9.0)));
}

#[test]
fn a_procedure_outlives_the_call_that_made_it() {
    let mut ev = Evaluator::new();
    let make = form(vec![
        sym("lambda"),
        form(vec![sym("n")]),
        form(vec![sym("lambda"), form(vec![]), sym("n")]),
    ]);
    assert_eq!(run(&mut ev, form(vec![sym("define"), sym("make"), make])), Ok(sym("")));
    let five = form(vec![sym("make"), num(5.0)]);
    let six = form(vec![sym("make"), num(6.0)]);
    assert_eq!(run(&mut ev, form(vec![sym("define"), sym("five"), five])), Ok(sym("")));
    assert_eq!(run(&mut ev, form(vec![sym("define"), sym("six"), six])), Ok(sym("")));
    assert_eq!(run(&mut ev, form(vec![sym("five")])), Ok(num(5.0)));
    assert_eq!(run(&mut ev, form(vec![sym("six")])), Ok(num(6.0)));
}

#[test]
fn recursion_through_if() {
    let mut ev = Evaluator::new();
    let body = form(vec![
        sym("if"),
        form(vec![sym("="), sym("n"), num(0.0)]),
        num(1.0),
        form(vec![
            sym("*"),
            sym("n"),
            form(vec![sym("fact"), form(vec![sym("-"), sym("n"), num(1.0)])]),
        ]),
    ]);
    let fact = form(vec![sym("lambda"), form(vec![sym("n")]), body]);
    assert_eq!(run(&mut ev, form(vec![sym("define"), sym("fact"), fact])), Ok(sym("")));
    assert_eq!(run(&mut ev, form(vec![sym("fact"), num(5.0)])), Ok(num(120.0)));
}

#[test]
fn missing_arguments_stay_unbound_and_extra_ones_are_dropped() {
    let mut ev = Evaluator::new();
    let second = form(vec![sym("lambda"), form(vec![sym("a"), sym("b")]), sym("b")]);
    assert_eq!(run(&mut ev, form(vec![sym("define"), sym("second"), second])), Ok(sym("")));
    assert_eq!(
        run(&mut ev, form(vec![sym("second"), num(1.0), num(2.0), num(3.0)])),
        Ok(num(2.0))
    );
    assert_eq!(
        run(&mut ev, form(vec![sym("second"), num(1.0)])),
        Err(EvalError::UndefinedSymbol("b".to_string()))
    );
}

#[test]
fn atoms_and_forms_stand_for_themselves() {
    let mut ev = Evaluator::new();
    assert_eq!(run(&mut ev, num(4.5)), Ok(num(4.5)));
    assert_eq!(run(&mut ev, sym("'a")), Ok(sym("'a")));
    assert_eq!(run(&mut ev, Expr::Builtin(Builtin::If)), Ok(Expr::Builtin(Builtin::If)));
    assert_eq!(run(&mut ev, sym("if")), Ok(Expr::Builtin(Builtin::If)));
    assert_eq!(run(&mut ev, sym("pi")), Ok(num(std::f64::consts::PI)));
}

#[test]
fn lists_need_a_symbol_that_is_bound_at_their_head() {
    let mut ev = Evaluator::new();
    assert_eq!(run(&mut ev, form(vec![])), Err(EvalError::EmptyApplication));
    assert_eq!(run(&mut ev, form(vec![num(1.0), num(2.0)])), Err(EvalError::InvalidHead));
    assert_eq!(
        run(&mut ev, form(vec![form(vec![sym("quote"), sym("if")]), num(2.0)])),
        Err(EvalError::InvalidHead)
    );
    assert_eq!(
        run(&mut ev, form(vec![sym("nowhere"), num(2.0)])),
        Err(EvalError::UndefinedSymbol("nowhere".to_string()))
    );
    assert_eq!(
        run(&mut ev, sym("nowhere")),
        Err(EvalError::UndefinedSymbol("nowhere".to_string()))
    );
}

#[test]
fn define_checks_its_shape() {
    let mut ev = Evaluator::new();
    assert_eq!(
        run(&mut ev, form(vec![sym("define")])),
        Err(EvalError::FormArityOrShape(Builtin::Define, Shape::MissingSymbol))
    );
    assert_eq!(
        run(&mut ev, form(vec![sym("define"), num(1.0), num(2.0)])),
        Err(EvalError::FormArityOrShape(Builtin::Define, Shape::NotASymbol))
    );
    assert_eq!(
        run(&mut ev, form(vec![sym("define"), sym("x")])),
        Err(EvalError::FormArityOrShape(Builtin::Define, Shape::MissingValue))
    );
    assert_eq!(
        run(&mut ev, sym("x")),
        Err(EvalError::UndefinedSymbol("x".to_string()))
    );
}

#[test]
fn if_checks_its_shape() {
    let mut ev = Evaluator::new();
    assert_eq!(
        run(&mut ev, form(vec![sym("if")])),
        Err(EvalError::FormArityOrShape(Builtin::If, Shape::MissingTest))
    );
    assert_eq!(
        run(&mut ev, form(vec![sym("if"), num(1.0)])),
        Err(EvalError::FormArityOrShape(Builtin::If, Shape::MissingConsequent))
    );
    assert_eq!(
        run(&mut ev, form(vec![sym("if"), num(1.0), num(2.0)])),
        Err(EvalError::FormArityOrShape(Builtin::If, Shape::MissingAlternative))
    );
    assert_eq!(
        run(&mut ev, form(vec![sym("if"), sym("nowhere"), num(2.0)])),
        Err(EvalError::UndefinedSymbol("nowhere".to_string()))
    );
}

#[test]
fn lambda_checks_its_shape() {
    let mut ev = Evaluator::new();
    assert_eq!(
        run(&mut ev, form(vec![sym("lambda")])),
        Err(EvalError::FormArityOrShape(Builtin::Lambda, Shape::MissingParams))
    );
    assert_eq!(
        run(&mut ev, form(vec![sym("lambda"), sym("n"), sym("n")])),
        Err(EvalError::FormArityOrShape(Builtin::Lambda, Shape::ParamsNotAList))
    );
    assert_eq!(
        run(&mut ev, form(vec![sym("lambda"), form(vec![sym("n"), num(1.0)]), sym("n")])),
        Err(EvalError::FormArityOrShape(Builtin::Lambda, Shape::ParamNotASymbol))
    );
    assert_eq!(
        run(&mut ev, form(vec![sym("lambda"), form(vec![sym("n")])])),
        Err(EvalError::FormArityOrShape(Builtin::Lambda, Shape::MissingBody))
    );
}

#[test]
fn lambda_captures_the_frame_it_is_evaluated_in() {
    let mut ev = Evaluator::new();
    let made = run(&mut ev, form(vec![sym("lambda"), form(vec![sym("n")]), sym("n")]));
    assert_eq!(
        made,
        Ok(Expr::Procedure(lirs::Procedure::new(sym("n"), vec!["n".to_string()], 0)))
    );
}

#[test]
fn nesting_is_bounded() {
    let mut ev = Evaluator::with_depth(0);
    assert_eq!(run(&mut ev, num(1.0)), Err(EvalError::DepthExceeded));
    let mut ev = Evaluator::with_depth(1);
    assert_eq!(run(&mut ev, num(1.0)), Ok(num(1.0)));
    assert_eq!(
        run(&mut ev, form(vec![sym("*"), num(2.0), num(3.0)])),
        Err(EvalError::DepthExceeded)
    );
    let mut ev = Evaluator::with_depth(2);
    assert_eq!(run(&mut ev, form(vec![sym("*"), num(2.0), num(3.0)])), Ok(num(6.0)));
    let mut ev = Evaluator::new();
    let forever = form(vec![sym("lambda"), form(vec![]), form(vec![sym("forever")])]);
    assert_eq!(run(&mut ev, form(vec![sym("define"), sym("forever"), forever])), Ok(sym("")));
    assert_eq!(run(&mut ev, form(vec![sym("forever")])), Err(EvalError::DepthExceeded));
}

#[test]
fn what_was_defined_survives_a_failure() {
    let mut ev = Evaluator::new();
    assert_eq!(run(&mut ev, form(vec![sym("define"), sym("x"), num(1.0)])), Ok(sym("")));
    let e = form(vec![
        sym("begin"),
        form(vec![sym("define"), sym("y"), num(2.0)]),
        sym("nowhere"),
        form(vec![sym("define"), sym("z"), num(3.0)]),
    ]);
    assert_eq!(run(&mut ev, e), Err(EvalError::UndefinedSymbol("nowhere".to_string())));
    assert_eq!(run(&mut ev, sym("x")), Ok(num(1.0)));
    assert_eq!(run(&mut ev, sym("y")), Ok(num(2.0)));
    assert_eq!(run(&mut ev, sym("z")), Err(EvalError::UndefinedSymbol("z".to_string())));
}

#[test]
fn a_procedure_without_its_frame_cannot_be_called() {
    let mut ev = Evaluator::new();
    let stray = Expr::Procedure(lirs::Procedure::new(num(1.0), vec![], 77));
    assert_eq!(
        run(&mut ev, form(vec![sym("define"), sym("stray"), form(vec![sym("quote"), stray.clone()])])),
        Ok(sym(""))
    );
    assert_eq!(run(&mut ev, form(vec![sym("stray")])), Err(EvalError::NotCallable(stray)));
}

#[test]
fn operands_are_evaluated_from_left_to_right() {
    let mut ev = Evaluator::new();
    let e = form(vec![
        sym("*"),
        form(vec![sym("begin"), form(vec![sym("define"), sym("x"), num(3.0)]), sym("x")]),
        sym("x"),
    ]);
    assert_eq!(run(&mut ev, e), Ok(num(9.0)));
    let e = form(vec![sym("*"), sym("'a"), sym("nowhere")]);
    assert_eq!(run(&mut ev, e), Err(EvalError::TypeMismatch(Builtin::Times)));
}

#[test]
fn truthiness() {
    assert!(Expr::tru().truthy());
    assert!(!Expr::fals().truthy());
    assert!(num(0.0).truthy());
    assert!(form(vec![]).truthy());
    assert!(sym("#ff").truthy());
    assert!(sym("").truthy());
    assert_eq!(Expr::tru(), sym("#t"));
    assert_eq!(Expr::fals(), sym("#f"));
    assert_eq!(Expr::of("a".to_string()), sym("a"));
    assert_eq!(Expr::of(2.0f64.to_bits()), num(2.0));
    assert_eq!(form(vec![num(1.0), sym("a")]).clone(), form(vec![num(1.0), sym("a")]));
}

#[test]
fn equality_of_bit_patterns() {
    assert!(lirs::numbers_equal(1.5f64.to_bits(), 1.5f64.to_bits()));
    assert!(!lirs::numbers_equal(1.5f64.to_bits(), 2.5f64.to_bits()));
    assert!(lirs::numbers_equal(0.0f64.to_bits(), (-0.0f64).to_bits()));
    assert!(!lirs::numbers_equal(f64::NAN.to_bits(), f64::NAN.to_bits()));
    assert!(!lirs::numbers_equal(1.0f64.to_bits(), (-1.0f64).to_bits()));
    assert!(lirs::numbers_equal(f64::NEG_INFINITY.to_bits(), f64::NEG_INFINITY.to_bits()));
}
