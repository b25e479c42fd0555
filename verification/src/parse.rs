//! The reader: from text to tokens, from tokens to an expression.
use vstd::prelude::*;
use vstd::string::StrSliceExecFns;
use crate::semantics::Doubles;
use crate::types::{lemma_views_of, views_of, Atom, Expr, List, Value};

verus! {

/// Why a text is no expression.
#[derive(Debug, Clone, Copy, PartialEq, Eq, Structural)]
pub enum ParseError {
    /// The text ended where an expression or a `)` was due.
    UnexpectedEof,
    /// A `)` stood where an expression was due.
    UnexpectedClose,
}

/// An expression, or why the text is none.
pub type ParseResult = Result<Expr, ParseError>;

/// A parenthesis, or a run of other characters without white space.
#[derive(Debug, PartialEq)]
pub enum Token {
    Open,
    Close,
    Word(String),
}

/// A token, mathematically.
pub enum TokenView {
    Open,
    Close,
    Word(Seq<char>),
}

impl Token {
    /// The token with its word as a sequence of characters.
    pub open spec fn view(&self) -> TokenView {
        match self {
            Token::Open => TokenView::Open,
            Token::Close => TokenView::Close,
            Token::Word(w) => TokenView::Word(w@),
        }
    }
}

/// The views of a sequence of tokens.
pub open spec fn tokens_view(ts: Seq<Token>) -> Seq<TokenView> {
    Seq::new(ts.len(), |i: int| ts[i]@)
}

/// White space, as Unicode defines it.
pub open spec fn is_space(c: char) -> bool {
    let u = c as u32;
    (9 <= u <= 13) || u == 0x20 || u == 0x85 || u == 0xA0 || u == 0x1680 || (0x2000 <= u
        <= 0x200A) || u == 0x2028 || u == 0x2029 || u == 0x202F || u == 0x205F || u == 0x3000
}

/// The tokens so far, with the word that just ended, if there was one.
pub open spec fn flush(word: Seq<char>, out: Seq<TokenView>) -> Seq<TokenView> {
    if word.len() == 0 {
        out
    } else {
        out.push(TokenView::Word(word))
    }
}

/// The tokens of `cs`, given the tokens `out` of what lies before `start`
/// and that a word may run from `start` to `i`.
pub open spec fn scan(cs: Seq<char>, i: nat, start: nat, out: Seq<TokenView>) -> Seq<TokenView>
    decreases cs.len() - i,
{
    if i >= cs.len() {
        flush(cs.subrange(start as int, cs.len() as int), out)
    } else {
        let c = cs[i as int];
        let ended = flush(cs.subrange(start as int, i as int), out);
        if c == '(' {
            scan(cs, i + 1, i + 1, ended.push(TokenView::Open))
        } else if c == ')' {
            scan(cs, i + 1, i + 1, ended.push(TokenView::Close))
        } else if is_space(c) {
            scan(cs, i + 1, i + 1, ended)
        } else {
            scan(cs, i + 1, start, out)
        }
    }
}

/// The tokens of a text: each parenthesis is one, and so is each longest run
/// of characters that are neither parentheses nor white space.
pub open spec fn tokens_of(cs: Seq<char>) -> Seq<TokenView> {
    scan(cs, 0, 0, Seq::empty())
}

/// A word is a number where it denotes one, and a symbol where it does not.
pub open spec fn atom_of<A: Doubles>(word: Seq<char>) -> Value {
    match A::numeral(word) {
        Some(n) => Value::Number(n),
        None => Value::Symbol(word),
    }
}

/// The expression that starts at token `pos`, and the position behind it.
pub open spec fn read<A: Doubles>(ts: Seq<TokenView>, pos: nat) -> Result<(Value, nat), ParseError>
    decreases ts.len() - pos, 1nat,
{
    if pos >= ts.len() {
        Err(ParseError::UnexpectedEof)
    } else {
        match ts[pos as int] {
            TokenView::Open => read_items::<A>(ts, pos + 1, Seq::empty()),
            TokenView::Close => Err(ParseError::UnexpectedClose),
            TokenView::Word(w) => Ok((atom_of::<A>(w), pos + 1)),
        }
    }
}

/// The list whose items `acc` were read already and whose rest starts at
/// token `pos`, and the position behind its `)`.
pub open spec fn read_items<A: Doubles>(ts: Seq<TokenView>, pos: nat, acc: Seq<Value>) -> Result<
    (Value, nat),
    ParseError,
>
    decreases ts.len() - pos, 2nat,
{
    if pos >= ts.len() {
        Err(ParseError::UnexpectedEof)
    } else if ts[pos as int] is Close {
        Ok((Value::List(acc), pos + 1))
    } else {
        match read::<A>(ts, pos) {
            Err(e) => Err(e),
            Ok((v, next)) => if pos < next <= ts.len() {
                read_items::<A>(ts, next, acc.push(v))
            } else {
                Err(ParseError::UnexpectedEof)
            },
        }
    }
}

/// The first expression of a text; what follows it is not looked at.
pub open spec fn parsed<A: Doubles>(cs: Seq<char>) -> Result<Value, ParseError> {
    match read::<A>(tokens_of(cs), 0) {
        Ok((v, _)) => Ok(v),
        Err(e) => Err(e),
    }
}

/// Whether a character is white space.
pub fn is_space_char(c: char) -> (r: bool)
    ensures
        r == is_space(c),
{
    let u: u32 = c as u32;
    (9 <= u && u <= 13) || u == 0x20 || u == 0x85 || u == 0xA0 || u == 0x1680 || (0x2000 <= u && u
        <= 0x200A) || u == 0x2028 || u == 0x2029 || u == 0x202F || u == 0x205F || u == 0x3000
}

/// Splits a text into its tokens.
pub fn tokenize(program: &str) -> (r: Vec<Token>)
    ensures
        tokens_view(r@) == tokens_of(program@),
{
    let n = program.unicode_len();
    let mut out: Vec<Token> = Vec::new();
    let mut start: usize = 0;
    let mut i: usize = 0;
    assert(tokens_view(out@) =~= Seq::<TokenView>::empty());
    while i < n
        invariant
            start <= i <= n,
            n == program@.len(),
            tokens_of(program@) == scan(program@, i as nat, start as nat, tokens_view(out@)),
        decreases n - i,
    {
        let c = program.get_char(i);
        if c == '(' || c == ')' || is_space_char(c) {
            if start < i {
                let ghost before = tokens_view(out@);
                let word = program.substring_char(start, i).to_owned();
                out.push(Token::Word(word));
                assert(tokens_view(out@) =~= before.push(TokenView::Word(word@)));
            }
            if c == '(' {
                let ghost before = tokens_view(out@);
                out.push(Token::Open);
                assert(tokens_view(out@) =~= before.push(TokenView::Open));
            } else if c == ')' {
                let ghost before = tokens_view(out@);
                out.push(Token::Close);
                assert(tokens_view(out@) =~= before.push(TokenView::Close));
            }
            start = i + 1;
        }
        i += 1;
    }
    if start < n {
        let ghost before = tokens_view(out@);
        let word = program.substring_char(start, n).to_owned();
        out.push(Token::Word(word));
        assert(tokens_view(out@) =~= before.push(TokenView::Word(word@)));
    }
    out
}

/// The atom that a word stands for.
pub fn atom<A: Doubles>(word: &String) -> (r: Atom)
    ensures
        Expr::Atom(r)@ == atom_of::<A>(word@),
{
    match A::number(word.as_str()) {
        Some(n) => Atom::Number(n),
        None => Atom::Symbol(word.clone()),
    }
}

/// Reads the expression that starts at token `pos`, and returns it with the
/// position behind it.
pub fn read_from_tokens<A: Doubles>(tokens: &Vec<Token>, pos: usize) -> (r: Result<
    (Expr, usize),
    ParseError,
>)
    ensures
        match r {
            Ok((e, next)) => pos < next <= tokens.len() && read::<A>(
                tokens_view(tokens@),
                pos as nat,
            ) == Ok::<(Value, nat), ParseError>((e@, next as nat)),
            Err(e) => read::<A>(tokens_view(tokens@), pos as nat) == Err::<
                (Value, nat),
                ParseError,
            >(e),
        },
    decreases tokens.len() - pos,
{
    if pos >= tokens.len() {
        return Err(ParseError::UnexpectedEof);
    }
    match &tokens[pos] {
        Token::Close => Err(ParseError::UnexpectedClose),
        Token::Word(w) => Ok((Expr::Atom(atom::<A>(w)), pos + 1)),
        Token::Open => {
            let ghost ts = tokens_view(tokens@);
            let mut items: Vec<Expr> = Vec::new();
            let mut at: usize = pos + 1;
            assert(views_of(items) =~= Seq::<Value>::empty());
            loop
                invariant
                    ts == tokens_view(tokens@),
                    pos < at <= tokens.len(),
                    read::<A>(ts, pos as nat) == read_items::<A>(ts, at as nat, views_of(items)),
                decreases tokens.len() - at,
            {
                if at >= tokens.len() {
                    return Err(ParseError::UnexpectedEof);
                }
                match &tokens[at] {
                    Token::Close => {
                        return Ok((Expr::List(items), at + 1));
                    },
                    _ => {},
                }
                match read_from_tokens::<A>(tokens, at) {
                    Err(e) => {
                        return Err(e);
                    },
                    Ok((e, next)) => {
                        let ghost before = views_of(items);
                        items.push(e);
                        proof {
                            lemma_views_of(items);
                            assert(views_of(items) =~= before.push(e@));
                        }
                        at = next;
                    },
                }
            }
        },
    }
}

/// Reads the first expression of `program`.
pub fn parse<A: Doubles>(program: &str) -> (r: ParseResult)
    ensures
        match r {
            Ok(e) => parsed::<A>(program@) == Ok::<Value, ParseError>(e@),
            Err(e) => parsed::<A>(program@) == Err::<Value, ParseError>(e),
        },
{
    let tokens = tokenize(program);
    match read_from_tokens::<A>(&tokens, 0) {
        Ok((e, _)) => Ok(e),
        Err(e) => Err(e),
    }
}

} // verus!
