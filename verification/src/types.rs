//! The data model: lexical tokens, parsed nodes (statements and expressions),
//! operators, the shared environment, and the error taxonomy. Each executable
//! type has a ghost view (`TokV`, `NodeV`, ...) over mathematical values, and
//! every contract in the crate speaks of those views.
use crate::rational::{Rat, RatV};
use vstd::prelude::*;

verus! {

broadcast use {vstd::std_specs::vec::group_vec_axioms, vstd::seq::group_seq_axioms};

/// A lexical unit of one source line, including the synthetic indentation
/// markers. `TokIndent`/`TokDedent` carry the absolute column depth of the
/// line that produced them, not a delta.
#[derive(Debug, PartialEq)]
pub enum Token {
    TokInt(i64),
    TokFloat(Rat),
    TokBool(bool),
    TokString(String),
    TokUnaryMinus,
    TokPlus,
    TokMinus,
    TokMult,
    TokDiv,
    TokLParen,
    TokRParen,
    TokOr,
    TokAnd,
    TokDoubleEqual,
    TokNotEqual,
    TokLess,
    TokGreater,
    TokLessEqual,
    TokGreaterEqual,
    TokVar(String),
    TokAssign,
    TokIf,
    TokElif,
    TokElse,
    TokColon,
    TokIndent(i32),
    TokDedent(i32),
    TokNot,
    TokDef,
    TokReturn,
    TokComma,
}

/// Mathematical view of a `Token`.
pub enum TokV {
    TokInt(int),
    TokFloat(RatV),
    TokBool(bool),
    TokString(Seq<char>),
    TokUnaryMinus,
    TokPlus,
    TokMinus,
    TokMult,
    TokDiv,
    TokLParen,
    TokRParen,
    TokOr,
    TokAnd,
    TokDoubleEqual,
    TokNotEqual,
    TokLess,
    TokGreater,
    TokLessEqual,
    TokGreaterEqual,
    TokVar(Seq<char>),
    TokAssign,
    TokIf,
    TokElif,
    TokElse,
    TokColon,
    TokIndent(int),
    TokDedent(int),
    TokNot,
    TokDef,
    TokReturn,
    TokComma,
}

impl View for Token {
    type V = TokV;

    open spec fn view(&self) -> TokV {
        match self {
            Token::TokInt(n) => TokV::TokInt(*n as int),
            Token::TokFloat(r) => TokV::TokFloat(r@),
            Token::TokBool(b) => TokV::TokBool(*b),
            Token::TokString(s) => TokV::TokString(s@),
            Token::TokUnaryMinus => TokV::TokUnaryMinus,
            Token::TokPlus => TokV::TokPlus,
            Token::TokMinus => TokV::TokMinus,
            Token::TokMult => TokV::TokMult,
            Token::TokDiv => TokV::TokDiv,
            Token::TokLParen => TokV::TokLParen,
            Token::TokRParen => TokV::TokRParen,
            Token::TokOr => TokV::TokOr,
            Token::TokAnd => TokV::TokAnd,
            Token::TokDoubleEqual => TokV::TokDoubleEqual,
            Token::TokNotEqual => TokV::TokNotEqual,
            Token::TokLess => TokV::TokLess,
            Token::TokGreater => TokV::TokGreater,
            Token::TokLessEqual => TokV::TokLessEqual,
            Token::TokGreaterEqual => TokV::TokGreaterEqual,
            Token::TokVar(s) => TokV::TokVar(s@),
            Token::TokAssign => TokV::TokAssign,
            Token::TokIf => TokV::TokIf,
            Token::TokElif => TokV::TokElif,
            Token::TokElse => TokV::TokElse,
            Token::TokColon => TokV::TokColon,
            Token::TokIndent(n) => TokV::TokIndent(*n as int),
            Token::TokDedent(n) => TokV::TokDedent(*n as int),
            Token::TokNot => TokV::TokNot,
            Token::TokDef => TokV::TokDef,
            Token::TokReturn => TokV::TokReturn,
            Token::TokComma => TokV::TokComma,
        }
    }
}

impl DeepView for Token {
    type V = TokV;

    open spec fn deep_view(&self) -> TokV {
        self@
    }
}

impl Clone for Token {
    /// A copy with the same view.
    fn clone(&self) -> (r: Self)
        ensures
            r@ == self@,
    {
        match self {
            Token::TokInt(n) => Token::TokInt(*n),
            Token::TokFloat(r) => Token::TokFloat(*r),
            Token::TokBool(b) => Token::TokBool(*b),
            Token::TokString(s) => Token::TokString(s.clone()),
            Token::TokUnaryMinus => Token::TokUnaryMinus,
            Token::TokPlus => Token::TokPlus,
            Token::TokMinus => Token::TokMinus,
            Token::TokMult => Token::TokMult,
            Token::TokDiv => Token::TokDiv,
            Token::TokLParen => Token::TokLParen,
            Token::TokRParen => Token::TokRParen,
            Token::TokOr => Token::TokOr,
            Token::TokAnd => Token::TokAnd,
            Token::TokDoubleEqual => Token::TokDoubleEqual,
            Token::TokNotEqual => Token::TokNotEqual,
            Token::TokLess => Token::TokLess,
            Token::TokGreater => Token::TokGreater,
            Token::TokLessEqual => Token::TokLessEqual,
            Token::TokGreaterEqual => Token::TokGreaterEqual,
            Token::TokVar(s) => Token::TokVar(s.clone()),
            Token::TokAssign => Token::TokAssign,
            Token::TokIf => Token::TokIf,
            Token::TokElif => Token::TokElif,
            Token::TokElse => Token::TokElse,
            Token::TokColon => Token::TokColon,
            Token::TokIndent(n) => Token::TokIndent(*n),
            Token::TokDedent(n) => Token::TokDedent(*n),
            Token::TokNot => Token::TokNot,
            Token::TokDef => Token::TokDef,
            Token::TokReturn => Token::TokReturn,
            Token::TokComma => Token::TokComma,
        }
    }
}

/// The binary operators of the language.
#[derive(Clone, Copy, Debug, PartialEq, Eq, Structural)]
pub enum Op {
    Add,
    Sub,
    Mult,
    Div,
    Or,
    And,
    Equal,
    NotEqual,
    Less,
    Greater,
    LessEqual,
    GreaterEqual,
}

/// A parsed unit: every statement, every expression, every entry of a block
/// body and every value the evaluator produces is a `PyType`.
#[derive(Debug, PartialEq)]
pub enum PyType {
    Stmt(Stmt),
    Expr(Expr),
}

/// An expression node. Literal `Float`s carry exact fractions.
#[derive(Debug, PartialEq)]
pub enum Expr {
    Int(i64),
    Float(Rat),
    Bool(bool),
    Str(String),
    Var(String),
    Binop(Op, Box<PyType>, Box<PyType>),
    Not(Box<PyType>),
    Return(Box<PyType>),
    FunctionCall(String, Vec<PyType>),
}

/// A statement node. `NoOp` is the sentinel value of constructs with no value,
/// such as a taken `if` with no `else`.
#[derive(Debug, PartialEq)]
pub enum Stmt {
    If(Box<PyType>, Vec<PyType>, Option<Vec<PyType>>),
    VarAssign(String, Box<PyType>),
    Function(String, Vec<String>, Vec<PyType>),
    NoOp,
}

/// Mathematical view of a `PyType`.
pub enum NodeV {
    Stmt(StmtV),
    Expr(ExprV),
}

pub enum ExprV {
    Int(int),
    Float(RatV),
    Bool(bool),
    Str(Seq<char>),
    Var(Seq<char>),
    Binop(Op, Box<NodeV>, Box<NodeV>),
    Not(Box<NodeV>),
    Return(Box<NodeV>),
    FunctionCall(Seq<char>, Seq<NodeV>),
}

pub enum StmtV {
    If(Box<NodeV>, Seq<NodeV>, Option<Seq<NodeV>>),
    VarAssign(Seq<char>, Box<NodeV>),
    Function(Seq<char>, Seq<Seq<char>>, Seq<NodeV>),
    NoOp,
}

/// View of the elements of a node list from position `i` on.
pub open spec fn view_nodes_from(s: Seq<PyType>, i: int) -> Seq<NodeV>
    decreases s, s.len() - i,
{
    if i < 0 || i >= s.len() {
        Seq::empty()
    } else {
        seq![s[i]@] + view_nodes_from(s, i + 1)
    }
}

/// View of a list of nodes, element by element.
pub open spec fn view_nodes(s: Seq<PyType>) -> Seq<NodeV>
    decreases s, s.len() + 1,
{
    view_nodes_from(s, 0)
}

proof fn lemma_view_nodes_from(s: Seq<PyType>, j: int)
    requires
        0 <= j <= s.len(),
    ensures
        view_nodes_from(s, j).len() == s.len() - j,
        forall|k: int| j <= k < s.len() ==> view_nodes_from(s, j)[k - j] == s[k]@,
    decreases s.len() - j,
{
    if j < s.len() {
        lemma_view_nodes_from(s, j + 1);
        assert(view_nodes_from(s, j) == seq![s[j]@] + view_nodes_from(s, j + 1));
        assert(view_nodes_from(s, j).len() == s.len() - j);
        assert forall|k: int| j <= k < s.len() implies view_nodes_from(s, j)[k - j] == s[k]@ by {
            if k > j {
                assert(view_nodes_from(s, j)[k - j] == view_nodes_from(s, j + 1)[k - j - 1]);
            }
        }
    } else {
        assert(view_nodes_from(s, j) =~= Seq::empty());
    }
}

/// A node list and its view have the same length.
pub broadcast proof fn lemma_view_nodes_len(s: Seq<PyType>)
    ensures
        #[trigger] view_nodes(s).len() == s.len(),
{
    lemma_view_nodes_from(s, 0);
}

/// The view of a node list holds the view of each node.
pub broadcast proof fn lemma_view_nodes_index(s: Seq<PyType>, i: int)
    requires
        0 <= i < s.len(),
    ensures
        #[trigger] view_nodes(s)[i] == s[i]@,
{
    lemma_view_nodes_from(s, 0);
}

impl View for PyType {
    type V = NodeV;

    open spec fn view(&self) -> NodeV
        decreases self, 0int,
    {
        match self {
            PyType::Stmt(s) => NodeV::Stmt(s@),
            PyType::Expr(e) => NodeV::Expr(e@),
        }
    }
}

impl View for Expr {
    type V = ExprV;

    open spec fn view(&self) -> ExprV
        decreases self, 0int,
    {
        match self {
            Expr::Int(n) => ExprV::Int(*n as int),
            Expr::Float(r) => ExprV::Float(r@),
            Expr::Bool(b) => ExprV::Bool(*b),
            Expr::Str(s) => ExprV::Str(s@),
            Expr::Var(s) => ExprV::Var(s@),
            Expr::Binop(op, l, r) => ExprV::Binop(*op, Box::new((**l)@), Box::new((**r)@)),
            Expr::Not(e) => ExprV::Not(Box::new((**e)@)),
            Expr::Return(e) => ExprV::Return(Box::new((**e)@)),
            Expr::FunctionCall(name, args) => ExprV::FunctionCall(name@, view_nodes(args@)),
        }
    }
}

impl View for Stmt {
    type V = StmtV;

    open spec fn view(&self) -> StmtV
        decreases self, 0int,
    {
        match self {
            Stmt::If(c, body, els) => StmtV::If(
                Box::new((**c)@),
                view_nodes(body@),
                match els {
                    Some(b) => Some(view_nodes(b@)),
                    None => None,
                },
            ),
            Stmt::VarAssign(name, e) => StmtV::VarAssign(name@, Box::new((**e)@)),
            Stmt::Function(name, params, body) => StmtV::Function(
                name@,
                params.deep_view(),
                view_nodes(body@),
            ),
            Stmt::NoOp => StmtV::NoOp,
        }
    }
}

impl DeepView for PyType {
    type V = NodeV;

    open spec fn deep_view(&self) -> NodeV {
        self@
    }
}

/// Deep copy of a list of nodes.
pub(crate) fn clone_nodes(v: &Vec<PyType>) -> (r: Vec<PyType>)
    ensures
        view_nodes(r@) == view_nodes(v@),
    decreases v,
{
    let mut out: Vec<PyType> = Vec::new();
    let mut i: usize = 0;
    while i < v.len()
        invariant
            i <= v.len(),
            out@.len() == i as int,
            forall|j: int| 0 <= j < i as int ==> out@[j]@ == v@[j]@,
        decreases v.len() - i,
    {
        proof {
            assert(decreases_to!(v => v[i as int]));
        }
        let c = v[i].clone();
        out.push(c);
        i = i + 1;
    }
    proof {
        lemma_view_nodes_len(out@);
        lemma_view_nodes_len(v@);
        assert forall|j: int| 0 <= j < v@.len() implies view_nodes(out@)[j] == view_nodes(v@)[j] by {
            lemma_view_nodes_index(out@, j);
            lemma_view_nodes_index(v@, j);
        }
        assert(view_nodes(out@) =~= view_nodes(v@));
    }
    out
}

/// Deep copy of a list of names.
fn clone_names(v: &Vec<String>) -> (r: Vec<String>)
    ensures
        r.deep_view() == v.deep_view(),
{
    let mut out: Vec<String> = Vec::new();
    let mut i: usize = 0;
    while i < v.len()
        invariant
            i <= v.len(),
            out@.len() == i as int,
            forall|j: int| 0 <= j < i as int ==> out@[j]@ == v@[j]@,
        decreases v.len() - i,
    {
        let c = v[i].clone();
        out.push(c);
        i = i + 1;
    }
    proof {
        assert(out.deep_view() =~= v.deep_view());
    }
    out
}

impl Clone for PyType {
    /// A deep copy with the same view.
    fn clone(&self) -> (r: Self)
        ensures
            r@ == self@,
        decreases self,
    {
        match self {
            PyType::Stmt(s) => PyType::Stmt(s.clone()),
            PyType::Expr(e) => PyType::Expr(e.clone()),
        }
    }
}

impl Clone for Expr {
    /// A deep copy with the same view.
    fn clone(&self) -> (r: Self)
        ensures
            r@ == self@,
        decreases self,
    {
        match self {
            Expr::Int(n) => Expr::Int(*n),
            Expr::Float(r) => Expr::Float(*r),
            Expr::Bool(b) => Expr::Bool(*b),
            Expr::Str(s) => Expr::Str(s.clone()),
            Expr::Var(s) => Expr::Var(s.clone()),
            Expr::Binop(op, l, r) => Expr::Binop(*op, Box::new((**l).clone()), Box::new((**r).clone())),
            Expr::Not(e) => Expr::Not(Box::new((**e).clone())),
            Expr::Return(e) => Expr::Return(Box::new((**e).clone())),
            Expr::FunctionCall(name, args) => Expr::FunctionCall(name.clone(), clone_nodes(args)),
        }
    }
}

impl Clone for Stmt {
    /// A deep copy with the same view.
    fn clone(&self) -> (r: Self)
        ensures
            r@ == self@,
        decreases self,
    {
        match self {
            Stmt::If(c, body, els) => Stmt::If(
                Box::new((**c).clone()),
                clone_nodes(body),
                match els {
                    Some(b) => Some(clone_nodes(b)),
                    None => None,
                },
            ),
            Stmt::VarAssign(name, e) => Stmt::VarAssign(name.clone(), Box::new((**e).clone())),
            Stmt::Function(name, params, body) => Stmt::Function(
                name.clone(),
                clone_names(params),
                clone_nodes(body),
            ),
            Stmt::NoOp => Stmt::NoOp,
        }
    }
}

/// The single shared mutable environment: an ordered list of bindings. Lookup
/// and assignment scan for the first matching name; assignment overwrites in
/// place or appends a new binding at the end.
pub type Environment = Vec<(String, PyType)>;

/// Mathematical view of an environment.
pub type EnvV = Seq<(Seq<char>, NodeV)>;

pub open spec fn env_view(env: Seq<(String, PyType)>) -> EnvV {
    Seq::new(env.len(), |i: int| (env[i].0@, env[i].1@))
}

/// The kinds of error the language surfaces, one per taxonomy entry.
#[derive(Clone, Copy, Debug, PartialEq, Eq, Structural)]
pub enum ErrorKind {
    LexError,
    SyntaxError,
    IndentationError,
    NameError,
    TypeError,
    ZeroDivisionError,
    RecursionError,
    OverflowError,
}

/// A typed error. Every variant carries the data a caller needs to render a
/// message; `kind` gives the taxonomy entry it belongs to.
#[derive(Debug, PartialEq)]
pub enum Error {
    /// Unrecognized character sequence: the unconsumed remainder of the line.
    LexError(String),
    /// The expected token, and the token found (`None`: end of tokens).
    UnexpectedToken(Token, Option<Token>),
    /// Tokens of the line were left unparsed inside a block.
    TrailingTokens,
    /// Tokens followed the `:` that opens a block on the same line.
    TokensAfterColon,
    /// The first line of a block body was not indented.
    ExpectedIndent,
    /// A dedent depth that matches no open indentation level.
    BadDedent(i32),
    /// Reference to an unbound name.
    NameError(String),
    /// Operand types an operator does not accept.
    InvalidOperands(Op),
    /// Truthiness was asked of a value with none.
    NotBoolable,
    /// An `if` condition did not reduce to a boolean.
    ConditionNotBool,
    /// A call of a name not bound to a function.
    NotCallable(String),
    /// Function name, parameter count, argument count.
    ArityMismatch(String, usize, usize),
    /// The right-hand side of an assignment was not an expression value.
    AssignedNonExpression,
    /// A `return` of a non-expression value.
    ReturnedNonExpression,
    /// An argument that did not evaluate to an expression value.
    ArgumentNonExpression,
    /// A node no evaluation rule covers (the `NoOp` sentinel).
    NotEvaluable,
    /// Division with an integer or float zero divisor.
    ZeroDivision,
    /// The evaluator's step budget was exhausted.
    RecursionLimit,
    /// Exact integer or fraction arithmetic left the machine representation.
    Overflow,
}

/// Mathematical view of an `Error`.
pub enum ErrorV {
    LexError(Seq<char>),
    UnexpectedToken(TokV, Option<TokV>),
    TrailingTokens,
    TokensAfterColon,
    ExpectedIndent,
    BadDedent(int),
    NameError(Seq<char>),
    InvalidOperands(Op),
    NotBoolable,
    ConditionNotBool,
    NotCallable(Seq<char>),
    ArityMismatch(Seq<char>, int, int),
    AssignedNonExpression,
    ReturnedNonExpression,
    ArgumentNonExpression,
    NotEvaluable,
    ZeroDivision,
    RecursionLimit,
    Overflow,
}

impl View for Error {
    type V = ErrorV;

    open spec fn view(&self) -> ErrorV {
        match self {
            Error::LexError(s) => ErrorV::LexError(s@),
            Error::UnexpectedToken(t, found) => ErrorV::UnexpectedToken(
                t@,
                match found {
                    Some(f) => Some(f@),
                    None => None,
                },
            ),
            Error::TrailingTokens => ErrorV::TrailingTokens,
            Error::TokensAfterColon => ErrorV::TokensAfterColon,
            Error::ExpectedIndent => ErrorV::ExpectedIndent,
            Error::BadDedent(n) => ErrorV::BadDedent(*n as int),
            Error::NameError(s) => ErrorV::NameError(s@),
            Error::InvalidOperands(op) => ErrorV::InvalidOperands(*op),
            Error::NotBoolable => ErrorV::NotBoolable,
            Error::ConditionNotBool => ErrorV::ConditionNotBool,
            Error::NotCallable(s) => ErrorV::NotCallable(s@),
            Error::ArityMismatch(s, e, g) => ErrorV::ArityMismatch(s@, *e as int, *g as int),
            Error::AssignedNonExpression => ErrorV::AssignedNonExpression,
            Error::ReturnedNonExpression => ErrorV::ReturnedNonExpression,
            Error::ArgumentNonExpression => ErrorV::ArgumentNonExpression,
            Error::NotEvaluable => ErrorV::NotEvaluable,
            Error::ZeroDivision => ErrorV::ZeroDivision,
            Error::RecursionLimit => ErrorV::RecursionLimit,
            Error::Overflow => ErrorV::Overflow,
        }
    }
}

/// The taxonomy entry of each error view.
pub open spec fn spec_error_kind(e: ErrorV) -> ErrorKind {
    match e {
        ErrorV::LexError(_) => ErrorKind::LexError,
        ErrorV::UnexpectedToken(_, _) => ErrorKind::SyntaxError,
        ErrorV::TrailingTokens => ErrorKind::SyntaxError,
        ErrorV::TokensAfterColon => ErrorKind::SyntaxError,
        ErrorV::ExpectedIndent => ErrorKind::IndentationError,
        ErrorV::BadDedent(_) => ErrorKind::IndentationError,
        ErrorV::NameError(_) => ErrorKind::NameError,
        ErrorV::InvalidOperands(_) => ErrorKind::TypeError,
        ErrorV::NotBoolable => ErrorKind::TypeError,
        ErrorV::ConditionNotBool => ErrorKind::TypeError,
        ErrorV::NotCallable(_) => ErrorKind::TypeError,
        ErrorV::ArityMismatch(_, _, _) => ErrorKind::TypeError,
        ErrorV::AssignedNonExpression => ErrorKind::TypeError,
        ErrorV::ReturnedNonExpression => ErrorKind::TypeError,
        ErrorV::ArgumentNonExpression => ErrorKind::TypeError,
        ErrorV::NotEvaluable => ErrorKind::SyntaxError,
        ErrorV::ZeroDivision => ErrorKind::ZeroDivisionError,
        ErrorV::RecursionLimit => ErrorKind::RecursionError,
        ErrorV::Overflow => ErrorKind::OverflowError,
    }
}

impl Error {
    /// The taxonomy entry this error belongs to.
    pub fn kind(&self) -> (k: ErrorKind)
        ensures
            k == spec_error_kind(self@),
    {
        match self {
            Error::LexError(_) => ErrorKind::LexError,
            Error::UnexpectedToken(_, _) => ErrorKind::SyntaxError,
            Error::TrailingTokens => ErrorKind::SyntaxError,
            Error::TokensAfterColon => ErrorKind::SyntaxError,
            Error::ExpectedIndent => ErrorKind::IndentationError,
            Error::BadDedent(_) => ErrorKind::IndentationError,
            Error::NameError(_) => ErrorKind::NameError,
            Error::InvalidOperands(_) => ErrorKind::TypeError,
            Error::NotBoolable => ErrorKind::TypeError,
            Error::ConditionNotBool => ErrorKind::TypeError,
            Error::NotCallable(_) => ErrorKind::TypeError,
            Error::ArityMismatch(_, _, _) => ErrorKind::TypeError,
            Error::AssignedNonExpression => ErrorKind::TypeError,
            Error::ReturnedNonExpression => ErrorKind::TypeError,
            Error::ArgumentNonExpression => ErrorKind::TypeError,
            Error::NotEvaluable => ErrorKind::SyntaxError,
            Error::ZeroDivision => ErrorKind::ZeroDivisionError,
            Error::RecursionLimit => ErrorKind::RecursionError,
            Error::Overflow => ErrorKind::OverflowError,
        }
    }
}

/// Truthiness of a value: booleans are themselves, numbers are true exactly
/// when nonzero, anything else has no truthiness.
pub open spec fn spec_to_bool(v: NodeV) -> Result<bool, ErrorV> {
    match v {
        NodeV::Expr(ExprV::Bool(b)) => Ok(b),
        NodeV::Expr(ExprV::Int(n)) => Ok(n != 0),
        NodeV::Expr(ExprV::Float(r)) => Ok(r.num != 0),
        _ => Err(ErrorV::NotBoolable),
    }
}

impl PyType {
    /// Truthiness coercion of an evaluated value.
    pub fn to_bool(&self) -> (r: Result<bool, Error>)
        ensures
            match r {
                Ok(b) => spec_to_bool(self@) == Ok::<bool, ErrorV>(b),
                Err(e) => spec_to_bool(self@) == Err::<bool, ErrorV>(e@),
            },
    {
        match self {
            PyType::Expr(Expr::Bool(b)) => Ok(*b),
            PyType::Expr(Expr::Int(n)) => Ok(*n != 0),
            PyType::Expr(Expr::Float(r)) => Ok(r.is_zero() == false),
            _ => Err(Error::NotBoolable),
        }
    }
}

} // verus!
