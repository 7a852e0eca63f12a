use vstd::prelude::*;

use crate::environment::FunctionKind;
use crate::IntegerType;

verus! {

broadcast use vstd::std_specs::vec::group_vec_axioms;

/// The arithmetic operators.
#[derive(Debug, Clone, Copy, PartialEq, Eq, Structural)]
pub enum BinaryExprKind {
    Add,
    Sub,
    Mul,
    Div,
}

/// The comparison operators.
#[derive(Debug, Clone, Copy, PartialEq, Eq, Structural)]
pub enum ComparisonExprKind {
    Eq,
    Ne,
    Lt,
    Le,
    Gt,
    Ge,
}

/// An expression tree.
#[derive(Debug, PartialEq, Eq)]
pub enum Node {
    BinaryExpr { kind: BinaryExprKind, lhs: Box<Node>, rhs: Box<Node> },
    ComparisonExpr { kind: ComparisonExprKind, lhs: Box<Node>, rhs: Box<Node> },
    Integer(IntegerType),
    /// A name used as a call with no operand.
    NullaryCommand(String),
    /// A name followed by its one operand.
    PrefixCommand { name: String, rhs: Box<Node> },
    /// An operand, a name, an operand.
    InfixCommand { name: String, lhs: Box<Node>, rhs: Box<Node> },
    /// An operand followed by a name.
    PostfixCommand { name: String, lhs: Box<Node> },
    /// A name with a parenthesised argument list of zero, two or more arguments.
    FunctionCall { name: String, parameters: Vec<Box<Node>> },
}

/// The mathematical value of an expression tree.
pub enum Expr {
    Binary(BinaryExprKind, Box<Expr>, Box<Expr>),
    Comparison(ComparisonExprKind, Box<Expr>, Box<Expr>),
    Integer(int),
    Nullary(Seq<char>),
    Prefix(Seq<char>, Box<Expr>),
    Infix(Seq<char>, Box<Expr>, Box<Expr>),
    Postfix(Seq<char>, Box<Expr>),
    Call(Seq<char>, Seq<Expr>),
}

impl View for Node {
    type V = Expr;

    open spec fn view(&self) -> Expr
        decreases self,
    {
        match self {
            Node::BinaryExpr { kind, lhs, rhs } => Expr::Binary(
                *kind,
                Box::new((**lhs).view()),
                Box::new((**rhs).view()),
            ),
            Node::ComparisonExpr { kind, lhs, rhs } => Expr::Comparison(
                *kind,
                Box::new((**lhs).view()),
                Box::new((**rhs).view()),
            ),
            Node::Integer(v) => Expr::Integer(*v as int),
            Node::NullaryCommand(name) => Expr::Nullary(name@),
            Node::PrefixCommand { name, rhs } => Expr::Prefix(name@, Box::new((**rhs).view())),
            Node::InfixCommand { name, lhs, rhs } => Expr::Infix(
                name@,
                Box::new((**lhs).view()),
                Box::new((**rhs).view()),
            ),
            Node::PostfixCommand { name, lhs } => Expr::Postfix(name@, Box::new((**lhs).view())),
            Node::FunctionCall { name, parameters } => Expr::Call(
                name@,
                Seq::new(
                    parameters.len() as nat,
                    |i: int|
                        {
                            if 0 <= i < parameters.len() {
                                (*parameters[i]).view()
                            } else {
                                Expr::Integer(0)
                            }
                        },
                ),
            ),
        }
    }
}

impl Node {
    /// A deep copy of the tree.
    pub fn duplicate(&self) -> (r: Node)
        ensures
            r@ == self@,
        decreases self,
    {
        match self {
            Node::BinaryExpr { kind, lhs, rhs } => Node::BinaryExpr {
                kind: *kind,
                lhs: Box::new(lhs.duplicate()),
                rhs: Box::new(rhs.duplicate()),
            },
            Node::ComparisonExpr { kind, lhs, rhs } => Node::ComparisonExpr {
                kind: *kind,
                lhs: Box::new(lhs.duplicate()),
                rhs: Box::new(rhs.duplicate()),
            },
            Node::Integer(v) => Node::Integer(*v),
            Node::NullaryCommand(name) => Node::NullaryCommand(name.clone()),
            Node::PrefixCommand { name, rhs } => Node::PrefixCommand {
                name: name.clone(),
                rhs: Box::new(rhs.duplicate()),
            },
            Node::InfixCommand { name, lhs, rhs } => Node::InfixCommand {
                name: name.clone(),
                lhs: Box::new(lhs.duplicate()),
                rhs: Box::new(rhs.duplicate()),
            },
            Node::PostfixCommand { name, lhs } => Node::PostfixCommand {
                name: name.clone(),
                lhs: Box::new(lhs.duplicate()),
            },
            Node::FunctionCall { name, parameters } => {
                let ps = duplicate_all(parameters);
                let r = Node::FunctionCall { name: name.clone(), parameters: ps };
                assert(r@ == self@) by {
                    if let Expr::Call(_, a) = r@ {
                        if let Expr::Call(_, b) = self@ {
                            assert(a =~= b);
                        }
                    }
                }
                r
            },
        }
    }
}

/// The views of a list of trees.
pub open spec fn views(ns: Seq<Box<Node>>) -> Seq<Expr> {
    Seq::new(ns.len(), |i: int| (*ns[i])@)
}

/// A deep copy of a list of trees.
pub fn duplicate_all(ns: &Vec<Box<Node>>) -> (r: Vec<Box<Node>>)
    ensures
        views(r@) == views(ns@),
        r@.len() == ns@.len(),
        forall|i: int| 0 <= i < ns@.len() ==> (*r@[i])@ == (*ns@[i])@,
    decreases ns,
{
    let mut out: Vec<Box<Node>> = Vec::new();
    let mut i: usize = 0;
    while i < ns.len()
        invariant
            i <= ns@.len(),
            out@.len() == i,
            forall|j: int| 0 <= j < i ==> (*out@[j])@ == (*ns@[j])@,
        decreases ns@.len() - i,
    {
        proof {
            assert(decreases_to!(*ns => ns@[i as int]));
        }
        out.push(Box::new(ns[i].duplicate()));
        i = i + 1;
    }
    assert(views(out@) =~= views(ns@));
    out
}

} // verus!

verus! {

/// What a command definition is, mathematically.
pub struct Def {
    pub name: Seq<char>,
    pub kind: FunctionKind,
    pub params: Seq<Seq<char>>,
    pub body: Expr,
}

/// The texts of a list of strings.
pub open spec fn texts(ss: Seq<String>) -> Seq<Seq<char>> {
    Seq::new(ss.len(), |i: int| ss[i]@)
}

/// A user command: its name, calling shape, parameter names and body.
pub struct CommandDefinition {
    name: String,
    kind: FunctionKind,
    parameters: Vec<String>,
    expr: Box<Node>,
}

impl View for CommandDefinition {
    type V = Def;

    closed spec fn view(&self) -> Def {
        Def { name: self.name@, kind: self.kind, params: texts(self.parameters@), body: (*self.expr)@ }
    }
}

impl CommandDefinition {
    pub fn new(name: String, kind: FunctionKind, parameters: Vec<String>, expr: Box<Node>) -> (r:
        Self)
        ensures
            r@ == (Def { name: name@, kind, params: texts(parameters@), body: (*expr)@ }),
    {
        Self { name, kind, parameters, expr }
    }

    pub fn name(&self) -> (r: &str)
        ensures
            r@ == self@.name,
    {
        self.name.as_str()
    }

    pub fn kind(&self) -> (r: FunctionKind)
        ensures
            r == self@.kind,
    {
        self.kind
    }

    pub fn parameters(&self) -> (r: &Vec<String>)
        ensures
            texts(r@) == self@.params,
    {
        &self.parameters
    }

    pub fn expr(&self) -> (r: &Node)
        ensures
            r@ == self@.body,
    {
        &self.expr
    }
}

/// A sequence of command definitions, in the order they were written.
pub struct Program {
    defs: Vec<CommandDefinition>,
}

impl View for Program {
    type V = Seq<Def>;

    closed spec fn view(&self) -> Seq<Def> {
        Seq::new(self.defs@.len(), |i: int| self.defs@[i]@)
    }
}

impl Default for Program {
    fn default() -> (r: Self)
        ensures
            r@ == Seq::<Def>::empty(),
    {
        Program::new()
    }
}

impl Program {
    pub fn new() -> (r: Self)
        ensures
            r@ == Seq::<Def>::empty(),
    {
        let r = Program { defs: Vec::new() };
        assert(r@ =~= Seq::<Def>::empty());
        r
    }

    pub fn push(&mut self, def: CommandDefinition)
        ensures
            final(self)@ == old(self)@.push(def@),
    {
        self.defs.push(def);
        assert(self@ =~= old(self)@.push(def@));
    }

    pub fn defs(&self) -> (r: &Vec<CommandDefinition>)
        ensures
            r@.len() == self@.len(),
            forall|i: int| 0 <= i < r@.len() ==> #[trigger] r@[i]@ == self@[i],
    {
        &self.defs
    }
}

} // verus!
