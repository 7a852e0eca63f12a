use vstd::prelude::*;

use crate::ast::{texts, CommandDefinition, Def, Expr, Node, Program};

verus! {

/// The four calling shapes of a command.
#[derive(Debug, Clone, Copy, PartialEq, Eq, Hash, Structural)]
pub enum FunctionKind {
    /// No operand: `CCB`.
    Nullary,
    /// The name before its operand: `d6`.
    Prefix,
    /// The name between two operands: `1D6`.
    Infix,
    /// The name after its operand: `2d`.
    Postfix,
}

/// The key of a command binding: its name and its calling shape.
#[derive(Debug, Clone, PartialEq, Eq, Hash)]
pub struct FunctionForm {
    name: String,
    kind: FunctionKind,
}

/// What a binding key is, mathematically.
pub struct Form {
    pub name: Seq<char>,
    pub kind: FunctionKind,
}

impl View for FunctionForm {
    type V = Form;

    closed spec fn view(&self) -> Form {
        Form { name: self.name@, kind: self.kind }
    }
}

impl FunctionForm {
    pub fn new(name: String, kind: FunctionKind) -> (r: Self)
        ensures
            r@ == (Form { name: name@, kind }),
    {
        Self { name, kind }
    }

    pub fn name(&self) -> (r: &str)
        ensures
            r@ == self@.name,
    {
        self.name.as_str()
    }

    pub fn kind(&self) -> (r: &FunctionKind)
        ensures
            *r == self@.kind,
    {
        &self.kind
    }

    /// A copy of the key.
    pub fn duplicate(&self) -> (r: Self)
        ensures
            r@ == self@,
    {
        FunctionForm { name: self.name.clone(), kind: self.kind }
    }
}

/// What a bound command is, mathematically: its parameter names and body.
pub struct Command {
    pub params: Seq<Seq<char>>,
    pub body: Expr,
}

/// A bound command: a body and the names of its parameters, in order.
pub struct Function {
    node: Box<Node>,
    parameters: Vec<String>,
}

impl View for Function {
    type V = Command;

    closed spec fn view(&self) -> Command {
        Command { params: texts(self.parameters@), body: (*self.node)@ }
    }
}

/// A copy of a list of strings.
fn copy_strings(ss: &Vec<String>) -> (r: Vec<String>)
    ensures
        texts(r@) == texts(ss@),
{
    let mut out: Vec<String> = Vec::new();
    let mut i: usize = 0;
    while i < ss.len()
        invariant
            i <= ss@.len(),
            out@.len() == i,
            forall|j: int| 0 <= j < i ==> out@[j]@ == ss@[j]@,
        decreases ss@.len() - i,
    {
        out.push(ss[i].clone());
        i = i + 1;
    }
    assert(texts(out@) =~= texts(ss@));
    out
}

impl Function {
    pub fn new(node: Box<Node>, parameters: Vec<String>) -> (r: Self)
        ensures
            r@ == (Command { params: texts(parameters@), body: (*node)@ }),
    {
        Self { node, parameters }
    }

    pub fn node(&self) -> (r: &Node)
        ensures
            r@ == self@.body,
    {
        &self.node
    }

    pub fn parameters(&self) -> (r: &Vec<String>)
        ensures
            texts(r@) == self@.params,
    {
        &self.parameters
    }

    /// A deep copy of the command.
    pub fn duplicate(&self) -> (r: Self)
        ensures
            r@ == self@,
    {
        Function { node: Box::new(self.node.duplicate()), parameters: copy_strings(&self.parameters) }
    }
}

/// The binding key of a parameter name: a command of no operand.
pub open spec fn param_form(name: Seq<char>) -> Form {
    Form { name, kind: FunctionKind::Nullary }
}

/// The meaning of a list of bindings: a later binding of a key hides the
/// earlier ones.
pub open spec fn bindings_map(s: Seq<(Form, Command)>) -> Map<Form, Command>
    decreases s.len(),
{
    if s.len() == 0 {
        Map::empty()
    } else {
        bindings_map(s.drop_last()).insert(s.last().0, s.last().1)
    }
}

/// A key that none of the bindings from `i` on has is bound as in the first `i`.
pub proof fn lemma_bindings_map_prefix(s: Seq<(Form, Command)>, i: int, k: Form)
    requires
        0 <= i <= s.len(),
        forall|j: int| i <= j < s.len() ==> (#[trigger] s[j]).0 != k,
    ensures
        bindings_map(s).contains_key(k) == bindings_map(s.take(i)).contains_key(k),
        bindings_map(s).contains_key(k) ==> bindings_map(s)[k] == bindings_map(s.take(i))[k],
    decreases s.len() - i,
{
    if i < s.len() {
        assert(s.take(i + 1).drop_last() =~= s.take(i));
        lemma_bindings_map_prefix(s.drop_last(), i, k);
        assert(s.drop_last().take(i) =~= s.take(i));
        if i + 1 < s.len() {
            assert(s.drop_last().take(i + 1) =~= s.take(i + 1));
        }
    } else {
        assert(s.take(i) =~= s);
    }
}

/// The key under which a definition binds its command.
pub open spec fn def_form(d: Def) -> Form {
    Form { name: d.name, kind: d.kind }
}

/// The command that a definition binds.
pub open spec fn def_command(d: Def) -> Command {
    Command { params: d.params, body: d.body }
}

/// `env` after binding each definition in turn; a later one hides an earlier
/// one of the same key.
pub open spec fn define_all(env: Map<Form, Command>, defs: Seq<Def>) -> Map<Form, Command>
    decreases defs.len(),
{
    if defs.len() == 0 {
        env
    } else {
        define_all(env, defs.drop_last()).insert(def_form(defs.last()), def_command(defs.last()))
    }
}

/// The environment: the commands bound under each key.
pub struct Environment {
    store: Vec<(FunctionForm, Function)>,
}

impl Environment {
    /// The bindings, in the order they were made.
    pub closed spec fn bindings(&self) -> Seq<(Form, Command)> {
        Seq::new(self.store@.len(), |i: int| (self.store@[i].0@, self.store@[i].1@))
    }
}

impl View for Environment {
    type V = Map<Form, Command>;

    open spec fn view(&self) -> Map<Form, Command> {
        bindings_map(self.bindings())
    }
}

fn same_form(a: &FunctionForm, b: &FunctionForm) -> (r: bool)
    ensures
        r == (a@ == b@),
{
    a.name == b.name && a.kind == b.kind
}

impl Environment {
    pub fn new() -> (r: Self)
        ensures
            r@ == Map::<Form, Command>::empty(),
    {
        let r = Self { store: Vec::new() };
        assert(r.bindings() =~= Seq::<(Form, Command)>::empty());
        r
    }

    /// The command bound under a key.
    pub fn get(&self, key: &FunctionForm) -> (r: Option<&Function>)
        ensures
            r is None ==> !self@.contains_key(key@),
            r matches Some(f) ==> self@.contains_key(key@) && f@ == self@[key@],
    {
        let ghost s = self.bindings();
        let mut i = self.store.len();
        while i > 0
            invariant
                s == self.bindings(),
                i <= self.store@.len(),
                forall|j: int| i <= j < s.len() ==> (#[trigger] s[j]).0 != key@,
            decreases i,
        {
            let entry = &self.store[i - 1];
            if same_form(&entry.0, key) {
                proof {
                    lemma_bindings_map_prefix(s, i as int, key@);
                    assert(s.take(i as int).drop_last() =~= s.take(i - 1));
                }
                return Some(&entry.1);
            }
            i = i - 1;
        }
        proof {
            lemma_bindings_map_prefix(s, 0, key@);
        }
        None
    }

    /// Binds `value` under `key`, and returns what was bound there before.
    pub fn insert(&mut self, key: FunctionForm, value: Function) -> (r: Option<Function>)
        ensures
            final(self)@ == old(self)@.insert(key@, value@),
            r is None ==> !old(self)@.contains_key(key@),
            r matches Some(f) ==> old(self)@.contains_key(key@) && f@ == old(self)@[key@],
    {
        let previous = match self.get(&key) {
            Some(f) => Some(f.duplicate()),
            None => None,
        };
        let ghost s = self.bindings();
        let ghost b = (key@, value@);
        self.store.push((key, value));
        assert(self.bindings().drop_last() =~= s);
        assert(self.bindings().last() == b);
        previous
    }

    /// Binds the command of a definition under its name and calling shape.
    pub fn define(&mut self, def: &CommandDefinition)
        ensures
            final(self)@ == old(self)@.insert(def_form(def@), def_command(def@)),
    {
        let key = FunctionForm::new(def.name().to_owned(), def.kind());
        let params = copy_strings(def.parameters());
        let value = Function::new(Box::new(def.expr().duplicate()), params);
        self.insert(key, value);
    }

    /// Binds the commands of all the definitions of a program, in order.
    pub fn define_program(&mut self, program: &Program)
        ensures
            final(self)@ == define_all(old(self)@, program@),
    {
        let defs = program.defs();
        let mut i: usize = 0;
        while i < defs.len()
            invariant
                defs@.len() == program@.len(),
                forall|j: int| 0 <= j < defs@.len() ==> #[trigger] defs@[j]@ == program@[j],
                i <= defs@.len(),
                self@ == define_all(old(self)@, program@.take(i as int)),
            decreases defs@.len() - i,
        {
            self.define(&defs[i]);
            assert(program@.take(i + 1).drop_last() =~= program@.take(i as int));
            i = i + 1;
        }
        assert(program@.take(i as int) =~= program@);
    }

    /// A copy of the environment, with the same bindings.
    pub fn duplicate(&self) -> (r: Self)
        ensures
            r@ == self@,
    {
        let mut store: Vec<(FunctionForm, Function)> = Vec::new();
        let mut i: usize = 0;
        while i < self.store.len()
            invariant
                i <= self.store@.len(),
                store@.len() == i,
                forall|j: int|
                    0 <= j < i ==> (#[trigger] store@[j]).0@ == self.store@[j].0@ && store@[j].1@
                        == self.store@[j].1@,
            decreases self.store@.len() - i,
        {
            let entry = &self.store[i];
            store.push((entry.0.duplicate(), entry.1.duplicate()));
            i = i + 1;
        }
        let r = Environment { store };
        assert(r.bindings() =~= self.bindings());
        r
    }
}

} // verus!
