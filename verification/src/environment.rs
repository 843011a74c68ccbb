//! Run-time values and the chain of lexical scopes that holds them.

use crate::ast::{Statement, StatementView, copy_names, copy_statements, names_view, stmts_view};
use vstd::prelude::*;
use vstd::string::*;

verus! {

/// A function as a value: the names of its parameters and its body.
#[derive(Debug, PartialEq)]
pub struct FunctionExpression {
    pub parameters: Vec<String>,
    pub body: Vec<Statement>,
}

impl FunctionExpression {
    pub fn new(parameters: Vec<String>, body: Vec<Statement>) -> (f: Self)
        ensures
            f.parameters == parameters,
            f.body == body,
    {
        Self { parameters, body }
    }
}

impl Clone for FunctionExpression {
    fn clone(&self) -> (r: Self)
        ensures
            names_view(r.parameters@) == names_view(self.parameters@),
            stmts_view(r.body@) == stmts_view(self.body@),
    {
        Self { parameters: copy_names(&self.parameters), body: copy_statements(&self.body) }
    }
}

/// A value at run time. Numbers are whole numbers of 64 signed bits.
#[derive(Debug, PartialEq)]
pub enum Value {
    Number(i64),
    String(String),
    Boolean(bool),
    Null,
    Function(Box<FunctionExpression>),
}

pub enum ValueView {
    Number(int),
    String(Seq<char>),
    Boolean(bool),
    Null,
    Function { parameters: Seq<Seq<char>>, body: Seq<StatementView> },
}

impl View for Value {
    type V = ValueView;

    open spec fn view(&self) -> ValueView {
        match self {
            Value::Number(n) => ValueView::Number(*n as int),
            Value::String(s) => ValueView::String(s@),
            Value::Boolean(b) => ValueView::Boolean(*b),
            Value::Null => ValueView::Null,
            Value::Function(f) => ValueView::Function {
                parameters: names_view(f.parameters@),
                body: stmts_view(f.body@),
            },
        }
    }
}

impl Clone for Value {
    fn clone(&self) -> (r: Self)
        ensures
            r@ == self@,
    {
        match self {
            Value::Number(n) => Value::Number(*n),
            Value::String(s) => Value::String(s.clone()),
            Value::Boolean(b) => Value::Boolean(*b),
            Value::Null => Value::Null,
            Value::Function(f) => Value::Function(
                Box::new(
                    FunctionExpression::new(copy_names(&f.parameters), copy_statements(&f.body)),
                ),
            ),
        }
    }
}

/// The character of a decimal digit.
pub open spec fn digit_char(d: nat) -> char {
    if d == 0 {
        '0'
    } else if d == 1 {
        '1'
    } else if d == 2 {
        '2'
    } else if d == 3 {
        '3'
    } else if d == 4 {
        '4'
    } else if d == 5 {
        '5'
    } else if d == 6 {
        '6'
    } else if d == 7 {
        '7'
    } else if d == 8 {
        '8'
    } else {
        '9'
    }
}

/// The decimal digits of `m`, without leading zeros.
pub open spec fn digits_text(m: nat) -> Seq<char>
    decreases m,
{
    if m < 10 {
        seq![digit_char(m)]
    } else {
        digits_text(m / 10).push(digit_char(m % 10))
    }
}

/// A whole number in decimal, with `-` before a negative one.
pub open spec fn number_text(n: int) -> Seq<char> {
    if n < 0 {
        seq!['-'] + digits_text((-n) as nat)
    } else {
        digits_text(n as nat)
    }
}

/// A value as text: a number in decimal, a string between double quotes,
/// `true`, `false`, `null`, and `[Function]` for every function.
pub open spec fn value_text(v: ValueView) -> Seq<char> {
    match v {
        ValueView::Number(n) => number_text(n),
        ValueView::String(s) => seq!['"'] + s + seq!['"'],
        ValueView::Boolean(b) => if b {
            "true"@
        } else {
            "false"@
        },
        ValueView::Null => "null"@,
        ValueView::Function { .. } => "[Function]"@,
    }
}

/// One decimal digit as text.
pub fn digit_text(d: u64) -> (text: &'static str)
    requires
        d < 10,
    ensures
        text@ == seq![digit_char(d as nat)],
{
    proof {
        reveal_strlit("0");
        reveal_strlit("1");
        reveal_strlit("2");
        reveal_strlit("3");
        reveal_strlit("4");
        reveal_strlit("5");
        reveal_strlit("6");
        reveal_strlit("7");
        reveal_strlit("8");
        reveal_strlit("9");
    }
    let text = if d == 0 {
        "0"
    } else if d == 1 {
        "1"
    } else if d == 2 {
        "2"
    } else if d == 3 {
        "3"
    } else if d == 4 {
        "4"
    } else if d == 5 {
        "5"
    } else if d == 6 {
        "6"
    } else if d == 7 {
        "7"
    } else if d == 8 {
        "8"
    } else {
        "9"
    };
    assert(text@ =~= seq![digit_char(d as nat)]);
    text
}

/// The decimal digits of `m` as text.
pub fn digits_to_text(m: u64) -> (text: String)
    ensures
        text@ == digits_text(m as nat),
    decreases m,
{
    if m < 10 {
        String::from_str(digit_text(m))
    } else {
        let mut text = digits_to_text(m / 10);
        text.append(digit_text(m % 10));
        assert(text@ =~= digits_text(m as nat));
        text
    }
}

impl Value {
    /// The value as text.
    pub fn to_text(&self) -> (text: String)
        ensures
            text@ == value_text(self@),
    {
        match self {
            Value::Number(n) => {
                if *n < 0 {
                    let magnitude: u64 = (-(*n + 1)) as u64 + 1;
                    let mut text = String::from_str("-");
                    proof {
                        reveal_strlit("-");
                    }
                    let digits = digits_to_text(magnitude);
                    text.append(digits.as_str());
                    assert(text@ =~= number_text(*n as int));
                    text
                } else {
                    digits_to_text(*n as u64)
                }
            },
            Value::String(s) => {
                proof {
                    reveal_strlit("\"");
                }
                let mut text = String::from_str("\"");
                text.append(s.as_str());
                text.append("\"");
                assert(text@ =~= seq!['"'] + s@ + seq!['"']);
                text
            },
            Value::Boolean(b) => {
                if *b {
                    String::from_str("true")
                } else {
                    String::from_str("false")
                }
            },
            Value::Null => String::from_str("null"),
            Value::Function(_) => String::from_str("[Function]"),
        }
    }
}

/// One scope: the values of the names it defines.
pub type Scope = Map<Seq<char>, ValueView>;

/// The value that a list of definitions gives `name`: that of the last
/// definition of it.
pub open spec fn find(entries: Seq<(String, Value)>, name: Seq<char>) -> Option<ValueView>
    decreases entries.len(),
{
    if entries.len() == 0 {
        None
    } else if entries.last().0@ == name {
        Some(entries.last().1@)
    } else {
        find(entries.drop_last(), name)
    }
}

/// The scope that a list of definitions stands for.
pub open spec fn scope_of(entries: Seq<(String, Value)>) -> Scope {
    Map::new(|k: Seq<char>| find(entries, k) is Some, |k: Seq<char>| find(entries, k)->0)
}

/// The value of `name` in a chain of scopes, the innermost last: that in
/// the innermost scope that defines it.
pub open spec fn lookup(scopes: Seq<Scope>, name: Seq<char>) -> Option<ValueView>
    decreases scopes.len(),
{
    if scopes.len() == 0 {
        None
    } else if scopes.last().contains_key(name) {
        Some(scopes.last()[name])
    } else {
        lookup(scopes.drop_last(), name)
    }
}

/// The chain with `name` defined as `value` in its innermost scope.
pub open spec fn define_in(scopes: Seq<Scope>, name: Seq<char>, value: ValueView) -> Seq<Scope> {
    scopes.update(scopes.len() - 1, scopes.last().insert(name, value))
}

/// The chain with `name` set to `value` in the innermost scope that defines
/// it; nothing where no scope does.
pub open spec fn assign_in(scopes: Seq<Scope>, name: Seq<char>, value: ValueView) -> Option<
    Seq<Scope>,
>
    decreases scopes.len(),
{
    if scopes.len() == 0 {
        None
    } else if scopes.last().contains_key(name) {
        Some(define_in(scopes, name, value))
    } else {
        match assign_in(scopes.drop_last(), name, value) {
            Some(outer) => Some(outer.push(scopes.last())),
            None => None,
        }
    }
}

/// Why an assignment failed.
#[derive(Debug, PartialEq, Eq, Structural, Clone, Copy)]
pub enum EnvironmentError {
    /// No scope defines the name.
    UndefinedName,
}

/// A lexical scope with the scope that encloses it.
#[derive(Debug)]
pub struct Environment {
    values: Vec<(String, Value)>,
    pub parent: Option<Box<Environment>>,
}

impl Environment {
    /// The innermost scope.
    pub closed spec fn local(&self) -> Scope {
        scope_of(self.values@)
    }

    /// The chain of scopes, the outermost first.
    pub closed spec fn scopes(&self) -> Seq<Scope>
        decreases self,
    {
        match self.parent {
            None => seq![self.local()],
            Some(parent) => parent.scopes().push(self.local()),
        }
    }

    pub fn new() -> (env: Self)
        ensures
            env.scopes() == seq![Map::<Seq<char>, ValueView>::empty()],
    {
        let env = Self { values: Vec::new(), parent: None };
        assert(env.local() =~= Map::<Seq<char>, ValueView>::empty());
        env
    }

    pub fn with_parent(parent: Environment) -> (env: Self)
        ensures
            env.scopes() == parent.scopes().push(Map::<Seq<char>, ValueView>::empty()),
    {
        let env = Self { values: Vec::new(), parent: Some(Box::new(parent)) };
        assert(env.local() =~= Map::<Seq<char>, ValueView>::empty());
        env
    }

    /// Defines `name` in the innermost scope, over any earlier definition
    /// there.
    pub fn define(&mut self, name: String, value: Value)
        ensures
            final(self).scopes() == define_in(old(self).scopes(), name@, value@),
    {
        let ghost before = self.values@;
        self.values.push((name, value));
        proof {
            assert(self.values@.drop_last() =~= before);
            assert(self.local() =~= old(self).local().insert(name@, value@));
            assert(self.scopes() =~= define_in(old(self).scopes(), name@, value@));
        }
    }

    /// The last scope of the chain is the innermost one.
    proof fn lemma_innermost_is_local(&self)
        ensures
            self.scopes().len() >= 1,
            self.scopes().last() == self.local(),
    {
    }

    /// A chain holds at least one scope.
    pub proof fn lemma_scopes_nonempty(&self)
        ensures
            self.scopes().len() >= 1,
    {
    }

    /// Opens a new innermost scope.
    pub fn push_scope(&mut self)
        ensures
            final(self).scopes() == old(self).scopes().push(Map::<Seq<char>, ValueView>::empty()),
    {
        let mut outer = Environment::new();
        core::mem::swap(self, &mut outer);
        *self = Environment::with_parent(outer);
    }

    /// Drops the innermost scope, with all that it defines.
    pub fn pop_scope(&mut self)
        requires
            old(self).scopes().len() > 1,
        ensures
            final(self).scopes() == old(self).scopes().drop_last(),
    {
        let parent = self.parent.take();
        match parent {
            Some(outer) => {
                assert(old(self).scopes().drop_last() =~= outer.scopes());
                *self = *outer;
            },
            None => {},
        }
    }

    /// Tells whether the innermost scope defines `name`.
    pub fn defines(&self, name: &String) -> (b: bool)
        ensures
            b == self.scopes().last().contains_key(name@),
    {
        let mut i: usize = self.values.len();
        assert(self.values@.subrange(0, i as int) =~= self.values@);
        while i > 0
            invariant
                i <= self.values.len(),
                find(self.values@, name@) == find(self.values@.subrange(0, i as int), name@),
            decreases i,
        {
            i -= 1;
            assert(self.values@.subrange(0, i + 1).drop_last() =~= self.values@.subrange(
                0,
                i as int,
            ));
            if self.values[i].0.eq(name) {
                return true;
            }
        }
        false
    }

    /// Sets `name` to `value` in the innermost scope that defines it. Where
    /// no scope does, nothing changes.
    pub fn assign(&mut self, name: String, value: Value) -> (r: Result<(), EnvironmentError>)
        ensures
            match r {
                Ok(()) => assign_in(old(self).scopes(), name@, value@) == Some(final(self).scopes()),
                Err(_) => assign_in(old(self).scopes(), name@, value@) == None::<Seq<Scope>>
                    && final(self).scopes() == old(self).scopes(),
            },
        decreases old(self).scopes().len(),
    {
        if self.defines(&name) {
            self.define(name, value);
            return Ok(());
        }
        let ghost local = self.local();
        let parent = self.parent.take();
        match parent {
            Some(mut outer) => {
                assert(old(self).scopes().drop_last() =~= outer.scopes());
                let r = outer.assign(name, value);
                self.parent = Some(outer);
                r
            },
            None => {
                assert(old(self).scopes().drop_last() =~= Seq::<Scope>::empty());
                Err(EnvironmentError::UndefinedName)
            },
        }
    }

    /// A copy of the value of `name` in the innermost scope that defines it.
    pub fn get(&self, name: &String) -> (r: Option<Value>)
        ensures
            match r {
                Some(v) => lookup(self.scopes(), name@) == Some(v@),
                None => lookup(self.scopes(), name@) == None::<ValueView>,
            },
        decreases self,
    {
        proof {
            self.lemma_innermost_is_local();
        }
        let mut i: usize = self.values.len();
        assert(self.values@.subrange(0, i as int) =~= self.values@);
        while i > 0
            invariant
                i <= self.values.len(),
                find(self.values@, name@) == find(self.values@.subrange(0, i as int), name@),
            decreases i,
        {
            i -= 1;
            assert(self.values@.subrange(0, i + 1).drop_last() =~= self.values@.subrange(
                0,
                i as int,
            ));
            if self.values[i].0.eq(name) {
                let found = self.values[i].1.clone();
                assert(find(self.values@, name@) == Some(found@));
                assert(self.local().contains_key(name@) && self.local()[name@] == found@);
                return Some(found);
            }
        }
        assert(find(self.values@, name@) is None);
        assert(!self.local().contains_key(name@));
        match &self.parent {
            Some(parent) => {
                assert(self.scopes().drop_last() =~= parent.scopes());
                parent.get(name)
            },
            None => {
                assert(self.scopes().drop_last() =~= Seq::<Scope>::empty());
                None
            },
        }
    }
}

} // verus!
