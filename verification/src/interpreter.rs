//! The interpreter: evaluates the statements of a program in order against
//! one flat table of variables.
//!
//! What an evaluation returns and how it changes the table is stated by
//! [`eval`] for one node and by [`run`] for a program.

use crate::ast::{views, ASTNode, SpecNode};
use crate::token::{SpecToken, Token};
use crate::types::{
    arithmetic, outcome, Evaluated, Operation, RuntimeError, RuntimeFault, RuspyType, Value,
};
use vstd::prelude::*;

verus! {

/// What an interpreter holds: the value of each variable that has been
/// assigned, and the values that have been printed, oldest first.
pub struct State {
    pub variables: Map<Seq<char>, Value>,
    pub printed: Seq<Value>,
}

impl State {
    /// The state before anything has run.
    pub open spec fn initial() -> State {
        State { variables: Map::empty(), printed: Seq::empty() }
    }

    /// This state with `name` bound to `value`, whatever it was bound to.
    pub open spec fn bind(self, name: Seq<char>, value: Value) -> State {
        State { variables: self.variables.insert(name, value), printed: self.printed }
    }

    /// This state with `value` printed last.
    pub open spec fn print(self, value: Value) -> State {
        State { variables: self.variables, printed: self.printed.push(value) }
    }
}

/// What an evaluation yields: a value or the first error, and the state in
/// which it ended.
pub struct Step {
    pub result: Evaluated,
    pub state: State,
}

/// The operator that a token stands for, if it is one of the four.
pub open spec fn operation_of(op: SpecToken) -> Option<Operation> {
    match op {
        SpecToken::Plus => Some(Operation::Add),
        SpecToken::Minus => Some(Operation::Sub),
        SpecToken::Asterisk => Some(Operation::Mul),
        SpecToken::Slash => Some(Operation::Div),
        _ => None,
    }
}

/// The result of storing `value` in a slot declared with the kind of
/// `declared`.
pub open spec fn check_declared(declared: Value, value: Value) -> Result<(), RuntimeFault> {
    if declared.tag().accepts(value.tag()) {
        Ok(())
    } else {
        Err(RuntimeFault::TypeMismatch { declared: declared.tag(), found: value.tag() })
    }
}

/// The evaluation of one node in the state `st`.
///
/// - An integer literal is a 64-bit integer, a string literal a string.
/// - An identifier is the value of its variable, which must have been
///   assigned.
/// - A binary operation evaluates its left operand, then its right one, then
///   applies the operator. The first error ends it.
/// - An assignment evaluates its expression, binds the name to the value and
///   yields the value. With a declared type the value must be of a kind that
///   the declared kind accepts, else nothing is bound.
/// - A print statement evaluates its expression, prints the value and
///   yields it.
pub open spec fn eval(node: SpecNode, st: State) -> Step
    decreases node,
{
    match node {
        SpecNode::Number(value) => Step { result: Ok(Value::Int64(value)), state: st },
        SpecNode::StringLiteral(text) => Step { result: Ok(Value::Str(text)), state: st },
        SpecNode::Identifier(name) => if st.variables.contains_key(name) {
            Step { result: Ok(st.variables[name]), state: st }
        } else {
            Step { result: Err(RuntimeFault::UndefinedVariable(name)), state: st }
        },
        SpecNode::BinaryOp(left, op, right) => {
            let first = eval(*left, st);
            match first.result {
                Err(_) => first,
                Ok(a) => {
                    let second = eval(*right, first.state);
                    match second.result {
                        Err(_) => second,
                        Ok(b) => match operation_of(op) {
                            Some(operation) => Step {
                                result: arithmetic(operation, a, b),
                                state: second.state,
                            },
                            None => Step {
                                result: Err(RuntimeFault::UnexpectedOperator),
                                state: second.state,
                            },
                        },
                    }
                },
            }
        },
        SpecNode::VarAssign(name, value) => {
            let computed = eval(*value, st);
            match computed.result {
                Err(_) => computed,
                Ok(v) => Step { result: Ok(v), state: computed.state.bind(name, v) },
            }
        },
        SpecNode::TypedVarAssign(name, declared, value) => {
            let computed = eval(*value, st);
            match computed.result {
                Err(_) => computed,
                Ok(v) => match check_declared(declared, v) {
                    Err(e) => Step { result: Err(e), state: computed.state },
                    Ok(_) => Step { result: Ok(v), state: computed.state.bind(name, v) },
                },
            }
        },
        SpecNode::Print(value) => {
            let computed = eval(*value, st);
            match computed.result {
                Err(_) => computed,
                Ok(v) => Step { result: Ok(v), state: computed.state.print(v) },
            }
        },
    }
}

/// The evaluation of `nodes` in order from the state `st`, where `last` is
/// the value of the statement before them. The first error ends it.
pub open spec fn run_from(nodes: Seq<SpecNode>, st: State, last: Value) -> Step
    decreases nodes.len(),
{
    if nodes.len() == 0 {
        Step { result: Ok(last), state: st }
    } else {
        let first = eval(nodes[0], st);
        match first.result {
            Err(_) => first,
            Ok(v) => run_from(nodes.skip(1), first.state, v),
        }
    }
}

/// The evaluation of a program from the state `st`: the value of its last
/// statement, and the integer zero for a program without statements.
pub open spec fn run(nodes: Seq<SpecNode>, st: State) -> Step {
    run_from(nodes, st, Value::Int(0))
}

/// The map that a list of bindings stands for. A later binding of a name
/// hides an earlier one.
pub open spec fn bindings(entries: Seq<(String, RuspyType)>) -> Map<Seq<char>, Value>
    decreases entries.len(),
{
    if entries.len() == 0 {
        Map::empty()
    } else {
        bindings(entries.drop_last()).insert(entries.last().0@, entries.last().1@)
    }
}

/// A name that no entry binds is not in the map.
pub proof fn lemma_bindings_absent(entries: Seq<(String, RuspyType)>, name: Seq<char>)
    requires
        forall|j: int| 0 <= j < entries.len() ==> (#[trigger] entries[j]).0@ != name,
    ensures
        !bindings(entries).contains_key(name),
    decreases entries.len(),
{
    if entries.len() > 0 {
        lemma_bindings_absent(entries.drop_last(), name);
    }
}

/// The last entry that binds a name gives the name its value.
pub proof fn lemma_bindings_found(entries: Seq<(String, RuspyType)>, i: int, name: Seq<char>)
    requires
        0 <= i < entries.len(),
        entries[i].0@ == name,
        forall|j: int| i < j < entries.len() ==> (#[trigger] entries[j]).0@ != name,
    ensures
        bindings(entries).contains_key(name),
        bindings(entries)[name] == entries[i].1@,
    decreases entries.len(),
{
    if i < entries.len() - 1 {
        lemma_bindings_found(entries.drop_last(), i, name);
    }
}

/// To replace the last entry that binds a name is to bind the name anew.
pub proof fn lemma_bindings_replaced(
    entries: Seq<(String, RuspyType)>,
    i: int,
    entry: (String, RuspyType),
)
    requires
        0 <= i < entries.len(),
        entries[i].0@ == entry.0@,
        forall|j: int| i < j < entries.len() ==> (#[trigger] entries[j]).0@ != entry.0@,
    ensures
        bindings(entries.update(i, entry)) == bindings(entries).insert(entry.0@, entry.1@),
    decreases entries.len(),
{
    let changed = entries.update(i, entry);
    if i < entries.len() - 1 {
        lemma_bindings_replaced(entries.drop_last(), i, entry);
        assert(changed.drop_last() =~= entries.drop_last().update(i, entry));
        assert(changed.last() == entries.last());
        assert(bindings(changed) =~= bindings(entries).insert(entry.0@, entry.1@));
    } else {
        assert(changed.drop_last() =~= entries.drop_last());
        assert(bindings(changed) =~= bindings(entries).insert(entry.0@, entry.1@));
    }
}

/// The views of a sequence of values, in order.
pub open spec fn value_views(values: Seq<RuspyType>) -> Seq<Value> {
    Seq::new(values.len(), |i: int| values[i]@)
}

/// The operator that a token stands for, if it is one of the four.
fn operation(op: &Token) -> (r: Option<Operation>)
    ensures
        r == operation_of(op@),
{
    match op {
        Token::Plus => Some(Operation::Add),
        Token::Minus => Some(Operation::Sub),
        Token::Asterisk => Some(Operation::Mul),
        Token::Slash => Some(Operation::Div),
        _ => None,
    }
}

/// An interpreter: the variables of one program run, and what the run has
/// printed.
pub struct Interpreter {
    /// The bindings, oldest first. The last entry of a name is its value.
    variables: Vec<(String, RuspyType)>,
    /// The printed values, oldest first.
    printed: Vec<RuspyType>,
}

impl View for Interpreter {
    type V = State;

    closed spec fn view(&self) -> State {
        State { variables: bindings(self.variables@), printed: value_views(self.printed@) }
    }
}

impl Interpreter {
    /// An interpreter in which no variable is assigned and nothing is
    /// printed.
    pub fn new() -> (interpreter: Self)
        ensures
            interpreter@ == State::initial(),
    {
        let interpreter = Interpreter { variables: Vec::new(), printed: Vec::new() };
        assert(value_views(interpreter.printed@) =~= Seq::<Value>::empty());
        interpreter
    }

    /// The values that have been printed, oldest first.
    pub fn printed(&self) -> (values: &Vec<RuspyType>)
        ensures
            value_views(values@) == self@.printed,
    {
        &self.printed
    }

    /// The index of the last entry that binds `name`, if there is one.
    fn find(&self, name: &String) -> (r: Option<usize>)
        ensures
            match r {
                Some(i) => {
                    &&& i < self.variables@.len()
                    &&& self.variables@[i as int].0@ == name@
                    &&& forall|j: int|
                        i < j < self.variables@.len() ==> (#[trigger] self.variables@[j]).0@
                            != name@
                },
                None => forall|j: int|
                    0 <= j < self.variables@.len() ==> (#[trigger] self.variables@[j]).0@
                        != name@,
            },
    {
        let mut i = self.variables.len();
        while i > 0
            invariant
                i <= self.variables@.len(),
                forall|j: int|
                    i <= j < self.variables@.len() ==> (#[trigger] self.variables@[j]).0@
                        != name@,
            decreases i,
        {
            i -= 1;
            if self.variables[i].0 == *name {
                return Some(i);
            }
        }
        None
    }

    /// The value of the variable `name`, if it has been assigned.
    pub fn lookup(&self, name: &String) -> (r: Option<RuspyType>)
        ensures
            match r {
                Some(value) => self@.variables.contains_key(name@) && self@.variables[name@]
                    == value@,
                None => !self@.variables.contains_key(name@),
            },
    {
        match self.find(name) {
            Some(i) => {
                proof {
                    lemma_bindings_found(self.variables@, i as int, name@);
                }
                Some(self.variables[i].1.clone())
            },
            None => {
                proof {
                    lemma_bindings_absent(self.variables@, name@);
                }
                None
            },
        }
    }

    /// Binds `name` to `value`, whatever it was bound to.
    fn assign(&mut self, name: String, value: RuspyType)
        ensures
            final(self)@ == old(self)@.bind(name@, value@),
    {
        match self.find(&name) {
            Some(i) => {
                proof {
                    lemma_bindings_replaced(self.variables@, i as int, (name, value));
                }
                self.variables.set(i, (name, value));
            },
            None => {
                let ghost before = self.variables@;
                self.variables.push((name, value));
                assert(self.variables@.drop_last() =~= before);
            },
        }
    }

    /// Whether a slot declared with the kind of `var_type` accepts `value`.
    fn check_type_compatibility(&self, var_type: &RuspyType, value: &RuspyType) -> (r: Result<
        (),
        RuntimeError,
    >)
        ensures
            match check_declared(var_type@, value@) {
                Ok(_) => r is Ok,
                Err(e) => r is Err && r->Err_0@ == e,
            },
    {
        if !var_type.is_compatible_with(value) {
            return Err(
                RuntimeError::TypeMismatch { declared: var_type.tag(), found: value.tag() },
            );
        }
        Ok(())
    }

    /// Evaluates one node.
    fn interpret_node(&mut self, node: &ASTNode) -> (r: Result<RuspyType, RuntimeError>)
        ensures
            outcome(r) == eval(node@, old(self)@).result,
            final(self)@ == eval(node@, old(self)@).state,
        decreases node,
    {
        match node {
            ASTNode::Number(value) => Ok(RuspyType::Int64(*value)),
            ASTNode::StringLiteral(text) => Ok(RuspyType::Str(text.clone())),
            ASTNode::Identifier(name) => match self.lookup(name) {
                Some(value) => Ok(value),
                None => Err(RuntimeError::UndefinedVariable(name.clone())),
            },
            ASTNode::BinaryOp(left, op, right) => {
                let left_val = match self.interpret_node(left) {
                    Ok(value) => value,
                    Err(e) => {
                        return Err(e);
                    },
                };
                let right_val = match self.interpret_node(right) {
                    Ok(value) => value,
                    Err(e) => {
                        return Err(e);
                    },
                };
                match operation(op) {
                    Some(Operation::Add) => left_val.add(right_val),
                    Some(Operation::Sub) => left_val.sub(right_val),
                    Some(Operation::Mul) => left_val.mul(right_val),
                    Some(Operation::Div) => left_val.div(right_val),
                    None => Err(RuntimeError::UnexpectedOperator),
                }
            },
            ASTNode::VarAssign(name, expr) => {
                let value = match self.interpret_node(expr) {
                    Ok(value) => value,
                    Err(e) => {
                        return Err(e);
                    },
                };
                self.assign(name.clone(), value.clone());
                Ok(value)
            },
            ASTNode::TypedVarAssign(name, declared_type, expr) => {
                let value = match self.interpret_node(expr) {
                    Ok(value) => value,
                    Err(e) => {
                        return Err(e);
                    },
                };
                match self.check_type_compatibility(declared_type, &value) {
                    Ok(_) => {},
                    Err(e) => {
                        return Err(e);
                    },
                }
                self.assign(name.clone(), value.clone());
                Ok(value)
            },
            ASTNode::Print(expr) => {
                let value = match self.interpret_node(expr) {
                    Ok(value) => value,
                    Err(e) => {
                        return Err(e);
                    },
                };
                let ghost before = self.printed@;
                self.printed.push(value.clone());
                assert(value_views(self.printed@) =~= value_views(before).push(value@));
                Ok(value)
            },
        }
    }

    /// Evaluates the statements in order and returns the value of the last
    /// one, or the first error, at which the run stops. A program
    /// without statements yields the integer zero.
    pub fn interpret(&mut self, nodes: Vec<ASTNode>) -> (r: Result<RuspyType, RuntimeError>)
        ensures
            outcome(r) == run(views(nodes@), old(self)@).result,
            final(self)@ == run(views(nodes@), old(self)@).state,
    {
        let mut last_result = RuspyType::Int(0);
        let mut i: usize = 0;
        assert(views(nodes@).skip(0) =~= views(nodes@));
        while i < nodes.len()
            invariant
                i <= nodes.len(),
                run(views(nodes@), old(self)@) == run_from(
                    views(nodes@).skip(i as int),
                    self@,
                    last_result@,
                ),
            decreases nodes.len() - i,
        {
            assert(views(nodes@).skip(i as int)[0] == nodes@[i as int]@);
            assert(views(nodes@).skip(i as int).skip(1) =~= views(nodes@).skip(i + 1));
            match self.interpret_node(&nodes[i]) {
                Ok(result) => {
                    last_result = result;
                },
                Err(e) => {
                    return Err(e);
                },
            }
            i += 1;
        }
        Ok(last_result)
    }
}

/// An untyped assignment of an expression that has a value succeeds,
/// whatever the name was bound to before, and a read of the name then gives
/// that value, of that kind.
pub proof fn lemma_reassignment(name: Seq<char>, value: SpecNode, st: State)
    requires
        eval(value, st).result is Ok,
    ensures
        ({
            let computed = eval(value, st);
            let assigned = eval(SpecNode::VarAssign(name, Box::new(value)), st);
            &&& assigned.result == computed.result
            &&& assigned.state == computed.state.bind(name, computed.result->Ok_0)
            &&& eval(SpecNode::Identifier(name), assigned.state).result == computed.result
            &&& eval(SpecNode::Identifier(name), assigned.state).state == assigned.state
        }),
{
}

/// A typed declaration of an expression that has a value succeeds exactly
/// where the declared kind accepts the kind of the value, and then binds
/// the name to the value. So a declared integer kind takes an integer of
/// every width, and a declared string kind fails on every number with a
/// type mismatch that names both kinds.
pub proof fn lemma_typed_declaration(
    name: Seq<char>,
    declared: Value,
    value: SpecNode,
    st: State,
)
    requires
        eval(value, st).result is Ok,
    ensures
        ({
            let computed = eval(value, st);
            let v = computed.result->Ok_0;
            let assigned = eval(SpecNode::TypedVarAssign(name, declared, Box::new(value)), st);
            &&& declared.tag().accepts(v.tag()) ==> assigned.result == computed.result
                && assigned.state == computed.state.bind(name, v) && eval(
                SpecNode::Identifier(name),
                assigned.state,
            ).result == computed.result
            &&& !declared.tag().accepts(v.tag()) ==> assigned.state == computed.state
                && assigned.result == Err::<Value, RuntimeFault>(
                RuntimeFault::TypeMismatch { declared: declared.tag(), found: v.tag() },
            )
            &&& declared.tag().is_integer() && v.tag().is_integer() ==> assigned.result is Ok
            &&& declared.tag() == crate::types::TypeTag::Str && v.tag().is_numeric()
                ==> assigned.result == Err::<Value, RuntimeFault>(
                RuntimeFault::TypeMismatch { declared: declared.tag(), found: v.tag() },
            )
        }),
{
}

/// A read of a name that was never assigned fails with the error that
/// names it. An operation whose left operand is such a read fails in the
/// same way before its right operand and its operator are looked at, and
/// so does an assignment of such an operation.
pub proof fn lemma_undefined_variable(
    name: Seq<char>,
    op: SpecToken,
    right: SpecNode,
    target: Seq<char>,
    st: State,
)
    requires
        !st.variables.contains_key(name),
    ensures
        ({
            let failure = Step {
                result: Err(RuntimeFault::UndefinedVariable(name)),
                state: st,
            };
            let read = SpecNode::Identifier(name);
            let operation = SpecNode::BinaryOp(Box::new(read), op, Box::new(right));
            &&& eval(read, st) == failure
            &&& eval(operation, st) == failure
            &&& eval(SpecNode::VarAssign(target, Box::new(operation)), st) == failure
        }),
{
}

/// A division evaluates to an error wherever its right operand evaluates
/// to a zero.
pub proof fn lemma_division_by_zero_fails(left: SpecNode, right: SpecNode, st: State)
    requires
        eval(left, st).result is Ok,
        eval(right, eval(left, st).state).result matches Ok(v) && v.is_zero(),
    ensures
        eval(SpecNode::BinaryOp(Box::new(left), SpecToken::Slash, Box::new(right)), st).result
            is Err,
{
    crate::types::lemma_division_by_zero(
        eval(left, st).result->Ok_0,
        eval(right, eval(left, st).state).result->Ok_0,
    );
}

/// The first statement that fails ends the run with its error, in the
/// state that it left.
pub proof fn lemma_run_stops_at_first_error(nodes: Seq<SpecNode>, st: State, last: Value)
    requires
        nodes.len() > 0,
        eval(nodes[0], st).result is Err,
    ensures
        run_from(nodes, st, last) == eval(nodes[0], st),
{
}

/// A value that a program can compute: a 64-bit integer or a string.
pub open spec fn is_computable(v: Value) -> bool {
    v is Int64 || v is Str
}

/// A state in which every variable holds a value that a program can
/// compute, as in the state before anything has run.
pub open spec fn is_plain(st: State) -> bool {
    forall|name: Seq<char>| #[trigger]
        st.variables.contains_key(name) ==> is_computable(st.variables[name])
}

/// Literals are 64-bit integers and strings, and arithmetic keeps the kind
/// of its operands. So from a plain state every node evaluates to a 64-bit
/// integer or a string and leaves a plain state, and no evaluation ends at
/// floating-point operands.
pub proof fn lemma_evaluation_stays_plain(node: SpecNode, st: State)
    requires
        is_plain(st),
    ensures
        is_plain(eval(node, st).state),
        eval(node, st).result matches Ok(v) ==> is_computable(v),
        eval(node, st).result matches Err(e) ==> !(e is FloatArithmetic),
    decreases node,
{
    match node {
        SpecNode::BinaryOp(left, op, right) => {
            lemma_evaluation_stays_plain(*left, st);
            if eval(*left, st).result is Ok {
                lemma_evaluation_stays_plain(*right, eval(*left, st).state);
            }
        },
        SpecNode::VarAssign(name, value) => {
            lemma_evaluation_stays_plain(*value, st);
        },
        SpecNode::TypedVarAssign(name, declared, value) => {
            lemma_evaluation_stays_plain(*value, st);
        },
        SpecNode::Print(value) => {
            lemma_evaluation_stays_plain(*value, st);
        },
        _ => {},
    }
}

/// From a plain state a program ends in a plain state, and never at
/// floating-point operands. Its value is a 64-bit integer or a string, or
/// the integer zero of a program without statements.
pub proof fn lemma_run_stays_plain(nodes: Seq<SpecNode>, st: State, last: Value)
    requires
        is_plain(st),
    ensures
        is_plain(run_from(nodes, st, last).state),
        run_from(nodes, st, last).result matches Ok(v) ==> is_computable(v) || v == last,
        run_from(nodes, st, last).result matches Err(e) ==> !(e is FloatArithmetic),
    decreases nodes.len(),
{
    if nodes.len() > 0 {
        lemma_evaluation_stays_plain(nodes[0], st);
        match eval(nodes[0], st).result {
            Ok(v) => {
                lemma_run_stays_plain(nodes.skip(1), eval(nodes[0], st).state, v);
            },
            Err(_) => {},
        }
    }
}

} // verus!
