//! The value model: the kinds of runtime value, which values a declared type
//! accepts, and the arithmetic between two values.

use crate::lexer::{characters, decimal_digit, decimal_value, is_decimal_digit};
use vstd::prelude::*;

verus! {

/// The kind of a value, without its payload.
#[derive(Clone, Copy, Debug, PartialEq, Eq, Structural)]
pub enum TypeTag {
    Int,
    Int32,
    Int64,
    Float,
    Float32,
    Float64,
    Str,
    Char,
}

impl TypeTag {
    /// The three signed-integer kinds.
    pub open spec fn is_integer(self) -> bool {
        self == TypeTag::Int || self == TypeTag::Int32 || self == TypeTag::Int64
    }

    /// The three floating-point kinds.
    pub open spec fn is_float(self) -> bool {
        self == TypeTag::Float || self == TypeTag::Float32 || self == TypeTag::Float64
    }

    /// An integer or a floating-point kind.
    pub open spec fn is_numeric(self) -> bool {
        self.is_integer() || self.is_float()
    }

    /// Whether a slot declared with kind `self` accepts a value of kind
    /// `candidate`: any integer for an integer slot, any float for a float
    /// slot, and only the same kind for strings and characters.
    pub open spec fn accepts(self, candidate: TypeTag) -> bool {
        ||| self.is_integer() && candidate.is_integer()
        ||| self.is_float() && candidate.is_float()
        ||| self == TypeTag::Str && candidate == TypeTag::Str
        ||| self == TypeTag::Char && candidate == TypeTag::Char
    }
}

/// One of the four binary operators.
#[derive(Clone, Copy, Debug, PartialEq, Eq, Structural)]
pub enum Operation {
    Add,
    Sub,
    Mul,
    Div,
}

/// A runtime value.
///
/// The floating-point kinds carry the IEEE-754 bit pattern of their number
/// (`f64::to_bits`, and `f32::to_bits` for `Float32`).
#[derive(Debug, PartialEq, Eq)]
pub enum RuspyType {
    Int(i32),
    Int32(i32),
    Int64(i64),
    Float(u64),
    Float32(u32),
    Float64(u64),
    Str(String),
    Char(char),
}

/// What a [`RuspyType`] stands for: the same value with its text as a
/// sequence of characters.
pub enum Value {
    Int(i32),
    Int32(i32),
    Int64(i64),
    Float(u64),
    Float32(u32),
    Float64(u64),
    Str(Seq<char>),
    Char(char),
}

impl Value {
    pub open spec fn tag(self) -> TypeTag {
        match self {
            Value::Int(_) => TypeTag::Int,
            Value::Int32(_) => TypeTag::Int32,
            Value::Int64(_) => TypeTag::Int64,
            Value::Float(_) => TypeTag::Float,
            Value::Float32(_) => TypeTag::Float32,
            Value::Float64(_) => TypeTag::Float64,
            Value::Str(_) => TypeTag::Str,
            Value::Char(_) => TypeTag::Char,
        }
    }

    /// An integer zero, or a floating-point zero of either sign.
    pub open spec fn is_zero(self) -> bool {
        match self {
            Value::Int(v) => v == 0,
            Value::Int32(v) => v == 0,
            Value::Int64(v) => v == 0,
            Value::Float(bits) => double_is_zero(bits),
            Value::Float32(bits) => single_is_zero(bits),
            Value::Float64(bits) => double_is_zero(bits),
            Value::Str(_) => false,
            Value::Char(_) => false,
        }
    }
}

impl View for RuspyType {
    type V = Value;

    open spec fn view(&self) -> Value {
        match *self {
            RuspyType::Int(v) => Value::Int(v),
            RuspyType::Int32(v) => Value::Int32(v),
            RuspyType::Int64(v) => Value::Int64(v),
            RuspyType::Float(bits) => Value::Float(bits),
            RuspyType::Float32(bits) => Value::Float32(bits),
            RuspyType::Float64(bits) => Value::Float64(bits),
            RuspyType::Str(text) => Value::Str(text@),
            RuspyType::Char(c) => Value::Char(c),
        }
    }
}

/// Whether a 64-bit pattern is `+0.0` or `-0.0`.
pub open spec fn double_is_zero(bits: u64) -> bool {
    bits == 0 || bits == 0x8000_0000_0000_0000
}

/// Whether a 32-bit pattern is `+0.0` or `-0.0`.
pub open spec fn single_is_zero(bits: u32) -> bool {
    bits == 0 || bits == 0x8000_0000
}

/// Why an evaluation failed.
#[derive(Debug, PartialEq, Eq)]
pub enum RuntimeError {
    /// The name was read before any assignment to it.
    UndefinedVariable(String),
    /// The divisor of a division was zero.
    DivisionByZero,
    /// The operator is not defined on operands of these two kinds.
    IncompatibleTypes(Operation),
    /// A typed declaration got a value that its declared kind does not accept.
    TypeMismatch { declared: TypeTag, found: TypeTag },
    /// A binary node whose token is none of the four operators.
    UnexpectedOperator,
    /// The integer result does not fit the width of its operands.
    Overflow(Operation),
    /// Both operands are floating-point values of one kind, and the divisor
    /// of a division is not zero. The library carries such values but leaves
    /// their rounding arithmetic to its caller.
    FloatArithmetic(Operation),
}

/// What a [`RuntimeError`] stands for.
pub enum RuntimeFault {
    UndefinedVariable(Seq<char>),
    DivisionByZero,
    IncompatibleTypes(Operation),
    TypeMismatch { declared: TypeTag, found: TypeTag },
    UnexpectedOperator,
    Overflow(Operation),
    FloatArithmetic(Operation),
}

impl View for RuntimeError {
    type V = RuntimeFault;

    open spec fn view(&self) -> RuntimeFault {
        match *self {
            RuntimeError::UndefinedVariable(name) => RuntimeFault::UndefinedVariable(name@),
            RuntimeError::DivisionByZero => RuntimeFault::DivisionByZero,
            RuntimeError::IncompatibleTypes(op) => RuntimeFault::IncompatibleTypes(op),
            RuntimeError::TypeMismatch { declared, found } => RuntimeFault::TypeMismatch {
                declared,
                found,
            },
            RuntimeError::UnexpectedOperator => RuntimeFault::UnexpectedOperator,
            RuntimeError::Overflow(op) => RuntimeFault::Overflow(op),
            RuntimeError::FloatArithmetic(op) => RuntimeFault::FloatArithmetic(op),
        }
    }
}

/// The outcome of an evaluation, as contracts speak of it.
pub type Evaluated = Result<Value, RuntimeFault>;

/// The view of an evaluation's outcome.
pub open spec fn outcome(r: Result<RuspyType, RuntimeError>) -> Evaluated {
    match r {
        Ok(v) => Ok(v@),
        Err(e) => Err(e@),
    }
}

/// The quotient of `x` by `d` rounded toward zero, for `d != 0`.
pub open spec fn truncated_quotient(x: int, d: int) -> int {
    if x >= 0 && d > 0 {
        x / d
    } else if x < 0 && d < 0 {
        (-x) / (-d)
    } else if x < 0 {
        -((-x) / d)
    } else {
        -(x / (-d))
    }
}

/// The mathematical result of an operator on two integers.
pub open spec fn exact(op: Operation, x: int, y: int) -> int {
    match op {
        Operation::Add => x + y,
        Operation::Sub => x - y,
        Operation::Mul => x * y,
        Operation::Div => truncated_quotient(x, y),
    }
}

/// An operator on two integers of one width, whose values lie between `min`
/// and `max`: a zero divisor fails, then a result outside the width.
pub open spec fn bounded(op: Operation, x: int, y: int, min: int, max: int) -> Result<
    int,
    RuntimeFault,
> {
    if op == Operation::Div && y == 0 {
        Err(RuntimeFault::DivisionByZero)
    } else if exact(op, x, y) < min || exact(op, x, y) > max {
        Err(RuntimeFault::Overflow(op))
    } else {
        Ok(exact(op, x, y))
    }
}

/// An operator on two floating-point operands of one kind, of which `zero`
/// says whether the right one is a zero.
pub open spec fn deferred(op: Operation, zero: bool) -> Evaluated {
    if op == Operation::Div && zero {
        Err(RuntimeFault::DivisionByZero)
    } else {
        Err(RuntimeFault::FloatArithmetic(op))
    }
}

/// The result of `left op right`.
///
/// Both operands must be of exactly the same kind. Integers are computed in
/// their own width; two strings can only be added, which concatenates them;
/// characters have no arithmetic.
pub open spec fn arithmetic(op: Operation, left: Value, right: Value) -> Evaluated {
    match (left, right) {
        (Value::Int(x), Value::Int(y)) => match bounded(
            op,
            x as int,
            y as int,
            i32::MIN as int,
            i32::MAX as int,
        ) {
            Ok(v) => Ok(Value::Int(v as i32)),
            Err(e) => Err(e),
        },
        (Value::Int32(x), Value::Int32(y)) => match bounded(
            op,
            x as int,
            y as int,
            i32::MIN as int,
            i32::MAX as int,
        ) {
            Ok(v) => Ok(Value::Int32(v as i32)),
            Err(e) => Err(e),
        },
        (Value::Int64(x), Value::Int64(y)) => match bounded(
            op,
            x as int,
            y as int,
            i64::MIN as int,
            i64::MAX as int,
        ) {
            Ok(v) => Ok(Value::Int64(v as i64)),
            Err(e) => Err(e),
        },
        (Value::Float(_), Value::Float(y)) => deferred(op, double_is_zero(y)),
        (Value::Float32(_), Value::Float32(y)) => deferred(op, single_is_zero(y)),
        (Value::Float64(_), Value::Float64(y)) => deferred(op, double_is_zero(y)),
        (Value::Str(x), Value::Str(y)) => if op == Operation::Add {
            Ok(Value::Str(x + y))
        } else {
            Err(RuntimeFault::IncompatibleTypes(op))
        },
        _ => Err(RuntimeFault::IncompatibleTypes(op)),
    }
}

/// `x op y` in 32 bits.
fn compute_i32(op: Operation, x: i32, y: i32) -> (r: Result<i32, RuntimeError>)
    ensures
        match bounded(op, x as int, y as int, i32::MIN as int, i32::MAX as int) {
            Ok(v) => r == Ok::<i32, RuntimeError>(v as i32),
            Err(e) => r is Err && r->Err_0@ == e,
        },
{
    if let Operation::Div = op {
        if y == 0 {
            return Err(RuntimeError::DivisionByZero);
        }
    }
    let computed = match op {
        Operation::Add => x.checked_add(y),
        Operation::Sub => x.checked_sub(y),
        Operation::Mul => x.checked_mul(y),
        Operation::Div => x.checked_div(y),
    };
    match computed {
        Some(v) => Ok(v),
        None => Err(RuntimeError::Overflow(op)),
    }
}

/// `x op y` in 64 bits.
fn compute_i64(op: Operation, x: i64, y: i64) -> (r: Result<i64, RuntimeError>)
    ensures
        match bounded(op, x as int, y as int, i64::MIN as int, i64::MAX as int) {
            Ok(v) => r == Ok::<i64, RuntimeError>(v as i64),
            Err(e) => r is Err && r->Err_0@ == e,
        },
{
    if let Operation::Div = op {
        if y == 0 {
            return Err(RuntimeError::DivisionByZero);
        }
    }
    let computed = match op {
        Operation::Add => x.checked_add(y),
        Operation::Sub => x.checked_sub(y),
        Operation::Mul => x.checked_mul(y),
        Operation::Div => x.checked_div(y),
    };
    match computed {
        Some(v) => Ok(v),
        None => Err(RuntimeError::Overflow(op)),
    }
}

impl TypeTag {
    /// Decides [`TypeTag::accepts`].
    pub fn admits(self, candidate: TypeTag) -> (b: bool)
        ensures
            b == self.accepts(candidate),
    {
        match self {
            TypeTag::Int | TypeTag::Int32 | TypeTag::Int64 => match candidate {
                TypeTag::Int | TypeTag::Int32 | TypeTag::Int64 => true,
                _ => false,
            },
            TypeTag::Float | TypeTag::Float32 | TypeTag::Float64 => match candidate {
                TypeTag::Float | TypeTag::Float32 | TypeTag::Float64 => true,
                _ => false,
            },
            TypeTag::Str => match candidate {
                TypeTag::Str => true,
                _ => false,
            },
            TypeTag::Char => match candidate {
                TypeTag::Char => true,
                _ => false,
            },
        }
    }
}

impl Clone for RuspyType {
    fn clone(&self) -> (copy: Self)
        ensures
            copy == *self,
    {
        match self {
            RuspyType::Int(v) => RuspyType::Int(*v),
            RuspyType::Int32(v) => RuspyType::Int32(*v),
            RuspyType::Int64(v) => RuspyType::Int64(*v),
            RuspyType::Float(bits) => RuspyType::Float(*bits),
            RuspyType::Float32(bits) => RuspyType::Float32(*bits),
            RuspyType::Float64(bits) => RuspyType::Float64(*bits),
            RuspyType::Str(text) => RuspyType::Str(text.clone()),
            RuspyType::Char(c) => RuspyType::Char(*c),
        }
    }
}

impl RuspyType {
    /// The kind of this value.
    pub fn tag(&self) -> (tag: TypeTag)
        ensures
            tag == self@.tag(),
    {
        match self {
            RuspyType::Int(_) => TypeTag::Int,
            RuspyType::Int32(_) => TypeTag::Int32,
            RuspyType::Int64(_) => TypeTag::Int64,
            RuspyType::Float(_) => TypeTag::Float,
            RuspyType::Float32(_) => TypeTag::Float32,
            RuspyType::Float64(_) => TypeTag::Float64,
            RuspyType::Str(_) => TypeTag::Str,
            RuspyType::Char(_) => TypeTag::Char,
        }
    }

    /// Whether a slot declared with the kind of `self` accepts `other`.
    /// Only the kinds of the two values count, not their payloads.
    pub fn is_compatible_with(&self, other: &RuspyType) -> (b: bool)
        ensures
            b == self@.tag().accepts(other@.tag()),
    {
        self.tag().admits(other.tag())
    }

    /// Whether this value is an integer zero or a floating-point zero of
    /// either sign.
    pub fn is_zero(&self) -> (b: bool)
        ensures
            b == self@.is_zero(),
    {
        match self {
            RuspyType::Int(v) => *v == 0,
            RuspyType::Int32(v) => *v == 0,
            RuspyType::Int64(v) => *v == 0,
            RuspyType::Float(bits) => *bits == 0 || *bits == 0x8000_0000_0000_0000,
            RuspyType::Float32(bits) => *bits == 0 || *bits == 0x8000_0000,
            RuspyType::Float64(bits) => *bits == 0 || *bits == 0x8000_0000_0000_0000,
            RuspyType::Str(_) => false,
            RuspyType::Char(_) => false,
        }
    }

    /// `self op other`.
    pub fn apply(self, op: Operation, other: RuspyType) -> (r: Result<RuspyType, RuntimeError>)
        ensures
            outcome(r) == arithmetic(op, self@, other@),
    {
        match (self, other) {
            (RuspyType::Int(x), RuspyType::Int(y)) => match compute_i32(op, x, y) {
                Ok(v) => Ok(RuspyType::Int(v)),
                Err(e) => Err(e),
            },
            (RuspyType::Int32(x), RuspyType::Int32(y)) => match compute_i32(op, x, y) {
                Ok(v) => Ok(RuspyType::Int32(v)),
                Err(e) => Err(e),
            },
            (RuspyType::Int64(x), RuspyType::Int64(y)) => match compute_i64(op, x, y) {
                Ok(v) => Ok(RuspyType::Int64(v)),
                Err(e) => Err(e),
            },
            (RuspyType::Float(x), RuspyType::Float(y)) => leave_to_caller(
                op,
                y == 0 || y == 0x8000_0000_0000_0000,
            ),
            (RuspyType::Float32(x), RuspyType::Float32(y)) => leave_to_caller(
                op,
                y == 0 || y == 0x8000_0000,
            ),
            (RuspyType::Float64(x), RuspyType::Float64(y)) => leave_to_caller(
                op,
                y == 0 || y == 0x8000_0000_0000_0000,
            ),
            (RuspyType::Str(x), RuspyType::Str(y)) => match op {
                Operation::Add => Ok(RuspyType::Str(x.concat(y.as_str()))),
                _ => Err(RuntimeError::IncompatibleTypes(op)),
            },
            _ => Err(RuntimeError::IncompatibleTypes(op)),
        }
    }

    /// The sum of two integers of one kind, or the concatenation of two
    /// strings.
    pub fn add(self, other: RuspyType) -> (r: Result<RuspyType, RuntimeError>)
        ensures
            outcome(r) == arithmetic(Operation::Add, self@, other@),
    {
        self.apply(Operation::Add, other)
    }

    /// The difference of two integers of one kind.
    pub fn sub(self, other: RuspyType) -> (r: Result<RuspyType, RuntimeError>)
        ensures
            outcome(r) == arithmetic(Operation::Sub, self@, other@),
    {
        self.apply(Operation::Sub, other)
    }

    /// The product of two integers of one kind.
    pub fn mul(self, other: RuspyType) -> (r: Result<RuspyType, RuntimeError>)
        ensures
            outcome(r) == arithmetic(Operation::Mul, self@, other@),
    {
        self.apply(Operation::Mul, other)
    }

    /// The quotient of two integers of one kind, rounded toward zero. A zero
    /// divisor of the dividend's kind is an error, whatever the dividend.
    pub fn div(self, other: RuspyType) -> (r: Result<RuspyType, RuntimeError>)
        ensures
            outcome(r) == arithmetic(Operation::Div, self@, other@),
    {
        self.apply(Operation::Div, other)
    }
}

/// The error for two floating-point operands of one kind.
fn leave_to_caller(op: Operation, zero_divisor: bool) -> (r: Result<RuspyType, RuntimeError>)
    ensures
        outcome(r) == deferred(op, zero_divisor),
{
    if zero_divisor {
        if let Operation::Div = op {
            return Err(RuntimeError::DivisionByZero);
        }
    }
    Err(RuntimeError::FloatArithmetic(op))
}

/// A declared integer kind accepts a value of every integer kind, and a
/// declared string kind accepts no number.
pub proof fn lemma_declared_kinds(declared: TypeTag, found: TypeTag)
    ensures
        declared.is_integer() && found.is_integer() ==> declared.accepts(found),
        declared.is_float() && found.is_float() ==> declared.accepts(found),
        declared == TypeTag::Str && found.is_numeric() ==> !declared.accepts(found),
        declared.accepts(found) ==> (declared.is_integer() <==> found.is_integer()) && (
        declared.is_float() <==> found.is_float()),
{
}

/// A division by zero fails, whatever the dividend and whatever the width
/// or sign of the two operands: with a zero of the dividend's own numeric
/// kind the error is the division by zero, and with any other zero the two
/// kinds are incompatible.
pub proof fn lemma_division_by_zero(dividend: Value, divisor: Value)
    requires
        divisor.is_zero(),
    ensures
        arithmetic(Operation::Div, dividend, divisor) is Err,
        dividend.tag() == divisor.tag() ==> arithmetic(Operation::Div, dividend, divisor) == Err::<
            Value,
            RuntimeFault,
        >(RuntimeFault::DivisionByZero),
        dividend.tag() != divisor.tag() ==> arithmetic(Operation::Div, dividend, divisor) == Err::<
            Value,
            RuntimeFault,
        >(RuntimeFault::IncompatibleTypes(Operation::Div)),
{
}

/// Arithmetic asks for two operands of exactly one kind, and its result is
/// of that kind.
pub proof fn lemma_arithmetic_keeps_the_kind(op: Operation, left: Value, right: Value)
    ensures
        left.tag() != right.tag() ==> arithmetic(op, left, right) == Err::<Value, RuntimeFault>(
            RuntimeFault::IncompatibleTypes(op),
        ),
        arithmetic(op, left, right) matches Ok(v) ==> v.tag() == left.tag() && v.tag()
            == right.tag(),
{
}

/// The quotient that rounds toward zero: its product with the divisor
/// differs from the dividend by less than the divisor, and never lies
/// beyond the dividend.
pub proof fn lemma_truncated_quotient(x: int, d: int)
    requires
        d != 0,
    ensures
        ({
            let q = truncated_quotient(x, d);
            let r = x - q * d;
            &&& x >= 0 ==> 0 <= r
            &&& x <= 0 ==> r <= 0
            &&& d > 0 ==> -d < r < d
            &&& d < 0 ==> d < r < -d
        }),
{
    let q = truncated_quotient(x, d);
    if x >= 0 && d > 0 {
        lemma_quotient_bounds(x, d);
    } else if x < 0 && d < 0 {
        lemma_quotient_bounds(-x, -d);
        assert(q * d == -(q * (-d))) by (nonlinear_arith);
    } else if x < 0 {
        lemma_quotient_bounds(-x, d);
        let p = (-x) / d;
        assert((-p) * d == -(p * d)) by (nonlinear_arith);
    } else {
        lemma_quotient_bounds(x, -d);
        let p = x / (-d);
        assert((-p) * d == p * (-d)) by (nonlinear_arith);
    }
}

/// The quotient of a dividend that is not negative by a positive divisor.
proof fn lemma_quotient_bounds(x: int, d: int)
    requires
        x >= 0,
        d > 0,
    ensures
        0 <= x - (x / d) * d < d,
{
    vstd::arithmetic::div_mod::lemma_fundamental_div_mod(x, d);
    vstd::arithmetic::div_mod::lemma_mod_bound(x, d);
    assert((x / d) * d == d * (x / d)) by (nonlinear_arith);
}

/// Whether every character of `text` is a decimal digit.
pub open spec fn all_digits(text: Seq<char>) -> bool {
    forall|i: int| 0 <= i < text.len() ==> is_decimal_digit(#[trigger] text[i])
}

/// The integer that `text` writes in decimal: an optional sign, `+` or `-`,
/// and then one digit or more, with nothing before, between or after.
pub open spec fn signed_decimal(text: Seq<char>) -> Option<int> {
    let signed = text.len() > 0 && (text[0] == '+' || text[0] == '-');
    let digits = if signed {
        text.skip(1)
    } else {
        text
    };
    if digits.len() == 0 || !all_digits(digits) {
        None
    } else if signed && text[0] == '-' {
        Some(-(decimal_value(digits) as int))
    } else {
        Some(decimal_value(digits) as int)
    }
}

/// The 32-bit integer that `text` writes, if it writes one that fits.
pub open spec fn reads_as_i32(text: Seq<char>) -> Option<i32> {
    match signed_decimal(text) {
        Some(v) => if i32::MIN <= v <= i32::MAX {
            Some(v as i32)
        } else {
            None
        },
        None => None,
    }
}

/// The value that a text is taken for: the generic integer that it writes;
/// else the number `float_reading`, if there is one; else the character
/// that it consists of, if that is a single character of one byte (an ASCII
/// character); else the text itself.
pub open spec fn inferred(text: Seq<char>, float_reading: Option<u64>) -> Value {
    match reads_as_i32(text) {
        Some(i) => Value::Int(i),
        None => match float_reading {
            Some(bits) => Value::Float(bits),
            None => if text.len() == 1 && (text[0] as u32) < 0x80 {
                Value::Char(text[0])
            } else {
                Value::Str(text)
            },
        },
    }
}

/// Reads `chars` as a 32-bit integer in decimal.
fn parse_i32(chars: &Vec<char>) -> (r: Option<i32>)
    ensures
        r == reads_as_i32(chars@),
{
    let n = chars.len();
    let negative = n > 0 && chars[0] == '-';
    let start: usize = if n > 0 && (chars[0] == '+' || chars[0] == '-') {
        1
    } else {
        0
    };
    let ghost digits = chars@.skip(start as int);
    assert(chars@.skip(0) =~= chars@);
    if start == n {
        return None;
    }
    let mut magnitude: i64 = 0;
    let mut too_large = false;
    let mut i: usize = start;
    assert(digits.subrange(0, 0) =~= Seq::<char>::empty());
    while i < n
        invariant
            start <= i <= n,
            n == chars@.len(),
            digits == chars@.skip(start as int),
            start == 0 ==> digits == chars@,
            start == 1 <==> chars@[0] == '+' || chars@[0] == '-',
            start <= 1,
            negative <==> chars@[0] == '-',
            all_digits(digits.subrange(0, i - start)),
            0 <= magnitude <= 0x8000_0000,
            !too_large ==> magnitude == decimal_value(digits.subrange(0, i - start)),
            too_large ==> decimal_value(digits.subrange(0, i - start)) > 0x8000_0000,
        decreases n - i,
    {
        let c = chars[i];
        if !decimal_digit(c) {
            assert(!is_decimal_digit(digits[i - start]));
            assert(!all_digits(digits));
            return None;
        }
        proof {
            let read = digits.subrange(0, i + 1 - start);
            assert(read.drop_last() =~= digits.subrange(0, i - start));
            assert(read.last() == c);
            assert forall|k: int| 0 <= k < read.len() implies is_decimal_digit(
                #[trigger] read[k],
            ) by {
                if k < read.len() - 1 {
                    assert(read[k] == digits.subrange(0, i - start)[k]);
                }
            }
        }
        if !too_large {
            let next = magnitude * 10 + ((c as u32 - '0' as u32) as i64);
            if next > 0x8000_0000 {
                too_large = true;
            } else {
                magnitude = next;
            }
        }
        i += 1;
    }
    assert(digits.subrange(0, n - start) =~= digits);
    if too_large {
        None
    } else if negative {
        Some((-magnitude) as i32)
    } else if magnitude > 0x7fff_ffff {
        None
    } else {
        Some(magnitude as i32)
    }
}

/// The characters of `chars`, as a string.
fn string_of(chars: &Vec<char>) -> (text: String)
    ensures
        text@ == chars@,
{
    let mut text = String::new();
    let mut i: usize = 0;
    while i < chars.len()
        invariant
            i <= chars.len(),
            text@ == chars@.subrange(0, i as int),
        decreases chars.len() - i,
    {
        text.push(chars[i]);
        assert(chars@.subrange(0, i as int).push(chars@[i as int]) =~= chars@.subrange(
            0,
            i + 1,
        ));
        i += 1;
    }
    assert(chars@.subrange(0, chars.len() as int) =~= chars@);
    text
}

/// Takes a text for the value that it most plainly writes: an integer, a
/// floating-point number, a character or a string, in this order.
///
/// `float_reading` is the bit pattern of the double that `value` reads as,
/// where it reads as one (`value.parse::<f64>()`), which the caller
/// supplies.
pub fn infer_type(value: &str, float_reading: Option<u64>) -> (r: RuspyType)
    ensures
        r@ == inferred(value@, float_reading),
{
    let chars = characters(value);
    if let Some(i) = parse_i32(&chars) {
        return RuspyType::Int(i);
    }
    if let Some(bits) = float_reading {
        return RuspyType::Float(bits);
    }
    if chars.len() == 1 && (chars[0] as u32) < 0x80 {
        RuspyType::Char(chars[0])
    } else {
        RuspyType::Str(string_of(&chars))
    }
}

} // verus!
