use vstd::prelude::*;

verus! {

/// The span of source text that a node of the tree was read from: the byte
/// offsets of its first character and of the character after its last.
#[derive(Debug, PartialEq, Structural, Clone)]
pub struct Meta {
    pub start: usize,
    pub end: usize,
}

impl Default for Meta {
    /// The empty span at the start of the source.
    fn default() -> (m: Self)
        ensures
            m.start == 0,
            m.end == 0,
    {
        Meta { start: 0, end: 0 }
    }
}

/// A numeric literal, tagged with the type it was written for. A
/// floating-point literal is held by its IEEE 754 bit pattern
/// (`f32::to_bits`, `f64::to_bits`), so that the tree holds integers only.
/// `==` compares two such literals as the floating-point numbers they stand
/// for: `+0.0` equals `-0.0`, and a NaN equals nothing, not even itself.
#[derive(Debug, Clone)]
pub enum Value {
    I8(i8),
    I16(i16),
    I32(i32),
    I64(i64),
    U8(u8),
    U16(u16),
    U32(u32),
    U64(u64),
    F32(u32),
    F64(u64),
}

/// The magnitude of the `f32` with bit pattern `bits`: every bit but the sign.
pub open spec fn f32_magnitude(bits: u32) -> u32 {
    bits % 0x8000_0000
}

/// The magnitude of the `f64` with bit pattern `bits`: every bit but the sign.
pub open spec fn f64_magnitude(bits: u64) -> u64 {
    bits % 0x8000_0000_0000_0000
}

/// Whether the `f32` values with bit patterns `a` and `b` are equal numbers:
/// neither is a NaN (all exponent bits set and a nonzero fraction), and the
/// two have the same bits or are both zeros of either sign.
pub open spec fn f32_bits_equal(a: u32, b: u32) -> bool {
    &&& f32_magnitude(a) <= 0x7f80_0000
    &&& f32_magnitude(b) <= 0x7f80_0000
    &&& (a == b || (f32_magnitude(a) == 0 && f32_magnitude(b) == 0))
}

/// Whether the `f64` values with bit patterns `a` and `b` are equal numbers,
/// as `f32_bits_equal` says for `f32`.
pub open spec fn f64_bits_equal(a: u64, b: u64) -> bool {
    &&& f64_magnitude(a) <= 0x7ff0_0000_0000_0000
    &&& f64_magnitude(b) <= 0x7ff0_0000_0000_0000
    &&& (a == b || (f64_magnitude(a) == 0 && f64_magnitude(b) == 0))
}

/// Whether the literals `a` and `b` are equal: of the same kind, with equal
/// integers or equal floating-point numbers.
pub open spec fn values_equal(a: Value, b: Value) -> bool {
    match (a, b) {
        (Value::I8(x), Value::I8(y)) => x == y,
        (Value::I16(x), Value::I16(y)) => x == y,
        (Value::I32(x), Value::I32(y)) => x == y,
        (Value::I64(x), Value::I64(y)) => x == y,
        (Value::U8(x), Value::U8(y)) => x == y,
        (Value::U16(x), Value::U16(y)) => x == y,
        (Value::U32(x), Value::U32(y)) => x == y,
        (Value::U64(x), Value::U64(y)) => x == y,
        (Value::F32(x), Value::F32(y)) => f32_bits_equal(x, y),
        (Value::F64(x), Value::F64(y)) => f64_bits_equal(x, y),
        _ => false,
    }
}

fn f32_bits_eq(a: u32, b: u32) -> (r: bool)
    ensures
        r == f32_bits_equal(a, b),
{
    let ma = a % 0x8000_0000;
    let mb = b % 0x8000_0000;
    ma <= 0x7f80_0000 && mb <= 0x7f80_0000 && (a == b || (ma == 0 && mb == 0))
}

fn f64_bits_eq(a: u64, b: u64) -> (r: bool)
    ensures
        r == f64_bits_equal(a, b),
{
    let ma = a % 0x8000_0000_0000_0000;
    let mb = b % 0x8000_0000_0000_0000;
    ma <= 0x7ff0_0000_0000_0000 && mb <= 0x7ff0_0000_0000_0000 && (a == b || (ma == 0 && mb
        == 0))
}

impl PartialEq for Value {
    fn eq(&self, other: &Self) -> (r: bool) {
        match (self, other) {
            (Value::I8(x), Value::I8(y)) => *x == *y,
            (Value::I16(x), Value::I16(y)) => *x == *y,
            (Value::I32(x), Value::I32(y)) => *x == *y,
            (Value::I64(x), Value::I64(y)) => *x == *y,
            (Value::U8(x), Value::U8(y)) => *x == *y,
            (Value::U16(x), Value::U16(y)) => *x == *y,
            (Value::U32(x), Value::U32(y)) => *x == *y,
            (Value::U64(x), Value::U64(y)) => *x == *y,
            (Value::F32(x), Value::F32(y)) => f32_bits_eq(*x, *y),
            (Value::F64(x), Value::F64(y)) => f64_bits_eq(*x, *y),
            _ => false,
        }
    }
}

impl vstd::std_specs::cmp::PartialEqSpecImpl for Value {
    open spec fn obeys_eq_spec() -> bool {
        true
    }

    open spec fn eq_spec(&self, other: &Value) -> bool {
        values_equal(*self, *other)
    }
}

/// Integer literals of one kind are equal exactly when their integers are
/// equal.
pub proof fn lemma_integer_literals_equal_iff_integers_equal()
    ensures
        forall|x: i8, y: i8| #[trigger] vstd::std_specs::cmp::PartialEqSpec::eq_spec(&Value::I8(x), &Value::I8(y)) <==> x == y,
        forall|x: i16, y: i16| #[trigger] vstd::std_specs::cmp::PartialEqSpec::eq_spec(&Value::I16(x), &Value::I16(y)) <==> x == y,
        forall|x: i32, y: i32| #[trigger] vstd::std_specs::cmp::PartialEqSpec::eq_spec(&Value::I32(x), &Value::I32(y)) <==> x == y,
        forall|x: i64, y: i64| #[trigger] vstd::std_specs::cmp::PartialEqSpec::eq_spec(&Value::I64(x), &Value::I64(y)) <==> x == y,
        forall|x: u8, y: u8| #[trigger] vstd::std_specs::cmp::PartialEqSpec::eq_spec(&Value::U8(x), &Value::U8(y)) <==> x == y,
        forall|x: u16, y: u16| #[trigger] vstd::std_specs::cmp::PartialEqSpec::eq_spec(&Value::U16(x), &Value::U16(y)) <==> x == y,
        forall|x: u32, y: u32| #[trigger] vstd::std_specs::cmp::PartialEqSpec::eq_spec(&Value::U32(x), &Value::U32(y)) <==> x == y,
        forall|x: u64, y: u64| #[trigger] vstd::std_specs::cmp::PartialEqSpec::eq_spec(&Value::U64(x), &Value::U64(y)) <==> x == y,
{
}

/// Literals of different kinds are never equal: equal literals are of the
/// same kind.
pub proof fn lemma_equal_literals_have_one_kind(a: Value, b: Value)
    requires
        vstd::std_specs::cmp::PartialEqSpec::eq_spec(&a, &b),
    ensures
        a is I8 <==> b is I8,
        a is I16 <==> b is I16,
        a is I32 <==> b is I32,
        a is I64 <==> b is I64,
        a is U8 <==> b is U8,
        a is U16 <==> b is U16,
        a is U32 <==> b is U32,
        a is U64 <==> b is U64,
        a is F32 <==> b is F32,
        a is F64 <==> b is F64,
{
}

/// Floating-point literals compare as IEEE 754 numbers: a NaN (all exponent
/// bits set, nonzero fraction) equals nothing, not even itself; the two zeros
/// are equal; any other two values are equal exactly when their bits are.
pub proof fn lemma_float_literals_compare_as_numbers()
    ensures
        forall|x: u32, y: u32|
            #[trigger] vstd::std_specs::cmp::PartialEqSpec::eq_spec(&Value::F32(x), &Value::F32(y)) <==> {
                &&& !(0x7f80_0000 < x < 0x8000_0000 || 0xff80_0000 < x)
                &&& !(0x7f80_0000 < y < 0x8000_0000 || 0xff80_0000 < y)
                &&& (x == y || ((x == 0 || x == 0x8000_0000) && (y == 0 || y == 0x8000_0000)))
            },
        forall|x: u64, y: u64|
            #[trigger] vstd::std_specs::cmp::PartialEqSpec::eq_spec(&Value::F64(x), &Value::F64(y)) <==> {
                &&& !(0x7ff0_0000_0000_0000 < x < 0x8000_0000_0000_0000 || 0xfff0_0000_0000_0000
                    < x)
                &&& !(0x7ff0_0000_0000_0000 < y < 0x8000_0000_0000_0000 || 0xfff0_0000_0000_0000
                    < y)
                &&& (x == y || ((x == 0 || x == 0x8000_0000_0000_0000) && (y == 0 || y
                    == 0x8000_0000_0000_0000)))
            },
{
}

/// The types a program of the language can name or be given.
#[derive(Debug, Clone, Eq, Hash, PartialEq, Structural)]
pub enum Type {
    I8,
    I16,
    I32,
    I64,
    U8,
    U16,
    U32,
    U64,
    F32,
    F64,
    Str,
    Bool,
    Nil,
    Undef,
}

/// The type that a type name in source text denotes, if it is one of the
/// ten numeric type names (`i8` .. `u64`, `f32`, `f64`).
pub open spec fn type_of_name(name: Seq<char>) -> Option<Type> {
    if name == seq!['i', '8'] {
        Some(Type::I8)
    } else if name == seq!['i', '1', '6'] {
        Some(Type::I16)
    } else if name == seq!['i', '3', '2'] {
        Some(Type::I32)
    } else if name == seq!['i', '6', '4'] {
        Some(Type::I64)
    } else if name == seq!['u', '8'] {
        Some(Type::U8)
    } else if name == seq!['u', '1', '6'] {
        Some(Type::U16)
    } else if name == seq!['u', '3', '2'] {
        Some(Type::U32)
    } else if name == seq!['u', '6', '4'] {
        Some(Type::U64)
    } else if name == seq!['f', '3', '2'] {
        Some(Type::F32)
    } else if name == seq!['f', '6', '4'] {
        Some(Type::F64)
    } else {
        None
    }
}

impl Type {
    /// Whether `self` is one of the ten numeric types.
    pub open spec fn is_numeric(self) -> bool {
        !(self is Str || self is Bool || self is Nil || self is Undef)
    }
}

/// Only numeric types are named: no name gives `Str`, `Bool`, `Nil` or
/// `Undef`.
pub proof fn lemma_named_types_are_numeric(name: Seq<char>)
    ensures
        type_of_name(name) matches Some(t) ==> t.is_numeric(),
{
}

/// Each type has at most one name: two names that give the same type are the
/// same name.
pub proof fn lemma_type_names_are_unique(a: Seq<char>, b: Seq<char>)
    requires
        type_of_name(a) is Some,
        type_of_name(a) == type_of_name(b),
    ensures
        a == b,
{
}

impl Type {
    /// Whether `self` is a signed integer type.
    pub open spec fn is_signed_integer(self) -> bool {
        self is I8 || self is I16 || self is I32 || self is I64
    }

    /// Whether `self` is an unsigned integer type.
    pub open spec fn is_unsigned_integer(self) -> bool {
        self is U8 || self is U16 || self is U32 || self is U64
    }

    /// Whether `self` is a floating-point type.
    pub open spec fn is_floating_point(self) -> bool {
        self is F32 || self is F64
    }

    /// The width in bits of a numeric type's values; 0 for the other types.
    pub open spec fn width(self) -> nat {
        match self {
            Type::I8 | Type::U8 => 8,
            Type::I16 | Type::U16 => 16,
            Type::I32 | Type::U32 | Type::F32 => 32,
            Type::I64 | Type::U64 | Type::F64 => 64,
            _ => 0,
        }
    }
}

/// The number that the decimal digits `digits` write.
pub open spec fn decimal_value(digits: Seq<char>) -> int
    decreases digits.len(),
{
    if digits.len() == 0 {
        0
    } else {
        decimal_value(digits.drop_last()) * 10 + (digits.last() as int - '0' as int)
    }
}

/// A type name spells out its type: the first letter gives the kind (`i`
/// signed integer, `u` unsigned integer, `f` floating point) and the digits
/// after it give the width in bits.
pub proof fn lemma_type_names_spell_kind_and_width(name: Seq<char>)
    requires
        type_of_name(name) is Some,
    ensures
        name.len() >= 2,
        name[0] == 'i' <==> type_of_name(name).unwrap().is_signed_integer(),
        name[0] == 'u' <==> type_of_name(name).unwrap().is_unsigned_integer(),
        name[0] == 'f' <==> type_of_name(name).unwrap().is_floating_point(),
        decimal_value(name.drop_first()) == type_of_name(name).unwrap().width(),
{
    let digits = name.drop_first();
    reveal_with_fuel(decimal_value, 3);
    if name.len() == 2 {
        assert(digits =~= seq![name[1]]);
        assert(digits.drop_last() =~= Seq::<char>::empty());
    } else {
        assert(digits =~= seq![name[1], name[2]]);
        assert(digits.drop_last() =~= seq![name[1]]);
        assert(digits.drop_last().drop_last() =~= Seq::<char>::empty());
    }
}

/// Every numeric type has a name.
pub proof fn lemma_numeric_types_are_named(t: Type)
    requires
        t.is_numeric(),
    ensures
        exists|name: Seq<char>| type_of_name(name) == Some(t),
{
    let name = match t {
        Type::I8 => seq!['i', '8'],
        Type::I16 => seq!['i', '1', '6'],
        Type::I32 => seq!['i', '3', '2'],
        Type::I64 => seq!['i', '6', '4'],
        Type::U8 => seq!['u', '8'],
        Type::U16 => seq!['u', '1', '6'],
        Type::U32 => seq!['u', '3', '2'],
        Type::U64 => seq!['u', '6', '4'],
        Type::F32 => seq!['f', '3', '2'],
        _ => seq!['f', '6', '4'],
    };
    assert(type_of_name(name) == Some(t));
}

/// The characters of `s`, in order.
fn chars_of(s: &str) -> (cs: Vec<char>)
    ensures
        cs@ == s@,
{
    let mut cs: Vec<char> = Vec::new();
    for c in it: s.chars()
        invariant
            cs@ == it.seq().take(it.index() as int),
    {
        cs.push(c);
    }
    cs
}

/// Whether the characters `cs` spell out `name`.
fn spells(cs: &Vec<char>, name: &[char]) -> (b: bool)
    ensures
        b == (cs@ == name@),
{
    if cs.len() != name.len() {
        return false;
    }
    let mut i: usize = 0;
    while i < cs.len()
        invariant
            cs@.len() == name@.len(),
            0 <= i <= cs@.len(),
            forall|j: int| 0 <= j < i ==> cs@[j] == name@[j],
        decreases cs@.len() - i,
    {
        if cs[i] != name[i] {
            return false;
        }
        i = i + 1;
    }
    assert(cs@ =~= name@);
    true
}

impl Type {
    /// The numeric type that `id` names, or `None` where `id` names none of
    /// them; `str`, `bool` and the other names give `None` too.
    pub fn from(id: &str) -> (t: Option<Self>)
        ensures
            t == type_of_name(id@),
    {
        let cs = chars_of(id);
        if spells(&cs, &['i', '8']) {
            Some(Type::I8)
        } else if spells(&cs, &['i', '1', '6']) {
            Some(Type::I16)
        } else if spells(&cs, &['i', '3', '2']) {
            Some(Type::I32)
        } else if spells(&cs, &['i', '6', '4']) {
            Some(Type::I64)
        } else if spells(&cs, &['u', '8']) {
            Some(Type::U8)
        } else if spells(&cs, &['u', '1', '6']) {
            Some(Type::U16)
        } else if spells(&cs, &['u', '3', '2']) {
            Some(Type::U32)
        } else if spells(&cs, &['u', '6', '4']) {
            Some(Type::U64)
        } else if spells(&cs, &['f', '3', '2']) {
            Some(Type::F32)
        } else if spells(&cs, &['f', '6', '4']) {
            Some(Type::F64)
        } else {
            None
        }
    }
}

/// A compilation unit: its name and its top-level statements.
#[derive(Debug, Clone)]
pub struct Module {
    pub name: String,
    pub body: StmtBlock,
}

/// A statement.
#[derive(Debug, PartialEq)]
pub enum Stmt {
    /// `let name = rhs;`
    Let { meta: Meta, name: String, rhs: Expr },
    /// `lhs = rhs;`
    Assign { meta: Meta, lhs: Expr, rhs: Expr },
    /// A function declaration with its parameters and body.
    FnDecl { meta: Meta, name: String, args: Vec<VarDecl>, block: StmtBlock },
}

/// A sequence of statements, in source order.
pub type StmtBlock = Vec<Stmt>;

/// A declared variable or parameter with its type.
#[derive(Debug, Clone, PartialEq)]
pub struct VarDecl {
    pub meta: Meta,
    pub name: String,
    pub ty: Type,
}

/// An argument of a call, possibly given with a label.
#[derive(Debug, Clone, PartialEq)]
pub struct CallArg<T> {
    pub meta: Meta,
    pub label: Option<String>,
    pub value: T,
}

/// The operators of binary (and the one unary) operator expressions.
#[derive(Debug, Clone, Copy, PartialEq, Eq, Hash, Structural)]
pub enum BinOpKind {
    Or,
    And,
    Eq,
    Ne,
    Ge,
    Le,
    Gt,
    Lt,
    Not,
    Plus,
    Sub,
    Mul,
    Div,
}

/// An expression.
#[derive(Debug, PartialEq)]
pub enum Expr {
    Num { meta: Meta, value: Value },
    Str { meta: Meta, value: String },
    Var { meta: Meta, name: String },
    Call { meta: Meta, func: Box<Self>, param: Vec<CallArg<Self>> },
    Nil { meta: Meta },
    BinOp { meta: Meta, kind: BinOpKind, lhs: Box<Self>, rhs: Box<Self> },
}

/// `a` and `b` are the same expression: equal node by node, where the
/// arguments of a call are compared by their sequence of elements.
pub open spec fn same_expr(a: Expr, b: Expr) -> bool
    decreases a,
{
    match a {
        Expr::Call { meta, func, param } => match b {
            Expr::Call { meta: meta_b, func: func_b, param: param_b } => {
                &&& meta == meta_b
                &&& same_expr(*func, *func_b)
                &&& param@.len() == param_b@.len()
                &&& forall|i: int|
                    #![trigger param@[i]]
                    #![trigger param_b@[i]]
                    0 <= i < param@.len() ==> {
                        &&& param@[i].meta == param_b@[i].meta
                        &&& param@[i].label == param_b@[i].label
                        &&& same_expr(param@[i].value, param_b@[i].value)
                    }
            },
            _ => false,
        },
        Expr::BinOp { meta, kind, lhs, rhs } => match b {
            Expr::BinOp { meta: meta_b, kind: kind_b, lhs: lhs_b, rhs: rhs_b } => {
                &&& meta == meta_b
                &&& kind == kind_b
                &&& same_expr(*lhs, *lhs_b)
                &&& same_expr(*rhs, *rhs_b)
            },
            _ => false,
        },
        _ => a == b,
    }
}

/// `a` and `b` are the same statement: equal node by node, where the
/// parameters and the body of a function are compared by their sequence of
/// elements.
pub open spec fn same_stmt(a: Stmt, b: Stmt) -> bool
    decreases a,
{
    match a {
        Stmt::Let { meta, name, rhs } => match b {
            Stmt::Let { meta: meta_b, name: name_b, rhs: rhs_b } => {
                &&& meta == meta_b
                &&& name == name_b
                &&& same_expr(rhs, rhs_b)
            },
            _ => false,
        },
        Stmt::Assign { meta, lhs, rhs } => match b {
            Stmt::Assign { meta: meta_b, lhs: lhs_b, rhs: rhs_b } => {
                &&& meta == meta_b
                &&& same_expr(lhs, lhs_b)
                &&& same_expr(rhs, rhs_b)
            },
            _ => false,
        },
        Stmt::FnDecl { meta, name, args, block } => match b {
            Stmt::FnDecl { meta: meta_b, name: name_b, args: args_b, block: block_b } => {
                &&& meta == meta_b
                &&& name == name_b
                &&& args@ == args_b@
                &&& block@.len() == block_b@.len()
                &&& forall|i: int|
                    #![trigger block@[i]]
                    #![trigger block_b@[i]]
                    0 <= i < block@.len() ==> same_stmt(block@[i], block_b@[i])
            },
            _ => false,
        },
    }
}

/// Every expression is the same as itself.
pub proof fn lemma_same_expr_reflexive(e: Expr)
    ensures
        same_expr(e, e),
    decreases e,
{
    match e {
        Expr::Call { meta, func, param } => {
            lemma_same_expr_reflexive(*func);
            assert forall|i: int|
                #![trigger param@[i]]
                0 <= i < param@.len() implies same_expr(param@[i].value, param@[i].value) by {
                assert(decreases_to!(e => param@[i].value));
                lemma_same_expr_reflexive(param@[i].value);
            }
        },
        Expr::BinOp { meta, kind, lhs, rhs } => {
            lemma_same_expr_reflexive(*lhs);
            lemma_same_expr_reflexive(*rhs);
        },
        _ => {},
    }
}

/// Every statement is the same as itself.
pub proof fn lemma_same_stmt_reflexive(s: Stmt)
    ensures
        same_stmt(s, s),
    decreases s,
{
    match s {
        Stmt::Let { meta, name, rhs } => {
            lemma_same_expr_reflexive(rhs);
        },
        Stmt::Assign { meta, lhs, rhs } => {
            lemma_same_expr_reflexive(lhs);
            lemma_same_expr_reflexive(rhs);
        },
        Stmt::FnDecl { meta, name, args, block } => {
            assert forall|i: int|
                #![trigger block@[i]]
                0 <= i < block@.len() implies same_stmt(block@[i], block@[i]) by {
                assert(decreases_to!(s => block@[i]));
                lemma_same_stmt_reflexive(block@[i]);
            }
        },
    }
}

/// Two expressions that are the same have the same operator nodes: where one
/// is a binary operation, the other is one too, with the same span and the
/// same operator, and with operands that are the same.
pub proof fn lemma_same_expr_keeps_operators(a: Expr, b: Expr)
    requires
        same_expr(a, b),
    ensures
        match (a, b) {
            (
                Expr::BinOp { meta, kind, lhs, rhs },
                Expr::BinOp { meta: meta_b, kind: kind_b, lhs: lhs_b, rhs: rhs_b },
            ) => {
                &&& meta_b == meta
                &&& kind_b == kind
                &&& same_expr(*lhs, *lhs_b)
                &&& same_expr(*rhs, *rhs_b)
            },
            (Expr::BinOp { .. }, _) => false,
            _ => true,
        },
{
}

/// Two expressions that are the same have the same calls: where one is a
/// call, the other is one too, with the same span, the same callee and as many
/// arguments, each with the same span, the same label and the same value.
pub proof fn lemma_same_expr_keeps_calls(a: Expr, b: Expr)
    requires
        same_expr(a, b),
    ensures
        match (a, b) {
            (
                Expr::Call { meta, func, param },
                Expr::Call { meta: meta_b, func: func_b, param: param_b },
            ) => {
                &&& meta_b == meta
                &&& same_expr(*func, *func_b)
                &&& param_b@.len() == param@.len()
                &&& forall|i: int|
                    #![trigger param_b@[i]]
                    0 <= i < param@.len() ==> {
                        &&& param_b@[i].meta == param@[i].meta
                        &&& param_b@[i].label == param@[i].label
                        &&& same_expr(param@[i].value, param_b@[i].value)
                    }
            },
            (Expr::Call { .. }, _) => false,
            _ => true,
        },
{
    if let Expr::Call { meta, func, param } = a {
        if let Expr::Call { meta: meta_b, func: func_b, param: param_b } = b {
            assert forall|i: int|
                #![trigger param_b@[i]]
                0 <= i < param@.len() implies {
                &&& param_b@[i].meta == param@[i].meta
                &&& param_b@[i].label == param@[i].label
                &&& same_expr(param@[i].value, param_b@[i].value)
            } by {
                assert(same_expr(param@[i].value, param_b@[i].value));
            }
        }
    }
}

/// Two expressions that are the same and are neither a call nor a binary
/// operation are equal: the same literal, string, variable or `nil`, at the
/// same span.
pub proof fn lemma_same_expr_keeps_leaves(a: Expr, b: Expr)
    requires
        same_expr(a, b),
        !(a is Call),
        !(a is BinOp),
    ensures
        a == b,
{
}

/// Two statements that are the same are of the same kind with the same span
/// and name; their expressions are the same; a function declaration keeps
/// its parameters, each with its span, name and type, and a body of the same
/// statements.
pub proof fn lemma_same_stmt_keeps_parts(a: Stmt, b: Stmt)
    requires
        same_stmt(a, b),
    ensures
        match (a, b) {
            (
                Stmt::Let { meta, name, rhs },
                Stmt::Let { meta: meta_b, name: name_b, rhs: rhs_b },
            ) => meta_b == meta && name_b == name && same_expr(rhs, rhs_b),
            (
                Stmt::Assign { meta, lhs, rhs },
                Stmt::Assign { meta: meta_b, lhs: lhs_b, rhs: rhs_b },
            ) => meta_b == meta && same_expr(lhs, lhs_b) && same_expr(rhs, rhs_b),
            (
                Stmt::FnDecl { meta, name, args, block },
                Stmt::FnDecl { meta: meta_b, name: name_b, args: args_b, block: block_b },
            ) => {
                &&& meta_b == meta
                &&& name_b == name
                &&& args_b@.len() == args@.len()
                &&& forall|i: int|
                    #![trigger args_b@[i]]
                    0 <= i < args@.len() ==> {
                        &&& args_b@[i].meta == args@[i].meta
                        &&& args_b@[i].name == args@[i].name
                        &&& args_b@[i].ty == args@[i].ty
                    }
                &&& block_b@.len() == block@.len()
                &&& forall|i: int|
                    #![trigger block_b@[i]]
                    0 <= i < block@.len() ==> same_stmt(block@[i], block_b@[i])
            },
            _ => false,
        },
{
    if let Stmt::FnDecl { meta, name, args, block } = a {
        if let Stmt::FnDecl { meta: meta_b, name: name_b, args: args_b, block: block_b } = b {
            assert forall|i: int|
                #![trigger block_b@[i]]
                0 <= i < block@.len() implies same_stmt(block@[i], block_b@[i]) by {
                assert(same_stmt(block@[i], block_b@[i]));
            }
        }
    }
}

/// A copy of the span `m`.
fn copy_meta(m: &Meta) -> (r: Meta)
    ensures
        r == *m,
{
    Meta { start: m.start, end: m.end }
}

/// A copy of the literal `v`.
fn copy_value(v: &Value) -> (r: Value)
    ensures
        r == *v,
{
    match v {
        Value::I8(x) => Value::I8(*x),
        Value::I16(x) => Value::I16(*x),
        Value::I32(x) => Value::I32(*x),
        Value::I64(x) => Value::I64(*x),
        Value::U8(x) => Value::U8(*x),
        Value::U16(x) => Value::U16(*x),
        Value::U32(x) => Value::U32(*x),
        Value::U64(x) => Value::U64(*x),
        Value::F32(x) => Value::F32(*x),
        Value::F64(x) => Value::F64(*x),
    }
}

/// A copy of the optional label `l`.
fn copy_label(l: &Option<String>) -> (r: Option<String>)
    ensures
        r == *l,
{
    match l {
        Some(s) => Some(s.clone()),
        None => None,
    }
}

/// A copy of the type `t`.
fn copy_type(t: &Type) -> (r: Type)
    ensures
        r == *t,
{
    match t {
        Type::I8 => Type::I8,
        Type::I16 => Type::I16,
        Type::I32 => Type::I32,
        Type::I64 => Type::I64,
        Type::U8 => Type::U8,
        Type::U16 => Type::U16,
        Type::U32 => Type::U32,
        Type::U64 => Type::U64,
        Type::F32 => Type::F32,
        Type::F64 => Type::F64,
        Type::Str => Type::Str,
        Type::Bool => Type::Bool,
        Type::Nil => Type::Nil,
        Type::Undef => Type::Undef,
    }
}

/// A copy of the declaration `d`.
fn copy_var_decl(d: &VarDecl) -> (r: VarDecl)
    ensures
        r == *d,
{
    VarDecl { meta: copy_meta(&d.meta), name: d.name.clone(), ty: copy_type(&d.ty) }
}

impl Clone for Stmt {
    /// A deep copy of the statement.
    #[verifier::loop_isolation(false)]
    fn clone(&self) -> (res: Self)
        ensures
            same_stmt(res, *self),
            match (*self, res) {
                (Stmt::Let { meta, name, .. }, Stmt::Let { meta: meta_r, name: name_r, .. }) => {
                    meta_r == meta && name_r == name
                },
                (Stmt::Assign { meta, .. }, Stmt::Assign { meta: meta_r, .. }) => meta_r == meta,
                (
                    Stmt::FnDecl { meta, name, args, block },
                    Stmt::FnDecl { meta: meta_r, name: name_r, args: args_r, block: block_r },
                ) => {
                    &&& meta_r == meta
                    &&& name_r == name
                    &&& args_r@ == args@
                    &&& block_r@.len() == block@.len()
                },
                _ => false,
            },
        decreases self,
    {
        match self {
            Stmt::Let { meta, name, rhs } => Stmt::Let {
                meta: copy_meta(meta),
                name: name.clone(),
                rhs: rhs.clone(),
            },
            Stmt::Assign { meta, lhs, rhs } => Stmt::Assign {
                meta: copy_meta(meta),
                lhs: lhs.clone(),
                rhs: rhs.clone(),
            },
            Stmt::FnDecl { meta, name, args, block } => {
                let mut new_args: Vec<VarDecl> = Vec::new();
                let mut i: usize = 0;
                while i < args.len()
                    invariant
                        0 <= i <= args@.len(),
                        new_args@ == args@.take(i as int),
                    decreases args@.len() - i,
                {
                    new_args.push(copy_var_decl(&args[i]));
                    assert(new_args@ =~= args@.take(i + 1));
                    i = i + 1;
                }
                assert(new_args@ =~= args@);
                let mut new_block: Vec<Stmt> = Vec::new();
                let mut j: usize = 0;
                while j < block.len()
                    invariant
                        0 <= j <= block@.len(),
                        new_block@.len() == j,
                        forall|k: int| #![trigger new_block@[k]] 0 <= k < j ==> same_stmt(new_block@[k], block@[k]),
                    decreases block@.len() - j,
                {
                    proof {
                        assert(decreases_to!(*self => block@[j as int]));
                    }
                    let st: Stmt = block[j].clone();
                    new_block.push(st);
                    j = j + 1;
                }
                Stmt::FnDecl { meta: copy_meta(meta), name: name.clone(), args: new_args, block: new_block }
            },
        }
    }
}

impl Clone for Expr {
    /// A deep copy of the expression.
    #[verifier::loop_isolation(false)]
    fn clone(&self) -> (res: Self)
        ensures
            same_expr(res, *self),
            match (*self, res) {
                (
                    Expr::Call { meta, param, .. },
                    Expr::Call { meta: meta_r, param: param_r, .. },
                ) => {
                    &&& meta_r == meta
                    &&& param_r@.len() == param@.len()
                    &&& forall|i: int|
                        #![trigger param_r@[i]]
                        0 <= i < param@.len() ==> param_r@[i].meta == param@[i].meta
                            && param_r@[i].label == param@[i].label
                },
                (Expr::Call { .. }, _) => false,
                (
                    Expr::BinOp { meta, kind, .. },
                    Expr::BinOp { meta: meta_r, kind: kind_r, .. },
                ) => meta_r == meta && kind_r == kind,
                (Expr::BinOp { .. }, _) => false,
                _ => res == *self,
            },
        decreases self,
    {
        match self {
            Expr::Num { meta, value } => Expr::Num { meta: copy_meta(meta), value: copy_value(value) },
            Expr::Str { meta, value } => Expr::Str { meta: copy_meta(meta), value: value.clone() },
            Expr::Var { meta, name } => Expr::Var { meta: copy_meta(meta), name: name.clone() },
            Expr::Call { meta, func, param } => {
                let f: Expr = (**func).clone();
                let mut ps: Vec<CallArg<Expr>> = Vec::new();
                let mut i: usize = 0;
                while i < param.len()
                    invariant
                        0 <= i <= param@.len(),
                        ps@.len() == i,
                        forall|k: int|
                            #![trigger ps@[k]]
                            0 <= k < i ==> {
                                &&& ps@[k].meta == param@[k].meta
                                &&& ps@[k].label == param@[k].label
                                &&& same_expr(ps@[k].value, param@[k].value)
                            },
                    decreases param@.len() - i,
                {
                    let a = &param[i];
                    proof {
                        assert(decreases_to!(*self => param@[i as int].value));
                    }
                    let v: Expr = a.value.clone();
                    ps.push(CallArg { meta: copy_meta(&a.meta), label: copy_label(&a.label), value: v });
                    i = i + 1;
                }
                Expr::Call { meta: copy_meta(meta), func: Box::new(f), param: ps }
            },
            Expr::Nil { meta } => Expr::Nil { meta: copy_meta(meta) },
            Expr::BinOp { meta, kind, lhs, rhs } => {
                let l: Expr = (**lhs).clone();
                let r: Expr = (**rhs).clone();
                Expr::BinOp { meta: copy_meta(meta), kind: *kind, lhs: Box::new(l), rhs: Box::new(r) }
            },
        }
    }
}

} // verus!
