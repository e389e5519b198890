use jackc::ast::{BinOpKind, CallArg, Expr, Meta, Module, Stmt, Type, Value, VarDecl};

fn meta(start: usize, end: usize) -> Meta {
    Meta { start, end }
}

#[test]
fn type_from_names_each_numeric_type() {
    assert_eq!(Type::from("i8"), Some(Type::I8));
    assert_eq!(Type::from("i16"), Some(Type::I16));
    assert_eq!(Type::from("i32"), Some(Type::I32));
    assert_eq!(Type::from("i64"), Some(Type::I64));
    assert_eq!(Type::from("u8"), Some(Type::U8));
    assert_eq!(Type::from("u16"), Some(Type::U16));
    assert_eq!(Type::from("u32"), Some(Type::U32));
    assert_eq!(Type::from("u64"), Some(Type::U64));
    assert_eq!(Type::from("f32"), Some(Type::F32));
    assert_eq!(Type::from("f64"), Some(Type::F64));
}

#[test]
fn type_from_rejects_other_names() {
    for name in [
        "", "i", "u", "f", "str", "bool", "nil", "undef", "int", "float", "I8", "U64", "F32",
        "i8 ", " i8", "i88", "i128", "u128", "f16", "i6", "u3", "f6", "8i", "i 8", "é8",
    ] {
        assert_eq!(Type::from(name), None, "name {:?}", name);
    }
}

#[test]
fn type_from_gives_only_numeric_types() {
    let names = ["i8", "i16", "i32", "i64", "u8", "u16", "u32", "u64", "f32", "f64", "str", "bool"];
    for name in names {
        if let Some(t) = Type::from(name) {
            assert!(t != Type::Str && t != Type::Bool && t != Type::Nil && t != Type::Undef);
        }
    }
}

#[test]
fn type_from_gives_distinct_types_for_distinct_names() {
    let names = ["i8", "i16", "i32", "i64", "u8", "u16", "u32", "u64", "f32", "f64"];
    for a in names {
        for b in names {
            assert_eq!(Type::from(a) == Type::from(b), a == b, "{} {}", a, b);
        }
    }
}

#[test]
fn meta_default_is_empty_span_at_start() {
    let m = Meta::default();
    assert_eq!(m.start, 0);
    assert_eq!(m.end, 0);
    assert_eq!(m, meta(0, 0));
    assert_ne!(m, meta(0, 1));
}

fn sample_expr() -> Expr {
    // f(x: 1.5 + y, "s") * nil
    let arg0 = CallArg {
        meta: meta(2, 10),
        label: Some("x".to_string()),
        value: Expr::BinOp {
            meta: meta(5, 10),
            kind: BinOpKind::Plus,
            lhs: Box::new(Expr::Num { meta: meta(5, 8), value: Value::F32(1.5f32.to_bits()) }),
            rhs: Box::new(Expr::Var { meta: meta(9, 10), name: "y".to_string() }),
        },
    };
    let arg1 = CallArg {
        meta: meta(12, 15),
        label: None,
        value: Expr::Str { meta: meta(12, 15), value: "s".to_string() },
    };
    Expr::BinOp {
        meta: meta(0, 22),
        kind: BinOpKind::Mul,
        lhs: Box::new(Expr::Call {
            meta: meta(0, 16),
            func: Box::new(Expr::Var { meta: meta(0, 1), name: "f".to_string() }),
            param: vec![arg0, arg1],
        }),
        rhs: Box::new(Expr::Nil { meta: meta(19, 22) }),
    }
}

#[test]
fn expr_clone_is_equal() {
    let e = sample_expr();
    let c = e.clone();
    assert_eq!(c, e);
    let n = Expr::Num { meta: meta(1, 2), value: Value::I64(-7) };
    assert_eq!(n.clone(), n);
    assert_ne!(n.clone(), Expr::Num { meta: meta(1, 2), value: Value::I64(7) });
}

#[test]
fn stmt_clone_is_equal() {
    let body = vec![
        Stmt::Let { meta: meta(20, 30), name: "a".to_string(), rhs: sample_expr() },
        Stmt::Assign {
            meta: meta(31, 40),
            lhs: Expr::Var { meta: meta(31, 32), name: "a".to_string() },
            rhs: Expr::Num { meta: meta(35, 39), value: Value::U16(1001) },
        },
    ];
    let inner = Stmt::FnDecl { meta: meta(41, 50), name: "g".to_string(), args: vec![], block: vec![] };
    let mut block = body.clone();
    block.push(inner);
    let f = Stmt::FnDecl {
        meta: meta(0, 60),
        name: "foo".to_string(),
        args: vec![
            VarDecl { meta: meta(7, 13), name: "a".to_string(), ty: Type::I64 },
            VarDecl { meta: meta(15, 21), name: "b".to_string(), ty: Type::F64 },
        ],
        block,
    };
    assert_eq!(f.clone(), f);
    let m = Module { name: "demo".to_string(), body: vec![f.clone()] };
    let m2 = m.clone();
    assert_eq!(m2.name, "demo");
    assert_eq!(m2.body, m.body);
}

#[test]
fn float_literals_keep_their_bits() {
    let v = Value::F64((-0.0f64).to_bits());
    match v.clone() {
        Value::F64(bits) => assert_eq!(bits, (-0.0f64).to_bits()),
        _ => panic!("wrong variant"),
    }
}

#[test]
fn float_literals_compare_as_numbers() {
    assert_eq!(Value::F32(0.0f32.to_bits()), Value::F32((-0.0f32).to_bits()));
    assert_eq!(Value::F64(0.0f64.to_bits()), Value::F64((-0.0f64).to_bits()));
    assert_ne!(Value::F32(f32::NAN.to_bits()), Value::F32(f32::NAN.to_bits()));
    assert_ne!(Value::F64(f64::NAN.to_bits()), Value::F64(f64::NAN.to_bits()));
    assert_ne!(Value::F32(1.0f32.to_bits()), Value::F64(1.0f64.to_bits()));
    let f32s = [
        0.0f32, -0.0, 1.0, -1.0, 1.5, f32::MIN_POSITIVE, f32::MAX, f32::MIN, f32::INFINITY,
        f32::NEG_INFINITY, f32::NAN, -f32::NAN, f32::from_bits(0x7fc0_0001), f32::from_bits(1),
    ];
    for a in f32s {
        for b in f32s {
            assert_eq!(Value::F32(a.to_bits()) == Value::F32(b.to_bits()), a == b, "{:?} {:?}", a, b);
        }
    }
    let f64s = [
        0.0f64, -0.0, 1.0, -1.0, 2.5, f64::MIN_POSITIVE, f64::MAX, f64::MIN, f64::INFINITY,
        f64::NEG_INFINITY, f64::NAN, -f64::NAN, f64::from_bits(0x7ff0_0000_0000_0001), f64::from_bits(1),
    ];
    for a in f64s {
        for b in f64s {
            assert_eq!(Value::F64(a.to_bits()) == Value::F64(b.to_bits()), a == b, "{:?} {:?}", a, b);
        }
    }
}

#[test]
fn integer_literals_compare_by_kind_and_value() {
    assert_eq!(Value::I32(5), Value::I32(5));
    assert_ne!(Value::I32(5), Value::I64(5));
    assert_ne!(Value::U8(1), Value::U8(2));
    let e1 = Expr::Num { meta: meta(0, 3), value: Value::F32((-0.0f32).to_bits()) };
    let e2 = Expr::Num { meta: meta(0, 3), value: Value::F32(0.0f32.to_bits()) };
    assert_eq!(e1, e2);
}

#[test]
fn binop_kinds_compare_by_variant() {
    let k = BinOpKind::Div;
    let c = k;
    assert_eq!(k, c);
    assert_ne!(BinOpKind::Ge, BinOpKind::Gt);
    assert_eq!(format!("{:?}", BinOpKind::Not), "Not");
}
