use cfg_ir::ast::Ident;
use cfg_ir::cfg::render::{fmt_arglist, fmt_labelled_arglist, fmt_named_arglist};
use cfg_ir::cfg::{Assign, BasicBlock, Cfg, PhiNode, RefCount, Statement, Terminator, Value};
use cfg_ir::text::push_decimal;
use cfg_ir::types::{EnumType, Type};

fn add_cfg() -> Cfg {
    Cfg {
        arg_count: 2,
        place_tys: vec![Type::Int, Type::Int, Type::Int, Type::Int],
        basic_blocks: vec![BasicBlock {
            phi: vec![],
            stmnts: vec![Statement::Assign(Assign {
                place: 3,
                value: Value::Call { func: Ident("add".to_string()), args: vec![1, 2] },
                allocate: false,
            })],
            terminator: Some(Terminator::Return(3)),
        }],
    }
}

fn empty_block() -> BasicBlock {
    BasicBlock { phi: vec![], stmnts: vec![], terminator: None }
}

#[test]
fn round_trip_add_function() {
    assert_eq!(
        add_cfg().render(),
        "Cfg(_1, _2):\n_0: Int, _1: Int, _2: Int, _3: Int, \n0: {\n\tlet _3 = add(_1, _2);\n\treturn _3\n}"
    );
}

#[test]
fn rendering_twice_is_identical() {
    let cfg = add_cfg();
    assert_eq!(cfg.render(), cfg.render());
}

#[test]
fn deadend_block() {
    assert_eq!(empty_block().render(), "{\n\tdeadend\n}");
}

#[test]
fn phi_line() {
    let block = BasicBlock {
        phi: vec![PhiNode { place: 4, opts: vec![("then".to_string(), 2), ("else".to_string(), 3)] }],
        stmnts: vec![],
        terminator: Some(Terminator::Return(4)),
    };
    assert_eq!(
        block.render(),
        "{\n\tlet _4 = ϕ(\"then\": _2, \"else\": _3);\n\treturn _4\n}"
    );
}

#[test]
fn reference_counting_statements() {
    let block = BasicBlock {
        phi: vec![],
        stmnts: vec![
            Statement::Assign(Assign { place: 1, value: Value::Place(0), allocate: true }),
            Statement::Dup(RefCount { place: 1, count: 2 }),
            Statement::Drop(RefCount { place: 1, count: 12 }),
            Statement::Nop,
            Statement::Deallocate(1),
        ],
        terminator: Some(Terminator::Goto(7)),
    };
    assert_eq!(
        block.render(),
        "{\n\tlet _1 = allocate _0;\n\tdup+2 _1;\n\tdrop-12 _1;\n\tnop;\n\tdeallocate _1;\n\tgoto -> 7\n}"
    );
}

#[test]
fn nested_branch() {
    let t = Terminator::IfElse {
        cond: 10,
        iff: Box::new(BasicBlock { phi: vec![], stmnts: vec![], terminator: Some(Terminator::Return(1)) }),
        elsee: Box::new(empty_block()),
    };
    assert_eq!(
        t.render(),
        "goto -> if _10 { {\n\treturn _1\n} } else { {\n\tdeadend\n} }"
    );
}

#[test]
fn blocks_are_numbered_and_separated() {
    let cfg = Cfg {
        arg_count: 0,
        place_tys: vec![],
        basic_blocks: vec![
            BasicBlock { phi: vec![], stmnts: vec![], terminator: Some(Terminator::Goto(1)) },
            empty_block(),
        ],
    };
    assert_eq!(cfg.render(), "Cfg():\n\n0: {\n\tgoto -> 1\n}\n1: {\n\tdeadend\n}");
}

#[test]
fn named_types_in_header() {
    let cfg = Cfg {
        arg_count: 1,
        place_tys: vec![
            Type::Unit,
            Type::Enum(EnumType { name: "Color".to_string(), variants: vec!["Red".to_string()] }),
            Type::Bool,
        ],
        basic_blocks: vec![],
    };
    assert_eq!(cfg.render(), "Cfg(_1):\n_0: Unit, _1: Color, _2: Bool, \n");
}

#[test]
fn call_value_and_place_value() {
    let call = Value::Call { func: Ident("f".to_string()), args: vec![] };
    assert_eq!(call.render(), "f()");
    assert_eq!(Value::Place(305).render(), "_305");
}

#[test]
fn arglists() {
    let mut out = String::from("x");
    fmt_arglist(&mut out, &vec![0, 9, 10]);
    assert_eq!(out, "x(_0, _9, _10)");
    let mut named = String::new();
    fmt_named_arglist(&mut named, &vec![]);
    assert_eq!(named, "()");
    fmt_named_arglist(&mut named, &vec![("a".to_string(), 1)]);
    assert_eq!(named, "()(\"a\": _1)");
}

#[test]
fn labels_are_quoted_as_debug_quotes_them() {
    let labels = vec![("a\"b\\c\nd".to_string(), 1), ("\0\u{7}".to_string(), 2)];
    let mut out = String::new();
    fmt_named_arglist(&mut out, &labels);
    assert_eq!(out, format!("({:?}: _1, {:?}: _2)", "a\"b\\c\nd", "\0\u{7}"));
    assert_eq!(out, "(\"a\\\"b\\\\c\\nd\": _1, \"\\0\\u{7}\": _2)");
}

#[test]
fn labelled_arglist_writes_labels_as_given() {
    let mut out = String::new();
    fmt_labelled_arglist(&mut out, &vec![("x".to_string(), 3), ("'y'".to_string(), 40)]);
    assert_eq!(out, "(x: _3, 'y': _40)");
}

#[test]
fn decimal_numbers() {
    let mut out = String::new();
    push_decimal(&mut out, 0);
    push_decimal(&mut out, 1234567890);
    assert_eq!(out, "01234567890");
    let mut max = String::new();
    push_decimal(&mut max, usize::MAX);
    assert_eq!(max, usize::MAX.to_string());
}

#[test]
fn statement_and_phi_lines() {
    assert_eq!(Statement::Nop.render(), "\tnop;\n");
    assert_eq!(Statement::Deallocate(42).render(), "\tdeallocate _42;\n");
    let phi = PhiNode { place: 4, opts: vec![("then".to_string(), 2), ("else".to_string(), 3)] };
    assert_eq!(phi.render(), "\tlet _4 = ϕ(\"then\": _2, \"else\": _3);\n");
}
