use proc_macro2::{Delimiter as PmDelimiter, Spacing, TokenStream, TokenTree};
use rsscript::class::{ClassStmtValue, ClassVisibility};
use rsscript::expr::Expr;
use rsscript::generics::GenericsParam;
use rsscript::interface::InterfaceItem;
use rsscript::item::Item;
use rsscript::program::parse;
use rsscript::stmt::{parse_stmt, ArmDecl, ForArgs, StmtValue};
use rsscript::token::{Delimiter, ErrorKind, Expected, Rule, Token};
use rsscript::ty::{Bound, PatKind};

fn flatten(ts: TokenStream, out: &mut Vec<Token>) {
    for tt in ts {
        match tt {
            TokenTree::Ident(i) => out.push(Token::Ident(i.to_string())),
            TokenTree::Punct(p) => out.push(Token::Punct {
                ch: p.as_char(),
                joint: p.spacing() == Spacing::Joint,
            }),
            TokenTree::Literal(l) => out.push(Token::Literal(l.to_string())),
            TokenTree::Group(g) => {
                let d = match g.delimiter() {
                    PmDelimiter::Parenthesis => Some(Delimiter::Parenthesis),
                    PmDelimiter::Brace => Some(Delimiter::Brace),
                    PmDelimiter::Bracket => Some(Delimiter::Bracket),
                    PmDelimiter::None => None,
                };
                if let Some(d) = d {
                    out.push(Token::Open(d));
                }
                flatten(g.stream(), out);
                if let Some(d) = d {
                    out.push(Token::Close(d));
                }
            }
        }
    }
}

fn lex(src: &str) -> Vec<Token> {
    let mut out = Vec::new();
    flatten(src.parse::<TokenStream>().unwrap(), &mut out);
    out
}

fn text(toks: &[Token], i: usize) -> String {
    match &toks[i] {
        Token::Ident(s) | Token::Literal(s) => s.clone(),
        Token::Punct { ch, .. } => ch.to_string(),
        Token::Open(_) => "(open)".to_string(),
        Token::Close(_) => "(close)".to_string(),
    }
}

fn expr(src: &str) -> (Vec<Token>, Expr) {
    let toks = lex(src);
    let (e, end) = rsscript::expr::parse_expr(&toks, 0, toks.len()).unwrap();
    assert_eq!(end, toks.len());
    (toks, e)
}

#[test]
fn class_with_bounded_generic_field_and_method() {
    let toks = lex("class Foo<T extends Bar> { x = 1; function bar() { return x; } }");
    let program = parse(&toks).unwrap();
    assert_eq!(program.items.len(), 1);
    let class = match &program.items[0].item {
        Item::Class(c) => c,
        _ => panic!("not a class"),
    };
    assert_eq!(text(&toks, class.ident), "Foo");
    let generics = class.generics.as_ref().unwrap();
    assert_eq!(generics.params.items.len(), 1);
    match &generics.params.items[0] {
        GenericsParam::Type(p) => {
            assert_eq!(text(&toks, p.ident), "T");
            assert!(p.extends_token.is_some());
            assert_eq!(p.bounds.items.len(), 1);
            match &p.bounds.items[0] {
                Bound::Type(t) => assert_eq!(text(&toks, t.span.lo), "Bar"),
                _ => panic!("bound is not a type"),
            }
        }
        _ => panic!("not a type parameter"),
    }
    assert_eq!(class.stmts.len(), 2);
    match &class.stmts[0].stmt {
        ClassStmtValue::Field(f) => {
            assert_eq!(text(&toks, f.ident.ident), "x");
            match &*f.init.as_ref().unwrap().expr {
                Expr::Lit(l) => assert_eq!(text(&toks, l.lit), "1"),
                _ => panic!("initializer is not a literal"),
            }
        }
        _ => panic!("first member is not a field"),
    }
    assert!(class.stmts[0].semi_colon_token.is_some());
    match &class.stmts[1].stmt {
        ClassStmtValue::Method(m) => {
            assert_eq!(text(&toks, m.method.ident.ident), "bar");
            assert_eq!(m.method.body.stmts.len(), 1);
            match &m.method.body.stmts[0].stmt {
                StmtValue::Expr(Expr::Return(r)) => match r.expr.as_deref() {
                    Some(Expr::Path(p)) => {
                        assert_eq!(p.span.hi - p.span.lo, 1);
                        assert_eq!(text(&toks, p.span.lo), "x");
                    }
                    _ => panic!("return value is not a name"),
                },
                _ => panic!("method body is not a return"),
            }
        }
        _ => panic!("second member is not a method"),
    }
    assert_eq!(class.stmts[1].vis, ClassVisibility::Inherited);
}

#[test]
fn interface_function_signature_with_return_type() {
    let toks = lex("interface Shape { function area(): Number; }");
    let program = parse(&toks).unwrap();
    let iface = match &program.items[0].item {
        Item::Interface(i) => i,
        _ => panic!("not an interface"),
    };
    assert_eq!(text(&toks, iface.ident), "Shape");
    assert_eq!(iface.items.len(), 1);
    match &iface.items[0] {
        InterfaceItem::Function(f) => {
            assert_eq!(text(&toks, f.ident), "area");
            assert!(f.default.is_none());
            assert!(f.semicolon_token.is_some());
            let out = f.output.as_ref().unwrap();
            assert_eq!(out.ty.span.hi - out.ty.span.lo, 1);
            assert_eq!(text(&toks, out.ty.span.lo), "Number");
        }
        _ => panic!("not a function signature"),
    }
}

#[test]
fn interface_function_without_body_or_terminator_fails() {
    let toks = lex("interface Shape { function area(): Number }");
    let err = parse(&toks).unwrap_err();
    assert_eq!(err.kind, ErrorKind::Conflict);
}

#[test]
fn interface_associated_type_with_bounds_and_default() {
    let toks = lex("interface Shape { type Unit extends Clone + Copy = Meter; function area(): Unit { return 1; } }");
    let program = parse(&toks).unwrap();
    let iface = match &program.items[0].item {
        Item::Interface(i) => i,
        _ => panic!("not an interface"),
    };
    assert_eq!(iface.items.len(), 2);
    match &iface.items[0] {
        InterfaceItem::Type(t) => {
            assert_eq!(text(&toks, t.ident), "Unit");
            assert_eq!(t.bounds.as_ref().unwrap().bounds.items.len(), 2);
            assert_eq!(text(&toks, t.default.as_ref().unwrap().ty.span.lo), "Meter");
        }
        _ => panic!("not an associated type"),
    }
    match &iface.items[1] {
        InterfaceItem::Function(f) => assert!(f.default.is_some()),
        _ => panic!("not a function"),
    }
}

#[test]
fn for_in_header_is_chosen() {
    let toks = lex("for (let x in items) { }");
    let (s, end) = parse_stmt(&toks, 0, toks.len()).unwrap();
    assert_eq!(end, toks.len());
    match &s.stmt {
        StmtValue::For(f) => match &f.header {
            ForArgs::In(h) => {
                assert_eq!(text(&toks, h.iterable), "items");
                match &h.pat.kind {
                    PatKind::Ident { ident, .. } => assert_eq!(text(&toks, *ident), "x"),
                    _ => panic!("pattern is not a name"),
                }
            }
            ForArgs::Header(_) => panic!("three-clause header chosen"),
        },
        _ => panic!("not a for statement"),
    }
}

#[test]
fn three_clause_for_header() {
    let toks = lex("for (let i = 0; i < 10; i = i + 1) { } else { }");
    let (s, end) = parse_stmt(&toks, 0, toks.len()).unwrap();
    assert_eq!(end, toks.len());
    match &s.stmt {
        StmtValue::For(f) => {
            match &f.header {
                ForArgs::Header(h) => {
                    assert!(h.init.is_some());
                    assert!(h.cond.is_some());
                    assert!(h.after.is_some());
                }
                ForArgs::In(_) => panic!("for-in header chosen"),
            }
            assert!(f.else_block.is_some());
        }
        _ => panic!("not a for statement"),
    }
}

#[test]
fn switch_arms_own_one_statement_each() {
    let toks = lex("switch (x) { case 1: a(); case 2: b(); default: c(); }");
    let (s, end) = parse_stmt(&toks, 0, toks.len()).unwrap();
    assert_eq!(end, toks.len());
    let sw = match &s.stmt {
        StmtValue::Switch(sw) => sw,
        _ => panic!("not a switch"),
    };
    assert_eq!(sw.arms.len(), 3);
    for arm in &sw.arms {
        assert_eq!(arm.stmts.len(), 1);
    }
    match &sw.arms[0].decl {
        ArmDecl::Case(c) => assert_eq!(text(&toks, c.pat.span.lo), "1"),
        _ => panic!("first arm is not a case"),
    }
    match &sw.arms[1].decl {
        ArmDecl::Case(c) => assert_eq!(text(&toks, c.pat.span.lo), "2"),
        _ => panic!("second arm is not a case"),
    }
    assert!(matches!(sw.arms[2].decl, ArmDecl::Default(_)));
}

#[test]
fn arrow_function_with_expression_body() {
    let (toks, e) = expr("(a) => a + 1");
    match e {
        Expr::ArrowFunction(f) => {
            assert_eq!(f.inputs.inputs.items.len(), 1);
            assert!(f.output.is_none());
            match &f.body.stmt {
                StmtValue::Expr(Expr::Binary(b)) => assert_eq!(text(&toks, b.op.lo), "+"),
                _ => panic!("body is not an expression statement"),
            }
        }
        _ => panic!("not an arrow function"),
    }
}

#[test]
fn arrow_function_with_return_type_and_block() {
    let (_, e) = expr("(a, b): Number => { return a; }");
    match e {
        Expr::ArrowFunction(f) => {
            assert_eq!(f.inputs.inputs.items.len(), 2);
            assert!(f.output.is_some());
            assert!(matches!(f.body.stmt, StmtValue::Block(_)));
        }
        _ => panic!("not an arrow function"),
    }
}

#[test]
fn class_keyword_as_plain_identifier() {
    let (toks, e) = expr("foo(class)");
    match e {
        Expr::Call(c) => {
            assert_eq!(c.args.items.len(), 1);
            match &c.args.items[0] {
                Expr::Path(p) => assert_eq!(text(&toks, p.span.lo), "class"),
                _ => panic!("argument is not a name"),
            }
        }
        _ => panic!("not a call"),
    }
    let toks = lex("class;");
    let (s, end) = parse_stmt(&toks, 0, toks.len()).unwrap();
    assert_eq!(end, toks.len());
    assert!(matches!(s.stmt, StmtValue::Expr(Expr::Path(_))));
    assert!(s.punct.is_some());
}

#[test]
fn assignment_is_tried_before_binary() {
    let (_, e) = expr("a = b + c");
    match e {
        Expr::Assign(a) => {
            assert!(matches!(*a.left, Expr::Path(_)));
            assert!(matches!(*a.right, Expr::Binary(_)));
        }
        _ => panic!("not an assignment"),
    }
}

#[test]
fn arrow_is_tried_before_paren() {
    let (_, e) = expr("(a)");
    assert!(matches!(e, Expr::Paren(_)));
    let (_, e) = expr("(a) => a");
    assert!(matches!(e, Expr::ArrowFunction(_)));
}

#[test]
fn conditional_is_right_recursive() {
    let (_, e) = expr("a ? b : c ? d : e");
    match e {
        Expr::If(i) => assert!(matches!(*i.else_branch, Expr::If(_))),
        _ => panic!("not a conditional"),
    }
}

#[test]
fn method_call_with_turbofish_and_field() {
    let (toks, e) = expr("a.b.c::<T>(x, y)");
    match e {
        Expr::MethodCall(m) => {
            assert_eq!(text(&toks, m.method), "c");
            assert!(m.turbofish.is_some());
            assert_eq!(m.args.items.len(), 2);
            assert!(matches!(*m.receiver, Expr::Field(_)));
        }
        _ => panic!("not a method call"),
    }
}

#[test]
fn await_array_infer_and_rust_escape() {
    let (_, e) = expr("await f()");
    assert!(matches!(e, Expr::Await(_)));
    let (_, e) = expr("[1, _, x]");
    match e {
        Expr::Array(a) => {
            assert_eq!(a.elems.items.len(), 3);
            assert!(matches!(a.elems.items[1], Expr::Infer(_)));
        }
        _ => panic!("not an array"),
    }
    let (toks, e) = expr("rust { let v: Vec<u8> = vec![]; }");
    match e {
        Expr::Rust(r) => {
            assert_eq!(r.close, toks.len() - 1);
            assert_eq!(r.open, 1);
        }
        _ => panic!("not a raw block"),
    }
}

#[test]
fn function_expression() {
    let (_, e) = expr("async function <T>(a: T): T { return a; }");
    match e {
        Expr::Function(f) => {
            assert!(f.async_token.is_some());
            assert!(f.generics.is_some());
            assert_eq!(f.inputs.args.items.len(), 1);
            assert!(f.inputs.args.items[0].ty.is_some());
        }
        _ => panic!("not a function expression"),
    }
}

#[test]
fn empty_argument_list() {
    let (_, e) = expr("f()");
    match e {
        Expr::Call(c) => {
            assert_eq!(c.args.items.len(), 0);
            assert_eq!(c.args.puncts.len(), 0);
        }
        _ => panic!("not a call"),
    }
}

#[test]
fn one_argument_with_trailing_separator() {
    let (toks, e) = expr("f(x,)");
    match e {
        Expr::Call(c) => {
            assert_eq!(c.args.items.len(), 1);
            assert_eq!(c.args.puncts.len(), 1);
            assert!(c.args.trailing_punct());
            assert_eq!(text(&toks, c.args.puncts[0]), ",");
        }
        _ => panic!("not a call"),
    }
}

#[test]
fn two_arguments_without_trailing_separator() {
    let (_, e) = expr("f(x, y)");
    match e {
        Expr::Call(c) => {
            assert_eq!(c.args.items.len(), 2);
            assert_eq!(c.args.puncts.len(), 1);
            assert!(!c.args.trailing_punct());
        }
        _ => panic!("not a call"),
    }
}

#[test]
fn unterminated_list_is_an_expectation_error() {
    let toks = vec![
        Token::Ident("f".to_string()),
        Token::Open(Delimiter::Parenthesis),
        Token::Ident("x".to_string()),
        Token::Punct { ch: ',', joint: false },
    ];
    let err = rsscript::expr::parse_expr(&toks, 0, toks.len()).unwrap_err();
    assert_eq!(err.pos, 1);
    assert_eq!(err.kind, ErrorKind::Expected(Expected::Close(Delimiter::Parenthesis)));
}

#[test]
fn arrow_parameters_edge_cases() {
    let (_, e) = expr("() => x");
    match e {
        Expr::ArrowFunction(f) => assert_eq!(f.inputs.inputs.items.len(), 0),
        _ => panic!("not an arrow function"),
    }
    let (_, e) = expr("(x,) => x");
    match e {
        Expr::ArrowFunction(f) => {
            assert_eq!(f.inputs.inputs.items.len(), 1);
            assert!(f.inputs.inputs.trailing_punct());
        }
        _ => panic!("not an arrow function"),
    }
}

#[test]
fn program_covers_every_token() {
    let src = "export function main(a: i32) { let x = a; if (x) { foo(); } else bar(); while (x) { } } type Id = u32; let y = 3;";
    let toks = lex(src);
    let program = parse(&toks).unwrap();
    assert_eq!(program.items.len(), 3);
    let mut emitted: Vec<String> = Vec::new();
    let mut expected_lo = 0;
    for item in &program.items {
        assert_eq!(item.span.lo, expected_lo);
        for i in item.span.lo..item.span.hi {
            emitted.push(text(&toks, i));
        }
        expected_lo = item.span.hi;
    }
    assert_eq!(expected_lo, toks.len());
    let all: Vec<String> = (0..toks.len()).map(|i| text(&toks, i)).collect();
    assert_eq!(emitted, all);
    match &program.items[0].item {
        Item::Function(f) => {
            assert!(f.vis.export_token.is_some());
            assert_eq!(text(&toks, f.ident), "main");
        }
        _ => panic!("not a function"),
    }
    assert!(matches!(program.items[1].item, Item::TypeAlias(_)));
    assert!(matches!(program.items[2].item, Item::Local(_)));
}

#[test]
fn class_members_with_modifiers() {
    let toks = lex("export class A extends B + C { impl(Admin) private #secret: u8 = 0; public static make<T>(x: T): A { return x; } protected type Out = u8; }");
    let program = parse(&toks).unwrap();
    let class = match &program.items[0].item {
        Item::Class(c) => c,
        _ => panic!("not a class"),
    };
    assert!(class.vis.export_token.is_some());
    assert_eq!(class.bounds.as_ref().unwrap().bounds.items.len(), 2);
    assert_eq!(class.stmts.len(), 3);
    assert!(class.stmts[0].restrict.is_some());
    assert!(matches!(class.stmts[0].vis, ClassVisibility::Private(_)));
    match &class.stmts[0].stmt {
        ClassStmtValue::Field(f) => {
            assert!(f.ident.sharp_token.is_some());
            assert!(f.ty.is_some());
            assert!(f.init.is_some());
        }
        _ => panic!("not a field"),
    }
    match &class.stmts[1].stmt {
        ClassStmtValue::Method(m) => {
            assert!(m.static_token.is_some());
            assert!(m.method.function_token.is_none());
            assert!(m.method.generics.is_some());
        }
        _ => panic!("not a method"),
    }
    assert!(matches!(class.stmts[2].vis, ClassVisibility::Protected(_)));
    assert!(matches!(class.stmts[2].stmt, ClassStmtValue::TypeAlias(_)));
}

#[test]
fn generics_with_lifetime_const_and_default() {
    let toks = lex("function f<'a extends 'b + 'c, const N: usize, T = u8>() { }");
    let program = parse(&toks).unwrap();
    let f = match &program.items[0].item {
        Item::Function(f) => f,
        _ => panic!("not a function"),
    };
    let g = f.generics.as_ref().unwrap();
    assert_eq!(g.params.items.len(), 3);
    match &g.params.items[0] {
        GenericsParam::Lifetime(l) => assert_eq!(l.bounds.items.len(), 2),
        _ => panic!("not a lifetime"),
    }
    assert!(matches!(g.params.items[1], GenericsParam::Const(_)));
    match &g.params.items[2] {
        GenericsParam::Type(t) => assert!(t.default.is_some()),
        _ => panic!("not a type parameter"),
    }
}

#[test]
fn do_while_with_else() {
    let toks = lex("do { x = x + 1; } while (x < 3) else { y(); }");
    let (s, end) = parse_stmt(&toks, 0, toks.len()).unwrap();
    assert_eq!(end, toks.len());
    match &s.stmt {
        StmtValue::DoWhile(d) => assert!(d.else_block.is_some()),
        _ => panic!("not a do-while"),
    }
}

#[test]
fn stray_token_is_no_item() {
    let toks = lex("x");
    let err = parse(&toks).unwrap_err();
    assert_eq!(err.kind, ErrorKind::NoMatch(Rule::Item));
    assert_eq!(err.pos, 0);
}

#[test]
fn missing_initializer_value_matches_no_expression() {
    let toks = lex("let a = ;");
    let err = parse(&toks).unwrap_err();
    assert_eq!(err.kind, ErrorKind::NoMatch(Rule::Expr));
}

#[test]
fn associated_type_needs_default_or_terminator() {
    let toks = lex("interface S { type A }");
    assert_eq!(parse(&toks).unwrap_err().kind, ErrorKind::Conflict);
    let toks = lex("interface S { type A = B }");
    let program = parse(&toks).unwrap();
    match &program.items[0].item {
        Item::Interface(i) => match &i.items[0] {
            InterfaceItem::Type(t) => {
                assert!(t.default.is_some());
                assert!(t.semicolon_token.is_none());
            }
            _ => panic!("not an associated type"),
        },
        _ => panic!("not an interface"),
    }
}

#[test]
fn type_parameter_bounds_without_extends() {
    let toks = lex("type Pair<T Clone + Copy, U> = (T, U);");
    let program = parse(&toks).unwrap();
    match &program.items[0].item {
        Item::TypeAlias(a) => {
            let g = a.generics.as_ref().unwrap();
            assert_eq!(g.params.items.len(), 2);
            match &g.params.items[0] {
                GenericsParam::Type(t) => {
                    assert!(t.extends_token.is_none());
                    assert_eq!(t.bounds.items.len(), 2);
                }
                _ => panic!("not a type parameter"),
            }
        }
        _ => panic!("not a type alias"),
    }
    assert!(program.items[0].semi_token.is_some());
}

#[test]
fn object_literal_members() {
    let toks = lex("{ a: 1, b, m(x) { return x; }, }");
    let (o, end) = rsscript::object::parse_object(&toks, 0, toks.len()).unwrap();
    assert_eq!(end, toks.len());
    assert_eq!(o.fields.items.len(), 3);
    assert!(o.fields.trailing_punct());
    match &o.fields.items[0] {
        rsscript::object::ObjectStmt::Field(f) => assert!(f.init.is_some()),
        _ => panic!("not a field"),
    }
    match &o.fields.items[1] {
        rsscript::object::ObjectStmt::Field(f) => assert!(f.init.is_none()),
        _ => panic!("not a field"),
    }
    assert!(matches!(o.fields.items[2], rsscript::object::ObjectStmt::ObjectMethod(_)));
}

#[test]
fn array_spread() {
    let toks = lex("...xs");
    let (x, end) = rsscript::expr::parse_array_expand(&toks, 0, toks.len()).unwrap();
    assert_eq!(end, 4);
    assert_eq!(text(&toks, x.ident), "xs");
    let toks = lex("..xs");
    assert!(rsscript::expr::parse_array_expand(&toks, 0, toks.len()).is_err());
}

#[test]
fn empty_source_is_an_empty_program() {
    let program = parse(&Vec::new()).unwrap();
    assert_eq!(program.items.len(), 0);
}

#[test]
fn no_statement_form_matches() {
    let toks = lex(";");
    let err = parse_stmt(&toks, 0, toks.len()).unwrap_err();
    assert_eq!(err.kind, ErrorKind::NoMatch(Rule::Stmt));
    assert_eq!(err.pos, 0);
}

#[test]
fn reference_and_generic_path_types() {
    let toks = lex("let x: &'a mut Vec<Map<K, V>> = y;");
    let program = parse(&toks).unwrap();
    match &program.items[0].item {
        Item::Local(l) => {
            let ty = &l.ty.as_ref().unwrap().ty;
            assert_eq!(ty.kind, rsscript::ty::TypeKind::Ref);
            let inner = ty.inner.as_ref().unwrap();
            assert_eq!(inner.kind, rsscript::ty::TypeKind::Path);
            assert_eq!(text(&toks, inner.span.lo), "Vec");
            let args = inner.args.as_ref().unwrap();
            assert_eq!(args.args.items.len(), 1);
            match &args.args.items[0] {
                Bound::Type(t) => assert_eq!(t.args.as_ref().unwrap().args.items.len(), 2),
                _ => panic!("argument is not a type"),
            }
        }
        _ => panic!("not a local"),
    }
}

#[test]
fn unclosed_generics_is_an_expectation_error() {
    let toks = lex("<T,");
    let err = rsscript::generics::parse_generics(&toks, 0, toks.len()).unwrap_err();
    assert_eq!(err.pos, toks.len());
    assert_eq!(err.kind, ErrorKind::Expected(Expected::Punct('>')));
    let toks = lex("<T");
    let err = rsscript::generics::parse_generics(&toks, 0, toks.len()).unwrap_err();
    assert_eq!(err.pos, toks.len());
    assert!(matches!(err.kind, ErrorKind::Expected(_)));
}

#[test]
fn default_body_and_terminator_conflict() {
    let toks = lex("interface S { function f() { }; }");
    assert_eq!(parse(&toks).unwrap_err().kind, ErrorKind::Conflict);
}

#[test]
fn assignment_statement_and_method_call_statement() {
    let toks = lex("x = 1;");
    let (s, end) = parse_stmt(&toks, 0, toks.len()).unwrap();
    assert_eq!(end, toks.len());
    match &s.stmt {
        StmtValue::Expr(Expr::Assign(a)) => {
            assert!(matches!(*a.left, Expr::Path(_)));
            assert!(matches!(*a.right, Expr::Lit(_)));
        }
        _ => panic!("not an assignment"),
    }
    let toks = lex("a.b(c);");
    let (s, end) = parse_stmt(&toks, 0, toks.len()).unwrap();
    assert_eq!(end, toks.len());
    match &s.stmt {
        StmtValue::Expr(Expr::MethodCall(m)) => {
            assert_eq!(text(&toks, m.method), "b");
            assert_eq!(m.args.items.len(), 1);
        }
        _ => panic!("not a method call"),
    }
}

#[test]
fn binary_operators_group_from_the_left() {
    let (_, e) = expr("a + b + c");
    match e {
        Expr::Binary(b) => {
            assert!(matches!(*b.left, Expr::Binary(_)));
            assert!(matches!(*b.right, Expr::Path(_)));
        }
        _ => panic!("not a binary expression"),
    }
}
