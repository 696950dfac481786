//! Parts of the library on their own.
use ulang::ast::{BinOp, Type};
use ulang::consts::const_int_op;
use ulang::error::{line_number, render_error, render_error_opt};
use ulang::lexer::Lexer;
use ulang::link::{link_outcome, linker_arguments, LinkArg};
use ulang::llvm::accept;
use ulang::names::{
    get_module_path_for_item_name, is_type_param, mangle_generic_instance, show_type,
    trait_method_name, type_to_mangled_name,
};
use ulang::state::{CodeGen, CodegenError, ConstValue};
use ulang::subst::substitute_type_params;
use ulang::text::{show_i64, show_u64};
use ulang::token::{Span, Token};
use ulang::types::{array_type_key, int_type_width, is_signed, type_width};

fn strings(parts: &[&str]) -> Vec<String> {
    parts.iter().map(|p| p.to_string()).collect()
}

fn tokens(source: &str) -> Vec<(Token, Span)> {
    let mut lexer = Lexer::new(source);
    let mut out = vec![];
    loop {
        let (t, s) = lexer.next_token().unwrap();
        let last = t == Token::Eof;
        out.push((t, s));
        if last {
            return out;
        }
    }
}

#[test]
fn tokens_go_on_and_stay_inside() {
    let source = "fn f(a: i32) // note\n { a + 10u8 == \"x\\n\" }";
    let mut at = 0;
    for (t, s) in tokens(source) {
        assert!(at <= s.lo && s.hi <= source.len());
        if t == Token::Eof {
            assert_eq!((s.lo, s.hi), (source.len(), source.len()));
        } else {
            assert!(s.lo < s.hi);
        }
        at = s.hi;
    }
}

#[test]
fn the_end_is_read_again_and_again() {
    let mut lexer = Lexer::new("x ");
    assert_eq!(lexer.next_token().unwrap().0, Token::Ident("x".to_string()));
    for _ in 0..3 {
        assert_eq!(lexer.next_token().unwrap(), (Token::Eof, Span { lo: 2, hi: 2 }));
        assert_eq!(lexer.pos(), 2);
    }
}

#[test]
fn blanks_and_comments_do_not_matter() {
    let plain: Vec<Token> = tokens("a+b").into_iter().map(|t| t.0).collect();
    let spaced: Vec<Token> =
        tokens(" \t a // one\n // two\r\n +\n\n b // three").into_iter().map(|t| t.0).collect();
    assert_eq!(plain, spaced);
}

#[test]
fn leading_blanks_and_comments_shift_what_is_read() {
    let pre = "\n // \u{e9}t\u{e9} \"\n\t//\n ";
    for text in ["fn f(a: i32) { \"x\\n\" + 1.5 }", "a ? b", "1 .. 2", "\"open", "// only\n", "\u{e9}"] {
        let whole = format!("{}{}", pre, text);
        let (mut plain, mut shifted) = (Lexer::new(text), Lexer::new(&whole));
        for _ in 0..20 {
            match (plain.next_token(), shifted.next_token()) {
                (Ok((t, a)), Ok((u, b))) => {
                    assert_eq!(t, u);
                    assert_eq!((a.lo + pre.len(), a.hi + pre.len()), (b.lo, b.hi));
                }
                (a, b) => assert_eq!(a, b),
            }
            assert_eq!(plain.pos() + pre.len(), shifted.pos());
        }
    }
}

#[test]
fn numbers_are_read_back() {
    for n in [0, 7, 10, 255, 4096, i64::MAX] {
        assert_eq!(tokens(&show_i64(n))[0].0, Token::IntLit(n));
    }
    assert_eq!(show_u64(u64::MAX), "18446744073709551615");
    assert_eq!(show_i64(i64::MIN), "-9223372036854775808");
    assert_eq!(
        Lexer::new("9223372036854775808").next_token(),
        Err("invalid integer literal '9223372036854775808'".to_string())
    );
}

#[test]
fn strings_are_read_back() {
    assert_eq!(
        tokens("\"a\\n\\\\\\\"b\"")[0].0,
        Token::StrLit("a\n\\\"b".to_string())
    );
    assert_eq!(
        Lexer::new("\"a\\t\"").next_token(),
        Err("invalid escape sequence '\\t'".to_string())
    );
    assert_eq!(
        Lexer::new("\"a").next_token(),
        Err("unterminated string literal".to_string())
    );
    assert_eq!(
        Lexer::new("\"a\\").next_token(),
        Err("unterminated string literal after backslash".to_string())
    );
    assert_eq!(Lexer::new("..x").next_token(), Err("unexpected token '..'".to_string()));
    assert_eq!(Lexer::new("\u{e9}").next_token(), Err("unexpected character '\u{e9}'".to_string()));
}

#[test]
fn suffixes_are_type_names() {
    for s in ["i8", "i16", "i32", "i64", "u8", "u16", "u32", "u64", "usize", "isize", "f32", "f64"] {
        let keyword = tokens(s)[0].0.clone();
        match tokens(&format!("1{}", s))[0].0.clone() {
            Token::IntSuffixLit(1, t) => assert_eq!(*t, keyword),
            other => panic!("{:?}", other),
        }
    }
    assert_eq!(tokens("1bool").len(), 3);
}

#[test]
fn linkers_get_their_arguments() {
    let call = linker_arguments(
        &strings(&["-fuse-ld=lld"]),
        &strings(&["-lm  -lc", "", "\u{a0}-g\u{2003}-O2\n"]),
    );
    let text = |t: &str| LinkArg::Text(t.to_string());
    let expected = vec![
        text("-fuse-ld=lld"),
        LinkArg::Object,
        text("-o"),
        LinkArg::Executable,
        text("-lm"),
        text("-lc"),
        text("-g"),
        text("-O2"),
    ];
    assert_eq!(call, expected);
    assert!(link_outcome(true, "ignored").is_ok());
    assert_eq!(link_outcome(false, "no main").err().unwrap().message(), "linker failed: no main");
}

#[test]
fn llvm_messages_become_errors() {
    assert_eq!(accept(Ok("module".to_string())).unwrap(), "module");
    assert_eq!(
        accept(Err("bad".to_string())).err().unwrap().message(),
        "LLVM does not accept the module: bad"
    );
    let cg = CodeGen::new_native(String::new(), String::new());
    assert_eq!(cg.emit_ir().unwrap(), "; ModuleID = 'ulang'\nsource_filename = \"ulang\"\n");
}

#[test]
fn lines_are_counted_from_one() {
    let source = "a\nb\u{e9}\n\nc";
    assert_eq!(line_number(source, 0), 1);
    assert_eq!(line_number(source, 1), 1);
    assert_eq!(line_number(source, 2), 2);
    assert_eq!(line_number(source, 5), 2);
    assert_eq!(line_number(source, 6), 3);
    assert_eq!(line_number(source, 7), 4);
    assert_eq!(line_number(source, 8), 4);
}

#[test]
fn errors_are_shown_with_their_source() {
    let source = "let x = y;\n";
    let text = render_error(source, "a.u", Span { lo: 8, hi: 9 }, "codegen error", "not known");
    for part in ["codegen error", "a.u", "let x = y;", "not known"] {
        assert!(text.contains(part), "{}", text);
    }
    assert_eq!(
        render_error_opt(source, "a.u", Some(Span { lo: 8, hi: 9 }), "codegen error", "not known"),
        text
    );
    let later = "let x = 1;\nlet y = 2;\nlet z = y;\n";
    let text = render_error(later, "a.u", Span { lo: 30, hi: 31 }, "codegen error", "here");
    assert_eq!(line_number(later, 30), 3);
    assert!(text.contains("a.u:3:9"), "{}", text);
    assert_eq!(render_error_opt(source, "a.u", None, "codegen error", "not known"), "codegen error: not known");
}

#[test]
fn types_are_shown_as_they_are_built() {
    assert_eq!(show_type(&Type::I32), "I32");
    assert_eq!(show_type(&Type::Struct("a\"b".to_string())), "Struct(\"a\\\"b\")");
    assert_eq!(
        show_type(&Type::GenericInstance("Option".to_string(), vec![Type::Bool])),
        "GenericInstance(\"Option\", [Bool])"
    );
    assert_eq!(
        show_type(&Type::Ref { inner: Box::new(Type::Str), is_mut: true }),
        "Ref { inner: Str, is_mut: true }"
    );
}

#[test]
fn names_of_instances_and_methods() {
    let args = vec![Type::I32, Type::Struct("P".to_string())];
    assert_eq!(mangle_generic_instance("Pair", &args), "Pair__i32_P");
    assert_eq!(type_to_mangled_name(&Type::U8), "u8");
    let option = Type::GenericInstance("Option".to_string(), vec![Type::I32]);
    assert_eq!(type_to_mangled_name(&option), "Option__i32");
    assert_eq!(trait_method_name(&Type::I64, "Clone", "clone"), "__builtin_Clone_clone_i64");
    assert_eq!(array_type_key(&Type::I32, 3), "array_i32_3");
    assert!(is_type_param(&Type::Struct("T".to_string())));
    assert!(!is_type_param(&Type::Struct("t".to_string())));
    assert!(!is_type_param(&Type::Struct("To".to_string())));
}

#[test]
fn modules_of_items() {
    assert_eq!(get_module_path_for_item_name("f"), strings(&[]));
    assert_eq!(get_module_path_for_item_name("a::b::f"), strings(&["a", "b"]));
    assert_eq!(get_module_path_for_item_name("a::Point::new/2"), strings(&["a"]));
    assert_eq!(get_module_path_for_item_name("__trait_Drop_drop_m::Foo"), strings(&["m"]));
    assert_eq!(get_module_path_for_item_name("__trait_Drop_drop_Foo"), strings(&[]));
    assert_eq!(get_module_path_for_item_name("__trait_Drop_drop_a::b::Foo"), strings(&["a", "b"]));
    assert_eq!(
        get_module_path_for_item_name("__trait_Index_index_mut_m::Foo"),
        strings(&["m"])
    );
    assert_eq!(get_module_path_for_item_name("__trait_Index_index_mut_Foo"), strings(&[]));
    assert_eq!(get_module_path_for_item_name("a::\u{c9}t::f"), strings(&["a"]));
}

#[test]
fn parameters_are_replaced() {
    let t = Type::Tuple(vec![Type::Struct("T".to_string()), Type::Struct("U".to_string()), Type::I8]);
    let out = substitute_type_params(&t, &strings(&["T", "U"]), &vec![Type::Bool, Type::F64]);
    assert_eq!(show_type(&out), "Tuple([Bool, F64, I8])");
    let same = substitute_type_params(&t, &strings(&[]), &vec![Type::Bool]);
    assert_eq!(show_type(&same), show_type(&t));
}

#[test]
fn integer_types() {
    assert_eq!(int_type_width(&Type::U16), Some(16));
    assert_eq!(int_type_width(&Type::F32), None);
    assert_eq!(type_width(&Type::I64), 64);
    assert!(is_signed(&Type::Isize));
    assert!(!is_signed(&Type::Usize));
}

#[test]
fn constant_integers_wrap() {
    let here = Span { lo: 1, hi: 2 };
    let op = |op: BinOp, l: i64, r: i64| match const_int_op(op, l, r, here) {
        Ok(ConstValue::Int(n)) => n,
        other => panic!("{:?}", other.map(|_| ())),
    };
    assert_eq!(op(BinOp::Add, i64::MAX, 1), i64::MIN);
    assert_eq!(op(BinOp::Sub, i64::MIN, 1), i64::MAX);
    assert_eq!(op(BinOp::Mul, i64::MAX, 2), -2);
    assert_eq!(op(BinOp::Div, -7, 2), -3);
    let e = const_int_op(BinOp::Div, 1, 0, here).err().unwrap();
    assert_eq!(e.message(), "division by zero in const expression");
    assert_eq!(e.span, Some(here));
    let e = const_int_op(BinOp::Div, i64::MIN, -1, here).err().unwrap();
    assert_eq!(e.message(), "internal: attempt to divide with overflow");
}

#[test]
fn errors_are_made_of_texts() {
    let e = CodegenError::from_text("no such thing");
    assert_eq!((e.message(), e.span), ("no such thing".to_string(), None));
    let e = CodegenError::from("no such thing".to_string());
    assert_eq!((e.message(), e.span), ("no such thing".to_string(), None));
}

#[test]
fn stepping_stops_at_the_end() {
    let mut lexer = Lexer::new("a\u{e9}");
    lexer.advance();
    assert_eq!(lexer.pos(), 1);
    lexer.advance();
    assert_eq!(lexer.pos(), 3);
    lexer.advance();
    assert_eq!(lexer.pos(), 3);
}
