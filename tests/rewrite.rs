use lazy_rewrite::engine::{translate_items, TopItem};
use lazy_rewrite::grammar::{parse_block, Expected};
use lazy_rewrite::pipeline::{rewrite_items, translate, TranslateError};
use lazy_rewrite::render::render;
use lazy_rewrite::token::{Delim, Tok, TokKind};

fn ident(s: &str) -> Tok {
    Tok { kind: TokKind::Ident(s.to_string()), line: 1, column: 0 }
}

fn punct(c: char, joint: bool) -> Tok {
    Tok { kind: TokKind::Punct(c, joint), line: 1, column: 0 }
}

fn lit(s: &str) -> Tok {
    Tok { kind: TokKind::Literal(s.to_string()), line: 1, column: 0 }
}

fn count_decl(name: &str, value: &str) -> Vec<Tok> {
    vec![
        ident("static"),
        ident("ref"),
        ident(name),
        punct(':', false),
        ident("u32"),
        punct('=', false),
        lit(value),
        punct(';', false),
    ]
}

/// Formats the rewritten statics as the command-line tool does.
fn print(source: &str) -> Result<String, TranslateError> {
    translate(source).map(|texts| {
        let items = texts.iter().map(|t| syn::Item::Static(syn::parse_str(t).unwrap())).collect();
        prettyplease::unparse(&syn::File { shebang: None, attrs: Vec::new(), items })
    })
}

fn syntax_error(source: &str) -> Expected {
    match translate(source) {
        Err(TranslateError::Syntax(e)) => e.expected,
        other => panic!("expected a syntax error, got {:?}", other),
    }
}

#[test]
fn end_to_end_example() {
    let out = print("lazy_static! { static ref COUNT: u32 = 1 + 1; }").unwrap();
    assert_eq!(out, "static COUNT: Lazy<u32> = Lazy::new(|| 1 + 1);\n");
}

#[test]
fn empty_input_gives_empty_output() {
    assert_eq!(print("").unwrap().trim(), "");
    assert_eq!(print("fn main() {}\nstruct S;").unwrap().trim(), "");
    assert_eq!(print("lazy_static! {}").unwrap().trim(), "");
}

#[test]
fn two_declarations_keep_order() {
    let src = "lazy_static! {\n    static ref A: u8 = 1;\n    static ref B: u16 = 2;\n}";
    let out = print(src).unwrap();
    assert_eq!(out, "static A: Lazy<u8> = Lazy::new(|| 1);\nstatic B: Lazy<u16> = Lazy::new(|| 2);\n");
}

#[test]
fn blocks_are_joined_in_file_order() {
    let src = "lazy_static! { static ref A: u8 = 1; }\nfn f() {}\nlazy_static! { static ref B: u8 = 2; static ref C: u8 = 3; }";
    let out = print(src).unwrap();
    let a = out.find("static A").unwrap();
    let b = out.find("static B").unwrap();
    let c = out.find("static C").unwrap();
    assert!(a < b && b < c);
    assert_eq!(out.matches("Lazy::new").count(), 3);
}

#[test]
fn fields_are_kept() {
    let src = "lazy_static! { #[allow(dead_code)] #[cfg(test)] pub(crate) static ref MAP: Vec<u8> = Vec::new(); }";
    let out = print(src).unwrap();
    assert_eq!(
        out,
        "#[allow(dead_code)]\n#[cfg(test)]\npub(crate) static MAP: Lazy<Vec<u8>> = Lazy::new(|| Vec::new());\n"
    );
}

#[test]
fn arrow_and_bindings_stay_in_the_type() {
    let out = print("lazy_static! { static ref F: fn() -> u32 = f; }").unwrap();
    assert_eq!(out, "static F: Lazy<fn() -> u32> = Lazy::new(|| f);\n");
    let out = print("lazy_static! { static ref I: Box<dyn Iterator<Item = u8>> = g(); }").unwrap();
    assert_eq!(out, "static I: Lazy<Box<dyn Iterator<Item = u8>>> = Lazy::new(|| g());\n");
}

#[test]
fn other_macros_are_ignored() {
    let src = "other! { this is not a declaration }\nfoo::lazy_static! { static X: = ; }\n::lazy_static! { nonsense }\nlazy_static! { static ref A: u8 = 1; }";
    let out = print(src).unwrap();
    assert_eq!(out, "static A: Lazy<u8> = Lazy::new(|| 1);\n");
}

#[test]
fn missing_ref_fails() {
    assert_eq!(syntax_error("lazy_static! { static COUNT: u32 = 1; }"), Expected::Ref);
}

#[test]
fn missing_type_fails() {
    assert_eq!(syntax_error("lazy_static! { static ref COUNT = 1; }"), Expected::Colon);
    assert_eq!(syntax_error("lazy_static! { static ref COUNT: = 1; }"), Expected::Type);
}

#[test]
fn missing_semicolon_fails() {
    assert_eq!(syntax_error("lazy_static! { static ref COUNT: u32 = 1 }"), Expected::Semicolon);
    // Without its `;` the first expression runs into the next declaration;
    // the `;` was expected where the expression `1` ends.
    match translate("lazy_static! { static ref A: u32 = 1 static ref B: u32 = 2; }") {
        Err(TranslateError::Syntax(e)) => {
            assert_eq!(e.expected, Expected::Semicolon);
            assert_eq!((e.line, e.column), (1, 37));
        }
        other => panic!("expected a syntax error, got {:?}", other),
    }
}

#[test]
fn other_syntax_errors() {
    assert_eq!(syntax_error("lazy_static! { ref A: u8 = 1; }"), Expected::Static);
    assert_eq!(syntax_error("lazy_static! { static ref 3: u8 = 1; }"), Expected::Name);
    assert_eq!(syntax_error("lazy_static! { static ref A: u8 = ; }"), Expected::Expression);
    assert_eq!(syntax_error("lazy_static! { # static ref A: u8 = 1; }"), Expected::AttributeBody);
    assert_eq!(syntax_error("lazy_static! { static ref A: u8 }"), Expected::Equals);
}

#[test]
fn one_bad_block_fails_the_file() {
    let src = "lazy_static! { static ref A: u8 = 1; }\nlazy_static! { static B: u8 = 2; }";
    assert_eq!(syntax_error(src), Expected::Ref);
}

#[test]
fn syntax_error_points_at_the_token() {
    let src = "lazy_static! {\n    static ref A: u8 = 1;\n    static B: u8 = 2;\n}";
    match translate(src) {
        Err(TranslateError::Syntax(e)) => {
            assert_eq!(e.expected, Expected::Ref);
            assert_eq!((e.line, e.column), (3, 11));
        }
        other => panic!("expected a syntax error, got {:?}", other),
    }
}

#[test]
fn unparsable_file_fails() {
    match translate("fn (") {
        Err(TranslateError::Parse { line, .. }) => assert_eq!(line, 1),
        other => panic!("expected a parse error, got {:?}", other),
    }
}

#[test]
fn malformed_type_fails_at_its_first_token() {
    match translate("lazy_static! {\n static ref A: 1 2 = 3; }") {
        Err(TranslateError::Syntax(e)) => {
            assert_eq!(e.expected, Expected::Type);
            assert_eq!((e.line, e.column), (2, 15));
        }
        other => panic!("expected a syntax error, got {:?}", other),
    }
    match translate("lazy_static! { static ref X: u8 u8 = 0; }") {
        Err(TranslateError::Syntax(e)) => assert_eq!((e.expected, e.column), (Expected::Equals, 32)),
        other => panic!("expected a syntax error, got {:?}", other),
    }
}

#[test]
fn malformed_pieces_fail() {
    assert_eq!(syntax_error("lazy_static! { static ref fn: u8 = 0; }"), Expected::Name);
    assert_eq!(syntax_error("lazy_static! { pub(foo) static ref A: u8 = 0; }"), Expected::Visibility);
    assert_eq!(syntax_error("lazy_static! { #[1] static ref A: u8 = 0; }"), Expected::AttributeBody);
    assert_eq!(syntax_error("lazy_static! { static ref A: u8 = + ; }"), Expected::Expression);
    match translate("lazy_static! { static ref X: u8> = 1; fn f() {} static Y: Lazy<u8 = 2; }") {
        Err(TranslateError::Syntax(e)) => assert_eq!((e.expected, e.column), (Expected::Equals, 31)),
        other => panic!("expected a syntax error, got {:?}", other),
    }
}

#[test]
fn missing_semicolon_points_at_the_next_token() {
    match translate("lazy_static! { static ref A: u32 = 1 x; }") {
        Err(TranslateError::Syntax(e)) => {
            assert_eq!(e.expected, Expected::Semicolon);
            assert_eq!((e.line, e.column), (1, 37));
        }
        other => panic!("expected a syntax error, got {:?}", other),
    }
}

#[test]
fn rewritten_texts_come_in_order() {
    let texts = translate("lazy_static! { static ref A: u8 = 1; static ref B: u8 = 2; }").unwrap();
    assert_eq!(
        texts,
        vec![
            "static A : Lazy < u8 > = Lazy :: new ( || 1 ) ; ".to_string(),
            "static B : Lazy < u8 > = Lazy :: new ( || 2 ) ; ".to_string(),
        ]
    );
}

#[test]
fn parse_error_carries_message_and_place() {
    match translate("fn f() {}\nfn (x) {}") {
        Err(TranslateError::Parse { message, line, .. }) => {
            assert!(!message.is_empty());
            assert_eq!(line, 2);
        }
        other => panic!("expected a parse error, got {:?}", other),
    }
}

#[test]
fn raw_token_forms_are_printed() {
    let out = print("lazy_static! { static ref X: usize = builtin # offset_of(S, f); }").unwrap();
    assert!(out.starts_with("static X: Lazy<usize> = Lazy::new(|| builtin # offset_of("));
}

#[test]
fn block_parses_by_hand() {
    let mut toks = count_decl("A", "1");
    toks.extend(count_decl("B", "2"));
    let ds = parse_block(&toks).unwrap();
    assert_eq!(ds.len(), 2);
    assert!(matches!(&ds[0].ident.kind, TokKind::Ident(s) if s == "A"));
    assert!(matches!(&ds[1].ident.kind, TokKind::Ident(s) if s == "B"));
    assert!(matches!(&ds[1].expr[0].kind, TokKind::Literal(s) if s == "2"));
}

#[test]
fn empty_block_has_no_declarations() {
    assert_eq!(parse_block(&Vec::new()).unwrap().len(), 0);
}

#[test]
fn error_at_end_points_at_last_token() {
    let mut toks = count_decl("A", "1");
    toks.pop();
    toks[6].line = 4;
    toks[6].column = 9;
    let e = parse_block(&toks).unwrap_err();
    assert_eq!(e.expected, Expected::Semicolon);
    assert_eq!((e.index, e.line, e.column), (7, 4, 9));
}

#[test]
fn rewrite_renders_lazy_form() {
    let toks = vec![
        ident("static"),
        ident("ref"),
        ident("COUNT"),
        punct(':', false),
        ident("u32"),
        punct('=', false),
        lit("1"),
        punct('+', false),
        lit("1"),
        punct(';', false),
    ];
    let mut ds = parse_block(&toks).unwrap();
    let out = ds.remove(0).into_lazy();
    assert_eq!(render(&out), "static COUNT : Lazy < u32 > = Lazy :: new ( || 1 + 1 ) ; ");
}

#[test]
fn groups_render_with_delimiters() {
    let toks = vec![
        punct('#', false),
        Tok { kind: TokKind::Open(Delim::Bracket), line: 1, column: 0 },
        ident("inline"),
        Tok { kind: TokKind::Close(Delim::Bracket), line: 1, column: 0 },
        punct('\'', true),
        ident("a"),
    ];
    assert_eq!(render(&toks), "# [ inline ] 'a ");
}

#[test]
fn only_named_invocations_are_read() {
    let items = vec![
        TopItem::Other,
        TopItem::Invocation { name: Some("other".to_string()), tokens: vec![ident("junk")] },
        TopItem::Invocation { name: None, tokens: vec![ident("junk")] },
        TopItem::Invocation { name: Some("lazy_static".to_string()), tokens: count_decl("A", "1") },
    ];
    let ds = translate_items(&items).unwrap();
    assert_eq!(ds.len(), 1);
    assert!(matches!(&ds[0].ident.kind, TokKind::Ident(s) if s == "A"));
}

#[test]
fn rewritten_text_and_place() {
    let mut toks = count_decl("A", "7");
    toks[0].line = 2;
    toks[0].column = 4;
    let items = vec![
        TopItem::Invocation { name: Some("lazy_static".to_string()), tokens: toks },
        TopItem::Invocation { name: Some("lazy_static".to_string()), tokens: count_decl("B", "8") },
    ];
    let ts = rewrite_items(&items).unwrap();
    assert_eq!(ts.len(), 2);
    assert_eq!(ts[0], ("static A : Lazy < u32 > = Lazy :: new ( || 7 ) ; ".to_string(), 2, 4));
    assert_eq!(ts[1].0, "static B : Lazy < u32 > = Lazy :: new ( || 8 ) ; ");
}

#[test]
fn rewrite_items_reports_the_first_bad_block() {
    let mut bad = count_decl("A", "1");
    bad.remove(1);
    let items = vec![
        TopItem::Invocation { name: Some("lazy_static".to_string()), tokens: count_decl("B", "2") },
        TopItem::Invocation { name: Some("lazy_static".to_string()), tokens: bad },
    ];
    let e = rewrite_items(&items).unwrap_err();
    assert_eq!((e.expected, e.index), (Expected::Ref, 1));
}

#[test]
fn doc_comments_are_kept() {
    let out = print("lazy_static! {\n    /// cached\n    static ref A: u8 = 1;\n}").unwrap();
    assert_eq!(out, "/// cached\nstatic A: Lazy<u8> = Lazy::new(|| 1);\n");
}

#[test]
fn semicolons_inside_groups_do_not_end_the_expression() {
    let out = print("lazy_static! { static ref A: u8 = { let x = 1; x }; }").unwrap();
    assert!(out.starts_with("static A: Lazy<u8> = Lazy::new(|| {"));
    assert!(out.contains("let x = 1;"));
    assert_eq!(out.matches("static").count(), 1);
}

#[test]
fn restricted_visibility_is_kept() {
    let out = print("lazy_static! { pub(in crate::a) static ref A: [u8; 2] = [1, 2]; }").unwrap();
    assert_eq!(out, "pub(in crate::a) static A: Lazy<[u8; 2]> = Lazy::new(|| [1, 2]);\n");
}
