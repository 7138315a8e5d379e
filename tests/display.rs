use displaystr::body::emit_variants;
use displaystr::cursor::Cursor;
use displaystr::diagnostic::{
    EXPECTED_DISCRIMINANT, EXPECTED_ENUM, EXPECTED_ENUM_BODY, EXPECTED_STRING_LITERAL, UNEXPECTED_TOKEN,
};
use displaystr::fields::{count_positional, scan_named};
use displaystr::header::{parse_declaration, parse_modifiers, Declaration};
use displaystr::template::extract_string;
use displaystr::token::{Delimiter, Group, Ident, Literal, LiteralForm, Punct, Spacing, Span, TokenTree};
use displaystr::variant::Shape;
use displaystr::{display, CompileError};

/// Splits `src` into tokens; each token's span is its byte offset.
fn lex(src: &str) -> Vec<TokenTree> {
    let chars: Vec<char> = src.chars().collect();
    let mut pos = 0;
    let out = lex_until(&chars, &mut pos, None);
    assert_eq!(pos, chars.len());
    out
}

fn lex_until(chars: &[char], pos: &mut usize, close: Option<char>) -> Vec<TokenTree> {
    let mut out = Vec::new();
    while *pos < chars.len() {
        let start = *pos;
        let c = chars[start];
        let span = Span::At(start as u64);
        if c.is_whitespace() {
            *pos += 1;
        } else if Some(c) == close {
            *pos += 1;
            return out;
        } else if c.is_alphabetic() || c == '_' {
            while *pos < chars.len() && (chars[*pos].is_alphanumeric() || chars[*pos] == '_') {
                *pos += 1;
            }
            let name: String = chars[start..*pos].iter().collect();
            out.push(TokenTree::Ident(Ident { name, span }));
        } else if c.is_ascii_digit() {
            while *pos < chars.len() && chars[*pos].is_ascii_alphanumeric() {
                *pos += 1;
            }
            let text: String = chars[start..*pos].iter().collect();
            out.push(TokenTree::Literal(Literal { form: LiteralForm::Written(text), span }));
        } else if c == '"' {
            *pos += 1;
            while chars[*pos] != '"' {
                if chars[*pos] == '\\' {
                    *pos += 1;
                }
                *pos += 1;
            }
            *pos += 1;
            let text: String = chars[start..*pos].iter().collect();
            out.push(TokenTree::Literal(Literal { form: LiteralForm::Written(text), span }));
        } else if c == '(' || c == '[' || c == '{' {
            let (delimiter, end) = match c {
                '(' => (Delimiter::Parenthesis, ')'),
                '[' => (Delimiter::Bracket, ']'),
                _ => (Delimiter::Brace, '}'),
            };
            *pos += 1;
            let stream = lex_until(chars, pos, Some(end));
            out.push(TokenTree::Group(Group { delimiter, stream, span }));
        } else {
            *pos += 1;
            let joint = *pos < chars.len() && "#=<>:,.!&-+'".contains(chars[*pos]);
            let spacing = if joint { Spacing::Joint } else { Spacing::Alone };
            out.push(TokenTree::Punct(Punct { ch: c, spacing, span }));
        }
    }
    assert!(close.is_none(), "unclosed group");
    out
}

fn is_punct(t: &TokenTree, c: char) -> bool {
    matches!(t, TokenTree::Punct(p) if p.ch == c)
}

fn ident_name(t: &TokenTree) -> &str {
    match t {
        TokenTree::Ident(i) => &i.name,
        other => panic!("expected an identifier, found {:?}", other),
    }
}

fn group(t: &TokenTree) -> &Group {
    match t {
        TokenTree::Group(g) => g,
        other => panic!("expected a group, found {:?}", other),
    }
}

fn literal_text(l: &Literal) -> &str {
    match &l.form {
        LiteralForm::Written(s) => s,
        LiteralForm::Text(s) => s,
    }
}

/// Identifier names and punctuation of a token sequence, groups written out.
fn spelling(ts: &[TokenTree]) -> String {
    let mut out = String::new();
    for t in ts {
        match t {
            TokenTree::Ident(i) => {
                out.push_str(&i.name);
                out.push(' ');
            }
            TokenTree::Punct(p) => out.push(p.ch),
            TokenTree::Literal(l) => out.push_str(literal_text(l)),
            TokenTree::Group(g) => {
                let (open, close) = match g.delimiter {
                    Delimiter::Parenthesis => ('(', ')'),
                    Delimiter::Brace => ('{', '}'),
                    Delimiter::Bracket => ('[', ']'),
                    Delimiter::Invisible => (' ', ' '),
                };
                out.push(open);
                out.push_str(&spelling(&g.stream));
                out.push(close);
            }
        }
    }
    out
}

fn declaration(src: &str) -> Declaration {
    parse_declaration(lex(src)).expect("declaration parses")
}

/// The names an arm's pattern binds, in order.
fn arm_bindings(arm: &[TokenTree]) -> Vec<String> {
    assert_eq!(arm.len(), 12);
    group(&arm[4])
        .stream
        .iter()
        .filter(|t| !is_punct(t, ','))
        .map(|t| ident_name(t).to_string())
        .collect()
}

/// The literal and further arguments an arm renders with.
fn arm_arguments(arm: &[TokenTree]) -> &[TokenTree] {
    let call = group(&arm[10]);
    assert_eq!(spelling(&call.stream[..7]), "::core ::format_args !");
    &group(&call.stream[7]).stream
}

fn arm_literal(arm: &[TokenTree]) -> String {
    match &arm_arguments(arm)[0] {
        TokenTree::Literal(l) => literal_text(l).to_string(),
        other => panic!("expected a literal, found {:?}", other),
    }
}

/// Expands `src` with modifiers `args` through the parsed stages.
fn expand(args: &str, src: &str) -> (Vec<TokenTree>, Vec<Vec<TokenTree>>, Vec<CompileError>) {
    let (doc, mut errors) = parse_modifiers(&lex(args));
    let d = declaration(src);
    let (decl, arms, mut more) = emit_variants(d.variants, doc);
    errors.append(&mut more);
    let mut arms = arms;
    let mut split = Vec::new();
    while !arms.is_empty() {
        let rest = arms.split_off(12);
        split.push(arms);
        arms = rest;
    }
    (decl, split, errors)
}

#[test]
fn unit_variant() {
    let src = r#"enum UnitVariant {
        A = "unit variant",
        B() = "unit variant with `()`",
        C{} = "unit variant with `{{}}`"
    }"#;
    let d = declaration(src);
    assert!(matches!(d.variants[0].shape, Shape::Unit));
    assert!(matches!(d.variants[1].shape, Shape::Positional(0)));
    assert!(matches!(&d.variants[2].shape, Shape::Named(names) if names.is_empty()));
    let (decl, arms, errors) = expand("doc", src);
    assert!(errors.is_empty());
    assert_eq!(arm_literal(&arms[0]), "\"unit variant\"");
    assert_eq!(arm_literal(&arms[1]), "\"unit variant with `()`\"");
    assert_eq!(arm_literal(&arms[2]), "\"unit variant with `{{}}`\"");
    assert_eq!(spelling(&arms[1][..5]), "Self ::B ()");
    assert_eq!(spelling(&arms[2][..5]), "Self ::C {}");
    assert_eq!(
        spelling(&decl),
        "#[doc =\"unit variant\"]A ,#[doc =\"unit variant with `()`\"]B (),#[doc =\"unit variant with `{{}}`\"]C {}"
    );
}

#[test]
fn tuple_variant() {
    let src = r#"enum TupleVariant {
        A(u32) = "tuple 1: {_0}",
        B(u32,) = "tuple 1 with trailing comma: {_0}",
        C(u32, String) = "tuple 2: {_0}, {_1}",
        D(u32, String,) = ("tuple 2 with trailing comma: {_0}, {}", _1),
    }"#;
    let (decl, arms, errors) = expand("doc", src);
    assert!(errors.is_empty());
    assert_eq!(arm_bindings(&arms[0]), ["_0"]);
    assert_eq!(arm_bindings(&arms[1]), ["_0"]);
    assert_eq!(arm_bindings(&arms[2]), ["_0", "_1"]);
    assert_eq!(arm_bindings(&arms[3]), ["_0", "_1"]);
    assert_eq!(arm_literal(&arms[0]), "\"tuple 1: {_0}\"");
    assert_eq!(arm_literal(&arms[3]), "\"tuple 2 with trailing comma: {_0}, {}\"");
    assert_eq!(spelling(&arm_arguments(&arms[3])[1..]), ",_1 ");
    assert_eq!(
        spelling(&decl),
        "#[doc =\"tuple 1: {_0}\"]A (u32 ),#[doc =\"tuple 1 with trailing comma: {_0}\"]B (u32 ,),\
         #[doc =\"tuple 2: {_0}, {_1}\"]C (u32 ,String ),\
         #[doc =\"tuple 2 with trailing comma: {_0}, {}\"]D (u32 ,String ,),"
    );
}

#[test]
fn struct_variant() {
    let src = r#"enum StructVariant {
        A { first: u32 } = "tuple 1: {first}",
        B { first: u32, } = "tuple 1 with trailing comma: {first}",
        C { first: u32, second: String } = "tuple 2: {first}, {second}",
        D { first: u32, second: String, } = ("tuple 2 with trailing comma: {first}, {}", second)
    }"#;
    let (_, arms, errors) = expand("doc", src);
    assert!(errors.is_empty());
    assert_eq!(arm_bindings(&arms[0]), ["first"]);
    assert_eq!(arm_bindings(&arms[1]), ["first"]);
    assert_eq!(arm_bindings(&arms[2]), ["first", "second"]);
    assert_eq!(arm_bindings(&arms[3]), ["first", "second"]);
    assert_eq!(arm_literal(&arms[2]), "\"tuple 2: {first}, {second}\"");
    assert_eq!(spelling(&arm_arguments(&arms[3])[1..]), ",second ");
}

#[test]
fn unit_variant_binds_nothing() {
    let (_, arms, errors) = expand("", r#"enum E { A = "unit variant" }"#);
    assert!(errors.is_empty());
    assert_eq!(arms.len(), 1);
    assert!(arm_bindings(&arms[0]).is_empty());
    assert_eq!(arm_literal(&arms[0]), "\"unit variant\"");
    assert_eq!(arm_arguments(&arms[0]).len(), 1);
}

#[test]
fn redaction_binds_two_positional_fields() {
    let src = r#"pub enum DataStoreError {
        Redaction(String, Vec<String>) = (
            "the data for key `{_0}` is not available, but we recovered: {}",
            _1.join("+"),
        ),
    }"#;
    let (decl, arms, errors) = expand("", src);
    assert!(errors.is_empty());
    assert_eq!(arm_bindings(&arms[0]), ["_0", "_1"]);
    assert_eq!(
        arm_literal(&arms[0]),
        "\"the data for key `{_0}` is not available, but we recovered: {}\""
    );
    let args = arm_arguments(&arms[0]);
    assert!(is_punct(&args[1], ','));
    assert_eq!(spelling(&args[2..]), "_1 .join (\"+\"),");
    assert_eq!(spelling(&decl), "Redaction (String ,Vec <String >),");
}

#[test]
fn invalid_header_binds_named_fields() {
    let src = r#"enum DataStoreError {
        InvalidHeader {
            expected: String,
            found: String,
        } = "invalid header (expected {expected:?}, found {found:?})",
    }"#;
    let (_, arms, errors) = expand("", src);
    assert!(errors.is_empty());
    assert_eq!(arm_bindings(&arms[0]), ["expected", "found"]);
    assert_eq!(spelling(&arms[0][..4]), "Self ::InvalidHeader ");
    assert_eq!(group(&arms[0][4]).delimiter, Delimiter::Brace);
}

#[test]
fn unknown_without_template_reports_and_keeps_arm() {
    let (decl, arms, errors) = expand("", "enum DataStoreError { Unknown }");
    assert_eq!(errors.len(), 1);
    assert_eq!(errors[0].message, EXPECTED_DISCRIMINANT);
    assert_eq!(errors[0].span, Span::At(22));
    assert_eq!(arms.len(), 1);
    assert!(arm_bindings(&arms[0]).is_empty());
    assert_eq!(arm_literal(&arms[0]), "");
    assert!(matches!(&arm_arguments(&arms[0])[0], TokenTree::Literal(l) if matches!(&l.form, LiteralForm::Text(t) if t.is_empty())));
    assert_eq!(spelling(&decl), "Unknown ");
}

#[test]
fn missing_template_between_variants_keeps_separator() {
    let (decl, arms, errors) = expand("doc", r#"enum E { A, B(u8) = "b" }"#);
    assert_eq!(errors.len(), 1);
    assert_eq!(errors[0].message, EXPECTED_DISCRIMINANT);
    assert_eq!(arms.len(), 2);
    assert_eq!(spelling(&decl), "A ,#[doc =\"b\"]B (u8 )");
}

#[test]
fn every_diagnostic_is_reported() {
    let (decl, arms, errors) = expand("doc extra", r#"enum E { A, B = 5, C() = (), D{} = (x, "d") }"#);
    assert_eq!(spelling(&decl), "A ,B ,C (),D {}");
    let messages: Vec<&str> = errors.iter().map(|e| e.message.as_str()).collect();
    assert_eq!(
        messages,
        [UNEXPECTED_TOKEN, EXPECTED_DISCRIMINANT, EXPECTED_STRING_LITERAL, EXPECTED_STRING_LITERAL, EXPECTED_STRING_LITERAL]
    );
    assert_eq!(errors[0].span, Span::At(4));
    assert_eq!(arms.len(), 4);
}

#[test]
fn modifiers() {
    let (doc, errors) = parse_modifiers(&lex("doc"));
    assert!(doc && errors.is_empty());
    let (doc, errors) = parse_modifiers(&lex(""));
    assert!(!doc && errors.is_empty());
    let (doc, errors) = parse_modifiers(&lex("docs"));
    assert!(!doc);
    assert_eq!(errors.len(), 1);
    assert_eq!(errors[0].message, UNEXPECTED_TOKEN);
    assert_eq!(errors[0].span, Span::At(0));
    let (doc, errors) = parse_modifiers(&lex("doc, x"));
    assert!(!doc);
    assert_eq!(errors.len(), 1);
    assert_eq!(errors[0].span, Span::At(3));
}

#[test]
fn no_enum_gives_one_report() {
    let out = display(lex("doc"), lex("struct S { a: u8 }"));
    assert_eq!(spelling(&out), "compile_error !{expected an `enum` item}");
    assert!(matches!(&out[0], TokenTree::Ident(i) if i.span == Span::CallSite));
    let err = parse_declaration(lex("pub struct S;")).unwrap_err();
    assert_eq!(err.message, EXPECTED_ENUM);
}

#[test]
fn enum_without_body_is_refused() {
    let err = parse_declaration(lex("enum E;")).unwrap_err();
    assert_eq!(err.message, EXPECTED_ENUM_BODY);
    assert_eq!(err.span, Span::At(6));
}

#[test]
fn header_generics_and_constraints() {
    let d = declaration(r#"#[derive(Debug)] pub(crate) enum E<T: Into<Vec<u8>>, U> where T: Clone { A(T, U) = "a" }"#);
    assert_eq!(spelling(&d.header), "#[derive (Debug )]pub (crate )enum ");
    assert_eq!(d.name.name, "E");
    assert_eq!(spelling(&d.generics), "<T :Into <Vec <u8 >>,U >");
    assert_eq!(spelling(&d.constraints), "where T :Clone ");
    assert_eq!(d.variants.len(), 1);
}

#[test]
fn whole_expansion() {
    let out = display(lex(""), lex(r#"pub enum E { A = "a", B(u8) }"#));
    let text = spelling(&out);
    assert_eq!(
        text,
        "pub enum E {A ,B (u8 )}compile_error !{expected this variant to have a string discriminant: `= \"...\"`}\
         impl ::core ::fmt ::Display for E {fn fmt (&self ,f :&mut ::core ::fmt ::Formatter )->::core ::fmt ::Result \
         {match self {Self ::A {}=>f .write_fmt (::core ::format_args !(\"a\")),Self ::B (_0 ,)=>f .write_fmt (::core ::format_args !()),}}}"
    );
    assert_eq!(out.len(), 3 + 1 + 3 + 13);
}

#[test]
fn variant_attributes_and_visibility_are_kept() {
    let (decl, _, errors) = expand("doc", r#"enum E { #[allow(unused)] #[cfg(x)] pub(crate) A = "a" }"#);
    assert!(errors.is_empty());
    assert_eq!(spelling(&decl), "#[allow (unused )]#[cfg (x )]#[doc =\"a\"]pub (crate )A ");
}

#[test]
fn named_field_types_with_colons() {
    let d = declaration(r#"enum E { A { pub f: Vec<<T as Iterator>::Item>, g: ::std::string::String } = "a" }"#);
    match &d.variants[0].shape {
        Shape::Named(names) => {
            let names: Vec<&str> = names.iter().map(|i| i.name.as_str()).collect();
            assert_eq!(names, ["f", "g"]);
        }
        _ => panic!("expected named fields"),
    }
}

#[test]
fn trailing_separator_counts() {
    assert_eq!(count_positional(&lex("T")), 1);
    assert_eq!(count_positional(&lex("T,")), 1);
    assert_eq!(count_positional(&lex("")), 0);
    assert_eq!(count_positional(&lex("A, B<C, D>, E")), 4);
    let plain: Vec<String> = scan_named(&lex("f: T")).into_iter().map(|i| i.name).collect();
    let trailing: Vec<String> = scan_named(&lex("f: T,")).into_iter().map(|i| i.name).collect();
    assert_eq!(plain, ["f"]);
    assert_eq!(plain, trailing);
}

#[test]
fn many_positional_bindings() {
    let fields = vec!["u8"; 12].join(", ");
    let src = format!("enum E {{ A({}) = \"x\" }}", fields);
    let (_, arms, _) = expand("", &src);
    let names = arm_bindings(&arms[0]);
    assert_eq!(names.len(), 12);
    assert_eq!(names[0], "_0");
    assert_eq!(names[10], "_10");
    assert_eq!(names[11], "_11");
}

#[test]
fn template_extraction() {
    let mut c = Cursor::new(lex(r#""a" rest"#));
    let t = extract_string(&mut c, Span::At(99)).unwrap();
    assert_eq!(literal_text(&t.literal), "\"a\"");
    assert!(t.extra.is_empty());
    let raw = Literal { form: LiteralForm::Written("r#\"raw\"#".to_string()), span: Span::At(0) };
    let mut c = Cursor::new(vec![TokenTree::Literal(raw)]);
    assert!(extract_string(&mut c, Span::At(99)).is_ok());
    let mut c = Cursor::new(Vec::new());
    let e = extract_string(&mut c, Span::At(99)).unwrap_err();
    assert_eq!(e.span, Span::At(99));
    assert_eq!(e.message, EXPECTED_STRING_LITERAL);
    let mut c = Cursor::new(lex("()"));
    assert_eq!(extract_string(&mut c, Span::At(99)).unwrap_err().span, Span::At(0));
    let mut c = Cursor::new(lex("(x, \"a\")"));
    assert_eq!(extract_string(&mut c, Span::At(99)).unwrap_err().span, Span::At(1));
    let bytes = Literal { form: LiteralForm::Written("b\"bytes\"".to_string()), span: Span::At(3) };
    let mut c = Cursor::new(vec![TokenTree::Literal(bytes)]);
    assert_eq!(extract_string(&mut c, Span::At(99)).unwrap_err().span, Span::At(3));
}

#[test]
fn compile_error_tokens() {
    let e = CompileError::new(Span::At(7), "boom");
    assert_eq!(e.message, "boom");
    let t = e.to_tokens();
    assert_eq!(spelling(&t), "compile_error !{boom}");
    assert!(t.iter().all(|t| match t {
        TokenTree::Ident(i) => i.span == Span::At(7),
        TokenTree::Punct(p) => p.span == Span::At(7),
        TokenTree::Group(g) => g.span == Span::At(7),
        TokenTree::Literal(l) => l.span == Span::At(7),
    }));
}

#[test]
fn cursor_walks_in_order() {
    let mut c = Cursor::new(lex("a , b"));
    assert!(!c.at_end());
    assert!(c.peek_ident("a"));
    assert_eq!(ident_name(&c.next().unwrap()), "a");
    assert!(c.peek_punct(','));
    c.next();
    assert_eq!(ident_name(&c.next().unwrap()), "b");
    assert!(c.at_end());
    assert!(c.next().is_none());
}

#[test]
fn cleaned_output_ignores_templates() {
    let first = r#"enum E { A(u8) = "a {_0}", B { x: u8 } = ("b {}", x), C = "c" }"#;
    let second = r#"enum E { A(u8) = "other", B { x: u8 } = "b", C = ("c {}", 1) }"#;
    let (d1, _, e1) = expand("", first);
    let (d2, _, e2) = expand("", second);
    assert!(e1.is_empty() && e2.is_empty());
    assert_eq!(spelling(&d1), "A (u8 ),B {x :u8 },C ");
    assert_eq!(spelling(&d1), spelling(&d2));
}

#[test]
fn cleaning_round_trip() {
    let src = r#"enum E { A(u8, u16,) = "a", B { x: u8, } = ("b {}", x), }"#;
    let (decl, _, _) = expand("", src);
    let cleaned = spelling(&decl);
    assert_eq!(cleaned, "A (u8 ,u16 ,),B {x :u8 ,},");
    let readded = r#"enum E { A (u8 ,u16 ,) = "a", B {x :u8 ,} = ("b {}", x), }"#;
    let (again, _, _) = expand("", readded);
    assert_eq!(spelling(&again), cleaned);
}
