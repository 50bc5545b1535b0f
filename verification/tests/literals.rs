use math_lang::diagnostics::Span;
use math_lang::parser::literal::{
    CharLiteral, FloatLiteral, FloatType, IntLiteral, IntType, Literal, StringLiteral,
};
use math_lang::parser::parse::{ParseBuffer, ToTokens};
use math_lang::text::decimal_string;

fn at(start: usize, end: usize) -> Span {
    Span { file: 0, start, end }
}

fn representative() -> Vec<(Literal, String)> {
    vec![
        (
            Literal::String(StringLiteral { span: at(0, 5), text: "abc".to_string() }),
            "\"abc\"".to_string(),
        ),
        (Literal::Char(CharLiteral { span: at(6, 9), ch: 'x' }), "'x'".to_string()),
        (
            Literal::Int(IntLiteral { span: at(10, 14), int: 42, ty: IntType::U8 }),
            "42u8".to_string(),
        ),
        (
            Literal::Float(FloatLiteral {
                span: at(15, 22),
                float: 3.14f64.to_bits(),
                ty: FloatType::F32,
            }),
            "3.14f32".to_string(),
        ),
    ]
}

fn number_of(lit: &Literal) -> String {
    match lit {
        Literal::Float(float) => f64::from_bits(float.float).to_string(),
        _ => String::new(),
    }
}

#[test]
fn literal_round_trip() {
    for (lit, written) in representative() {
        let tokens = lit.to_tokens();
        assert_eq!(tokens.len(), 1);
        let mut stream = ParseBuffer::new(tokens.begin(), (), Span::empty(0));
        let parsed: Literal = stream.parse().unwrap();
        assert_eq!(parsed, lit);
        assert!(stream.is_empty());
        assert_eq!(stream.prev_span(), lit.span());

        let again = parsed.to_tokens();
        assert_eq!(again, tokens);
        let mut stream = ParseBuffer::new(again.begin(), (), Span::empty(0));
        let reparsed: Literal = stream.parse().unwrap();
        assert_eq!(reparsed, lit);
        assert_eq!(reparsed.to_string(&number_of(&reparsed)), written);
        assert_eq!(lit.clone(), lit);
    }
}

#[test]
fn typed_literal_round_trip() {
    let int = IntLiteral { span: at(0, 4), int: 42, ty: IntType::U8 };
    let tokens = int.to_tokens();
    let mut stream = ParseBuffer::new(tokens.begin(), (), Span::empty(0));
    assert_eq!(stream.parse::<IntLiteral>().unwrap(), int);

    let float = FloatLiteral { span: at(0, 7), float: 3.14f64.to_bits(), ty: FloatType::F32 };
    let tokens = float.to_tokens();
    let mut stream = ParseBuffer::new(tokens.begin(), (), Span::empty(0));
    assert_eq!(stream.parse::<FloatLiteral>().unwrap(), float);

    let string = StringLiteral { span: at(0, 5), text: "abc".to_string() };
    let tokens = string.to_tokens();
    let mut stream = ParseBuffer::new(tokens.begin(), (), Span::empty(0));
    assert_eq!(stream.parse::<StringLiteral>().unwrap(), string);
    assert_eq!(string.clone(), string);
}

#[test]
fn integer_suffixes() {
    let all = [
        (IntType::U8, "u8"),
        (IntType::U16, "u16"),
        (IntType::U32, "u32"),
        (IntType::U64, "u64"),
        (IntType::U128, "u128"),
        (IntType::I8, "i8"),
        (IntType::I16, "i16"),
        (IntType::I32, "i32"),
        (IntType::I64, "i64"),
        (IntType::I128, "i128"),
        (IntType::Unknown, ""),
    ];
    for (ty, suffix) in all {
        assert_eq!(ty.to_string(), suffix);
        let lit = IntLiteral { span: at(0, 1), int: 7, ty };
        assert_eq!(lit.to_string(), format!("7{}", suffix));
    }
}

#[test]
fn float_suffixes() {
    assert_eq!(FloatType::F32.to_string(), "f32");
    assert_eq!(FloatType::F64.to_string(), "f64");
    assert_eq!(FloatType::Unknown.to_string(), "");
    let half = FloatLiteral { span: at(0, 3), float: 0.5f64.to_bits(), ty: FloatType::F64 };
    assert_eq!(half.to_string(&f64::from_bits(half.float).to_string()), "0.5f64");
    let bare = FloatLiteral { span: at(0, 3), float: 1e21f64.to_bits(), ty: FloatType::Unknown };
    assert_eq!(
        bare.to_string(&f64::from_bits(bare.float).to_string()),
        "1000000000000000000000"
    );
}

#[test]
fn integers_in_decimal() {
    assert_eq!(decimal_string(0), "0");
    assert_eq!(decimal_string(7), "7");
    assert_eq!(decimal_string(10), "10");
    assert_eq!(decimal_string(1234567890), "1234567890");
    assert_eq!(decimal_string(100200), "100200");
    assert_eq!(decimal_string(u128::MAX), "340282366920938463463374607431768211455");
    for n in 0..1500u128 {
        assert_eq!(decimal_string(n), n.to_string());
    }
    let lit = IntLiteral { span: at(0, 1), int: u128::MAX, ty: IntType::Unknown };
    assert_eq!(lit.to_string(), u128::MAX.to_string());
}

#[test]
fn quoted_text_is_escaped() {
    let plain = StringLiteral { span: at(0, 1), text: "abc".to_string() };
    assert_eq!(plain.to_string(), "\"abc\"");
    let tricky = StringLiteral { span: at(0, 1), text: "a\"b\\c\n".to_string() };
    assert_eq!(tricky.to_string(), "\"a\\\"b\\\\c\\n\"");
    let empty = StringLiteral { span: at(0, 1), text: String::new() };
    assert_eq!(empty.to_string(), "\"\"");
    assert_eq!(CharLiteral { span: at(0, 1), ch: 'x' }.to_string(), "'x'");
    assert_eq!(CharLiteral { span: at(0, 1), ch: '\'' }.to_string(), "'\\''");
    assert_eq!(CharLiteral { span: at(0, 1), ch: '\t' }.to_string(), "'\\t'");
}

#[test]
fn text_and_range_of_a_literal() {
    for (lit, _) in representative() {
        match &lit {
            Literal::String(string) => {
                assert_eq!(lit.string(), Some("abc"));
                assert_eq!(lit.span(), string.span());
                assert_eq!(string.span(), at(0, 5));
            }
            Literal::Char(ch) => {
                assert_eq!(lit.string(), None);
                assert_eq!(lit.span(), ch.span());
                assert_eq!(ch.span(), at(6, 9));
            }
            Literal::Int(int) => {
                assert_eq!(lit.string(), None);
                assert_eq!(lit.span(), int.span());
                assert_eq!(int.span(), at(10, 14));
            }
            Literal::Float(float) => {
                assert_eq!(lit.string(), None);
                assert_eq!(lit.span(), float.span());
                assert_eq!(float.span(), at(15, 22));
            }
        }
    }
}

#[test]
fn float_literals_are_ordered_by_their_bits() {
    let nan = FloatLiteral { span: at(0, 1), float: f64::NAN.to_bits(), ty: FloatType::Unknown };
    assert_eq!(nan, nan);
    let one = FloatLiteral { span: at(0, 1), float: 1.0f64.to_bits(), ty: FloatType::Unknown };
    assert!(one < nan);
    let small = IntLiteral { span: at(0, 1), int: 1, ty: IntType::U8 };
    let large = IntLiteral { span: at(0, 1), int: 2, ty: IntType::U8 };
    assert!(small < large);
    assert!(IntType::U8 < IntType::Unknown);
}
