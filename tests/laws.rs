use poreader::error::Error;
use poreader::formula::Formula;
use poreader::plural::PluralForms;
use poreader::stream::TokenStream;
use poreader::text::{decimal_text, unescape};
use poreader::{PoParser, PoReader, State};

fn read(text: &str) -> Result<PoReader, Error> {
    PoParser::new().parse(text.as_bytes())
}

#[test]
fn blank_lines_give_no_token() {
    for text in ["", "\n", "   \n\t\n", "\r\n\r\n \u{a0}\u{3000}\n"] {
        let mut s = TokenStream::new(text.as_bytes().to_vec());

        assert!(s.next_token().is_none(), "{:?}", text);
    }
}

#[test]
fn fetch_joins_continuations_of_the_same_prefix() {
    let mut s = TokenStream::new(b"#| msgid \"a\"\n#| \"b\"\n#| \"c\"\n\"d\"\n".to_vec());

    assert_eq!(s.fetch("|msgid", false).ok(), Some(Some(String::from("abc"))));
    assert!(matches!(s.next_token(), Some(Ok(poreader::line::PoLine::Continuation(4, _, _)))));
}

#[test]
fn identity_formula() {
    for n in [0usize, 1, 7, 100, 123456789] {
        assert_eq!(Formula::parse("n").unwrap().execute(n), Some(n));
        assert_eq!(Formula::parse("").unwrap().execute(n), Some(n));
        assert_eq!(Formula::parse("  \t ").unwrap().execute(n), Some(n));
    }
}

#[test]
fn division_by_zero_gives_the_extreme() {
    let f = Formula::parse("1000/n").unwrap();

    assert_eq!(f.expr.execute(0), i64::MAX);
    assert_eq!(Formula::parse("(0-1000)/n").unwrap().expr.execute(0), i64::MIN);
    assert_eq!(Formula::parse("1000%n").unwrap().expr.execute(0), 1000);
}

#[test]
fn arithmetic_wraps() {
    let f = Formula::parse("n * 9223372036854775807 + 9223372036854775807").unwrap();

    assert_eq!(f.expr.execute(2), 9223372036854775807i64.wrapping_mul(2).wrapping_add(9223372036854775807));
    assert!(Formula::parse("99999999999999999999").is_err(), "a literal that does not fit is refused");
}

#[test]
fn untaken_branch_is_not_evaluated() {
    let f = Formula::parse("n == 0 ? 5 : 10 / n").unwrap();

    assert_eq!(f.execute(0), Some(5));
    assert_eq!(f.execute(2), Some(5));
}

#[test]
fn slavic_rule_oracle() {
    let forms =
        PluralForms::parse("nplurals=3; plural=(n%10==1 && n%100!=11 ? 0 : n%10>=2 && (n%100<10 or n%100>=20) ? 1 : 2);")
            .unwrap();

    for (n, i) in [(1, 0), (11, 2), (2, 1), (10, 2), (100, 2), (21, 0), (22, 1), (25, 1), (111, 2), (112, 2), (15, 2)] {
        assert_eq!(forms.get_value(n), Some(i), "for {}", n);
    }
}

#[test]
fn czech_header_values() {
    let forms = PluralForms::parse("nplurals=3; plural=(n==1) ? 0 : (n>=2 && n<=4) ? 1 : 2;").unwrap();

    assert_eq!(forms.get_value(1), Some(0));
    assert_eq!(forms.get_value(3), Some(1));
    assert_eq!(forms.get_value(10), Some(2));
    assert_eq!(forms.get_count(), 3);
}

#[test]
fn value_out_of_range_selects_nothing() {
    let forms = PluralForms::parse("nplurals=2; plural=n;").unwrap();

    assert_eq!(forms.get_value(1), Some(1));
    assert_eq!(forms.get_value(2), None);
    assert!(PluralForms::parse("nplurals=2; plural=n").is_err(), "a missing `;` is refused");
    assert!(PluralForms::parse("nplurals=+2; plural=n;").is_ok());
    assert!(PluralForms::parse("nplurals=; plural=n;").is_err());
}

#[test]
fn header_unit_is_never_yielded() {
    let mut reader = read("msgid \"\"\nmsgstr \"Project-Id-Version: x\\n\"\n\nmsgid \"a\"\nmsgstr \"b\"\n").unwrap();

    assert_eq!(reader.header_property("Project-Id-Version"), vec![String::from("x")]);

    let u = reader.next().unwrap().unwrap();

    assert_eq!(u.message().get_id(), "a");
    assert!(reader.next().is_none());
}

#[test]
fn repeated_header_keys_keep_every_value() {
    let reader = read("msgid \"\"\nmsgstr \"Header1: Value1\\nHeader1: Value2\\n\"\n").unwrap();
    let list = reader
        .header_property_list()
        .iter()
        .map(|h| (h.name().to_string(), h.value().to_string()))
        .collect::<Vec<_>>();

    assert_eq!(
        list,
        vec![
            (String::from("Header1"), String::from("Value1")),
            (String::from("Header1"), String::from("Value2")),
        ]
    );
    assert_eq!(reader.header_property("Header1"), vec![String::from("Value1"), String::from("Value2")]);
}

#[test]
fn unit_states() {
    let text = "#, fuzzy\nmsgid \"a\"\nmsgstr \"\"\n\n#, fuzzy\nmsgid \"b\"\nmsgstr \"B\"\n\nmsgid \"c\"\nmsgstr \"C\"\n\nmsgid \"d\"\nmsgstr \"\"\n";
    let mut reader = read(text).unwrap();
    let states = (0..4).map(|_| reader.next().unwrap().unwrap().state()).collect::<Vec<_>>();

    assert_eq!(states, vec![State::NeedsWork, State::NeedsWork, State::Final, State::Empty]);
}

#[test]
fn simple_unit_without_header() {
    let mut reader = read("msgid \"Hello\"\nmsgstr \"Bonjour\"").unwrap();
    let u = reader.next().unwrap().unwrap();

    assert_eq!(u.message().get_id(), "Hello");
    assert_eq!(u.message().get_text(), "Bonjour");
    assert_eq!(u.state(), State::Final);
    assert!(reader.next().is_none());
}

#[test]
fn plural_unit_under_header() {
    let text = "msgid \"\"\nmsgstr \"Plural-Forms: nplurals=2; plural=n>1;\\n\"\n\n\
                msgid \"one\"\nmsgid_plural \"many\"\nmsgstr[0] \"un\"\nmsgstr[1] \"plusieurs\"\n";
    let mut reader = read(text).unwrap();
    let u = reader.next().unwrap().unwrap();

    assert_eq!(u.message().get_plural_text(1), Some("un"));
    assert_eq!(u.message().get_plural_text(5), Some("plusieurs"));
}

#[test]
fn line_of_no_known_shape() {
    match read("---") {
        Err(Error::Parse(line, got, exp)) => {
            assert_eq!(line, 1);
            assert_eq!(got, "---");
            assert_eq!(exp, "");
        }
        r => panic!("Unexpected result: {:?}", r.map(|_| ())),
    }

    let mut reader = read("msgid \"\"\nmsgstr \"\"\n\nmsgid \"a\"\nmsgstr \"b\"\n\n  ---\n").unwrap();

    match reader.next() {
        Some(Err(Error::Parse(line, got, exp))) => {
            assert_eq!(line, 7);
            assert_eq!(got, "  ---");
            assert_eq!(exp, "");
        }
        r => panic!("Unexpected result: {:?}", r),
    }
    assert!(reader.next().is_none(), "an error ends the reading");
}

#[test]
fn missing_msgstr_is_an_error() {
    match read("msgid \"a\"\n") {
        Err(Error::Unexpected(0, m)) => assert_eq!(m, "expected msgstr"),
        r => panic!("Unexpected result: {:?}", r.map(|_| ())),
    }

    let text = "msgid \"\"\nmsgstr \"\"\n\nmsgid \"a\"\nmsgid_plural \"b\"\n\nmsgid \"c\"\nmsgstr \"d\"\n";
    let mut reader = read(text).unwrap();

    match reader.next() {
        Some(Err(Error::Parse(7, got, exp))) => {
            assert_eq!(got, "");
            assert_eq!(exp, "msgstr[0]");
        }
        r => panic!("Unexpected result: {:?}", r),
    }
}

#[test]
fn escapes_are_decoded() {
    assert_eq!(unescape(r#"a\"b\\c\nd\re\tf\qg\"#), "a\"b\\c\nd\re\tf\\qg\\");
    assert_eq!(unescape(r"\\n"), "\\n");
}

#[test]
fn decimal_writing() {
    assert_eq!(decimal_text(0), "0");
    assert_eq!(decimal_text(9), "9");
    assert_eq!(decimal_text(10), "10");
    assert_eq!(decimal_text(120034), "120034");
}

#[test]
fn language_tags() {
    let reader = read("msgid \"\"\nmsgstr \"Language: pt_BR\\n\"\n").unwrap();

    assert_eq!(reader.target_language(), locale_config::LanguageRange::from_unix("pt_BR").unwrap().as_ref());

    let reader = read("msgid \"\"\nmsgstr \"Language: FR\\n\"\n").unwrap();

    assert_eq!(reader.target_language(), "fr");
}

#[test]
fn syntax_error_messages() {
    match Formula::parse("n $ 2") {
        Err(Error::PluralForms(m)) => assert_eq!(m, "Invalid token at 2"),
        r => panic!("Unexpected result: {:?}", r),
    }

    match Formula::parse("(n") {
        Err(Error::PluralForms(m)) => assert_eq!(m, "Unrecognized EOF found at 2\nExpected one of \")\""),
        r => panic!("Unexpected result: {:?}", r),
    }
}

#[test]
fn invalid_utf8_line_is_an_io_error_at_its_line() {
    let mut bytes = b"msgid \"a\"\nmsgstr \"b\"\n".to_vec();

    bytes.extend_from_slice(b"msgid \"\xff\"\n");

    match PoParser::new().parse(&bytes) {
        Err(Error::Io(3, e)) => assert_eq!(e.kind(), std::io::ErrorKind::InvalidData),
        r => panic!("Unexpected result: {:?}", r.map(|_| ())),
    }
}

#[test]
fn crlf_line_ends() {
    let mut reader = read("msgid \"a\"\r\nmsgstr \"b\"\r\n").unwrap();
    let u = reader.next().unwrap().unwrap();

    assert_eq!(u.message().get_text(), "b");
}

#[test]
fn syntax_error_locations_are_byte_offsets() {
    match Formula::parse("n + é") {
        Err(Error::PluralForms(m)) => assert_eq!(m, "Invalid token at 4"),
        r => panic!("Unexpected result: {:?}", r),
    }

    match Formula::parse("(é") {
        Err(Error::PluralForms(m)) => assert_eq!(m, "Invalid token at 1"),
        r => panic!("Unexpected result: {:?}", r),
    }
}

#[test]
fn header_catalogue_reads_unless_its_forms_are_malformed() {
    assert!(read("msgid \"\"\nmsgstr \"Language: fr\\n\"\n").is_ok());
    assert!(read("msgid \"\"\nmsgstr \"Plural-Forms: nplurals=2; plural=n>1;\\n\"\n").is_ok());
    assert!(read("msgid \"\"\nmsgstr \"Plural-Forms: nplurals=x; plural=n>1;\\n\"\n").is_err());
}

#[test]
fn fuzzy_unit_needs_work_whatever_its_translation() {
    let mut reader = read("#, c-format, fuzzy\nmsgid \"a\"\nmsgstr \"A\"\n").unwrap();
    let u = reader.next().unwrap().unwrap();

    assert_eq!(u.state(), State::NeedsWork);
    assert!(u.flags().iter().any(|f| f == "fuzzy"));
    assert!(!u.is_translated());
}
