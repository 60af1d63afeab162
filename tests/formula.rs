use poreader::error::Error;
use poreader::formula::{bool_to_num, get_infinity, BinOp, Formula, Node, UnOp};
use poreader::forms::{parse_map, PluralForms};
use std::collections::HashMap;

struct ExecCase {
    test_name: &'static str,
    node: Node,
    exec_cases: HashMap<i64, i64>,
}

fn big_expression() -> Node {
    Node::new_cond(
        Node::new_binop(BinOp::Gt, Node::Var, Node::new_num(10)),
        Node::new_cond(
            Node::new_binop(
                BinOp::Eq,
                Node::new_binop(BinOp::Mod, Node::Var, Node::new_num(10)),
                Node::new_num(3),
            ),
            Node::new_num(10),
            Node::new_cond(
                Node::new_binop(BinOp::Lt, Node::Var, Node::new_num(100)),
                Node::new_num(20),
                Node::new_cond(
                    Node::new_unop(UnOp::Not, Node::new_binop(BinOp::Gt, Node::Var, Node::new_num(200))),
                    Node::new_binop(BinOp::Add, Node::new_unop(UnOp::Neg, Node::Var), Node::new_num(1000)),
                    Node::new_num(1234),
                ),
            ),
        ),
        Node::new_binop(BinOp::Sub, Node::Var, Node::new_num(10)),
    )
}

fn exec_cases() -> Vec<ExecCase> {
    vec![
        ExecCase {
            test_name: "Variable",
            node: Node::Var,
            exec_cases: vec![(-100, -100), (-10, -10), (100, 100)].into_iter().collect(),
        },
        ExecCase {
            test_name: "Constant",
            node: Node::new_num(100),
            exec_cases: vec![(-100, 100), (-10, 100), (0, 100), (5, 100), (100, 100)].into_iter().collect(),
        },
        ExecCase {
            test_name: "Operator `+`",
            node: Node::new_binop(BinOp::Add, Node::Var, Node::new_num(10)),
            exec_cases: vec![(-100, -90), (-10, 0), (100, 110)].into_iter().collect(),
        },
        ExecCase {
            test_name: "Operator `-`",
            node: Node::new_binop(BinOp::Sub, Node::Var, Node::new_num(10)),
            exec_cases: vec![(-100, -110), (5, -5), (10, 0), (100, 90)].into_iter().collect(),
        },
        ExecCase {
            test_name: "Operator `*`",
            node: Node::new_binop(BinOp::Mul, Node::Var, Node::new_num(10)),
            exec_cases: vec![(-2, -20), (0, 0), (5, 50)].into_iter().collect(),
        },
        ExecCase {
            test_name: "Operator `/`",
            node: Node::new_binop(BinOp::Div, Node::Var, Node::new_num(10)),
            exec_cases: vec![(-2, 0), (-20, -2), (0, 0), (20, 2), (35, 3)].into_iter().collect(),
        },
        ExecCase {
            test_name: "Operator `/` (inverse)",
            node: Node::new_binop(BinOp::Div, Node::new_num(1000), Node::Var),
            exec_cases: vec![(0, i64::MAX), (-10, -100), (100, 10)].into_iter().collect(),
        },
        ExecCase {
            test_name: "Operator `%`",
            node: Node::new_binop(BinOp::Mod, Node::Var, Node::new_num(10)),
            exec_cases: vec![(-12, -2), (-10, 0), (0, 0), (23, 3), (35, 5)].into_iter().collect(),
        },
        ExecCase {
            test_name: "Operator `==`",
            node: Node::new_binop(BinOp::Eq, Node::Var, Node::new_num(10)),
            exec_cases: vec![(-12, 0), (2, 0), (100, 0), (10, 1)].into_iter().collect(),
        },
        ExecCase {
            test_name: "Operator `!=`",
            node: Node::new_binop(BinOp::Ne, Node::Var, Node::new_num(10)),
            exec_cases: vec![(-12, 1), (2, 1), (100, 1), (10, 0)].into_iter().collect(),
        },
        ExecCase {
            test_name: "Operator `<`",
            node: Node::new_binop(BinOp::Lt, Node::Var, Node::new_num(10)),
            exec_cases: vec![(-12, 1), (2, 1), (100, 0), (10, 0)].into_iter().collect(),
        },
        ExecCase {
            test_name: "Operator `<=`",
            node: Node::new_binop(BinOp::Lte, Node::Var, Node::new_num(10)),
            exec_cases: vec![(-12, 1), (2, 1), (100, 0), (10, 1)].into_iter().collect(),
        },
        ExecCase {
            test_name: "Operator `>`",
            node: Node::new_binop(BinOp::Gt, Node::Var, Node::new_num(10)),
            exec_cases: vec![(-12, 0), (2, 0), (100, 1), (10, 0)].into_iter().collect(),
        },
        ExecCase {
            test_name: "Operator `>=`",
            node: Node::new_binop(BinOp::Gte, Node::Var, Node::new_num(10)),
            exec_cases: vec![(-12, 0), (2, 0), (100, 1), (10, 1)].into_iter().collect(),
        },
        ExecCase {
            test_name: "Operator `!` (not)",
            node: Node::new_unop(UnOp::Not, Node::Var),
            exec_cases: vec![(-12, 0), (100, 0), (0, 1)].into_iter().collect(),
        },
        ExecCase {
            test_name: "Operator 'neg'",
            node: Node::new_unop(UnOp::Neg, Node::Var),
            exec_cases: vec![(-12, 12), (100, -100), (0, 0)].into_iter().collect(),
        },
        ExecCase {
            test_name: "Operator `&&`",
            node: Node::new_binop(
                BinOp::And,
                Node::new_binop(BinOp::Lt, Node::new_num(-5), Node::Var),
                Node::new_binop(BinOp::Lte, Node::Var, Node::new_num(25)),
            ),
            exec_cases: vec![(-12, 0), (100, 0), (0, 1), (-3, 1), (10, 1), (-5, 0), (25, 1)]
                .into_iter()
                .collect(),
        },
        ExecCase {
            test_name: "Operator `||`",
            node: Node::new_binop(
                BinOp::Or,
                Node::new_binop(BinOp::Gte, Node::new_num(-5), Node::Var),
                Node::new_binop(BinOp::Gt, Node::Var, Node::new_num(25)),
            ),
            exec_cases: vec![(-12, 1), (100, 1), (0, 0), (-3, 0), (10, 0), (-5, 1), (25, 0)]
                .into_iter()
                .collect(),
        },
        ExecCase {
            test_name: "Expression with `?`",
            node: Node::new_cond(
                Node::new_binop(BinOp::Lt, Node::Var, Node::new_num(10)),
                Node::new_num(1),
                Node::new_num(2),
            ),
            exec_cases: vec![(-12, 1), (100, 2), (0, 1), (-3, 1), (10, 2)].into_iter().collect(),
        },
        ExecCase {
            test_name: "Big expression",
            node: big_expression(),
            exec_cases: vec![
                (-12, -22),
                (0, -10),
                (10, 0),
                (43, 10),
                (53, 10),
                (55, 20),
                (44, 20),
                (441, 1234),
                (404, 1234),
                (150, 850),
                (156, 844),
                (200, 800),
            ]
            .into_iter()
            .collect(),
        },
    ]
}

#[test]
fn execute_nodes() {
    for t in exec_cases() {
        for (count, expected) in t.exec_cases.iter() {
            let res = t.node.execute(*count);

            assert_eq!(&res, expected, "For test {}, bad execution result for count {}", t.test_name, count);
        }
    }
}

#[test]
fn test_enum_node() {
    assert_ne!(Node::Num(0).clone(), Node::Var.clone());
    assert_eq!(format!("{:?}", Node::Var), String::from("Var"));
    assert_eq!(format!("{:?}", Node::Num(0)), String::from("Num(0)"));

    let mut n: Node;

    n = Node::UnOp {
        op: UnOp::Not,
        rhs: Box::new(Node::Var),
    };
    assert_ne!(n.clone(), Node::Var);
    assert_eq!(format!("{:?}", n), String::from("UnOp { op: Not, rhs: Var }"));

    n = Node::BinOp {
        op: BinOp::Add,
        lhs: Box::new(Node::Var),
        rhs: Box::new(Node::Var),
    };
    assert_ne!(n.clone(), Node::Var);
    assert_eq!(format!("{:?}", n), String::from("BinOp { op: Add, lhs: Var, rhs: Var }"));

    n = Node::Cond {
        test: Box::new(Node::Var),
        if_true: Box::new(Node::Var),
        if_false: Box::new(Node::Var),
    };
    assert_ne!(n.clone(), Node::Var);
    assert_eq!(
        format!("{:?}", n),
        String::from("Cond { test: Var, if_true: Var, if_false: Var }")
    );
}

#[test]
fn test_enum_unop() {
    assert_eq!(UnOp::Not.clone(), UnOp::Not);
    assert_eq!(format!("{:?}", UnOp::Not), "Not");
    assert_eq!(UnOp::Neg.clone(), UnOp::Neg);
    assert_eq!(format!("{:?}", UnOp::Neg), "Neg");
}

#[test]
fn test_enum_binop() {
    let all = [
        (BinOp::Add, "Add"),
        (BinOp::Sub, "Sub"),
        (BinOp::Mul, "Mul"),
        (BinOp::Div, "Div"),
        (BinOp::Mod, "Mod"),
        (BinOp::And, "And"),
        (BinOp::Or, "Or"),
        (BinOp::Eq, "Eq"),
        (BinOp::Ne, "Ne"),
        (BinOp::Lt, "Lt"),
        (BinOp::Lte, "Lte"),
        (BinOp::Gt, "Gt"),
        (BinOp::Gte, "Gte"),
    ];

    for (op, name) in all {
        assert_eq!(op.clone(), op);
        assert_eq!(format!("{:?}", op), name);
    }
}

#[test]
fn test_func_get_infinity() {
    assert_eq!(get_infinity(10), i64::MAX);
    assert_eq!(get_infinity(-10), i64::MIN);
}

#[test]
fn test_func_bool_to_num() {
    assert_eq!(bool_to_num(false), 0);
    assert_eq!(bool_to_num(true), 1);
}

struct ParseCase {
    test_name: &'static str,
    source: &'static str,
    has_error: bool,
    node: Node,
    count_tests: HashMap<usize, Option<usize>>,
}

fn parse_cases() -> Vec<ParseCase> {
    vec![
        ParseCase {
            test_name: "Empty string",
            source: "",
            has_error: false,
            node: Node::Var,
            count_tests: vec![(100, Some(100))].into_iter().collect(),
        },
        ParseCase {
            test_name: "Variable",
            source: "n",
            has_error: false,
            node: Node::Var,
            count_tests: vec![(100, Some(100))].into_iter().collect(),
        },
        ParseCase {
            test_name: "Constant",
            source: "100",
            has_error: false,
            node: Node::new_num(100),
            count_tests: vec![(0, Some(100)), (5, Some(100)), (100, Some(100))].into_iter().collect(),
        },
        ParseCase {
            test_name: "Zero",
            source: "0",
            has_error: false,
            node: Node::new_num(0),
            count_tests: vec![(0, Some(0)), (5, Some(0)), (100, Some(0))].into_iter().collect(),
        },
        ParseCase {
            test_name: "Unrecognized",
            source: "azerty",
            has_error: true,
            node: Node::Var,
            count_tests: HashMap::new(),
        },
        ParseCase {
            test_name: "Operator `+`",
            source: "n + 10",
            has_error: false,
            node: Node::new_binop(BinOp::Add, Node::Var, Node::new_num(10)),
            count_tests: vec![(100, Some(110))].into_iter().collect(),
        },
        ParseCase {
            test_name: "Operator `+` (with error)",
            source: "n + ",
            has_error: true,
            node: Node::Var,
            count_tests: HashMap::new(),
        },
        ParseCase {
            test_name: "Operator `-`",
            source: "n - 10",
            has_error: false,
            node: Node::new_binop(BinOp::Sub, Node::Var, Node::new_num(10)),
            count_tests: vec![(5, None), (10, Some(0)), (100, Some(90))].into_iter().collect(),
        },
        ParseCase {
            test_name: "Operator `*`",
            source: "n * 10",
            has_error: false,
            node: Node::new_binop(BinOp::Mul, Node::Var, Node::new_num(10)),
            count_tests: vec![(0, Some(0)), (5, Some(50))].into_iter().collect(),
        },
        ParseCase {
            test_name: "Operator `/`",
            source: "n / 10",
            has_error: false,
            node: Node::new_binop(BinOp::Div, Node::Var, Node::new_num(10)),
            count_tests: vec![(0, Some(0)), (20, Some(2)), (35, Some(3))].into_iter().collect(),
        },
        ParseCase {
            test_name: "Operator `%`",
            source: "n % 10",
            has_error: false,
            node: Node::new_binop(BinOp::Mod, Node::Var, Node::new_num(10)),
            count_tests: vec![(0, Some(0)), (23, Some(3)), (35, Some(5))].into_iter().collect(),
        },
        ParseCase {
            test_name: "Operator `==`",
            source: "n == 10",
            has_error: false,
            node: Node::new_binop(BinOp::Eq, Node::Var, Node::new_num(10)),
            count_tests: vec![(100, Some(0)), (10, Some(1))].into_iter().collect(),
        },
        ParseCase {
            test_name: "Operator `!=`",
            source: "n != 10",
            has_error: false,
            node: Node::new_binop(BinOp::Ne, Node::Var, Node::new_num(10)),
            count_tests: vec![(2, Some(1)), (100, Some(1)), (10, Some(0))].into_iter().collect(),
        },
        ParseCase {
            test_name: "Operator `<`",
            source: "n < 10",
            has_error: false,
            node: Node::new_binop(BinOp::Lt, Node::Var, Node::new_num(10)),
            count_tests: vec![(2, Some(1)), (100, Some(0)), (10, Some(0))].into_iter().collect(),
        },
        ParseCase {
            test_name: "Operator `<=`",
            source: "n <= 10",
            has_error: false,
            node: Node::new_binop(BinOp::Lte, Node::Var, Node::new_num(10)),
            count_tests: vec![(2, Some(1)), (100, Some(0)), (10, Some(1))].into_iter().collect(),
        },
        ParseCase {
            test_name: "Operator `>`",
            source: "n > 10",
            has_error: false,
            node: Node::new_binop(BinOp::Gt, Node::Var, Node::new_num(10)),
            count_tests: vec![(2, Some(0)), (100, Some(1)), (10, Some(0))].into_iter().collect(),
        },
        ParseCase {
            test_name: "Operator `>=`",
            source: "n >= 10",
            has_error: false,
            node: Node::new_binop(BinOp::Gte, Node::Var, Node::new_num(10)),
            count_tests: vec![(2, Some(0)), (100, Some(1)), (10, Some(1))].into_iter().collect(),
        },
        ParseCase {
            test_name: "Operator `!` (not)",
            source: "!n",
            has_error: false,
            node: Node::new_unop(UnOp::Not, Node::Var),
            count_tests: vec![(100, Some(0)), (0, Some(1))].into_iter().collect(),
        },
        ParseCase {
            test_name: "Operator 'neg'",
            source: "-n",
            has_error: false,
            node: Node::new_unop(UnOp::Neg, Node::Var),
            count_tests: vec![(100, None), (0, Some(0))].into_iter().collect(),
        },
        ParseCase {
            test_name: "Operator `&&`",
            source: "(5 < n) && n <= 25",
            has_error: false,
            node: Node::new_binop(
                BinOp::And,
                Node::new_binop(BinOp::Lt, Node::new_num(5), Node::Var),
                Node::new_binop(BinOp::Lte, Node::Var, Node::new_num(25)),
            ),
            count_tests: vec![(100, Some(0)), (0, Some(0)), (5, Some(0)), (10, Some(1)), (25, Some(1))]
                .into_iter()
                .collect(),
        },
        ParseCase {
            test_name: "Operator `||`",
            source: "(5 >= n) || n > 25",
            has_error: false,
            node: Node::new_binop(
                BinOp::Or,
                Node::new_binop(BinOp::Gte, Node::new_num(5), Node::Var),
                Node::new_binop(BinOp::Gt, Node::Var, Node::new_num(25)),
            ),
            count_tests: vec![(100, Some(1)), (0, Some(1)), (5, Some(1)), (10, Some(0)), (25, Some(0))]
                .into_iter()
                .collect(),
        },
        ParseCase {
            test_name: "Expression with `?`",
            source: "n < 10 ? 1 : 2",
            has_error: false,
            node: Node::new_cond(
                Node::new_binop(BinOp::Lt, Node::Var, Node::new_num(10)),
                Node::new_num(1),
                Node::new_num(2),
            ),
            count_tests: vec![(100, Some(2)), (0, Some(1)), (10, Some(2))].into_iter().collect(),
        },
        ParseCase {
            test_name: "Big expression",
            source: "n > 10 ? (n % 10) == 3 ? 10 : n < 100 ? 20 : (!(n > 200) ? -n + 1000 : 1234) : n - 10",
            has_error: false,
            node: big_expression(),
            count_tests: vec![
                (0, None),
                (10, Some(0)),
                (43, Some(10)),
                (53, Some(10)),
                (55, Some(20)),
                (44, Some(20)),
                (441, Some(1234)),
                (404, Some(1234)),
                (150, Some(850)),
                (156, Some(844)),
                (200, Some(800)),
            ]
            .into_iter()
            .collect(),
        },
        ParseCase {
            test_name: "Big expression (with error)",
            source: "n > 10 ? (n % 10) == 3 ? 10 : (n < 100 ? 20 : (!(n > 200) ? -n + 1000 : 1234) : n - 10",
            has_error: true,
            node: Node::Var,
            count_tests: HashMap::new(),
        },
    ]
}

#[test]
fn formula() {
    for case in parse_cases() {
        let prefix = format!("For test {}", case.test_name);
        let formula = match Formula::parse(case.source) {
            Err(err) => {
                assert!(case.has_error, "{}, error found while parsing formula: `{}`: {}", prefix, case.source, err.describe());
                continue;
            }
            Ok(formula) => {
                assert!(!case.has_error, "{}, parser should return an error for source: `{}`", prefix, case.source);
                formula
            }
        };

        assert_eq!(formula.expr, case.node, "{}", prefix);

        for (count, index) in case.count_tests.iter() {
            assert_eq!(formula.execute(*count).as_ref(), index.as_ref(), "{}, bad index for count {}", prefix, count);
        }
    }
}

#[test]
fn test_struct_formula() {
    let formula = Formula { expr: Node::Var };
    let copy = formula.clone();

    assert_eq!(copy.expr, formula.expr);
    assert_eq!(copy, formula);
    assert_eq!(format!("{:?}", formula), String::from("Formula { expr: Var }"));
}

const COUNT_CASE1: Option<usize> = Some(3);
const FORMULA_CASE1: &str = "(n%10==1 && n%100!=11 ? 0 : n%10>=2 && (n%100<10 or n%100>=20) ? 1 : 2)";

const COUNT_CASE2: Option<usize> = None;
const FORMULA_CASE2: &str = "n>1 ? 0 : 1";

fn make_forms(count: Option<usize>, formula: &str) -> (PluralForms, String) {
    let definition = match count {
        Some(count) => format!("nplurals={count}; plural={formula};"),
        None => format!("plural={formula};"),
    };

    let res = PluralForms::parse(&definition).unwrap();

    (res, definition)
}

fn make_cases() -> Vec<(usize, usize)> {
    vec![
        (1, 0),
        (21, 0),
        (31, 0),
        (41, 0),
        (121, 0),
        (131, 0),
        (10, 2),
        (20, 2),
        (110, 2),
        (120, 2),
        (210, 2),
        (11, 2),
        (111, 2),
        (211, 2),
        (14, 2),
        (114, 2),
        (2, 1),
        (5, 1),
        (24, 1),
        (102, 1),
        (105, 1),
        (124, 1),
    ]
}

#[test]
fn test_func_with_error() {
    let res = PluralForms::parse("nplurals=abc; plural=n>1 ? 0 : 1;");

    assert!(res.is_err(), "The parser should return an error for parsing of `nplurals`");
}

#[test]
fn test_func_get_value() {
    let forms = make_forms(COUNT_CASE1, FORMULA_CASE1).0;

    for (count, index) in make_cases() {
        assert_eq!(forms.get_value(count), Some(index), "For {}", count);
    }
}

#[test]
fn test_func_get_count() {
    let forms = make_forms(COUNT_CASE1, FORMULA_CASE1).0;

    assert_eq!(forms.get_count(), 3);
}

#[test]
fn test_func_get_count_with_default() {
    let forms = make_forms(COUNT_CASE2, FORMULA_CASE2).0;

    assert_eq!(forms.get_count(), 2);
}

#[test]
fn test_func_get_definition() {
    let (forms, definition) = make_forms(COUNT_CASE1, FORMULA_CASE1);

    assert_eq!(forms.get_definition(), &definition);
}

#[test]
fn test_func_get_formula() {
    let forms = make_forms(COUNT_CASE1, FORMULA_CASE1).0;

    assert_eq!(forms.get_formula(), FORMULA_CASE1);
}

#[test]
fn test_forms() {
    let (forms, definition) = make_forms(COUNT_CASE1, FORMULA_CASE1);

    assert_eq!(&forms.formula_source, FORMULA_CASE1, "Formula");
    assert_eq!(forms.definition, definition, "Definition");
    assert_eq!(forms.count, 3);

    for (count, index) in make_cases() {
        assert_eq!(forms.formula.execute(count), Some(index), "For {}", count);
    }
}

#[test]
fn forms_test_struct() {
    let (forms, definition) = make_forms(COUNT_CASE1, FORMULA_CASE1);
    let copy = forms.clone();

    assert_eq!(copy.formula, forms.formula, "Formula was not cloned");
    assert_eq!(copy.count, forms.count, "Counts are not equals");
    assert_eq!(copy.definition, forms.definition, "Definitions differs");
    assert_eq!(copy.formula_source, forms.formula_source, "Formula sources differs");

    assert_eq!(
        format!("{:?}", copy),
        format!(
            "PluralForms {{ formula: {:?}, count: 3, definition: {:?}, formula_source: {:?} }}",
            forms.formula, definition, FORMULA_CASE1,
        ),
    );

    assert_eq!(copy, forms);
}

#[test]
fn test_error_parse_on_nplurals() {
    let res = PluralForms::parse("nplurals=wrong; plural=0");

    assert!(res.is_err(), "The parser should return an error for parsing of `nplurals`");
}

#[test]
fn test_func_parse_map() {
    match parse_map("key=value") {
        Err(err) => assert_eq!(err.describe(), "Unexpected error: Bad value list definition: `key=value`"),
        Ok(v) => panic!("Unexpected result: {:?}", v),
    }

    assert_eq!(
        parse_map("     xyz=abc \t ; a=b;c=  d;   e  \t = f;")
            .unwrap()
            .into_iter()
            .collect::<HashMap<_, _>>(),
        vec![("xyz", "abc"), ("a", "b"), ("c", "d"), ("e", "f"),]
            .into_iter()
            .map(|(k, v)| (k.to_string(), v.to_string()))
            .collect::<HashMap<_, _>>()
    );
}

fn plural_forms_error() -> Error {
    Error::PluralForms(String::from("message"))
}

#[test]
fn test_format() {
    let err = plural_forms_error();

    assert_eq!(err.describe(), "Error in plurals forms: message");
}

#[test]
fn test_trait_display() {
    let io = || std::io::Error::new(std::io::ErrorKind::Other, plural_forms_error().describe());

    assert_eq!(
        Error::Io(0, io()).describe(),
        String::from("Error in plurals forms: message"),
    );

    assert_eq!(
        Error::Io(10, io()).describe(),
        String::from("Error in plurals forms: message at line 10"),
    );

    assert_eq!(
        Error::Unexpected(0, String::from("message")).describe(),
        String::from("Unexpected error: message"),
    );

    assert_eq!(
        Error::Unexpected(10, String::from("message")).describe(),
        String::from("Unexpected error at line 10: message"),
    );

    assert_eq!(
        Error::Parse(10, String::from("token1"), String::from("token2")).describe(),
        String::from("Parse error at line 10 expected ‘token2’, got ‘token1’"),
    );

    assert_eq!(
        Error::PluralForms(String::from("message")).describe(),
        format!("Error in plurals forms: message"),
    );
}
