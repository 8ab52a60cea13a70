use tag_suite::expression::comparison::Comparator;
use tag_suite::expression::{Comparables, Comparison, Error};
use tag_suite::util::table::VecMap;

fn vars(list: &[(&str, u64)]) -> Comparables {
    let mut map: VecMap<String, u64> = VecMap::new();
    for (k, v) in list {
        map.insert(k.to_string(), *v);
    }
    Comparables::from_map(map)
}

fn parts(a: &str, b: &str, c: &str) -> (String, String, String) {
    (a.to_string(), b.to_string(), c.to_string())
}

#[test]
fn a_comparison_has_three_parts() {
    assert_eq!(Comparison::capture("tags.len >= 2"), Ok(parts("tags.len", ">=", "2")));
    assert_eq!(Comparison::capture("a<10"), Ok(parts("a", "<", "10")));
    assert_eq!(Comparison::capture("  path.len  !=  007  "), Ok(parts("path.len", "!=", "007")));
    assert_eq!(Comparison::capture("a-b_c.d==1"), Ok(parts("a-b_c.d", "==", "1")));
    assert_eq!(Comparison::capture("x>3"), Ok(parts("x", ">", "3")));
    assert_eq!(Comparison::capture("x<=3"), Ok(parts("x", "<=", "3")));
}

#[test]
fn what_is_no_comparison_is_not_captured() {
    for text in ["", "a", "a >=", ">= 2", "a = 2", "a >= b", "a >= 2 x", "a b >= 2", "a >= -2"] {
        assert_eq!(
            Comparison::capture(text),
            Err(Error::FailedCapture { expression: text.to_string() })
        );
        assert!(Comparison::new(text).is_err());
    }
}

#[test]
fn a_number_that_does_not_fit_is_refused() {
    assert!(Comparison::new("a == 18446744073709551615").is_ok());
    assert_eq!(
        Comparison::new("a == 18446744073709551616").unwrap_err(),
        Error::FailedCapture { expression: "a == 18446744073709551616".to_string() }
    );
}

#[test]
fn comparisons_are_evaluated_on_the_variables() {
    let v = vars(&[("tags.len", 2), ("file.id", 7)]);
    assert_eq!(v.evaluate(&Comparison::new("tags.len >= 2").unwrap()), Ok(true));
    assert_eq!(v.evaluate(&Comparison::new("tags.len > 2").unwrap()), Ok(false));
    assert_eq!(v.evaluate(&Comparison::new("tags.len <= 2").unwrap()), Ok(true));
    assert_eq!(v.evaluate(&Comparison::new("tags.len < 2").unwrap()), Ok(false));
    assert_eq!(v.evaluate(&Comparison::new("tags.len == 2").unwrap()), Ok(true));
    assert_eq!(v.evaluate(&Comparison::new("tags.len != 2").unwrap()), Ok(false));
    assert_eq!(v.evaluate(&Comparison::new("file.id == 7").unwrap()), Ok(true));
}

#[test]
fn an_unknown_variable_is_an_error() {
    let v = vars(&[("tags.len", 2)]);
    assert_eq!(
        v.evaluate(&Comparison::new("nope == 1").unwrap()),
        Err(Error::UnknownVariable { variable: "nope".to_string() })
    );
    assert_eq!(
        v.variable("nope"),
        Err(Error::UnknownVariable { variable: "nope".to_string() })
    );
    assert_eq!(v.variable("tags.len"), Ok(2));
}

#[test]
fn operators_are_named_by_their_signs() {
    assert_eq!(Comparables::operator("=="), Ok(Comparator::Eq));
    assert_eq!(Comparables::operator("!="), Ok(Comparator::Ne));
    assert_eq!(Comparables::operator(">="), Ok(Comparator::Ge));
    assert_eq!(Comparables::operator("<="), Ok(Comparator::Le));
    assert_eq!(Comparables::operator(">"), Ok(Comparator::Gt));
    assert_eq!(Comparables::operator("<"), Ok(Comparator::Lt));
    assert_eq!(
        Comparables::operator("=<"),
        Err(Error::UnknownOperator { operator: "=<".to_string() })
    );
    assert_eq!(
        Comparables::operator(""),
        Err(Error::UnknownOperator { operator: String::new() })
    );
}

#[test]
fn literals_are_digits() {
    assert_eq!(Comparables::literal("0"), Ok(0));
    assert_eq!(Comparables::literal("42"), Ok(42));
    assert_eq!(Comparables::literal("0042"), Ok(42));
    assert!(Comparables::literal("").is_err());
    assert!(Comparables::literal("4 2").is_err());
    assert!(Comparables::literal("-1").is_err());
    assert!(Comparables::literal("99999999999999999999").is_err());
}

#[test]
fn the_six_operations_compare_numbers() {
    assert!(Comparables::operation(1, Comparator::Eq, 1));
    assert!(!Comparables::operation(1, Comparator::Eq, 2));
    assert!(Comparables::operation(1, Comparator::Ne, 2));
    assert!(Comparables::operation(2, Comparator::Ge, 2));
    assert!(!Comparables::operation(1, Comparator::Ge, 2));
    assert!(Comparables::operation(2, Comparator::Le, 2));
    assert!(Comparables::operation(3, Comparator::Gt, 2));
    assert!(!Comparables::operation(2, Comparator::Gt, 2));
    assert!(Comparables::operation(1, Comparator::Lt, 2));
}
