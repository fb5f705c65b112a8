use cargo_script_platform::error::MainError;
use cargo_script_platform::templates::{builtin_template, expand, EXPR_TEMPLATE};

fn subs(pairs: &[(&str, &str)]) -> Vec<(String, String)> {
    pairs.iter().map(|(k, v)| (k.to_string(), v.to_string())).collect()
}

fn expr_program(prelude: &str, script: &str) -> String {
    let t = builtin_template("expr").unwrap();
    expand(t, &subs(&[("prelude", prelude), ("script", script)])).unwrap()
}

#[test]
fn expand_replaces_placeholders() {
    let r = expand("a#{x}b#{y_1}c", &subs(&[("x", "1"), ("y_1", "22")]));
    assert_eq!(r, Ok("a1b22c".to_string()));
}

#[test]
fn expand_keeps_non_placeholders() {
    let r = expand("#{1x} #{ x} #x #{x", &subs(&[]));
    assert_eq!(r, Ok("#{1x} #{ x} #x #{x".to_string()));
}

#[test]
fn expand_unknown_substitution() {
    let r = expand("a#{x}#{nope}#{other}", &subs(&[("x", "1")]));
    assert_eq!(r, Err(MainError::UnknownSubstitution { name: "nope".to_string() }));
}

#[test]
fn expand_first_pair_wins_and_non_ascii_kept() {
    let r = expand("é#{k}ü", &subs(&[("k", "1"), ("k", "2")]));
    assert_eq!(r, Ok("é1ü".to_string()));
}

#[test]
fn builtin_names() {
    assert_eq!(builtin_template("expr"), Some(EXPR_TEMPLATE));
    assert!(builtin_template("file").is_some());
    assert!(builtin_template("loop").is_some());
    assert!(builtin_template("loop-count").is_some());
    assert_eq!(builtin_template("exp"), None);
    assert_eq!(expand(builtin_template("file").unwrap(), &subs(&[("script", "fn main() {}")])), Ok("fn main() {}".to_string()));
}

#[test]
fn test_expr_0() {
    let p = expr_program("", "0");
    assert!(p.contains("match {0}"));
    assert!(!p.contains("#{"));
}

#[test]
fn test_expr_dnc() {
    let p = expr_program("", "swing begin");
    assert!(p.contains("{swing begin}"));
}

#[test]
fn test_expr_dep() {
    let p = expr_program("use boolinator::Boolinator;", "true.as_some(1)");
    assert!(p.starts_with("use boolinator::Boolinator;"));
    assert!(p.contains("{true.as_some(1)}"));
}

#[test]
fn test_expr_dep_extern() {
    let p = expr_program("use boolinator::Boolinator;", "true.as_some(1)");
    assert!(p.contains("use boolinator::Boolinator;"));
    let q = expr_program("", "true");
    assert!(q.contains("match {true}"));
    assert!(!q.contains("boolinator"));
}

#[test]
fn test_expr_panic() {
    let p = expr_program("", "panic!()");
    assert!(p.contains("{panic!()}"));
}

#[test]
fn test_expr_comma() {
    let p = expr_program("", "(1, 2)");
    assert!(p.contains("match {(1, 2)}"));
}
