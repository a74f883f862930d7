use defunctionalize::ast::Error;
use defunctionalize::ast::Signature;

#[test]
fn parse_minimal_empty_pattern() {
    let sig = Signature::parse("fn()").unwrap();
    assert_eq!(sig.name, None);
    assert_eq!(sig.generics, None);
    assert_eq!(sig.inputs.len(), 0);
    assert_eq!(sig.output, None);
    assert_eq!(sig.where_clause, None);
}

#[test]
fn parse_single_parameter_and_return() {
    let sig = Signature::parse("fn(delta_or_factor: i64) -> i64").unwrap();
    assert_eq!(sig.name, None);
    assert_eq!(sig.inputs.len(), 1);
    assert_eq!(sig.inputs[0].name, "delta_or_factor");
    assert_eq!(sig.inputs[0].ty, "i64");
    assert_eq!(sig.output.as_deref(), Some("i64"));
}

#[test]
fn parse_full_pattern() {
    let sig = Signature::parse("fn dispatch<T: Clone>(a: T, b: i64,) -> T where T: Default")
        .unwrap();
    assert_eq!(sig.name.as_deref(), Some("dispatch"));
    assert_eq!(sig.generics.as_deref(), Some("T: Clone"));
    assert_eq!(sig.inputs.len(), 2);
    assert_eq!(sig.inputs[0].name, "a");
    assert_eq!(sig.inputs[0].ty, "T");
    assert_eq!(sig.inputs[1].name, "b");
    assert_eq!(sig.inputs[1].ty, "i64");
    assert_eq!(sig.output.as_deref(), Some("T"));
    assert_eq!(sig.where_clause.as_deref(), Some("T: Default"));
}

#[test]
fn parse_bracketed_type_with_commas() {
    let sig = Signature::parse("fn(p: (i64, i64), q: Pairs<u8, u8>)").unwrap();
    assert_eq!(sig.inputs.len(), 2);
    assert_eq!(sig.inputs[0].ty, "(i64, i64)");
    assert_eq!(sig.inputs[1].ty, "Pairs<u8, u8>");
}

#[test]
fn parse_function_type_arrow_inside_generics() {
    let sig = Signature::parse("fn(f: Box<dyn Fn(u8) -> u8>) -> u8").unwrap();
    assert_eq!(sig.inputs.len(), 1);
    assert_eq!(sig.inputs[0].ty, "Box<dyn Fn(u8) -> u8>");
    assert_eq!(sig.output.as_deref(), Some("u8"));
}

#[test]
fn parse_where_without_return_type() {
    let sig = Signature::parse("fn(x: T) where T: Copy").unwrap();
    assert_eq!(sig.output, None);
    assert_eq!(sig.where_clause.as_deref(), Some("T: Copy"));
}

#[test]
fn parse_leading_whitespace_tolerated() {
    let sig = Signature::parse("  fn  name  ( a : u8 )  ->  u8 ").unwrap();
    assert_eq!(sig.name.as_deref(), Some("name"));
    assert_eq!(sig.inputs[0].name, "a");
    assert_eq!(sig.inputs[0].ty, "u8");
    assert_eq!(sig.output.as_deref(), Some("u8"));
}

#[test]
fn parse_rejects_missing_fn_keyword() {
    assert_eq!(Signature::parse("foo(a: u8)"), Err(Error::Parse { at: 0 }));
}

#[test]
fn parse_rejects_missing_colon() {
    assert_eq!(Signature::parse("fn(a i64)"), Err(Error::Parse { at: 5 }));
}

#[test]
fn parse_rejects_missing_type() {
    assert_eq!(Signature::parse("fn(a:)"), Err(Error::Parse { at: 5 }));
}

#[test]
fn parse_rejects_missing_parameter_list() {
    assert_eq!(Signature::parse("fn name"), Err(Error::Parse { at: 7 }));
}

#[test]
fn parse_rejects_missing_return_type() {
    assert_eq!(Signature::parse("fn() ->"), Err(Error::Parse { at: 7 }));
}

#[test]
fn parse_rejects_trailing_garbage() {
    assert_eq!(Signature::parse("fn() blah"), Err(Error::Parse { at: 5 }));
}

#[test]
fn parse_rejects_unclosed_parameter_list() {
    assert_eq!(Signature::parse("fn(a: u8"), Err(Error::Parse { at: 8 }));
}
