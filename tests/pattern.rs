use ressa::context::ParserContext;
use ressa::pattern::{CompiledPattern, PatternError};

#[test]
fn test_bson() {
    assert_eq!(
        "BSON_APPEND_(?P<type>.*?)_(?P<another_one>.*?)",
        CompiledPattern::from_pattern("BSON_APPEND_#{type}_#&{another_one}")
            .expect("Failed to construct regex from pattern input")
            .as_str()
    );
}

#[test]
fn bson_variables_and_references() {
    let cp = CompiledPattern::from_pattern("BSON_APPEND_#{type}_#&{another_one}").unwrap();
    assert_eq!(cp.variables(), vec!["type".to_string(), "another_one".to_string()]);
    assert_eq!(cp.reference_vars(), vec!["another_one".to_string()]);
}

#[test]
fn text_without_markers_is_kept() {
    let cp = CompiledPattern::from_pattern("get#name#&x").unwrap();
    assert_eq!(cp.as_str(), "get#name#&x");
    assert!(cp.variables().is_empty());
}

#[test]
fn invalid_expression_is_refused() {
    assert_eq!(CompiledPattern::from_pattern("call(#{x}").err(), Some(PatternError::InvalidRegex));
}

#[test]
fn matches_without_references() {
    let cp = CompiledPattern::from_pattern("^get#{entity}$").unwrap();
    let ctx = ParserContext::new();
    assert_eq!(cp.matches("getUser", &ctx), Ok(true));
    assert_eq!(cp.matches("setUser", &ctx), Ok(false));
    assert!(cp.primitive_matches("getOrder"));
}

#[test]
fn reference_must_name_an_object() {
    let cp = CompiledPattern::from_pattern("^#&{target}$").unwrap();
    let mut ctx = ParserContext::new();
    assert_eq!(cp.matches("Order", &ctx), Ok(false));
    ctx.make_obj("Order");
    assert_eq!(cp.matches("Order", &ctx), Ok(true));
}

#[test]
fn match_and_insert_binds_captures() {
    let cp = CompiledPattern::from_pattern("^#{verb}_#{noun}$").unwrap();
    let mut ctx = ParserContext::new();
    assert_eq!(cp.match_and_insert("get_user", &mut ctx), Ok(true));
    assert_eq!(ctx.get_variable("verb"), Some("get".to_string()));
    assert_eq!(ctx.get_variable("noun"), Some("user".to_string()));
}

#[test]
fn failed_match_binds_nothing() {
    let cp = CompiledPattern::from_pattern("^#{verb}_#{noun}$").unwrap();
    let mut ctx = ParserContext::new();
    assert_eq!(cp.match_and_insert("getuser", &mut ctx), Ok(false));
    assert_eq!(ctx.get_variable("verb"), None);
}
