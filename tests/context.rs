use ressa::context::{ContextError, ParserContext};

#[test]
fn make_obj_is_idempotent() {
    let mut ctx = ParserContext::new();
    ctx.make_obj("User");
    ctx.make_attribute("User", "id", Some("int"));
    ctx.make_obj("User");
    let obj = ctx.get_obj("User").unwrap().unwrap();
    assert_eq!(obj.len(), 1);
    assert_eq!(obj.get("id"), Some(&Some("int".to_string())));
}

#[test]
fn make_attribute_creates_and_overwrites() {
    let mut ctx = ParserContext::new();
    ctx.make_attribute("User", "id", Some("int"));
    ctx.make_attribute("User", "id", Some("long"));
    ctx.make_attribute("User", "name", None);
    let obj = ctx.get_obj("User").unwrap().unwrap();
    assert_eq!(obj.get("id"), Some(&Some("long".to_string())));
    assert_eq!(obj.get("name"), Some(&None));
}

#[test]
fn absent_object_is_none() {
    let ctx = ParserContext::new();
    assert!(ctx.get_obj("Nothing").unwrap().is_none());
}

#[test]
fn tag_chain_resolves_to_final_object() {
    let mut ctx = ParserContext::new();
    ctx.make_attribute("Order", "total", Some("double"));
    ctx.make_tag("b", "Order");
    ctx.make_tag("a", "?b");
    let obj = ctx.get_obj("?a").unwrap().unwrap();
    assert_eq!(obj.get("total"), Some(&Some("double".to_string())));
}

#[test]
fn broken_tag_stops_the_run() {
    let mut ctx = ParserContext::new();
    ctx.make_attribute("?a", "other", None);
    assert_eq!(ctx.get_obj("?a").err(), Some(ContextError::BrokenTag("?a".to_string())));
    let mut ctx = ParserContext::new();
    ctx.make_attribute("?t", "resolves_to", None);
    assert_eq!(ctx.get_obj("?t").err(), Some(ContextError::BrokenTag("?t".to_string())));
}

#[test]
fn tag_cycle_is_reported() {
    let mut ctx = ParserContext::new();
    ctx.make_tag("a", "?b");
    ctx.make_tag("b", "?a");
    assert_eq!(ctx.get_obj("?a").err(), Some(ContextError::TagCycle("?a".to_string())));
}

#[test]
fn local_variables_overwrite() {
    let mut ctx = ParserContext::new();
    assert_eq!(ctx.make_variable("x", "1"), None);
    assert_eq!(ctx.make_variable("x", "2"), Some("1".to_string()));
    assert_eq!(ctx.get_variable("x"), Some("2".to_string()));
    ctx.clear_variables();
    assert_eq!(ctx.get_variable("x"), None);
}

#[test]
fn three_nested_frames_clear_once() {
    let mut ctx = ParserContext::new();
    ctx.enter_frame();
    ctx.enter_frame();
    ctx.enter_frame();
    ctx.make_variable("name", "value");
    assert!(!ctx.leave_frame());
    assert_eq!(ctx.get_variable("name"), Some("value".to_string()));
    assert!(!ctx.leave_frame());
    assert_eq!(ctx.get_variable("name"), Some("value".to_string()));
    assert!(ctx.leave_frame());
    assert_eq!(ctx.get_variable("name"), None);
    assert_eq!(ctx.frame_depth(), 0);
}

#[test]
fn default_context_is_empty() {
    let ctx = ParserContext::default();
    assert_eq!(ctx.frame_depth(), 0);
    assert!(ctx.get_obj("anything").unwrap().is_none());
    assert_eq!(ctx.get_variable("anything"), None);
}

#[test]
fn tag_to_missing_object_is_broken() {
    let mut ctx = ParserContext::new();
    ctx.make_tag("a", "Nowhere");
    assert_eq!(ctx.get_obj("?a").err(), Some(ContextError::BrokenTag("?a".to_string())));
}
