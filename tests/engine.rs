use ressa::context::{ObjectsView, ParserContext};
use ressa::engine::{
    apply_call, apply_class, apply_method, lazy_compile, msd_node_parse, run_ressa_parse, write_to_context,
    CallbackExecutor, LocalsView, NodePattern, NodeType,
};
use ressa::model::{
    AccessorType, AnnotationComponent, CallExpr, ClassOrInterfaceComponent, ComponentInfo, ContainerComponent,
    ContainerStereotype, ContainerType, Expr, Ident, InstanceType, Literal, MethodComponent, MethodParamComponent,
    ModuleComponent, Stmt,
};

struct NoCallbacks;

impl CallbackExecutor for NoCallbacks {
    // Read by the verifier only; never run.
    fn accepts(&self, _p: NodePattern, _o: ObjectsView, _l: LocalsView) -> bool {
        unreachable!()
    }

    fn result_objects(&self, _p: NodePattern, _o: ObjectsView, _l: LocalsView) -> ObjectsView {
        unreachable!()
    }

    fn result_locals(&self, _p: NodePattern, _o: ObjectsView, _l: LocalsView) -> LocalsView {
        unreachable!()
    }

    fn execute(&self, _pattern: &NodePattern, _ctx: ParserContext) -> Result<ParserContext, String> {
        Err("no callbacks here".to_string())
    }
}

struct RecordMatch;

impl CallbackExecutor for RecordMatch {
    // Read by the verifier only; never run.
    fn accepts(&self, _p: NodePattern, _o: ObjectsView, _l: LocalsView) -> bool {
        unreachable!()
    }

    fn result_objects(&self, _p: NodePattern, _o: ObjectsView, _l: LocalsView) -> ObjectsView {
        unreachable!()
    }

    fn result_locals(&self, _p: NodePattern, _o: ObjectsView, _l: LocalsView) -> LocalsView {
        unreachable!()
    }

    fn execute(&self, _pattern: &NodePattern, ctx: ParserContext) -> Result<ParserContext, String> {
        let mut ctx = ctx;
        let name = ctx.get_variable("name").unwrap_or_default();
        ctx.make_obj(&name);
        Ok(ctx)
    }
}

fn info(name: &str) -> ComponentInfo {
    ComponentInfo {
        path: "Main.java".to_string(),
        package_name: "app".to_string(),
        instance_name: name.to_string(),
        instance_type: InstanceType::AnalysisComponent,
    }
}

fn param(name: &str, ty: &str) -> MethodParamComponent {
    MethodParamComponent {
        component: info(name),
        annotation: None,
        parameter_name: name.to_string(),
        parameter_type: ty.to_string(),
    }
}

fn method(name: &str, parameters: Vec<MethodParamComponent>, body: Option<Vec<Stmt>>) -> MethodComponent {
    MethodComponent {
        component: info(name),
        accessor: AccessorType::Public,
        method_name: name.to_string(),
        return_type: "void".to_string(),
        parameters,
        is_static: false,
        is_abstract: false,
        sub_methods: vec![],
        annotations: vec![],
        line_count: 0,
        line_begin: 0,
        line_end: 0,
        body,
    }
}

fn class(name: &str, methods: Vec<MethodComponent>) -> ClassOrInterfaceComponent {
    ClassOrInterfaceComponent {
        component: ContainerComponent {
            component: info(name),
            accessor: AccessorType::Public,
            stereotype: ContainerStereotype::Service,
            methods,
            container_name: name.to_string(),
            line_count: 0,
        },
        declaration_type: ContainerType::Class,
        annotations: vec![AnnotationComponent {
            name: "Service".to_string(),
            value: "".to_string(),
            key_value_pairs: vec![],
        }],
        stereotype: ContainerStereotype::Service,
        constructors: None,
        field_components: None,
    }
}

fn pat(kind: NodeType, text: &str, subs: Vec<NodePattern>, essential: bool) -> NodePattern {
    NodePattern::new(kind, text.to_string(), None, subs, None, essential)
}

#[test]
fn optional_binding_failure_passes() {
    let cp = lazy_compile("^a$");
    let mut ctx = ParserContext::new();
    assert_eq!(write_to_context("b", false, &cp, &mut ctx), Ok(true));
    assert_eq!(write_to_context("b", true, &cp, &mut ctx), Ok(false));
    assert_eq!(write_to_context("a", true, &cp, &mut ctx), Ok(true));
    assert_eq!(write_to_context("b", false, &None, &mut ctx), Ok(true));
    assert_eq!(write_to_context("b", true, &None, &mut ctx), Ok(true));
}

#[test]
fn optional_subpattern_not_found_keeps_parent() {
    let m = method("save", vec![], None);
    let optional = pat(NodeType::Annotation, "^Transactional$", vec![], false);
    let p = pat(NodeType::Method, "^save$", vec![optional], true);
    let mut ctx = ParserContext::new();
    assert_eq!(apply_method(&m, &p, &mut ctx, &NoCallbacks), Ok(true));
    let required = pat(NodeType::Annotation, "^Transactional$", vec![], true);
    let p = pat(NodeType::Method, "^save$", vec![required], true);
    assert_eq!(apply_method(&m, &p, &mut ctx, &NoCallbacks), Ok(false));
}

#[test]
fn parameters_align_at_last_offset() {
    let m = method("put", vec![param("key", "String"), param("value", "int"), param("ttl", "long")], None);
    let subs = vec![
        NodePattern::new(NodeType::MethodParam, "^value$".to_string(), Some("^int$".to_string()), vec![], None, true),
        NodePattern::new(NodeType::MethodParam, "^ttl$".to_string(), Some("^long$".to_string()), vec![], None, true),
    ];
    let p = pat(NodeType::Method, "^put$", subs, true);
    let mut ctx = ParserContext::new();
    assert_eq!(apply_method(&m, &p, &mut ctx, &NoCallbacks), Ok(true));
}

#[test]
fn parameters_that_never_align_fail() {
    let m = method("put", vec![param("key", "String"), param("value", "int")], None);
    let subs = vec![
        pat(NodeType::MethodParam, "^value$", vec![], true),
        pat(NodeType::MethodParam, "^key$", vec![], true),
    ];
    let p = pat(NodeType::Method, "^put$", subs, true);
    let mut ctx = ParserContext::new();
    assert_eq!(apply_method(&m, &p, &mut ctx, &NoCallbacks), Ok(false));
    let subs = vec![
        pat(NodeType::MethodParam, "^key$", vec![], true),
        pat(NodeType::MethodParam, "^value$", vec![], true),
    ];
    let p = pat(NodeType::Method, "^put$", subs, true);
    assert_eq!(apply_method(&m, &p, &mut ctx, &NoCallbacks), Ok(true));
}

#[test]
fn call_arguments_and_body_search() {
    let call = CallExpr {
        name: Box::new(Expr::Ident(Ident { name: "exchange".to_string() })),
        args: vec![
            Expr::Literal(Literal { value: "http://orders/api".to_string() }),
            Expr::Ident(Ident { name: "GET".to_string() }),
        ],
    };
    let p = pat(
        NodeType::CallExpr,
        "^exchange$",
        vec![pat(NodeType::Literal, "^http://#{service}/#{path}$", vec![], true)],
        true,
    );
    let mut ctx = ParserContext::new();
    assert_eq!(apply_call(&call, &p, &mut ctx, &NoCallbacks), Ok(true));
    let m = method("fetch", vec![], Some(vec![Stmt::ExprStmt(Expr::CallExpr(call))]));
    let outer = pat(NodeType::Method, "^fetch$", vec![p], true);
    assert_eq!(apply_method(&m, &outer, &mut ctx, &NoCallbacks), Ok(true));
    assert_eq!(ctx.frame_depth(), 0);
    assert_eq!(ctx.get_variable("service"), None);
}

#[test]
fn unmatchable_pattern_never_matches() {
    let m = method("run(", vec![], None);
    let p = pat(NodeType::Method, "run(", vec![], true);
    assert!(p.is_unmatchable());
    let mut ctx = ParserContext::new();
    assert_eq!(apply_method(&m, &p, &mut ctx, &NoCallbacks), Ok(false));
}

#[test]
fn callback_replaces_context() {
    let c = class("OrderService", vec![]);
    let p = NodePattern::new(NodeType::ClassOrInterface, "^#{name}$".to_string(), None, vec![], Some("record".to_string()), true);
    let mut ctx = ParserContext::new();
    assert_eq!(apply_class(&c, &p, &mut ctx, &RecordMatch), Ok(true));
    assert!(ctx.get_obj("OrderService").unwrap().is_some());
    let mut ctx = ParserContext::new();
    assert_eq!(apply_class(&c, &p, &mut ctx, &NoCallbacks), Ok(false));
}

#[test]
fn run_over_modules() {
    let mut module = ModuleComponent::new("app".to_string(), "src".to_string());
    module.classes.push(class("OrderService", vec![method("save", vec![], None)]));
    let patterns = vec![
        pat(NodeType::ClassOrInterface, "Service$", vec![pat(NodeType::Annotation, "^Service$", vec![], true)], true),
        NodePattern::new(NodeType::Method, "^#{name}$".to_string(), None, vec![], Some("record".to_string()), true),
    ];
    let ctx = run_ressa_parse(&vec![module], &patterns, &RecordMatch).unwrap();
    assert_eq!(ctx.frame_depth(), 0);
    assert!(ctx.get_obj("save").unwrap().is_some());
    assert_eq!(ctx.get_variable("name"), None);
}

#[test]
fn msd_node_parse_dispatches_by_node() {
    let ident = Ident { name: "userId".to_string() };
    let p = pat(NodeType::Ident, "^#{field}Id$", vec![], true);
    let mut ctx = ParserContext::new();
    assert_eq!(msd_node_parse(&p, &ident, &mut ctx, &NoCallbacks), Ok(true));
    let lit = Literal { value: "userId".to_string() };
    assert_eq!(msd_node_parse(&p, &lit, &mut ctx, &NoCallbacks), Ok(false));
    ctx.enter_frame();
    assert_eq!(msd_node_parse(&p, &ident, &mut ctx, &NoCallbacks), Ok(true));
    assert_eq!(ctx.get_variable("field"), Some("user".to_string()));
}

#[test]
fn failing_callback_keeps_context_at_inner_depth() {
    let c = class("OrderService", vec![]);
    let p = NodePattern::new(NodeType::ClassOrInterface, "^#{name}$".to_string(), None, vec![], Some("record".to_string()), true);
    let mut ctx = ParserContext::new();
    ctx.enter_frame();
    ctx.make_variable("outer", "kept");
    assert_eq!(apply_class(&c, &p, &mut ctx, &NoCallbacks), Ok(false));
    assert_eq!(ctx.frame_depth(), 1);
    assert_eq!(ctx.get_variable("outer"), Some("kept".to_string()));
    assert!(ctx.get_obj("OrderService").unwrap().is_none());
}

#[test]
fn broken_tag_reference_stops_the_run() {
    let ident = Ident { name: "alias".to_string() };
    let p = pat(NodeType::Ident, "^#&{target}$", vec![], true);
    let mut ctx = ParserContext::new();
    ctx.make_attribute("?alias", "other", None);
    assert!(msd_node_parse(&p, &Ident { name: "?alias".to_string() }, &mut ctx, &NoCallbacks).is_err());
    assert_eq!(msd_node_parse(&p, &ident, &mut ctx, &NoCallbacks), Ok(false));
    assert_eq!(ctx.frame_depth(), 0);
}
