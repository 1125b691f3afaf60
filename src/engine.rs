//! The matching engine: decides whether a node of the component tree, or of
//! a method body, satisfies a node pattern, recursively, and records what
//! the patterns capture in the context.

use vstd::prelude::*;
use crate::context::{ContextError, ObjectsView, ParserContext};
use crate::model::{
    AnnotationComponent, AnnotationValuePair, CallExpr, ClassOrInterfaceComponent, DeclStmt, Expr,
    FieldComponent, Ident, Literal, MethodComponent, MethodParamComponent, ModuleComponent, Stmt, VarDecl,
};
use crate::pattern::{
    match_verdict, regex_compiles, regex_named_groups, reports, translate, CompiledPattern, RefVerdict,
};
use crate::semantics::{
    Outcome,
    explore_aborts, explore_classes_aborts, explore_fields_aborts, explore_methods_aborts,
    enters, expr_enters,
    class_children_o, class_o, class_subs, any_method_o, arg_window, arg_windows, call_name, call_o, decl_children_o, decl_o, decl_subs, expr_o,
    method_children_o, method_o, method_subs, ordered_subpatterns, param_window, param_windows,
    search_expr_o, search_exprs_o, search_stmt_o, search_stmts_o,
    annotation_o, annotation_subs, any_annotation_in_o, any_annotation_o, any_field_in_o, any_field_o,
    any_value_pair_o, any_var_decl_o, any_variable_o, field_children_o, field_o, field_subs, ident_o,
    literal_o, outcome_of, param_o, param_subs, value_pair_o, var_decl_o, var_decl_subs, var_type_bind,
    var_type_check,
};

verus! {

broadcast use vstd::std_specs::vec::group_vec_axioms;

/// Deepest nesting of pattern applications the engine accepts.
pub const MAX_DEPTH: usize = 4096;

/// The kind of node a pattern targets.
#[derive(Debug, Clone, Copy, PartialEq, Eq, Structural)]
pub enum NodeType {
    ClassOrInterface,
    Method,
    MethodParam,
    Field,
    Annotation,
    AnnotationValuePair,
    CallExpr,
    VarDecl,
    DeclStmt,
    Ident,
    Literal,
}

/// View of the local variables.
pub type LocalsView = Map<Seq<char>, Seq<char>>;

/// Runs the callback a pattern names, on a copy of the context; `Ok` hands
/// back the context to go on with. The outcome is a function of the
/// pattern and of the objects and local variables it is given.
pub trait CallbackExecutor {
    /// Whether the callback of `pattern` succeeds on these contents.
    spec fn accepts(&self, pattern: NodePattern, objs: ObjectsView, locals: LocalsView) -> bool;

    /// The objects of the context handed back on success.
    spec fn result_objects(&self, pattern: NodePattern, objs: ObjectsView, locals: LocalsView) -> ObjectsView;

    /// The local variables of the context handed back on success.
    spec fn result_locals(&self, pattern: NodePattern, objs: ObjectsView, locals: LocalsView) -> LocalsView;

    fn execute(&self, pattern: &NodePattern, ctx: ParserContext) -> (r: Result<ParserContext, String>)
        ensures
            r is Ok == self.accepts(*pattern, ctx.objects(), ctx.locals()),
            r matches Ok(c) ==> c.objects() == self.result_objects(*pattern, ctx.objects(), ctx.locals())
                && c.locals() == self.result_locals(*pattern, ctx.objects(), ctx.locals()),
    ;
}

/// A node of interest: its kind, its patterns, and its subpatterns.
pub struct NodePattern {
    /// The kind of node targeted.
    pub identifier: NodeType,
    /// Pattern for the node's name or value.
    pub pattern: String,
    /// Pattern for the node's type, where it has one.
    pub type_pattern: Option<String>,
    /// Patterns to be found among the node's children.
    pub subpatterns: Vec<NodePattern>,
    /// Callback to run once the node matched.
    pub callback: Option<String>,
    /// Whether a failure of this pattern fails the enclosing match.
    pub essential: bool,
    /// `pattern`, compiled; `None` when it could not be.
    pub compiled_pattern: Option<CompiledPattern>,
    /// `type_pattern`, compiled; `None` when absent or when it could not be.
    pub compiled_type_pattern: Option<CompiledPattern>,
}

/// Compiles `pattern`; `None` when it cannot be compiled.
pub fn lazy_compile(pattern: &str) -> (r: Option<CompiledPattern>)
    ensures
        r is Some == regex_compiles(translate(pattern@).text),
        r matches Some(cp) ==> {
            &&& cp.source() == translate(pattern@).text
            &&& cp.variable_names() == translate(pattern@).vars
            &&& cp.reference_flags() == translate(pattern@).refs
        },
{
    match CompiledPattern::from_pattern(pattern) {
        Ok(cp) => Some(cp),
        Err(_) => None,
    }
}

/// `c` accepts `text` among objects `objs`; no compiled pattern accepts all.
pub open spec fn accepts(c: Option<CompiledPattern>, text: Seq<char>, objs: ObjectsView) -> bool {
    match c {
        None => true,
        Some(cp) => match_verdict(objs, regex_named_groups(cp.source(), text, cp.variable_names()), cp.reference_flags())
            == RefVerdict::Pass,
    }
}

/// No pattern of the tree has a callback.
pub open spec fn no_callbacks(p: NodePattern) -> bool
    decreases p, 1int, 0int,
{
    p.callback is None && subpatterns_free(p, p.subpatterns.len() as int)
}

/// None of the first `n` subpatterns of `p` has a callback in its tree.
pub open spec fn subpatterns_free(p: NodePattern, n: int) -> bool
    decreases p, 0int, n,
{
    if n <= 0 {
        true
    } else {
        subpatterns_free(p, n - 1) && (n - 1 < p.subpatterns.len() ==> no_callbacks(p.subpatterns[n - 1]))
    }
}

/// What every application of a pattern keeps: the depth is restored, an
/// application made at depth zero leaves no local variable behind (or, when
/// it did not start, leaves them as they were), and without callbacks the
/// objects stay as they were.
pub open spec fn application_ok(p: NodePattern, before: ParserContext, after: ParserContext) -> bool {
    &&& after.depth() == before.depth()
    &&& before.depth() == 0 ==> after.locals() == Map::<Seq<char>, Seq<char>>::empty() || after.locals()
        == before.locals()
    &&& no_callbacks(p) ==> after.objects() == before.objects()
}

/// No subpattern tree of `p` has a callback; `p` itself may have one.
pub open spec fn children_free(p: NodePattern) -> bool {
    subpatterns_free(p, p.subpatterns.len() as int)
}

/// The callback of `p` ran on the objects of `before` and local variables
/// `l` (those of `before` and the bindings made), and its outcome decided
/// the result: success adopts what it handed back, failure keeps the
/// context as it was.
pub open spec fn callback_ran<E: CallbackExecutor>(
    p: NodePattern,
    before: ParserContext,
    after: ParserContext,
    r: Result<bool, ContextError>,
    exec: E,
    l: LocalsView,
) -> bool {
    &&& before.locals().dom().subset_of(l.dom())
    &&& r is Ok
    &&& (r == Ok::<bool, ContextError>(true)) == exec.accepts(p, before.objects(), l)
    &&& r == Ok::<bool, ContextError>(true) ==> after.objects() == exec.result_objects(p, before.objects(), l) && (
    before.depth() > 0 ==> after.locals() == exec.result_locals(p, before.objects(), l))
    &&& r == Ok::<bool, ContextError>(false) ==> after.objects() == before.objects() && (before.depth() > 0
        ==> after.locals() == l)
}

/// What applying `p` does, where `entered` says whether the pattern applies
/// to the node at all and `o` is the decision without callbacks:
/// - the depth is restored; a pattern that does not apply leaves the context
///   untouched and fails; one that applied at depth zero leaves no local
///   variable behind;
/// - without callbacks the decision is `o`, the objects are kept, no error
///   comes among no objects, and at inner depths the local variables are
///   kept, with the bindings made added;
/// - with a callback on `p` only, a decision other than yes is reported as
///   it is, with the objects kept; on yes the callback ran once and decided.
pub open spec fn applied<E: CallbackExecutor>(
    p: NodePattern,
    entered: bool,
    o: crate::semantics::Outcome,
    before: ParserContext,
    after: ParserContext,
    r: Result<bool, ContextError>,
    exec: E,
) -> bool {
    &&& after.depth() == before.depth()
    &&& !entered ==> r == Ok::<bool, ContextError>(false) && after == before
    &&& entered && before.depth() == 0 ==> after.locals() == LocalsView::empty()
    &&& no_callbacks(p) ==> after.objects() == before.objects() && outcome_of(r) == o
    &&& no_callbacks(p) && before.depth() > 0 ==> before.locals().dom().subset_of(after.locals().dom())
    &&& no_callbacks(p) && before.objects() == ObjectsView::empty() ==> !(r is Err)
    &&& children_free(p) && p.callback is Some && o != crate::semantics::Outcome::Yes ==> outcome_of(r) == o
        && after.objects() == before.objects() && (before.depth() > 0 ==> before.locals().dom().subset_of(
        after.locals().dom()))
    &&& children_free(p) && p.callback is Some && o == crate::semantics::Outcome::Yes ==> exists|l: LocalsView|
        #[trigger] callback_ran(p, before, after, r, exec, l)
}

impl NodePattern {
    /// A pattern whose text, or type text, could not be compiled never matches.
    pub open spec fn unmatchable(&self) -> bool {
        self.compiled_pattern is None || (self.type_pattern is Some && self.compiled_type_pattern is None)
    }

    /// A node pattern; its texts are compiled here.
    pub fn new(
        identifier: NodeType,
        pattern: String,
        type_pattern: Option<String>,
        subpatterns: Vec<NodePattern>,
        callback: Option<String>,
        essential: bool,
    ) -> (r: NodePattern)
        ensures
            r.identifier == identifier,
            r.pattern == pattern,
            r.type_pattern == type_pattern,
            r.subpatterns == subpatterns,
            r.callback == callback,
            r.essential == essential,
            r.compiled_pattern is Some == regex_compiles(translate(pattern@).text),
            r.compiled_pattern matches Some(cp) ==> {
                &&& cp.source() == translate(pattern@).text
                &&& cp.variable_names() == translate(pattern@).vars
                &&& cp.reference_flags() == translate(pattern@).refs
            },
            match type_pattern {
                Some(t) => {
                    &&& r.compiled_type_pattern is Some == regex_compiles(translate(t@).text)
                    &&& r.compiled_type_pattern matches Some(cp) ==> {
                        &&& cp.source() == translate(t@).text
                        &&& cp.variable_names() == translate(t@).vars
                        &&& cp.reference_flags() == translate(t@).refs
                    }
                },
                None => r.compiled_type_pattern is None,
            },
    {
        let compiled_pattern = lazy_compile(pattern.as_str());
        let compiled_type_pattern = match &type_pattern {
            Some(t) => lazy_compile(t.as_str()),
            None => None,
        };
        NodePattern {
            identifier,
            pattern,
            type_pattern,
            subpatterns,
            callback,
            essential,
            compiled_pattern,
            compiled_type_pattern,
        }
    }

    /// Whether the pattern targets nodes of the kind of `node`.
    pub fn matches<T: IntoMsdNode>(&self, node: &T) -> (r: bool)
        ensures
            r == (self.identifier == node.kind()),
    {
        self.identifier == node.into_msd_node()
    }

    /// Whether the pattern can never match.
    pub fn is_unmatchable(&self) -> (r: bool)
        ensures
            r == self.unmatchable(),
    {
        self.compiled_pattern.is_none() || (self.type_pattern.is_some() && self.compiled_type_pattern.is_none())
    }
}

/// Nodes that a pattern can target.
pub trait IntoMsdNode {
    spec fn kind(&self) -> NodeType;

    fn into_msd_node(&self) -> (r: NodeType)
        ensures
            r == self.kind(),
    ;
}

impl IntoMsdNode for ClassOrInterfaceComponent {
    open spec fn kind(&self) -> NodeType { NodeType::ClassOrInterface }
    fn into_msd_node(&self) -> (r: NodeType) { NodeType::ClassOrInterface }
}

impl IntoMsdNode for MethodComponent {
    open spec fn kind(&self) -> NodeType { NodeType::Method }
    fn into_msd_node(&self) -> (r: NodeType) { NodeType::Method }
}

impl IntoMsdNode for MethodParamComponent {
    open spec fn kind(&self) -> NodeType { NodeType::MethodParam }
    fn into_msd_node(&self) -> (r: NodeType) { NodeType::MethodParam }
}

impl IntoMsdNode for FieldComponent {
    open spec fn kind(&self) -> NodeType { NodeType::Field }
    fn into_msd_node(&self) -> (r: NodeType) { NodeType::Field }
}

impl IntoMsdNode for AnnotationComponent {
    open spec fn kind(&self) -> NodeType { NodeType::Annotation }
    fn into_msd_node(&self) -> (r: NodeType) { NodeType::Annotation }
}

impl IntoMsdNode for AnnotationValuePair {
    open spec fn kind(&self) -> NodeType { NodeType::AnnotationValuePair }
    fn into_msd_node(&self) -> (r: NodeType) { NodeType::AnnotationValuePair }
}

impl IntoMsdNode for CallExpr {
    open spec fn kind(&self) -> NodeType { NodeType::CallExpr }
    fn into_msd_node(&self) -> (r: NodeType) { NodeType::CallExpr }
}

impl IntoMsdNode for VarDecl {
    open spec fn kind(&self) -> NodeType { NodeType::VarDecl }
    fn into_msd_node(&self) -> (r: NodeType) { NodeType::VarDecl }
}

impl IntoMsdNode for DeclStmt {
    open spec fn kind(&self) -> NodeType { NodeType::DeclStmt }
    fn into_msd_node(&self) -> (r: NodeType) { NodeType::DeclStmt }
}

impl IntoMsdNode for Ident {
    open spec fn kind(&self) -> NodeType { NodeType::Ident }
    fn into_msd_node(&self) -> (r: NodeType) { NodeType::Ident }
}

impl IntoMsdNode for Literal {
    open spec fn kind(&self) -> NodeType { NodeType::Literal }
    fn into_msd_node(&self) -> (r: NodeType) { NodeType::Literal }
}

/// Binds what `pattern` captures in `text`; with no pattern there is nothing
/// to bind. A binding that fails, or finds no match, fails only an
/// essential pattern; a broken tag stops the run.
pub fn write_to_context(
    text: &str,
    essential: bool,
    pattern: &Option<CompiledPattern>,
    ctx: &mut ParserContext,
) -> (r: Result<bool, ContextError>)
    ensures
        final(ctx).objects() == old(ctx).objects(),
        final(ctx).depth() == old(ctx).depth(),
        old(ctx).locals().dom().subset_of(final(ctx).locals().dom()),
        old(ctx).objects() == ObjectsView::empty() ==> !(r is Err),
        match pattern {
            None => r == Ok::<bool, ContextError>(true) && final(ctx).locals() == old(ctx).locals(),
            Some(cp) => match match_verdict(
                old(ctx).objects(),
                regex_named_groups(cp.source(), text@, cp.variable_names()),
                cp.reference_flags(),
            ) {
                RefVerdict::Pass => r == Ok::<bool, ContextError>(true),
                RefVerdict::Miss => r == Ok::<bool, ContextError>(!essential) && final(ctx).locals() == old(ctx).locals(),
                RefVerdict::Abort(_, _) => r is Err,
            },
        },
{
    proof {
        if let Some(cp) = pattern {
            crate::pattern::lemma_no_abort_without_objects(
                regex_named_groups(cp.source(), text@, cp.variable_names()),
                cp.reference_flags(),
            );
        }
    }
    match pattern {
        Some(cp) => match cp.match_and_insert(text, ctx) {
            Ok(true) => Ok(true),
            Ok(false) => Ok(!essential),
            Err(e) => Err(e),
        },
        None => Ok(true),
    }
}

/// Checks `text` against `pattern`; no compiled pattern accepts everything.
pub fn verify_match(text: &str, pattern: &Option<CompiledPattern>, ctx: &ParserContext) -> (r: Result<bool, ContextError>)
    ensures
        match pattern {
            None => r == Ok::<bool, ContextError>(true),
            Some(cp) => reports(
                match_verdict(ctx.objects(), regex_named_groups(cp.source(), text@, cp.variable_names()), cp.reference_flags()),
                r,
            ),
        },
        r == Ok::<bool, ContextError>(true) ==> accepts(*pattern, text@, ctx.objects()),
        ctx.objects() == ObjectsView::empty() ==> !(r is Err),
{
    proof {
        if let Some(cp) = pattern {
            crate::pattern::lemma_no_abort_without_objects(
                regex_named_groups(cp.source(), text@, cp.variable_names()),
                cp.reference_flags(),
            );
        }
    }
    match pattern {
        Some(cp) => cp.matches(text, ctx),
        None => Ok(true),
    }
}

/// What every search keeps: the depth, and without callbacks the objects.
pub open spec fn keeps(p: NodePattern, before: ParserContext, after: ParserContext) -> bool {
    &&& after.depth() == before.depth()
    &&& no_callbacks(p) ==> after.objects() == before.objects()
    &&& no_callbacks(p) && before.depth() > 0 ==> before.locals().dom().subset_of(after.locals().dom())
}

/// What matching the subpatterns of `p` keeps: the depth, and when they
/// have no callback, the objects and the local variables bound so far.
pub open spec fn keeps_sub(p: NodePattern, before: ParserContext, after: ParserContext) -> bool {
    &&& after.depth() == before.depth()
    &&& children_free(p) ==> after.objects() == before.objects()
    &&& children_free(p) && before.depth() > 0 ==> before.locals().dom().subset_of(after.locals().dom())
}

/// `p` targets `kind`, can match, and its text pattern accepts `text`.
pub open spec fn admits(p: NodePattern, kind: NodeType, text: Seq<char>, objs: ObjectsView) -> bool {
    &&& p.identifier == kind
    &&& !p.unmatchable()
    &&& accepts(p.compiled_pattern, text, objs)
}

proof fn lemma_sub_no_callbacks(p: NodePattern, i: int)
    requires
        children_free(p),
        0 <= i < p.subpatterns.len(),
    ensures
        no_callbacks(p.subpatterns[i]),
{
    lemma_free_prefix(p, p.subpatterns.len() as int, i);
}

proof fn lemma_free_prefix(p: NodePattern, n: int, i: int)
    requires
        subpatterns_free(p, n),
        0 <= i < n,
        n <= p.subpatterns.len(),
    ensures
        no_callbacks(p.subpatterns[i]),
    decreases n,
{
    if i < n - 1 {
        lemma_free_prefix(p, n - 1, i);
    }
}

/// Ends one application: runs the callback of a pattern that matched, on a
/// copy of the context, then leaves the frame, clearing the local variables
/// when back at depth zero. A callback that succeeds hands over its objects
/// and local variables; one that fails makes the match fail and changes
/// nothing.
fn finish<E: CallbackExecutor>(
    p: &NodePattern,
    passed: Result<bool, ContextError>,
    ctx: &mut ParserContext,
    exec: &E,
) -> (r: Result<bool, ContextError>)
    requires
        old(ctx).depth() > 0,
    ensures
        final(ctx).depth() == old(ctx).depth() - 1,
        final(ctx).depth() == 0 ==> final(ctx).locals() == LocalsView::empty(),
        p.callback is None || passed != Ok::<bool, ContextError>(true) ==> {
            &&& r == passed
            &&& final(ctx).objects() == old(ctx).objects()
            &&& final(ctx).depth() > 0 ==> final(ctx).locals() == old(ctx).locals()
        },
        p.callback is Some && passed == Ok::<bool, ContextError>(true) ==> {
            &&& r is Ok
            &&& (r == Ok::<bool, ContextError>(true)) == exec.accepts(*p, old(ctx).objects(), old(ctx).locals())
            &&& r == Ok::<bool, ContextError>(true) ==> final(ctx).objects() == exec.result_objects(
                *p,
                old(ctx).objects(),
                old(ctx).locals(),
            ) && (final(ctx).depth() > 0 ==> final(ctx).locals() == exec.result_locals(
                *p,
                old(ctx).objects(),
                old(ctx).locals(),
            ))
            &&& r == Ok::<bool, ContextError>(false) ==> final(ctx).objects() == old(ctx).objects() && (
            final(ctx).depth() > 0 ==> final(ctx).locals() == old(ctx).locals())
        },
{
    let outcome = match passed {
        Ok(true) => match &p.callback {
            Some(_) => {
                let snapshot = ctx.snapshot();
                match exec.execute(p, snapshot) {
                    Ok(next) => {
                        ctx.adopt(next);
                        Ok(true)
                    },
                    Err(_) => Ok(false),
                }
            },
            None => Ok(true),
        },
        other => other,
    };
    ctx.leave_frame();
    outcome
}

/// Applies `p` to an identifier: its name is checked and bound.
pub fn apply_ident<E: CallbackExecutor>(node: &Ident, p: &NodePattern, ctx: &mut ParserContext, exec: &E) -> (r: Result<bool, ContextError>)
    ensures
        r == Ok::<bool, ContextError>(true) ==> admits(*p, NodeType::Ident, node.name@, old(ctx).objects()),
        applied(*p, enters(*p, NodeType::Ident, old(ctx).depth()), ident_o(*node, *p, old(ctx).objects(), old(ctx).depth()), *old(ctx), *final(ctx), r, *exec),
{
    if p.identifier != NodeType::Ident || p.is_unmatchable() || ctx.frame_depth() >= MAX_DEPTH {
        return Ok(false);
    }
    ctx.enter_frame();
    let passed = match verify_match(node.name.as_str(), &p.compiled_pattern, ctx) {
        Ok(true) => write_to_context(node.name.as_str(), p.essential, &p.compiled_pattern, ctx),
        other => other,
    };
    let ghost at_finish = *ctx;
    let r = finish(p, passed, ctx, exec);
    proof {
        if children_free(*p) && p.callback is Some && passed == Ok::<bool, ContextError>(true) {
            assert(callback_ran(*p, *old(ctx), *ctx, r, *exec, at_finish.locals()));
        }
    }
    r
}

/// Applies `p` to a literal: its value is checked and bound.
pub fn apply_literal<E: CallbackExecutor>(node: &Literal, p: &NodePattern, ctx: &mut ParserContext, exec: &E) -> (r: Result<bool, ContextError>)
    ensures
        r == Ok::<bool, ContextError>(true) ==> admits(*p, NodeType::Literal, node.value@, old(ctx).objects()),
        applied(*p, enters(*p, NodeType::Literal, old(ctx).depth()), literal_o(*node, *p, old(ctx).objects(), old(ctx).depth()), *old(ctx), *final(ctx), r, *exec),
{
    if p.identifier != NodeType::Literal || p.is_unmatchable() || ctx.frame_depth() >= MAX_DEPTH {
        return Ok(false);
    }
    ctx.enter_frame();
    let passed = match verify_match(node.value.as_str(), &p.compiled_pattern, ctx) {
        Ok(true) => write_to_context(node.value.as_str(), p.essential, &p.compiled_pattern, ctx),
        other => other,
    };
    let ghost at_finish = *ctx;
    let r = finish(p, passed, ctx, exec);
    proof {
        if children_free(*p) && p.callback is Some && passed == Ok::<bool, ContextError>(true) {
            assert(callback_ran(*p, *old(ctx), *ctx, r, *exec, at_finish.locals()));
        }
    }
    r
}

/// Applies `p` to a key/value pair of an annotation: the key is checked
/// against the pattern, the value against the type pattern; both are bound.
pub fn apply_value_pair<E: CallbackExecutor>(
    node: &AnnotationValuePair,
    p: &NodePattern,
    ctx: &mut ParserContext,
    exec: &E,
) -> (r: Result<bool, ContextError>)
    ensures
        r == Ok::<bool, ContextError>(true) ==> admits(*p, NodeType::AnnotationValuePair, node.key@, old(ctx).objects())
            && accepts(p.compiled_type_pattern, node.value@, old(ctx).objects()),
        applied(*p, enters(*p, NodeType::AnnotationValuePair, old(ctx).depth()), value_pair_o(*node, *p, old(ctx).objects(), old(ctx).depth()), *old(ctx), *final(ctx), r, *exec),
{
    if p.identifier != NodeType::AnnotationValuePair || p.is_unmatchable() || ctx.frame_depth() >= MAX_DEPTH {
        return Ok(false);
    }
    ctx.enter_frame();
    let passed = match verify_match(node.key.as_str(), &p.compiled_pattern, ctx) {
        Ok(true) => match verify_match(node.value.as_str(), &p.compiled_type_pattern, ctx) {
            Ok(true) => match write_to_context(node.key.as_str(), p.essential, &p.compiled_pattern, ctx) {
                Ok(true) => write_to_context(node.value.as_str(), p.essential, &p.compiled_type_pattern, ctx),
                other => other,
            },
            other => other,
        },
        other => other,
    };
    let ghost at_finish = *ctx;
    let r = finish(p, passed, ctx, exec);
    proof {
        if children_free(*p) && p.callback is Some && passed == Ok::<bool, ContextError>(true) {
            assert(callback_ran(*p, *old(ctx), *ctx, r, *exec, at_finish.locals()));
        }
    }
    r
}

/// Some pair of `list` satisfies `sp`.
fn any_value_pair<E: CallbackExecutor>(
    list: &Vec<AnnotationValuePair>,
    sp: &NodePattern,
    ctx: &mut ParserContext,
    exec: &E,
) -> (r: Result<bool, ContextError>)
    ensures
        keeps(*sp, *old(ctx), *final(ctx)),
        no_callbacks(*sp) && old(ctx).objects() == ObjectsView::empty() ==> !(r is Err),
        no_callbacks(*sp) ==> outcome_of(r) == any_value_pair_o(list@, *sp, old(ctx).objects(), old(ctx).depth(), 0),
{
    let mut i: usize = 0;
    while i < list.len()
        invariant
            i <= list.len(),
            keeps(*sp, *old(ctx), *ctx),
            no_callbacks(*sp) ==> any_value_pair_o(list@, *sp, old(ctx).objects(), old(ctx).depth(), 0)
                == any_value_pair_o(list@, *sp, old(ctx).objects(), old(ctx).depth(), i as int),
        decreases list.len() - i,
    {
        match apply_value_pair(&list[i], sp, ctx, exec) {
            Ok(true) => {
                return Ok(true);
            },
            Ok(false) => {},
            Err(e) => {
                return Err(e);
            },
        }
        i += 1;
    }
    Ok(false)
}

/// Applies `p` to an annotation: the name is checked against the pattern,
/// the value against the type pattern, the subpatterns among the key/value
/// pairs; name and value are bound.
pub fn apply_annotation<E: CallbackExecutor>(
    node: &AnnotationComponent,
    p: &NodePattern,
    ctx: &mut ParserContext,
    exec: &E,
) -> (r: Result<bool, ContextError>)
    ensures
        r == Ok::<bool, ContextError>(true) ==> admits(*p, NodeType::Annotation, node.name@, old(ctx).objects())
            && accepts(p.compiled_type_pattern, node.value@, old(ctx).objects()),
        applied(*p, enters(*p, NodeType::Annotation, old(ctx).depth()), annotation_o(*node, *p, old(ctx).objects(), old(ctx).depth()), *old(ctx), *final(ctx), r, *exec),
{
    if p.identifier != NodeType::Annotation || p.is_unmatchable() || ctx.frame_depth() >= MAX_DEPTH {
        return Ok(false);
    }
    ctx.enter_frame();
    let passed = match verify_match(node.name.as_str(), &p.compiled_pattern, ctx) {
        Ok(true) => match verify_match(node.value.as_str(), &p.compiled_type_pattern, ctx) {
            Ok(true) => {
                let ghost mid = *ctx;
                let mut ok: Result<bool, ContextError> = Ok(true);
                let mut going = true;
                let mut i: usize = 0;
                while going && i < p.subpatterns.len()
                    invariant
                        i <= p.subpatterns.len(),
                        ctx.depth() == mid.depth(),
                        mid.depth() > 0,
                        children_free(*p) ==> ctx.objects() == mid.objects() && mid.locals().dom().subset_of(
                            ctx.locals().dom(),
                        ),
                        children_free(*p) && mid.objects() == ObjectsView::empty() ==> !(ok is Err),
                        going ==> ok == Ok::<bool, ContextError>(true),
                        children_free(*p) ==> annotation_subs(*node, *p, mid.objects(), mid.depth(), 0) == if going {
                            annotation_subs(*node, *p, mid.objects(), mid.depth(), i as int)
                        } else {
                            outcome_of(ok)
                        },
                    decreases p.subpatterns.len() - i,
                {
                    let sp = &p.subpatterns[i];
                    proof {
                        if children_free(*p) {
                            lemma_sub_no_callbacks(*p, i as int);
                        }
                    }
                    match any_value_pair(&node.key_value_pairs, sp, ctx, exec) {
                        Ok(found) => {
                            if !found && sp.essential {
                                ok = Ok(false);
                                going = false;
                            }
                        },
                        Err(e) => {
                            ok = Err(e);
                            going = false;
                        },
                    }
                    i += 1;
                }
                match ok {
                    Ok(true) => match write_to_context(node.name.as_str(), p.essential, &p.compiled_pattern, ctx) {
                        Ok(true) => write_to_context(node.value.as_str(), p.essential, &p.compiled_type_pattern, ctx),
                        other => other,
                    },
                    other => other,
                }
            },
            other => other,
        },
        other => other,
    };
    let ghost at_finish = *ctx;
    let r = finish(p, passed, ctx, exec);
    proof {
        if children_free(*p) && p.callback is Some && passed == Ok::<bool, ContextError>(true) {
            assert(callback_ran(*p, *old(ctx), *ctx, r, *exec, at_finish.locals()));
        }
    }
    r
}

/// Some annotation of `list` satisfies `sp`.
fn any_annotation<E: CallbackExecutor>(
    list: &Vec<AnnotationComponent>,
    sp: &NodePattern,
    ctx: &mut ParserContext,
    exec: &E,
) -> (r: Result<bool, ContextError>)
    ensures
        keeps(*sp, *old(ctx), *final(ctx)),
        no_callbacks(*sp) && old(ctx).objects() == ObjectsView::empty() ==> !(r is Err),
        no_callbacks(*sp) ==> outcome_of(r) == any_annotation_o(list@, *sp, old(ctx).objects(), old(ctx).depth(), 0),
{
    let mut i: usize = 0;
    while i < list.len()
        invariant
            i <= list.len(),
            keeps(*sp, *old(ctx), *ctx),
            no_callbacks(*sp) ==> any_annotation_o(list@, *sp, old(ctx).objects(), old(ctx).depth(), 0)
                == any_annotation_o(list@, *sp, old(ctx).objects(), old(ctx).depth(), i as int),
        decreases list.len() - i,
    {
        match apply_annotation(&list[i], sp, ctx, exec) {
            Ok(true) => {
                return Ok(true);
            },
            Ok(false) => {},
            Err(e) => {
                return Err(e);
            },
        }
        i += 1;
    }
    Ok(false)
}

/// Some annotation of an optional list satisfies `sp`.
fn any_annotation_in<E: CallbackExecutor>(
    list: &Option<Vec<AnnotationComponent>>,
    sp: &NodePattern,
    ctx: &mut ParserContext,
    exec: &E,
) -> (r: Result<bool, ContextError>)
    ensures
        keeps(*sp, *old(ctx), *final(ctx)),
        no_callbacks(*sp) && old(ctx).objects() == ObjectsView::empty() ==> !(r is Err),
        no_callbacks(*sp) ==> outcome_of(r) == any_annotation_in_o(*list, *sp, old(ctx).objects(), old(ctx).depth()),
{
    match list {
        Some(l) => any_annotation(l, sp, ctx, exec),
        None => Ok(false),
    }
}

/// Some variable name of a field, taken as an identifier, satisfies `sp`.
fn any_variable<E: CallbackExecutor>(
    list: &Vec<String>,
    sp: &NodePattern,
    ctx: &mut ParserContext,
    exec: &E,
) -> (r: Result<bool, ContextError>)
    ensures
        keeps(*sp, *old(ctx), *final(ctx)),
        no_callbacks(*sp) && old(ctx).objects() == ObjectsView::empty() ==> !(r is Err),
        no_callbacks(*sp) ==> outcome_of(r) == any_variable_o(list@, *sp, old(ctx).objects(), old(ctx).depth(), 0),
{
    let mut i: usize = 0;
    while i < list.len()
        invariant
            i <= list.len(),
            keeps(*sp, *old(ctx), *ctx),
            no_callbacks(*sp) ==> any_variable_o(list@, *sp, old(ctx).objects(), old(ctx).depth(), 0)
                == any_variable_o(list@, *sp, old(ctx).objects(), old(ctx).depth(), i as int),
        decreases list.len() - i,
    {
        let ident = Ident { name: list[i].clone() };
        match apply_ident(&ident, sp, ctx, exec) {
            Ok(true) => {
                return Ok(true);
            },
            Ok(false) => {},
            Err(e) => {
                return Err(e);
            },
        }
        i += 1;
    }
    Ok(false)
}

/// Applies `p` to a method parameter: the name is checked against the
/// pattern, the type against the type pattern, the subpatterns among its
/// annotations; name and type are bound.
pub fn apply_param<E: CallbackExecutor>(
    node: &MethodParamComponent,
    p: &NodePattern,
    ctx: &mut ParserContext,
    exec: &E,
) -> (r: Result<bool, ContextError>)
    ensures
        r == Ok::<bool, ContextError>(true) ==> admits(*p, NodeType::MethodParam, node.parameter_name@, old(ctx).objects())
            && accepts(p.compiled_type_pattern, node.parameter_type@, old(ctx).objects()),
        applied(*p, enters(*p, NodeType::MethodParam, old(ctx).depth()), param_o(*node, *p, old(ctx).objects(), old(ctx).depth()), *old(ctx), *final(ctx), r, *exec),
{
    if p.identifier != NodeType::MethodParam || p.is_unmatchable() || ctx.frame_depth() >= MAX_DEPTH {
        return Ok(false);
    }
    ctx.enter_frame();
    let passed = match verify_match(node.parameter_name.as_str(), &p.compiled_pattern, ctx) {
        Ok(true) => match verify_match(node.parameter_type.as_str(), &p.compiled_type_pattern, ctx) {
            Ok(true) => {
                let ghost mid = *ctx;
                let mut ok: Result<bool, ContextError> = Ok(true);
                let mut going = true;
                let mut i: usize = 0;
                while going && i < p.subpatterns.len()
                    invariant
                        i <= p.subpatterns.len(),
                        ctx.depth() == mid.depth(),
                        mid.depth() > 0,
                        children_free(*p) ==> ctx.objects() == mid.objects() && mid.locals().dom().subset_of(
                            ctx.locals().dom(),
                        ),
                        children_free(*p) && mid.objects() == ObjectsView::empty() ==> !(ok is Err),
                        going ==> ok == Ok::<bool, ContextError>(true),
                        children_free(*p) ==> param_subs(*node, *p, mid.objects(), mid.depth(), 0) == if going {
                            param_subs(*node, *p, mid.objects(), mid.depth(), i as int)
                        } else {
                            outcome_of(ok)
                        },
                    decreases p.subpatterns.len() - i,
                {
                    let sp = &p.subpatterns[i];
                    proof {
                        if children_free(*p) {
                            lemma_sub_no_callbacks(*p, i as int);
                        }
                    }
                    match any_annotation_in(&node.annotation, sp, ctx, exec) {
                        Ok(found) => {
                            if !found && sp.essential {
                                ok = Ok(false);
                                going = false;
                            }
                        },
                        Err(e) => {
                            ok = Err(e);
                            going = false;
                        },
                    }
                    i += 1;
                }
                match ok {
                    Ok(true) => match write_to_context(node.parameter_name.as_str(), p.essential, &p.compiled_pattern, ctx) {
                        Ok(true) => write_to_context(node.parameter_type.as_str(), p.essential, &p.compiled_type_pattern, ctx),
                        other => other,
                    },
                    other => other,
                }
            },
            other => other,
        },
        other => other,
    };
    let ghost at_finish = *ctx;
    let r = finish(p, passed, ctx, exec);
    proof {
        if children_free(*p) && p.callback is Some && passed == Ok::<bool, ContextError>(true) {
            assert(callback_ran(*p, *old(ctx), *ctx, r, *exec, at_finish.locals()));
        }
    }
    r
}

/// Applies `p` to a field: the name is checked against the pattern, the
/// type against the type pattern, the subpatterns among its annotations and
/// its variable names; name and type are bound.
pub fn apply_field<E: CallbackExecutor>(
    node: &FieldComponent,
    p: &NodePattern,
    ctx: &mut ParserContext,
    exec: &E,
) -> (r: Result<bool, ContextError>)
    ensures
        r == Ok::<bool, ContextError>(true) ==> admits(*p, NodeType::Field, node.field_name@, old(ctx).objects())
            && accepts(p.compiled_type_pattern, node.field_type@, old(ctx).objects()),
        applied(*p, enters(*p, NodeType::Field, old(ctx).depth()), field_o(*node, *p, old(ctx).objects(), old(ctx).depth()), *old(ctx), *final(ctx), r, *exec),
{
    if p.identifier != NodeType::Field || p.is_unmatchable() || ctx.frame_depth() >= MAX_DEPTH {
        return Ok(false);
    }
    ctx.enter_frame();
    let passed = match verify_match(node.field_name.as_str(), &p.compiled_pattern, ctx) {
        Ok(true) => match verify_match(node.field_type.as_str(), &p.compiled_type_pattern, ctx) {
            Ok(true) => {
                let ghost mid = *ctx;
                let mut ok: Result<bool, ContextError> = Ok(true);
                let mut going = true;
                let mut i: usize = 0;
                while going && i < p.subpatterns.len()
                    invariant
                        i <= p.subpatterns.len(),
                        ctx.depth() == mid.depth(),
                        mid.depth() > 0,
                        children_free(*p) ==> ctx.objects() == mid.objects() && mid.locals().dom().subset_of(
                            ctx.locals().dom(),
                        ),
                        children_free(*p) && mid.objects() == ObjectsView::empty() ==> !(ok is Err),
                        going ==> ok == Ok::<bool, ContextError>(true),
                        children_free(*p) ==> field_subs(*node, *p, mid.objects(), mid.depth(), 0) == if going {
                            field_subs(*node, *p, mid.objects(), mid.depth(), i as int)
                        } else {
                            outcome_of(ok)
                        },
                    decreases p.subpatterns.len() - i,
                {
                    let sp = &p.subpatterns[i];
                    proof {
                        if children_free(*p) {
                            lemma_sub_no_callbacks(*p, i as int);
                        }
                    }
                    match field_children(node, sp, ctx, exec) {
                        Ok(found) => {
                            if !found && sp.essential {
                                ok = Ok(false);
                                going = false;
                            }
                        },
                        Err(e) => {
                            ok = Err(e);
                            going = false;
                        },
                    }
                    i += 1;
                }
                match ok {
                    Ok(true) => match write_to_context(node.field_name.as_str(), p.essential, &p.compiled_pattern, ctx) {
                        Ok(true) => write_to_context(node.field_type.as_str(), p.essential, &p.compiled_type_pattern, ctx),
                        other => other,
                    },
                    other => other,
                }
            },
            other => other,
        },
        other => other,
    };
    let ghost at_finish = *ctx;
    let r = finish(p, passed, ctx, exec);
    proof {
        if children_free(*p) && p.callback is Some && passed == Ok::<bool, ContextError>(true) {
            assert(callback_ran(*p, *old(ctx), *ctx, r, *exec, at_finish.locals()));
        }
    }
    r
}

/// Some annotation or variable of a field satisfies `sp`.
fn field_children<E: CallbackExecutor>(
    node: &FieldComponent,
    sp: &NodePattern,
    ctx: &mut ParserContext,
    exec: &E,
) -> (r: Result<bool, ContextError>)
    ensures
        keeps(*sp, *old(ctx), *final(ctx)),
        no_callbacks(*sp) && old(ctx).objects() == ObjectsView::empty() ==> !(r is Err),
        no_callbacks(*sp) ==> outcome_of(r) == field_children_o(*node, *sp, old(ctx).objects(), old(ctx).depth()),
{
    match any_annotation(&node.annotations, sp, ctx, exec) {
        Ok(false) => any_variable(&node.variables, sp, ctx, exec),
        other => other,
    }
}

/// Some field of an optional list satisfies `sp`.
fn any_field<E: CallbackExecutor>(
    list: &Option<Vec<FieldComponent>>,
    sp: &NodePattern,
    ctx: &mut ParserContext,
    exec: &E,
) -> (r: Result<bool, ContextError>)
    ensures
        keeps(*sp, *old(ctx), *final(ctx)),
        no_callbacks(*sp) && old(ctx).objects() == ObjectsView::empty() ==> !(r is Err),
        no_callbacks(*sp) ==> outcome_of(r) == any_field_in_o(*list, *sp, old(ctx).objects(), old(ctx).depth()),
{
    let fields = match list {
        Some(l) => l,
        None => {
            return Ok(false);
        },
    };
    let mut i: usize = 0;
    while i < fields.len()
        invariant
            i <= fields.len(),
            keeps(*sp, *old(ctx), *ctx),
            *list == Some(*fields),
            no_callbacks(*sp) ==> any_field_o(fields@, *sp, old(ctx).objects(), old(ctx).depth(), 0)
                == any_field_o(fields@, *sp, old(ctx).objects(), old(ctx).depth(), i as int),
        decreases fields.len() - i,
    {
        match apply_field(&fields[i], sp, ctx, exec) {
            Ok(true) => {
                return Ok(true);
            },
            Ok(false) => {},
            Err(e) => {
                return Err(e);
            },
        }
        i += 1;
    }
    Ok(false)
}

/// The type of a variable, checked against a type pattern; a variable
/// without a type passes.
fn verify_var_type(var_type: &Option<String>, pattern: &Option<CompiledPattern>, ctx: &ParserContext) -> (r: Result<bool, ContextError>)
    ensures
        outcome_of(r) == var_type_check(*var_type, *pattern, ctx.objects()),
        ctx.objects() == ObjectsView::empty() ==> !(r is Err),
        r == Ok::<bool, ContextError>(true) ==> (var_type matches Some(t) ==> accepts(*pattern, t@, ctx.objects())),
{
    match var_type {
        Some(t) => verify_match(t.as_str(), pattern, ctx),
        None => Ok(true),
    }
}

/// Binds the type of a variable, where it has one.
fn write_var_type(var_type: &Option<String>, essential: bool, pattern: &Option<CompiledPattern>, ctx: &mut ParserContext) -> (r: Result<bool, ContextError>)
    ensures
        outcome_of(r) == var_type_bind(*var_type, *pattern, essential, old(ctx).objects()),
        old(ctx).locals().dom().subset_of(final(ctx).locals().dom()),
        old(ctx).objects() == ObjectsView::empty() ==> !(r is Err),
        final(ctx).objects() == old(ctx).objects(),
        final(ctx).depth() == old(ctx).depth(),
{
    match var_type {
        Some(t) => write_to_context(t.as_str(), essential, pattern, ctx),
        None => Ok(true),
    }
}

/// Applies `p` to a variable declaration: the name is checked against the
/// pattern, the type, where there is one, against the type pattern, the
/// subpatterns among its annotations; name and type are bound.
pub fn apply_var_decl<E: CallbackExecutor>(
    node: &VarDecl,
    p: &NodePattern,
    ctx: &mut ParserContext,
    exec: &E,
) -> (r: Result<bool, ContextError>)
    ensures
        r == Ok::<bool, ContextError>(true) ==> admits(*p, NodeType::VarDecl, node.ident.name@, old(ctx).objects()),
        applied(*p, enters(*p, NodeType::VarDecl, old(ctx).depth()), var_decl_o(*node, *p, old(ctx).objects(), old(ctx).depth()), *old(ctx), *final(ctx), r, *exec),
{
    if p.identifier != NodeType::VarDecl || p.is_unmatchable() || ctx.frame_depth() >= MAX_DEPTH {
        return Ok(false);
    }
    ctx.enter_frame();
    let passed = match verify_match(node.ident.name.as_str(), &p.compiled_pattern, ctx) {
        Ok(true) => match verify_var_type(&node.var_type, &p.compiled_type_pattern, ctx) {
            Ok(true) => {
                let ghost mid = *ctx;
                let mut ok: Result<bool, ContextError> = Ok(true);
                let mut going = true;
                let mut i: usize = 0;
                while going && i < p.subpatterns.len()
                    invariant
                        i <= p.subpatterns.len(),
                        ctx.depth() == mid.depth(),
                        mid.depth() > 0,
                        children_free(*p) ==> ctx.objects() == mid.objects() && mid.locals().dom().subset_of(
                            ctx.locals().dom(),
                        ),
                        children_free(*p) && mid.objects() == ObjectsView::empty() ==> !(ok is Err),
                        going ==> ok == Ok::<bool, ContextError>(true),
                        children_free(*p) ==> var_decl_subs(*node, *p, mid.objects(), mid.depth(), 0) == if going {
                            var_decl_subs(*node, *p, mid.objects(), mid.depth(), i as int)
                        } else {
                            outcome_of(ok)
                        },
                    decreases p.subpatterns.len() - i,
                {
                    let sp = &p.subpatterns[i];
                    proof {
                        if children_free(*p) {
                            lemma_sub_no_callbacks(*p, i as int);
                        }
                    }
                    match any_annotation(&node.annotation, sp, ctx, exec) {
                        Ok(found) => {
                            if !found && sp.essential {
                                ok = Ok(false);
                                going = false;
                            }
                        },
                        Err(e) => {
                            ok = Err(e);
                            going = false;
                        },
                    }
                    i += 1;
                }
                match ok {
                    Ok(true) => match write_to_context(node.ident.name.as_str(), p.essential, &p.compiled_pattern, ctx) {
                        Ok(true) => write_var_type(&node.var_type, p.essential, &p.compiled_type_pattern, ctx),
                        other => other,
                    },
                    other => other,
                }
            },
            other => other,
        },
        other => other,
    };
    let ghost at_finish = *ctx;
    let r = finish(p, passed, ctx, exec);
    proof {
        if children_free(*p) && p.callback is Some && passed == Ok::<bool, ContextError>(true) {
            assert(callback_ran(*p, *old(ctx), *ctx, r, *exec, at_finish.locals()));
        }
    }
    r
}

/// Number of offsets at which `n` consecutive children can be taken from `m`.
pub open spec fn window_count(m: nat, n: nat) -> nat {
    if n <= m {
        (m - n + 1) as nat
    } else {
        0
    }
}

fn call_name_exec(c: &CallExpr) -> (r: Option<&String>)
    ensures
        match call_name(*c) {
            Some(n) => r matches Some(s) && s@ == n,
            None => r is None,
        },
{
    match &*c.name {
        Expr::DotExpr(d) => match &*d.selected {
            Expr::Ident(i) => Some(&i.name),
            _ => None,
        },
        Expr::Ident(i) => Some(&i.name),
        Expr::Literal(l) => Some(&l.value),
        _ => None,
    }
}

/// Matches method parameters against subpatterns, in order.
/// The subpatterns named by `idx` are matched one to one against
/// consecutive children, at offsets from the first on; the first offset at
/// which all of them match is taken. With no subpattern it succeeds; on
/// failure every offset, the last included, was tried: the second part of
/// the result counts the offsets tried.
fn match_params<E: CallbackExecutor>(
    children: &Vec<MethodParamComponent>,
    p: &NodePattern,
    idx: &Vec<usize>,
    ctx: &mut ParserContext,
    exec: &E,
) -> (r: (Result<bool, ContextError>, Ghost<nat>))
    requires
        forall|k: int| 0 <= k < idx.len() ==> #[trigger] idx@[k] < p.subpatterns.len(),
    ensures
        keeps_sub(*p, *old(ctx), *final(ctx)),
        idx.len() == 0 ==> r.0 == Ok::<bool, ContextError>(true),
        r.0 == Ok::<bool, ContextError>(false) ==> r.1@ == window_count(children.len() as nat, idx.len() as nat),
        r.0 == Ok::<bool, ContextError>(true) && idx.len() > 0 ==> 1 <= r.1@ <= window_count(children.len() as nat, idx.len() as nat),
        children_free(*p) ==> outcome_of(r.0) == param_windows(children@, *p, idx@, old(ctx).objects(), old(ctx).depth(), 0),
        children_free(*p) && old(ctx).objects() == ObjectsView::empty() ==> !(r.0 is Err),
    decreases children,
{
    let n = idx.len();
    let m = children.len();
    if n == 0 {
        return (Ok(true), Ghost(0));
    }
    if n > m {
        return (Ok(false), Ghost(0));
    }
    let mut start: usize = 0;
    while start <= m - n
        invariant
            n == idx.len(),
            m == children.len(),
            0 < n <= m,
            start <= m - n + 1,
            keeps_sub(*p, *old(ctx), *ctx),
            forall|k: int| 0 <= k < idx.len() ==> #[trigger] idx@[k] < p.subpatterns.len(),
            children_free(*p) ==> param_windows(children@, *p, idx@, old(ctx).objects(), old(ctx).depth(), 0)
                == param_windows(children@, *p, idx@, old(ctx).objects(), old(ctx).depth(), start as int),
        decreases m - n + 1 - start,
    {
        let mut window_ok = true;
        let mut k: usize = 0;
        while window_ok && k < n
            invariant
                n == idx.len(),
                m == children.len(),
                0 < n <= m,
                start <= m - n,
                k <= n,
                keeps_sub(*p, *old(ctx), *ctx),
                forall|j: int| 0 <= j < idx.len() ==> #[trigger] idx@[j] < p.subpatterns.len(),
                children_free(*p) ==> param_windows(children@, *p, idx@, old(ctx).objects(), old(ctx).depth(), 0)
                    == param_windows(children@, *p, idx@, old(ctx).objects(), old(ctx).depth(), start as int),
                children_free(*p) ==> param_window(children@, *p, idx@, old(ctx).objects(), old(ctx).depth(), start as int, 0) == if window_ok {
                    param_window(children@, *p, idx@, old(ctx).objects(), old(ctx).depth(), start as int, k as int)
                } else {
                    crate::semantics::Outcome::No
                },
            decreases n - k,
        {
            let sp = &p.subpatterns[idx[k]];
            proof {
                if children_free(*p) {
                    lemma_sub_no_callbacks(*p, idx@[k as int] as int);
                }
            }
            match apply_param(&children[start + k], sp, ctx, exec) {
                Ok(true) => {},
                Ok(false) => {
                    window_ok = false;
                },
                Err(e) => {
                    return (Err(e), Ghost((start + 1) as nat));
                },
            }
            k += 1;
        }
        if window_ok {
            return (Ok(true), Ghost((start + 1) as nat));
        }
        start += 1;
    }
    (Ok(false), Ghost(start as nat))
}

/// Matches call arguments against subpatterns, in order.
/// The subpatterns named by `idx` are matched one to one against
/// consecutive children, at offsets from the first on; the first offset at
/// which all of them match is taken. With no subpattern it succeeds; on
/// failure every offset, the last included, was tried: the second part of
/// the result counts the offsets tried.
fn match_args<E: CallbackExecutor>(
    children: &Vec<Expr>,
    p: &NodePattern,
    idx: &Vec<usize>,
    ctx: &mut ParserContext,
    exec: &E,
) -> (r: (Result<bool, ContextError>, Ghost<nat>))
    requires
        forall|k: int| 0 <= k < idx.len() ==> #[trigger] idx@[k] < p.subpatterns.len(),
    ensures
        keeps_sub(*p, *old(ctx), *final(ctx)),
        idx.len() == 0 ==> r.0 == Ok::<bool, ContextError>(true),
        r.0 == Ok::<bool, ContextError>(false) ==> r.1@ == window_count(children.len() as nat, idx.len() as nat),
        r.0 == Ok::<bool, ContextError>(true) && idx.len() > 0 ==> 1 <= r.1@ <= window_count(children.len() as nat, idx.len() as nat),
        children_free(*p) ==> outcome_of(r.0) == arg_windows(*children, *p, idx@, old(ctx).objects(), old(ctx).depth(), 0),
        children_free(*p) && old(ctx).objects() == ObjectsView::empty() ==> !(r.0 is Err),
    decreases children,
{
    let n = idx.len();
    let m = children.len();
    if n == 0 {
        return (Ok(true), Ghost(0));
    }
    if n > m {
        return (Ok(false), Ghost(0));
    }
    let mut start: usize = 0;
    while start <= m - n
        invariant
            n == idx.len(),
            m == children.len(),
            0 < n <= m,
            start <= m - n + 1,
            keeps_sub(*p, *old(ctx), *ctx),
            forall|k: int| 0 <= k < idx.len() ==> #[trigger] idx@[k] < p.subpatterns.len(),
            children_free(*p) ==> arg_windows(*children, *p, idx@, old(ctx).objects(), old(ctx).depth(), 0)
                == arg_windows(*children, *p, idx@, old(ctx).objects(), old(ctx).depth(), start as int),
        decreases m - n + 1 - start,
    {
        let mut window_ok = true;
        let mut k: usize = 0;
        while window_ok && k < n
            invariant
                n == idx.len(),
                m == children.len(),
                0 < n <= m,
                start <= m - n,
                k <= n,
                keeps_sub(*p, *old(ctx), *ctx),
                forall|j: int| 0 <= j < idx.len() ==> #[trigger] idx@[j] < p.subpatterns.len(),
                children_free(*p) ==> arg_windows(*children, *p, idx@, old(ctx).objects(), old(ctx).depth(), 0)
                    == arg_windows(*children, *p, idx@, old(ctx).objects(), old(ctx).depth(), start as int),
                children_free(*p) ==> arg_window(*children, *p, idx@, old(ctx).objects(), old(ctx).depth(), start as int, 0) == if window_ok {
                    arg_window(*children, *p, idx@, old(ctx).objects(), old(ctx).depth(), start as int, k as int)
                } else {
                    crate::semantics::Outcome::No
                },
            decreases n - k,
        {
            let sp = &p.subpatterns[idx[k]];
            proof {
                if children_free(*p) {
                    lemma_sub_no_callbacks(*p, idx@[k as int] as int);
                }
            }
            match apply_expr(&children[start + k], sp, ctx, exec) {
                Ok(true) => {},
                Ok(false) => {
                    window_ok = false;
                },
                Err(e) => {
                    return (Err(e), Ghost((start + 1) as nat));
                },
            }
            k += 1;
        }
        if window_ok {
            return (Ok(true), Ghost((start + 1) as nat));
        }
        start += 1;
    }
    (Ok(false), Ghost(start as nat))
}

/// Some method of `list` satisfies `sp`.
fn any_method<E: CallbackExecutor>(
    list: &Vec<MethodComponent>,
    sp: &NodePattern,
    ctx: &mut ParserContext,
    exec: &E,
) -> (r: Result<bool, ContextError>)
    ensures
        keeps(*sp, *old(ctx), *final(ctx)),
        no_callbacks(*sp) && old(ctx).objects() == ObjectsView::empty() ==> !(r is Err),
        no_callbacks(*sp) ==> outcome_of(r) == any_method_o(*list, *sp, old(ctx).objects(), old(ctx).depth(), 0),
    decreases list,
{
    let mut i: usize = 0;
    while i < list.len()
        invariant
            i <= list.len(),
            keeps(*sp, *old(ctx), *ctx),
            no_callbacks(*sp) ==> any_method_o(*list, *sp, old(ctx).objects(), old(ctx).depth(), 0)
                == any_method_o(*list, *sp, old(ctx).objects(), old(ctx).depth(), i as int),
        decreases list.len() - i,
    {
        match apply_method(&list[i], sp, ctx, exec) {
            Ok(true) => {
                return Ok(true);
            },
            Ok(false) => {},
            Err(e) => {
                return Err(e);
            },
        }
        i += 1;
    }
    Ok(false)
}

/// Some node under a statement of `list` satisfies `sp`.
fn search_stmts<E: CallbackExecutor>(
    list: &Vec<Stmt>,
    sp: &NodePattern,
    ctx: &mut ParserContext,
    exec: &E,
) -> (r: Result<bool, ContextError>)
    ensures
        keeps(*sp, *old(ctx), *final(ctx)),
        no_callbacks(*sp) && old(ctx).objects() == ObjectsView::empty() ==> !(r is Err),
        no_callbacks(*sp) ==> outcome_of(r) == search_stmts_o(*list, *sp, old(ctx).objects(), old(ctx).depth(), 0),
    decreases list,
{
    let mut i: usize = 0;
    while i < list.len()
        invariant
            i <= list.len(),
            keeps(*sp, *old(ctx), *ctx),
            no_callbacks(*sp) ==> search_stmts_o(*list, *sp, old(ctx).objects(), old(ctx).depth(), 0)
                == search_stmts_o(*list, *sp, old(ctx).objects(), old(ctx).depth(), i as int),
        decreases list.len() - i,
    {
        match search_stmt(&list[i], sp, ctx, exec) {
            Ok(true) => {
                return Ok(true);
            },
            Ok(false) => {},
            Err(e) => {
                return Err(e);
            },
        }
        i += 1;
    }
    Ok(false)
}

/// Some node under an expression of `list` satisfies `sp`.
fn search_exprs<E: CallbackExecutor>(
    list: &Vec<Expr>,
    sp: &NodePattern,
    ctx: &mut ParserContext,
    exec: &E,
) -> (r: Result<bool, ContextError>)
    ensures
        keeps(*sp, *old(ctx), *final(ctx)),
        no_callbacks(*sp) && old(ctx).objects() == ObjectsView::empty() ==> !(r is Err),
        no_callbacks(*sp) ==> outcome_of(r) == search_exprs_o(*list, *sp, old(ctx).objects(), old(ctx).depth(), 0),
    decreases list,
{
    let mut i: usize = 0;
    while i < list.len()
        invariant
            i <= list.len(),
            keeps(*sp, *old(ctx), *ctx),
            no_callbacks(*sp) ==> search_exprs_o(*list, *sp, old(ctx).objects(), old(ctx).depth(), 0)
                == search_exprs_o(*list, *sp, old(ctx).objects(), old(ctx).depth(), i as int),
        decreases list.len() - i,
    {
        match search_expr(&list[i], sp, ctx, exec) {
            Ok(true) => {
                return Ok(true);
            },
            Ok(false) => {},
            Err(e) => {
                return Err(e);
            },
        }
        i += 1;
    }
    Ok(false)
}

/// Some variable declaration of `list` satisfies `sp`.
fn any_var_decl<E: CallbackExecutor>(
    list: &Vec<VarDecl>,
    sp: &NodePattern,
    ctx: &mut ParserContext,
    exec: &E,
) -> (r: Result<bool, ContextError>)
    ensures
        keeps(*sp, *old(ctx), *final(ctx)),
        no_callbacks(*sp) && old(ctx).objects() == ObjectsView::empty() ==> !(r is Err),
        no_callbacks(*sp) ==> outcome_of(r) == any_var_decl_o(list@, *sp, old(ctx).objects(), old(ctx).depth(), 0),
    decreases list,
{
    let mut i: usize = 0;
    while i < list.len()
        invariant
            i <= list.len(),
            keeps(*sp, *old(ctx), *ctx),
            no_callbacks(*sp) ==> any_var_decl_o(list@, *sp, old(ctx).objects(), old(ctx).depth(), 0)
                == any_var_decl_o(list@, *sp, old(ctx).objects(), old(ctx).depth(), i as int),
        decreases list.len() - i,
    {
        match apply_var_decl(&list[i], sp, ctx, exec) {
            Ok(true) => {
                return Ok(true);
            },
            Ok(false) => {},
            Err(e) => {
                return Err(e);
            },
        }
        i += 1;
    }
    Ok(false)
}

/// Applies `p` to an expression, by its kind; a member selection is matched
/// by no pattern.
pub fn apply_expr<E: CallbackExecutor>(node: &Expr, p: &NodePattern, ctx: &mut ParserContext, exec: &E) -> (r: Result<bool, ContextError>)
    ensures
        applied(*p, expr_enters(*node, *p, old(ctx).depth()), expr_o(*node, *p, old(ctx).objects(), old(ctx).depth()), *old(ctx), *final(ctx), r, *exec),
    decreases node,
{
    match node {
        Expr::Ident(x) => apply_ident(x, p, ctx, exec),
        Expr::Literal(x) => apply_literal(x, p, ctx, exec),
        Expr::CallExpr(x) => apply_call(x, p, ctx, exec),
        Expr::VarDecl(x) => apply_var_decl(x, p, ctx, exec),
        Expr::DotExpr(_) => Ok(false),
    }
}

/// Some node of the expression tree `node`, itself included, satisfies `sp`.
fn search_expr<E: CallbackExecutor>(node: &Expr, sp: &NodePattern, ctx: &mut ParserContext, exec: &E) -> (r: Result<bool, ContextError>)
    ensures
        no_callbacks(*sp) ==> outcome_of(r) == search_expr_o(*node, *sp, old(ctx).objects(), old(ctx).depth()),
        keeps(*sp, *old(ctx), *final(ctx)),
        no_callbacks(*sp) && old(ctx).objects() == ObjectsView::empty() ==> !(r is Err),
    decreases node,
{
    match node {
        Expr::Ident(x) => apply_ident(x, sp, ctx, exec),
        Expr::Literal(x) => apply_literal(x, sp, ctx, exec),
        Expr::VarDecl(x) => apply_var_decl(x, sp, ctx, exec),
        Expr::CallExpr(c) => match apply_call(c, sp, ctx, exec) {
            Ok(false) => match search_expr(&c.name, sp, ctx, exec) {
                Ok(false) => search_exprs(&c.args, sp, ctx, exec),
                other => other,
            },
            other => other,
        },
        Expr::DotExpr(d) => match search_expr(&d.expr, sp, ctx, exec) {
            Ok(false) => search_expr(&d.selected, sp, ctx, exec),
            other => other,
        },
    }
}

/// Some node under the statement `node`, itself included, satisfies `sp`.
fn search_stmt<E: CallbackExecutor>(node: &Stmt, sp: &NodePattern, ctx: &mut ParserContext, exec: &E) -> (r: Result<bool, ContextError>)
    ensures
        no_callbacks(*sp) ==> outcome_of(r) == search_stmt_o(*node, *sp, old(ctx).objects(), old(ctx).depth()),
        keeps(*sp, *old(ctx), *final(ctx)),
        no_callbacks(*sp) && old(ctx).objects() == ObjectsView::empty() ==> !(r is Err),
    decreases node,
{
    match node {
        Stmt::DeclStmt(d) => match apply_decl(d, sp, ctx, exec) {
            Ok(false) => match any_var_decl(&d.variables, sp, ctx, exec) {
                Ok(false) => search_exprs(&d.expressions, sp, ctx, exec),
                other => other,
            },
            other => other,
        },
        Stmt::ExprStmt(e) => search_expr(e, sp, ctx, exec),
    }
}

/// Applies `p` to a call: the call's name is checked against the pattern,
/// the subpatterns for expressions are matched in order against the
/// arguments, and the name is bound.
pub fn apply_call<E: CallbackExecutor>(node: &CallExpr, p: &NodePattern, ctx: &mut ParserContext, exec: &E) -> (r: Result<bool, ContextError>)
    ensures
        applied(*p, enters(*p, NodeType::CallExpr, old(ctx).depth()), call_o(*node, *p, old(ctx).objects(), old(ctx).depth()), *old(ctx), *final(ctx), r, *exec),
        r == Ok::<bool, ContextError>(true) ==> (call_name(*node) matches Some(n) && admits(*p, NodeType::CallExpr, n, old(ctx).objects())),
    decreases node,
{
    if p.identifier != NodeType::CallExpr || p.is_unmatchable() || ctx.frame_depth() >= MAX_DEPTH {
        return Ok(false);
    }
    ctx.enter_frame();
    let passed = match call_name_exec(node) {
        None => Ok(false),
        Some(name) => match verify_match(name.as_str(), &p.compiled_pattern, ctx) {
            Ok(true) => {
                let mut idx: Vec<usize> = Vec::new();
                let mut k: usize = 0;
                while k < p.subpatterns.len()
                    invariant
                        k <= p.subpatterns.len(),
                        forall|j: int| 0 <= j < idx.len() ==> #[trigger] idx@[j] < p.subpatterns.len(),
                        idx@ == ordered_subpatterns(*p, k as int, true),
                    decreases p.subpatterns.len() - k,
                {
                    match p.subpatterns[k].identifier {
                        NodeType::CallExpr | NodeType::VarDecl | NodeType::Ident | NodeType::Literal => {
                            idx.push(k);
                        },
                        _ => {},
                    }
                    k += 1;
                }
                let (found, _) = match_args(&node.args, p, &idx, ctx, exec);
                match found {
                    Ok(true) => write_to_context(name.as_str(), p.essential, &p.compiled_pattern, ctx),
                    other => other,
                }
            },
            other => other,
        },
    };
    let ghost at_finish = *ctx;
    let r = finish(p, passed, ctx, exec);
    proof {
        if children_free(*p) && p.callback is Some && passed == Ok::<bool, ContextError>(true) {
            assert(callback_ran(*p, *old(ctx), *ctx, r, *exec, at_finish.locals()));
        }
    }
    r
}

/// Some child of a declaration satisfies `sp`: a variable, for a variable
/// pattern, else a node under one of its expressions.
fn decl_children<E: CallbackExecutor>(node: &DeclStmt, sp: &NodePattern, ctx: &mut ParserContext, exec: &E) -> (r: Result<bool, ContextError>)
    ensures
        no_callbacks(*sp) ==> outcome_of(r) == decl_children_o(*node, *sp, old(ctx).objects(), old(ctx).depth()),
        keeps(*sp, *old(ctx), *final(ctx)),
        no_callbacks(*sp) && old(ctx).objects() == ObjectsView::empty() ==> !(r is Err),
    decreases node, 0nat,
{
    if sp.identifier == NodeType::VarDecl {
        any_var_decl(&node.variables, sp, ctx, exec)
    } else {
        search_exprs(&node.expressions, sp, ctx, exec)
    }
}

/// Applies `p` to a declaration statement: each subpattern is looked for
/// among its variables or under its expressions.
pub fn apply_decl<E: CallbackExecutor>(node: &DeclStmt, p: &NodePattern, ctx: &mut ParserContext, exec: &E) -> (r: Result<bool, ContextError>)
    ensures
        applied(*p, enters(*p, NodeType::DeclStmt, old(ctx).depth()), decl_o(*node, *p, old(ctx).objects(), old(ctx).depth()), *old(ctx), *final(ctx), r, *exec),
        r == Ok::<bool, ContextError>(true) ==> p.identifier == NodeType::DeclStmt && !p.unmatchable(),
    decreases node, 1nat,
{
    if p.identifier != NodeType::DeclStmt || p.is_unmatchable() || ctx.frame_depth() >= MAX_DEPTH {
        return Ok(false);
    }
    ctx.enter_frame();
    let passed = {
                let ghost mid = *ctx;
                let mut ok: Result<bool, ContextError> = Ok(true);
                let mut going = true;
                let mut i: usize = 0;
                while going && i < p.subpatterns.len()
                    invariant
                        i <= p.subpatterns.len(),
                        ctx.depth() == mid.depth(),
                        mid.depth() > 0,
                        children_free(*p) ==> ctx.objects() == mid.objects() && mid.locals().dom().subset_of(
                            ctx.locals().dom(),
                        ),
                        children_free(*p) && mid.objects() == ObjectsView::empty() ==> !(ok is Err),
                        going ==> ok == Ok::<bool, ContextError>(true),
                        children_free(*p) ==> decl_subs(*node, *p, mid.objects(), mid.depth(), 0) == if going {
                            decl_subs(*node, *p, mid.objects(), mid.depth(), i as int)
                        } else {
                            outcome_of(ok)
                        },
                    decreases p.subpatterns.len() - i,
                {
                    let sp = &p.subpatterns[i];
                    proof {
                        if children_free(*p) {
                            lemma_sub_no_callbacks(*p, i as int);
                        }
                    }
                    match decl_children(node, sp, ctx, exec) {
                        Ok(found) => {
                            if !found && sp.essential {
                                ok = Ok(false);
                                going = false;
                            }
                        },
                        Err(e) => {
                            ok = Err(e);
                            going = false;
                        },
                    }
                    i += 1;
                }
                ok
    };
    let ghost at_finish = *ctx;
    let r = finish(p, passed, ctx, exec);
    proof {
        if children_free(*p) && p.callback is Some && passed == Ok::<bool, ContextError>(true) {
            assert(callback_ran(*p, *old(ctx), *ctx, r, *exec, at_finish.locals()));
        }
    }
    r
}

/// Some child of a method satisfies `sp`: an annotation, a nested method,
/// or a node of its body. Parameter patterns are matched in order apart.
fn method_children<E: CallbackExecutor>(node: &MethodComponent, sp: &NodePattern, ctx: &mut ParserContext, exec: &E) -> (r: Result<bool, ContextError>)
    ensures
        no_callbacks(*sp) ==> outcome_of(r) == method_children_o(*node, *sp, old(ctx).objects(), old(ctx).depth()),
        keeps(*sp, *old(ctx), *final(ctx)),
        no_callbacks(*sp) && old(ctx).objects() == ObjectsView::empty() ==> !(r is Err),
    decreases node, 0nat,
{
    if sp.identifier == NodeType::MethodParam {
        return Ok(true);
    }
    match any_annotation(&node.annotations, sp, ctx, exec) {
        Ok(false) => match any_method(&node.sub_methods, sp, ctx, exec) {
            Ok(false) => match &node.body {
                Some(body) => search_stmts(body, sp, ctx, exec),
                None => Ok(false),
            },
            other => other,
        },
        other => other,
    }
}

/// Applies `p` to a method: the name is checked against the pattern, the
/// parameter subpatterns are matched in order against the parameters, the
/// others among annotations, nested methods and the body; the name is bound.
pub fn apply_method<E: CallbackExecutor>(node: &MethodComponent, p: &NodePattern, ctx: &mut ParserContext, exec: &E) -> (r: Result<bool, ContextError>)
    ensures
        applied(*p, enters(*p, NodeType::Method, old(ctx).depth()), method_o(*node, *p, old(ctx).objects(), old(ctx).depth()), *old(ctx), *final(ctx), r, *exec),
        r == Ok::<bool, ContextError>(true) ==> admits(*p, NodeType::Method, node.method_name@, old(ctx).objects()),
    decreases node, 1nat,
{
    if p.identifier != NodeType::Method || p.is_unmatchable() || ctx.frame_depth() >= MAX_DEPTH {
        return Ok(false);
    }
    ctx.enter_frame();
    let passed = match verify_match(node.method_name.as_str(), &p.compiled_pattern, ctx) {
        Ok(true) => {
            let mut idx: Vec<usize> = Vec::new();
            let mut k: usize = 0;
            while k < p.subpatterns.len()
                invariant
                    k <= p.subpatterns.len(),
                    forall|j: int| 0 <= j < idx.len() ==> #[trigger] idx@[j] < p.subpatterns.len(),
                    idx@ == ordered_subpatterns(*p, k as int, false),
                decreases p.subpatterns.len() - k,
            {
                if p.subpatterns[k].identifier == NodeType::MethodParam {
                    idx.push(k);
                }
                k += 1;
            }
            let (params_found, _) = match_params(&node.parameters, p, &idx, ctx, exec);
            match params_found {
                Ok(true) => {
                let ghost mid = *ctx;
                let mut ok: Result<bool, ContextError> = Ok(true);
                let mut going = true;
                let mut i: usize = 0;
                while going && i < p.subpatterns.len()
                    invariant
                        i <= p.subpatterns.len(),
                        ctx.depth() == mid.depth(),
                        mid.depth() > 0,
                        children_free(*p) ==> ctx.objects() == mid.objects() && mid.locals().dom().subset_of(
                            ctx.locals().dom(),
                        ),
                        children_free(*p) && mid.objects() == ObjectsView::empty() ==> !(ok is Err),
                        going ==> ok == Ok::<bool, ContextError>(true),
                        children_free(*p) ==> method_subs(*node, *p, mid.objects(), mid.depth(), 0) == if going {
                            method_subs(*node, *p, mid.objects(), mid.depth(), i as int)
                        } else {
                            outcome_of(ok)
                        },
                    decreases p.subpatterns.len() - i,
                {
                    let sp = &p.subpatterns[i];
                    proof {
                        if children_free(*p) {
                            lemma_sub_no_callbacks(*p, i as int);
                        }
                    }
                    match method_children(node, sp, ctx, exec) {
                        Ok(found) => {
                            if !found && sp.essential {
                                ok = Ok(false);
                                going = false;
                            }
                        },
                        Err(e) => {
                            ok = Err(e);
                            going = false;
                        },
                    }
                    i += 1;
                }
                    match ok {
                        Ok(true) => write_to_context(node.method_name.as_str(), p.essential, &p.compiled_pattern, ctx),
                        other => other,
                    }
                },
                other => other,
            }
        },
        other => other,
    };
    let ghost at_finish = *ctx;
    let r = finish(p, passed, ctx, exec);
    proof {
        if children_free(*p) && p.callback is Some && passed == Ok::<bool, ContextError>(true) {
            assert(callback_ran(*p, *old(ctx), *ctx, r, *exec, at_finish.locals()));
        }
    }
    r
}

/// Some annotation, constructor, field or method of a class satisfies `sp`.
fn class_children<E: CallbackExecutor>(node: &ClassOrInterfaceComponent, sp: &NodePattern, ctx: &mut ParserContext, exec: &E) -> (r: Result<bool, ContextError>)
    ensures
        no_callbacks(*sp) ==> outcome_of(r) == class_children_o(*node, *sp, old(ctx).objects(), old(ctx).depth()),
        keeps(*sp, *old(ctx), *final(ctx)),
        no_callbacks(*sp) && old(ctx).objects() == ObjectsView::empty() ==> !(r is Err),
{
    match any_annotation(&node.annotations, sp, ctx, exec) {
        Ok(false) => match any_field(&node.field_components, sp, ctx, exec) {
            Ok(false) => match &node.constructors {
                Some(cs) => match any_method(cs, sp, ctx, exec) {
                    Ok(false) => any_method(&node.component.methods, sp, ctx, exec),
                    other => other,
                },
                None => any_method(&node.component.methods, sp, ctx, exec),
            },
            other => other,
        },
        other => other,
    }
}

/// Applies `p` to a class or interface: its name is checked against the
/// pattern, each subpattern is looked for among its annotations,
/// constructors, fields and methods, and the name is bound.
pub fn apply_class<E: CallbackExecutor>(
    node: &ClassOrInterfaceComponent,
    p: &NodePattern,
    ctx: &mut ParserContext,
    exec: &E,
) -> (r: Result<bool, ContextError>)
    ensures
        applied(*p, enters(*p, NodeType::ClassOrInterface, old(ctx).depth()), class_o(*node, *p, old(ctx).objects(), old(ctx).depth()), *old(ctx), *final(ctx), r, *exec),
        r == Ok::<bool, ContextError>(true) ==> admits(*p, NodeType::ClassOrInterface, node.component.container_name@, old(ctx).objects()),
{
    if p.identifier != NodeType::ClassOrInterface || p.is_unmatchable() || ctx.frame_depth() >= MAX_DEPTH {
        return Ok(false);
    }
    ctx.enter_frame();
    let passed = match verify_match(node.component.container_name.as_str(), &p.compiled_pattern, ctx) {
        Ok(true) => {
                let ghost mid = *ctx;
                let mut ok: Result<bool, ContextError> = Ok(true);
                let mut going = true;
                let mut i: usize = 0;
                while going && i < p.subpatterns.len()
                    invariant
                        i <= p.subpatterns.len(),
                        ctx.depth() == mid.depth(),
                        mid.depth() > 0,
                        children_free(*p) ==> ctx.objects() == mid.objects() && mid.locals().dom().subset_of(
                            ctx.locals().dom(),
                        ),
                        children_free(*p) && mid.objects() == ObjectsView::empty() ==> !(ok is Err),
                        going ==> ok == Ok::<bool, ContextError>(true),
                        children_free(*p) ==> class_subs(*node, *p, mid.objects(), mid.depth(), 0) == if going {
                            class_subs(*node, *p, mid.objects(), mid.depth(), i as int)
                        } else {
                            outcome_of(ok)
                        },
                    decreases p.subpatterns.len() - i,
                {
                    let sp = &p.subpatterns[i];
                    proof {
                        if children_free(*p) {
                            lemma_sub_no_callbacks(*p, i as int);
                        }
                    }
                    match class_children(node, sp, ctx, exec) {
                        Ok(found) => {
                            if !found && sp.essential {
                                ok = Ok(false);
                                going = false;
                            }
                        },
                        Err(e) => {
                            ok = Err(e);
                            going = false;
                        },
                    }
                    i += 1;
                }
            match ok {
                Ok(true) => write_to_context(node.component.container_name.as_str(), p.essential, &p.compiled_pattern, ctx),
                other => other,
            }
        },
        other => other,
    };
    let ghost at_finish = *ctx;
    let r = finish(p, passed, ctx, exec);
    proof {
        if children_free(*p) && p.callback is Some && passed == Ok::<bool, ContextError>(true) {
            assert(callback_ran(*p, *old(ctx), *ctx, r, *exec, at_finish.locals()));
        }
    }
    r
}

/// Applies `p` to every method of `list`, and to the methods nested in each.
fn explore_methods<E: CallbackExecutor>(
    list: &Vec<MethodComponent>,
    p: &NodePattern,
    ctx: &mut ParserContext,
    exec: &E,
) -> (r: Result<(), ContextError>)
    ensures
        application_ok(*p, *old(ctx), *final(ctx)),
        no_callbacks(*p) && old(ctx).objects() == ObjectsView::empty() ==> r is Ok,
        no_callbacks(*p) ==> ((r is Err) == explore_methods_aborts(*list, *p, old(ctx).objects(), old(ctx).depth(), 0)),
    decreases list,
{
    let mut i: usize = 0;
    while i < list.len()
        invariant
            i <= list.len(),
            application_ok(*p, *old(ctx), *ctx),
            no_callbacks(*p) ==> explore_methods_aborts(*list, *p, old(ctx).objects(), old(ctx).depth(), 0)
                == explore_methods_aborts(*list, *p, old(ctx).objects(), old(ctx).depth(), i as int),
        decreases list.len() - i,
    {
        match apply_method(&list[i], p, ctx, exec) {
            Ok(_) => {},
            Err(e) => {
                return Err(e);
            },
        }
        match explore_methods(&list[i].sub_methods, p, ctx, exec) {
            Ok(()) => {},
            Err(e) => {
                return Err(e);
            },
        }
        i += 1;
    }
    Ok(())
}

/// Applies `p` to every class or interface of `list` and to their fields,
/// constructors and methods.
fn explore_classes<E: CallbackExecutor>(
    list: &Vec<ClassOrInterfaceComponent>,
    p: &NodePattern,
    ctx: &mut ParserContext,
    exec: &E,
) -> (r: Result<(), ContextError>)
    ensures
        application_ok(*p, *old(ctx), *final(ctx)),
        no_callbacks(*p) && old(ctx).objects() == ObjectsView::empty() ==> r is Ok,
        no_callbacks(*p) ==> ((r is Err) == explore_classes_aborts(list@, *p, old(ctx).objects(), old(ctx).depth(), 0)),
{
    let mut i: usize = 0;
    while i < list.len()
        invariant
            i <= list.len(),
            application_ok(*p, *old(ctx), *ctx),
            no_callbacks(*p) ==> explore_classes_aborts(list@, *p, old(ctx).objects(), old(ctx).depth(), 0)
                == explore_classes_aborts(list@, *p, old(ctx).objects(), old(ctx).depth(), i as int),
        decreases list.len() - i,
    {
        let c = &list[i];
        match apply_class(c, p, ctx, exec) {
            Ok(_) => {},
            Err(e) => {
                return Err(e);
            },
        }
        match &c.field_components {
            Some(fields) => {
                let mut j: usize = 0;
                while j < fields.len()
                    invariant
                        j <= fields.len(),
                        application_ok(*p, *old(ctx), *ctx),
                        i < list.len(),
                        list@[i as int].field_components == Some(*fields),
                        no_callbacks(*p) ==> explore_classes_aborts(list@, *p, old(ctx).objects(), old(ctx).depth(), 0)
                            == explore_classes_aborts(list@, *p, old(ctx).objects(), old(ctx).depth(), i as int),
                        no_callbacks(*p) ==> class_o(list@[i as int], *p, old(ctx).objects(), old(ctx).depth()) != Outcome::Abort,
                        no_callbacks(*p) ==> explore_fields_aborts(fields@, *p, old(ctx).objects(), old(ctx).depth(), 0)
                            == explore_fields_aborts(fields@, *p, old(ctx).objects(), old(ctx).depth(), j as int),
                    decreases fields.len() - j,
                {
                    match apply_field(&fields[j], p, ctx, exec) {
                        Ok(_) => {},
                        Err(e) => {
                            return Err(e);
                        },
                    }
                    j += 1;
                }
            },
            None => {},
        }
        match &c.constructors {
            Some(cs) => match explore_methods(cs, p, ctx, exec) {
                Ok(()) => {},
                Err(e) => {
                    return Err(e);
                },
            },
            None => {},
        }
        match explore_methods(&c.component.methods, p, ctx, exec) {
            Ok(()) => {},
            Err(e) => {
                return Err(e);
            },
        }
        i += 1;
    }
    Ok(())
}

/// Applies `p` to every class, interface, field and method of `module`.
pub fn explore_module<E: CallbackExecutor>(
    module: &ModuleComponent,
    p: &NodePattern,
    ctx: &mut ParserContext,
    exec: &E,
) -> (r: Result<(), ContextError>)
    ensures
        application_ok(*p, *old(ctx), *final(ctx)),
        no_callbacks(*p) ==> ((r is Err) == explore_aborts(*module, *p, old(ctx).objects(), old(ctx).depth())),
        no_callbacks(*p) && old(ctx).objects() == ObjectsView::empty() ==> r is Ok,
{
    match explore_classes(&module.classes, p, ctx, exec) {
        Ok(()) => {},
        Err(e) => {
            return Err(e);
        },
    }
    match explore_classes(&module.interfaces, p, ctx, exec) {
        Ok(()) => {},
        Err(e) => {
            return Err(e);
        },
    }
    match explore_methods(&module.component.methods, p, ctx, exec) {
        Ok(()) => {},
        Err(e) => {
            return Err(e);
        },
    }
    Ok(())
}

/// Nodes that a node pattern can be applied to.
pub trait NodePatternParser {
    /// What applying `p` decides, without callbacks, among objects `objs`
    /// at depth `d`.
    spec fn outcome(&self, p: NodePattern, objs: ObjectsView, d: nat) -> crate::semantics::Outcome;

    /// Whether `p` applies to this node at depth `d`.
    spec fn entered(&self, p: NodePattern, d: nat) -> bool;

    /// Applies `p` to this node.
    fn parse<E: CallbackExecutor>(&self, p: &NodePattern, ctx: &mut ParserContext, exec: &E) -> (r: Result<bool, ContextError>)
        ensures
            applied(
                *p,
                self.entered(*p, old(ctx).depth()),
                self.outcome(*p, old(ctx).objects(), old(ctx).depth()),
                *old(ctx),
                *final(ctx),
                r,
                *exec,
            ),
    ;
}

impl NodePatternParser for ClassOrInterfaceComponent {
    open spec fn entered(&self, p: NodePattern, d: nat) -> bool {
        enters(p, NodeType::ClassOrInterface, d)
    }

    open spec fn outcome(&self, p: NodePattern, objs: ObjectsView, d: nat) -> crate::semantics::Outcome {
        class_o(*self, p, objs, d)
    }

    fn parse<E: CallbackExecutor>(&self, p: &NodePattern, ctx: &mut ParserContext, exec: &E) -> (r: Result<bool, ContextError>) {
        apply_class(self, p, ctx, exec)
    }
}

impl NodePatternParser for MethodComponent {
    open spec fn entered(&self, p: NodePattern, d: nat) -> bool {
        enters(p, NodeType::Method, d)
    }

    open spec fn outcome(&self, p: NodePattern, objs: ObjectsView, d: nat) -> crate::semantics::Outcome {
        method_o(*self, p, objs, d)
    }

    fn parse<E: CallbackExecutor>(&self, p: &NodePattern, ctx: &mut ParserContext, exec: &E) -> (r: Result<bool, ContextError>) {
        apply_method(self, p, ctx, exec)
    }
}

impl NodePatternParser for MethodParamComponent {
    open spec fn entered(&self, p: NodePattern, d: nat) -> bool {
        enters(p, NodeType::MethodParam, d)
    }

    open spec fn outcome(&self, p: NodePattern, objs: ObjectsView, d: nat) -> crate::semantics::Outcome {
        param_o(*self, p, objs, d)
    }

    fn parse<E: CallbackExecutor>(&self, p: &NodePattern, ctx: &mut ParserContext, exec: &E) -> (r: Result<bool, ContextError>) {
        apply_param(self, p, ctx, exec)
    }
}

impl NodePatternParser for FieldComponent {
    open spec fn entered(&self, p: NodePattern, d: nat) -> bool {
        enters(p, NodeType::Field, d)
    }

    open spec fn outcome(&self, p: NodePattern, objs: ObjectsView, d: nat) -> crate::semantics::Outcome {
        field_o(*self, p, objs, d)
    }

    fn parse<E: CallbackExecutor>(&self, p: &NodePattern, ctx: &mut ParserContext, exec: &E) -> (r: Result<bool, ContextError>) {
        apply_field(self, p, ctx, exec)
    }
}

impl NodePatternParser for AnnotationComponent {
    open spec fn entered(&self, p: NodePattern, d: nat) -> bool {
        enters(p, NodeType::Annotation, d)
    }

    open spec fn outcome(&self, p: NodePattern, objs: ObjectsView, d: nat) -> crate::semantics::Outcome {
        annotation_o(*self, p, objs, d)
    }

    fn parse<E: CallbackExecutor>(&self, p: &NodePattern, ctx: &mut ParserContext, exec: &E) -> (r: Result<bool, ContextError>) {
        apply_annotation(self, p, ctx, exec)
    }
}

impl NodePatternParser for AnnotationValuePair {
    open spec fn entered(&self, p: NodePattern, d: nat) -> bool {
        enters(p, NodeType::AnnotationValuePair, d)
    }

    open spec fn outcome(&self, p: NodePattern, objs: ObjectsView, d: nat) -> crate::semantics::Outcome {
        value_pair_o(*self, p, objs, d)
    }

    fn parse<E: CallbackExecutor>(&self, p: &NodePattern, ctx: &mut ParserContext, exec: &E) -> (r: Result<bool, ContextError>) {
        apply_value_pair(self, p, ctx, exec)
    }
}

impl NodePatternParser for CallExpr {
    open spec fn entered(&self, p: NodePattern, d: nat) -> bool {
        enters(p, NodeType::CallExpr, d)
    }

    open spec fn outcome(&self, p: NodePattern, objs: ObjectsView, d: nat) -> crate::semantics::Outcome {
        call_o(*self, p, objs, d)
    }

    fn parse<E: CallbackExecutor>(&self, p: &NodePattern, ctx: &mut ParserContext, exec: &E) -> (r: Result<bool, ContextError>) {
        apply_call(self, p, ctx, exec)
    }
}

impl NodePatternParser for VarDecl {
    open spec fn entered(&self, p: NodePattern, d: nat) -> bool {
        enters(p, NodeType::VarDecl, d)
    }

    open spec fn outcome(&self, p: NodePattern, objs: ObjectsView, d: nat) -> crate::semantics::Outcome {
        var_decl_o(*self, p, objs, d)
    }

    fn parse<E: CallbackExecutor>(&self, p: &NodePattern, ctx: &mut ParserContext, exec: &E) -> (r: Result<bool, ContextError>) {
        apply_var_decl(self, p, ctx, exec)
    }
}

impl NodePatternParser for DeclStmt {
    open spec fn entered(&self, p: NodePattern, d: nat) -> bool {
        enters(p, NodeType::DeclStmt, d)
    }

    open spec fn outcome(&self, p: NodePattern, objs: ObjectsView, d: nat) -> crate::semantics::Outcome {
        decl_o(*self, p, objs, d)
    }

    fn parse<E: CallbackExecutor>(&self, p: &NodePattern, ctx: &mut ParserContext, exec: &E) -> (r: Result<bool, ContextError>) {
        apply_decl(self, p, ctx, exec)
    }
}

impl NodePatternParser for Ident {
    open spec fn entered(&self, p: NodePattern, d: nat) -> bool {
        enters(p, NodeType::Ident, d)
    }

    open spec fn outcome(&self, p: NodePattern, objs: ObjectsView, d: nat) -> crate::semantics::Outcome {
        ident_o(*self, p, objs, d)
    }

    fn parse<E: CallbackExecutor>(&self, p: &NodePattern, ctx: &mut ParserContext, exec: &E) -> (r: Result<bool, ContextError>) {
        apply_ident(self, p, ctx, exec)
    }
}

impl NodePatternParser for Literal {
    open spec fn entered(&self, p: NodePattern, d: nat) -> bool {
        enters(p, NodeType::Literal, d)
    }

    open spec fn outcome(&self, p: NodePattern, objs: ObjectsView, d: nat) -> crate::semantics::Outcome {
        literal_o(*self, p, objs, d)
    }

    fn parse<E: CallbackExecutor>(&self, p: &NodePattern, ctx: &mut ParserContext, exec: &E) -> (r: Result<bool, ContextError>) {
        apply_literal(self, p, ctx, exec)
    }
}

impl NodePatternParser for Expr {
    open spec fn entered(&self, p: NodePattern, d: nat) -> bool {
        expr_enters(*self, p, d)
    }

    open spec fn outcome(&self, p: NodePattern, objs: ObjectsView, d: nat) -> crate::semantics::Outcome {
        expr_o(*self, p, objs, d)
    }

    fn parse<E: CallbackExecutor>(&self, p: &NodePattern, ctx: &mut ParserContext, exec: &E) -> (r: Result<bool, ContextError>) {
        apply_expr(self, p, ctx, exec)
    }
}

/// Applies `pattern` to `node`: the pattern is checked, its subpatterns
/// looked for, what it captures bound, and its callback run, within one
/// more level of application; back at depth zero the local variables are
/// cleared.
pub fn msd_node_parse<N: NodePatternParser, E: CallbackExecutor>(
    pattern: &NodePattern,
    node: &N,
    ctx: &mut ParserContext,
    exec: &E,
) -> (r: Result<bool, ContextError>)
    ensures
        applied(
            *pattern,
            node.entered(*pattern, old(ctx).depth()),
            node.outcome(*pattern, old(ctx).objects(), old(ctx).depth()),
            *old(ctx),
            *final(ctx),
            r,
            *exec,
        ),
{
    node.parse(pattern, ctx, exec)
}

/// Every pattern of `ps` is free of callbacks.
pub open spec fn all_free(ps: Seq<NodePattern>) -> bool {
    forall|i: int| 0 <= i < ps.len() ==> no_callbacks(#[trigger] ps[i])
}

/// Applies each pattern, in order, to every module, and hands back the
/// context the run built: at depth zero, with no local variable left; with
/// no callback, no object is ever made. A broken tag stops the run.
pub fn run_ressa_parse<E: CallbackExecutor>(
    ast: &Vec<ModuleComponent>,
    ressas: &Vec<NodePattern>,
    exec: &E,
) -> (r: Result<ParserContext, ContextError>)
    ensures
        r matches Ok(ctx) ==> ctx.depth() == 0 && ctx.locals() == Map::<Seq<char>, Seq<char>>::empty(),
        r matches Ok(ctx) ==> (all_free(ressas@) ==> ctx.objects() == ObjectsView::empty()),
        all_free(ressas@) ==> r is Ok,
{
    let mut ctx = ParserContext::new();
    let mut i: usize = 0;
    while i < ressas.len()
        invariant
            i <= ressas.len(),
            ctx.depth() == 0,
            ctx.locals() == Map::<Seq<char>, Seq<char>>::empty(),
            all_free(ressas@) ==> ctx.objects() == ObjectsView::empty(),
        decreases ressas.len() - i,
    {
        let mut j: usize = 0;
        while j < ast.len()
            invariant
                i < ressas.len(),
                j <= ast.len(),
                ctx.depth() == 0,
                ctx.locals() == Map::<Seq<char>, Seq<char>>::empty(),
                all_free(ressas@) ==> ctx.objects() == ObjectsView::empty(),
            decreases ast.len() - j,
        {
            proof {
                if all_free(ressas@) {
                    assert(no_callbacks(ressas@[i as int]));
                }
            }
            match explore_module(&ast[j], &ressas[i], &mut ctx, exec) {
                Ok(_) => {},
                Err(e) => {
                    return Err(e);
                },
            }
            j += 1;
        }
        i += 1;
    }
    Ok(ctx)
}

} // verus!
