//! What an application of a pattern decides, stated over the objects of the
//! context and the depth at which it starts. Without callbacks matching
//! never changes the objects, and the local variables it binds are never
//! read back, so the decision is a function of these alone.

use vstd::prelude::*;
use crate::context::{ContextError, ObjectsView};
use crate::engine::{NodePattern, NodeType, MAX_DEPTH};
use crate::model::{
    AnnotationComponent, ClassOrInterfaceComponent, ModuleComponent, AnnotationValuePair, CallExpr, DeclStmt, Expr, FieldComponent, Ident, Literal,
    MethodComponent, MethodParamComponent, Stmt, VarDecl,
};
use crate::pattern::{match_verdict, regex_named_groups, CompiledPattern, RefVerdict};

verus! {

broadcast use vstd::std_specs::vec::group_vec_axioms;

/// Outcome of an application, a search or a check.
pub enum Outcome {
    Yes,
    No,
    Abort,
}

/// The outcome a result reports.
pub open spec fn outcome_of(r: Result<bool, ContextError>) -> Outcome {
    match r {
        Ok(true) => Outcome::Yes,
        Ok(false) => Outcome::No,
        Err(_) => Outcome::Abort,
    }
}

/// `a`, and then, if it said yes, `b`.
pub open spec fn then(a: Outcome, b: Outcome) -> Outcome {
    match a {
        Outcome::Yes => b,
        _ => a,
    }
}

/// Checking `text` against `c`; no pattern accepts all.
pub open spec fn check(c: Option<CompiledPattern>, text: Seq<char>, objs: ObjectsView) -> Outcome {
    match c {
        None => Outcome::Yes,
        Some(cp) => match match_verdict(objs, regex_named_groups(cp.source(), text, cp.variable_names()), cp.reference_flags()) {
            RefVerdict::Pass => Outcome::Yes,
            RefVerdict::Miss => Outcome::No,
            RefVerdict::Abort(_, _) => Outcome::Abort,
        },
    }
}

/// Binding what `c` captures in `text`: a miss fails an essential pattern only.
pub open spec fn bind(c: Option<CompiledPattern>, text: Seq<char>, essential: bool, objs: ObjectsView) -> Outcome {
    match c {
        None => Outcome::Yes,
        Some(cp) => match match_verdict(objs, regex_named_groups(cp.source(), text, cp.variable_names()), cp.reference_flags()) {
            RefVerdict::Pass => Outcome::Yes,
            RefVerdict::Miss => if essential {
                Outcome::No
            } else {
                Outcome::Yes
            },
            RefVerdict::Abort(_, _) => Outcome::Abort,
        },
    }
}

/// `p` is applied to a node of kind `kind` at depth `d`.
pub open spec fn enters(p: NodePattern, kind: NodeType, d: nat) -> bool {
    p.identifier == kind && !p.unmatchable() && d < MAX_DEPTH
}

/// Whether `p` applies to the expression at all, by its kind.
pub open spec fn expr_enters(e: Expr, p: NodePattern, d: nat) -> bool {
    match e {
        Expr::Ident(_) => enters(p, NodeType::Ident, d),
        Expr::Literal(_) => enters(p, NodeType::Literal, d),
        Expr::CallExpr(_) => enters(p, NodeType::CallExpr, d),
        Expr::VarDecl(_) => enters(p, NodeType::VarDecl, d),
        Expr::DotExpr(_) => false,
    }
}

/// A search step: a yes or an abort ends the search, a no goes on with `rest`.
pub open spec fn or_else(a: Outcome, rest: Outcome) -> Outcome {
    match a {
        Outcome::No => rest,
        _ => a,
    }
}

/// A subpattern step: an abort ends, a no ends only for an essential
/// subpattern, otherwise it goes on with `rest`.
pub open spec fn sub_step(found: Outcome, essential: bool, rest: Outcome) -> Outcome {
    match found {
        Outcome::Abort => Outcome::Abort,
        Outcome::No => if essential {
            Outcome::No
        } else {
            rest
        },
        Outcome::Yes => rest,
    }
}

/// Applying a pattern to an identifier.
pub open spec fn ident_o(n: Ident, p: NodePattern, objs: ObjectsView, d: nat) -> Outcome {
    if !enters(p, NodeType::Ident, d) {
        Outcome::No
    } else {
        then(check(p.compiled_pattern, n.name@, objs), bind(p.compiled_pattern, n.name@, p.essential, objs))
    }
}

/// Applying a pattern to a literal.
pub open spec fn literal_o(n: Literal, p: NodePattern, objs: ObjectsView, d: nat) -> Outcome {
    if !enters(p, NodeType::Literal, d) {
        Outcome::No
    } else {
        then(check(p.compiled_pattern, n.value@, objs), bind(p.compiled_pattern, n.value@, p.essential, objs))
    }
}

/// Applying a pattern to a key/value pair of an annotation.
pub open spec fn value_pair_o(n: AnnotationValuePair, p: NodePattern, objs: ObjectsView, d: nat) -> Outcome {
    if !enters(p, NodeType::AnnotationValuePair, d) {
        Outcome::No
    } else {
        then(
            check(p.compiled_pattern, n.key@, objs),
            then(
                check(p.compiled_type_pattern, n.value@, objs),
                then(
                    bind(p.compiled_pattern, n.key@, p.essential, objs),
                    bind(p.compiled_type_pattern, n.value@, p.essential, objs),
                ),
            ),
        )
    }
}

/// Looking for a pair, from position `i` on, that a subpattern matches.
pub open spec fn any_value_pair_o(list: Seq<AnnotationValuePair>, sp: NodePattern, objs: ObjectsView, d: nat, i: int) -> Outcome
    decreases list.len() - i,
{
    if i < 0 || i >= list.len() {
        Outcome::No
    } else {
        or_else(value_pair_o(list[i], sp, objs, d), any_value_pair_o(list, sp, objs, d, i + 1))
    }
}

/// The subpatterns of an annotation pattern, from the `i`-th on.
pub open spec fn annotation_subs(n: AnnotationComponent, p: NodePattern, objs: ObjectsView, d: nat, i: int) -> Outcome
    decreases p.subpatterns.len() - i,
{
    if i < 0 || i >= p.subpatterns.len() {
        Outcome::Yes
    } else {
        sub_step(
            any_value_pair_o(n.key_value_pairs@, p.subpatterns[i], objs, d, 0),
            p.subpatterns[i].essential,
            annotation_subs(n, p, objs, d, i + 1),
        )
    }
}

/// Applying a pattern to an annotation.
pub open spec fn annotation_o(n: AnnotationComponent, p: NodePattern, objs: ObjectsView, d: nat) -> Outcome {
    if !enters(p, NodeType::Annotation, d) {
        Outcome::No
    } else {
        then(
            check(p.compiled_pattern, n.name@, objs),
            then(
                check(p.compiled_type_pattern, n.value@, objs),
                then(
                    annotation_subs(n, p, objs, d + 1, 0),
                    then(
                        bind(p.compiled_pattern, n.name@, p.essential, objs),
                        bind(p.compiled_type_pattern, n.value@, p.essential, objs),
                    ),
                ),
            ),
        )
    }
}

/// Looking for an annotation, from position `i` on, that a subpattern matches.
pub open spec fn any_annotation_o(list: Seq<AnnotationComponent>, sp: NodePattern, objs: ObjectsView, d: nat, i: int) -> Outcome
    decreases list.len() - i,
{
    if i < 0 || i >= list.len() {
        Outcome::No
    } else {
        or_else(annotation_o(list[i], sp, objs, d), any_annotation_o(list, sp, objs, d, i + 1))
    }
}

/// Looking for a matching annotation in an optional list.
pub open spec fn any_annotation_in_o(list: Option<Vec<AnnotationComponent>>, sp: NodePattern, objs: ObjectsView, d: nat) -> Outcome {
    match list {
        Some(l) => any_annotation_o(l@, sp, objs, d, 0),
        None => Outcome::No,
    }
}

/// Looking for a variable name of a field, as an identifier, from position `i` on.
pub open spec fn any_variable_o(list: Seq<String>, sp: NodePattern, objs: ObjectsView, d: nat, i: int) -> Outcome
    decreases list.len() - i,
{
    if i < 0 || i >= list.len() {
        Outcome::No
    } else {
        or_else(ident_o(Ident { name: list[i] }, sp, objs, d), any_variable_o(list, sp, objs, d, i + 1))
    }
}

/// The subpatterns of a parameter pattern, from the `i`-th on.
pub open spec fn param_subs(n: MethodParamComponent, p: NodePattern, objs: ObjectsView, d: nat, i: int) -> Outcome
    decreases p.subpatterns.len() - i,
{
    if i < 0 || i >= p.subpatterns.len() {
        Outcome::Yes
    } else {
        sub_step(
            any_annotation_in_o(n.annotation, p.subpatterns[i], objs, d),
            p.subpatterns[i].essential,
            param_subs(n, p, objs, d, i + 1),
        )
    }
}

/// Applying a pattern to a method parameter.
pub open spec fn param_o(n: MethodParamComponent, p: NodePattern, objs: ObjectsView, d: nat) -> Outcome {
    if !enters(p, NodeType::MethodParam, d) {
        Outcome::No
    } else {
        then(
            check(p.compiled_pattern, n.parameter_name@, objs),
            then(
                check(p.compiled_type_pattern, n.parameter_type@, objs),
                then(
                    param_subs(n, p, objs, d + 1, 0),
                    then(
                        bind(p.compiled_pattern, n.parameter_name@, p.essential, objs),
                        bind(p.compiled_type_pattern, n.parameter_type@, p.essential, objs),
                    ),
                ),
            ),
        )
    }
}

/// Looking for a matching annotation or variable of a field.
pub open spec fn field_children_o(n: FieldComponent, sp: NodePattern, objs: ObjectsView, d: nat) -> Outcome {
    or_else(any_annotation_o(n.annotations@, sp, objs, d, 0), any_variable_o(n.variables@, sp, objs, d, 0))
}

/// The subpatterns of a field pattern, from the `i`-th on.
pub open spec fn field_subs(n: FieldComponent, p: NodePattern, objs: ObjectsView, d: nat, i: int) -> Outcome
    decreases p.subpatterns.len() - i,
{
    if i < 0 || i >= p.subpatterns.len() {
        Outcome::Yes
    } else {
        sub_step(
            field_children_o(n, p.subpatterns[i], objs, d),
            p.subpatterns[i].essential,
            field_subs(n, p, objs, d, i + 1),
        )
    }
}

/// Applying a pattern to a field.
pub open spec fn field_o(n: FieldComponent, p: NodePattern, objs: ObjectsView, d: nat) -> Outcome {
    if !enters(p, NodeType::Field, d) {
        Outcome::No
    } else {
        then(
            check(p.compiled_pattern, n.field_name@, objs),
            then(
                check(p.compiled_type_pattern, n.field_type@, objs),
                then(
                    field_subs(n, p, objs, d + 1, 0),
                    then(
                        bind(p.compiled_pattern, n.field_name@, p.essential, objs),
                        bind(p.compiled_type_pattern, n.field_type@, p.essential, objs),
                    ),
                ),
            ),
        )
    }
}

/// Looking for a matching field in an optional list.
pub open spec fn any_field_in_o(list: Option<Vec<FieldComponent>>, sp: NodePattern, objs: ObjectsView, d: nat) -> Outcome {
    match list {
        Some(l) => any_field_o(l@, sp, objs, d, 0),
        None => Outcome::No,
    }
}

/// Looking for a field, from position `i` on, that a subpattern matches.
pub open spec fn any_field_o(list: Seq<FieldComponent>, sp: NodePattern, objs: ObjectsView, d: nat, i: int) -> Outcome
    decreases list.len() - i,
{
    if i < 0 || i >= list.len() {
        Outcome::No
    } else {
        or_else(field_o(list[i], sp, objs, d), any_field_o(list, sp, objs, d, i + 1))
    }
}

/// Checking the type of a variable, where it has one.
pub open spec fn var_type_check(t: Option<String>, c: Option<CompiledPattern>, objs: ObjectsView) -> Outcome {
    match t {
        Some(t) => check(c, t@, objs),
        None => Outcome::Yes,
    }
}

/// Binding the type of a variable, where it has one.
pub open spec fn var_type_bind(t: Option<String>, c: Option<CompiledPattern>, essential: bool, objs: ObjectsView) -> Outcome {
    match t {
        Some(t) => bind(c, t@, essential, objs),
        None => Outcome::Yes,
    }
}

/// The subpatterns of a variable pattern, from the `i`-th on.
pub open spec fn var_decl_subs(n: VarDecl, p: NodePattern, objs: ObjectsView, d: nat, i: int) -> Outcome
    decreases p.subpatterns.len() - i,
{
    if i < 0 || i >= p.subpatterns.len() {
        Outcome::Yes
    } else {
        sub_step(
            any_annotation_o(n.annotation@, p.subpatterns[i], objs, d, 0),
            p.subpatterns[i].essential,
            var_decl_subs(n, p, objs, d, i + 1),
        )
    }
}

/// Applying a pattern to a variable declaration.
pub open spec fn var_decl_o(n: VarDecl, p: NodePattern, objs: ObjectsView, d: nat) -> Outcome {
    if !enters(p, NodeType::VarDecl, d) {
        Outcome::No
    } else {
        then(
            check(p.compiled_pattern, n.ident.name@, objs),
            then(
                var_type_check(n.var_type, p.compiled_type_pattern, objs),
                then(
                    var_decl_subs(n, p, objs, d + 1, 0),
                    then(
                        bind(p.compiled_pattern, n.ident.name@, p.essential, objs),
                        var_type_bind(n.var_type, p.compiled_type_pattern, p.essential, objs),
                    ),
                ),
            ),
        )
    }
}

/// Looking for a variable declaration, from position `i` on, that a subpattern matches.
pub open spec fn any_var_decl_o(list: Seq<VarDecl>, sp: NodePattern, objs: ObjectsView, d: nat, i: int) -> Outcome
    decreases list.len() - i,
{
    if i < 0 || i >= list.len() {
        Outcome::No
    } else {
        or_else(var_decl_o(list[i], sp, objs, d), any_var_decl_o(list, sp, objs, d, i + 1))
    }
}

/// Subpatterns matched in order against call arguments.
pub open spec fn is_arg_kind(t: NodeType) -> bool {
    t == NodeType::CallExpr || t == NodeType::VarDecl || t == NodeType::Ident || t == NodeType::Literal
}

/// Positions, among the first `k` subpatterns of `p`, of those matched in
/// order: argument kinds when `args`, else method parameters.
pub open spec fn ordered_subpatterns(p: NodePattern, k: int, args: bool) -> Seq<usize>
    decreases k,
{
    if k <= 0 {
        Seq::empty()
    } else {
        let before = ordered_subpatterns(p, k - 1, args);
        let t = p.subpatterns[k - 1].identifier;
        if (if args { is_arg_kind(t) } else { t == NodeType::MethodParam }) {
            before.push((k - 1) as usize)
        } else {
            before
        }
    }
}

/// The window of parameters at `start`, from its `k`-th subpattern on.
pub open spec fn param_window(
    ch: Seq<MethodParamComponent>,
    p: NodePattern,
    idx: Seq<usize>,
    objs: ObjectsView,
    d: nat,
    start: int,
    k: int,
) -> Outcome
    decreases idx.len() - k,
{
    if k < 0 || k >= idx.len() {
        Outcome::Yes
    } else if start < 0 || start + k >= ch.len() || idx[k] >= p.subpatterns.len() {
        Outcome::No
    } else {
        then(param_o(ch[start + k], p.subpatterns[idx[k] as int], objs, d), param_window(ch, p, idx, objs, d, start, k + 1))
    }
}

/// The first window of parameters, from offset `start` on, at which every
/// selected subpattern matches.
pub open spec fn param_windows(ch: Seq<MethodParamComponent>, p: NodePattern, idx: Seq<usize>, objs: ObjectsView, d: nat, start: int) -> Outcome
    decreases ch.len() - start,
{
    if idx.len() == 0 {
        Outcome::Yes
    } else if start < 0 || idx.len() > ch.len() || start > ch.len() - idx.len() {
        Outcome::No
    } else {
        or_else(param_window(ch, p, idx, objs, d, start, 0), param_windows(ch, p, idx, objs, d, start + 1))
    }
}

/// Applying a pattern to an expression, by its kind.
pub open spec fn expr_o(e: Expr, p: NodePattern, objs: ObjectsView, d: nat) -> Outcome
    decreases e, 3int, 0int,
{
    match e {
        Expr::Ident(x) => ident_o(x, p, objs, d),
        Expr::Literal(x) => literal_o(x, p, objs, d),
        Expr::CallExpr(c) => call_o(c, p, objs, d),
        Expr::VarDecl(x) => var_decl_o(x, p, objs, d),
        Expr::DotExpr(_) => Outcome::No,
    }
}

/// The name under which a call is matched.
pub open spec fn call_name(c: CallExpr) -> Option<Seq<char>> {
    match *c.name {
        Expr::DotExpr(d) => match *d.selected {
            Expr::Ident(i) => Some(i.name@),
            _ => None,
        },
        Expr::Ident(i) => Some(i.name@),
        Expr::Literal(l) => Some(l.value@),
        _ => None,
    }
}

/// Applying a pattern to a call.
pub open spec fn call_o(c: CallExpr, p: NodePattern, objs: ObjectsView, d: nat) -> Outcome
    decreases c, 3int, 0int,
{
    if !enters(p, NodeType::CallExpr, d) {
        Outcome::No
    } else {
        match call_name(c) {
            None => Outcome::No,
            Some(n) => then(
                check(p.compiled_pattern, n, objs),
                then(
                    arg_windows(c.args, p, ordered_subpatterns(p, p.subpatterns.len() as int, true), objs, d + 1, 0),
                    bind(p.compiled_pattern, n, p.essential, objs),
                ),
            ),
        }
    }
}

/// The window of arguments at `start`, from its `k`-th subpattern on.
pub open spec fn arg_window(args: Vec<Expr>, p: NodePattern, idx: Seq<usize>, objs: ObjectsView, d: nat, start: int, k: int) -> Outcome
    decreases args, 1int, idx.len() - k,
{
    if k < 0 || k >= idx.len() {
        Outcome::Yes
    } else if start < 0 || start + k >= args.len() || idx[k] >= p.subpatterns.len() {
        Outcome::No
    } else {
        then(expr_o(args[start + k], p.subpatterns[idx[k] as int], objs, d), arg_window(args, p, idx, objs, d, start, k + 1))
    }
}

/// The first window of arguments, from offset `start` on, at which every
/// selected subpattern matches.
pub open spec fn arg_windows(args: Vec<Expr>, p: NodePattern, idx: Seq<usize>, objs: ObjectsView, d: nat, start: int) -> Outcome
    decreases args, 2int, args.len() - start,
{
    if idx.len() == 0 {
        Outcome::Yes
    } else if start < 0 || idx.len() > args.len() || start > args.len() - idx.len() {
        Outcome::No
    } else {
        or_else(arg_window(args, p, idx, objs, d, start, 0), arg_windows(args, p, idx, objs, d, start + 1))
    }
}

/// Looking for a node of an expression tree, itself included, that a subpattern matches.
pub open spec fn search_expr_o(e: Expr, sp: NodePattern, objs: ObjectsView, d: nat) -> Outcome
    decreases e, 3int, 0int,
{
    match e {
        Expr::Ident(x) => ident_o(x, sp, objs, d),
        Expr::Literal(x) => literal_o(x, sp, objs, d),
        Expr::VarDecl(x) => var_decl_o(x, sp, objs, d),
        Expr::CallExpr(c) => or_else(
            call_o(c, sp, objs, d),
            or_else(search_expr_o(*c.name, sp, objs, d), search_exprs_o(c.args, sp, objs, d, 0)),
        ),
        Expr::DotExpr(x) => or_else(search_expr_o(*x.expr, sp, objs, d), search_expr_o(*x.selected, sp, objs, d)),
    }
}

/// Searching expressions, from position `i` on.
pub open spec fn search_exprs_o(list: Vec<Expr>, sp: NodePattern, objs: ObjectsView, d: nat, i: int) -> Outcome
    decreases list, 0int, list.len() - i,
{
    if i < 0 || i >= list.len() {
        Outcome::No
    } else {
        or_else(search_expr_o(list[i], sp, objs, d), search_exprs_o(list, sp, objs, d, i + 1))
    }
}

/// Looking for a node under a statement, itself included, that a subpattern matches.
pub open spec fn search_stmt_o(s: Stmt, sp: NodePattern, objs: ObjectsView, d: nat) -> Outcome
    decreases s, 3int, 0int,
{
    match s {
        Stmt::DeclStmt(x) => or_else(
            decl_o(x, sp, objs, d),
            or_else(any_var_decl_o(x.variables@, sp, objs, d, 0), search_exprs_o(x.expressions, sp, objs, d, 0)),
        ),
        Stmt::ExprStmt(e) => search_expr_o(e, sp, objs, d),
    }
}

/// Searching statements, from position `i` on.
pub open spec fn search_stmts_o(list: Vec<Stmt>, sp: NodePattern, objs: ObjectsView, d: nat, i: int) -> Outcome
    decreases list, 0int, list.len() - i,
{
    if i < 0 || i >= list.len() {
        Outcome::No
    } else {
        or_else(search_stmt_o(list[i], sp, objs, d), search_stmts_o(list, sp, objs, d, i + 1))
    }
}

/// Looking for a matching child of a declaration statement.
pub open spec fn decl_children_o(n: DeclStmt, sp: NodePattern, objs: ObjectsView, d: nat) -> Outcome
    decreases n, 1int, 0int,
{
    if sp.identifier == NodeType::VarDecl {
        any_var_decl_o(n.variables@, sp, objs, d, 0)
    } else {
        search_exprs_o(n.expressions, sp, objs, d, 0)
    }
}

/// The subpatterns of a declaration pattern, from the `i`-th on.
pub open spec fn decl_subs(n: DeclStmt, p: NodePattern, objs: ObjectsView, d: nat, i: int) -> Outcome
    decreases n, 2int, p.subpatterns.len() - i,
{
    if i < 0 || i >= p.subpatterns.len() {
        Outcome::Yes
    } else {
        sub_step(decl_children_o(n, p.subpatterns[i], objs, d), p.subpatterns[i].essential, decl_subs(n, p, objs, d, i + 1))
    }
}

/// Applying a pattern to a declaration statement.
pub open spec fn decl_o(n: DeclStmt, p: NodePattern, objs: ObjectsView, d: nat) -> Outcome
    decreases n, 3int, 0int,
{
    if !enters(p, NodeType::DeclStmt, d) {
        Outcome::No
    } else {
        decl_subs(n, p, objs, d + 1, 0)
    }
}

/// Looking for a matching child of a method; parameter patterns count as found.
pub open spec fn method_children_o(m: MethodComponent, sp: NodePattern, objs: ObjectsView, d: nat) -> Outcome
    decreases m, 1int, 0int,
{
    if sp.identifier == NodeType::MethodParam {
        Outcome::Yes
    } else {
        or_else(
            any_annotation_o(m.annotations@, sp, objs, d, 0),
            or_else(
                any_method_o(m.sub_methods, sp, objs, d, 0),
                match m.body {
                    Some(body) => search_stmts_o(body, sp, objs, d, 0),
                    None => Outcome::No,
                },
            ),
        )
    }
}

/// The subpatterns of a method pattern, from the `i`-th on.
pub open spec fn method_subs(m: MethodComponent, p: NodePattern, objs: ObjectsView, d: nat, i: int) -> Outcome
    decreases m, 2int, p.subpatterns.len() - i,
{
    if i < 0 || i >= p.subpatterns.len() {
        Outcome::Yes
    } else {
        sub_step(method_children_o(m, p.subpatterns[i], objs, d), p.subpatterns[i].essential, method_subs(m, p, objs, d, i + 1))
    }
}

/// Applying a pattern to a method.
pub open spec fn method_o(m: MethodComponent, p: NodePattern, objs: ObjectsView, d: nat) -> Outcome
    decreases m, 3int, 0int,
{
    if !enters(p, NodeType::Method, d) {
        Outcome::No
    } else {
        then(
            check(p.compiled_pattern, m.method_name@, objs),
            then(
                param_windows(m.parameters@, p, ordered_subpatterns(p, p.subpatterns.len() as int, false), objs, d + 1, 0),
                then(method_subs(m, p, objs, d + 1, 0), bind(p.compiled_pattern, m.method_name@, p.essential, objs)),
            ),
        )
    }
}

/// Looking for a method, from position `i` on, that a subpattern matches.
pub open spec fn any_method_o(list: Vec<MethodComponent>, sp: NodePattern, objs: ObjectsView, d: nat, i: int) -> Outcome
    decreases list, 0int, list.len() - i,
{
    if i < 0 || i >= list.len() {
        Outcome::No
    } else {
        or_else(method_o(list[i], sp, objs, d), any_method_o(list, sp, objs, d, i + 1))
    }
}

/// Looking for a matching annotation, field, constructor or method of a class.
pub open spec fn class_children_o(c: ClassOrInterfaceComponent, sp: NodePattern, objs: ObjectsView, d: nat) -> Outcome {
    or_else(
        any_annotation_o(c.annotations@, sp, objs, d, 0),
        or_else(
            any_field_in_o(c.field_components, sp, objs, d),
            match c.constructors {
                Some(cs) => or_else(any_method_o(cs, sp, objs, d, 0), any_method_o(c.component.methods, sp, objs, d, 0)),
                None => any_method_o(c.component.methods, sp, objs, d, 0),
            },
        ),
    )
}

/// The subpatterns of a class pattern, from the `i`-th on.
pub open spec fn class_subs(c: ClassOrInterfaceComponent, p: NodePattern, objs: ObjectsView, d: nat, i: int) -> Outcome
    decreases p.subpatterns.len() - i,
{
    if i < 0 || i >= p.subpatterns.len() {
        Outcome::Yes
    } else {
        sub_step(class_children_o(c, p.subpatterns[i], objs, d), p.subpatterns[i].essential, class_subs(c, p, objs, d, i + 1))
    }
}

/// Applying a pattern to a class or interface.
pub open spec fn class_o(c: ClassOrInterfaceComponent, p: NodePattern, objs: ObjectsView, d: nat) -> Outcome {
    if !enters(p, NodeType::ClassOrInterface, d) {
        Outcome::No
    } else {
        then(
            check(p.compiled_pattern, c.component.container_name@, objs),
            then(class_subs(c, p, objs, d + 1, 0), bind(p.compiled_pattern, c.component.container_name@, p.essential, objs)),
        )
    }
}

/// A pattern that is not essential never fails the match around it: its
/// binding, failed or not, fails nothing, and when it is not found the
/// enclosing match goes on as if it had been.
pub proof fn lemma_optional_pattern_never_fails(c: Option<CompiledPattern>, text: Seq<char>, objs: ObjectsView, rest: Outcome)
    ensures
        bind(c, text, false, objs) != Outcome::No,
        sub_step(Outcome::No, false, rest) == rest,
        sub_step(bind(c, text, false, objs), false, rest) == rest || bind(c, text, false, objs) == Outcome::Abort,
{
}

proof fn lemma_param_windows_from(ch: Seq<MethodParamComponent>, p: NodePattern, idx: Seq<usize>, objs: ObjectsView, d: nat, start: int)
    requires
        0 < idx.len() <= ch.len(),
        0 <= start <= ch.len() - idx.len(),
        forall|o: int| start <= o < ch.len() - idx.len() ==> #[trigger] param_window(ch, p, idx, objs, d, o, 0) == Outcome::No,
        param_window(ch, p, idx, objs, d, ch.len() - idx.len(), 0) == Outcome::Yes,
    ensures
        param_windows(ch, p, idx, objs, d, start) == Outcome::Yes,
    decreases ch.len() - start,
{
    if start < ch.len() - idx.len() {
        lemma_param_windows_from(ch, p, idx, objs, d, start + 1);
    }
}

/// Ordered parameter matching that only aligns at the last offset finds it:
/// every earlier offset is tried and given up, and the last one is accepted.
pub proof fn lemma_params_align_at_last_offset(ch: Seq<MethodParamComponent>, p: NodePattern, idx: Seq<usize>, objs: ObjectsView, d: nat)
    requires
        0 < idx.len() <= ch.len(),
        forall|o: int| 0 <= o < ch.len() - idx.len() ==> #[trigger] param_window(ch, p, idx, objs, d, o, 0) == Outcome::No,
        param_window(ch, p, idx, objs, d, ch.len() - idx.len(), 0) == Outcome::Yes,
    ensures
        param_windows(ch, p, idx, objs, d, 0) == Outcome::Yes,
{
    lemma_param_windows_from(ch, p, idx, objs, d, 0);
}

proof fn lemma_arg_windows_from(args: Vec<Expr>, p: NodePattern, idx: Seq<usize>, objs: ObjectsView, d: nat, start: int)
    requires
        0 < idx.len() <= args.len(),
        0 <= start <= args.len() - idx.len(),
        forall|o: int| start <= o < args.len() - idx.len() ==> #[trigger] arg_window(args, p, idx, objs, d, o, 0) == Outcome::No,
        arg_window(args, p, idx, objs, d, args.len() - idx.len(), 0) == Outcome::Yes,
    ensures
        arg_windows(args, p, idx, objs, d, start) == Outcome::Yes,
    decreases args.len() - start,
{
    if start < args.len() - idx.len() {
        assert(arg_window(args, p, idx, objs, d, start, 0) == Outcome::No);
        lemma_arg_windows_from(args, p, idx, objs, d, start + 1);
        assert(arg_windows(args, p, idx, objs, d, start) == or_else(
            arg_window(args, p, idx, objs, d, start, 0),
            arg_windows(args, p, idx, objs, d, start + 1),
        ));
    } else {
        assert(arg_windows(args, p, idx, objs, d, start) == or_else(
            arg_window(args, p, idx, objs, d, start, 0),
            arg_windows(args, p, idx, objs, d, start + 1),
        ));
    }
}

/// Ordered argument matching that only aligns at the last offset finds it.
pub proof fn lemma_args_align_at_last_offset(args: Vec<Expr>, p: NodePattern, idx: Seq<usize>, objs: ObjectsView, d: nat)
    requires
        0 < idx.len() <= args.len(),
        forall|o: int| 0 <= o < args.len() - idx.len() ==> #[trigger] arg_window(args, p, idx, objs, d, o, 0) == Outcome::No,
        arg_window(args, p, idx, objs, d, args.len() - idx.len(), 0) == Outcome::Yes,
    ensures
        arg_windows(args, p, idx, objs, d, 0) == Outcome::Yes,
{
    lemma_arg_windows_from(args, p, idx, objs, d, 0);
}

/// Whether applying `p` to each method of `list` from position `i` on, and
/// to the methods nested in each, stops the run.
pub open spec fn explore_methods_aborts(list: Vec<MethodComponent>, p: NodePattern, objs: ObjectsView, d: nat, i: int) -> bool
    decreases list, list.len() - i,
{
    if i < 0 || i >= list.len() {
        false
    } else {
        method_o(list[i], p, objs, d) == Outcome::Abort || explore_methods_aborts(list[i].sub_methods, p, objs, d, 0)
            || explore_methods_aborts(list, p, objs, d, i + 1)
    }
}

/// Whether applying `p` to each field of `list` from position `j` on stops the run.
pub open spec fn explore_fields_aborts(list: Seq<FieldComponent>, p: NodePattern, objs: ObjectsView, d: nat, j: int) -> bool
    decreases list.len() - j,
{
    if j < 0 || j >= list.len() {
        false
    } else {
        field_o(list[j], p, objs, d) == Outcome::Abort || explore_fields_aborts(list, p, objs, d, j + 1)
    }
}

/// Whether applying `p` to each class of `list` from position `i` on, and to
/// its fields, constructors and methods, stops the run.
pub open spec fn explore_classes_aborts(list: Seq<ClassOrInterfaceComponent>, p: NodePattern, objs: ObjectsView, d: nat, i: int) -> bool
    decreases list.len() - i,
{
    if i < 0 || i >= list.len() {
        false
    } else {
        let c = list[i];
        class_o(c, p, objs, d) == Outcome::Abort || (match c.field_components {
            Some(fs) => explore_fields_aborts(fs@, p, objs, d, 0),
            None => false,
        }) || (match c.constructors {
            Some(cs) => explore_methods_aborts(cs, p, objs, d, 0),
            None => false,
        }) || explore_methods_aborts(c.component.methods, p, objs, d, 0) || explore_classes_aborts(list, p, objs, d, i + 1)
    }
}

/// Whether applying `p` to every class, interface, field and method of
/// `m` stops the run.
pub open spec fn explore_aborts(m: ModuleComponent, p: NodePattern, objs: ObjectsView, d: nat) -> bool {
    explore_classes_aborts(m.classes@, p, objs, d, 0) || explore_classes_aborts(m.interfaces@, p, objs, d, 0)
        || explore_methods_aborts(m.component.methods, p, objs, d, 0)
}

/// A subpattern lets its parent go on: it was found, or it is not essential.
pub open spec fn lets_go_on(found: Outcome, essential: bool) -> bool {
    found == Outcome::Yes || (found == Outcome::No && !essential)
}

/// When every subpattern of a method pattern is found or is not essential,
/// the subpatterns pass: a missing optional subpattern never fails the method.
pub proof fn lemma_method_optional_subpatterns(m: MethodComponent, p: NodePattern, objs: ObjectsView, d: nat, i: int)
    requires
        0 <= i,
        forall|j: int|
            i <= j < p.subpatterns.len() ==> lets_go_on(
                #[trigger] method_children_o(m, p.subpatterns[j], objs, d),
                p.subpatterns[j].essential,
            ),
    ensures
        method_subs(m, p, objs, d, i) == Outcome::Yes,
    decreases p.subpatterns.len() - i,
{
    if i < p.subpatterns.len() {
        lemma_method_optional_subpatterns(m, p, objs, d, i + 1);
        assert(lets_go_on(method_children_o(m, p.subpatterns[i], objs, d), p.subpatterns[i].essential));
    }
}

/// When every subpattern of a class pattern is found or is not essential,
/// the subpatterns pass.
pub proof fn lemma_class_optional_subpatterns(c: ClassOrInterfaceComponent, p: NodePattern, objs: ObjectsView, d: nat, i: int)
    requires
        0 <= i,
        forall|j: int|
            i <= j < p.subpatterns.len() ==> lets_go_on(
                #[trigger] class_children_o(c, p.subpatterns[j], objs, d),
                p.subpatterns[j].essential,
            ),
    ensures
        class_subs(c, p, objs, d, i) == Outcome::Yes,
    decreases p.subpatterns.len() - i,
{
    if i < p.subpatterns.len() {
        lemma_class_optional_subpatterns(c, p, objs, d, i + 1);
        assert(lets_go_on(class_children_o(c, p.subpatterns[i], objs, d), p.subpatterns[i].essential));
    }
}

/// A method pattern whose texts match the method, whose parameter
/// subpatterns align, and whose other subpatterns are found or optional,
/// matches the method when it is not essential itself, whatever its own
/// binding gives, short of a broken tag.
pub proof fn lemma_method_matches_with_optional_parts(m: MethodComponent, p: NodePattern, objs: ObjectsView, d: nat)
    requires
        enters(p, NodeType::Method, d),
        !p.essential,
        check(p.compiled_pattern, m.method_name@, objs) == Outcome::Yes,
        param_windows(m.parameters@, p, ordered_subpatterns(p, p.subpatterns.len() as int, false), objs, d + 1, 0)
            == Outcome::Yes,
        forall|j: int|
            0 <= j < p.subpatterns.len() ==> lets_go_on(
                #[trigger] method_children_o(m, p.subpatterns[j], objs, d + 1),
                p.subpatterns[j].essential,
            ),
        bind(p.compiled_pattern, m.method_name@, false, objs) != Outcome::Abort,
    ensures
        method_o(m, p, objs, d) == Outcome::Yes,
{
    lemma_method_optional_subpatterns(m, p, objs, d + 1, 0);
    lemma_optional_pattern_never_fails(p.compiled_pattern, m.method_name@, objs, Outcome::Yes);
}

} // verus!
