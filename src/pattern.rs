//! Capture patterns: literal text with capture markers `#{name}` and
//! reference markers `#&{name}`, compiled to a regular expression in which
//! each marker becomes a lazy named group.

use vstd::prelude::*;
use crate::context::{resolve, ContextError, ObjectsView, ParserContext, Resolution};
use crate::text::push_char;

verus! {

#[verifier::external_type_specification]
#[verifier::external_body]
pub struct ExRegex(regex::Regex);

#[verifier::external_type_specification]
#[verifier::external_body]
pub struct ExRegexError(regex::Error);

/// Whether the regex crate accepts `src` as a regular expression.
pub uninterp spec fn regex_compiles(src: Seq<char>) -> bool;

/// For the regular expression `src` searched in `text`: `None` when it does
/// not match, else for each of `names` the text of the group of that name,
/// `None` where the group took no part in the match.
pub uninterp spec fn regex_named_groups(
    src: Seq<char>,
    text: Seq<char>,
    names: Seq<Seq<char>>,
) -> Option<Seq<Option<Seq<char>>>>;

/// Characters that may form a variable name.
pub open spec fn is_name_char(c: char) -> bool {
    ('a' <= c && c <= 'z') || ('A' <= c && c <= 'Z') || c == '_' || c == '-'
}

/// Length of the run of name characters of `s` that starts at `p`.
pub open spec fn name_run(s: Seq<char>, p: int) -> nat
    decreases s.len() - p,
{
    if 0 <= p < s.len() && is_name_char(s[p]) {
        1 + name_run(s, p + 1)
    } else {
        0
    }
}

/// The marker that starts at `i`, if one does: whether it is a reference,
/// and the bounds of its name.
pub open spec fn marker_at(s: Seq<char>, i: int) -> Option<(bool, int, int)> {
    let is_ref = i + 1 < s.len() && s[i + 1] == '&';
    let open = if is_ref { i + 2 } else { i + 1 };
    let n = name_run(s, open + 1);
    if 0 <= i < s.len() && s[i] == '#' && open < s.len() && s[open] == '{' && n > 0
        && open + 1 + n < s.len() && s[open + 1 + n] == '}' {
        Some((is_ref, open + 1, open + 1 + n))
    } else {
        None
    }
}

/// The lazy named group that stands for the variable `name`.
pub open spec fn capture_group(name: Seq<char>) -> Seq<char> {
    seq!['(', '?', 'P', '<'] + name + seq!['>', '.', '*', '?', ')']
}

/// What compiling a pattern yields: the regular expression, the variable
/// names in order, and which of them are references.
pub struct Translation {
    pub text: Seq<char>,
    pub vars: Seq<Seq<char>>,
    pub refs: Seq<bool>,
}

/// Translation of `s` from position `i` on, markers taken left to right.
pub open spec fn translate_from(s: Seq<char>, i: int) -> Translation
    decreases s.len() - i,
{
    if i < 0 || i >= s.len() {
        Translation { text: Seq::empty(), vars: Seq::empty(), refs: Seq::empty() }
    } else {
        match marker_at(s, i) {
            Some((is_ref, a, b)) => {
                let rest = translate_from(s, b + 1);
                let name = s.subrange(a, b);
                Translation {
                    text: capture_group(name) + rest.text,
                    vars: seq![name] + rest.vars,
                    refs: seq![is_ref] + rest.refs,
                }
            },
            None => {
                let rest = translate_from(s, i + 1);
                Translation { text: seq![s[i]] + rest.text, vars: rest.vars, refs: rest.refs }
            },
        }
    }
}

/// Translation of a whole pattern.
pub open spec fn translate(s: Seq<char>) -> Translation {
    translate_from(s, 0)
}

/// Why a pattern could not be compiled.
#[derive(Debug, Clone, Copy, PartialEq, Eq, Structural)]
pub enum PatternError {
    /// The regular expression the markers were turned into was refused.
    InvalidRegex,
}

/// A compiled pattern.
pub struct CompiledPattern {
    source: String,
    regex: regex::Regex,
    variables: Vec<String>,
    references: Vec<bool>,
}

impl CompiledPattern {
    /// Each variable has its reference flag.
    #[verifier::type_invariant]
    spec fn flags_match(&self) -> bool {
        self.references.len() == self.variables.len()
    }
}

/// Relies on `regex::Regex::new`: `Ok` exactly for the expressions the
/// regex crate accepts.
#[verifier::external_body]
fn build_regex(src: &str) -> (r: Result<regex::Regex, regex::Error>)
    ensures
        r.is_ok() == regex_compiles(src@),
{
    regex::Regex::new(src)
}

/// View of an optional string.
pub open spec fn opt_view(o: Option<String>) -> Option<Seq<char>> {
    match o {
        Some(s) => Some(s@),
        None => None,
    }
}

/// View of a sequence of optional strings.
pub open spec fn groups_seq(g: Seq<Option<String>>) -> Seq<Option<Seq<char>>> {
    g.map_values(|o: Option<String>| opt_view(o))
}

/// View of a sequence of strings.
pub open spec fn strings_view(v: Seq<String>) -> Seq<Seq<char>> {
    v.map_values(|s: String| s@)
}

/// View of what `regex_groups` hands back.
pub open spec fn groups_view(g: Option<Vec<Option<String>>>) -> Option<Seq<Option<Seq<char>>>> {
    match g {
        Some(v) => Some(groups_seq(v@)),
        None => None,
    }
}

/// Relies on `regex::Regex::captures` and `regex::Captures::name`: searches
/// `text` with the compiled expression, and takes the text of the group of
/// each variable name.
#[verifier::external_body]
fn regex_groups(cp: &CompiledPattern, text: &str) -> (r: Option<Vec<Option<String>>>)
    ensures
        groups_view(r) == regex_named_groups(cp.source(), text@, cp.variable_names()),
        r matches Some(v) ==> v.len() == cp.variable_names().len(),
{
    match cp.regex.captures(text) {
        Some(caps) => Some(
            cp.variables.iter().map(|n| caps.name(n.as_str()).map(|m| m.as_str().to_string())).collect(),
        ),
        None => None,
    }
}

/// Whether `c` may appear in a variable name.
fn name_char(c: char) -> (r: bool)
    ensures
        r == is_name_char(c),
{
    ('a' <= c && c <= 'z') || ('A' <= c && c <= 'Z') || c == '_' || c == '-'
}

/// The end of the run of name characters of `s` that starts at `p`.
fn name_run_end(s: &str, n: usize, p: usize) -> (r: usize)
    requires
        n == s@.len(),
        p <= n,
    ensures
        r == p + name_run(s@, p as int),
        r <= n,
{
    let mut q = p;
    while q < n && name_char(s.get_char(q))
        invariant
            p <= q <= n,
            n == s@.len(),
            name_run(s@, p as int) == (q - p) + name_run(s@, q as int),
        decreases n - q,
    {
        q += 1;
    }
    q
}

/// The marker starting at `i`, as `marker_at` has it.
fn find_marker(s: &str, n: usize, i: usize) -> (r: Option<(bool, usize, usize)>)
    requires
        n == s@.len(),
        i < n,
    ensures
        match marker_at(s@, i as int) {
            Some((is_ref, a, b)) => r == Some((is_ref, a as usize, b as usize)),
            None => r.is_none(),
        },
{
    if s.get_char(i) != '#' {
        return None;
    }
    let is_ref = i + 1 < n && s.get_char(i + 1) == '&';
    let open = if is_ref { i + 2 } else { i + 1 };
    if open >= n || s.get_char(open) != '{' {
        return None;
    }
    let end = name_run_end(s, n, open + 1);
    if end == open + 1 || end >= n || s.get_char(end) != '}' {
        return None;
    }
    Some((is_ref, open + 1, end))
}

/// Concatenation of two translations, part by part.
pub open spec fn join(a: Translation, b: Translation) -> Translation {
    Translation { text: a.text + b.text, vars: a.vars + b.vars, refs: a.refs + b.refs }
}

/// Appends a string literal.
fn append_lit(out: &mut String, lit: &str)
    ensures
        final(out)@ == old(out)@ + lit@,
{
    out.append(lit);
}

impl CompiledPattern {
    /// The regular expression the pattern was turned into.
    pub closed spec fn source(&self) -> Seq<char> {
        self.source@
    }

    /// The variable names, in the order their markers appear.
    pub closed spec fn variable_names(&self) -> Seq<Seq<char>> {
        strings_view(self.variables@)
    }

    /// For each variable, whether its marker was a reference marker.
    pub closed spec fn reference_flags(&self) -> Seq<bool> {
        self.references@
    }

    /// Compiles `pattern`: each marker becomes a lazy named group, the rest is
    /// kept as it stands; fails when the regex crate refuses the result.
    pub fn from_pattern(pattern: &str) -> (r: Result<CompiledPattern, PatternError>)
        ensures
            r.is_ok() == regex_compiles(translate(pattern@).text),
            r matches Ok(cp) ==> {
                &&& cp.source() == translate(pattern@).text
                &&& cp.variable_names() == translate(pattern@).vars
                &&& cp.reference_flags() == translate(pattern@).refs
            },
    {
        let n = pattern.unicode_len();
        let mut out = String::new();
        let mut variables: Vec<String> = Vec::new();
        let mut references: Vec<bool> = Vec::new();
        let mut i: usize = 0;
        let ghost s = pattern@;
        while i < n
            invariant
                n == s.len(),
                s == pattern@,
                i <= n,
                variables.len() == references.len(),
                join(
                    Translation {
                        text: out@,
                        vars: strings_view(variables@),
                        refs: references@,
                    },
                    translate_from(s, i as int),
                ) == translate(s),
            decreases n - i,
        {
            let ghost before = Translation {
                text: out@,
                vars: strings_view(variables@),
                refs: references@,
            };
            let ghost i0 = i as int;
            match find_marker(pattern, n, i) {
                Some((is_ref, a, b)) => {
                    let name = pattern.substring_char(a, b);
                    proof {
                        reveal_strlit("(?P<");
                        reveal_strlit(">.*?)");
                    }
                    append_lit(&mut out, "(?P<");
                    append_lit(&mut out, name);
                    append_lit(&mut out, ">.*?)");
                    variables.push(name.to_string());
                    references.push(is_ref);
                    i = b + 1;
                    proof {
                        let rest = translate_from(s, i as int);
                        let here = translate_from(s, i0);
                        assert(here.text == capture_group(name@) + rest.text);
                        assert(here.vars == seq![name@] + rest.vars);
                        assert(here.refs == seq![is_ref] + rest.refs);
                        assert(out@ =~= before.text + capture_group(name@));
                        assert(strings_view(variables@) =~= before.vars + seq![name@]);
                        assert(references@ =~= before.refs + seq![is_ref]);
                        assert(before.text + capture_group(name@) + rest.text =~= before.text + (capture_group(name@) + rest.text));
                        assert(before.vars + seq![name@] + rest.vars =~= before.vars + (seq![name@] + rest.vars));
                        assert(before.refs + seq![is_ref] + rest.refs =~= before.refs + (seq![is_ref] + rest.refs));
                        let cur = Translation {
                            text: out@,
                            vars: strings_view(variables@),
                            refs: references@,
                        };
                        assert(join(cur, rest).text =~= join(before, here).text);
                        assert(join(cur, rest).vars =~= join(before, here).vars);
                        assert(join(cur, rest).refs =~= join(before, here).refs);
                        assert(join(cur, rest) == join(before, here));
                    }
                },
                None => {
                    let c = pattern.get_char(i);
                    push_char(&mut out, c);
                    i = i + 1;
                    proof {
                        let rest = translate_from(s, i as int);
                        let here = translate_from(s, i0);
                        assert(here.text == seq![c] + rest.text);
                        assert(here.vars == rest.vars);
                        assert(here.refs == rest.refs);
                        assert(before.text + seq![c] + rest.text =~= before.text + (seq![c] + rest.text));
                        let cur = Translation {
                            text: out@,
                            vars: strings_view(variables@),
                            refs: references@,
                        };
                        assert(join(cur, rest).text =~= join(before, here).text);
                        assert(join(cur, rest).vars =~= join(before, here).vars);
                        assert(join(cur, rest).refs =~= join(before, here).refs);
                        assert(join(cur, rest) == join(before, here));
                    }
                },
            }
        }
        proof {
            assert(out@ + Seq::<char>::empty() =~= out@);
            assert(strings_view(variables@) + Seq::<Seq<char>>::empty() =~= strings_view(variables@));
            assert(references@ + Seq::<bool>::empty() =~= references@);
        }
        match build_regex(out.as_str()) {
            Ok(regex) => Ok(CompiledPattern { source: out, regex, variables, references }),
            Err(_) => Err(PatternError::InvalidRegex),
        }
    }
}

/// The names among the first `n` of `names` whose flag is set, in order.
pub open spec fn reference_names(names: Seq<Seq<char>>, refs: Seq<bool>, n: int) -> Seq<Seq<char>>
    decreases n,
{
    if n <= 0 {
        Seq::empty()
    } else {
        let before = reference_names(names, refs, n - 1);
        if refs[n - 1] {
            before.push(names[n - 1])
        } else {
            before
        }
    }
}

/// The `j`-th captured group, `None` past the end.
pub open spec fn group_at(groups: Seq<Option<Seq<char>>>, j: int) -> Option<Seq<char>> {
    if 0 <= j < groups.len() {
        groups[j]
    } else {
        None
    }
}

/// What checking the reference variables decides.
pub enum RefVerdict {
    /// Every reference names an object.
    Pass,
    /// No match, or a reference that names no object.
    Miss,
    /// Resolving the captured name hit a broken tag or a cycle.
    Abort(Resolution, Seq<char>),
}

/// Checks the references from position `j` on, in order: each captured
/// text must resolve to an object.
pub open spec fn ref_verdict(objs: ObjectsView, groups: Seq<Option<Seq<char>>>, refs: Seq<bool>, j: int) -> RefVerdict
    decreases refs.len() - j,
{
    if j < 0 || j >= refs.len() {
        RefVerdict::Pass
    } else if !refs[j] {
        ref_verdict(objs, groups, refs, j + 1)
    } else {
        match group_at(groups, j) {
            None => RefVerdict::Miss,
            Some(t) => match resolve(objs, t, objs.len()) {
                Resolution::Found(_) => ref_verdict(objs, groups, refs, j + 1),
                Resolution::Absent => RefVerdict::Miss,
                res => RefVerdict::Abort(res, t),
            },
        }
    }
}

/// The verdict on a search result: no match is a miss.
pub open spec fn match_verdict(objs: ObjectsView, groups: Option<Seq<Option<Seq<char>>>>, refs: Seq<bool>) -> RefVerdict {
    match groups {
        None => RefVerdict::Miss,
        Some(g) => ref_verdict(objs, g, refs, 0),
    }
}

/// Among no objects nothing resolves to a broken tag or a cycle, so no
/// check aborts.
pub proof fn lemma_no_abort_without_objects(groups: Option<Seq<Option<Seq<char>>>>, refs: Seq<bool>)
    ensures
        !(match_verdict(ObjectsView::empty(), groups, refs) is Abort),
{
    if let Some(g) = groups {
        lemma_ref_verdict_no_abort(g, refs, 0);
    }
}

proof fn lemma_ref_verdict_no_abort(groups: Seq<Option<Seq<char>>>, refs: Seq<bool>, j: int)
    ensures
        !(ref_verdict(ObjectsView::empty(), groups, refs, j) is Abort),
    decreases refs.len() - j,
{
    if 0 <= j < refs.len() {
        lemma_ref_verdict_no_abort(groups, refs, j + 1);
    }
}

/// `e` is the error that `get_obj` gives for resolution `res` of `name`.
pub open spec fn error_for(e: ContextError, res: Resolution, name: Seq<char>) -> bool {
    match res {
        Resolution::Broken(k) => e matches ContextError::BrokenTag(t) && t@ == k,
        Resolution::Exhausted => e matches ContextError::TagCycle(t) && t@ == name,
        _ => false,
    }
}

/// `r` reports verdict `v`.
pub open spec fn reports(v: RefVerdict, r: Result<bool, ContextError>) -> bool {
    match v {
        RefVerdict::Pass => r == Ok::<bool, ContextError>(true),
        RefVerdict::Miss => r == Ok::<bool, ContextError>(false),
        RefVerdict::Abort(res, name) => r matches Err(e) && error_for(e, res, name),
    }
}

/// Local variables after binding each of `names` from position `j` on to
/// its captured text, in order; names whose group took no part are skipped.
pub open spec fn bind_groups(
    locals: Map<Seq<char>, Seq<char>>,
    names: Seq<Seq<char>>,
    groups: Seq<Option<Seq<char>>>,
    j: int,
) -> Map<Seq<char>, Seq<char>>
    decreases names.len() - j,
{
    if j < 0 || j >= names.len() {
        locals
    } else {
        let next = match group_at(groups, j) {
            Some(t) => locals.insert(names[j], t),
            None => locals,
        };
        bind_groups(next, names, groups, j + 1)
    }
}

fn group_text(groups: &Vec<Option<String>>, j: usize) -> (r: Option<&String>)
    ensures
        match group_at(groups_seq(groups@), j as int) {
            Some(t) => r matches Some(s) && s@ == t,
            None => r.is_none(),
        },
{
    if j < groups.len() {
        match &groups[j] {
            Some(t) => Some(t),
            None => None,
        }
    } else {
        None
    }
}

impl CompiledPattern {
    /// The regular expression the pattern was turned into.
    pub fn as_str(&self) -> (r: &str)
        ensures
            r@ == self.source(),
    {
        self.source.as_str()
    }

    /// The variable names, in the order their markers appear.
    pub fn variables(&self) -> (r: Vec<String>)
        ensures
            strings_view(r@) == self.variable_names(),
    {
        let mut r: Vec<String> = Vec::new();
        let mut j: usize = 0;
        while j < self.variables.len()
            invariant
                j <= self.variables.len(),
                r.len() == j,
                strings_view(r@) == self.variable_names().take(j as int),
            decreases self.variables.len() - j,
        {
            let v = self.variables[j].clone();
            let ghost prev = r@;
            r.push(v);
            j += 1;
            assert forall|k: int| 0 <= k < j implies #[trigger] strings_view(r@)[k] == strings_view(self.variables@)[k] by {
                if k < j - 1 {
                    assert(r@[k] == prev[k]);
                    assert(strings_view(prev)[k] == self.variable_names().take(j - 1)[k]);
                }
            }
            assert(strings_view(r@) =~= strings_view(self.variables@).take(j as int));
        }
        assert(self.variable_names().take(j as int) =~= self.variable_names());
        r
    }

    /// The names of the reference variables, in order.
    pub fn reference_vars(&self) -> (r: Vec<String>)
        ensures
            strings_view(r@) == reference_names(self.variable_names(), self.reference_flags(), self.variable_names().len() as int),
    {
        proof {
            use_type_invariant(self);
        }
        let mut r: Vec<String> = Vec::new();
        let mut j: usize = 0;
        while j < self.variables.len()
            invariant
                j <= self.variables.len(),
                self.references.len() == self.variables.len(),
                strings_view(r@) == reference_names(self.variable_names(), self.reference_flags(), j as int),
            decreases self.variables.len() - j,
        {
            if self.references[j] {
                r.push(self.variables[j].clone());
            }
            j += 1;
            assert(strings_view(r@) =~= reference_names(self.variable_names(), self.reference_flags(), j as int));
        }
        r
    }

    /// Checks the reference variables of a search result against the
    /// objects of `ctx`.
    pub fn matches_groups(&self, groups: &Option<Vec<Option<String>>>, ctx: &ParserContext) -> (r: Result<bool, ContextError>)
        ensures
            reports(match_verdict(ctx.objects(), groups_view(*groups), self.reference_flags()), r),
    {
        let g = match groups {
            Some(g) => g,
            None => {
                return Ok(false);
            },
        };
        let ghost gv = groups_seq(g@);
        let ghost objs = ctx.objects();
        let ghost refs = self.reference_flags();
        assert(match_verdict(objs, groups_view(*groups), refs) == ref_verdict(objs, gv, refs, 0));
        let mut j: usize = 0;
        while j < self.references.len()
            invariant
                j <= self.references.len(),
                refs == self.references@,
                objs == ctx.objects(),
                gv == groups_seq(g@),
                ref_verdict(objs, gv, refs, 0) == ref_verdict(objs, gv, refs, j as int),
                match_verdict(objs, groups_view(*groups), refs) == ref_verdict(objs, gv, refs, 0),
            decreases self.references.len() - j,
        {
            if self.references[j] {
                match group_text(g, j) {
                    None => {
                        assert(group_at(gv, j as int).is_none());
                        assert(ref_verdict(objs, gv, refs, j as int) == RefVerdict::Miss);
                        return Ok(false);
                    },
                    Some(t) => match ctx.get_obj(t.as_str()) {
                        Ok(Some(_)) => {},
                        Ok(None) => {
                            return Ok(false);
                        },
                        Err(e) => {
                            return Err(e);
                        },
                    },
                }
            }
            j += 1;
        }
        Ok(true)
    }

    /// Checks a search result as `matches_groups` does and, when it passes,
    /// binds each variable to its captured text as a local variable.
    pub fn insert_groups(&self, groups: &Option<Vec<Option<String>>>, ctx: &mut ParserContext) -> (r: Result<bool, ContextError>)
        ensures
            reports(match_verdict(old(ctx).objects(), groups_view(*groups), self.reference_flags()), r),
            final(ctx).objects() == old(ctx).objects(),
            final(ctx).depth() == old(ctx).depth(),
            old(ctx).locals().dom().subset_of(final(ctx).locals().dom()),
            final(ctx).locals() == match (r, groups_view(*groups)) {
                (Ok(true), Some(g)) => bind_groups(old(ctx).locals(), self.variable_names(), g, 0),
                _ => old(ctx).locals(),
            },
    {
        let checked = self.matches_groups(groups, ctx);
        match checked {
            Ok(true) => {},
            _ => {
                return checked;
            },
        }
        let g = match groups {
            Some(g) => g,
            None => {
                return Ok(false);
            },
        };
        let ghost gv = groups_seq(g@);
        let ghost names = self.variable_names();
        let ghost start = ctx.locals();
        let mut j: usize = 0;
        while j < self.variables.len()
            invariant
                j <= self.variables.len(),
                names == self.variable_names(),
                names.len() == self.variables.len(),
                gv == groups_seq(g@),
                bind_groups(start, names, gv, 0) == bind_groups(ctx.locals(), names, gv, j as int),
                ctx.objects() == old(ctx).objects(),
                ctx.depth() == old(ctx).depth(),
                start == old(ctx).locals(),
                start.dom().subset_of(ctx.locals().dom()),
            decreases self.variables.len() - j,
        {
            match group_text(g, j) {
                Some(t) => {
                    assert(names[j as int] == self.variables@[j as int]@);
                    ctx.make_variable(self.variables[j].as_str(), t.as_str());
                },
                None => {},
            }
            j += 1;
        }
        Ok(true)
    }

    /// Whether `text` matches the pattern, references aside.
    pub fn primitive_matches(&self, text: &str) -> (r: bool)
        ensures
            r == regex_named_groups(self.source(), text@, self.variable_names()) is Some,
    {
        regex_groups(self, text).is_some()
    }

    /// Whether `text` matches the pattern and each reference variable names
    /// an object of `ctx`.
    pub fn matches(&self, text: &str, ctx: &ParserContext) -> (r: Result<bool, ContextError>)
        ensures
            reports(
                match_verdict(
                    ctx.objects(),
                    regex_named_groups(self.source(), text@, self.variable_names()),
                    self.reference_flags(),
                ),
                r,
            ),
    {
        let groups = regex_groups(self, text);
        self.matches_groups(&groups, ctx)
    }

    /// As `matches`, and on success binds every variable to the text it
    /// captured, as a local variable of `ctx`.
    pub fn match_and_insert(&self, text: &str, ctx: &mut ParserContext) -> (r: Result<bool, ContextError>)
        ensures
            reports(
                match_verdict(
                    old(ctx).objects(),
                    regex_named_groups(self.source(), text@, self.variable_names()),
                    self.reference_flags(),
                ),
                r,
            ),
            final(ctx).objects() == old(ctx).objects(),
            final(ctx).depth() == old(ctx).depth(),
            old(ctx).locals().dom().subset_of(final(ctx).locals().dom()),
            final(ctx).locals() == match (r, regex_named_groups(self.source(), text@, self.variable_names())) {
                (Ok(true), Some(g)) => bind_groups(old(ctx).locals(), self.variable_names(), g, 0),
                _ => old(ctx).locals(),
            },
    {
        let groups = regex_groups(self, text);
        self.insert_groups(&groups, ctx)
    }
}

} // verus!
