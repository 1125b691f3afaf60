//! Merge of the partial trees found for one logical module.

use vstd::prelude::*;
use crate::model::{
    AccessorType, ClassOrInterfaceComponent, ComponentInfo, ContainerStereotype, MethodComponent, MethodParamComponent,
    ModuleComponent,
};
use crate::text::{is_prefix, starts_with, str_eq};

verus! {

/// What the merge reads and writes of a module.
pub struct ModuleView {
    pub name: Seq<char>,
    pub path: Seq<char>,
    pub info: ComponentInfo,
    pub accessor: AccessorType,
    pub stereotype: ContainerStereotype,
    pub container_name: Seq<char>,
    pub line_count: usize,
    pub classes: Seq<ClassOrInterfaceComponent>,
    pub interfaces: Seq<ClassOrInterfaceComponent>,
    pub methods: Seq<MethodComponent>,
}

pub open spec fn module_view(m: ModuleComponent) -> ModuleView {
    ModuleView {
        name: m.module_name@,
        path: m.path@,
        info: m.component.component,
        accessor: m.component.accessor,
        stereotype: m.component.stereotype,
        container_name: m.component.container_name@,
        line_count: m.component.line_count,
        classes: m.classes@,
        interfaces: m.interfaces@,
        methods: m.component.methods@,
    }
}

pub open spec fn modules_view(ms: Seq<ModuleComponent>) -> Seq<ModuleView> {
    ms.map_values(|m: ModuleComponent| module_view(m))
}

/// Name and type of each parameter, in order.
pub open spec fn param_sigs(ps: Seq<MethodParamComponent>) -> Seq<(Seq<char>, Seq<char>)> {
    ps.map_values(|p: MethodParamComponent| (p.parameter_name@, p.parameter_type@))
}

/// Class `c` declares `k` with the name of free method `f`, plain or
/// qualified by the class name and `::`, and with the same parameters.
pub open spec fn declares_same(c: ClassOrInterfaceComponent, k: MethodComponent, f: MethodComponent) -> bool {
    &&& (k.method_name@ == f.method_name@ || f.method_name@ == c.component.container_name@ + seq![':', ':']
        + k.method_name@)
    &&& param_sigs(k.parameters@) == param_sigs(f.parameters@)
}

/// Class `c` claims free method `f`: the name of `f` starts with the class
/// name and the class already declares that method.
pub open spec fn claims(c: ClassOrInterfaceComponent, f: MethodComponent) -> bool {
    &&& is_prefix(c.component.container_name@, f.method_name@)
    &&& exists|k: int| 0 <= k < c.component.methods@.len() && declares_same(c, #[trigger] c.component.methods@[k], f)
}

/// Some class of `classes` claims `f`.
pub open spec fn claimed(f: MethodComponent, classes: Seq<ClassOrInterfaceComponent>) -> bool {
    exists|i: int| 0 <= i < classes.len() && claims(#[trigger] classes[i], f)
}

/// The first `n` free methods, without those that a class claims.
pub open spec fn unclaimed(methods: Seq<MethodComponent>, classes: Seq<ClassOrInterfaceComponent>, n: int) -> Seq<MethodComponent>
    decreases n,
{
    if n <= 0 {
        Seq::empty()
    } else {
        let before = unclaimed(methods, classes, n - 1);
        if claimed(methods[n - 1], classes) {
            before
        } else {
            before.push(methods[n - 1])
        }
    }
}

/// Position of the first module named `name`, from `k` on; -1 if none.
pub open spec fn find_module(acc: Seq<ModuleView>, name: Seq<char>, k: int) -> int
    decreases acc.len() - k,
{
    if k < 0 || k >= acc.len() {
        -1
    } else if acc[k].name == name {
        k
    } else {
        find_module(acc, name, k + 1)
    }
}

/// `a`, everything else of it kept, with the classes, interfaces and free
/// methods of `b` appended.
pub open spec fn absorb(a: ModuleView, b: ModuleView) -> ModuleView {
    ModuleView {
        classes: a.classes + b.classes,
        interfaces: a.interfaces + b.interfaces,
        methods: a.methods + b.methods,
        ..a
    }
}

/// One step of the fold: join `m` to the module of its name, or add it.
pub open spec fn fold_step(acc: Seq<ModuleView>, m: ModuleView) -> Seq<ModuleView> {
    let i = find_module(acc, m.name, 0);
    if i < 0 {
        acc.push(m)
    } else {
        acc.update(i, absorb(acc[i], m))
    }
}

/// Folds `ms` left to right into `acc`.
pub open spec fn fold_modules(acc: Seq<ModuleView>, ms: Seq<ModuleView>) -> Seq<ModuleView>
    decreases ms.len(),
{
    if ms.len() == 0 {
        acc
    } else {
        fold_modules(fold_step(acc, ms[0]), ms.drop_first())
    }
}

/// Drops from `m` the free methods that one of its classes claims.
pub open spec fn rehome(m: ModuleView) -> ModuleView {
    ModuleView { methods: unclaimed(m.methods, m.classes, m.methods.len() as int), ..m }
}

/// The merge of `ms`.
pub open spec fn merged(ms: Seq<ModuleView>) -> Seq<ModuleView> {
    fold_modules(Seq::empty(), ms).map_values(|m: ModuleView| rehome(m))
}

proof fn lemma_unclaimed_free(methods: Seq<MethodComponent>, classes: Seq<ClassOrInterfaceComponent>, n: int, j: int)
    requires
        0 <= j < unclaimed(methods, classes, n).len(),
    ensures
        !claimed(unclaimed(methods, classes, n)[j], classes),
    decreases n,
{
    if n > 0 {
        let before = unclaimed(methods, classes, n - 1);
        if j < before.len() {
            lemma_unclaimed_free(methods, classes, n - 1, j);
            if !claimed(methods[n - 1], classes) {
                assert(unclaimed(methods, classes, n)[j] == before[j]);
            }
        }
    }
}

/// After the merge, no module keeps among its free methods one that one of
/// its classes already declares.
pub proof fn lemma_merged_keeps_no_claimed(ms: Seq<ModuleView>, i: int, j: int)
    requires
        0 <= i < merged(ms).len(),
        0 <= j < merged(ms)[i].methods.len(),
    ensures
        !claimed(merged(ms)[i].methods[j], merged(ms)[i].classes),
{
    let m = fold_modules(Seq::empty(), ms)[i];
    assert(merged(ms)[i] == rehome(m));
    lemma_unclaimed_free(m.methods, m.classes, m.methods.len() as int, j);
}

fn same_params(a: &Vec<MethodParamComponent>, b: &Vec<MethodParamComponent>) -> (r: bool)
    ensures
        r == (param_sigs(a@) == param_sigs(b@)),
{
    if a.len() != b.len() {
        assert(param_sigs(a@).len() != param_sigs(b@).len());
        return false;
    }
    let mut i: usize = 0;
    while i < a.len()
        invariant
            a.len() == b.len(),
            i <= a.len(),
            forall|j: int| 0 <= j < i ==> #[trigger] param_sigs(a@)[j] == param_sigs(b@)[j],
        decreases a.len() - i,
    {
        if !str_eq(a[i].parameter_name.as_str(), b[i].parameter_name.as_str())
            || !str_eq(a[i].parameter_type.as_str(), b[i].parameter_type.as_str()) {
            assert(param_sigs(a@)[i as int] != param_sigs(b@)[i as int]);
            return false;
        }
        i += 1;
    }
    assert(param_sigs(a@) =~= param_sigs(b@));
    true
}

fn declares_same_exec(c: &ClassOrInterfaceComponent, k: &MethodComponent, f: &MethodComponent) -> (r: bool)
    ensures
        r == declares_same(*c, *k, *f),
{
    let plain = str_eq(k.method_name.as_str(), f.method_name.as_str());
    let mut qualified = c.component.container_name.clone();
    proof {
        reveal_strlit("::");
    }
    qualified.append("::");
    qualified.append(k.method_name.as_str());
    let q = str_eq(qualified.as_str(), f.method_name.as_str());
    assert(qualified@ == c.component.container_name@ + seq![':', ':'] + k.method_name@);
    (plain || q) && same_params(&k.parameters, &f.parameters)
}

fn class_claims(c: &ClassOrInterfaceComponent, f: &MethodComponent) -> (r: bool)
    ensures
        r == claims(*c, *f),
{
    if !starts_with(f.method_name.as_str(), c.component.container_name.as_str()) {
        return false;
    }
    let mut k: usize = 0;
    while k < c.component.methods.len()
        invariant
            k <= c.component.methods.len(),
            is_prefix(c.component.container_name@, f.method_name@),
            forall|j: int| 0 <= j < k ==> !declares_same(*c, #[trigger] c.component.methods@[j], *f),
        decreases c.component.methods.len() - k,
    {
        if declares_same_exec(c, &c.component.methods[k], f) {
            assert(declares_same(*c, c.component.methods@[k as int], *f));
            return true;
        }
        k += 1;
    }
    false
}

fn is_claimed(f: &MethodComponent, classes: &Vec<ClassOrInterfaceComponent>) -> (r: bool)
    ensures
        r == claimed(*f, classes@),
{
    let mut i: usize = 0;
    while i < classes.len()
        invariant
            i <= classes.len(),
            forall|j: int| 0 <= j < i ==> !claims(#[trigger] classes@[j], *f),
        decreases classes.len() - i,
    {
        if class_claims(&classes[i], f) {
            return true;
        }
        i += 1;
    }
    false
}

/// Drops from the free methods of `module` those that one of its classes
/// already declares.
fn rehome_methods(module: &mut ModuleComponent)
    ensures
        module_view(*final(module)) == rehome(module_view(*old(module))),
{
    let mut methods: Vec<MethodComponent> = Vec::new();
    std::mem::swap(&mut module.component.methods, &mut methods);
    let ghost all = methods@;
    let n0 = methods.len();
    assert(all.len() == n0);
    let mut kept: Vec<MethodComponent> = Vec::new();
    let mut j: usize = 0;
    while methods.len() > 0
        invariant
            j <= all.len(),
            all.len() <= usize::MAX,
            methods@ == all.skip(j as int),
            kept@ == unclaimed(all, module.classes@, j as int),
            module.classes@ == old(module).classes@,
            module.module_name == old(module).module_name,
            module.path == old(module).path,
            module.interfaces == old(module).interfaces,
        decreases methods.len(),
    {
        assert(all.skip(j as int).len() == all.len() - j);
        let f = methods.remove(0);
        assert(f == all[j as int]);
        if !is_claimed(&f, &module.classes) {
            kept.push(f);
        }
        j += 1;
        assert(methods@ =~= all.skip(j as int));
    }
    assert(j == all.len()) by {
        assert(all.skip(j as int).len() == 0);
    }
    module.component.methods = kept;
}

fn find_module_exec(acc: &Vec<ModuleComponent>, name: &String) -> (r: Option<usize>)
    ensures
        match r {
            Some(i) => i < acc.len() && i == find_module(modules_view(acc@), name@, 0),
            None => find_module(modules_view(acc@), name@, 0) == -1,
        },
{
    let ghost v = modules_view(acc@);
    let mut k: usize = 0;
    while k < acc.len()
        invariant
            k <= acc.len(),
            v == modules_view(acc@),
            find_module(v, name@, 0) == find_module(v, name@, k as int),
        decreases acc.len() - k,
    {
        if str_eq(acc[k].module_name.as_str(), name.as_str()) {
            return Some(k);
        }
        k += 1;
    }
    None
}

/// Coalesces modules of the same name, left to right: a later module's
/// classes, interfaces and free methods are appended to the first module of
/// its name. Then, in every module, a free method is dropped when a class
/// whose name prefixes it already declares it with the same parameters.
pub fn merge_modules(modules: Vec<ModuleComponent>) -> (r: Vec<ModuleComponent>)
    ensures
        modules_view(r@) == merged(modules_view(modules@)),
{
    let ghost all = modules_view(modules@);
    let mut rest = modules;
    let mut merged: Vec<ModuleComponent> = Vec::new();
    let ghost mut taken: int = 0;
    assert(modules_view(merged@) =~= Seq::<ModuleView>::empty());
    assert(all.skip(0) =~= all);
    while rest.len() > 0
        invariant
            0 <= taken <= all.len(),
            modules_view(rest@) == all.skip(taken),
            fold_modules(modules_view(merged@), modules_view(rest@)) == fold_modules(Seq::empty(), all),
        decreases rest.len(),
    {
        let ghost before = modules_view(merged@);
        let ghost rv = modules_view(rest@);
        let mut module = rest.remove(0);
        assert(rv[0] == module_view(module));
        assert(modules_view(rest@) =~= rv.drop_first());
        match find_module_exec(&merged, &module.module_name) {
            Some(i) => {
                let mut target = merged.remove(i);
                target.classes.append(&mut module.classes);
                target.interfaces.append(&mut module.interfaces);
                target.component.methods.append(&mut module.component.methods);
                merged.insert(i, target);
                assert(modules_view(merged@) =~= fold_step(before, rv[0]));
            },
            None => {
                merged.push(module);
                assert(modules_view(merged@) =~= fold_step(before, rv[0]));
            },
        }
        proof {
            taken = taken + 1;
            assert(modules_view(rest@) =~= all.skip(taken));
        }
    }
    assert(modules_view(rest@) =~= Seq::<ModuleView>::empty());
    let ghost folded = modules_view(merged@);
    assert(folded.skip(0) =~= folded);
    let mut out: Vec<ModuleComponent> = Vec::new();
    assert(modules_view(out@) =~= folded.take(0).map_values(|m: ModuleView| rehome(m)));
    let ghost mut done: int = 0;
    while merged.len() > 0
        invariant
            0 <= done <= folded.len(),
            modules_view(merged@) == folded.skip(done),
            modules_view(out@) == folded.take(done).map_values(|m: ModuleView| rehome(m)),
        decreases merged.len(),
    {
        let ghost mv = modules_view(merged@);
        let ghost ov = modules_view(out@);
        let mut module = merged.remove(0);
        assert(mv[0] == module_view(module));
        assert(modules_view(merged@) =~= mv.drop_first());
        assert(mv[0] == folded[done]);
        rehome_methods(&mut module);
        out.push(module);
        assert(modules_view(out@) =~= ov.push(rehome(folded[done])));
        proof {
            done = done + 1;
            assert(modules_view(merged@) =~= folded.skip(done));
            assert(modules_view(out@) =~= folded.take(done).map_values(|m: ModuleView| rehome(m)));
        }
    }
    assert(folded.take(done) =~= folded);
    out
}

} // verus!
