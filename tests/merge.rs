use ressa::merge::merge_modules;
use ressa::model::{
    AccessorType, ClassOrInterfaceComponent, ComponentInfo, ContainerComponent, ContainerStereotype,
    ContainerType, InstanceType, MethodComponent, MethodParamComponent, ModuleComponent,
};

fn info(name: &str, kind: InstanceType) -> ComponentInfo {
    ComponentInfo {
        path: "src/lib.cpp".to_string(),
        package_name: "pkg".to_string(),
        instance_name: name.to_string(),
        instance_type: kind,
    }
}

fn param(name: &str, ty: &str) -> MethodParamComponent {
    MethodParamComponent {
        component: info(name, InstanceType::AnalysisComponent),
        annotation: None,
        parameter_name: name.to_string(),
        parameter_type: ty.to_string(),
    }
}

fn method(name: &str, parameters: Vec<MethodParamComponent>) -> MethodComponent {
    MethodComponent {
        component: info(name, InstanceType::MethodComponent),
        accessor: AccessorType::Default,
        method_name: name.to_string(),
        return_type: "void".to_string(),
        parameters,
        is_static: false,
        is_abstract: false,
        sub_methods: vec![],
        annotations: vec![],
        line_count: 0,
        line_begin: 0,
        line_end: 0,
        body: None,
    }
}

fn class(name: &str, methods: Vec<MethodComponent>) -> ClassOrInterfaceComponent {
    ClassOrInterfaceComponent {
        component: ContainerComponent {
            component: info(name, InstanceType::ClassComponent),
            accessor: AccessorType::Default,
            stereotype: ContainerStereotype::Entity,
            methods,
            container_name: name.to_string(),
            line_count: 0,
        },
        declaration_type: ContainerType::Class,
        annotations: vec![],
        stereotype: ContainerStereotype::Entity,
        constructors: None,
        field_components: None,
    }
}

fn module(name: &str, classes: Vec<ClassOrInterfaceComponent>, free: Vec<MethodComponent>) -> ModuleComponent {
    let mut m = ModuleComponent::new(name.to_string(), "src".to_string());
    m.classes = classes;
    m.component.methods = free;
    m
}

fn free_names(m: &ModuleComponent) -> Vec<String> {
    m.component.methods.iter().map(|f| f.method_name.clone()).collect()
}

#[test]
fn claimed_free_method_is_dropped() {
    let m = module("foo", vec![class("Foo", vec![method("bar", vec![])])], vec![method("Foo::bar", vec![])]);
    let merged = merge_modules(vec![m]);
    assert_eq!(merged.len(), 1);
    assert!(!free_names(&merged[0]).contains(&"Foo::bar".to_string()));
}

#[test]
fn free_method_with_other_parameters_stays() {
    let m = module(
        "foo",
        vec![class("Foo", vec![method("bar", vec![])])],
        vec![method("Foo::bar", vec![param("x", "int")]), method("helper", vec![])],
    );
    let merged = merge_modules(vec![m]);
    assert_eq!(free_names(&merged[0]), vec!["Foo::bar".to_string(), "helper".to_string()]);
}

#[test]
fn modules_of_one_name_are_joined() {
    let a = module("net", vec![class("Socket", vec![])], vec![method("open", vec![])]);
    let b = module("io", vec![], vec![method("read", vec![])]);
    let c = module("net", vec![class("Server", vec![])], vec![method("close", vec![])]);
    let merged = merge_modules(vec![a, b, c]);
    assert_eq!(merged.len(), 2);
    assert_eq!(merged[0].module_name, "net");
    assert_eq!(merged[0].classes.len(), 2);
    assert_eq!(free_names(&merged[0]), vec!["open".to_string(), "close".to_string()]);
    assert_eq!(merged[1].module_name, "io");
}

#[test]
fn parts_merged_from_two_files_are_claimed() {
    let a = module("foo", vec![class("Foo", vec![method("bar", vec![param("n", "int")])])], vec![]);
    let b = module("foo", vec![], vec![method("Foo::bar", vec![param("n", "int")]), method("Foo::baz", vec![])]);
    let merged = merge_modules(vec![a, b]);
    assert_eq!(merged.len(), 1);
    assert_eq!(free_names(&merged[0]), vec!["Foo::baz".to_string()]);
}

#[test]
fn empty_input_gives_empty_output() {
    assert!(merge_modules(vec![]).is_empty());
}
