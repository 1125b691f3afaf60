//! The component model: modules, classes and interfaces, methods, fields,
//! parameters and annotations, and the finer-grained body nodes of methods.

use vstd::prelude::*;

verus! {

/// Which kind of entity a `ComponentInfo` decorates.
#[derive(Debug, Clone, Copy, PartialEq, Eq, Structural)]
pub enum InstanceType {
    ClassComponent,
    InterfaceComponent,
    AnnotationComponent,
    MethodComponent,
    ModuleComponent,
    DirectoryComponent,
    AnalysisComponent,
    FieldComponent,
    ImportComponent,
}

/// Classification of a container.
#[derive(Debug, Clone, Copy, PartialEq, Eq, Structural)]
pub enum ContainerStereotype {
    Fabricated,
    Controlled,
    Service,
    Response,
    Entity,
    Repository,
    Bean,
    Module,
}

/// Declaration kind of a container.
#[derive(Debug, Clone, Copy, PartialEq, Eq, Structural)]
pub enum ContainerType {
    Class,
    Module,
    Interface,
}

/// Visibility of a member.
#[derive(Debug, Clone, Copy, PartialEq, Eq, Structural)]
pub enum AccessorType {
    Private,
    Public,
    Protected,
    Default,
}

/// Source language of a file.
#[derive(Debug, Clone, Copy, PartialEq, Eq, Structural)]
pub enum LanguageFileType {
    Java,
    Cpp,
    Python,
    Go,
    Unknown,
}

/// Classification of a module.
#[derive(Debug, Clone, Copy, PartialEq, Eq, Structural)]
pub enum ModuleStereotype {
    Fabricated,
    Controller,
    Service,
    Response,
    Entity,
    Repository,
}

/// Metadata shared by every entity.
#[derive(Debug, Clone)]
pub struct ComponentInfo {
    pub path: String,
    pub package_name: String,
    pub instance_name: String,
    pub instance_type: InstanceType,
}

/// A key and value inside an annotation.
#[derive(Debug, Clone)]
pub struct AnnotationValuePair {
    pub key: String,
    pub value: String,
}

/// An annotation with its value and key/value pairs.
#[derive(Debug, Clone)]
pub struct AnnotationComponent {
    pub name: String,
    pub value: String,
    pub key_value_pairs: Vec<AnnotationValuePair>,
}

/// One parameter of a method.
#[derive(Debug, Clone)]
pub struct MethodParamComponent {
    pub component: ComponentInfo,
    pub annotation: Option<Vec<AnnotationComponent>>,
    pub parameter_name: String,
    pub parameter_type: String,
}

/// A field of a class or interface.
#[derive(Debug, Clone)]
pub struct FieldComponent {
    pub component: ComponentInfo,
    pub annotations: Vec<AnnotationComponent>,
    pub variables: Vec<String>,
    pub field_name: String,
    pub field_type: String,
    pub accessor: AccessorType,
    pub is_static: bool,
    pub is_final: bool,
}

/// An identifier in a method body.
#[derive(Debug, Clone)]
pub struct Ident {
    pub name: String,
}

/// A literal in a method body.
#[derive(Debug, Clone)]
pub struct Literal {
    pub value: String,
}

/// A declared variable in a method body.
#[derive(Debug, Clone)]
pub struct VarDecl {
    pub var_type: Option<String>,
    pub ident: Ident,
    pub annotation: Vec<AnnotationComponent>,
    pub is_final: Option<bool>,
    pub is_static: Option<bool>,
}

/// A declaration statement: variables and the expressions they are set to.
#[derive(Debug)]
pub struct DeclStmt {
    pub variables: Vec<VarDecl>,
    pub expressions: Vec<Expr>,
}

/// A call: what is called and its arguments.
#[derive(Debug)]
pub struct CallExpr {
    pub name: Box<Expr>,
    pub args: Vec<Expr>,
}

/// A member selection, `expr.selected`.
#[derive(Debug)]
pub struct DotExpr {
    pub expr: Box<Expr>,
    pub selected: Box<Expr>,
}

/// An expression of a method body.
#[derive(Debug)]
pub enum Expr {
    Ident(Ident),
    Literal(Literal),
    CallExpr(CallExpr),
    DotExpr(DotExpr),
    VarDecl(VarDecl),
}

/// A statement of a method body.
#[derive(Debug)]
pub enum Stmt {
    DeclStmt(DeclStmt),
    ExprStmt(Expr),
}

/// A method, with its signature and an optional parsed body.
#[derive(Debug)]
pub struct MethodComponent {
    pub component: ComponentInfo,
    pub accessor: AccessorType,
    pub method_name: String,
    pub return_type: String,
    pub parameters: Vec<MethodParamComponent>,
    pub is_static: bool,
    pub is_abstract: bool,
    pub sub_methods: Vec<MethodComponent>,
    pub annotations: Vec<AnnotationComponent>,
    pub line_count: usize,
    pub line_begin: usize,
    pub line_end: usize,
    pub body: Option<Vec<Stmt>>,
}

/// What every container has: a name and its methods.
#[derive(Debug)]
pub struct ContainerComponent {
    pub component: ComponentInfo,
    pub accessor: AccessorType,
    pub stereotype: ContainerStereotype,
    pub methods: Vec<MethodComponent>,
    pub container_name: String,
    pub line_count: usize,
}

/// A class or an interface.
#[derive(Debug)]
pub struct ClassOrInterfaceComponent {
    pub component: ContainerComponent,
    pub declaration_type: ContainerType,
    pub annotations: Vec<AnnotationComponent>,
    pub stereotype: ContainerStereotype,
    pub constructors: Option<Vec<MethodComponent>>,
    pub field_components: Option<Vec<FieldComponent>>,
}

/// A file or namespace: its classes, interfaces and free methods.
#[derive(Debug)]
pub struct ModuleComponent {
    pub component: ContainerComponent,
    pub module_name: String,
    pub path: String,
    pub classes: Vec<ClassOrInterfaceComponent>,
    pub interfaces: Vec<ClassOrInterfaceComponent>,
}

/// The information of an entity of the given kind.
pub fn component_info(path: String, package_name: String, instance_name: String, instance_type: InstanceType) -> (r: ComponentInfo)
    ensures
        r.path == path,
        r.package_name == package_name,
        r.instance_name == instance_name,
        r.instance_type == instance_type,
{
    ComponentInfo { path, package_name, instance_name, instance_type }
}

impl ModuleComponent {
    /// An empty module named `module_name` found at `path`.
    pub fn new(module_name: String, path: String) -> (r: ModuleComponent)
        ensures
            r.module_name@ == module_name@,
            r.path@ == path@,
            r.classes@.len() == 0,
            r.interfaces@.len() == 0,
            r.component.methods@.len() == 0,
            r.component.container_name@ == module_name@,
    {
        let info = ComponentInfo {
            path: path.clone(),
            package_name: module_name.clone(),
            instance_name: module_name.clone(),
            instance_type: InstanceType::ModuleComponent,
        };
        ModuleComponent {
            component: ContainerComponent {
                component: info,
                accessor: AccessorType::Default,
                stereotype: ContainerStereotype::Module,
                methods: Vec::new(),
                container_name: module_name.clone(),
                line_count: 0,
            },
            module_name,
            path,
            classes: Vec::new(),
            interfaces: Vec::new(),
        }
    }
}

} // verus!
