//! The owned reflection tree that translation produces.
use std::collections::HashMap;
use vstd::prelude::*;

verus! {

/// The scalar kinds that a translated type may hold.
#[derive(Debug, Clone, Copy, PartialEq, Eq, Structural)]
pub enum ScalarType {
    Int8,
    Uint8,
    Int16,
    Uint16,
    Float16,
    Int32,
    Uint32,
    Float32,
    Int64,
    Uint64,
    Float64,
}

/// Dimensionality of a texture binding.
#[derive(Debug, Clone, Copy, PartialEq, Eq, Structural)]
pub enum TextureType {
    Dim1,
    Dim2,
    Dim3,
    Cube,
}

/// How a shader may access a bound resource.
#[derive(Debug, Clone, Copy, PartialEq, Eq, Structural)]
pub enum ResourceAccess {
    NoAccess,
    Read,
    ReadWrite,
    RasterOrdered,
    Append,
    Consume,
    Write,
    Feedback,
    Unknown,
}

/// One positional argument of a user attribute. A floating-point argument is
/// kept as its IEEE-754 bit pattern.
#[derive(Debug, Clone)]
pub enum UserAttributeParameter {
    String(String),
    Int(i32),
    Float(u32),
}

/// A named annotation attached to a declaration, with its arguments in order.
#[derive(Debug, Clone)]
pub struct UserAttributeReflection {
    pub name: String,
    pub parameters: Vec<UserAttributeParameter>,
}

/// A node of the translated type tree.
#[derive(Debug)]
pub enum VariableReflectionType {
    Struct {
        name: String,
        props: Vec<(String, VariableReflectionType)>,
        user_attributes: Vec<UserAttributeReflection>,
    },
    Scalar(ScalarType),
    Vector(ScalarType, usize),
    Array(Box<VariableReflectionType>, usize),
}

impl Clone for VariableReflectionType {
    fn clone(&self) -> (r: Self)
        decreases self,
    {
        match self {
            VariableReflectionType::Struct { name, props, user_attributes } => {
                let mut copied: Vec<(String, VariableReflectionType)> = Vec::new();
                let mut i: usize = 0;
                while i < props.len()
                    invariant
                        0 <= i <= props.len(),
                        *self matches VariableReflectionType::Struct { props: ps, .. } && ps
                            == props,
                    decreases props.len() - i,
                {
                    copied.push((props[i].0.clone(), props[i].1.clone()));
                    i = i + 1;
                }
                VariableReflectionType::Struct {
                    name: name.clone(),
                    props: copied,
                    user_attributes: user_attributes.clone(),
                }
            },
            VariableReflectionType::Scalar(k) => VariableReflectionType::Scalar(*k),
            VariableReflectionType::Vector(k, n) => VariableReflectionType::Vector(*k, *n),
            VariableReflectionType::Array(e, n) => {
                let inner: &VariableReflectionType = e;
                VariableReflectionType::Array(Box::new(inner.clone()), *n)
            },
        }
    }
}

/// A resource that occupies a binding slot.
#[derive(Debug, Clone)]
pub enum BoundResource {
    StructuredBuffer { resource_result: VariableReflectionType, resource_access: ResourceAccess },
    Sampler,
    Texture {
        tex_type: TextureType,
        resource_result: VariableReflectionType,
        /// The compiler's image-format code.
        format: u32,
        resource_access: ResourceAccess,
    },
}

/// How a global parameter is bound.
#[derive(Debug, Clone)]
pub enum BoundParameter {
    Uniform { uniform_offset: usize, resource_result: VariableReflectionType },
    Resource { resource: BoundResource, binding_index: u32 },
}

/// One global shader parameter.
#[derive(Debug, Clone)]
pub struct VariableReflection {
    pub name: String,
    pub reflection_type: BoundParameter,
    pub user_attributes: Vec<UserAttributeReflection>,
}

/// One entry point, with the attributes of its function.
#[derive(Debug, Clone)]
pub struct EntrypointReflection {
    pub name: String,
    pub user_attributes: Vec<UserAttributeReflection>,
}

/// The translated program.
#[derive(Debug, Clone)]
pub struct ProgramReflection {
    pub variables: Vec<VariableReflection>,
    pub entry_points: Vec<EntrypointReflection>,
    pub hashed_strings: HashMap<u32, String>,
}

/// The value of a user-attribute argument.
pub enum ParamView {
    String(Seq<char>),
    Int(i32),
    Float(u32),
}

/// The value of a user attribute.
pub struct AttrView {
    pub name: Seq<char>,
    pub parameters: Seq<ParamView>,
}

/// The value of a translated type node.
pub enum Shape {
    Struct { name: Seq<char>, props: Seq<(Seq<char>, Shape)>, attrs: Seq<AttrView> },
    Scalar(ScalarType),
    Vector(ScalarType, nat),
    Array(Box<Shape>, nat),
}

/// The value of a bound resource.
pub enum ResourceView {
    StructuredBuffer { result: Shape, access: ResourceAccess },
    Sampler,
    Texture { tex_type: TextureType, result: Shape, format: u32, access: ResourceAccess },
}

/// The value of a parameter binding.
pub enum BoundView {
    Uniform { offset: usize, result: Shape },
    Resource { resource: ResourceView, binding_index: u32 },
}

/// The value of a global parameter.
pub struct VariableView {
    pub name: Seq<char>,
    pub bound: BoundView,
    pub attrs: Seq<AttrView>,
}

/// The value of an entry point.
pub struct EntryView {
    pub name: Seq<char>,
    pub attrs: Seq<AttrView>,
}

/// The value of a translated program.
pub struct ProgramView {
    pub variables: Seq<VariableView>,
    pub entry_points: Seq<EntryView>,
    pub hashed_strings: Map<u32, Seq<char>>,
}

pub open spec fn param_view(p: UserAttributeParameter) -> ParamView {
    match p {
        UserAttributeParameter::String(s) => ParamView::String(s@),
        UserAttributeParameter::Int(i) => ParamView::Int(i),
        UserAttributeParameter::Float(f) => ParamView::Float(f),
    }
}

pub open spec fn attr_view(a: UserAttributeReflection) -> AttrView {
    AttrView {
        name: a.name@,
        parameters: a.parameters@.map_values(|p: UserAttributeParameter| param_view(p)),
    }
}

pub open spec fn attrs_view(s: Seq<UserAttributeReflection>) -> Seq<AttrView> {
    s.map_values(|a: UserAttributeReflection| attr_view(a))
}

/// The value of a translated type node.
pub open spec fn shape_of(t: VariableReflectionType) -> Shape
    decreases t, crate::size::prop_count(t) + 1,
{
    match t {
        VariableReflectionType::Struct { name, user_attributes, .. } => Shape::Struct {
            name: name@,
            props: props_shapes(t, crate::size::prop_count(t)),
            attrs: attrs_view(user_attributes@),
        },
        VariableReflectionType::Scalar(k) => Shape::Scalar(k),
        VariableReflectionType::Vector(k, c) => Shape::Vector(k, c as nat),
        VariableReflectionType::Array(e, c) => Shape::Array(Box::new(shape_of(*e)), c as nat),
    }
}

/// The values of the first `n` fields of a struct node.
pub open spec fn props_shapes(t: VariableReflectionType, n: nat) -> Seq<(Seq<char>, Shape)>
    decreases t, n,
{
    match t {
        VariableReflectionType::Struct { props, .. } => {
            if n == 0 || n > props.len() {
                Seq::empty()
            } else {
                props_shapes(t, (n - 1) as nat).push((props[n - 1].0@, shape_of(props[n - 1].1)))
            }
        },
        _ => Seq::empty(),
    }
}

/// The values of a sequence of named fields.
pub open spec fn props_view(ps: Seq<(String, VariableReflectionType)>) -> Seq<(Seq<char>, Shape)> {
    ps.map_values(|p: (String, VariableReflectionType)| (p.0@, shape_of(p.1)))
}

pub open spec fn resource_view(r: BoundResource) -> ResourceView {
    match r {
        BoundResource::StructuredBuffer { resource_result, resource_access } =>
            ResourceView::StructuredBuffer {
            result: shape_of(resource_result),
            access: resource_access,
        },
        BoundResource::Sampler => ResourceView::Sampler,
        BoundResource::Texture { tex_type, resource_result, format, resource_access } =>
            ResourceView::Texture {
            tex_type,
            result: shape_of(resource_result),
            format,
            access: resource_access,
        },
    }
}

pub open spec fn bound_view(b: BoundParameter) -> BoundView {
    match b {
        BoundParameter::Uniform { uniform_offset, resource_result } => BoundView::Uniform {
            offset: uniform_offset,
            result: shape_of(resource_result),
        },
        BoundParameter::Resource { resource, binding_index } => BoundView::Resource {
            resource: resource_view(resource),
            binding_index,
        },
    }
}

pub open spec fn variable_view(v: VariableReflection) -> VariableView {
    VariableView {
        name: v.name@,
        bound: bound_view(v.reflection_type),
        attrs: attrs_view(v.user_attributes@),
    }
}

pub open spec fn entry_view(e: EntrypointReflection) -> EntryView {
    EntryView { name: e.name@, attrs: attrs_view(e.user_attributes@) }
}

/// The strings of a hash table, by key.
pub open spec fn strings_view(m: Map<u32, String>) -> Map<u32, Seq<char>> {
    Map::new(|k: u32| m.dom().contains(k), |k: u32| m[k]@)
}

pub open spec fn program_view(p: ProgramReflection) -> ProgramView {
    ProgramView {
        variables: p.variables@.map_values(|v: VariableReflection| variable_view(v)),
        entry_points: p.entry_points@.map_values(|e: EntrypointReflection| entry_view(e)),
        hashed_strings: strings_view(p.hashed_strings@),
    }
}

/// A struct node's value is its name, the values of its fields in order, and
/// its attributes.
pub proof fn lemma_struct_shape(t: VariableReflectionType)
    requires
        t is Struct,
    ensures
        shape_of(t) == (Shape::Struct {
            name: t->name@,
            props: props_view(t->props@),
            attrs: attrs_view(t->user_attributes@),
        }),
{
    let n = crate::size::prop_count(t);
    lemma_props_shapes_prefix(t, n);
    assert(t->props@.take(n as int) == t->props@);
}

proof fn lemma_props_shapes_prefix(t: VariableReflectionType, n: nat)
    requires
        t is Struct,
        n <= crate::size::prop_count(t),
    ensures
        props_shapes(t, n) == props_view(t->props@.take(n as int)),
    decreases n,
{
    if n > 0 {
        lemma_props_shapes_prefix(t, (n - 1) as nat);
        assert(props_view(t->props@.take(n as int)) == props_view(
            t->props@.take(n - 1),
        ).push((t->props@[n - 1].0@, shape_of(t->props@[n - 1].1))));
    } else {
        assert(props_view(t->props@.take(0)) == Seq::<(Seq<char>, Shape)>::empty());
    }
}

} // verus!
