//! The compiler's reflection graph, held as plain values: the input of
//! translation.
use vstd::prelude::*;

verus! {

/// The compiler's discriminant for the shape of a type.
#[derive(Debug, Clone, Copy, PartialEq, Eq, Structural)]
pub enum TypeKind {
    Unspecified,
    Struct,
    Array,
    Matrix,
    Vector,
    Scalar,
    ConstantBuffer,
    Resource,
    SamplerState,
    TextureBuffer,
    ShaderStorageBuffer,
    ParameterBlock,
    GenericTypeParameter,
    Interface,
    OutputStream,
    MeshOutput,
    Specialized,
    Feedback,
    Pointer,
    DynamicResource,
    Count,
}

/// The compiler's scalar kinds.
#[derive(Debug, Clone, Copy, PartialEq, Eq, Structural)]
pub enum SlangScalarType {
    Unspecified,
    Void,
    Bool,
    Int32,
    Uint32,
    Int64,
    Uint64,
    Float16,
    Float32,
    Float64,
    Int8,
    Uint8,
    Int16,
    Uint16,
    Intptr,
    Uintptr,
}

/// The compiler's resource shapes; every shape that translation does not
/// handle is `Other`, holding the compiler's own code for it (flags included),
/// so that an error can name it.
#[derive(Debug, Clone, Copy, PartialEq, Eq, Structural)]
pub enum ResourceShape {
    Texture1d,
    Texture2d,
    Texture3d,
    TextureCube,
    StructuredBuffer,
    Other(u32),
}

/// How a parameter is supplied: inline uniform data, or anything else.
#[derive(Debug, Clone, Copy, PartialEq, Eq, Structural)]
pub enum ParameterCategory {
    Uniform,
    Other,
}

/// One positional argument of a user attribute, with the answer of each of
/// the compiler's three probes (a float as its IEEE-754 bits).
#[derive(Debug, Clone)]
pub struct AttributeArgument {
    pub as_string: Option<String>,
    pub as_int: Option<i32>,
    pub as_float_bits: Option<u32>,
}

/// A user attribute as the compiler reports it.
#[derive(Debug, Clone)]
pub struct AttributeNode {
    pub name: String,
    pub arguments: Vec<AttributeArgument>,
}

/// A type node without layout.
#[derive(Debug)]
pub struct TypeNode {
    pub kind: TypeKind,
    pub name: Option<String>,
    /// Struct fields, in declaration order.
    pub fields: Vec<FieldNode>,
    /// Element type of arrays, vectors and structured buffers.
    pub element_type: Option<Box<TypeNode>>,
    pub element_count: usize,
    pub scalar_type: SlangScalarType,
    pub resource_shape: ResourceShape,
    /// Sample type of textures.
    pub resource_result_type: Option<Box<TypeNode>>,
    pub user_attributes: Vec<AttributeNode>,
}

/// A named field of a struct type.
#[derive(Debug)]
pub struct FieldNode {
    pub name: String,
    pub ty: TypeNode,
}

/// A type node with its layout for the compilation target.
#[derive(Debug)]
pub struct TypeLayoutNode {
    pub kind: TypeKind,
    /// The type this layout describes.
    pub ty: Box<TypeNode>,
    /// Layouts of the fields, in declaration order.
    pub fields: Vec<VariableLayoutNode>,
    pub element_type_layout: Option<Box<TypeLayoutNode>>,
    pub resource_access: Option<crate::model::ResourceAccess>,
}

/// A laid-out variable: a global parameter or a struct field.
#[derive(Debug)]
pub struct VariableLayoutNode {
    pub name: String,
    pub category: ParameterCategory,
    /// Byte offset inside the implicit constant buffer.
    pub uniform_offset: usize,
    pub binding_index: u32,
    /// The compiler's image-format code.
    pub image_format: u32,
    pub type_layout: Box<TypeLayoutNode>,
    pub user_attributes: Vec<AttributeNode>,
}

/// An entry point with the attributes of its function.
#[derive(Debug, Clone)]
pub struct EntryPointNode {
    pub name: String,
    pub user_attributes: Vec<AttributeNode>,
}

/// What the compiler reports of a linked program.
#[derive(Debug)]
pub struct ProgramLayout {
    pub global_params: TypeLayoutNode,
    /// Entry points in the compiler's order.
    pub entry_points: Vec<EntryPointNode>,
    /// The hashed-string table: each string with the compiler's hash of it.
    pub hashed_strings: Vec<(u32, String)>,
}

} // verus!
