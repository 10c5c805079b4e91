//! Reflection of compiled shader programs into an owned, self-contained tree,
//! and the padded byte sizes of the types in that tree.

pub mod model;
pub mod program;
pub mod size;
pub mod source;
pub mod translate;
pub mod util;

pub use model::{
    BoundParameter, BoundResource, EntrypointReflection, ProgramReflection, ResourceAccess,
    ScalarType, TextureType, UserAttributeParameter, UserAttributeReflection, VariableReflection,
    VariableReflectionType,
};
pub use program::{bound_resource_from_slang_type, reflect_program, ProgramLayoutReflector};
pub use source::{
    AttributeArgument, AttributeNode, EntryPointNode, FieldNode, ParameterCategory, ProgramLayout,
    ResourceShape, SlangScalarType, TypeKind, TypeLayoutNode, TypeNode, VariableLayoutNode,
};
pub use translate::{parameter_user_attributes, reflection_type_from_slang_type, TranslateError};
pub use util::{unescape, UnescapeError};
