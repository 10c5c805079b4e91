//! Translation of a whole program: its global parameters, entry points and
//! hashed-string table.
use crate::model::{
    bound_view, entry_view, program_view, strings_view, variable_view, BoundParameter, BoundResource,
    BoundView, EntrypointReflection, EntryView, ProgramReflection, ProgramView, ResourceView,
    TextureType, VariableReflection, VariableView,
};
use crate::source::{
    EntryPointNode, ParameterCategory, ProgramLayout, ResourceShape, TypeKind, TypeLayoutNode,
    TypeNode, VariableLayoutNode,
};
use crate::translate::{
    atomic_free, translated_types_are_atomic_free, attrs_spec, laid_spec, parameter_user_attributes, plain_spec, reflection_type_from_slang_type,
    TranslateError,
};
use std::collections::HashMap;
use vstd::prelude::*;

verus! {

broadcast use vstd::std_specs::hash::group_hash_axioms;

/// The texture dimensionality of a resource shape, if it is a texture.
pub open spec fn tex_type_of(s: ResourceShape) -> Option<TextureType> {
    match s {
        ResourceShape::Texture1d => Some(TextureType::Dim1),
        ResourceShape::Texture2d => Some(TextureType::Dim2),
        ResourceShape::Texture3d => Some(TextureType::Dim3),
        ResourceShape::TextureCube => Some(TextureType::Cube),
        _ => None,
    }
}

/// Translation of a top-level parameter of type `ty` laid out as `var`.
/// Uniform-category parameters keep their offset whatever their type; the
/// others are bound resources, told apart by the shape of their type.
pub open spec fn bound_spec(ty: TypeNode, var: VariableLayoutNode) -> Result<
    BoundView,
    TranslateError,
> {
    if var.category == ParameterCategory::Uniform {
        match laid_spec(ty, *var.type_layout) {
            Ok(s) => Ok(BoundView::Uniform { offset: var.uniform_offset, result: s }),
            Err(e) => Err(e),
        }
    } else {
        match ty.kind {
            TypeKind::Resource => if ty.resource_shape == ResourceShape::StructuredBuffer {
                match ty.element_type {
                    None => Err(TranslateError::MissingData),
                    Some(e) => {
                        let r = match var.type_layout.element_type_layout {
                            Some(el) => laid_spec(*e, *el),
                            None => plain_spec(*e),
                        };
                        match r {
                            Err(err) => Err(err),
                            Ok(s) => match var.type_layout.resource_access {
                                None => Err(TranslateError::MissingData),
                                Some(a) => Ok(
                                    BoundView::Resource {
                                        resource: ResourceView::StructuredBuffer {
                                            result: s,
                                            access: a,
                                        },
                                        binding_index: var.binding_index,
                                    },
                                ),
                            },
                        }
                    },
                }
            } else {
                match tex_type_of(ty.resource_shape) {
                    None => Err(TranslateError::UnsupportedResourceShape(ty.resource_shape)),
                    Some(tex) => match ty.resource_result_type {
                        None => Err(TranslateError::MissingData),
                        Some(rt) => match plain_spec(*rt) {
                            Err(err) => Err(err),
                            Ok(s) => match var.type_layout.resource_access {
                                None => Err(TranslateError::MissingData),
                                Some(a) => Ok(
                                    BoundView::Resource {
                                        resource: ResourceView::Texture {
                                            tex_type: tex,
                                            result: s,
                                            format: var.image_format,
                                            access: a,
                                        },
                                        binding_index: var.binding_index,
                                    },
                                ),
                            },
                        },
                    },
                }
            },
            TypeKind::SamplerState => Ok(
                BoundView::Resource { resource: ResourceView::Sampler, binding_index: var.binding_index },
            ),
            k => Err(TranslateError::UnsupportedTopLevel(k)),
        }
    }
}

pub open spec fn bound_result(r: Result<BoundParameter, TranslateError>) -> Result<
    BoundView,
    TranslateError,
> {
    match r {
        Ok(b) => Ok(bound_view(b)),
        Err(e) => Err(e),
    }
}

fn resource_shape_to_tex_type(shape: ResourceShape) -> (r: Option<TextureType>)
    ensures
        r == tex_type_of(shape),
{
    match shape {
        ResourceShape::Texture1d => Some(TextureType::Dim1),
        ResourceShape::Texture2d => Some(TextureType::Dim2),
        ResourceShape::Texture3d => Some(TextureType::Dim3),
        ResourceShape::TextureCube => Some(TextureType::Cube),
        _ => None,
    }
}

/// Translates one top-level parameter of type `ty` laid out as `var`.
pub fn bound_resource_from_slang_type(ty: &TypeNode, var: &VariableLayoutNode) -> (r: Result<
    BoundParameter,
    TranslateError,
>)
    ensures
        bound_result(r) == bound_spec(*ty, *var),
{
    if var.category == ParameterCategory::Uniform {
        return match reflection_type_from_slang_type(ty, Some(&var.type_layout)) {
            Ok(t) => Ok(
                BoundParameter::Uniform { uniform_offset: var.uniform_offset, resource_result: t },
            ),
            Err(e) => Err(e),
        };
    }
    match ty.kind {
        TypeKind::Resource => {
            if ty.resource_shape == ResourceShape::StructuredBuffer {
                match &ty.element_type {
                    None => Err(TranslateError::MissingData),
                    Some(e) => {
                        let layout: Option<&TypeLayoutNode> =
                            match &var.type_layout.element_type_layout {
                            Some(el) => Some(el),
                            None => None,
                        };
                        match reflection_type_from_slang_type(e, layout) {
                            Err(err) => Err(err),
                            Ok(t) => match var.type_layout.resource_access {
                                None => Err(TranslateError::MissingData),
                                Some(a) => Ok(
                                    BoundParameter::Resource {
                                        resource: BoundResource::StructuredBuffer {
                                            resource_result: t,
                                            resource_access: a,
                                        },
                                        binding_index: var.binding_index,
                                    },
                                ),
                            },
                        }
                    },
                }
            } else {
                match resource_shape_to_tex_type(ty.resource_shape) {
                    None => Err(TranslateError::UnsupportedResourceShape(ty.resource_shape)),
                    Some(tex) => match &ty.resource_result_type {
                        None => Err(TranslateError::MissingData),
                        Some(rt) => match reflection_type_from_slang_type(rt, None) {
                            Err(err) => Err(err),
                            Ok(t) => match var.type_layout.resource_access {
                                None => Err(TranslateError::MissingData),
                                Some(a) => Ok(
                                    BoundParameter::Resource {
                                        resource: BoundResource::Texture {
                                            tex_type: tex,
                                            resource_result: t,
                                            format: var.image_format,
                                            resource_access: a,
                                        },
                                        binding_index: var.binding_index,
                                    },
                                ),
                            },
                        },
                    },
                }
            }
        },
        TypeKind::SamplerState => Ok(
            BoundParameter::Resource {
                resource: BoundResource::Sampler,
                binding_index: var.binding_index,
            },
        ),
        k => Err(TranslateError::UnsupportedTopLevel(k)),
    }
}

/// Translation of one global parameter.
pub open spec fn variable_spec(v: VariableLayoutNode) -> Result<VariableView, TranslateError> {
    match bound_spec(*v.type_layout.ty, v) {
        Ok(b) => Ok(VariableView { name: v.name@, bound: b, attrs: attrs_spec(v.user_attributes@) }),
        Err(e) => Err(e),
    }
}

/// Translation of the first `n` global parameters; the first failing one
/// decides the error.
pub open spec fn variables_spec(fields: Seq<VariableLayoutNode>, n: nat) -> Result<
    Seq<VariableView>,
    TranslateError,
>
    decreases n,
{
    if n == 0 || n > fields.len() {
        Ok(Seq::empty())
    } else {
        match variables_spec(fields, (n - 1) as nat) {
            Err(e) => Err(e),
            Ok(vs) => match variable_spec(fields[n - 1]) {
                Err(e) => Err(e),
                Ok(v) => Ok(vs.push(v)),
            },
        }
    }
}

/// The layout whose fields are the global parameters: the global layout
/// itself, or its element when it is the implicit constant-buffer wrapper.
pub open spec fn parameter_block(p: ProgramLayout) -> Option<TypeLayoutNode> {
    if p.global_params.kind == TypeKind::ConstantBuffer {
        match p.global_params.element_type_layout {
            Some(l) => Some(*l),
            None => None,
        }
    } else {
        Some(p.global_params)
    }
}

pub open spec fn entry_spec(e: EntryPointNode) -> EntryView {
    EntryView { name: e.name@, attrs: attrs_spec(e.user_attributes@) }
}

/// The hashed-string table: each string under its hash, a later entry
/// replacing an earlier one under the same hash.
pub open spec fn hash_table_spec(entries: Seq<(u32, String)>) -> Map<u32, Seq<char>>
    decreases entries.len(),
{
    if entries.len() == 0 {
        Map::empty()
    } else {
        hash_table_spec(entries.drop_last()).insert(entries.last().0, entries.last().1@)
    }
}

/// Translation of a whole program.
pub open spec fn program_spec(p: ProgramLayout) -> Result<ProgramView, TranslateError> {
    match parameter_block(p) {
        None => Err(TranslateError::MissingData),
        Some(block) => match variables_spec(block.fields@, block.fields.len() as nat) {
            Err(e) => Err(e),
            Ok(vars) => Ok(
                ProgramView {
                    variables: vars,
                    entry_points: p.entry_points@.map_values(|e: EntryPointNode| entry_spec(e)),
                    hashed_strings: hash_table_spec(p.hashed_strings@),
                },
            ),
        },
    }
}

pub open spec fn program_result(r: Result<ProgramReflection, TranslateError>) -> Result<
    ProgramView,
    TranslateError,
> {
    match r {
        Ok(p) => Ok(program_view(p)),
        Err(e) => Err(e),
    }
}

proof fn lemma_variables_err(fields: Seq<VariableLayoutNode>, k: nat, n: nat)
    requires
        k <= n <= fields.len(),
        variables_spec(fields, k) is Err,
    ensures
        variables_spec(fields, n) == variables_spec(fields, k),
    decreases n,
{
    if k < n {
        lemma_variables_err(fields, k, (n - 1) as nat);
    }
}

fn reflect_variables(block: &TypeLayoutNode) -> (r: Result<Vec<VariableReflection>, TranslateError>)
    ensures
        (match r {
            Ok(vs) => Ok(vs@.map_values(|v: VariableReflection| variable_view(v))),
            Err(e) => Err(e),
        }) == variables_spec(block.fields@, block.fields.len() as nat),
{
    let mut variables: Vec<VariableReflection> = Vec::new();
    assert(variables@.map_values(|v: VariableReflection| variable_view(v)) =~= Seq::empty());
    let mut i: usize = 0;
    while i < block.fields.len()
        invariant
            0 <= i <= block.fields.len(),
            variables_spec(block.fields@, i as nat) == Ok::<_, TranslateError>(
                variables@.map_values(|v: VariableReflection| variable_view(v)),
            ),
        decreases block.fields.len() - i,
    {
        let parameter: &VariableLayoutNode = &block.fields[i];
        match bound_resource_from_slang_type(&parameter.type_layout.ty, parameter) {
            Err(e) => {
                proof {
                    assert(variables_spec(block.fields@, (i + 1) as nat) == Err::<
                        Seq<VariableView>,
                        TranslateError,
                    >(e));
                    lemma_variables_err(
                        block.fields@,
                        (i + 1) as nat,
                        block.fields.len() as nat,
                    );
                }
                return Err(e);
            },
            Ok(reflection_type) => {
                let user_attributes = parameter_user_attributes(&parameter.user_attributes);
                let v = VariableReflection {
                    name: parameter.name.clone(),
                    reflection_type,
                    user_attributes,
                };
                let ghost prev = variables@;
                let ghost vv = variable_view(v);
                variables.push(v);
                proof {
                    assert(variables@.map_values(|v: VariableReflection| variable_view(v))
                        =~= prev.map_values(|v: VariableReflection| variable_view(v)).push(vv));
                }
            },
        }
        i = i + 1;
    }
    Ok(variables)
}

fn reflect_entry_points(entry_points: &Vec<EntryPointNode>) -> (r: Vec<EntrypointReflection>)
    ensures
        r@.map_values(|e: EntrypointReflection| entry_view(e)) == entry_points@.map_values(
            |e: EntryPointNode| entry_spec(e),
        ),
{
    let mut out: Vec<EntrypointReflection> = Vec::new();
    let mut i: usize = 0;
    while i < entry_points.len()
        invariant
            0 <= i <= entry_points.len(),
            out@.map_values(|e: EntrypointReflection| entry_view(e)) == entry_points@.take(
                i as int,
            ).map_values(|e: EntryPointNode| entry_spec(e)),
        decreases entry_points.len() - i,
    {
        let entry_point = &entry_points[i];
        let e = EntrypointReflection {
            name: entry_point.name.clone(),
            user_attributes: parameter_user_attributes(&entry_point.user_attributes),
        };
        let ghost prev = out@;
        let ghost ev = entry_view(e);
        out.push(e);
        proof {
            assert(out@.map_values(|e: EntrypointReflection| entry_view(e)) =~= prev.map_values(
                |e: EntrypointReflection| entry_view(e),
            ).push(ev));
            assert(entry_points@.take(i + 1).map_values(|e: EntryPointNode| entry_spec(e))
                =~= entry_points@.take(i as int).map_values(|e: EntryPointNode| entry_spec(e)).push(
                entry_spec(entry_points@[i as int]),
            ));
        }
        i = i + 1;
    }
    proof {
        assert(entry_points@.take(i as int) == entry_points@);
    }
    out
}

fn reflect_hashed_strings(entries: &Vec<(u32, String)>) -> (r: HashMap<u32, String>)
    ensures
        strings_view(r@) == hash_table_spec(entries@),
{
    let mut table: HashMap<u32, String> = HashMap::new();
    let mut i: usize = 0;
    assert(strings_view(table@) =~= Map::empty());
    while i < entries.len()
        invariant
            0 <= i <= entries.len(),
            strings_view(table@) == hash_table_spec(entries@.take(i as int)),
        decreases entries.len() - i,
    {
        let (hash, s) = &entries[i];
        let ghost prev = table@;
        table.insert(*hash, s.clone());
        proof {
            assert(entries@.take(i + 1).drop_last() == entries@.take(i as int));
            assert(strings_view(table@) =~= strings_view(prev).insert(*hash, s@));
        }
        i = i + 1;
    }
    proof {
        assert(entries@.take(i as int) == entries@);
    }
    table
}

/// Translates a program: its global parameters in declaration order, its
/// entry points in the compiler's order, and its hashed-string table.
pub fn reflect_program(program: &ProgramLayout) -> (r: Result<ProgramReflection, TranslateError>)
    ensures
        program_result(r) == program_spec(*program),
{
    let global = &program.global_params;
    let block: &TypeLayoutNode = if global.kind == TypeKind::ConstantBuffer {
        match &global.element_type_layout {
            Some(l) => l,
            None => {
                return Err(TranslateError::MissingData);
            },
        }
    } else {
        global
    };
    let variables = match reflect_variables(block) {
        Ok(vs) => vs,
        Err(e) => {
            return Err(e);
        },
    };
    let entry_points = reflect_entry_points(&program.entry_points);
    let hashed_strings = reflect_hashed_strings(&program.hashed_strings);
    Ok(ProgramReflection { variables, entry_points, hashed_strings })
}

/// Reflection of a compiled program into the owned tree.
pub trait ProgramLayoutReflector {
    fn reflect(&self) -> Result<ProgramReflection, TranslateError>;
}

impl ProgramLayoutReflector for ProgramLayout {
    fn reflect(&self) -> (r: Result<ProgramReflection, TranslateError>)
        ensures
            program_result(r) == program_spec(*self),
    {
        reflect_program(self)
    }
}

/// Translating the same program twice gives structurally identical trees:
/// the value of every result of `reflect_program` is fixed by its input.
pub proof fn reflect_is_deterministic(
    p: ProgramLayout,
    r1: Result<ProgramReflection, TranslateError>,
    r2: Result<ProgramReflection, TranslateError>,
)
    requires
        program_result(r1) == program_spec(p),
        program_result(r2) == program_spec(p),
    ensures
        program_result(r1) == program_result(r2),
{
}

/// The i-th translated entry point carries the name of the compiler's i-th
/// entry point, for every i.
pub proof fn entry_points_keep_order(p: ProgramLayout, v: ProgramView)
    requires
        program_spec(p) == Ok::<ProgramView, TranslateError>(v),
    ensures
        v.entry_points.len() == p.entry_points.len(),
        forall|i: int|
            0 <= i < p.entry_points.len() ==> #[trigger] v.entry_points[i].name
                == p.entry_points@[i].name@,
{
}

/// The type a binding carries is free of `Atomic` structs.
pub open spec fn bound_atomic_free(b: BoundView) -> bool {
    match b {
        BoundView::Uniform { result, .. } => atomic_free(result),
        BoundView::Resource { resource, .. } => match resource {
            ResourceView::StructuredBuffer { result, .. } => atomic_free(result),
            ResourceView::Texture { result, .. } => atomic_free(result),
            ResourceView::Sampler => true,
        },
    }
}

proof fn lemma_bound_atomic_free(ty: TypeNode, var: VariableLayoutNode)
    ensures
        bound_spec(ty, var) is Ok ==> bound_atomic_free(bound_spec(ty, var)->Ok_0),
{
    translated_types_are_atomic_free(ty, *var.type_layout);
    if let Some(e) = ty.element_type {
        if let Some(el) = var.type_layout.element_type_layout {
            translated_types_are_atomic_free(*e, *el);
        } else {
            translated_types_are_atomic_free(*e, *var.type_layout);
        }
    }
    if let Some(rt) = ty.resource_result_type {
        translated_types_are_atomic_free(*rt, *var.type_layout);
    }
}

proof fn lemma_variables_atomic_free(fields: Seq<VariableLayoutNode>, n: nat)
    ensures
        variables_spec(fields, n) matches Ok(vs) ==> forall|i: int|
            0 <= i < vs.len() ==> bound_atomic_free(#[trigger] vs[i].bound),
    decreases n,
{
    if n > 0 && n <= fields.len() {
        lemma_variables_atomic_free(fields, (n - 1) as nat);
        lemma_bound_atomic_free(*fields[n - 1].type_layout.ty, fields[n - 1]);
    }
}

/// No struct named `Atomic` appears anywhere in a translated program's
/// parameters.
pub proof fn atomic_never_in_output(p: ProgramLayout, v: ProgramView)
    requires
        program_spec(p) == Ok::<ProgramView, TranslateError>(v),
    ensures
        forall|i: int| 0 <= i < v.variables.len() ==> bound_atomic_free(#[trigger] v.variables[i].bound),
{
    let block = parameter_block(p)->0;
    lemma_variables_atomic_free(block.fields@, block.fields.len() as nat);
}

/// A uniform-category parameter translates to a uniform binding whose offset
/// is exactly the offset the compiler reported.
pub proof fn uniform_offset_is_reported(ty: TypeNode, var: VariableLayoutNode, b: BoundView)
    requires
        var.category == ParameterCategory::Uniform,
        bound_spec(ty, var) == Ok::<BoundView, TranslateError>(b),
    ensures
        b matches BoundView::Uniform { offset, .. } && offset == var.uniform_offset,
{
}

} // verus!
