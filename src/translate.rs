//! Translation of the compiler's reflection graph into the owned tree.
use crate::model::{
    attr_view, attrs_view, param_view, props_view, shape_of, AttrView, ParamView,
    ScalarType, Shape, UserAttributeParameter, UserAttributeReflection, VariableReflectionType,
};
use crate::source::{
    AttributeArgument, AttributeNode, FieldNode, ResourceShape, SlangScalarType, TypeKind,
    TypeLayoutNode, TypeNode,
};
use vstd::prelude::*;

verus! {

/// Why a program cannot be translated.
#[derive(Debug, Clone, Copy, PartialEq, Eq, Structural)]
pub enum TranslateError {
    /// A type of this kind stands where translation has no case for it.
    UnsupportedType(TypeKind),
    /// A scalar of this kind has no place in the translated tree.
    UnsupportedScalar(SlangScalarType),
    /// A resource parameter has this unhandled shape.
    UnsupportedResourceShape(ResourceShape),
    /// A top-level parameter has a type of this kind, which is no binding.
    UnsupportedTopLevel(TypeKind),
    /// An `Atomic` wrapper whose layout designates another `Atomic` wrapper.
    NestedAtomic,
    /// The compiler left out a piece that translation needs.
    MissingData,
}

// ---------------------------------------------------------------- attributes

/// The value an argument is kept as: the first probe that answers, in the
/// order string, integer, float; `None` when none answers.
pub open spec fn classify(a: AttributeArgument) -> Option<ParamView> {
    if a.as_string is Some {
        Some(ParamView::String(a.as_string->0@))
    } else if a.as_int is Some {
        Some(ParamView::Int(a.as_int->0))
    } else if a.as_float_bits is Some {
        Some(ParamView::Float(a.as_float_bits->0))
    } else {
        None
    }
}

/// The values kept from a list of arguments, in order.
pub open spec fn kept_params(args: Seq<AttributeArgument>) -> Seq<ParamView>
    decreases args.len(),
{
    if args.len() == 0 {
        Seq::empty()
    } else {
        let prev = kept_params(args.drop_last());
        match classify(args.last()) {
            Some(v) => prev.push(v),
            None => prev,
        }
    }
}

pub open spec fn attr_spec(a: AttributeNode) -> AttrView {
    AttrView { name: a.name@, parameters: kept_params(a.arguments@) }
}

/// The translated attributes of a node, in order.
pub open spec fn attrs_spec(s: Seq<AttributeNode>) -> Seq<AttrView> {
    s.map_values(|a: AttributeNode| attr_spec(a))
}

fn attribute_parameter(arg: &AttributeArgument) -> (r: Option<UserAttributeParameter>)
    ensures
        (match r {
            Some(p) => Some(param_view(p)),
            None => None,
        }) == classify(*arg),
{
    if let Some(s) = &arg.as_string {
        Some(UserAttributeParameter::String(s.clone()))
    } else if let Some(i) = arg.as_int {
        Some(UserAttributeParameter::Int(i))
    } else if let Some(f) = arg.as_float_bits {
        Some(UserAttributeParameter::Float(f))
    } else {
        None
    }
}

/// Translates a list of attributes, keeping each argument that one of the
/// probes classifies and dropping the others.
pub fn parameter_user_attributes(user_attributes: &Vec<AttributeNode>) -> (r: Vec<
    UserAttributeReflection,
>)
    ensures
        attrs_view(r@) == attrs_spec(user_attributes@),
{
    let mut attributes: Vec<UserAttributeReflection> = Vec::new();
    let mut i: usize = 0;
    while i < user_attributes.len()
        invariant
            0 <= i <= user_attributes.len(),
            attrs_view(attributes@) == attrs_spec(user_attributes@.take(i as int)),
        decreases user_attributes.len() - i,
    {
        let attribute = &user_attributes[i];
        let mut parameters: Vec<UserAttributeParameter> = Vec::new();
        let mut j: usize = 0;
        while j < attribute.arguments.len()
            invariant
                0 <= j <= attribute.arguments.len(),
                parameters@.map_values(|p: UserAttributeParameter| param_view(p)) == kept_params(
                    attribute.arguments@.take(j as int),
                ),
            decreases attribute.arguments.len() - j,
        {
            let arg = attribute_parameter(&attribute.arguments[j]);
            proof {
                assert(attribute.arguments@.take(j + 1).drop_last() == attribute.arguments@.take(
                    j as int,
                ));
            }
            if let Some(p) = arg {
                parameters.push(p);
            }
            j = j + 1;
        }
        proof {
            assert(attribute.arguments@.take(j as int) == attribute.arguments@);
        }
        let reflected = UserAttributeReflection { name: attribute.name.clone(), parameters };
        assert(attr_view(reflected) == attr_spec(user_attributes@[i as int]));
        let ghost prev = attributes@;
        attributes.push(reflected);
        proof {
            assert(attrs_view(attributes@) =~= attrs_view(prev).push(
                attr_view(attributes@[i as int]),
            ));
            assert(attrs_spec(user_attributes@.take(i + 1)) =~= attrs_spec(
                user_attributes@.take(i as int),
            ).push(attr_spec(user_attributes@[i as int])));
            assert(attrs_view(attributes@) =~= attrs_spec(user_attributes@.take(i + 1)));
        }
        i = i + 1;
    }
    proof {
        assert(user_attributes@.take(i as int) == user_attributes@);
    }
    attributes
}

// --------------------------------------------------------------------- types

pub open spec fn atomic_name() -> Seq<char> {
    seq!['A', 't', 'o', 'm', 'i', 'c']
}

/// The struct that wraps an atomic value.
pub open spec fn is_atomic(ty: TypeNode) -> bool {
    &&& ty.kind == TypeKind::Struct
    &&& ty.name is Some
    &&& ty.name->0@ == atomic_name()
}

pub open spec fn atomic_rank(ty: TypeNode) -> nat {
    if is_atomic(ty) {
        1
    } else {
        0
    }
}

pub open spec fn field_count(ty: TypeNode) -> nat {
    ty.fields.len() as nat
}

/// The scalar kind a compiler scalar translates to, if any.
pub open spec fn scalar_of(s: SlangScalarType) -> Option<ScalarType> {
    match s {
        SlangScalarType::Int8 => Some(ScalarType::Int8),
        SlangScalarType::Uint8 => Some(ScalarType::Uint8),
        SlangScalarType::Int16 => Some(ScalarType::Int16),
        SlangScalarType::Uint16 => Some(ScalarType::Uint16),
        SlangScalarType::Float16 => Some(ScalarType::Float16),
        SlangScalarType::Int32 => Some(ScalarType::Int32),
        SlangScalarType::Uint32 => Some(ScalarType::Uint32),
        SlangScalarType::Float32 => Some(ScalarType::Float32),
        SlangScalarType::Int64 => Some(ScalarType::Int64),
        SlangScalarType::Uint64 => Some(ScalarType::Uint64),
        SlangScalarType::Float64 => Some(ScalarType::Float64),
        _ => None,
    }
}

pub open spec fn shape_result(r: Result<VariableReflectionType, TranslateError>) -> Result<
    Shape,
    TranslateError,
> {
    match r {
        Ok(t) => Ok(shape_of(t)),
        Err(e) => Err(e),
    }
}

/// Translation of a scalar kind into a scalar node.
pub open spec fn scalar_spec(s: SlangScalarType) -> Result<ScalarType, TranslateError> {
    match scalar_of(s) {
        Some(k) => Ok(k),
        None => Err(TranslateError::UnsupportedScalar(s)),
    }
}

/// Translation of a vector, a scalar, or a kind that has no case. Struct
/// and array nodes are walked by the callers and never reach here.
pub open spec fn leaf_spec(ty: TypeNode) -> Result<Shape, TranslateError> {
    match ty.kind {
        TypeKind::Vector => match ty.element_type {
            None => Err(TranslateError::MissingData),
            Some(e) => match scalar_spec(e.scalar_type) {
                Ok(k) => Ok(Shape::Vector(k, ty.element_count as nat)),
                Err(err) => Err(err),
            },
        },
        TypeKind::Scalar => match scalar_spec(ty.scalar_type) {
            Ok(k) => Ok(Shape::Scalar(k)),
            Err(err) => Err(err),
        },
        TypeKind::Struct | TypeKind::Array => Err(TranslateError::MissingData),
        k => Err(TranslateError::UnsupportedType(k)),
    }
}

/// Translation of a type that carries no layout.
pub open spec fn plain_spec(ty: TypeNode) -> Result<Shape, TranslateError>
    decreases ty, field_count(ty) + 1,
{
    match ty.kind {
        TypeKind::Struct => match ty.name {
            None => Err(TranslateError::MissingData),
            Some(n) => if n@ == atomic_name() {
                Err(TranslateError::MissingData)
            } else {
                match plain_fields(ty, field_count(ty)) {
                    Ok(ps) => Ok(
                        Shape::Struct { name: n@, props: ps, attrs: attrs_spec(ty.user_attributes@) },
                    ),
                    Err(err) => Err(err),
                }
            },
        },
        TypeKind::Array => match ty.element_type {
            None => Err(TranslateError::MissingData),
            Some(e) => match plain_spec(*e) {
                Ok(s) => Ok(Shape::Array(Box::new(s), ty.element_count as nat)),
                Err(err) => Err(err),
            },
        },
        _ => leaf_spec(ty),
    }
}

/// Translation of the first `n` fields of a struct type without layout; the
/// first failing field decides the error.
pub open spec fn plain_fields(ty: TypeNode, n: nat) -> Result<
    Seq<(Seq<char>, Shape)>,
    TranslateError,
>
    decreases ty, n,
{
    if n == 0 || n > ty.fields.len() {
        Ok(Seq::empty())
    } else {
        match plain_fields(ty, (n - 1) as nat) {
            Err(err) => Err(err),
            Ok(ps) => match plain_spec(ty.fields[n - 1].ty) {
                Err(err) => Err(err),
                Ok(s) => Ok(ps.push((ty.fields[n - 1].name@, s))),
            },
        }
    }
}

/// Translation of a type walked together with its layout. An `Atomic`
/// wrapper stands aside for the type its layout designates.
pub open spec fn laid_spec(ty: TypeNode, layout: TypeLayoutNode) -> Result<Shape, TranslateError>
    decreases layout, atomic_rank(ty), field_count(ty) + 1,
{
    match ty.kind {
        TypeKind::Struct => match ty.name {
            None => Err(TranslateError::MissingData),
            Some(n) => if n@ == atomic_name() {
                if is_atomic(*layout.ty) {
                    Err(TranslateError::NestedAtomic)
                } else {
                    laid_spec(*layout.ty, layout)
                }
            } else {
                match laid_fields(ty, layout, field_count(ty)) {
                    Ok(ps) => Ok(
                        Shape::Struct { name: n@, props: ps, attrs: attrs_spec(ty.user_attributes@) },
                    ),
                    Err(err) => Err(err),
                }
            },
        },
        TypeKind::Array => match ty.element_type {
            None => Err(TranslateError::MissingData),
            Some(e) => match layout.element_type_layout {
                None => Err(TranslateError::MissingData),
                Some(el) => match laid_spec(*e, *el) {
                    Ok(s) => Ok(Shape::Array(Box::new(s), ty.element_count as nat)),
                    Err(err) => Err(err),
                },
            },
        },
        _ => leaf_spec(ty),
    }
}

/// Translation of the first `n` fields of a struct type, each paired with the
/// field layout at its position; fields past the end of the layout's list go
/// without layout.
pub open spec fn laid_fields(ty: TypeNode, layout: TypeLayoutNode, n: nat) -> Result<
    Seq<(Seq<char>, Shape)>,
    TranslateError,
>
    decreases layout, atomic_rank(ty), n,
{
    if n == 0 || n > ty.fields.len() {
        Ok(Seq::empty())
    } else {
        match laid_fields(ty, layout, (n - 1) as nat) {
            Err(err) => Err(err),
            Ok(ps) => {
                let r = if n - 1 < layout.fields.len() {
                    laid_spec(ty.fields[n - 1].ty, *layout.fields[n - 1].type_layout)
                } else {
                    plain_spec(ty.fields[n - 1].ty)
                };
                match r {
                    Err(err) => Err(err),
                    Ok(s) => Ok(ps.push((ty.fields[n - 1].name@, s))),
                }
            },
        }
    }
}

proof fn lemma_plain_fields_err(ty: TypeNode, k: nat, n: nat)
    requires
        k <= n <= field_count(ty),
        plain_fields(ty, k) is Err,
    ensures
        plain_fields(ty, n) == plain_fields(ty, k),
    decreases n,
{
    if k < n {
        lemma_plain_fields_err(ty, k, (n - 1) as nat);
    }
}

proof fn lemma_laid_fields_err(ty: TypeNode, layout: TypeLayoutNode, k: nat, n: nat)
    requires
        k <= n <= field_count(ty),
        laid_fields(ty, layout, k) is Err,
    ensures
        laid_fields(ty, layout, n) == laid_fields(ty, layout, k),
    decreases n,
{
    if k < n {
        lemma_laid_fields_err(ty, layout, k, (n - 1) as nat);
    }
}

fn is_atomic_name(name: &String) -> (r: bool)
    ensures
        r == (name@ == atomic_name()),
{
    let s = name.as_str();
    let ok = s.unicode_len() == 6 && s.get_char(0) == 'A' && s.get_char(1) == 't' && s.get_char(2)
        == 'o' && s.get_char(3) == 'm' && s.get_char(4) == 'i' && s.get_char(5) == 'c';
    proof {
        if ok {
            assert(name@ =~= atomic_name());
        }
    }
    ok
}

fn scalar_type_of(s: SlangScalarType) -> (r: Result<ScalarType, TranslateError>)
    ensures
        r == scalar_spec(s),
{
    match s {
        SlangScalarType::Int8 => Ok(ScalarType::Int8),
        SlangScalarType::Uint8 => Ok(ScalarType::Uint8),
        SlangScalarType::Int16 => Ok(ScalarType::Int16),
        SlangScalarType::Uint16 => Ok(ScalarType::Uint16),
        SlangScalarType::Float16 => Ok(ScalarType::Float16),
        SlangScalarType::Int32 => Ok(ScalarType::Int32),
        SlangScalarType::Uint32 => Ok(ScalarType::Uint32),
        SlangScalarType::Float32 => Ok(ScalarType::Float32),
        SlangScalarType::Int64 => Ok(ScalarType::Int64),
        SlangScalarType::Uint64 => Ok(ScalarType::Uint64),
        SlangScalarType::Float64 => Ok(ScalarType::Float64),
        _ => Err(TranslateError::UnsupportedScalar(s)),
    }
}

fn translate_leaf(ty: &TypeNode) -> (r: Result<VariableReflectionType, TranslateError>)
    ensures
        shape_result(r) == leaf_spec(*ty),
{
    match ty.kind {
        TypeKind::Vector => match &ty.element_type {
            None => Err(TranslateError::MissingData),
            Some(e) => match scalar_type_of(e.scalar_type) {
                Ok(k) => Ok(VariableReflectionType::Vector(k, ty.element_count)),
                Err(err) => Err(err),
            },
        },
        TypeKind::Scalar => match scalar_type_of(ty.scalar_type) {
            Ok(k) => Ok(VariableReflectionType::Scalar(k)),
            Err(err) => Err(err),
        },
        TypeKind::Struct | TypeKind::Array => Err(TranslateError::MissingData),
        k => Err(TranslateError::UnsupportedType(k)),
    }
}

fn make_struct(
    name: &String,
    props: Vec<(String, VariableReflectionType)>,
    user_attributes: &Vec<AttributeNode>,
) -> (r: VariableReflectionType)
    ensures
        shape_of(r) == (Shape::Struct {
            name: name@,
            props: props_view(props@),
            attrs: attrs_spec(user_attributes@),
        }),
{
    let attrs = parameter_user_attributes(user_attributes);
    let r = VariableReflectionType::Struct { name: name.clone(), props, user_attributes: attrs };
    proof {
        crate::model::lemma_struct_shape(r);
    }
    r
}

fn push_prop(
    props: &mut Vec<(String, VariableReflectionType)>,
    name: &String,
    t: VariableReflectionType,
)
    ensures
        props_view(final(props)@) == props_view(old(props)@).push((name@, shape_of(t))),
{
    let ghost prev = props@;
    let ghost s = shape_of(t);
    props.push((name.clone(), t));
    assert(props_view(props@) =~= props_view(prev).push((name@, s)));
}

fn translate_plain(ty: &TypeNode) -> (r: Result<VariableReflectionType, TranslateError>)
    ensures
        shape_result(r) == plain_spec(*ty),
    decreases ty,
{
    match ty.kind {
        TypeKind::Struct => match &ty.name {
            None => Err(TranslateError::MissingData),
            Some(n) => {
                if is_atomic_name(n) {
                    return Err(TranslateError::MissingData);
                }
                let mut props: Vec<(String, VariableReflectionType)> = Vec::new();
                assert(props_view(props@) =~= Seq::empty());
                let mut i: usize = 0;
                while i < ty.fields.len()
                    invariant
                        0 <= i <= ty.fields.len(),
                        ty.kind == TypeKind::Struct,
                        ty.name == Some(*n),
                        n@ != atomic_name(),
                        plain_fields(*ty, i as nat) == Ok::<_, TranslateError>(props_view(props@)),
                    decreases ty.fields.len() - i,
                {
                    let f: &FieldNode = &ty.fields[i];
                    match translate_plain(&f.ty) {
                        Err(err) => {
                            proof {
                                assert(plain_fields(*ty, (i + 1) as nat) == Err::<
                                    Seq<(Seq<char>, Shape)>,
                                    TranslateError,
                                >(err));
                                lemma_plain_fields_err(*ty, (i + 1) as nat, field_count(*ty));
                            }
                            return Err(err);
                        },
                        Ok(t) => {
                            push_prop(&mut props, &f.name, t);
                        },
                    }
                    i = i + 1;
                }
                Ok(make_struct(n, props, &ty.user_attributes))
            },
        },
        TypeKind::Array => match &ty.element_type {
            None => Err(TranslateError::MissingData),
            Some(e) => match translate_plain(e) {
                Ok(t) => Ok(VariableReflectionType::Array(Box::new(t), ty.element_count)),
                Err(err) => Err(err),
            },
        },
        _ => translate_leaf(ty),
    }
}

fn translate_laid_out(ty: &TypeNode, layout: &TypeLayoutNode) -> (r: Result<
    VariableReflectionType,
    TranslateError,
>)
    ensures
        shape_result(r) == laid_spec(*ty, *layout),
    decreases layout, atomic_rank(*ty),
{
    match ty.kind {
        TypeKind::Struct => match &ty.name {
            None => Err(TranslateError::MissingData),
            Some(n) => {
                if is_atomic_name(n) {
                    let inner: &TypeNode = &layout.ty;
                    let nested = match &inner.name {
                        Some(m) => inner.kind == TypeKind::Struct && is_atomic_name(m),
                        None => false,
                    };
                    if nested {
                        return Err(TranslateError::NestedAtomic);
                    }
                    return translate_laid_out(inner, layout);
                }
                let mut props: Vec<(String, VariableReflectionType)> = Vec::new();
                assert(props_view(props@) =~= Seq::empty());
                let mut i: usize = 0;
                while i < ty.fields.len()
                    invariant
                        0 <= i <= ty.fields.len(),
                        !is_atomic(*ty),
                        ty.kind == TypeKind::Struct,
                        ty.name == Some(*n),
                        n@ != atomic_name(),
                        laid_fields(*ty, *layout, i as nat) == Ok::<_, TranslateError>(
                            props_view(props@),
                        ),
                    decreases ty.fields.len() - i,
                {
                    let f: &FieldNode = &ty.fields[i];
                    let r = if i < layout.fields.len() {
                        translate_laid_out(&f.ty, &layout.fields[i].type_layout)
                    } else {
                        translate_plain(&f.ty)
                    };
                    match r {
                        Err(err) => {
                            proof {
                                assert(laid_fields(*ty, *layout, (i + 1) as nat) == Err::<
                                    Seq<(Seq<char>, Shape)>,
                                    TranslateError,
                                >(err));
                                lemma_laid_fields_err(
                                    *ty,
                                    *layout,
                                    (i + 1) as nat,
                                    field_count(*ty),
                                );
                            }
                            return Err(err);
                        },
                        Ok(t) => {
                            push_prop(&mut props, &f.name, t);
                        },
                    }
                    i = i + 1;
                }
                Ok(make_struct(n, props, &ty.user_attributes))
            },
        },
        TypeKind::Array => match &ty.element_type {
            None => Err(TranslateError::MissingData),
            Some(e) => match &layout.element_type_layout {
                None => Err(TranslateError::MissingData),
                Some(el) => match translate_laid_out(e, el) {
                    Ok(t) => Ok(VariableReflectionType::Array(Box::new(t), ty.element_count)),
                    Err(err) => Err(err),
                },
            },
        },
        _ => translate_leaf(ty),
    }
}

/// Translates a type, walked together with its layout where it has one.
pub fn reflection_type_from_slang_type(ty: &TypeNode, layout: Option<&TypeLayoutNode>) -> (r:
    Result<VariableReflectionType, TranslateError>)
    ensures
        shape_result(r) == (match layout {
            Some(l) => laid_spec(*ty, *l),
            None => plain_spec(*ty),
        }),
{
    match layout {
        Some(l) => translate_laid_out(ty, l),
        None => translate_plain(ty),
    }
}

/// No struct named `Atomic` occurs in a translated type.
pub open spec fn atomic_free(s: Shape) -> bool
    decreases s,
{
    match s {
        Shape::Struct { name, props, .. } => {
            &&& name != atomic_name()
            &&& forall|i: int| 0 <= i < props.len() ==> atomic_free(#[trigger] props[i].1)
        },
        Shape::Array(e, _) => atomic_free(*e),
        _ => true,
    }
}

proof fn lemma_plain_atomic_free(ty: TypeNode)
    ensures
        plain_spec(ty) is Ok ==> atomic_free(plain_spec(ty)->Ok_0),
    decreases ty, field_count(ty) + 1,
{
    match ty.kind {
        TypeKind::Struct => {
            lemma_plain_fields_atomic_free(ty, field_count(ty));
        },
        TypeKind::Array => {
            if let Some(e) = ty.element_type {
                lemma_plain_atomic_free(*e);
            }
        },
        _ => {},
    }
}

proof fn lemma_plain_fields_atomic_free(ty: TypeNode, n: nat)
    ensures
        plain_fields(ty, n) matches Ok(ps) ==> forall|i: int|
            0 <= i < ps.len() ==> atomic_free(#[trigger] ps[i].1),
    decreases ty, n,
{
    if n > 0 && n <= ty.fields.len() {
        lemma_plain_fields_atomic_free(ty, (n - 1) as nat);
        lemma_plain_atomic_free(ty.fields[n - 1].ty);
    }
}

proof fn lemma_laid_atomic_free(ty: TypeNode, layout: TypeLayoutNode)
    ensures
        laid_spec(ty, layout) is Ok ==> atomic_free(laid_spec(ty, layout)->Ok_0),
    decreases layout, atomic_rank(ty), field_count(ty) + 1,
{
    match ty.kind {
        TypeKind::Struct => {
            if is_atomic(ty) {
                if !is_atomic(*layout.ty) {
                    lemma_laid_atomic_free(*layout.ty, layout);
                }
            } else {
                lemma_laid_fields_atomic_free(ty, layout, field_count(ty));
            }
        },
        TypeKind::Array => {
            if let Some(e) = ty.element_type {
                if let Some(el) = layout.element_type_layout {
                    lemma_laid_atomic_free(*e, *el);
                }
            }
        },
        _ => {},
    }
}

proof fn lemma_laid_fields_atomic_free(ty: TypeNode, layout: TypeLayoutNode, n: nat)
    ensures
        laid_fields(ty, layout, n) matches Ok(ps) ==> forall|i: int|
            0 <= i < ps.len() ==> atomic_free(#[trigger] ps[i].1),
    decreases layout, atomic_rank(ty), n,
{
    if n > 0 && n <= ty.fields.len() {
        lemma_laid_fields_atomic_free(ty, layout, (n - 1) as nat);
        if n - 1 < layout.fields.len() {
            lemma_laid_atomic_free(ty.fields[n - 1].ty, *layout.fields[n - 1].type_layout);
        } else {
            lemma_plain_atomic_free(ty.fields[n - 1].ty);
        }
    }
}

/// A struct named `Atomic` never appears in a translated type, with or
/// without layout.
pub proof fn translated_types_are_atomic_free(ty: TypeNode, layout: TypeLayoutNode)
    ensures
        plain_spec(ty) is Ok ==> atomic_free(plain_spec(ty)->Ok_0),
        laid_spec(ty, layout) is Ok ==> atomic_free(laid_spec(ty, layout)->Ok_0),
{
    lemma_plain_atomic_free(ty);
    lemma_laid_atomic_free(ty, layout);
}

/// An `Atomic` wrapper translates to the type its layout designates, in its
/// place.
pub proof fn atomic_translates_as_wrapped_type(ty: TypeNode, layout: TypeLayoutNode)
    requires
        is_atomic(ty),
        !is_atomic(*layout.ty),
    ensures
        laid_spec(ty, layout) == laid_spec(*layout.ty, layout),
{
}

} // verus!
