use slang_reflector::{
    parameter_user_attributes, reflect_program, reflection_type_from_slang_type, AttributeArgument,
    AttributeNode, BoundParameter, BoundResource, EntryPointNode, FieldNode, ParameterCategory,
    ProgramLayout, ProgramLayoutReflector, ResourceAccess, ResourceShape, ScalarType,
    SlangScalarType, TextureType, TranslateError, TypeKind, TypeLayoutNode, TypeNode,
    UserAttributeParameter, VariableLayoutNode, VariableReflectionType,
};

fn node(kind: TypeKind) -> TypeNode {
    TypeNode {
        kind,
        name: None,
        fields: Vec::new(),
        element_type: None,
        element_count: 0,
        scalar_type: SlangScalarType::Unspecified,
        resource_shape: ResourceShape::Other(0),
        resource_result_type: None,
        user_attributes: Vec::new(),
    }
}

fn scalar(s: SlangScalarType) -> TypeNode {
    let mut t = node(TypeKind::Scalar);
    t.scalar_type = s;
    t
}

fn vector(s: SlangScalarType, n: usize) -> TypeNode {
    let mut t = node(TypeKind::Vector);
    t.element_type = Some(Box::new(scalar(s)));
    t.element_count = n;
    t
}

fn structure(name: &str, fields: Vec<(&str, TypeNode)>) -> TypeNode {
    let mut t = node(TypeKind::Struct);
    t.name = Some(name.to_string());
    t.fields = fields
        .into_iter()
        .map(|(n, ty)| FieldNode { name: n.to_string(), ty })
        .collect();
    t
}

fn string_attr(name: &str, value: &str) -> AttributeNode {
    AttributeNode {
        name: name.to_string(),
        arguments: vec![AttributeArgument {
            as_string: Some(value.to_string()),
            as_int: None,
            as_float_bits: None,
        }],
    }
}

fn layout(ty: TypeNode, fields: Vec<VariableLayoutNode>) -> TypeLayoutNode {
    TypeLayoutNode {
        kind: ty.kind,
        ty: Box::new(ty),
        fields,
        element_type_layout: None,
        resource_access: None,
    }
}

fn var(name: &str, category: ParameterCategory, type_layout: TypeLayoutNode) -> VariableLayoutNode {
    VariableLayoutNode {
        name: name.to_string(),
        category,
        uniform_offset: 0,
        binding_index: 0,
        image_format: 0,
        type_layout: Box::new(type_layout),
        user_attributes: Vec::new(),
    }
}

fn program(params: Vec<VariableLayoutNode>) -> ProgramLayout {
    ProgramLayout {
        global_params: layout(structure("Globals", vec![]), params),
        entry_points: Vec::new(),
        hashed_strings: Vec::new(),
    }
}

fn annotated_struct() -> TypeNode {
    let mut s = structure("Data", vec![("value", scalar(SlangScalarType::Float32))]);
    s.user_attributes = vec![string_attr(
        "playground_ANNOTATION",
        "doc = \"This is a test annotation for the Rust struct generated from Slang sdf.\"",
    )];
    s
}

fn structured_buffer_program() -> ProgramLayout {
    let mut buffer = node(TypeKind::Resource);
    buffer.resource_shape = ResourceShape::StructuredBuffer;
    buffer.element_type = Some(Box::new(annotated_struct()));
    let element_layout = layout(
        annotated_struct(),
        vec![var(
            "value",
            ParameterCategory::Uniform,
            layout(scalar(SlangScalarType::Float32), vec![]),
        )],
    );
    let mut buffer_layout = layout(buffer, vec![]);
    buffer_layout.element_type_layout = Some(Box::new(element_layout));
    buffer_layout.resource_access = Some(ResourceAccess::ReadWrite);
    let mut v = var("outputBuffer", ParameterCategory::Other, buffer_layout);
    v.binding_index = 3;
    program(vec![v])
}

#[test]
fn structured_buffer_with_string_attribute() {
    let reflection = reflect_program(&structured_buffer_program()).unwrap();
    assert!(reflection.variables.len() == 1);
    let v = &reflection.variables[0];
    assert_eq!(v.name, "outputBuffer");
    let BoundParameter::Resource { resource, binding_index } = &v.reflection_type else {
        panic!("Expected resource parameter");
    };
    assert_eq!(*binding_index, 3);
    let BoundResource::StructuredBuffer { resource_result, resource_access } = resource else {
        panic!("Expected structured buffer resource");
    };
    assert_eq!(*resource_access, ResourceAccess::ReadWrite);
    let VariableReflectionType::Struct { name, props, user_attributes } = resource_result else {
        panic!("Expected struct type for resource result");
    };
    assert_eq!(name, "Data");
    assert_eq!(props.len(), 1);
    assert_eq!(props[0].0, "value");
    assert!(matches!(props[0].1, VariableReflectionType::Scalar(ScalarType::Float32)));
    assert!(user_attributes.len() == 1);
    let attr = &user_attributes[0];
    assert_eq!(attr.name, "playground_ANNOTATION");
    assert_eq!(attr.parameters.len(), 1);
    let UserAttributeParameter::String(parameter) = &attr.parameters[0] else {
        panic!("Expected string parameter");
    };
    assert_eq!(
        parameter,
        "doc = \"This is a test annotation for the Rust struct generated from Slang sdf.\""
    );
}

#[test]
fn nine_entry_points_keep_declaration_order() {
    let mut p = program(vec![]);
    let names = [
        "fillBuffer", "fillBuffer2", "fillBuffer3", "fillBuffer4", "fillBuffer5", "fillBuffer6",
        "fillBuffer7", "fillBuffer8", "fillBuffer9",
    ];
    p.entry_points = names
        .iter()
        .map(|n| EntryPointNode { name: n.to_string(), user_attributes: Vec::new() })
        .collect();
    let reflection = p.reflect().unwrap();
    assert_eq!(reflection.entry_points.len(), 9);
    for (i, n) in names.iter().enumerate() {
        assert_eq!(reflection.entry_points[i].name, *n);
    }
}

#[test]
fn entry_point_attributes_are_kept() {
    let mut p = program(vec![]);
    p.entry_points = vec![EntryPointNode {
        name: "main".to_string(),
        user_attributes: vec![string_attr("shader", "compute")],
    }];
    let reflection = reflect_program(&p).unwrap();
    assert_eq!(reflection.entry_points[0].user_attributes.len(), 1);
    assert_eq!(reflection.entry_points[0].user_attributes[0].name, "shader");
}

#[test]
fn translating_twice_gives_the_same_tree() {
    let p = structured_buffer_program();
    let a = reflect_program(&p).unwrap();
    let b = reflect_program(&p).unwrap();
    assert_eq!(format!("{:?}", a.variables), format!("{:?}", b.variables));
    assert_eq!(format!("{:?}", a.entry_points), format!("{:?}", b.entry_points));
    assert_eq!(a.hashed_strings, b.hashed_strings);
}

#[test]
fn uniform_parameter_keeps_reported_offset() {
    let mut v = var(
        "color",
        ParameterCategory::Uniform,
        layout(vector(SlangScalarType::Float32, 4), vec![]),
    );
    v.uniform_offset = 48;
    let reflection = reflect_program(&program(vec![v])).unwrap();
    let BoundParameter::Uniform { uniform_offset, resource_result } =
        &reflection.variables[0].reflection_type
    else {
        panic!("Expected uniform parameter");
    };
    assert_eq!(*uniform_offset, 48);
    assert!(matches!(resource_result, VariableReflectionType::Vector(ScalarType::Float32, 4)));
}

#[test]
fn uniform_struct_and_array_parameters() {
    let mut arr = node(TypeKind::Array);
    arr.element_type = Some(Box::new(scalar(SlangScalarType::Uint32)));
    arr.element_count = 5;
    let mut arr_layout = layout(node(TypeKind::Array), vec![]);
    arr_layout.element_type_layout = Some(Box::new(layout(scalar(SlangScalarType::Uint32), vec![])));
    let t = reflection_type_from_slang_type(&arr, Some(&arr_layout)).unwrap();
    let VariableReflectionType::Array(elem, count) = t else {
        panic!("Expected array");
    };
    assert_eq!(count, 5);
    assert!(matches!(*elem, VariableReflectionType::Scalar(ScalarType::Uint32)));
}

#[test]
fn atomic_wrapper_is_transparent() {
    let atomic = structure("Atomic", vec![("value", scalar(SlangScalarType::Int32))]);
    let wrapper_layout = layout(scalar(SlangScalarType::Uint32), vec![]);
    let holder = structure("Counter", vec![("count", atomic)]);
    let holder_layout = layout(
        structure("Counter", vec![]),
        vec![var("count", ParameterCategory::Uniform, wrapper_layout)],
    );
    let t = reflection_type_from_slang_type(&holder, Some(&holder_layout)).unwrap();
    let VariableReflectionType::Struct { props, .. } = t else {
        panic!("Expected struct");
    };
    assert_eq!(props[0].0, "count");
    assert!(matches!(props[0].1, VariableReflectionType::Scalar(ScalarType::Uint32)));
}

#[test]
fn nested_atomic_is_rejected() {
    let atomic = structure("Atomic", vec![]);
    let inner = layout(structure("Atomic", vec![]), vec![]);
    let r = reflection_type_from_slang_type(&atomic, Some(&inner));
    assert_eq!(r.unwrap_err(), TranslateError::NestedAtomic);
}

#[test]
fn atomic_without_layout_is_missing_data() {
    let atomic = structure("Atomic", vec![]);
    let r = reflection_type_from_slang_type(&atomic, None);
    assert_eq!(r.unwrap_err(), TranslateError::MissingData);
}

#[test]
fn fields_past_the_layout_go_without_layout() {
    let s = structure(
        "Pair",
        vec![("a", scalar(SlangScalarType::Float32)), ("b", scalar(SlangScalarType::Int8))],
    );
    let l = layout(
        structure("Pair", vec![]),
        vec![var("a", ParameterCategory::Uniform, layout(scalar(SlangScalarType::Float32), vec![]))],
    );
    let t = reflection_type_from_slang_type(&s, Some(&l)).unwrap();
    let VariableReflectionType::Struct { props, .. } = t else {
        panic!("Expected struct");
    };
    assert_eq!(props.len(), 2);
    assert!(matches!(props[1].1, VariableReflectionType::Scalar(ScalarType::Int8)));
}

#[test]
fn matrix_is_unsupported() {
    let r = reflection_type_from_slang_type(&node(TypeKind::Matrix), None);
    assert_eq!(r.unwrap_err(), TranslateError::UnsupportedType(TypeKind::Matrix));
}

#[test]
fn bool_scalar_is_unsupported() {
    let r = reflection_type_from_slang_type(&scalar(SlangScalarType::Bool), None);
    assert_eq!(r.unwrap_err(), TranslateError::UnsupportedScalar(SlangScalarType::Bool));
}

#[test]
fn first_failing_field_decides_the_error() {
    let s = structure(
        "Bad",
        vec![("m", node(TypeKind::Pointer)), ("b", scalar(SlangScalarType::Bool))],
    );
    let r = reflection_type_from_slang_type(&s, None);
    assert_eq!(r.unwrap_err(), TranslateError::UnsupportedType(TypeKind::Pointer));
}

#[test]
fn unknown_resource_shape_is_unsupported() {
    let mut res = node(TypeKind::Resource);
    res.resource_shape = ResourceShape::Other(8);
    let p = program(vec![var("buf", ParameterCategory::Other, layout(res, vec![]))]);
    assert_eq!(
        reflect_program(&p).unwrap_err(),
        TranslateError::UnsupportedResourceShape(ResourceShape::Other(8))
    );
}

#[test]
fn struct_outside_uniform_category_is_unsupported_top_level() {
    let p = program(vec![var(
        "s",
        ParameterCategory::Other,
        layout(structure("S", vec![]), vec![]),
    )]);
    assert_eq!(
        reflect_program(&p).unwrap_err(),
        TranslateError::UnsupportedTopLevel(TypeKind::Struct)
    );
}

#[test]
fn constant_buffer_without_element_is_missing_data() {
    let mut p = program(vec![]);
    p.global_params.kind = TypeKind::ConstantBuffer;
    assert_eq!(reflect_program(&p).unwrap_err(), TranslateError::MissingData);
}

#[test]
fn constant_buffer_wrapper_is_unwrapped() {
    let inner = layout(
        structure("Globals", vec![]),
        vec![var("time", ParameterCategory::Uniform, layout(scalar(SlangScalarType::Float32), vec![]))],
    );
    let mut p = program(vec![]);
    p.global_params.kind = TypeKind::ConstantBuffer;
    p.global_params.element_type_layout = Some(Box::new(inner));
    let reflection = reflect_program(&p).unwrap();
    assert_eq!(reflection.variables.len(), 1);
    assert_eq!(reflection.variables[0].name, "time");
}

#[test]
fn texture_and_sampler_bindings() {
    let mut tex = node(TypeKind::Resource);
    tex.resource_shape = ResourceShape::Texture2d;
    tex.resource_result_type = Some(Box::new(vector(SlangScalarType::Float32, 4)));
    let mut tex_layout = layout(tex, vec![]);
    tex_layout.resource_access = Some(ResourceAccess::Read);
    let mut t = var("albedo", ParameterCategory::Other, tex_layout);
    t.binding_index = 1;
    t.image_format = 7;
    let mut s = var("linear", ParameterCategory::Other, layout(node(TypeKind::SamplerState), vec![]));
    s.binding_index = 2;
    let reflection = reflect_program(&program(vec![t, s])).unwrap();
    let BoundParameter::Resource { resource, binding_index } = &reflection.variables[0].reflection_type
    else {
        panic!("Expected resource");
    };
    assert_eq!(*binding_index, 1);
    let BoundResource::Texture { tex_type, resource_result, format, resource_access } = resource else {
        panic!("Expected texture");
    };
    assert_eq!(*tex_type, TextureType::Dim2);
    assert_eq!(*format, 7);
    assert_eq!(*resource_access, ResourceAccess::Read);
    assert!(matches!(resource_result, VariableReflectionType::Vector(ScalarType::Float32, 4)));
    assert!(matches!(
        reflection.variables[1].reflection_type,
        BoundParameter::Resource { resource: BoundResource::Sampler, binding_index: 2 }
    ));
}

#[test]
fn texture_without_access_is_missing_data() {
    let mut tex = node(TypeKind::Resource);
    tex.resource_shape = ResourceShape::TextureCube;
    tex.resource_result_type = Some(Box::new(scalar(SlangScalarType::Float32)));
    let p = program(vec![var("sky", ParameterCategory::Other, layout(tex, vec![]))]);
    assert_eq!(reflect_program(&p).unwrap_err(), TranslateError::MissingData);
}

#[test]
fn attribute_arguments_are_probed_in_order() {
    let attrs = vec![AttributeNode {
        name: "tag".to_string(),
        arguments: vec![
            AttributeArgument { as_string: Some("s".to_string()), as_int: Some(1), as_float_bits: None },
            AttributeArgument { as_string: None, as_int: Some(-4), as_float_bits: Some(5) },
            AttributeArgument { as_string: None, as_int: None, as_float_bits: Some(1.5f32.to_bits()) },
            AttributeArgument { as_string: None, as_int: None, as_float_bits: None },
        ],
    }];
    let r = parameter_user_attributes(&attrs);
    assert_eq!(r.len(), 1);
    assert_eq!(r[0].name, "tag");
    assert_eq!(r[0].parameters.len(), 3);
    assert!(matches!(&r[0].parameters[0], UserAttributeParameter::String(s) if s == "s"));
    assert!(matches!(r[0].parameters[1], UserAttributeParameter::Int(-4)));
    let UserAttributeParameter::Float(bits) = r[0].parameters[2] else {
        panic!("Expected float parameter");
    };
    assert_eq!(f32::from_bits(bits), 1.5);
}

#[test]
fn hashed_string_collision_keeps_the_later_string() {
    let mut p = program(vec![]);
    p.hashed_strings = vec![
        (1, "first".to_string()),
        (2, "other".to_string()),
        (1, "second".to_string()),
    ];
    let reflection = reflect_program(&p).unwrap();
    assert_eq!(reflection.hashed_strings.len(), 2);
    assert_eq!(reflection.hashed_strings[&1], "second");
    assert_eq!(reflection.hashed_strings[&2], "other");
}

#[test]
fn cloned_tree_is_equal() {
    let reflection = reflect_program(&structured_buffer_program()).unwrap();
    let copy = reflection.clone();
    assert_eq!(format!("{:?}", copy.variables), format!("{:?}", reflection.variables));
    let t = VariableReflectionType::Array(
        Box::new(VariableReflectionType::Vector(ScalarType::Float32, 3)),
        2,
    );
    assert_eq!(format!("{:?}", t.clone()), format!("{:?}", t));
}
