use slang_reflector::{ScalarType, VariableReflectionType};

fn field(name: &str, t: VariableReflectionType) -> (String, VariableReflectionType) {
    (name.to_string(), t)
}

fn strukt(props: Vec<(String, VariableReflectionType)>) -> VariableReflectionType {
    VariableReflectionType::Struct { name: "S".to_string(), props, user_attributes: Vec::new() }
}

#[test]
fn scalar_widths() {
    assert_eq!(VariableReflectionType::Scalar(ScalarType::Uint8).get_size(), 1);
    assert_eq!(VariableReflectionType::Scalar(ScalarType::Float16).get_size(), 2);
    assert_eq!(VariableReflectionType::Scalar(ScalarType::Int32).get_size(), 4);
    assert_eq!(VariableReflectionType::Scalar(ScalarType::Float64).get_size(), 8);
}

#[test]
fn three_component_vector_pads_to_four() {
    let v3 = VariableReflectionType::Vector(ScalarType::Float32, 3);
    let v4 = VariableReflectionType::Vector(ScalarType::Float32, 4);
    assert_eq!(v3.get_size(), 16);
    assert_eq!(v3.get_size(), v4.get_size());
    assert_eq!(VariableReflectionType::Vector(ScalarType::Int16, 2).get_size(), 4);
    assert_eq!(VariableReflectionType::Vector(ScalarType::Uint8, 5).get_size(), 8);
}

#[test]
fn array_is_element_size_times_count() {
    let a = VariableReflectionType::Array(
        Box::new(VariableReflectionType::Vector(ScalarType::Float32, 3)),
        10,
    );
    assert_eq!(a.get_size(), 160);
    let empty = VariableReflectionType::Array(
        Box::new(VariableReflectionType::Scalar(ScalarType::Int64)),
        0,
    );
    assert_eq!(empty.get_size(), 0);
}

#[test]
fn struct_fields_align_to_their_own_size() {
    // 1 byte at 0, then a float at 4: 8 bytes.
    let s = strukt(vec![
        field("a", VariableReflectionType::Scalar(ScalarType::Uint8)),
        field("b", VariableReflectionType::Scalar(ScalarType::Float32)),
    ]);
    assert_eq!(s.get_size(), 8);
    // 4, then a 16-byte vector at 16, then 2 bytes at 32: 34.
    let t = strukt(vec![
        field("a", VariableReflectionType::Scalar(ScalarType::Int32)),
        field("b", VariableReflectionType::Vector(ScalarType::Float32, 3)),
        field("c", VariableReflectionType::Scalar(ScalarType::Uint16)),
    ]);
    assert_eq!(t.get_size(), 34);
}

#[test]
fn zero_sized_field_does_not_move_the_offset() {
    let s = strukt(vec![
        field("a", VariableReflectionType::Scalar(ScalarType::Uint8)),
        field("empty", strukt(Vec::new())),
        field("b", VariableReflectionType::Scalar(ScalarType::Uint8)),
    ]);
    assert_eq!(s.get_size(), 2);
    assert_eq!(strukt(Vec::new()).get_size(), 0);
}
