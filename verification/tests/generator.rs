use enum_accessors::ast::{
    DeriveInput, Diagnostic, FieldDef, GenericsDef, InputData, Severity, VariantDef, VariantFields,
};
use enum_accessors::enum_field_accessors;

fn named(name: &str, fields: &[(&str, &str)]) -> VariantDef {
    let mut fds = Vec::new();
    for (f, t) in fields {
        fds.push(FieldDef { name: (*f).to_string(), ty: (*t).to_string() });
    }
    VariantDef { name: name.to_string(), fields: VariantFields::Named(fds) }
}

fn other(name: &str) -> VariantDef {
    VariantDef { name: name.to_string(), fields: VariantFields::Other }
}

fn plain_enum(name: &str, variants: Vec<VariantDef>) -> DeriveInput {
    DeriveInput {
        name: name.to_string(),
        generics: GenericsDef { params: String::new(), where_clause: String::new() },
        data: InputData::Enum(variants),
    }
}

fn generic_enum(name: &str, params: &str, variants: Vec<VariantDef>) -> DeriveInput {
    DeriveInput {
        name: name.to_string(),
        generics: GenericsDef { params: params.to_string(), where_clause: String::new() },
        data: InputData::Enum(variants),
    }
}

#[test]
fn equal_fields_can_directly_access() {
    let input = plain_enum(
        "Enum",
        vec![named("V1", &[("ivalue", "i32")]), named("V2", &[("ivalue", "i32")])],
    );
    let out = enum_field_accessors(&input).unwrap();
    let expected = "impl Enum {\n\
                    \n\
                    \x20   pub fn ivalue(&self) -> &i32 {\n\
                    \x20       match self {\n\
                    \x20           Self::V1 { ivalue, .. } => ivalue,\n\
                    \x20           Self::V2 { ivalue, .. } => ivalue,\n\
                    \x20       }\n\
                    \x20   }\n\
                    \n\
                    \x20   pub fn ivalue_mut(&mut self) -> &mut i32 {\n\
                    \x20       match self {\n\
                    \x20           Self::V1 { ivalue, .. } => ivalue,\n\
                    \x20           Self::V2 { ivalue, .. } => ivalue,\n\
                    \x20       }\n\
                    \x20   }\n\
                    }\n";
    assert_eq!(out.code, expected);
    assert!(out.diagnostics.is_empty());
}

#[test]
fn different_fields_return_options() {
    let input = plain_enum(
        "Enum",
        vec![named("V1", &[("ivalue", "i32")]), named("V2", &[("fvalue", "f32")])],
    );
    let out = enum_field_accessors(&input).unwrap();
    assert!(out.code.contains("pub fn ivalue(&self) -> Option<&i32> {"));
    assert!(out.code.contains("Self::V1 { ivalue, .. } => Some(ivalue),"));
    assert!(out.code.contains("Self::V2 { .. } => None,"));
    assert!(out.code.contains("pub fn fvalue(&self) -> Option<&f32> {"));
    assert!(out.code.contains("Self::V1 { .. } => None,"));
    assert!(out.code.contains("Self::V2 { fvalue, .. } => Some(fvalue),"));
    assert!(out.diagnostics.is_empty());
}

#[test]
fn generics_are_supported() {
    let input = generic_enum(
        "Enum",
        "T, U",
        vec![
            named("V1", &[("t_value", "T")]),
            named("V2", &[("t_value", "T"), ("u_value", "U")]),
        ],
    );
    let out = enum_field_accessors(&input).unwrap();
    assert!(out.code.starts_with("impl<T, U> Enum<T, U> {\n"));
    assert!(out.code.contains("pub fn t_value(&self) -> &T {"));
    assert!(out.code.contains("pub fn t_value_mut(&mut self) -> &mut T {"));
    assert!(out.code.contains("pub fn u_value(&self) -> Option<&U> {"));
    assert!(out.code.contains("Self::V1 { .. } => None,"));
    assert!(out.code.contains("Self::V2 { u_value, .. } => Some(u_value),"));
}

#[test]
fn all_together() {
    let input = generic_enum(
        "Enum",
        "'a, T",
        vec![
            named("V1", &[("value", "&'a T"), ("optional_v1", "Option<i32>")]),
            named("V2", &[("value", "&'a T")]),
        ],
    );
    let out = enum_field_accessors(&input).unwrap();
    assert!(out.code.starts_with("impl<'a, T> Enum<'a, T> {\n"));
    assert!(out.code.contains("pub fn value(&self) -> &&'a T {"));
    assert!(out.code.contains("pub fn optional_v1(&self) -> Option<&Option<i32>> {"));
    assert!(out.code.contains("Self::V1 { optional_v1, .. } => Some(optional_v1),"));
    assert!(out.code.contains("Self::V2 { .. } => None,"));
}

#[test]
fn ambiguous_field_is_excluded_with_warning() {
    let input = plain_enum(
        "Enum",
        vec![named("V1", &[("x", "i32")]), named("V2", &[("x", "String")])],
    );
    let out = enum_field_accessors(&input).unwrap();
    assert!(!out.code.contains("pub fn x("));
    assert!(!out.code.contains("pub fn x_mut("));
    assert_eq!(out.code, "impl Enum {\n}\n");
    assert_eq!(out.diagnostics.len(), 1);
    match &out.diagnostics[0] {
        Diagnostic::TypeAmbiguityWarning { field } => assert_eq!(field, "x"),
        d => panic!("unexpected diagnostic: {:?}", d.message()),
    }
}

#[test]
fn shapeless_variant_folds_into_absent() {
    let input = plain_enum("Enum", vec![other("V1"), named("V2", &[("x", "i32")])]);
    let out = enum_field_accessors(&input).unwrap();
    assert!(out.code.contains("pub fn x(&self) -> Option<&i32> {"));
    assert!(out.code.contains("Self::V1 { .. } => None,"));
    assert!(out.code.contains("Self::V2 { x, .. } => Some(x),"));
    assert_eq!(out.diagnostics.len(), 1);
    match &out.diagnostics[0] {
        Diagnostic::ShapeWarning { variant } => assert_eq!(variant, "V1"),
        d => panic!("unexpected diagnostic: {:?}", d.message()),
    }
}

#[test]
fn non_enum_input_is_rejected() {
    let input = DeriveInput {
        name: "NotAnEnum".to_string(),
        generics: GenericsDef { params: String::new(), where_clause: String::new() },
        data: InputData::Struct,
    };
    let err = enum_field_accessors(&input).unwrap_err();
    assert_eq!(err.name, "NotAnEnum");
}

#[test]
fn union_input_is_rejected() {
    let input = DeriveInput {
        name: "U".to_string(),
        generics: GenericsDef { params: String::new(), where_clause: String::new() },
        data: InputData::Union,
    };
    assert!(enum_field_accessors(&input).is_err());
}

#[test]
fn output_is_deterministic() {
    let input = generic_enum(
        "Enum",
        "T",
        vec![
            named("V2", &[("b", "T"), ("a", "i32")]),
            other("V0"),
            named("V1", &[("a", "i32")]),
        ],
    );
    let out1 = enum_field_accessors(&input).unwrap();
    let out2 = enum_field_accessors(&input).unwrap();
    assert_eq!(out1.code, out2.code);
    assert_eq!(out1.diagnostics.len(), out2.diagnostics.len());
}

#[test]
fn emission_order_is_sorted() {
    // Variants and fields arrive unsorted; arms and accessors come out sorted.
    let input = plain_enum(
        "Enum",
        vec![
            named("Zeta", &[("beta", "u8"), ("alpha", "u8")]),
            named("Alpha", &[("beta", "u8"), ("alpha", "u8")]),
        ],
    );
    let out = enum_field_accessors(&input).unwrap();
    let alpha_fn = out.code.find("pub fn alpha(").unwrap();
    let beta_fn = out.code.find("pub fn beta(").unwrap();
    assert!(alpha_fn < beta_fn);
    let arm_a = out.code.find("Self::Alpha {").unwrap();
    let arm_z = out.code.find("Self::Zeta {").unwrap();
    assert!(arm_a < arm_z);
}

#[test]
fn where_clause_is_reproduced() {
    let input = DeriveInput {
        name: "Enum".to_string(),
        generics: GenericsDef {
            params: "T".to_string(),
            where_clause: "where T: Clone".to_string(),
        },
        data: InputData::Enum(vec![named("V1", &[("x", "T")])]),
    };
    let out = enum_field_accessors(&input).unwrap();
    assert!(out.code.starts_with("impl<T> Enum<T> where T: Clone {\n"));
}

#[test]
fn empty_enum_yields_empty_impl() {
    let input = plain_enum("Never", vec![]);
    let out = enum_field_accessors(&input).unwrap();
    assert_eq!(out.code, "impl Never {\n}\n");
    assert!(out.diagnostics.is_empty());
}

#[test]
fn duplicate_occurrences_of_one_rendering_stay_eligible() {
    // The same rendering observed twice is one element of diversity.
    let input = plain_enum(
        "Enum",
        vec![named("V1", &[("x", "i32"), ("x", "i32")]), named("V2", &[("x", "i32")])],
    );
    let out = enum_field_accessors(&input).unwrap();
    assert!(out.code.contains("pub fn x(&self) -> &i32 {"));
    assert!(out.diagnostics.is_empty());
}

#[test]
fn diagnostics_report_collection_before_resolution() {
    let input = plain_enum(
        "Enum",
        vec![
            named("V1", &[("x", "i32")]),
            other("V2"),
            named("V3", &[("x", "String")]),
        ],
    );
    let out = enum_field_accessors(&input).unwrap();
    assert_eq!(out.diagnostics.len(), 2);
    assert!(matches!(&out.diagnostics[0], Diagnostic::ShapeWarning { variant } if variant == "V2"));
    assert!(
        matches!(&out.diagnostics[1], Diagnostic::TypeAmbiguityWarning { field } if field == "x")
    );
}

#[test]
fn direct_access_example() {
    let input = plain_enum("E", vec![named("V1", &[("x", "i32")]), named("V2", &[("x", "i32")])]);
    let out = enum_field_accessors(&input).unwrap();
    assert!(out.code.contains("pub fn x(&self) -> &i32 {"));
    assert!(out.code.contains("pub fn x_mut(&mut self) -> &mut i32 {"));
    assert!(!out.code.contains("Option"));
    assert!(!out.code.contains("None"));
}

#[test]
fn disjoint_fields_example() {
    let input = plain_enum("E", vec![named("V1", &[("x", "i32")]), named("V2", &[("y", "f32")])]);
    let out = enum_field_accessors(&input).unwrap();
    assert!(out.code.contains("pub fn x(&self) -> Option<&i32> {"));
    assert!(out.code.contains("pub fn x_mut(&mut self) -> Option<&mut i32> {"));
    assert!(out.code.contains("pub fn y(&self) -> Option<&f32> {"));
    assert!(out.code.contains("pub fn y_mut(&mut self) -> Option<&mut f32> {"));
    // one absent arm per accessor: x is absent for V2, y for V1
    assert_eq!(out.code.matches("=> None,").count(), 4);
}

#[test]
fn diagnostics_carry_severity_message_and_anchor() {
    let input = plain_enum("E", vec![other("V1"), named("V2", &[("x", "i32")])]);
    let out = enum_field_accessors(&input).unwrap();
    let d = &out.diagnostics[0];
    assert_eq!(d.anchor(), "V1");
    assert_eq!(d.message(), "No fields will be generated for this type of enum");
    assert!(matches!(d.severity(), Severity::Warning));

    let bad = DeriveInput {
        name: "E".to_string(),
        generics: GenericsDef { params: String::new(), where_clause: String::new() },
        data: InputData::Struct,
    };
    let err = enum_field_accessors(&bad).unwrap_err();
    assert_eq!(err.message(), "This derive must be used on an enum");
    assert!(matches!(err.severity(), Severity::Fatal));
}

#[test]
fn ambiguity_message_matches_resolution() {
    let input = plain_enum("E", vec![named("V1", &[("x", "i32")]), named("V2", &[("x", "u32")])]);
    let out = enum_field_accessors(&input).unwrap();
    let d = &out.diagnostics[0];
    assert_eq!(d.anchor(), "x");
    assert_eq!(d.message(), "Field type is not unique and will not have any accessors");
}
