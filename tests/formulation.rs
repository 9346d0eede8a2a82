use cyclonedx_bom::entities::{
    BomReference, Component, Components, Properties, Property, Service, Services,
};
use cyclonedx_bom::formulation::{Formula, Workflow};
use cyclonedx_bom::hash;
use cyclonedx_bom::validation::{field, list, PathSegment, ValidationContext};
use cyclonedx_bom::{
    HashAlgorithm, HashValue, Hashes, SpecVersion, Validate, ValidationError,
    ValidationResult,
};

fn component(name: &str) -> Component {
    Component { bom_ref: None, name: name.to_string(), hashes: None }
}

fn workflow(uid: &str) -> Workflow {
    Workflow {
        bom_ref: BomReference(format!("ref-{}", uid)),
        uid: uid.to_string(),
        properties: None,
    }
}

fn empty_formula() -> Formula {
    Formula { bom_ref: None, components: None, services: None, workflows: None, properties: None }
}

fn duplicate(name: &str, index: usize) -> ValidationError {
    ValidationError {
        path: vec![PathSegment::Field(name.to_string()), PathSegment::Index(index)],
        message: "Value is not unique".to_string(),
    }
}

fn full_formula() -> Formula {
    Formula {
        bom_ref: Some(BomReference("formula-1".to_string())),
        components: Some(Components(vec![component("a"), component("b")])),
        services: Some(Services(vec![Service {
            bom_ref: None,
            name: "s".to_string(),
            properties: None,
        }])),
        workflows: Some(vec![workflow("w1")]),
        properties: Some(Properties(vec![Property {
            name: "k".to_string(),
            value: "v".to_string(),
        }])),
    }
}

#[test]
fn formula_is_undefined_before_1_5() {
    let result = full_formula().validate_version(SpecVersion::V1_3);
    assert_eq!(
        result.errors(),
        Some(vec![ValidationError::new("Formula is not defined for version 1.3")])
    );
    let result = empty_formula().validate_version(SpecVersion::V1_4);
    assert_eq!(
        result.errors(),
        Some(vec![ValidationError::new("Formula is not defined for version 1.4")])
    );
}

#[test]
fn undefined_version_gives_one_error_whatever_the_contents() {
    let mut bad = full_formula();
    bad.components = Some(Components(vec![component("a"), component("a")]));
    for formula in [empty_formula(), full_formula(), bad] {
        match formula.validate_version(SpecVersion::V1_3) {
            ValidationResult::Failed(errors) => assert_eq!(errors.len(), 1),
            ValidationResult::Passed => panic!("a formula must fail in 1.3"),
        }
    }
}

#[test]
fn valid_formula_passes_in_1_5() {
    assert_eq!(full_formula().validate_version(SpecVersion::V1_5), ValidationResult::Passed);
    assert_eq!(empty_formula().validate_version(SpecVersion::V1_5), ValidationResult::Passed);
}

#[test]
fn duplicate_is_reported_at_the_later_index() {
    let mut formula = empty_formula();
    formula.components =
        Some(Components(vec![component("x"), component("y"), component("x")]));
    assert_eq!(
        formula.validate_version(SpecVersion::V1_5).errors(),
        Some(vec![duplicate("components", 2)])
    );
}

#[test]
fn every_later_repeat_is_reported_in_list_order() {
    let mut formula = empty_formula();
    formula.workflows = Some(vec![workflow("a"), workflow("a"), workflow("b"), workflow("a")]);
    assert_eq!(
        formula.validate_version(SpecVersion::V1_5).errors(),
        Some(vec![duplicate("workflows", 1), duplicate("workflows", 3)])
    );
}

#[test]
fn duplicate_and_invalid_element_give_both_errors() {
    let bad = Component {
        bom_ref: None,
        name: "c".to_string(),
        hashes: Some(Hashes(vec![hash::Hash {
            alg: HashAlgorithm::UnknownHashAlgorithm("x".to_string()),
            content: HashValue("a3bf1f3d584747e2569483783ddee45b".to_string()),
        }])),
    };
    let mut formula = empty_formula();
    formula.components = Some(Components(vec![bad.clone(), bad]));
    let nested = |index: usize| ValidationError {
        path: vec![
            PathSegment::Field("components".to_string()),
            PathSegment::Index(index),
            PathSegment::Field("hashes".to_string()),
            PathSegment::Field("inner".to_string()),
            PathSegment::Index(0),
            PathSegment::Field("alg".to_string()),
        ],
        message: "Unknown HashAlgorithm".to_string(),
    };
    assert_eq!(
        formula.validate_version(SpecVersion::V1_5).errors(),
        Some(vec![duplicate("components", 1), nested(0), nested(1)])
    );
}

#[test]
fn lists_are_reported_in_field_order() {
    let service = Service { bom_ref: None, name: "s".to_string(), properties: None };
    let mut formula = empty_formula();
    formula.components = Some(Components(vec![component("a"), component("a")]));
    formula.services = Some(Services(vec![service.clone(), service]));
    formula.workflows = Some(vec![workflow("w"), workflow("w")]);
    assert_eq!(
        formula.validate_version(SpecVersion::V1_5).errors(),
        Some(vec![duplicate("components", 1), duplicate("services", 1), duplicate("workflows", 1)])
    );
}

#[test]
fn context_collects_fields_in_order() {
    let result = ValidationContext::new()
        .add_field("first", Err(ValidationError::new("one")))
        .add_field("second", Ok(()))
        .add_field("third", Err(ValidationError::new("three")))
        .into_result();
    assert_eq!(result.errors(), Some(vec![field("first", "one"), field("third", "three")]));
    assert_eq!(ValidationContext::new().into_result(), ValidationResult::Passed);
}

#[test]
fn absent_structure_adds_nothing() {
    let none: Option<&Hashes> = None;
    let result = ValidationContext::new()
        .add_struct_option("hashes", none, SpecVersion::V1_5)
        .add_unique_list_option::<Workflow>("workflows", None, SpecVersion::V1_5)
        .into_result();
    assert_eq!(result, ValidationResult::Passed);
}

#[test]
fn list_helper_prefixes_each_error() {
    let errors = list("inner", &[(3, vec![field("a", "m")]), (5, vec![])]);
    assert_eq!(
        errors,
        vec![ValidationError {
            path: vec![
                PathSegment::Field("inner".to_string()),
                PathSegment::Index(3),
                PathSegment::Field("a".to_string()),
            ],
            message: "m".to_string(),
        }]
    );
}

#[test]
fn version_text() {
    assert_eq!(SpecVersion::V1_3.as_str(), "1.3");
    assert_eq!(SpecVersion::V1_4.as_str(), "1.4");
    assert_eq!(SpecVersion::V1_5.as_str(), "1.5");
}

#[test]
fn context_converts_into_result() {
    let result: ValidationResult =
        ValidationContext::new().add_field("f", Err(ValidationError::new("bad"))).into();
    assert_eq!(result, ValidationResult::Failed(vec![field("f", "bad")]));
    let passed: ValidationResult = ValidationContext::new().add_field("f", Ok(())).into();
    assert_eq!(passed, ValidationResult::Passed);
}

#[test]
fn passed_reports_no_errors() {
    let passed = ValidationResult::Passed;
    assert!(passed.passed());
    assert_eq!(passed.errors(), None);
    let failed = ValidationResult::from_errors(vec![ValidationError::new("x")]);
    assert!(!failed.passed());
    assert_eq!(ValidationResult::from_errors(vec![]), ValidationResult::Passed);
}
