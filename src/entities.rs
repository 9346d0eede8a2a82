use vstd::prelude::*;

use crate::hash::Hashes;
use crate::spec_version::SpecVersion;
use crate::validation::{
    list_issues, option_view, same_option, same_values, struct_option_issues, views, Issue,
    SameValue, Validate, ValidationContext, ValidationResult,
};

verus! {

/// An identifier that other parts of a document use to refer to an entity.
#[derive(Clone, Debug, PartialEq, Eq)]
pub struct BomReference(pub String);

impl View for BomReference {
    type V = Seq<char>;

    open spec fn view(&self) -> Seq<char> {
        self.0@
    }
}

impl SameValue for BomReference {
    fn same_value(&self, other: &BomReference) -> (r: bool) {
        self.0 == other.0
    }
}

/// A name and value pair that carries data the schema has no field for.
#[derive(Clone, Debug, PartialEq, Eq)]
pub struct Property {
    pub name: String,
    pub value: String,
}

impl View for Property {
    type V = (Seq<char>, Seq<char>);

    open spec fn view(&self) -> (Seq<char>, Seq<char>) {
        (self.name@, self.value@)
    }
}

impl SameValue for Property {
    fn same_value(&self, other: &Property) -> (r: bool) {
        self.name == other.name && self.value == other.value
    }
}

impl Validate for Property {
    /// A property has no rule of its own.
    open spec fn validation(&self, version: SpecVersion) -> Seq<Issue> {
        Seq::empty()
    }

    fn validate_version(&self, version: SpecVersion) -> (r: ValidationResult) {
        ValidationContext::new().into_result()
    }
}

/// A list of properties.
#[derive(Clone, Debug, PartialEq, Eq)]
pub struct Properties(pub Vec<Property>);

impl View for Properties {
    type V = Seq<(Seq<char>, Seq<char>)>;

    open spec fn view(&self) -> Seq<(Seq<char>, Seq<char>)> {
        views(self.0@)
    }
}

impl SameValue for Properties {
    fn same_value(&self, other: &Properties) -> (r: bool) {
        same_values(&self.0, &other.0)
    }
}

impl Validate for Properties {
    open spec fn validation(&self, version: SpecVersion) -> Seq<Issue> {
        list_issues("inner"@, self.0@, version)
    }

    fn validate_version(&self, version: SpecVersion) -> (r: ValidationResult) {
        let ctx = ValidationContext::new().add_list("inner", &self.0, version);
        ctx.into_result()
    }
}

/// A software component, with the fields that validation reads.
#[derive(Clone, Debug, PartialEq, Eq)]
pub struct Component {
    pub bom_ref: Option<BomReference>,
    pub name: String,
    pub hashes: Option<Hashes>,
}

impl View for Component {
    type V = (Option<Seq<char>>, Seq<char>, Option<Seq<(Seq<char>, bool, Seq<char>)>>);

    open spec fn view(&self) -> Self::V {
        (option_view(self.bom_ref), self.name@, option_view(self.hashes))
    }
}

impl SameValue for Component {
    fn same_value(&self, other: &Component) -> (r: bool) {
        same_option(&self.bom_ref, &other.bom_ref) && self.name == other.name && same_option(
            &self.hashes,
            &other.hashes,
        )
    }
}

impl Validate for Component {
    open spec fn validation(&self, version: SpecVersion) -> Seq<Issue> {
        struct_option_issues("hashes"@, self.hashes, version)
    }

    fn validate_version(&self, version: SpecVersion) -> (r: ValidationResult) {
        let ctx = ValidationContext::new().add_struct_option("hashes", self.hashes.as_ref(), version);
        ctx.into_result()
    }
}

/// A list of components.
#[derive(Clone, Debug, PartialEq, Eq)]
pub struct Components(pub Vec<Component>);

/// A service, with the fields that validation reads.
#[derive(Clone, Debug, PartialEq, Eq)]
pub struct Service {
    pub bom_ref: Option<BomReference>,
    pub name: String,
    pub properties: Option<Properties>,
}

impl View for Service {
    type V = (Option<Seq<char>>, Seq<char>, Option<Seq<(Seq<char>, Seq<char>)>>);

    open spec fn view(&self) -> Self::V {
        (option_view(self.bom_ref), self.name@, option_view(self.properties))
    }
}

impl SameValue for Service {
    fn same_value(&self, other: &Service) -> (r: bool) {
        same_option(&self.bom_ref, &other.bom_ref) && self.name == other.name && same_option(
            &self.properties,
            &other.properties,
        )
    }
}

impl Validate for Service {
    open spec fn validation(&self, version: SpecVersion) -> Seq<Issue> {
        struct_option_issues("properties"@, self.properties, version)
    }

    fn validate_version(&self, version: SpecVersion) -> (r: ValidationResult) {
        let ctx = ValidationContext::new().add_struct_option(
            "properties",
            self.properties.as_ref(),
            version,
        );
        ctx.into_result()
    }
}

/// A list of services.
#[derive(Clone, Debug, PartialEq, Eq)]
pub struct Services(pub Vec<Service>);

} // verus!
