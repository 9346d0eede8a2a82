use vstd::prelude::*;
use vstd::string::*;

use crate::entities::{BomReference, Component, Components, Properties, Service, Services};
use crate::spec_version::{version_text, SpecVersion};
use crate::validation::{
    lemma_unique_list_passes, unique_list_passes, option_view, same_option, struct_option_issues, unique_list_option_issues, Issue, SameValue,
    Validate, ValidationContext, ValidationError, ValidationResult,
};

verus! {

/// A workflow of a formulation, with the fields that validation reads.
#[derive(Clone, Debug, PartialEq, Eq)]
pub struct Workflow {
    pub bom_ref: BomReference,
    pub uid: String,
    pub properties: Option<Properties>,
}

impl View for Workflow {
    type V = (Seq<char>, Seq<char>, Option<Seq<(Seq<char>, Seq<char>)>>);

    open spec fn view(&self) -> Self::V {
        (self.bom_ref@, self.uid@, option_view(self.properties))
    }
}

impl SameValue for Workflow {
    fn same_value(&self, other: &Workflow) -> (r: bool) {
        self.bom_ref.0 == other.bom_ref.0 && self.uid == other.uid && same_option(
            &self.properties,
            &other.properties,
        )
    }
}

impl Validate for Workflow {
    open spec fn validation(&self, version: SpecVersion) -> Seq<Issue> {
        struct_option_issues("properties"@, self.properties, version)
    }

    fn validate_version(&self, version: SpecVersion) -> (r: ValidationResult) {
        let ctx = ValidationContext::new().add_struct_option(
            "properties",
            self.properties.as_ref(),
            version,
        );
        ctx.into_result()
    }
}

/// How a document, or a part of it, was made: the components, services and workflows involved.
#[derive(Clone, Debug, PartialEq, Eq)]
pub struct Formula {
    pub bom_ref: Option<BomReference>,
    pub components: Option<Components>,
    pub services: Option<Services>,
    pub workflows: Option<Vec<Workflow>>,
    pub properties: Option<Properties>,
}

/// Whether formulas exist in schema version `version`.
pub open spec fn formula_defined(version: SpecVersion) -> bool {
    version == SpecVersion::V1_5
}

/// The one problem of a formula in a version that does not define formulas.
pub open spec fn formula_undefined_issue(version: SpecVersion) -> Issue {
    Issue { path: Seq::empty(), message: "Formula is not defined for version "@ + version_text(version) }
}

impl Formula {
    pub open spec fn component_list(&self) -> Option<Seq<Component>> {
        match self.components {
            None => None,
            Some(c) => Some(c.0@),
        }
    }

    pub open spec fn service_list(&self) -> Option<Seq<Service>> {
        match self.services {
            None => None,
            Some(s) => Some(s.0@),
        }
    }

    pub open spec fn workflow_list(&self) -> Option<Seq<Workflow>> {
        match self.workflows {
            None => None,
            Some(w) => Some(w@),
        }
    }
}

impl Validate for Formula {
    /// Outside the versions that define formulas, one problem whatever the contents. Else the
    /// components, services and workflows, each unique, then the properties.
    open spec fn validation(&self, version: SpecVersion) -> Seq<Issue> {
        if !formula_defined(version) {
            seq![formula_undefined_issue(version)]
        } else {
            unique_list_option_issues("components"@, self.component_list(), version)
                + unique_list_option_issues("services"@, self.service_list(), version)
                + unique_list_option_issues("workflows"@, self.workflow_list(), version)
                + struct_option_issues("properties"@, self.properties, version)
        }
    }

    fn validate_version(&self, version: SpecVersion) -> (r: ValidationResult) {
        match version {
            SpecVersion::V1_3 | SpecVersion::V1_4 => {
                let mut message = String::from_str("Formula is not defined for version ");
                message.append(version.as_str());
                let e = ValidationError::new(message.as_str());
                let errors = vec![e];
                assert(errors@ =~= seq![e]);
                let r = ValidationResult::from_errors(errors);
                assert(r@ =~= self.validation(version));
                r
            },
            SpecVersion::V1_5 => {
                let components = match &self.components {
                    None => None,
                    Some(c) => Some(&c.0),
                };
                let services = match &self.services {
                    None => None,
                    Some(s) => Some(&s.0),
                };
                let ctx = ValidationContext::new();
                let ctx = ctx.add_unique_list_option("components", components, version);
                let ctx = ctx.add_unique_list_option("services", services, version);
                let ctx = ctx.add_unique_list_option("workflows", self.workflows.as_ref(), version);
                let ctx = ctx.add_struct_option("properties", self.properties.as_ref(), version);
                assert(ctx@ =~= self.validation(version));
                ctx.into_result()
            },
        }
    }
}

/// In a version that does not define formulas, every formula yields exactly one problem, the
/// same one whatever its contents.
pub proof fn lemma_formula_undefined_version(f: Formula, g: Formula, version: SpecVersion)
    requires
        !formula_defined(version),
    ensures
        f.validation(version).len() == 1,
        f.validation(version)[0] == formula_undefined_issue(version),
        f.validation(version) == g.validation(version),
{
}

/// In the version that defines formulas, a formula without components, services, workflows and
/// properties passes.
pub proof fn lemma_empty_formula_passes(f: Formula)
    requires
        f.components is None,
        f.services is None,
        f.workflows is None,
        f.properties is None,
    ensures
        f.validation(SpecVersion::V1_5).len() == 0,
{
}

/// In the version that defines formulas, a formula passes exactly when its components, services
/// and workflows each hold no repeat and only elements that pass, and its properties pass.
pub proof fn lemma_formula_passes_iff_valid(f: Formula)
    ensures
        f.validation(SpecVersion::V1_5).len() == 0 <==> {
            &&& unique_list_passes(f.component_list(), SpecVersion::V1_5)
            &&& unique_list_passes(f.service_list(), SpecVersion::V1_5)
            &&& unique_list_passes(f.workflow_list(), SpecVersion::V1_5)
            &&& struct_option_issues("properties"@, f.properties, SpecVersion::V1_5).len() == 0
        },
{
    let v = SpecVersion::V1_5;
    lemma_unique_list_passes("components"@, f.component_list(), v);
    lemma_unique_list_passes("services"@, f.service_list(), v);
    lemma_unique_list_passes("workflows"@, f.workflow_list(), v);
}

} // verus!
