use vstd::prelude::*;

verus! {

/// A generation of the document schema.
#[derive(Clone, Copy, Debug, PartialEq, Eq, Structural)]
pub enum SpecVersion {
    V1_3,
    V1_4,
    V1_5,
}

/// How a schema version is written: `1.3`, `1.4`, `1.5`.
pub open spec fn version_text(v: SpecVersion) -> Seq<char> {
    match v {
        SpecVersion::V1_3 => "1.3"@,
        SpecVersion::V1_4 => "1.4"@,
        SpecVersion::V1_5 => "1.5"@,
    }
}

impl SpecVersion {
    /// The version as it is written in documents.
    pub fn as_str(&self) -> (r: &'static str)
        ensures
            r@ == version_text(*self),
    {
        match self {
            SpecVersion::V1_3 => "1.3",
            SpecVersion::V1_4 => "1.4",
            SpecVersion::V1_5 => "1.5",
        }
    }
}

} // verus!
