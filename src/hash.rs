use vstd::prelude::*;
use vstd::string::*;

use crate::spec_version::SpecVersion;
use crate::text::str_equals;
use crate::validation::{
    lemma_list_passes_iff_elements_pass, lemma_list_reports_element_issue, list_issues, prefix_issue,
    steps, Step, outcome_is, rule_issues, same_values, views, Issue, SameValue, Validate,
    ValidationContext, ValidationError, ValidationResult,
};

verus! {

/// The hash of a component: an algorithm and the digest it produced.
#[derive(Clone, Debug, PartialEq, Eq)]
pub struct Hash {
    pub alg: HashAlgorithm,
    pub content: HashValue,
}

/// A list of hashes.
#[derive(Clone, Debug, PartialEq, Eq)]
pub struct Hashes(pub Vec<Hash>);

/// The algorithm that produced a hash. Names that are not known are kept as they were written.
#[allow(non_camel_case_types)]
#[derive(Clone, Debug, PartialEq, Eq)]
pub enum HashAlgorithm {
    MD5,
    SHA1,
    SHA256,
    SHA384,
    SHA512,
    SHA3_256,
    SHA3_384,
    SHA3_512,
    BLAKE2b_256,
    BLAKE2b_384,
    BLAKE2b_512,
    BLAKE3,
    UnknownHashAlgorithm(String),
}

/// A hash digest as written, checked only when validated.
#[derive(Clone, Debug, PartialEq, Eq)]
pub struct HashValue(pub String);

/// How an algorithm is written in documents.
pub open spec fn algorithm_text(a: HashAlgorithm) -> Seq<char> {
    match a {
        HashAlgorithm::MD5 => "MD5"@,
        HashAlgorithm::SHA1 => "SHA-1"@,
        HashAlgorithm::SHA256 => "SHA-256"@,
        HashAlgorithm::SHA384 => "SHA-384"@,
        HashAlgorithm::SHA512 => "SHA-512"@,
        HashAlgorithm::SHA3_256 => "SHA3-256"@,
        HashAlgorithm::SHA3_384 => "SHA3-384"@,
        HashAlgorithm::SHA3_512 => "SHA3-512"@,
        HashAlgorithm::BLAKE2b_256 => "BLAKE2b-256"@,
        HashAlgorithm::BLAKE2b_384 => "BLAKE2b-384"@,
        HashAlgorithm::BLAKE2b_512 => "BLAKE2b-512"@,
        HashAlgorithm::BLAKE3 => "BLAKE3"@,
        HashAlgorithm::UnknownHashAlgorithm(name) => name@,
    }
}

/// The named algorithm written as `s`, if `s` is one of the known names.
pub open spec fn known_algorithm(s: Seq<char>) -> Option<HashAlgorithm> {
    if s == "MD5"@ {
        Some(HashAlgorithm::MD5)
    } else if s == "SHA-1"@ {
        Some(HashAlgorithm::SHA1)
    } else if s == "SHA-256"@ {
        Some(HashAlgorithm::SHA256)
    } else if s == "SHA-384"@ {
        Some(HashAlgorithm::SHA384)
    } else if s == "SHA-512"@ {
        Some(HashAlgorithm::SHA512)
    } else if s == "SHA3-256"@ {
        Some(HashAlgorithm::SHA3_256)
    } else if s == "SHA3-384"@ {
        Some(HashAlgorithm::SHA3_384)
    } else if s == "SHA3-512"@ {
        Some(HashAlgorithm::SHA3_512)
    } else if s == "BLAKE2b-256"@ {
        Some(HashAlgorithm::BLAKE2b_256)
    } else if s == "BLAKE2b-384"@ {
        Some(HashAlgorithm::BLAKE2b_384)
    } else if s == "BLAKE2b-512"@ {
        Some(HashAlgorithm::BLAKE2b_512)
    } else if s == "BLAKE3"@ {
        Some(HashAlgorithm::BLAKE3)
    } else {
        None
    }
}

impl HashAlgorithm {
    /// The algorithm written as `value`: a known variant for a known name, else the name kept as it is.
    /// Never fails, and writing the result back out gives `value` again.
    pub fn new_unchecked(value: &str) -> (r: HashAlgorithm)
        ensures
            match known_algorithm(value@) {
                Some(a) => r == a,
                None => r matches HashAlgorithm::UnknownHashAlgorithm(name) && name@ == value@,
            },
            algorithm_text(r) == value@,
    {
        if str_equals(value, "MD5") {
            HashAlgorithm::MD5
        } else if str_equals(value, "SHA-1") {
            HashAlgorithm::SHA1
        } else if str_equals(value, "SHA-256") {
            HashAlgorithm::SHA256
        } else if str_equals(value, "SHA-384") {
            HashAlgorithm::SHA384
        } else if str_equals(value, "SHA-512") {
            HashAlgorithm::SHA512
        } else if str_equals(value, "SHA3-256") {
            HashAlgorithm::SHA3_256
        } else if str_equals(value, "SHA3-384") {
            HashAlgorithm::SHA3_384
        } else if str_equals(value, "SHA3-512") {
            HashAlgorithm::SHA3_512
        } else if str_equals(value, "BLAKE2b-256") {
            HashAlgorithm::BLAKE2b_256
        } else if str_equals(value, "BLAKE2b-384") {
            HashAlgorithm::BLAKE2b_384
        } else if str_equals(value, "BLAKE2b-512") {
            HashAlgorithm::BLAKE2b_512
        } else if str_equals(value, "BLAKE3") {
            HashAlgorithm::BLAKE3
        } else {
            HashAlgorithm::UnknownHashAlgorithm(String::from_str(value))
        }
    }

    /// The algorithm as it is written in documents.
    pub fn to_string(&self) -> (r: String)
        ensures
            r@ == algorithm_text(*self),
    {
        match self {
            HashAlgorithm::MD5 => String::from_str("MD5"),
            HashAlgorithm::SHA1 => String::from_str("SHA-1"),
            HashAlgorithm::SHA256 => String::from_str("SHA-256"),
            HashAlgorithm::SHA384 => String::from_str("SHA-384"),
            HashAlgorithm::SHA512 => String::from_str("SHA-512"),
            HashAlgorithm::SHA3_256 => String::from_str("SHA3-256"),
            HashAlgorithm::SHA3_384 => String::from_str("SHA3-384"),
            HashAlgorithm::SHA3_512 => String::from_str("SHA3-512"),
            HashAlgorithm::BLAKE2b_256 => String::from_str("BLAKE2b-256"),
            HashAlgorithm::BLAKE2b_384 => String::from_str("BLAKE2b-384"),
            HashAlgorithm::BLAKE2b_512 => String::from_str("BLAKE2b-512"),
            HashAlgorithm::BLAKE3 => String::from_str("BLAKE3"),
            HashAlgorithm::UnknownHashAlgorithm(name) => name.clone(),
        }
    }
}

/// Every named algorithm, written out and read back, is itself again.
pub proof fn lemma_known_name_round_trip(a: HashAlgorithm)
    requires
        !(a is UnknownHashAlgorithm),
    ensures
        known_algorithm(algorithm_text(a)) == Some(a),
{
    reveal_strlit("MD5");
    reveal_strlit("SHA-1");
    reveal_strlit("SHA-256");
    reveal_strlit("SHA-384");
    reveal_strlit("SHA-512");
    reveal_strlit("SHA3-256");
    reveal_strlit("SHA3-384");
    reveal_strlit("SHA3-512");
    reveal_strlit("BLAKE2b-256");
    reveal_strlit("BLAKE2b-384");
    reveal_strlit("BLAKE2b-512");
    reveal_strlit("BLAKE3");
    assert("MD5"@.len() == 3);
    assert("SHA-1"@.len() == 5);
    assert("BLAKE3"@.len() == 6);
    assert("SHA-256"@.len() == 7 && "SHA-256"@[4] == '2');
    assert("SHA-384"@.len() == 7 && "SHA-384"@[4] == '3');
    assert("SHA-512"@.len() == 7 && "SHA-512"@[4] == '5');
    assert("SHA3-256"@.len() == 8 && "SHA3-256"@[5] == '2');
    assert("SHA3-384"@.len() == 8 && "SHA3-384"@[5] == '3');
    assert("SHA3-512"@.len() == 8 && "SHA3-512"@[5] == '5');
    assert("BLAKE2b-256"@.len() == 11 && "BLAKE2b-256"@[8] == '2');
    assert("BLAKE2b-384"@.len() == 11 && "BLAKE2b-384"@[8] == '3');
    assert("BLAKE2b-512"@.len() == 11 && "BLAKE2b-512"@[8] == '5');
}

pub open spec fn unknown_algorithm_message() -> Seq<char> {
    "Unknown HashAlgorithm"@
}

pub open spec fn hash_value_message() -> Seq<char> {
    "HashValue does not match regular expression"@
}

/// An algorithm passes unless it is one that is not known.
pub fn validate_hash_algorithm(algorithm: &HashAlgorithm) -> (r: Result<(), ValidationError>)
    ensures
        outcome_is(r, !(algorithm is UnknownHashAlgorithm), unknown_algorithm_message()),
{
    match algorithm {
        HashAlgorithm::UnknownHashAlgorithm(_) => Err(ValidationError::new("Unknown HashAlgorithm")),
        _ => Ok(()),
    }
}

pub open spec fn is_hex_digit(c: char) -> bool {
    ('0' <= c && c <= '9') || ('a' <= c && c <= 'f') || ('A' <= c && c <= 'F')
}

/// `n` hexadecimal digits stand in `s` from position `start` on.
pub open spec fn hex_run_at(s: Seq<char>, start: int, n: int) -> bool {
    &&& 0 <= start
    &&& start + n <= s.len()
    &&& forall|k: int| start <= k < start + n ==> is_hex_digit(#[trigger] s[k])
}

/// Whether `s` is a whole digest: exactly 32, 40, 64, 96 or 128 hexadecimal digits, in either case,
/// and nothing else.
pub open spec fn hash_value_shape(s: Seq<char>) -> bool {
    &&& (s.len() == 32 || s.len() == 40 || s.len() == 64 || s.len() == 96 || s.len() == 128)
    &&& hex_run_at(s, 0, s.len() as int)
}

/// The pattern that a hash value must match.
pub const HASH_VALUE_PATTERN: &'static str =
    "^(?:[a-fA-F0-9]{32}|[a-fA-F0-9]{40}|[a-fA-F0-9]{64}|[a-fA-F0-9]{96}|[a-fA-F0-9]{128})$";

/// Relies on regex::Regex::new, which compiles this valid pattern, and regex::Regex::is_match,
/// which reports whether the pattern matches anywhere in `haystack`. Here `^` and `$` match only
/// at the start and end of the haystack and enclose the whole alternation, `x{n}` is exactly n
/// repetitions, and a character class matches one char: so the haystack matches exactly when
/// it consists of one of the five counts of hex digits.
#[verifier::external_body]
fn hash_pattern_is_match(pattern: &str, haystack: &str) -> (r: bool)
    requires
        pattern@ == HASH_VALUE_PATTERN@,
    ensures
        r == hash_value_shape(haystack@),
{
    match regex::Regex::new(pattern) {
        Ok(re) => re.is_match(haystack),
        Err(_) => false,
    }
}

/// A hash value passes if it matches the hash value pattern.
pub fn validate_hash_value(value: &HashValue) -> (r: Result<(), ValidationError>)
    ensures
        outcome_is(r, hash_value_shape(value.0@), hash_value_message()),
{
    if !hash_pattern_is_match(HASH_VALUE_PATTERN, value.0.as_str()) {
        return Err(ValidationError::new("HashValue does not match regular expression"));
    }
    Ok(())
}

impl View for Hash {
    /// The algorithm as written, whether it is an unknown one, and the digest.
    type V = (Seq<char>, bool, Seq<char>);

    open spec fn view(&self) -> (Seq<char>, bool, Seq<char>) {
        (algorithm_text(self.alg), self.alg is UnknownHashAlgorithm, self.content.0@)
    }
}

impl HashAlgorithm {
    /// Whether the algorithm is one that is not known.
    pub fn is_unknown(&self) -> (r: bool)
        ensures
            r == (*self is UnknownHashAlgorithm),
    {
        match self {
            HashAlgorithm::UnknownHashAlgorithm(_) => true,
            _ => false,
        }
    }
}

impl SameValue for Hash {
    fn same_value(&self, other: &Hash) -> (r: bool) {
        let same_alg = self.alg.is_unknown() == other.alg.is_unknown() && self.alg.to_string()
            == other.alg.to_string();
        same_alg && self.content.0 == other.content.0
    }
}

impl View for Hashes {
    type V = Seq<(Seq<char>, bool, Seq<char>)>;

    open spec fn view(&self) -> Seq<(Seq<char>, bool, Seq<char>)> {
        views(self.0@)
    }
}

impl SameValue for Hashes {
    fn same_value(&self, other: &Hashes) -> (r: bool) {
        same_values(&self.0, &other.0)
    }
}

impl Validate for Hash {
    open spec fn validation(&self, version: SpecVersion) -> Seq<Issue> {
        rule_issues("alg"@, !(self.alg is UnknownHashAlgorithm), unknown_algorithm_message())
            + rule_issues("content"@, hash_value_shape(self.content.0@), hash_value_message())
    }

    fn validate_version(&self, version: SpecVersion) -> (r: ValidationResult) {
        let ctx = ValidationContext::new();
        let ctx = ctx.add_field("alg", validate_hash_algorithm(&self.alg));
        let ctx = ctx.add_field("content", validate_hash_value(&self.content));
        assert(ctx@ =~= self.validation(version));
        ctx.into_result()
    }
}

impl Validate for Hashes {
    open spec fn validation(&self, version: SpecVersion) -> Seq<Issue> {
        list_issues("inner"@, self.0@, version)
    }

    fn validate_version(&self, version: SpecVersion) -> (r: ValidationResult) {
        let ctx = ValidationContext::new().add_list("inner", &self.0, version);
        assert(ctx@ =~= self.validation(version));
        ctx.into_result()
    }
}

/// A hash with a known algorithm and a digest that matches the pattern.
pub open spec fn hash_is_valid(h: Hash) -> bool {
    !(h.alg is UnknownHashAlgorithm) && hash_value_shape(h.content.0@)
}

/// A hash passes exactly when it is valid; an unknown algorithm is reported at `alg`, and a
/// malformed digest at `content`.
pub proof fn lemma_hash_passes_iff_valid(h: Hash, version: SpecVersion)
    ensures
        h.validation(version).len() == 0 <==> hash_is_valid(h),
        h.alg is UnknownHashAlgorithm ==> h.validation(version).contains(
            Issue { path: seq![Step::Field("alg"@)], message: unknown_algorithm_message() },
        ),
        !hash_value_shape(h.content.0@) ==> h.validation(version).contains(
            Issue { path: seq![Step::Field("content"@)], message: hash_value_message() },
        ),
{
    let v = h.validation(version);
    let a = rule_issues("alg"@, !(h.alg is UnknownHashAlgorithm), unknown_algorithm_message());
    if h.alg is UnknownHashAlgorithm {
        assert(v[0] == a[0]);
    }
    if !hash_value_shape(h.content.0@) {
        assert(v[a.len() as int] == Issue {
            path: seq![Step::Field("content"@)],
            message: hash_value_message(),
        });
    }
}

/// A list of hashes passes exactly when every hash in it is valid; each problem of a hash is
/// reported below `inner` and the hash's index.
pub proof fn lemma_hashes_pass_iff_all_valid(hashes: Hashes, version: SpecVersion)
    ensures
        hashes.validation(version).len() == 0 <==> forall|i: int|
            0 <= i < hashes.0@.len() ==> hash_is_valid(#[trigger] hashes.0@[i]),
        forall|i: int, k: int|
            0 <= i < hashes.0@.len() && 0 <= k < hashes.0@[i].validation(version).len()
                ==> hashes.validation(version).contains(
                #[trigger] prefix_issue(
                    steps("inner"@, Some(i)),
                    #[trigger] hashes.0@[i].validation(version)[k],
                ),
            ),
{
    let items = hashes.0@;
    lemma_list_passes_iff_elements_pass("inner"@, items, version);
    assert forall|i: int| 0 <= i < items.len() implies (items[i].validation(version).len() == 0
        <==> hash_is_valid(#[trigger] items[i])) by {
        lemma_hash_passes_iff_valid(items[i], version);
    }
    assert forall|i: int, k: int|
        0 <= i < items.len() && 0 <= k < items[i].validation(version).len() implies hashes.validation(
        version,
    ).contains(
        #[trigger] prefix_issue(steps("inner"@, Some(i)), #[trigger] items[i].validation(version)[k]),
    ) by {
        lemma_list_reports_element_issue("inner"@, items, version, i, k);
    }
}

} // verus!
