use cyclonedx_bom::hash;
use cyclonedx_bom::validation::{field, list};
use cyclonedx_bom::{
    validate_hash_algorithm, validate_hash_value, HashAlgorithm, HashValue, Hashes,
    SpecVersion, Validate, ValidationError, ValidationResult,
};

#[test]
fn it_should_pass_validation() {
    let validation_result = Hashes(vec![hash::Hash {
        alg: HashAlgorithm::MD5,
        content: HashValue("a3bf1f3d584747e2569483783ddee45b".to_string()),
    }])
    .validate(SpecVersion::V1_3);

    assert_eq!(validation_result, ValidationResult::Passed);
}

#[test]
fn it_should_fail_validation() {
    let validation_result = Hashes(vec![hash::Hash {
        alg: HashAlgorithm::UnknownHashAlgorithm("unknown algorithm".to_string()),
        content: HashValue("not a hash".to_string()),
    }])
    .validate(SpecVersion::V1_3);

    assert_eq!(
        validation_result.errors(),
        Some(list(
            "inner",
            &[(
                0,
                vec![
                    field("alg", "Unknown HashAlgorithm"),
                    field("content", "HashValue does not match regular expression")
                ]
            )]
        ))
    );
}

#[test]
fn valid_hashes_pass_in_every_version() {
    for version in [SpecVersion::V1_3, SpecVersion::V1_4, SpecVersion::V1_5] {
        let hashes = Hashes(vec![hash::Hash {
            alg: HashAlgorithm::MD5,
            content: HashValue("a3bf1f3d584747e2569483783ddee45b".to_string()),
        }]);
        assert_eq!(hashes.validate_version(version), ValidationResult::Passed);
    }
}

#[test]
fn empty_hash_list_passes() {
    assert_eq!(Hashes(vec![]).validate(SpecVersion::V1_5), ValidationResult::Passed);
}

#[test]
fn only_the_bad_field_is_reported() {
    let result = Hashes(vec![
        hash::Hash {
            alg: HashAlgorithm::SHA1,
            content: HashValue("a9993e364706816aba3e25717850c26c9cd0d89d".to_string()),
        },
        hash::Hash {
            alg: HashAlgorithm::SHA256,
            content: HashValue("xyz".to_string()),
        },
    ])
    .validate(SpecVersion::V1_4);
    assert_eq!(
        result.errors(),
        Some(list(
            "inner",
            &[(1, vec![field("content", "HashValue does not match regular expression")])]
        ))
    );
}

#[test]
fn wrong_length_digest_is_reported_at_content() {
    let result = Hashes(vec![hash::Hash {
        alg: HashAlgorithm::MD5,
        content: HashValue("0".repeat(33)),
    }])
    .validate(SpecVersion::V1_5);
    assert_eq!(
        result.errors(),
        Some(list(
            "inner",
            &[(0, vec![field("content", "HashValue does not match regular expression")])]
        ))
    );
}

#[test]
fn hex_digits_of_either_case_pass() {
    let mixed = "A3BF1F3D584747E2569483783ddee45b".to_string();
    assert_eq!(validate_hash_value(&HashValue(mixed)), Ok(()));
}

#[test]
fn validating_twice_gives_equal_results() {
    let hashes = Hashes(vec![hash::Hash {
        alg: HashAlgorithm::UnknownHashAlgorithm("whirlpool".to_string()),
        content: HashValue("0".to_string()),
    }]);
    assert_eq!(hashes.validate(SpecVersion::V1_5), hashes.validate(SpecVersion::V1_5));
}

#[test]
fn unknown_algorithm_is_rejected() {
    let unknown = HashAlgorithm::UnknownHashAlgorithm("CRC32".to_string());
    assert_eq!(
        validate_hash_algorithm(&unknown),
        Err(ValidationError::new("Unknown HashAlgorithm"))
    );
    assert_eq!(validate_hash_algorithm(&HashAlgorithm::BLAKE3), Ok(()));
}

#[test]
fn hash_value_lengths() {
    let hex = |n: usize| "0123456789abcdefABCDEF".chars().cycle().take(n).collect::<String>();
    for n in [32, 40, 64, 96, 128] {
        assert_eq!(validate_hash_value(&HashValue(hex(n))), Ok(()), "length {}", n);
    }
    for n in [0, 1, 31, 33, 39, 41, 48, 63, 65, 127, 129] {
        assert_eq!(
            validate_hash_value(&HashValue(hex(n))),
            Err(ValidationError::new("HashValue does not match regular expression")),
            "length {}",
            n
        );
    }
}

#[test]
fn hash_value_must_be_the_whole_string() {
    // 32 digits followed by anything else do not pass.
    let start = format!("{}zz", "a".repeat(32));
    assert!(validate_hash_value(&HashValue(start)).is_err());
    // 40 digits inside other text do not pass.
    let middle = format!("zz{}zz", "b".repeat(40));
    assert!(validate_hash_value(&HashValue(middle)).is_err());
    // 33 and 48 zeros are not digest lengths.
    assert!(validate_hash_value(&HashValue("0".repeat(33))).is_err());
    assert!(validate_hash_value(&HashValue("0".repeat(48))).is_err());
    // 32 digits that are not at the start do not.
    let late = format!("z{}", "c".repeat(32));
    assert!(validate_hash_value(&HashValue(late)).is_err());
}

#[test]
fn known_names_round_trip() {
    let names = [
        "MD5", "SHA-1", "SHA-256", "SHA-384", "SHA-512", "SHA3-256", "SHA3-384", "SHA3-512",
        "BLAKE2b-256", "BLAKE2b-384", "BLAKE2b-512", "BLAKE3",
    ];
    for name in names {
        let alg = HashAlgorithm::new_unchecked(name);
        assert!(!matches!(alg, HashAlgorithm::UnknownHashAlgorithm(_)), "{}", name);
        assert_eq!(alg.to_string(), name);
    }
    assert_eq!(HashAlgorithm::new_unchecked("SHA-1"), HashAlgorithm::SHA1);
    assert_eq!(HashAlgorithm::new_unchecked("BLAKE2b-384"), HashAlgorithm::BLAKE2b_384);
}

#[test]
fn unknown_names_are_kept() {
    for name in ["", "sha-1", "SHA1", "unknown algorithm", "MD5 "] {
        let alg = HashAlgorithm::new_unchecked(name);
        assert_eq!(alg, HashAlgorithm::UnknownHashAlgorithm(name.to_string()));
        assert_eq!(alg.to_string(), name);
    }
}
