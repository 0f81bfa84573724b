use stateknot_core::decimal::{decimal_string, parse_bounded_u64, UnsignedDecimalError};
use stateknot_core::digest::{Digest, DigestAlgorithm, DigestError};
use stateknot_core::identity::{
    check_issuer, IssuerId, IssuerIdError, PrincipalIdentity, SubjectId, SubjectIdError,
};
use stateknot_core::ids::{
    AgentSubmissionKey, AgentSubmissionKeyError, ArtifactId, AttemptId, CheckpointId, DeliveryId,
    DestinationId, EventId, FailureId, GeneratedIdError, InterruptId, InvocationId, MessageId,
    QuarantineId, RunId, SchedulerReservationId, SchedulerShardId, SchedulerShardIdError, TenantId,
    TenantIdError, ThreadId, TimerId,
};
use stateknot_core::names::{CapabilityName, ChildRunSlot, NameError, NodeId, RouteId};
use stateknot_core::uri::{AuthorityParts, UriParts};

const EMPTY_SHA256: &str =
    "sha256:e3b0c44298fc1c149afbf4c8996fb92427ae41e4649b934ca495991b7852b855";
const ABC_SHA256: &str =
    "sha256:ba7816bf8f01cfea414140de5dae2223b00361a396177a9cb410ff61f20015ad";
const ISSUER: &str = "https://issuer.example.com/tenant";

#[test]
fn bounded_parser_enforces_canonical_text_and_limit() {
    assert_eq!(parse_bounded_u64("0", u64::MAX), Ok(0));
    assert_eq!(
        parse_bounded_u64("18446744073709551615", u64::MAX),
        Ok(u64::MAX)
    );
    assert_eq!(
        parse_bounded_u64("", u64::MAX),
        Err(UnsignedDecimalError::Empty)
    );
    assert_eq!(
        parse_bounded_u64("00", u64::MAX),
        Err(UnsignedDecimalError::LeadingZero)
    );
    assert_eq!(
        parse_bounded_u64("1x", u64::MAX),
        Err(UnsignedDecimalError::InvalidCharacter { index: 1 })
    );
    assert_eq!(
        parse_bounded_u64("18446744073709551616", u64::MAX),
        Err(UnsignedDecimalError::Overflow)
    );
    assert_eq!(
        parse_bounded_u64("10", 9),
        Err(UnsignedDecimalError::TooLong { max: 1, actual: 2 })
    );
    assert_eq!(
        parse_bounded_u64("9", 8),
        Err(UnsignedDecimalError::Overflow)
    );
}

#[test]
fn written_decimals_read_back() {
    for value in [0, 7, 10, 99, 100, 65535, 1_000_000_007, u64::MAX - 1, u64::MAX] {
        let text = decimal_string(value);
        assert_eq!(text, format!("{value}"));
        assert_eq!(parse_bounded_u64(&text, u64::MAX), Ok(value));
    }
}

#[test]
fn sha256_matches_published_vectors_and_round_trips() {
    let empty = Digest::sha256(&[]);
    assert_eq!(empty.to_string(), EMPTY_SHA256);
    assert_eq!(empty.algorithm(), DigestAlgorithm::Sha256);
    assert_eq!(empty.algorithm().as_str(), "sha256");
    assert_eq!(empty.as_bytes().len(), Digest::SHA256_LEN);
    assert_eq!(EMPTY_SHA256.parse::<Digest>().unwrap(), empty);

    let abc = Digest::sha256(b"abc");
    assert_eq!(abc.to_string(), ABC_SHA256);
    assert_eq!(ABC_SHA256.parse::<Digest>().unwrap(), abc);
    let mut bytes = [0_u8; 32];
    bytes.copy_from_slice(abc.as_bytes());
    assert_eq!(Digest::from_sha256(bytes), abc);
}

#[test]
fn digest_rejects_noncanonical_or_malformed_text() {
    assert_eq!("sha256".parse::<Digest>(), Err(DigestError::InvalidFormat));
    assert_eq!(
        ABC_SHA256.replace("sha256", "sha512").parse::<Digest>(),
        Err(DigestError::UnsupportedAlgorithm)
    );
    assert_eq!(
        ABC_SHA256.replace("sha256", "SHA256").parse::<Digest>(),
        Err(DigestError::NonCanonical)
    );
    assert_eq!(
        ABC_SHA256.to_ascii_uppercase().parse::<Digest>(),
        Err(DigestError::NonCanonical)
    );

    let short = "sha256:00";
    assert_eq!(
        short.parse::<Digest>(),
        Err(DigestError::InvalidLength {
            expected: Digest::SHA256_LEN * 2,
            actual: 2,
        })
    );

    let invalid = ABC_SHA256.replacen('b', "g", 1);
    assert_eq!(
        invalid.parse::<Digest>(),
        Err(DigestError::InvalidHex { index: 7 })
    );

    let too_long = format!("{ABC_SHA256}0");
    assert_eq!(
        too_long.parse::<Digest>(),
        Err(DigestError::TooLong {
            max: 71,
            actual: too_long.len(),
        })
    );
}

#[test]
fn digest_serde_uses_and_enforces_canonical_text() {
    let digest = Digest::sha256(b"serde");
    let encoded = digest.to_string();
    assert_eq!(encoded.parse::<Digest>().unwrap(), digest);
    assert!(encoded.to_uppercase().parse::<Digest>().is_err());
}

#[test]
fn issuer_ids_preserve_exact_oidc_identity_text() {
    for value in [
        "https://issuer.example.com",
        "https://issuer.example.com/",
        ISSUER,
        "https://issuer.example.com:8443/tenant",
        "HTTPS://ISSUER.example.com:443/a/../tenant",
        "https://issuer.example.com/%7Etenant",
    ] {
        let issuer = value.parse::<IssuerId>().unwrap();
        assert_eq!(issuer.as_str(), value);
        assert_eq!(issuer.to_string(), value);
    }

    let lowercase = "https://issuer.example.com".parse::<IssuerId>().unwrap();
    let uppercase = "HTTPS://ISSUER.example.com".parse::<IssuerId>().unwrap();
    let slash = "https://issuer.example.com/".parse::<IssuerId>().unwrap();
    let default_port = "https://issuer.example.com:443"
        .parse::<IssuerId>()
        .unwrap();
    assert_ne!(lowercase, uppercase);
    assert_ne!(lowercase, slash);
    assert_ne!(lowercase, default_port);

    let prefix = "https://issuer.example.com/";
    let maximum = format!("{prefix}{}", "a".repeat(IssuerId::MAX_LEN - prefix.len()));
    assert_eq!(maximum.len(), IssuerId::MAX_LEN);
    assert_eq!(maximum.parse::<IssuerId>().unwrap().as_str(), maximum);
}

#[test]
fn issuer_ids_reject_non_oidc_urls() {
    for value in [
        "issuer.example.com",
        "http://issuer.example.com",
        "https:/issuer.example.com",
        "https://",
        "https://issuer.example.com:",
        "https://issuer.example.com:65536",
        "https://user@issuer.example.com",
        "https://issuer.example.com?",
        "https://issuer.example.com?tenant=one",
        "https://issuer.example.com#",
        "https://issuer.example.com#fragment",
        "https://例子.example.com",
    ] {
        assert!(value.parse::<IssuerId>().is_err(), "accepted {value:?}");
    }

    let oversized = format!(
        "https://issuer.example.com/{}",
        "a".repeat(IssuerId::MAX_LEN)
    );
    assert_eq!(
        oversized.parse::<IssuerId>(),
        Err(IssuerIdError::TooLong {
            max: IssuerId::MAX_LEN,
            actual: oversized.len(),
        })
    );
}

#[test]
fn issuer_rules_name_the_first_defect() {
    for (value, error) in [
        ("", IssuerIdError::Empty),
        ("not a uri", IssuerIdError::InvalidUri),
        ("http://issuer.example.com", IssuerIdError::UnsupportedScheme),
        ("https:/issuer.example.com", IssuerIdError::MissingAuthority),
        ("https://", IssuerIdError::MissingAuthority),
        ("https://user@issuer.example.com", IssuerIdError::UserInfoNotAllowed),
        ("https://issuer.example.com:65536", IssuerIdError::InvalidPort),
        ("https://issuer.example.com:", IssuerIdError::InvalidPort),
        ("https://issuer.example.com?", IssuerIdError::QueryNotAllowed),
        ("https://issuer.example.com#", IssuerIdError::FragmentNotAllowed),
    ] {
        assert_eq!(IssuerId::new(value), Err(error), "{value:?}");
    }
    let parts = UriParts {
        scheme: "hTTps".to_owned(),
        authority: Some(AuthorityParts {
            host: "h".to_owned(),
            has_userinfo: false,
            port: Some("65535".to_owned()),
        }),
        has_query: false,
        has_fragment: false,
    };
    assert_eq!(check_issuer("hTTps://h:65535", &Some(parts)), Ok(()));
    assert_eq!(
        check_issuer("anything", &None),
        Err(IssuerIdError::InvalidUri)
    );
}

#[test]
fn subject_ids_are_opaque_case_sensitive_and_redacted_in_debug() {
    let all_printable_ascii = (0x20_u8..=0x7e).map(char::from).collect::<String>();
    assert_eq!(
        all_printable_ascii.parse::<SubjectId>().unwrap().as_str(),
        all_printable_ascii
    );

    for value in [
        "24400320",
        "AItOawmwtWwcT0k51BayewNvutrJUqsvl6qs7A4",
        "User Name",
        "subject:\"quoted\"\\opaque",
    ] {
        let subject = value.parse::<SubjectId>().unwrap();
        assert_eq!(subject.as_str(), value);
        let debug = format!("{subject:?}");
        assert!(!debug.contains(value));
        assert!(debug.contains("<redacted>"));
    }

    assert_ne!(
        "subject".parse::<SubjectId>().unwrap(),
        "Subject".parse::<SubjectId>().unwrap()
    );

    let maximum = "a".repeat(SubjectId::MAX_LEN);
    assert_eq!(maximum.parse::<SubjectId>().unwrap().as_str(), maximum);
}

#[test]
fn subject_ids_reject_empty_control_unicode_and_oversized_values() {
    assert_eq!("".parse::<SubjectId>(), Err(SubjectIdError::Empty));
    assert_eq!(
        "a".repeat(SubjectId::MAX_LEN + 1).parse::<SubjectId>(),
        Err(SubjectIdError::TooLong {
            max: SubjectId::MAX_LEN,
            actual: SubjectId::MAX_LEN + 1,
        })
    );

    for byte in 0_u8..=0x7f {
        if (0x20..=0x7e).contains(&byte) {
            continue;
        }
        let value = String::from_utf8(vec![byte]).unwrap();
        assert_eq!(
            value.parse::<SubjectId>(),
            Err(SubjectIdError::InvalidByte { index: 0 }),
            "accepted ASCII byte 0x{byte:02x}"
        );
    }
    assert_eq!(
        "用户".parse::<SubjectId>(),
        Err(SubjectIdError::InvalidByte { index: 0 })
    );
}

#[test]
fn principal_identity_requires_the_exact_issuer_subject_pair() {
    let issuer = ISSUER.parse::<IssuerId>().unwrap();
    let subject = "subject-42".parse::<SubjectId>().unwrap();
    let identity = PrincipalIdentity::new(issuer.clone(), subject.clone());

    assert_eq!(identity.issuer(), &issuer);
    assert_eq!(identity.subject(), &subject);
    assert_eq!(
        identity.to_json().to_string(),
        format!("{{\"issuer\":\"{ISSUER}\",\"subject\":\"subject-42\"}}")
    );
    let debug = format!("{identity:?}");
    assert!(debug.contains(ISSUER));
    assert!(!debug.contains(subject.as_str()));
    assert!(debug.contains("<redacted>"));
    assert_ne!(
        identity,
        PrincipalIdentity::new(
            "https://other.example.com".parse().unwrap(),
            subject.clone()
        )
    );
    assert!("http://issuer.example.com".parse::<IssuerId>().is_err());
    assert!("subject\n42".parse::<SubjectId>().is_err());
}

#[test]
fn tenant_id_accepts_the_documented_grammar() {
    for value in ["a", "tenant-42", "org.example:production", "A_B"] {
        let tenant = TenantId::new(value).expect("valid tenant ID");
        assert_eq!(tenant.as_str(), value);
        assert_eq!(tenant.to_string(), value);
    }

    let longest = "a".repeat(TenantId::MAX_LEN);
    assert_eq!(TenantId::new(&longest).unwrap().as_str(), longest);
}

#[test]
fn tenant_id_rejects_ambiguous_or_unbounded_values() {
    assert_eq!(TenantId::new(""), Err(TenantIdError::Empty));
    assert_eq!(TenantId::new("."), Err(TenantIdError::PathLike));
    assert_eq!(TenantId::new(".."), Err(TenantIdError::PathLike));
    assert_eq!(
        TenantId::new(&"a".repeat(TenantId::MAX_LEN + 1)),
        Err(TenantIdError::TooLong {
            max: TenantId::MAX_LEN,
            actual: TenantId::MAX_LEN + 1,
        })
    );

    for value in ["tenant name", "tenant/name", "tenant\\name", "租户"] {
        assert!(matches!(
            TenantId::new(value),
            Err(TenantIdError::InvalidByte { .. })
        ));
    }
}

#[test]
fn scheduler_shard_id_has_an_independent_bounded_control_plane_type() {
    let shard = SchedulerShardId::new("prod:fairness-01").unwrap();
    assert_eq!(shard.as_str(), "prod:fairness-01");
    assert_eq!(shard.to_string(), "prod:fairness-01");
    assert_eq!(
        SchedulerShardId::new("."),
        Err(SchedulerShardIdError::PathLike)
    );
    assert!(matches!(
        SchedulerShardId::new("bad/shard"),
        Err(SchedulerShardIdError::InvalidByte { index: 3 })
    ));
}

#[test]
fn tenant_id_serde_revalidates_input() {
    let tenant = TenantId::new("org.example:prod").unwrap();
    assert_eq!(tenant.to_string().parse::<TenantId>().unwrap(), tenant);
    assert!("../other".parse::<TenantId>().is_err());
}

#[test]
fn agent_submission_keys_are_bounded_redacted_and_tenant_scoped() {
    let key = AgentSubmissionKey::new("request_01K4Z8Q6QH7W5X3M2N1P").unwrap();
    assert_eq!(key.to_string().parse::<AgentSubmissionKey>().unwrap(), key);
    let debug = format!("{key:?}");
    assert!(!debug.contains(key.as_str()));
    assert!(debug.contains("byte_length"));

    let first = TenantId::new("tenant-a").unwrap();
    let second = TenantId::new("tenant-b").unwrap();
    assert_eq!(key.digest_for(&first), key.digest_for(&first));
    assert_ne!(key.digest_for(&first), key.digest_for(&second));

    assert_eq!(
        key.digest_for(&first),
        Digest::sha256(b"stateknot.agent-submission-key.v1\0tenant-a\0request_01K4Z8Q6QH7W5X3M2N1P")
    );

    let generated = AgentSubmissionKey::generate();
    assert_eq!(generated.as_str().len(), 73);
    let generated_parts = generated.as_str().split('.').collect::<Vec<_>>();
    assert_eq!(generated_parts.len(), 2);
    for part in generated_parts {
        assert_eq!(
            part.parse::<uuid::Uuid>().unwrap().get_version(),
            Some(uuid::Version::SortRand)
        );
    }
    assert!(AgentSubmissionKey::new("too-short").is_err());
    assert!(AgentSubmissionKey::new(&"x".repeat(AgentSubmissionKey::MAX_LEN + 1)).is_err());
    assert!(AgentSubmissionKey::new("request key with spaces").is_err());
    assert_ne!(AgentSubmissionKey::generate(), AgentSubmissionKey::generate());
}

#[test]
fn submission_keys_name_the_first_defect() {
    assert_eq!(
        AgentSubmissionKey::new("too-short"),
        Err(AgentSubmissionKeyError::TooShort { minimum: 16, actual: 9 })
    );
    assert_eq!(
        AgentSubmissionKey::new(&"x".repeat(129)),
        Err(AgentSubmissionKeyError::TooLong { maximum: 128, actual: 129 })
    );
    assert_eq!(
        AgentSubmissionKey::new("request key with spaces"),
        Err(AgentSubmissionKeyError::InvalidByte { index: 7 })
    );
}

fn assert_generated(bits: u128, text: &str) {
    let uuid = uuid::Uuid::from_u128(bits);
    assert_eq!(uuid.get_version(), Some(uuid::Version::SortRand));
    assert_eq!(uuid.get_variant(), uuid::Variant::RFC4122);
    assert_eq!(text.len(), 36);
    assert_eq!(text, text.to_ascii_lowercase());
    assert_eq!(text, uuid.to_string());
}

#[test]
fn generated_ids_are_canonical_uuid_v7_values() {
    let id = RunId::generate();
    assert_generated(id.as_uuid(), &id.to_string());
    assert_eq!(id.to_string().parse::<RunId>().unwrap(), id);
    let id = ThreadId::generate();
    assert_generated(id.as_uuid(), &id.to_string());
    assert_eq!(id.to_string().parse::<ThreadId>().unwrap(), id);
    let id = EventId::generate();
    assert_generated(id.as_uuid(), &id.to_string());
    assert_eq!(id.to_string().parse::<EventId>().unwrap(), id);
    let id = FailureId::generate();
    assert_generated(id.as_uuid(), &id.to_string());
    assert_eq!(id.to_string().parse::<FailureId>().unwrap(), id);
    let id = MessageId::generate();
    assert_generated(id.as_uuid(), &id.to_string());
    assert_eq!(id.to_string().parse::<MessageId>().unwrap(), id);
    let id = ArtifactId::generate();
    assert_generated(id.as_uuid(), &id.to_string());
    assert_eq!(id.to_string().parse::<ArtifactId>().unwrap(), id);
    let id = InvocationId::generate();
    assert_generated(id.as_uuid(), &id.to_string());
    assert_eq!(id.to_string().parse::<InvocationId>().unwrap(), id);
    let id = InterruptId::generate();
    assert_generated(id.as_uuid(), &id.to_string());
    assert_eq!(id.to_string().parse::<InterruptId>().unwrap(), id);
    let id = TimerId::generate();
    assert_generated(id.as_uuid(), &id.to_string());
    assert_eq!(id.to_string().parse::<TimerId>().unwrap(), id);
    let id = DeliveryId::generate();
    assert_generated(id.as_uuid(), &id.to_string());
    assert_eq!(id.to_string().parse::<DeliveryId>().unwrap(), id);
    let id = DestinationId::generate();
    assert_generated(id.as_uuid(), &id.to_string());
    assert_eq!(id.to_string().parse::<DestinationId>().unwrap(), id);
    let id = CheckpointId::generate();
    assert_generated(id.as_uuid(), &id.to_string());
    assert_eq!(id.to_string().parse::<CheckpointId>().unwrap(), id);
    let id = QuarantineId::generate();
    assert_generated(id.as_uuid(), &id.to_string());
    assert_eq!(id.to_string().parse::<QuarantineId>().unwrap(), id);
    let id = AttemptId::generate();
    assert_generated(id.as_uuid(), &id.to_string());
    assert_eq!(id.to_string().parse::<AttemptId>().unwrap(), id);
    let id = SchedulerReservationId::generate();
    assert_generated(id.as_uuid(), &id.to_string());
    assert_eq!(id.to_string().parse::<SchedulerReservationId>().unwrap(), id);
}

#[test]
fn generated_ids_reject_noncanonical_and_non_v7_values() {
    let id = RunId::generate();
    let canonical = id.to_string();

    assert_eq!(
        canonical.to_ascii_uppercase().parse::<RunId>(),
        Err(GeneratedIdError::NonCanonical)
    );
    assert_eq!(
        canonical.replace('-', "").parse::<RunId>(),
        Err(GeneratedIdError::NonCanonical)
    );
    assert_eq!(
        "not-a-uuid".parse::<RunId>(),
        Err(GeneratedIdError::InvalidUuid)
    );
    assert_eq!(
        "550e8400-e29b-41d4-a716-446655440000".parse::<RunId>(),
        Err(GeneratedIdError::WrongVersion)
    );

    let mut wrong_variant_bytes = id.as_uuid().to_be_bytes();
    wrong_variant_bytes[8] &= 0b0011_1111;
    let wrong_variant = u128::from_be_bytes(wrong_variant_bytes);
    assert_eq!(
        RunId::from_uuid(wrong_variant),
        Err(GeneratedIdError::WrongVariant)
    );
    assert_eq!(RunId::from_uuid(id.into_uuid()), Ok(id));
}

#[test]
fn generated_id_serde_uses_and_enforces_canonical_text() {
    let id = InvocationId::generate();
    let encoded = id.to_string();
    assert_eq!(encoded.parse::<InvocationId>().unwrap(), id);
    assert!(encoded.to_ascii_uppercase().parse::<InvocationId>().is_err());
}

#[test]
fn names_share_one_bounded_grammar() {
    assert_eq!(NodeId::new(""), Err(NameError::Empty));
    assert_eq!(RouteId::new("_r"), Err(NameError::InvalidStart));
    assert_eq!(
        NodeId::new("work/one"),
        Err(NameError::InvalidByte { index: 4 })
    );
    assert_eq!(
        ChildRunSlot::new(&"s".repeat(129)),
        Err(NameError::TooLong { max: 128, actual: 129 })
    );
    assert_eq!(CapabilityName::new("ops.lookup").unwrap().as_str(), "ops.lookup");
}

#[test]
fn slot_uses_strict_bounded_node_grammar_on_all_paths() {
    for valid in ["a", "Risk.check_1-v2", &"x".repeat(ChildRunSlot::MAX_LEN)] {
        let slot = ChildRunSlot::new(valid).unwrap();
        assert_eq!(valid.parse::<ChildRunSlot>().unwrap(), slot);
    }
    for invalid in [
        "",
        ".",
        "..",
        "../child",
        "a/b",
        " a",
        "a\n",
        "子",
        "_a",
        &"x".repeat(129),
    ] {
        assert!(ChildRunSlot::new(invalid).is_err(), "{invalid:?}");
        assert!(invalid.parse::<ChildRunSlot>().is_err());
    }
    assert_ne!(
        ChildRunSlot::new("Risk").unwrap(),
        ChildRunSlot::new("risk").unwrap()
    );
}

#[test]
fn digests_read_back_through_the_trait() {
    use_digest(Digest::sha256(b"abc"));
    use_digest(Digest::sha256(b""));
    let text = Digest::sha256(b"abc").to_string();
    assert_eq!(text.len(), 71);
    assert_eq!(
        format!("{text}0").parse::<Digest>(),
        Err(DigestError::TooLong { max: 71, actual: 72 })
    );
    assert_eq!(
        format!("sha256:{}", text[7..].to_uppercase()).parse::<Digest>(),
        Err(DigestError::NonCanonical)
    );
    assert_eq!(
        format!("sha256:0g{}", &text[9..]).parse::<Digest>(),
        Err(DigestError::InvalidHex { index: 8 })
    );
}

fn use_digest(digest: Digest) {
    assert_eq!(digest.to_string().parse::<Digest>().unwrap(), digest);
}

#[test]
fn identifiers_convert_both_ways() {
    let tenant = TenantId::try_from("tenant-a").unwrap();
    assert_eq!(TenantId::try_from("tenant-a".to_owned()).unwrap(), tenant);
    assert_eq!(TenantId::try_from(""), Err(TenantIdError::Empty));
    let borrowed: &str = tenant.as_ref();
    assert_eq!(borrowed, "tenant-a");
    let lookup = std::collections::BTreeMap::from([(tenant.clone(), 7)]);
    assert_eq!(lookup.get("tenant-a"), Some(&7));
    assert_eq!(String::from(tenant), "tenant-a");
    let shard = SchedulerShardId::try_from("shard-1").unwrap();
    assert_eq!(String::from(shard), "shard-1");
    let issuer = IssuerId::try_from("https://issuer.example.com").unwrap();
    assert_eq!(String::from(issuer), "https://issuer.example.com");
    assert_eq!(IssuerId::try_from("nothing"), Err(IssuerIdError::InvalidUri));
    let subject = SubjectId::try_from("someone".to_owned()).unwrap();
    assert_eq!(String::from(subject), "someone");
    assert!(AgentSubmissionKey::try_from("submission-key-0123456789abcdef0123456789").is_ok());
    assert!(AgentSubmissionKey::try_from(String::new()).is_err());
}

struct Shown<F>(F);

impl<F: Fn(&mut std::fmt::Formatter<'_>) -> std::fmt::Result> std::fmt::Debug for Shown<F> {
    fn fmt(&self, formatter: &mut std::fmt::Formatter<'_>) -> std::fmt::Result {
        (self.0)(formatter)
    }
}

fn assert_shown<F>(value: &dyn std::fmt::Debug, mirror: F)
where
    F: Fn(&mut std::fmt::Formatter<'_>) -> std::fmt::Result,
{
    let shown = Shown(mirror);
    assert_eq!(format!("{value:?}"), format!("{shown:?}"));
    assert_eq!(format!("{value:#?}"), format!("{shown:#?}"));
}

struct Hyphenated(String);

impl std::fmt::Debug for Hyphenated {
    fn fmt(&self, formatter: &mut std::fmt::Formatter<'_>) -> std::fmt::Result {
        formatter
            .debug_tuple("Hyphenated")
            .field(&Shown(|f: &mut std::fmt::Formatter<'_>| f.write_str(&self.0)))
            .finish()
    }
}

#[test]
fn identifier_debug_follows_the_standard_builders() {
    let run = RunId::generate();
    assert_shown(&run, |f| {
        f.debug_tuple("RunId").field(&Hyphenated(run.to_string())).finish()
    });
    let event = EventId::generate();
    assert_shown(&event, |f| {
        f.debug_tuple("EventId").field(&Hyphenated(event.to_string())).finish()
    });
    let digest = Digest::sha256(b"abc");
    assert_shown(&digest, |f| {
        f.debug_tuple("Digest")
            .field(&Shown(|f: &mut std::fmt::Formatter<'_>| f.write_str(&digest.to_string())))
            .finish()
    });
    let subject = SubjectId::new("someone").unwrap();
    assert_shown(&subject, |f| {
        f.debug_struct("SubjectId")
            .field("byte_len", &7)
            .field("value", &"<redacted>")
            .finish()
    });
    let issuer = IssuerId::new("https://issuer.example.com").unwrap();
    assert_shown(&issuer, |f| f.debug_tuple("IssuerId").field(&issuer.as_str()).finish());
    let principal = PrincipalIdentity::new(issuer, subject);
    assert_shown(&principal, |f| {
        f.debug_struct("PrincipalIdentity")
            .field("issuer", &principal.issuer())
            .field("subject", &principal.subject())
            .finish()
    });
    let key = AgentSubmissionKey::new("request_01K4Z8Q6QH7W5X3M2N1P").unwrap();
    assert_shown(&key, |f| {
        f.debug_struct("AgentSubmissionKey")
            .field("byte_length", &28)
            .finish_non_exhaustive()
    });
    let tenant = TenantId::new("tenant-a").unwrap();
    assert_shown(&tenant, |f| f.debug_tuple("TenantId").field(&tenant.as_str()).finish());
    let shard = SchedulerShardId::new("shard-1").unwrap();
    assert_shown(&shard, |f| f.debug_tuple("SchedulerShardId").field(&shard.as_str()).finish());
    assert_eq!(
        key.debug_text(false),
        "AgentSubmissionKey { byte_length: 28, .. }"
    );
    assert_eq!(
        subject_text(),
        "SubjectId {\n    byte_len: 7,\n    value: \"<redacted>\",\n}"
    );
}

fn subject_text() -> String {
    SubjectId::new("someone").unwrap().debug_text(true)
}

#[test]
fn secrets_of_one_length_show_the_same() {
    let first = AgentSubmissionKey::new("request_01K4Z8Q6QH7W5X3M2N1P").unwrap();
    let second = AgentSubmissionKey::new("another-key-of-equal-length.").unwrap();
    assert_ne!(first, second);
    for alternate in [false, true] {
        assert_eq!(first.debug_text(alternate), second.debug_text(alternate));
        assert_eq!(
            SubjectId::new("someone").unwrap().debug_text(alternate),
            SubjectId::new("nobody!").unwrap().debug_text(alternate)
        );
    }
}
