//! Tests of the attestation verifier's building blocks on concrete values:
//! hexadecimal decoding, the implicit-account report-data binding, event
//! lookup, fixed-width digest parsing, and the report check as a whole.

use shade_registry::attest::{
    check_report_fields, decode_fixed, find_event, measurements_from_report, verify_attestation,
    Attestation, ReportFields, TcbEvent, Td10Fields,
};
use shade_registry::contract::{parse_key_type, KeyType};
use shade_registry::errors::VerificationError;
use shade_registry::hexcode::{check_implicit_account, decode_hex, expected_report_data};
use shade_registry::measurements::{FullMeasurements, Measurements, MeasurementsError, Ppid};

#[test]
fn decode_hex_concrete() {
    assert_eq!(decode_hex("00ff10Ab"), Some(vec![0x00, 0xff, 0x10, 0xab]));
    assert_eq!(decode_hex(""), Some(vec![]));
    assert_eq!(decode_hex("abc"), None); // odd length
    assert_eq!(decode_hex("zz"), None); // not hex
}

#[test]
fn implicit_account_form() {
    let implicit = "a".repeat(64);
    assert!(check_implicit_account(&implicit));
    assert!(!check_implicit_account(&"alice.near".to_string()));
    assert!(!check_implicit_account(&"A".repeat(64))); // upper case
    assert!(!check_implicit_account(&"a".repeat(63))); // too short
}

#[test]
fn report_data_binding() {
    let implicit = "ff".repeat(32);
    let rd = expected_report_data(&implicit).unwrap();
    assert_eq!(rd.len(), 64);
    assert_eq!(&rd[..32], &[0xffu8; 32]);
    assert_eq!(&rd[32..], &[0u8; 32]);

    assert!(expected_report_data(&"owner.near".to_string()).is_none());
}

#[test]
fn find_event_picks_first_match() {
    let events = vec![
        TcbEvent {
            event: "boot".to_string(),
            digest: "00".to_string(),
            event_payload: "".to_string(),
        },
        TcbEvent {
            event: "key-provider".to_string(),
            digest: "11".to_string(),
            event_payload: "".to_string(),
        },
        TcbEvent {
            event: "key-provider".to_string(),
            digest: "22".to_string(),
            event_payload: "".to_string(),
        },
    ];
    let e = find_event(&events, &"key-provider".to_string()).unwrap();
    assert_eq!(e.digest, "11");
    assert!(find_event(&events, &"compose-hash".to_string()).is_none());
}

#[test]
fn decode_fixed_reports_field_errors() {
    let good = "ab".repeat(48);
    let arr: [u8; 48] = decode_fixed("digest", &good).unwrap();
    assert_eq!(arr, [0xabu8; 48]);

    let short = "ab".repeat(4);
    match decode_fixed::<48>("digest", &short) {
        Err(MeasurementsError::InvalidLength(field, n)) => {
            assert_eq!(field, "digest");
            assert_eq!(n, 4);
        }
        other => panic!("expected InvalidLength, got {:?}", other),
    }

    let bad = "zz".repeat(48);
    match decode_fixed::<48>("digest", &bad) {
        Err(MeasurementsError::InvalidHexValue(field, value)) => {
            assert_eq!(field, "digest");
            assert_eq!(value, bad);
        }
        other => panic!("expected InvalidHexValue, got {:?}", other),
    }
}

#[test]
fn measurements_from_report_needs_td10() {
    let no_td = ReportFields { td10: None, status: "UpToDate".to_string(), ppid: vec![0u8; 16] };
    assert_eq!(
        measurements_from_report(&no_td),
        Err(MeasurementsError::NoTd10Report)
    );

    let td = Td10Fields {
        mrtd: [1; 48],
        rtmr0: [2; 48],
        rtmr1: [3; 48],
        rtmr2: [4; 48],
        report_data: [0; 64],
    };
    let with_td = ReportFields {
        td10: Some(td),
        status: "UpToDate".to_string(),
        ppid: vec![0u8; 16],
    };
    let m = measurements_from_report(&with_td).unwrap();
    assert_eq!(m.mrtd, [1u8; 48]);
    assert_eq!(m.rtmr2, [4u8; 48]);
}

fn sample_events() -> Vec<TcbEvent> {
    vec![
        TcbEvent {
            event: "key-provider".to_string(),
            digest: "ab".repeat(48),
            event_payload: "".to_string(),
        },
        TcbEvent {
            event: "compose-hash".to_string(),
            digest: "".to_string(),
            event_payload: "cd".repeat(32),
        },
    ]
}

fn sample_fields(report_data: [u8; 64]) -> ReportFields {
    ReportFields {
        td10: Some(Td10Fields {
            mrtd: [1; 48],
            rtmr0: [2; 48],
            rtmr1: [3; 48],
            rtmr2: [4; 48],
            report_data,
        }),
        status: "UpToDate".to_string(),
        ppid: vec![9u8; 16],
    }
}

fn sample_bundle() -> FullMeasurements {
    FullMeasurements {
        rtmrs: Measurements { mrtd: [1; 48], rtmr0: [2; 48], rtmr1: [3; 48], rtmr2: [4; 48] },
        key_provider_event_digest: [0xab; 48],
        app_compose_hash_payload: [0xcd; 32],
    }
}

#[test]
fn check_report_fields_accepts_matching_evidence() {
    let rd = [7u8; 64];
    let fields = sample_fields(rd);
    let approved = vec![sample_bundle()];
    let ppids = vec![Ppid { bytes: [9u8; 16] }];

    let (m, p) = check_report_fields(&fields, &sample_events(), &rd.to_vec(), &approved, &ppids)
        .unwrap();
    assert_eq!(m, sample_bundle());
    assert_eq!(p.bytes, [9u8; 16]);
}

#[test]
fn check_report_fields_rejects_stage_by_stage() {
    let rd = [7u8; 64];
    let approved = vec![sample_bundle()];
    let ppids = vec![Ppid { bytes: [9u8; 16] }];
    let events = sample_events();

    // Stale TCB status.
    let mut fields = sample_fields(rd);
    fields.status = "OutOfDate".to_string();
    assert_eq!(
        check_report_fields(&fields, &events, &rd.to_vec(), &approved, &ppids),
        Err(VerificationError::StaleOrRevokedCollateral)
    );

    // No TD report.
    let mut fields = sample_fields(rd);
    fields.td10 = None;
    assert_eq!(
        check_report_fields(&fields, &events, &rd.to_vec(), &approved, &ppids),
        Err(VerificationError::NoReportData)
    );

    // Report data does not match the caller binding.
    let fields = sample_fields([8u8; 64]);
    assert_eq!(
        check_report_fields(&fields, &events, &rd.to_vec(), &approved, &ppids),
        Err(VerificationError::IdentityMismatch)
    );

    // Missing key-provider event.
    let fields = sample_fields(rd);
    assert_eq!(
        check_report_fields(&fields, &events[1..].to_vec(), &rd.to_vec(), &approved, &ppids),
        Err(VerificationError::BadSignature)
    );

    // Bundle not approved.
    let fields = sample_fields(rd);
    assert_eq!(
        check_report_fields(&fields, &events, &rd.to_vec(), &Vec::new(), &ppids),
        Err(VerificationError::MeasurementNotApproved)
    );

    // Platform id not approved.
    let fields = sample_fields(rd);
    assert_eq!(
        check_report_fields(&fields, &events, &rd.to_vec(), &approved, &Vec::new()),
        Err(VerificationError::PlatformNotApproved)
    );
}

#[test]
fn verify_attestation_rejects_malformed_input() {
    let approved = vec![FullMeasurements::default()];
    let ppids = vec![Ppid::default()];
    let implicit = "ab".repeat(32);

    // Caller not an implicit account: the quote cannot be bound to it.
    let r = verify_attestation(
        &Attestation::default(),
        &"alice.near".to_string(),
        &approved,
        &ppids,
        1_000_000,
    );
    assert_eq!(r, Err(VerificationError::IdentityMismatch));

    // Quote is not valid hexadecimal.
    let att = Attestation {
        quote_hex: "zz".to_string(),
        collateral: "{}".to_string(),
        checksum: String::new(),
        tcb_info: "{}".to_string(),
    };
    assert_eq!(
        verify_attestation(&att, &implicit, &approved, &ppids, 1_000_000),
        Err(VerificationError::BadSignature)
    );

    // Collateral that does not parse: the validation outcome is empty.
    let att = Attestation {
        quote_hex: "0102".to_string(),
        collateral: "not json".to_string(),
        checksum: String::new(),
        tcb_info: "{}".to_string(),
    };
    assert_eq!(
        verify_attestation(&att, &implicit, &approved, &ppids, 1_000_000),
        Err(VerificationError::BadSignature)
    );
}

#[test]
fn key_type_parsing() {
    assert_eq!(parse_key_type(&"Ecdsa".to_string()), Some(KeyType::Ecdsa));
    assert_eq!(parse_key_type(&"Eddsa".to_string()), Some(KeyType::Eddsa));
    assert_eq!(parse_key_type(&"ecdsa".to_string()), None);
    assert_eq!(parse_key_type(&"invalid".to_string()), None);
    assert_eq!(KeyType::Ecdsa.domain_id(), 0);
    assert_eq!(KeyType::Eddsa.domain_id(), 1);
}

#[test]
fn measurement_equality_is_byte_wise() {
    let a = FullMeasurements::default();
    let mut b = FullMeasurements::default();
    assert!(a.eq_to(&b));
    b.app_compose_hash_payload[31] = 1;
    assert!(!a.eq_to(&b));

    let p = Ppid::default();
    let q = Ppid { bytes: [0u8; 16] };
    assert!(p.eq_to(&q));
    assert!(!p.eq_to(&Ppid { bytes: [1u8; 16] }));
}
