//! The attestation verifier: decodes a submitted quote, validates it
//! through the DCAP quote-verification library, and checks the extracted
//! measurement bundle and platform id against the caller-supplied expected
//! sets and the caller's identity binding.
//!
//! Only the calls into the outside crates stand behind trusted wrappers;
//! every decision taken on what they return is verified.

use vstd::prelude::*;

use crate::AccountId;
use crate::string_eq;
use crate::errors::{ContractError, VerificationError};
use crate::hexcode::{decode_hex, expected_report_data, is_hex_seq, is_implicit_account,
    spec_hex_decode, spec_report_data};
use crate::measurements::{bytes_eq, FullMeasurements, Measurements, MeasurementsError, Ppid};
use crate::contract::{
    contains_account, contains_measurements, contains_ppid, saturating_add_u64,
    spec_saturating_add_u64, Agent, Contract,
};

verus! {

/// A submitted attestation: the raw quote in hexadecimal, the collateral
/// evidence as JSON, its checksum, and the guest's TCB info (with the
/// boot-time event log) as JSON.
#[derive(Clone, Debug)]
pub struct Attestation {
    pub quote_hex: String,
    pub collateral: String,
    pub checksum: String,
    pub tcb_info: String,
}

impl Default for Attestation {
    fn default() -> (r: Self)
        ensures
            r.quote_hex@ == Seq::<char>::empty(),
            r.collateral@ == Seq::<char>::empty(),
            r.checksum@ == Seq::<char>::empty(),
            r.tcb_info@ == Seq::<char>::empty(),
    {
        Attestation {
            quote_hex: String::new(),
            collateral: String::new(),
            checksum: String::new(),
            tcb_info: String::new(),
        }
    }
}

/// The plain fields of a TD report, copied out of the verifier's report.
#[derive(Clone, Copy, Debug)]
pub struct Td10Fields {
    pub mrtd: [u8; 48],
    pub rtmr0: [u8; 48],
    pub rtmr1: [u8; 48],
    pub rtmr2: [u8; 48],
    pub report_data: [u8; 64],
}

/// One entry of the guest's boot-time event log.
#[derive(Clone, Debug)]
pub struct TcbEvent {
    pub event: String,
    pub digest: String,
    pub event_payload: String,
}

/// What the quote-verification library reports, as plain values.
#[derive(Clone, Debug)]
pub struct ReportFields {
    pub td10: Option<Td10Fields>,
    pub status: String,
    pub ppid: Vec<u8>,
}

// ---------------------------------------------------------------------------
// Trusted wrappers around the outside crates
// ---------------------------------------------------------------------------

/// What validating a quote yields: parsing the collateral JSON and checking
/// the quote's signature chain against it as of `now_secs` is a function of
/// these three inputs alone (the trust anchor is a compile-time constant),
/// so the outcome carries this name.  `None` stands for a collateral that
/// does not parse or a quote that does not validate.
pub uninterp spec fn spec_dcap_outcome(quote: Seq<u8>, collateral: Seq<char>, now_secs: u64) -> Option<ReportFields>;

/// The event log a TCB info text carries: a function of the text alone.
/// `None` stands for JSON that does not parse or an entry without the
/// expected fields.
pub uninterp spec fn spec_tcb_events(tcb_info: Seq<char>) -> Option<Seq<TcbEvent>>;

/// Relies on `serde_json::from_str` and `dcap_qvl::verify::verify`: parses
/// the collateral JSON and validates the quote's signature chain against it
/// as of `now_secs`, handing the report out as plain values.  Both calls
/// are deterministic in their inputs, so the outcome is exactly
/// `spec_dcap_outcome`; what the outcome is on given inputs is not stated —
/// every decision on it is taken by the verified callers.
#[verifier::external_body]
fn dcap_verify(quote: &Vec<u8>, collateral: &str, now_secs: u64) -> (r: Option<ReportFields>)
    ensures
        r == spec_dcap_outcome(quote@, collateral@, now_secs),
{
    let collateral: dcap_qvl::QuoteCollateralV3 = serde_json::from_str(collateral).ok()?;
    let report = dcap_qvl::verify::verify(quote.as_slice(), &collateral, now_secs).ok()?;
    let td10 = report.report.as_td10().map(|t| Td10Fields {
        mrtd: t.mr_td,
        rtmr0: t.rt_mr0,
        rtmr1: t.rt_mr1,
        rtmr2: t.rt_mr2,
        report_data: t.report_data,
    });
    Some(ReportFields { td10, status: report.status, ppid: report.ppid })
}

/// Relies on `serde_json::from_str`: parses the TCB info JSON and hands the
/// event log out as plain values, one entry per event.  Parsing is
/// deterministic in the text, so the outcome is exactly `spec_tcb_events`.
#[verifier::external_body]
fn parse_tcb_events(s: &str) -> (r: Option<Vec<TcbEvent>>)
    ensures
        match r {
            Some(v) => spec_tcb_events(s@) == Some(v@),
            None => spec_tcb_events(s@) is None,
        },
{
    let v: serde_json::Value = serde_json::from_str(s).ok()?;
    let log = v.get("event_log")?.as_array()?;
    let mut out = Vec::new();
    for e in log {
        out.push(TcbEvent {
            event: e.get("event")?.as_str()?.to_string(),
            digest: e.get("digest")?.as_str()?.to_string(),
            event_payload: e.get("event_payload")?.as_str()?.to_string(),
        });
    }
    Some(out)
}

/// Relies on `TryInto<[u8; N]>` for byte slices: a slice of exactly `N`
/// bytes becomes the array holding those bytes.
#[verifier::external_body]
fn bytes_to_array<const N: usize>(v: &Vec<u8>) -> (r: [u8; N])
    requires
        v@.len() == N,
    ensures
        r@ == v@,
{
    v.as_slice().try_into().unwrap()
}

// ---------------------------------------------------------------------------
// Verified checks on the extracted values
// ---------------------------------------------------------------------------

/// The first event of the log carrying the given name.
pub open spec fn spec_find_event(events: Seq<TcbEvent>, name: Seq<char>) -> Option<TcbEvent>
    decreases events.len(),
{
    if events.len() == 0 {
        None
    } else if events[0].event@ == name {
        Some(events[0])
    } else {
        spec_find_event(events.drop_first(), name)
    }
}

/// Finds the first event with the given name.
pub fn find_event<'a>(events: &'a Vec<TcbEvent>, name: &String) -> (r: Option<&'a TcbEvent>)
    ensures
        match r {
            Some(e) => spec_find_event(events@, name@) == Some(*e),
            None => spec_find_event(events@, name@) is None,
        },
{
    proof {
        assert(events@.skip(0) =~= events@);
    }
    let n = events.len();
    let mut i: usize = 0;
    while i < n
        invariant
            n == events@.len(),
            i <= n,
            spec_find_event(events@.skip(i as int), name@) == spec_find_event(events@, name@),
        decreases n - i,
    {
        let ghost rest = events@.skip(i as int);
        proof {
            assert(rest[0] == events@[i as int]);
            assert(rest.drop_first() =~= events@.skip(i as int + 1));
        }
        if string_eq(&events[i].event, name) {
            return Some(&events[i]);
        }
        i += 1;
    }
    proof {
        assert(events@.skip(n as int) =~= Seq::<TcbEvent>::empty());
    }
    None
}

/// A hexadecimal field decodes to exactly `N` bytes.
pub open spec fn decodes_to<const N: usize>(s: Seq<char>) -> bool {
    s.len() % 2 == 0 && is_hex_seq(s) && s.len() / 2 == N
}

/// Decodes a fixed-width hexadecimal field, naming the field in the error.
pub fn decode_fixed<const N: usize>(field: &str, value: &String) -> (r: Result<
    [u8; N],
    MeasurementsError,
>)
    ensures
        match r {
            Ok(a) => decodes_to::<N>(value@) && a@ == spec_hex_decode(value@),
            Err(e) => !decodes_to::<N>(value@),
        },
        !(value@.len() % 2 == 0 && is_hex_seq(value@)) ==> (r matches Err(
            MeasurementsError::InvalidHexValue(f, v),
        ) && f@ == field@ && v@ == value@),
        value@.len() % 2 == 0 && is_hex_seq(value@) && value@.len() / 2 != N ==> (r matches Err(
            MeasurementsError::InvalidLength(f, n),
        ) && f@ == field@ && n == value@.len() / 2),
{
    match decode_hex(value.as_str()) {
        None => Err(
            MeasurementsError::InvalidHexValue(field.to_owned(), value.clone()),
        ),
        Some(v) => {
            if v.len() != N {
                Err(MeasurementsError::InvalidLength(field.to_owned(), v.len()))
            } else {
                Ok(bytes_to_array::<N>(&v))
            }
        },
    }
}

/// The runtime measurement registers a report carries, or `NoTd10Report`
/// when the quote holds no TD report.
pub fn measurements_from_report(fields: &ReportFields) -> (r: Result<
    Measurements,
    MeasurementsError,
>)
    ensures
        match r {
            Ok(m) => fields.td10 matches Some(td) && m.mrtd@ == td.mrtd@ && m.rtmr0@ == td.rtmr0@
                && m.rtmr1@ == td.rtmr1@ && m.rtmr2@ == td.rtmr2@,
            Err(e) => fields.td10 is None && e == MeasurementsError::NoTd10Report,
        },
{
    match &fields.td10 {
        None => Err(MeasurementsError::NoTd10Report),
        Some(td) => Ok(
            Measurements { mrtd: td.mrtd, rtmr0: td.rtmr0, rtmr1: td.rtmr1, rtmr2: td.rtmr2 },
        ),
    }
}

/// A bundle's fields are exactly the report registers plus the two decoded
/// event digests.
pub open spec fn bundle_views_ok(
    m: FullMeasurements,
    td: Td10Fields,
    kped: Seq<u8>,
    achp: Seq<u8>,
) -> bool {
    &&& m.rtmrs.mrtd@ == td.mrtd@
    &&& m.rtmrs.rtmr0@ == td.rtmr0@
    &&& m.rtmrs.rtmr1@ == td.rtmr1@
    &&& m.rtmrs.rtmr2@ == td.rtmr2@
    &&& m.key_provider_event_digest@ == kped
    &&& m.app_compose_hash_payload@ == achp
}

/// Some approved bundle has exactly these fields.
pub open spec fn some_bundle_matches(
    list: Seq<FullMeasurements>,
    td: Td10Fields,
    kped: Seq<u8>,
    achp: Seq<u8>,
) -> bool {
    exists|k: int| 0 <= k < list.len() && bundle_views_ok(#[trigger] list[k], td, kped, achp)
}

/// Some approved platform id has exactly these bytes.
pub open spec fn some_ppid_matches(list: Seq<Ppid>, bytes: Seq<u8>) -> bool {
    exists|k: int| 0 <= k < list.len() && (#[trigger] list[k]).bytes@ == bytes
}

/// The quote evidence is complete: both required events are present with
/// well-formed digests, and the PPID has its fixed width.
pub open spec fn evidence_ok(events: Seq<TcbEvent>, ppid: Seq<u8>) -> bool {
    &&& (spec_find_event(events, "key-provider"@) matches Some(e) && decodes_to::<48>(e.digest@))
    &&& (spec_find_event(events, "compose-hash"@) matches Some(e) && decodes_to::<32>(
        e.event_payload@,
    ))
    &&& ppid.len() == 16
}

/// What checking the extracted report against the expected values returns,
/// for every possible extracted value.
pub open spec fn spec_check_report(
    fields: ReportFields,
    events: Seq<TcbEvent>,
    expected_rd: Seq<u8>,
    expected_m: Seq<FullMeasurements>,
    expected_p: Seq<Ppid>,
    r: Result<(FullMeasurements, Ppid), VerificationError>,
) -> bool {
    if fields.status@ != "UpToDate"@ {
        r == Err::<(FullMeasurements, Ppid), VerificationError>(
            VerificationError::StaleOrRevokedCollateral,
        )
    } else if fields.td10 is None {
        r == Err::<(FullMeasurements, Ppid), VerificationError>(VerificationError::NoReportData)
    } else {
        let td = fields.td10.unwrap();
        if td.report_data@ != expected_rd {
            r == Err::<(FullMeasurements, Ppid), VerificationError>(
                VerificationError::IdentityMismatch,
            )
        } else if !evidence_ok(events, fields.ppid@) {
            r == Err::<(FullMeasurements, Ppid), VerificationError>(VerificationError::BadSignature)
        } else {
            let kped = spec_hex_decode(spec_find_event(events, "key-provider"@).unwrap().digest@);
            let achp = spec_hex_decode(
                spec_find_event(events, "compose-hash"@).unwrap().event_payload@,
            );
            if !some_bundle_matches(expected_m, td, kped, achp) {
                r == Err::<(FullMeasurements, Ppid), VerificationError>(
                    VerificationError::MeasurementNotApproved,
                )
            } else if !some_ppid_matches(expected_p, fields.ppid@) {
                r == Err::<(FullMeasurements, Ppid), VerificationError>(
                    VerificationError::PlatformNotApproved,
                )
            } else {
                r matches Ok((m, p)) && bundle_views_ok(m, td, kped, achp) && expected_m.contains(
                    m,
                ) && p.bytes@ == fields.ppid@ && expected_p.contains(p)
            }
        }
    }
}

/// Checks the extracted report fields against the expected report data and
/// the approved sets.  Everything here is decided on plain values, so the
/// outcome is pinned exactly for every input.
pub fn check_report_fields(
    fields: &ReportFields,
    events: &Vec<TcbEvent>,
    expected_rd: &Vec<u8>,
    expected_m: &Vec<FullMeasurements>,
    expected_p: &Vec<Ppid>,
) -> (r: Result<(FullMeasurements, Ppid), VerificationError>)
    ensures
        spec_check_report(*fields, events@, expected_rd@, expected_m@, expected_p@, r),
{
    if !string_eq(&fields.status, &"UpToDate".to_owned()) {
        return Err(VerificationError::StaleOrRevokedCollateral);
    }
    let td = match &fields.td10 {
        None => {
            return Err(VerificationError::NoReportData);
        },
        Some(td) => td,
    };
    if !bytes_eq(td.report_data.as_slice(), expected_rd.as_slice()) {
        return Err(VerificationError::IdentityMismatch);
    }
    let kped: [u8; 48] = match find_event(events, &"key-provider".to_owned()) {
        None => {
            return Err(VerificationError::BadSignature);
        },
        Some(e) => match decode_fixed::<48>("key_provider_event_digest", &e.digest) {
            Err(_) => {
                return Err(VerificationError::BadSignature);
            },
            Ok(a) => a,
        },
    };
    let achp: [u8; 32] = match find_event(events, &"compose-hash".to_owned()) {
        None => {
            return Err(VerificationError::BadSignature);
        },
        Some(e) => match decode_fixed::<32>("app_compose_hash_payload", &e.event_payload) {
            Err(_) => {
                return Err(VerificationError::BadSignature);
            },
            Ok(a) => a,
        },
    };
    if fields.ppid.len() != 16 {
        return Err(VerificationError::BadSignature);
    }
    let m = FullMeasurements {
        rtmrs: Measurements { mrtd: td.mrtd, rtmr0: td.rtmr0, rtmr1: td.rtmr1, rtmr2: td.rtmr2 },
        key_provider_event_digest: kped,
        app_compose_hash_payload: achp,
    };
    let ghost gkped = spec_hex_decode(
        spec_find_event(events@, "key-provider"@).unwrap().digest@,
    );
    let ghost gachp = spec_hex_decode(
        spec_find_event(events@, "compose-hash"@).unwrap().event_payload@,
    );
    proof {
        assert(bundle_views_ok(m, *td, gkped, gachp));
    }
    if !contains_measurements(expected_m, &m) {
        proof {
            if some_bundle_matches(expected_m@, *td, gkped, gachp) {
                let k = choose|k: int|
                    0 <= k < expected_m@.len() && bundle_views_ok(
                        #[trigger] expected_m@[k],
                        *td,
                        gkped,
                        gachp,
                    );
                assert(expected_m@[k].rtmrs.mrtd =~= m.rtmrs.mrtd);
                assert(expected_m@[k].rtmrs.rtmr0 =~= m.rtmrs.rtmr0);
                assert(expected_m@[k].rtmrs.rtmr1 =~= m.rtmrs.rtmr1);
                assert(expected_m@[k].rtmrs.rtmr2 =~= m.rtmrs.rtmr2);
                assert(expected_m@[k].key_provider_event_digest =~= m.key_provider_event_digest);
                assert(expected_m@[k].app_compose_hash_payload =~= m.app_compose_hash_payload);
                assert(expected_m@[k] == m);
                assert(expected_m@.contains(m));
            }
        }
        return Err(VerificationError::MeasurementNotApproved);
    }
    let p = Ppid { bytes: bytes_to_array::<16>(&fields.ppid) };
    if !contains_ppid(expected_p, &p) {
        proof {
            if some_ppid_matches(expected_p@, fields.ppid@) {
                let k = choose|k: int|
                    0 <= k < expected_p@.len() && (#[trigger] expected_p@[k]).bytes@ == fields.ppid@;
                assert(expected_p@[k].bytes =~= p.bytes);
                assert(expected_p@.contains(p));
            }
        }
        return Err(VerificationError::PlatformNotApproved);
    }
    proof {
        let k = choose|k: int|
            0 <= k < expected_m@.len() && expected_m@[k] == m;
        assert(bundle_views_ok(expected_m@[k], *td, gkped, gachp));
        assert(some_bundle_matches(expected_m@, *td, gkped, gachp));
        let k2 = choose|k2: int|
            0 <= k2 < expected_p@.len() && expected_p@[k2] == p;
        assert(expected_p@[k2].bytes@ == fields.ppid@);
        assert(some_ppid_matches(expected_p@, fields.ppid@));
    }
    Ok((m, p))
}

// ---------------------------------------------------------------------------
// The verifier and registration
// ---------------------------------------------------------------------------

/// What verifying an attestation for `caller` as of `now_ms` against the
/// expected sets returns, for every input: the caller must have the
/// implicit-account form and the quote must be hexadecimal; after that the
/// named validation outcome and the named event log decide, and everything
/// on them is `spec_check_report`.  Failures of the opaque steps —
/// unparsable collateral, an invalid signature chain, unusable TCB info —
/// all surface as `BadSignature`.
pub open spec fn spec_verify_attestation(
    attestation: Attestation,
    caller: Seq<char>,
    expected_m: Seq<FullMeasurements>,
    expected_p: Seq<Ppid>,
    now_ms: u64,
    r: Result<(FullMeasurements, Ppid), VerificationError>,
) -> bool {
    if !is_implicit_account(caller) {
        r == Err::<(FullMeasurements, Ppid), VerificationError>(
            VerificationError::IdentityMismatch,
        )
    } else if !(attestation.quote_hex@.len() % 2 == 0 && is_hex_seq(attestation.quote_hex@)) {
        r == Err::<(FullMeasurements, Ppid), VerificationError>(VerificationError::BadSignature)
    } else {
        match spec_dcap_outcome(
            spec_hex_decode(attestation.quote_hex@),
            attestation.collateral@,
            now_ms / 1000,
        ) {
            None => r == Err::<(FullMeasurements, Ppid), VerificationError>(
                VerificationError::BadSignature,
            ),
            Some(fields) => match spec_tcb_events(attestation.tcb_info@) {
                None => r == Err::<(FullMeasurements, Ppid), VerificationError>(
                    VerificationError::BadSignature,
                ),
                Some(events) => spec_check_report(
                    fields,
                    events,
                    spec_report_data(caller),
                    expected_m,
                    expected_p,
                    r,
                ),
            },
        }
    }
}

/// Verifies a submitted attestation for `caller` as of `now_ms` against the
/// expected sets: decodes the quote, validates its cryptographic chain,
/// checks the TCB status, the report-data binding to the caller, and the
/// membership of the extracted bundle and platform id.  Side-effect-free;
/// the caller commits the result.  The outcome is pinned for every input by
/// `spec_verify_attestation`, over the named validation outcome.
pub fn verify_attestation(
    attestation: &Attestation,
    caller: &AccountId,
    expected_measurements: &Vec<FullMeasurements>,
    expected_ppids: &Vec<Ppid>,
    now_ms: u64,
) -> (r: Result<(FullMeasurements, Ppid), VerificationError>)
    ensures
        spec_verify_attestation(
            *attestation,
            caller@,
            expected_measurements@,
            expected_ppids@,
            now_ms,
            r,
        ),
        r matches Ok((m, p)) ==> expected_measurements@.contains(m) && expected_ppids@.contains(p)
            && is_implicit_account(caller@),
        !is_implicit_account(caller@) ==> r == Err::<(FullMeasurements, Ppid), VerificationError>(
            VerificationError::IdentityMismatch,
        ),
        is_implicit_account(caller@) && !(attestation.quote_hex@.len() % 2 == 0 && is_hex_seq(
            attestation.quote_hex@,
        )) ==> r == Err::<(FullMeasurements, Ppid), VerificationError>(
            VerificationError::BadSignature,
        ),
{
    let expected_rd = match expected_report_data(caller) {
        None => {
            return Err(VerificationError::IdentityMismatch);
        },
        Some(v) => v,
    };
    let quote = match decode_hex(attestation.quote_hex.as_str()) {
        None => {
            return Err(VerificationError::BadSignature);
        },
        Some(v) => v,
    };
    let fields = match dcap_verify(&quote, attestation.collateral.as_str(), now_ms / 1000) {
        None => {
            return Err(VerificationError::BadSignature);
        },
        Some(f) => f,
    };
    let events = match parse_tcb_events(attestation.tcb_info.as_str()) {
        None => {
            return Err(VerificationError::BadSignature);
        },
        Some(e) => e,
    };
    check_report_fields(&fields, &events, &expected_rd, expected_measurements, expected_ppids)
}

impl Contract {
    /// Registers (or re-registers) the caller as an agent.  In production
    /// mode the attestation must verify against the current approval sets;
    /// in local mode the caller must be whitelisted and the all-zero
    /// sentinel bundle and platform id must themselves be approved, so that
    /// local registration exercises the same approval gate.  On success the
    /// record is stored with `valid_until_ms` = now plus the configured
    /// duration; re-registration overwrites, it never accumulates.
    pub fn register_agent(&mut self, caller: &AccountId, attestation: &Attestation, now_ms: u64)
        -> (r: Result<bool, ContractError>)
        requires
            old(self).wf(),
        ensures
            final(self).wf(),
            r is Err ==> *final(self) == *old(self),
            !old(self).requires_tee ==> ({
                let zm = FullMeasurements::spec_zeroed();
                let zp = Ppid::spec_zeroed();
                if !old(self).whitelisted(caller@) {
                    r == Err::<bool, ContractError>(ContractError::NotWhitelisted)
                } else if !old(self).measurements_approved(zm) {
                    r == Err::<bool, ContractError>(
                        ContractError::Verification(VerificationError::MeasurementNotApproved),
                    )
                } else if !old(self).ppid_approved(zp) {
                    r == Err::<bool, ContractError>(
                        ContractError::Verification(VerificationError::PlatformNotApproved),
                    )
                } else {
                    r == Ok::<bool, ContractError>(true)
                }
            }),
            old(self).requires_tee && r is Err ==> r matches Err(ContractError::Verification(_)),
            r is Ok ==> {
                &&& r == Ok::<bool, ContractError>(true)
                &&& *final(self) == (Contract { agents: final(self).agents, ..*old(self) })
                &&& final(self).has_agent(caller@)
                &&& ({
                    let a = final(self).agent_for(caller@);
                    &&& old(self).measurements_approved(a.measurements)
                    &&& old(self).ppid_approved(a.ppid)
                    &&& a.valid_until_ms == spec_saturating_add_u64(
                        now_ms,
                        old(self).attestation_expiration_time_ms,
                    )
                    &&& (!old(self).requires_tee ==> a.measurements
                        == FullMeasurements::spec_zeroed() && a.ppid == Ppid::spec_zeroed())
                })
                &&& old(self).agents_unchanged_except(*final(self), caller@)
                &&& (old(self).requires_tee ==> is_implicit_account(caller@))
            },
            old(self).requires_tee ==> ({
                let em = old(self).approved_measurements@;
                let ep = old(self).approved_ppids@;
                match r {
                    Ok(_) => spec_verify_attestation(
                        *attestation,
                        caller@,
                        em,
                        ep,
                        now_ms,
                        Ok(
                            (
                                final(self).agent_for(caller@).measurements,
                                final(self).agent_for(caller@).ppid,
                            ),
                        ),
                    ),
                    Err(e) => (e matches ContractError::Verification(v)
                        && spec_verify_attestation(*attestation, caller@, em, ep, now_ms, Err(v))),
                }
            }),
            old(self).requires_tee && !is_implicit_account(caller@) ==> r == Err::<
                bool,
                ContractError,
            >(ContractError::Verification(VerificationError::IdentityMismatch)),
            old(self).requires_tee && is_implicit_account(caller@) && !(attestation.quote_hex@.len()
                % 2 == 0 && is_hex_seq(attestation.quote_hex@)) ==> r == Err::<bool, ContractError>(
                ContractError::Verification(VerificationError::BadSignature),
            ),
    {
        let m: FullMeasurements;
        let p: Ppid;
        if self.requires_tee {
            match verify_attestation(
                attestation,
                caller,
                &self.approved_measurements,
                &self.approved_ppids,
                now_ms,
            ) {
                Err(e) => {
                    return Err(ContractError::Verification(e));
                },
                Ok((vm, vp)) => {
                    m = vm;
                    p = vp;
                },
            }
        } else {
            if !contains_account(&self.whitelisted_agents_for_local, caller) {
                return Err(ContractError::NotWhitelisted);
            }
            let zm = FullMeasurements::default();
            let zp = Ppid::default();
            if !contains_measurements(&self.approved_measurements, &zm) {
                return Err(
                    ContractError::Verification(VerificationError::MeasurementNotApproved),
                );
            }
            if !contains_ppid(&self.approved_ppids, &zp) {
                return Err(ContractError::Verification(VerificationError::PlatformNotApproved));
            }
            m = zm;
            p = zp;
        }
        let valid_until_ms = saturating_add_u64(now_ms, self.attestation_expiration_time_ms);
        self.put_agent(caller, Agent { measurements: m, ppid: p, valid_until_ms });
        Ok(true)
    }
}

} // verus!
