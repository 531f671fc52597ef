//! Lifecycle tests for the contract: initialization, approval registry,
//! local whitelist, registration, removal, owner management and the
//! signature dispatcher, all in local (non-attested) mode.

use shade_registry::attest::Attestation;
use shade_registry::contract::{Contract, DEFAULT_ATTESTATION_EXPIRATION_TIME_MS};
use shade_registry::errors::{AgentRemovalReason, ContractError, VerificationError};
use shade_registry::measurements::{FullMeasurements, Measurements, Ppid};

fn accounts(i: usize) -> String {
    ["alice", "bob", "charlie", "danny", "eugene", "fargo"][i].to_string()
}

const NOW: u64 = 1_000_000;

/// Returns measurements that differ from default (one byte different in mrtd).
fn non_default_measurements() -> FullMeasurements {
    let mut mrtd = [0u8; 48];
    mrtd[0] = 1;
    FullMeasurements {
        rtmrs: Measurements { mrtd, rtmr0: [0; 48], rtmr1: [0; 48], rtmr2: [0; 48] },
        key_provider_event_digest: [0; 48],
        app_compose_hash_payload: [0; 32],
    }
}

/// Returns a PPID that differs from default (all zeros).
fn non_default_ppid() -> Ppid {
    Ppid { bytes: [1u8; 16] }
}

/// Initializes a contract in local mode with the default measurements and
/// PPID approved, as registration in local mode requires.
fn setup_contract() -> Contract {
    let owner = accounts(0);
    let mut contract = Contract::new(false, owner.clone(), accounts(1));
    contract
        .approve_measurements(&owner, FullMeasurements::default())
        .unwrap();
    contract
        .approve_ppids(&owner, vec![Ppid::default()])
        .unwrap();
    contract
}

#[test]
fn test_new() {
    let owner = accounts(0);
    let mpc_contract = accounts(1);

    let contract = Contract::new(false, owner.clone(), mpc_contract.clone());

    assert_eq!(contract.owner_id, owner);
    assert_eq!(contract.mpc_contract_id, mpc_contract);
    assert_eq!(contract.requires_tee, false);
    assert_eq!(contract.get_approved_measurements(&None, &None).len(), 0);
    assert_eq!(contract.get_approved_ppids().len(), 0);
    assert_eq!(contract.get_agents(&None, &None, NOW).len(), 0);
    assert_eq!(contract.get_whitelisted_agents_for_local().len(), 0);
}

#[test]
fn test_approve_measurements() {
    let mut contract = setup_contract();

    let measurements = FullMeasurements::default();
    contract
        .approve_measurements(&accounts(0), measurements.clone())
        .unwrap();

    assert!(contract
        .get_approved_measurements(&None, &None)
        .contains(&measurements));
    assert_eq!(contract.get_approved_measurements(&None, &None).len(), 1);
}

#[test]
fn test_approve_measurements_not_owner() {
    let mut contract = setup_contract();
    let before = contract.get_approved_measurements(&None, &None);

    let r = contract.approve_measurements(&accounts(2), non_default_measurements());
    assert_eq!(r, Err(ContractError::NotOwner));
    assert_eq!(contract.get_approved_measurements(&None, &None), before);
}

#[test]
fn test_remove_measurements() {
    let mut contract = setup_contract();

    let extra = FullMeasurements::default();
    contract
        .approve_measurements(&accounts(0), extra.clone())
        .unwrap();
    let count_before = contract.get_approved_measurements(&None, &None).len();
    assert_eq!(count_before, 1);

    contract
        .remove_measurements(&accounts(0), extra.clone())
        .unwrap();
    assert!(!contract
        .get_approved_measurements(&None, &None)
        .contains(&extra));
}

#[test]
fn test_remove_measurements_not_owner() {
    let mut contract = setup_contract();
    let r = contract.remove_measurements(&accounts(2), FullMeasurements::default());
    assert_eq!(r, Err(ContractError::NotOwner));
    assert_eq!(contract.get_approved_measurements(&None, &None).len(), 1);
}

#[test]
fn test_remove_measurements_not_found() {
    let mut contract = setup_contract();
    let r = contract.remove_measurements(&accounts(0), non_default_measurements());
    assert_eq!(r, Err(ContractError::MeasurementsNotApproved));
}

#[test]
fn test_remove_ppids_not_found() {
    let mut contract = setup_contract();
    let r = contract.remove_ppids(&accounts(0), vec![non_default_ppid()]);
    assert_eq!(r, Err(ContractError::PpidNotApproved));
    // The batch is atomic: the approved list is untouched.
    assert_eq!(contract.get_approved_ppids(), vec![Ppid::default()]);
}

#[test]
fn test_remove_ppids_atomic_batch() {
    let mut contract = setup_contract();
    // One present id followed by one absent id: nothing may change.
    let r = contract.remove_ppids(&accounts(0), vec![Ppid::default(), non_default_ppid()]);
    assert_eq!(r, Err(ContractError::PpidNotApproved));
    assert_eq!(contract.get_approved_ppids(), vec![Ppid::default()]);

    let r = contract.remove_ppids(&accounts(0), vec![Ppid::default()]);
    assert_eq!(r, Ok(()));
    assert_eq!(contract.get_approved_ppids().len(), 0);
}

#[test]
fn test_remove_ppids_duplicate_batch() {
    let mut contract = setup_contract();
    // Presence is judged against the set at call time, so a batch naming
    // the same approved id twice succeeds and removes it once.
    let r = contract.remove_ppids(&accounts(0), vec![Ppid::default(), Ppid::default()]);
    assert_eq!(r, Ok(()));
    assert_eq!(contract.get_approved_ppids().len(), 0);
}

#[test]
fn test_whitelist_agent() {
    let mut contract = setup_contract();
    let agent = accounts(2);

    contract.whitelist_agent(&accounts(0), agent.clone()).unwrap();

    let whitelisted = contract.get_whitelisted_agents_for_local();
    assert!(whitelisted.contains(&agent));
    // Not registered yet, so get_agent returns None.
    assert!(contract.get_agent(agent.clone(), NOW).is_none());
}

#[test]
fn test_whitelist_agent_twice() {
    let mut contract = setup_contract();
    let agent = accounts(2);

    contract.whitelist_agent(&accounts(0), agent.clone()).unwrap();
    contract.whitelist_agent(&accounts(0), agent.clone()).unwrap();

    let whitelisted = contract.get_whitelisted_agents_for_local();
    assert_eq!(whitelisted.len(), 1);
}

#[test]
fn test_whitelist_agent_after_registration() {
    let mut contract = setup_contract();
    let agent = accounts(2);

    contract.whitelist_agent(&accounts(0), agent.clone()).unwrap();

    contract
        .register_agent(&agent, &Attestation::default(), NOW)
        .unwrap();

    let agent_info = contract.get_agent(agent.clone(), NOW).unwrap();
    assert!(agent_info.measurements_are_approved);
    assert!(agent_info.ppid_is_approved);

    // Whitelist the agent again (must not unregister it).
    contract.whitelist_agent(&accounts(0), agent.clone()).unwrap();

    let agent_info = contract.get_agent(agent.clone(), NOW).unwrap();
    assert!(agent_info.measurements_are_approved);
    assert!(agent_info.ppid_is_approved);
}

#[test]
fn test_whitelist_agent_not_owner() {
    let mut contract = setup_contract();
    let r = contract.whitelist_agent(&accounts(2), accounts(3));
    assert_eq!(r, Err(ContractError::NotOwner));
    assert_eq!(contract.get_whitelisted_agents_for_local().len(), 0);
}

#[test]
fn test_remove_agent_for_local_not_found() {
    let mut contract = setup_contract();
    let r = contract.remove_agent_for_local(&accounts(0), accounts(2));
    assert_eq!(r, Err(ContractError::NotWhitelisted));
}

#[test]
fn test_remove_agent_from_whitelist() {
    let mut contract = setup_contract();
    let agent = accounts(2);

    contract.whitelist_agent(&accounts(0), agent.clone()).unwrap();
    assert!(contract.get_whitelisted_agents_for_local().contains(&agent));

    contract
        .remove_agent_for_local(&accounts(0), agent.clone())
        .unwrap();
    assert!(!contract.get_whitelisted_agents_for_local().contains(&agent));
    assert!(contract.get_agent(agent, NOW).is_none());
}

#[test]
fn test_remove_agent_for_local_not_owner() {
    let mut contract = setup_contract();
    let agent = accounts(3);
    contract.whitelist_agent(&accounts(0), agent.clone()).unwrap();

    let r = contract.remove_agent_for_local(&accounts(2), agent);
    assert_eq!(r, Err(ContractError::NotOwner));
    assert_eq!(contract.get_whitelisted_agents_for_local().len(), 1);
}

#[test]
fn test_remove_agent() {
    let mut contract = setup_contract();
    let agent = accounts(2);

    contract.whitelist_agent(&accounts(0), agent.clone()).unwrap();
    contract
        .register_agent(&agent, &Attestation::default(), NOW)
        .unwrap();
    assert!(contract.get_agent(agent.clone(), NOW).is_some());

    let event = contract.remove_agent(&accounts(0), agent.clone()).unwrap();
    assert_eq!(event.account_id, agent);
    assert_eq!(event.reasons, vec![AgentRemovalReason::ManualRemoval]);
    assert!(contract.get_agent(agent, NOW).is_none());
}

#[test]
fn test_remove_agent_not_found() {
    let mut contract = setup_contract();
    let r = contract.remove_agent(&accounts(0), accounts(2));
    assert_eq!(r, Err(ContractError::NotRegistered));
}

#[test]
fn test_remove_agent_not_owner() {
    let mut contract = setup_contract();
    let agent = accounts(3);
    contract.whitelist_agent(&accounts(0), agent.clone()).unwrap();
    contract
        .register_agent(&agent, &Attestation::default(), NOW)
        .unwrap();

    let r = contract.remove_agent(&accounts(2), agent.clone());
    assert_eq!(r, Err(ContractError::NotOwner));
    assert!(contract.get_agent(agent, NOW).is_some());
}

#[test]
fn test_register_agent_without_tee() {
    let mut contract = setup_contract();
    let agent = accounts(2);

    contract.whitelist_agent(&accounts(0), agent.clone()).unwrap();

    let result = contract
        .register_agent(&agent, &Attestation::default(), NOW)
        .unwrap();
    assert!(result);

    let agent_info = contract.get_agent(agent.clone(), NOW).unwrap();
    assert!(agent_info.measurements_are_approved);
    assert!(agent_info.ppid_is_approved);
}

#[test]
fn test_register_agent_twice() {
    let mut contract = setup_contract();
    let agent = accounts(2);

    contract.whitelist_agent(&accounts(0), agent.clone()).unwrap();

    let result = contract
        .register_agent(&agent, &Attestation::default(), NOW)
        .unwrap();
    assert!(result);

    let agent_info = contract.get_agent(agent.clone(), NOW).unwrap();
    assert!(agent_info.measurements_are_approved);
    assert!(agent_info.ppid_is_approved);

    let result = contract
        .register_agent(&agent, &Attestation::default(), NOW)
        .unwrap();
    assert!(result);

    let agent_info = contract.get_agent(agent.clone(), NOW).unwrap();
    assert!(agent_info.measurements_are_approved);
    assert!(agent_info.ppid_is_approved);
    // Re-registration overwrites: still a single record.
    assert_eq!(contract.get_agents(&None, &None, NOW).len(), 1);
}

#[test]
fn test_register_agent_not_whitelisted() {
    let mut contract = setup_contract();
    let r = contract.register_agent(&accounts(2), &Attestation::default(), NOW);
    assert_eq!(r, Err(ContractError::NotWhitelisted));
}

#[test]
fn test_update_owner_id() {
    let mut contract = setup_contract();
    let new_owner = accounts(3);

    contract.update_owner_id(&accounts(0), new_owner.clone()).unwrap();
    assert_eq!(contract.owner_id, new_owner);
}

#[test]
fn test_update_owner_id_not_owner() {
    let mut contract = setup_contract();
    let r = contract.update_owner_id(&accounts(2), accounts(3));
    assert_eq!(r, Err(ContractError::NotOwner));
    assert_eq!(contract.owner_id, accounts(0));
}

#[test]
fn test_update_mpc_contract_id() {
    let mut contract = setup_contract();
    let new_mpc = accounts(4);

    contract
        .update_mpc_contract_id(&accounts(0), new_mpc.clone())
        .unwrap();
    assert_eq!(contract.mpc_contract_id, new_mpc);
}

#[test]
fn test_update_mpc_contract_id_not_owner() {
    let mut contract = setup_contract();
    let r = contract.update_mpc_contract_id(&accounts(2), accounts(4));
    assert_eq!(r, Err(ContractError::NotOwner));
    assert_eq!(contract.mpc_contract_id, accounts(1));
}

#[test]
fn test_update_attestation_expiration_time() {
    let mut contract = setup_contract();
    assert_eq!(
        contract.get_contract_info().attestation_expiration_time_ms,
        DEFAULT_ATTESTATION_EXPIRATION_TIME_MS
    );

    contract
        .update_attestation_expiration_time(&accounts(0), 200_000)
        .unwrap();
    let info = contract.get_contract_info();
    assert_eq!(info.attestation_expiration_time_ms, 200_000);
    assert_eq!(info.owner_id, accounts(0));
    assert_eq!(info.requires_tee, false);

    let r = contract.update_attestation_expiration_time(&accounts(2), 300_000);
    assert_eq!(r, Err(ContractError::NotOwner));
    assert_eq!(
        contract.get_contract_info().attestation_expiration_time_ms,
        200_000
    );
}

#[test]
fn test_get_requires_tee() {
    let contract = setup_contract();
    assert_eq!(contract.get_requires_tee(), false);
}

#[test]
fn test_get_approved_measurements() {
    let mut contract = setup_contract();

    let default = FullMeasurements::default();
    contract
        .approve_measurements(&accounts(0), default.clone())
        .unwrap();

    let all = contract.get_approved_measurements(&None, &None);
    assert_eq!(all.len(), 1);
    assert!(all.contains(&default));

    let first_two = contract.get_approved_measurements(&Some(0), &Some(2));
    assert_eq!(first_two.len(), 1);
}

#[test]
fn test_get_agents() {
    let mut contract = setup_contract();
    let owner = accounts(0);
    let agent1 = accounts(2);
    let agent2 = accounts(3);
    let agent3 = accounts(4);

    contract.whitelist_agent(&owner, agent1.clone()).unwrap();
    contract.whitelist_agent(&owner, agent2.clone()).unwrap();
    contract.whitelist_agent(&owner, agent3.clone()).unwrap();

    assert_eq!(contract.get_agents(&None, &None, NOW).len(), 0);

    contract
        .register_agent(&agent1, &Attestation::default(), NOW)
        .unwrap();
    contract
        .register_agent(&agent2, &Attestation::default(), NOW)
        .unwrap();

    assert!(contract.get_agent(agent3.clone(), NOW).is_none());

    let agents = contract.get_agents(&None, &None, NOW);
    assert_eq!(agents.len(), 2);

    let agent1_info = agents.iter().find(|a| a.account_id == agent1).unwrap();
    assert!(agent1_info.measurements_are_approved);
    assert!(agent1_info.ppid_is_approved);

    let agent2_info = agents.iter().find(|a| a.account_id == agent2).unwrap();
    assert!(agent2_info.measurements_are_approved);
    assert!(agent2_info.ppid_is_approved);

    assert_eq!(contract.get_agents(&Some(0), &Some(1), NOW).len(), 1);

    contract
        .remove_measurements(&owner, FullMeasurements::default())
        .unwrap();

    let agents = contract.get_agents(&None, &None, NOW);
    let agent1_info = agents.iter().find(|a| a.account_id == agent1).unwrap();
    assert!(!agent1_info.measurements_are_approved);
    assert!(agent1_info.ppid_is_approved);

    let agent2_info = agents.iter().find(|a| a.account_id == agent2).unwrap();
    assert!(!agent2_info.measurements_are_approved);
    assert!(agent2_info.ppid_is_approved);
}

#[test]
fn test_get_agent() {
    let mut contract = setup_contract();
    let agent = accounts(2);

    assert!(contract.get_agent(agent.clone(), NOW).is_none());

    contract.whitelist_agent(&accounts(0), agent.clone()).unwrap();
    assert!(contract.get_agent(agent.clone(), NOW).is_none());

    contract
        .register_agent(&agent, &Attestation::default(), NOW)
        .unwrap();

    let agent_info = contract.get_agent(agent.clone(), NOW).unwrap();
    assert_eq!(agent_info.account_id, agent);
    assert!(agent_info.measurements_are_approved);
    assert!(agent_info.ppid_is_approved);
    assert_eq!(
        agent_info.valid_until_ms,
        NOW + DEFAULT_ATTESTATION_EXPIRATION_TIME_MS
    );
}

#[test]
fn test_request_signature_not_whitelisted() {
    let mut contract = setup_contract();
    let r = contract.request_signature(
        &accounts(2),
        "path".to_string(),
        "payload".to_string(),
        "Ecdsa".to_string(),
        NOW,
    );
    assert_eq!(r.unwrap_err(), ContractError::NotRegistered);
}

#[test]
fn test_request_signature_not_registered() {
    let mut contract = setup_contract();
    let agent = accounts(2);
    contract.whitelist_agent(&accounts(0), agent.clone()).unwrap();

    let r = contract.request_signature(
        &agent,
        "path".to_string(),
        "payload".to_string(),
        "Ecdsa".to_string(),
        NOW,
    );
    assert_eq!(r.unwrap_err(), ContractError::NotRegistered);
}

#[test]
fn test_request_signature_measurements_removed() {
    let mut contract = setup_contract();
    let agent = accounts(2);

    contract.whitelist_agent(&accounts(0), agent.clone()).unwrap();
    contract
        .register_agent(&agent, &Attestation::default(), NOW)
        .unwrap();
    assert!(contract
        .request_signature(
            &agent,
            "path".to_string(),
            "payload".to_string(),
            "Ecdsa".to_string(),
            NOW,
        )
        .is_ok());

    contract
        .remove_measurements(&accounts(0), FullMeasurements::default())
        .unwrap();

    let agent_info = contract.get_agent(agent.clone(), NOW).unwrap();
    assert!(!agent_info.measurements_are_approved);

    let r = contract.request_signature(
        &agent,
        "path".to_string(),
        "payload".to_string(),
        "Ecdsa".to_string(),
        NOW,
    );
    assert_eq!(
        r.unwrap_err(),
        ContractError::AgentInvalid(vec![AgentRemovalReason::InvalidMeasurements])
    );
}

#[test]
fn test_request_signature_ppid_removed() {
    let mut contract = setup_contract();
    let agent = accounts(2);

    contract.whitelist_agent(&accounts(0), agent.clone()).unwrap();
    contract
        .register_agent(&agent, &Attestation::default(), NOW)
        .unwrap();
    assert!(contract
        .request_signature(
            &agent,
            "path".to_string(),
            "payload".to_string(),
            "Ecdsa".to_string(),
            NOW,
        )
        .is_ok());

    contract
        .remove_ppids(&accounts(0), vec![Ppid::default()])
        .unwrap();

    let agent_info = contract.get_agent(agent.clone(), NOW).unwrap();
    assert!(!agent_info.ppid_is_approved);

    let r = contract.request_signature(
        &agent,
        "path".to_string(),
        "payload".to_string(),
        "Ecdsa".to_string(),
        NOW,
    );
    assert_eq!(
        r.unwrap_err(),
        ContractError::AgentInvalid(vec![AgentRemovalReason::InvalidPpid])
    );
}

#[test]
fn test_request_signature_success() {
    let mut contract = setup_contract();
    let agent = accounts(2);

    contract.whitelist_agent(&accounts(0), agent.clone()).unwrap();
    contract
        .register_agent(&agent, &Attestation::default(), NOW)
        .unwrap();

    let q = contract
        .request_signature(
            &agent,
            "path".to_string(),
            "payload".to_string(),
            "Ecdsa".to_string(),
            NOW,
        )
        .unwrap();
    assert_eq!(q.target, accounts(1));
    assert_eq!(q.requester, agent);
    assert_eq!(q.path, "path");
    assert_eq!(q.payload, "payload");
    assert_eq!(q.domain_id, 0);
}

#[test]
fn test_request_signature_with_eddsa() {
    let mut contract = setup_contract();
    let agent = accounts(2);

    contract.whitelist_agent(&accounts(0), agent.clone()).unwrap();
    contract
        .register_agent(&agent, &Attestation::default(), NOW)
        .unwrap();

    let q = contract
        .request_signature(
            &agent,
            "path".to_string(),
            "payload".to_string(),
            "Eddsa".to_string(),
            NOW,
        )
        .unwrap();
    assert_eq!(q.domain_id, 1);
}

#[test]
fn test_request_signature_invalid_key_type() {
    let mut contract = setup_contract();
    let agent = accounts(2);

    contract.whitelist_agent(&accounts(0), agent.clone()).unwrap();
    contract
        .register_agent(&agent, &Attestation::default(), NOW)
        .unwrap();

    let r = contract.request_signature(
        &agent,
        "path".to_string(),
        "payload".to_string(),
        "invalid".to_string(),
        NOW,
    );
    assert_eq!(r.unwrap_err(), ContractError::InvalidKeyType);
    // Rejected before any state access: the agent record is still there.
    assert!(contract.get_agent(agent, NOW).is_some());
}

#[test]
fn test_register_fails_without_default_measurements_or_ppid() {
    let mut contract = setup_contract();
    let agent = accounts(2);
    contract.whitelist_agent(&accounts(0), agent.clone()).unwrap();

    contract
        .remove_measurements(&accounts(0), FullMeasurements::default())
        .unwrap();
    let r = contract.register_agent(&agent, &Attestation::default(), NOW);
    assert_eq!(
        r,
        Err(ContractError::Verification(
            VerificationError::MeasurementNotApproved
        ))
    );

    contract
        .approve_measurements(&accounts(0), FullMeasurements::default())
        .unwrap();
    contract
        .remove_ppids(&accounts(0), vec![Ppid::default()])
        .unwrap();
    let r = contract.register_agent(&agent, &Attestation::default(), NOW);
    assert_eq!(
        r,
        Err(ContractError::Verification(
            VerificationError::PlatformNotApproved
        ))
    );

    contract
        .approve_ppids(&accounts(0), vec![Ppid::default()])
        .unwrap();
    assert_eq!(
        contract.register_agent(&agent, &Attestation::default(), NOW),
        Ok(true)
    );
}
