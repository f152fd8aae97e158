use holon_http::observer_sync::{
    advertised_observer_sync_capabilities, projection_effect_emission_enabled,
    ObserverSyncCapabilityVerification, ATOMIC_BRIEF_CREATED_EVENT_CAPABILITY,
    PROJECTION_EFFECT_CAPABILITY, PROJECTION_SNAPSHOT_CAPABILITY, ROSTER_SNAPSHOT_CAPABILITY,
};

#[test]
fn evaluator_disables_all_capabilities_without_verification() {
    let advertised = advertised_observer_sync_capabilities(&Default::default());
    assert!(advertised.is_empty());
}

#[test]
fn evaluator_requires_identity_prerequisites_for_snapshot_capabilities() {
    let verification = ObserverSyncCapabilityVerification {
        roster_snapshot_verified: true,
        projection_snapshot_verified: true,
        brief_atomic_linkage_verified: true,
        event_projection_effect_complete: true,
        ..Default::default()
    };
    let advertised = advertised_observer_sync_capabilities(&verification);
    assert!(!advertised.contains(&ROSTER_SNAPSHOT_CAPABILITY));
    assert!(!advertised.contains(&PROJECTION_SNAPSHOT_CAPABILITY));
    assert!(advertised.contains(&PROJECTION_EFFECT_CAPABILITY));
    assert!(advertised.contains(&ATOMIC_BRIEF_CREATED_EVENT_CAPABILITY));
}

#[test]
fn evaluator_advertises_capabilities_independently() {
    let verification = ObserverSyncCapabilityVerification {
        runtime_identity_stable: true,
        agent_identity_reserved: true,
        roster_snapshot_verified: true,
        ..Default::default()
    };
    assert_eq!(
        advertised_observer_sync_capabilities(&verification),
        vec![ROSTER_SNAPSHOT_CAPABILITY]
    );

    let verification = ObserverSyncCapabilityVerification {
        runtime_identity_stable: true,
        agent_identity_reserved: true,
        projection_snapshot_verified: true,
        ..Default::default()
    };
    assert_eq!(
        advertised_observer_sync_capabilities(&verification),
        vec![PROJECTION_SNAPSHOT_CAPABILITY]
    );
}

#[test]
fn all_verified_advertises_all_in_order() {
    let verification = ObserverSyncCapabilityVerification {
        runtime_identity_stable: true,
        agent_identity_reserved: true,
        roster_snapshot_verified: true,
        projection_snapshot_verified: true,
        event_projection_effect_complete: true,
        brief_atomic_linkage_verified: true,
    };
    assert_eq!(
        advertised_observer_sync_capabilities(&verification),
        vec![
            "agents.roster-snapshot.v1",
            "agents.projection-snapshot.v1",
            "events.projection-effect.v1",
            "briefs.atomic-created-event.v1"
        ]
    );
    assert!(projection_effect_emission_enabled(&verification));
    assert!(!projection_effect_emission_enabled(&Default::default()));
}
