//! The scale controller state machines, driven with recorded events.

use linode::scale::{
    scale_down_init, scale_down_plan, scale_down_step, scale_up_init, scale_up_step, ScaleAction,
    ScaleDownParams, ScaleDownState, ScaleError, ScaleEvent, ScaleUpParams, ScaleUpState,
};
use linode::types::{Configuration, DomainRecord, Interface, LinodeInstance};

fn up_params() -> ScaleUpParams {
    ScaleUpParams {
        image_id: "linode/debian12".to_string(),
        instance_type: "g6-nanode-1".to_string(),
        domain: 5,
        region_code: "us-iad".to_string(),
        region_name: "us-iad".to_string(),
        tag: "web".to_string(),
        pub_key: "ssh-ed25519 AAAA".to_string(),
    }
}

fn down_params() -> ScaleDownParams {
    ScaleDownParams { domain: 5, region_code: "us-iad".to_string(), tag: "web".to_string() }
}

fn instance(id: u64, tags: &[&str], ipv4: &[&str]) -> LinodeInstance {
    LinodeInstance {
        id,
        label: format!("inst-{}", id),
        instance_type: "g6-nanode-1".to_string(),
        ipv4: ipv4.iter().map(|s| s.to_string()).collect(),
        ipv6: "::1".to_string(),
        region: "us-iad".to_string(),
        tags: tags.iter().map(|s| s.to_string()).collect(),
    }
}

fn vlan_config(id: u64, label: &str, addr: &str) -> Configuration {
    Configuration {
        id,
        interfaces: vec![Interface {
            purpose: "vlan".to_string(),
            ipam_address: Some(addr.to_string()),
            label: Some(label.to_string()),
        }],
    }
}

fn a_record(id: u64, name: &str, target: &str) -> DomainRecord {
    DomainRecord {
        id,
        record_type: "A".to_string(),
        name: name.to_string(),
        target: target.to_string(),
        ttl_sec: 3600,
    }
}

#[test]
fn scale_up_end_to_end_claims_a_vacated_slot() {
    let params = up_params();
    let (state, action) = scale_up_init();
    assert!(matches!(action, ScaleAction::FetchInstances));

    // Inventory: one tagged instance, one unrelated.
    let listing = vec![
        instance(11, &["web", "us-iad"], &["198.51.100.7"]),
        instance(12, &["db", "us-iad"], &["198.51.100.8"]),
    ];
    let (state, action) =
        scale_up_step(&params, state, ScaleEvent::Instances { instances: listing });
    match &action {
        ScaleAction::FetchConfigurations { instance_id } => assert_eq!(*instance_id, 11),
        _ => panic!("expected a configurations fetch"),
    }

    // Its VLAN interface holds 10.0.0.4/24, so the next octet is 5.
    let configs = vec![vlan_config(70, "web", "10.0.0.4/24")];
    let (state, action) = scale_up_step(&params, state, ScaleEvent::Configurations { configs });
    let label = match &action {
        ScaleAction::CreateInstance { options } => {
            assert_eq!(options.image, "linode/debian12");
            assert_eq!(options.instance_type, "g6-nanode-1");
            assert_eq!(options.region, "us-iad");
            assert_eq!(options.tags, vec!["web".to_string(), "us-iad".to_string()]);
            assert_eq!(options.root_pass.len(), 30);
            assert_eq!(options.authorized_keys, vec!["ssh-ed25519 AAAA".to_string()]);
            options.label.clone()
        },
        _ => panic!("expected an instance creation"),
    };
    assert!(label.starts_with("us-iad-"));
    assert_eq!(label.len(), "us-iad-".len() + 27);

    // The provider creates instance 99 with one public address.
    let created = instance(99, &["web", "us-iad"], &["203.0.113.9"]);
    let (state, action) = scale_up_step(&params, state, ScaleEvent::Created { instance: created });
    match &action {
        ScaleAction::FetchConfigurations { instance_id } => assert_eq!(*instance_id, 99),
        _ => panic!("expected a configurations fetch"),
    }

    // Its first configuration gets the public + VLAN interface pair.
    let configs = vec![vlan_config(700, "web", "10.0.0.1/24")];
    let (state, action) = scale_up_step(&params, state, ScaleEvent::Configurations { configs });
    match &action {
        ScaleAction::SetInterfaces { instance_id, config_id, interfaces } => {
            assert_eq!(*instance_id, 99);
            assert_eq!(*config_id, 700);
            assert_eq!(interfaces.interfaces.len(), 2);
            assert_eq!(interfaces.interfaces[0].purpose, "public");
            assert_eq!(interfaces.interfaces[0].ipam_address, None);
            assert_eq!(interfaces.interfaces[0].label, None);
            assert_eq!(interfaces.interfaces[1].purpose, "vlan");
            assert_eq!(interfaces.interfaces[1].ipam_address, Some("10.0.0.5/24".to_string()));
            assert_eq!(interfaces.interfaces[1].label, Some("web".to_string()));
        },
        _ => panic!("expected an interface attachment"),
    }

    let (state, action) = scale_up_step(&params, state, ScaleEvent::Done);
    match &action {
        ScaleAction::RebootInstance { instance_id } => assert_eq!(*instance_id, 99),
        _ => panic!("expected a reboot"),
    }

    let (state, action) = scale_up_step(&params, state, ScaleEvent::Done);
    match &action {
        ScaleAction::FetchRecords { domain } => assert_eq!(*domain, 5),
        _ => panic!("expected a records fetch"),
    }

    // A vacated slot exists: claim it rather than create a new name.
    let records = vec![
        a_record(31, "web-us-iad-1", "198.51.100.7"),
        a_record(32, "web-us-iad-2", "127.0.0.1"),
    ];
    let (state, action) = scale_up_step(&params, state, ScaleEvent::Records { records });
    match &action {
        ScaleAction::UpdateRecord { domain, record_id, target } => {
            assert_eq!(*domain, 5);
            assert_eq!(*record_id, 32);
            assert_eq!(target, "203.0.113.9");
        },
        _ => panic!("expected a record update"),
    }

    let (state, action) = scale_up_step(&params, state, ScaleEvent::Done);
    assert!(matches!(action, ScaleAction::Finish));
    match state {
        ScaleUpState::Complete { instance_id } => assert_eq!(instance_id, 99),
        _ => panic!("expected completion"),
    }
}

#[test]
fn scale_up_creates_the_next_slot_when_none_is_vacated() {
    let params = up_params();
    let (state, _) = scale_up_init();
    let (state, _) =
        scale_up_step(&params, state, ScaleEvent::Instances { instances: Vec::new() });
    // Empty inventory allocates octet 1 and provisions at once.
    let created = instance(99, &["web", "us-iad"], &["203.0.113.9"]);
    let (state, _) = scale_up_step(&params, state, ScaleEvent::Created { instance: created });
    let configs = vec![vlan_config(700, "web", "10.0.0.1/24")];
    let (state, _) = scale_up_step(&params, state, ScaleEvent::Configurations { configs });
    let (state, _) = scale_up_step(&params, state, ScaleEvent::Done);
    let (state, _) = scale_up_step(&params, state, ScaleEvent::Done);
    let records = vec![
        a_record(31, "web-us-iad-1", "198.51.100.7"),
        a_record(33, "web-us-iad-2", "198.51.100.9"),
    ];
    let (_, action) = scale_up_step(&params, state, ScaleEvent::Records { records });
    match &action {
        ScaleAction::CreateRecord { domain, name, target } => {
            assert_eq!(*domain, 5);
            assert_eq!(name, "web-us-iad-3");
            assert_eq!(target, "203.0.113.9");
        },
        _ => panic!("expected a record creation"),
    }
}

#[test]
fn scale_up_flags_an_exhausted_subnet() {
    let params = up_params();
    let (state, _) = scale_up_init();
    let listing = vec![instance(11, &["web", "us-iad"], &["198.51.100.7"])];
    let (state, _) = scale_up_step(&params, state, ScaleEvent::Instances { instances: listing });
    let configs = vec![vlan_config(70, "web", "10.0.0.255/24")];
    let (state, action) = scale_up_step(&params, state, ScaleEvent::Configurations { configs });
    assert!(matches!(action, ScaleAction::Fail { error: ScaleError::AddressSpaceExhausted }));
    assert!(matches!(state, ScaleUpState::Failed { error: ScaleError::AddressSpaceExhausted }));
}

#[test]
fn scale_up_fails_without_a_configuration() {
    let params = up_params();
    let (state, _) = scale_up_init();
    let (state, _) =
        scale_up_step(&params, state, ScaleEvent::Instances { instances: Vec::new() });
    let created = instance(99, &["web", "us-iad"], &["203.0.113.9"]);
    let (state, _) = scale_up_step(&params, state, ScaleEvent::Created { instance: created });
    let (state, action) =
        scale_up_step(&params, state, ScaleEvent::Configurations { configs: Vec::new() });
    assert!(matches!(action, ScaleAction::Fail { error: ScaleError::NoConfiguration }));
    assert!(matches!(state, ScaleUpState::Failed { error: ScaleError::NoConfiguration }));
}

#[test]
fn scale_up_fails_without_a_public_address() {
    let params = up_params();
    let (state, _) = scale_up_init();
    let (state, _) =
        scale_up_step(&params, state, ScaleEvent::Instances { instances: Vec::new() });
    let created = instance(99, &["web", "us-iad"], &[]);
    let (state, _) = scale_up_step(&params, state, ScaleEvent::Created { instance: created });
    let configs = vec![vlan_config(700, "web", "10.0.0.1/24")];
    let (state, _) = scale_up_step(&params, state, ScaleEvent::Configurations { configs });
    let (state, _) = scale_up_step(&params, state, ScaleEvent::Done);
    let (state, _) = scale_up_step(&params, state, ScaleEvent::Done);
    let (state, action) =
        scale_up_step(&params, state, ScaleEvent::Records { records: Vec::new() });
    assert!(matches!(action, ScaleAction::Fail { error: ScaleError::NoPublicAddress }));
    assert!(matches!(state, ScaleUpState::Failed { error: ScaleError::NoPublicAddress }));
}

#[test]
fn scale_down_vacates_the_matched_slot_and_destroys() {
    let params = down_params();
    let (state, action) = scale_down_init();
    assert!(matches!(action, ScaleAction::FetchInstances));

    let listing = vec![
        instance(11, &["db"], &["198.51.100.1"]),
        instance(12, &["web", "us-iad"], &["203.0.113.9"]),
    ];
    let (state, action) =
        scale_down_step(&params, state, ScaleEvent::Instances { instances: listing });
    match &action {
        ScaleAction::FetchRecords { domain } => assert_eq!(*domain, 5),
        _ => panic!("expected a records fetch"),
    }

    let records = vec![
        a_record(31, "web-us-iad-1", "198.51.100.1"),
        a_record(32, "web-us-iad-2", "203.0.113.9"),
    ];
    let (state, action) = scale_down_step(&params, state, ScaleEvent::Records { records });
    match &action {
        ScaleAction::UpdateRecord { domain, record_id, target } => {
            assert_eq!(*domain, 5);
            assert_eq!(*record_id, 32);
            assert_eq!(target, "127.0.0.1");
        },
        _ => panic!("expected the slot to be vacated"),
    }

    let (state, action) = scale_down_step(&params, state, ScaleEvent::Done);
    match &action {
        ScaleAction::DestroyInstance { instance_id } => assert_eq!(*instance_id, 12),
        _ => panic!("expected the instance to be destroyed"),
    }

    let (state, action) = scale_down_step(&params, state, ScaleEvent::Done);
    assert!(matches!(action, ScaleAction::Finish));
    assert!(matches!(state, ScaleDownState::Complete));
}

#[test]
fn scale_down_without_a_match_is_a_no_op() {
    let params = down_params();
    let (state, _) = scale_down_init();
    let listing = vec![instance(12, &["web", "us-iad"], &["203.0.113.9"])];
    let (state, _) = scale_down_step(&params, state, ScaleEvent::Instances { instances: listing });
    let records = vec![a_record(31, "web-us-iad-1", "198.51.100.1")];
    let (state, action) = scale_down_step(&params, state, ScaleEvent::Records { records });
    assert!(matches!(action, ScaleAction::Finish));
    assert!(matches!(state, ScaleDownState::Complete));
}

#[test]
fn scale_down_plan_picks_first_instance_and_last_duplicate_record() {
    let instances = vec![
        instance(10, &["web"], &[]),
        instance(11, &["web"], &["203.0.113.9"]),
        instance(12, &["web"], &["198.51.100.1"]),
    ];
    let records = vec![
        a_record(31, "web-1", "203.0.113.9"),
        a_record(32, "web-2", "203.0.113.9"),
        a_record(33, "web-3", "198.51.100.1"),
    ];
    // The first instance has no public address and is skipped; the second
    // matches, through the later of the two records sharing its target.
    let plan = scale_down_plan(&instances, &records).expect("a plan");
    assert_eq!(plan.instance_id, 11);
    assert_eq!(plan.record_id, 32);
}

#[test]
fn round_trip_returns_the_claimed_slot_to_its_down_state() {
    // Scale-up claims the vacated slot web-us-iad-2 for the new instance.
    let params = up_params();
    let (state, _) = scale_up_init();
    let (state, _) = scale_up_step(&params, state, ScaleEvent::Instances { instances: Vec::new() });
    let new_inst = instance(99, &["web", "us-iad"], &["203.0.113.9"]);
    let (state, _) =
        scale_up_step(&params, state, ScaleEvent::Created { instance: new_inst.clone() });
    let configs = vec![vlan_config(700, "web", "10.0.0.1/24")];
    let (state, _) = scale_up_step(&params, state, ScaleEvent::Configurations { configs });
    let (state, _) = scale_up_step(&params, state, ScaleEvent::Done);
    let (state, _) = scale_up_step(&params, state, ScaleEvent::Done);
    let before = vec![a_record(32, "web-us-iad-2", "127.0.0.1")];
    let (_, action) =
        scale_up_step(&params, state, ScaleEvent::Records { records: before.clone() });
    let mut after_up = before.clone();
    match action {
        ScaleAction::UpdateRecord { record_id, target, .. } => {
            assert_eq!(record_id, 32);
            for rec in after_up.iter_mut() {
                if rec.id == record_id {
                    rec.target = target.clone();
                }
            }
        },
        _ => panic!("expected the vacated slot to be claimed"),
    }
    assert_eq!(after_up[0].target, "203.0.113.9");

    // Scale-down immediately after finds the new instance and vacates the
    // same slot: the record set returns to its pre-scale-up state, and the
    // fleet shrinks back by the one instance just added.
    let dparams = down_params();
    let (state, _) = scale_down_init();
    let (state, _) =
        scale_down_step(&dparams, state, ScaleEvent::Instances { instances: vec![new_inst] });
    let (state, action) =
        scale_down_step(&dparams, state, ScaleEvent::Records { records: after_up.clone() });
    let mut after_down = after_up;
    match action {
        ScaleAction::UpdateRecord { record_id, target, .. } => {
            assert_eq!(record_id, 32);
            for rec in after_down.iter_mut() {
                if rec.id == record_id {
                    rec.target = target.clone();
                }
            }
        },
        _ => panic!("expected the slot to be vacated"),
    }
    assert_eq!(after_down[0].target, before[0].target);
    assert_eq!(after_down[0].name, before[0].name);
    let (_, action) = scale_down_step(&dparams, state, ScaleEvent::Done);
    match action {
        ScaleAction::DestroyInstance { instance_id } => assert_eq!(instance_id, 99),
        _ => panic!("expected the new instance to be destroyed"),
    }
}

#[test]
fn scale_down_matches_only_a_records() {
    // The first instance's address appears only as a TXT record's target:
    // it must not match. The second instance is bound by an A record and is
    // the one scaled down.
    let params = down_params();
    let (state, _) = scale_down_init();
    let listing = vec![
        instance(1, &["web", "us-iad"], &["10.1.1.1"]),
        instance(2, &["web", "us-iad"], &["9.9.9.9"]),
    ];
    let (state, _) = scale_down_step(&params, state, ScaleEvent::Instances { instances: listing });
    let mut txt = a_record(31, "note-1", "10.1.1.1");
    txt.record_type = "TXT".to_string();
    let records = vec![txt, a_record(32, "web-us-iad-1", "9.9.9.9")];
    let (state, action) = scale_down_step(&params, state, ScaleEvent::Records { records });
    match &action {
        ScaleAction::UpdateRecord { record_id, target, .. } => {
            assert_eq!(*record_id, 32);
            assert_eq!(target, "127.0.0.1");
        },
        _ => panic!("expected the A-bound slot to be vacated"),
    }
    let (_, action) = scale_down_step(&params, state, ScaleEvent::Done);
    match &action {
        ScaleAction::DestroyInstance { instance_id } => assert_eq!(*instance_id, 2),
        _ => panic!("expected the A-bound instance to be destroyed"),
    }
}

#[test]
fn scale_down_plan_is_empty_without_matches() {
    let instances = vec![instance(11, &["web"], &["203.0.113.9"])];
    let records = vec![a_record(31, "web-1", "198.51.100.1")];
    assert!(scale_down_plan(&instances, &records).is_none());
}
