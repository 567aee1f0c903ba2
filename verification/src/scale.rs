//! The scale controller: one scale-up and one scale-down operation, each as
//! a state machine from (state, event) to (next state, action). The caller
//! performs each action against the provider and hands the answer back as
//! the next event.

use crate::address::{collect_octets, next_host_octet, interfaces_for, spec_configs_octets,
    spec_new_interfaces, spec_next_host_octet};
use crate::dns::{make_prefix, reconcile, find_record_by_target, lemma_first_down_bounds,
    lemma_match_target_bounds, lemma_match_target_unique, spec_first_down, spec_has_target,
    spec_is_a_record, spec_match_target, spec_prefix, spec_reconcile, spec_down_target,
    spec_set_target, ReconcileOutcome, ReconcileView};
use crate::fleet::{filter_instances_by_tags, instance_ids, lemma_ids_index, spec_filter_by_tags,
    spec_ids};
use crate::provision::{instance_create_options, spec_valid_create_options};
use crate::types::{Configuration, DomainRecord, Interfaces, InstanceView, LinodeInstance,
    LinodeInstanceCreateOptions, RecordView};
use vstd::prelude::*;

verus! {

/// Why a scale-up unit stops before completing.
#[derive(Clone, Copy, PartialEq, Eq, Structural, Debug)]
pub enum ScaleError {
    /// The freshly created instance reported no configuration.
    NoConfiguration,
    /// The freshly created instance reported no public address.
    NoPublicAddress,
    /// The group's single /24 subnet already uses host octet 255.
    AddressSpaceExhausted,
}

/// What a scale operation asks its caller to do next.
pub enum ScaleAction {
    FetchInstances,
    FetchConfigurations { instance_id: u64 },
    CreateInstance { options: LinodeInstanceCreateOptions },
    SetInterfaces { instance_id: u64, config_id: u64, interfaces: Interfaces },
    RebootInstance { instance_id: u64 },
    FetchRecords { domain: u64 },
    UpdateRecord { domain: u64, record_id: u64, target: String },
    CreateRecord { domain: u64, name: String, target: String },
    DestroyInstance { instance_id: u64 },
    Finish,
    Fail { error: ScaleError },
}

/// What the caller hands back after performing an action.
pub enum ScaleEvent {
    Instances { instances: Vec<LinodeInstance> },
    Configurations { configs: Vec<Configuration> },
    Created { instance: LinodeInstance },
    Records { records: Vec<DomainRecord> },
    Done,
}

/// The fixed inputs of one scale-up operation.
pub struct ScaleUpParams {
    pub image_id: String,
    pub instance_type: String,
    pub domain: u64,
    pub region_code: String,
    pub region_name: String,
    pub tag: String,
    pub pub_key: String,
}

/// The states a scale-up unit moves through.
pub enum ScaleUpState {
    /// Waiting for the full instance listing.
    Inventory,
    /// Waiting for the configurations of each inventoried instance in turn,
    /// accumulating the group's VLAN host octets.
    GatherConfigs { pending: Vec<u64>, octets: Vec<u8> },
    /// Waiting for the provider to create the instance.
    AwaitCreate { octet: u8 },
    /// Waiting for the new instance's configurations.
    AwaitNewConfigs { octet: u8, instance_id: u64, addresses: Vec<String> },
    /// Waiting for the interface attachment to be acknowledged.
    AwaitAttach { instance_id: u64, addresses: Vec<String> },
    /// Waiting for the reboot that makes the interfaces take effect.
    AwaitReboot { instance_id: u64, addresses: Vec<String> },
    /// Waiting for the zone's records, to bind a DNS slot.
    AwaitRecords { instance_id: u64, addresses: Vec<String> },
    /// Waiting for the record write to be acknowledged.
    AwaitDnsWrite { instance_id: u64 },
    Complete { instance_id: u64 },
    Failed { error: ScaleError },
}

/// The tags that scope one tag/region group.
pub open spec fn spec_group_tags(tag: Seq<char>, region_code: Seq<char>) -> Seq<Seq<char>> {
    seq![tag, region_code]
}

/// The inventory a scale operation works on: the listed instances carrying
/// both the tag and the region code.
pub open spec fn spec_inventory(
    instances: Seq<InstanceView>,
    tag: Seq<char>,
    region_code: Seq<char>,
) -> Seq<InstanceView> {
    spec_filter_by_tags(instances, spec_group_tags(tag, region_code))
}

/// Which event a scale-up state is waiting for.
pub open spec fn spec_up_expects(state: ScaleUpState, event: ScaleEvent) -> bool {
    match state {
        ScaleUpState::Inventory => event matches ScaleEvent::Instances { .. },
        ScaleUpState::GatherConfigs { .. } => event matches ScaleEvent::Configurations { .. },
        ScaleUpState::AwaitCreate { .. } => event matches ScaleEvent::Created { .. },
        ScaleUpState::AwaitNewConfigs { .. } => event matches ScaleEvent::Configurations { .. },
        ScaleUpState::AwaitAttach { .. } => event matches ScaleEvent::Done,
        ScaleUpState::AwaitReboot { .. } => event matches ScaleEvent::Done,
        ScaleUpState::AwaitRecords { .. } => event matches ScaleEvent::Records { .. },
        ScaleUpState::AwaitDnsWrite { .. } => event matches ScaleEvent::Done,
        ScaleUpState::Complete { .. } => false,
        ScaleUpState::Failed { .. } => false,
    }
}

/// A provisioning action with a well-formed request for this operation.
pub open spec fn spec_create_action_ok(params: ScaleUpParams, action: ScaleAction) -> bool {
    action matches ScaleAction::CreateInstance { options } && spec_valid_create_options(
        options,
        params.image_id@,
        params.tag@,
        params.region_code@,
        params.region_name@,
        params.instance_type@,
        params.pub_key@,
    )
}

/// The scale-up transition relation: what the next state and action must be
/// for each state and the event it waits for.
pub open spec fn spec_scale_up_step_ok(
    params: ScaleUpParams,
    state: ScaleUpState,
    event: ScaleEvent,
    next: ScaleUpState,
    action: ScaleAction,
) -> bool {
    match state {
        ScaleUpState::Inventory => match event {
            ScaleEvent::Instances { instances } => {
                let inv = spec_inventory(instances.deep_view(), params.tag@, params.region_code@);
                if inv.len() == 0 {
                    &&& next matches ScaleUpState::AwaitCreate { octet } && octet == 1
                    &&& spec_create_action_ok(params, action)
                } else {
                    &&& next matches ScaleUpState::GatherConfigs { pending, octets }
                        && pending@ == spec_ids(inv).drop_first() && octets@ == Seq::<u8>::empty()
                    &&& action matches ScaleAction::FetchConfigurations { instance_id }
                        && instance_id == inv[0].id
                }
            },
            _ => false,
        },
        ScaleUpState::GatherConfigs { pending, octets } => match event {
            ScaleEvent::Configurations { configs } => {
                let octs = octets@ + spec_configs_octets(configs.deep_view(), params.tag@);
                if pending@.len() > 0 {
                    &&& next matches ScaleUpState::GatherConfigs { pending: p2, octets: o2 }
                        && p2@ == pending@.drop_first() && o2@ == octs
                    &&& action matches ScaleAction::FetchConfigurations { instance_id }
                        && instance_id == pending@[0]
                } else {
                    match spec_next_host_octet(octs) {
                        None => {
                            &&& next == (ScaleUpState::Failed {
                                error: ScaleError::AddressSpaceExhausted,
                            })
                            &&& action == (ScaleAction::Fail {
                                error: ScaleError::AddressSpaceExhausted,
                            })
                        },
                        Some(o) => {
                            &&& next matches ScaleUpState::AwaitCreate { octet } && octet == o
                            &&& spec_create_action_ok(params, action)
                        },
                    }
                }
            },
            _ => false,
        },
        ScaleUpState::AwaitCreate { octet } => match event {
            ScaleEvent::Created { instance } => {
                &&& next matches ScaleUpState::AwaitNewConfigs {
                    octet: o2,
                    instance_id,
                    addresses,
                } && o2 == octet && instance_id == instance.id && addresses@ == instance.ipv4@
                &&& action matches ScaleAction::FetchConfigurations { instance_id: a }
                    && a == instance.id
            },
            _ => false,
        },
        ScaleUpState::AwaitNewConfigs { octet, instance_id, addresses } => match event {
            ScaleEvent::Configurations { configs } => {
                if configs@.len() == 0 {
                    &&& next == (ScaleUpState::Failed { error: ScaleError::NoConfiguration })
                    &&& action == (ScaleAction::Fail { error: ScaleError::NoConfiguration })
                } else {
                    &&& next matches ScaleUpState::AwaitAttach { instance_id: i2, addresses: a2 }
                        && i2 == instance_id && a2 == addresses
                    &&& action matches ScaleAction::SetInterfaces {
                        instance_id: i3,
                        config_id,
                        interfaces,
                    } && i3 == instance_id && config_id == configs.deep_view()[0].id
                        && interfaces.interfaces.deep_view() == spec_new_interfaces(
                        params.tag@,
                        octet,
                    )
                }
            },
            _ => false,
        },
        ScaleUpState::AwaitAttach { instance_id, addresses } => match event {
            ScaleEvent::Done => {
                &&& next matches ScaleUpState::AwaitReboot { instance_id: i2, addresses: a2 }
                    && i2 == instance_id && a2 == addresses
                &&& action matches ScaleAction::RebootInstance { instance_id: a }
                    && a == instance_id
            },
            _ => false,
        },
        ScaleUpState::AwaitReboot { instance_id, addresses } => match event {
            ScaleEvent::Done => {
                &&& next matches ScaleUpState::AwaitRecords { instance_id: i2, addresses: a2 }
                    && i2 == instance_id && a2 == addresses
                &&& action == (ScaleAction::FetchRecords { domain: params.domain })
            },
            _ => false,
        },
        ScaleUpState::AwaitRecords { instance_id, addresses } => match event {
            ScaleEvent::Records { records } => {
                if addresses@.len() == 0 {
                    &&& next == (ScaleUpState::Failed { error: ScaleError::NoPublicAddress })
                    &&& action == (ScaleAction::Fail { error: ScaleError::NoPublicAddress })
                } else {
                    let outcome = spec_reconcile(
                        records.deep_view(),
                        spec_prefix(params.tag@, params.region_code@),
                        addresses.deep_view()[0],
                    );
                    &&& next matches ScaleUpState::AwaitDnsWrite { instance_id: i2 }
                        && i2 == instance_id
                    &&& match outcome {
                        ReconcileView::Claim { record_id } => action
                            matches ScaleAction::UpdateRecord { domain, record_id: r2, target }
                            && domain == params.domain && r2 == record_id && target@
                            == addresses.deep_view()[0],
                        ReconcileView::Create { name, target } => action
                            matches ScaleAction::CreateRecord { domain, name: n2, target: t2 }
                            && domain == params.domain && n2@ == name && t2@ == target,
                    }
                }
            },
            _ => false,
        },
        ScaleUpState::AwaitDnsWrite { instance_id } => match event {
            ScaleEvent::Done => {
                &&& next matches ScaleUpState::Complete { instance_id: i2 } && i2 == instance_id
                &&& action == ScaleAction::Finish
            },
            _ => false,
        },
        ScaleUpState::Complete { .. } => false,
        ScaleUpState::Failed { .. } => false,
    }
}

fn create_action(params: &ScaleUpParams) -> (a: ScaleAction)
    ensures
        spec_create_action_ok(*params, a),
{
    ScaleAction::CreateInstance {
        options: instance_create_options(
            params.image_id.as_str(),
            params.tag.as_str(),
            params.region_code.as_str(),
            params.region_name.as_str(),
            params.instance_type.as_str(),
            params.pub_key.as_str(),
        ),
    }
}

fn group_tags(params_tag: &String, params_region_code: &String) -> (r: Vec<String>)
    ensures
        r.deep_view() == spec_group_tags(params_tag@, params_region_code@),
{
    let mut group: Vec<String> = Vec::new();
    group.push(params_tag.clone());
    group.push(params_region_code.clone());
    assert(group.deep_view() =~= seq![params_tag@, params_region_code@]);
    group
}

/// The state and first action of a fresh scale-up unit.
pub fn scale_up_init() -> (r: (ScaleUpState, ScaleAction))
    ensures
        r.0 == ScaleUpState::Inventory,
        r.1 == ScaleAction::FetchInstances,
{
    (ScaleUpState::Inventory, ScaleAction::FetchInstances)
}

/// One scale-up transition: consumes the state and the event it was waiting
/// for, and yields the next state with the action the caller must perform.
pub fn scale_up_step(params: &ScaleUpParams, state: ScaleUpState, event: ScaleEvent) -> (r: (
    ScaleUpState,
    ScaleAction,
))
    requires
        spec_up_expects(state, event),
    ensures
        spec_scale_up_step_ok(*params, state, event, r.0, r.1),
{
    match (state, event) {
        (ScaleUpState::Inventory, ScaleEvent::Instances { instances }) => {
            let group = group_tags(&params.tag, &params.region_code);
            let ghost all = instances.deep_view();
            let inv = filter_instances_by_tags(instances, &group);
            let ghost invv = spec_inventory(all, params.tag@, params.region_code@);
            if inv.len() == 0 {
                (ScaleUpState::AwaitCreate { octet: 1 }, create_action(params))
            } else {
                let mut ids = instance_ids(&inv);
                proof {
                    lemma_ids_index(inv.deep_view());
                }
                let first = ids.remove(0);
                proof {
                    assert(ids@ =~= spec_ids(invv).drop_first());
                    assert(first == invv[0].id);
                }
                let octets: Vec<u8> = Vec::new();
                (
                    ScaleUpState::GatherConfigs { pending: ids, octets },
                    ScaleAction::FetchConfigurations { instance_id: first },
                )
            }
        },
        (ScaleUpState::GatherConfigs { pending, octets }, ScaleEvent::Configurations {
            configs,
        }) => {
            let mut octs = octets;
            let mut more = collect_octets(&configs, params.tag.as_str());
            octs.append(&mut more);
            if pending.len() > 0 {
                let mut rest = pending;
                let ghost pv = rest@;
                let first = rest.remove(0);
                proof {
                    assert(rest@ =~= pv.drop_first());
                }
                (
                    ScaleUpState::GatherConfigs { pending: rest, octets: octs },
                    ScaleAction::FetchConfigurations { instance_id: first },
                )
            } else {
                match next_host_octet(&octs) {
                    None => (
                        ScaleUpState::Failed { error: ScaleError::AddressSpaceExhausted },
                        ScaleAction::Fail { error: ScaleError::AddressSpaceExhausted },
                    ),
                    Some(o) => (ScaleUpState::AwaitCreate { octet: o }, create_action(params)),
                }
            }
        },
        (ScaleUpState::AwaitCreate { octet }, ScaleEvent::Created { instance }) => {
            let instance_id = instance.id;
            (
                ScaleUpState::AwaitNewConfigs { octet, instance_id, addresses: instance.ipv4 },
                ScaleAction::FetchConfigurations { instance_id },
            )
        },
        (
            ScaleUpState::AwaitNewConfigs { octet, instance_id, addresses },
            ScaleEvent::Configurations { configs },
        ) => {
            if configs.len() == 0 {
                (
                    ScaleUpState::Failed { error: ScaleError::NoConfiguration },
                    ScaleAction::Fail { error: ScaleError::NoConfiguration },
                )
            } else {
                let config_id = configs[0].id;
                let interfaces = interfaces_for(params.tag.as_str(), octet);
                (
                    ScaleUpState::AwaitAttach { instance_id, addresses },
                    ScaleAction::SetInterfaces { instance_id, config_id, interfaces },
                )
            }
        },
        (ScaleUpState::AwaitAttach { instance_id, addresses }, ScaleEvent::Done) => {
            (
                ScaleUpState::AwaitReboot { instance_id, addresses },
                ScaleAction::RebootInstance { instance_id },
            )
        },
        (ScaleUpState::AwaitReboot { instance_id, addresses }, ScaleEvent::Done) => {
            (
                ScaleUpState::AwaitRecords { instance_id, addresses },
                ScaleAction::FetchRecords { domain: params.domain },
            )
        },
        (ScaleUpState::AwaitRecords { instance_id, addresses }, ScaleEvent::Records {
            records,
        }) => {
            if addresses.len() == 0 {
                (
                    ScaleUpState::Failed { error: ScaleError::NoPublicAddress },
                    ScaleAction::Fail { error: ScaleError::NoPublicAddress },
                )
            } else {
                let prefix = make_prefix(params.tag.as_str(), params.region_code.as_str());
                let target = addresses[0].clone();
                assert(target@ == addresses.deep_view()[0]);
                match reconcile(&records, prefix.as_str(), target.as_str()) {
                    ReconcileOutcome::Claim { record_id } => (
                        ScaleUpState::AwaitDnsWrite { instance_id },
                        ScaleAction::UpdateRecord { domain: params.domain, record_id, target },
                    ),
                    ReconcileOutcome::Create { name, target: t } => (
                        ScaleUpState::AwaitDnsWrite { instance_id },
                        ScaleAction::CreateRecord { domain: params.domain, name, target: t },
                    ),
                }
            }
        },
        (ScaleUpState::AwaitDnsWrite { instance_id }, ScaleEvent::Done) => {
            (ScaleUpState::Complete { instance_id }, ScaleAction::Finish)
        },
        _ => {
            proof {
                assert(false);
            }
            (ScaleUpState::Inventory, ScaleAction::FetchInstances)
        },
    }
}

/// The fixed inputs of one scale-down operation.
pub struct ScaleDownParams {
    pub domain: u64,
    pub region_code: String,
    pub tag: String,
}

/// The states a scale-down unit moves through.
pub enum ScaleDownState {
    /// Waiting for the full instance listing.
    Inventory,
    /// Waiting for the zone's records, holding the inventoried instances.
    AwaitRecords { instances: Vec<LinodeInstance> },
    /// Waiting for the matched record to be repointed at the down sentinel.
    AwaitRelease { instance_id: u64 },
    /// Waiting for the matched instance to be destroyed.
    AwaitDestroy { instance_id: u64 },
    Complete,
}

/// Whether an instance resolves to a record: it has a public address and
/// some `A` record's target equals the first one.
pub open spec fn spec_instance_matches(inst: InstanceView, records: Seq<RecordView>) -> bool {
    inst.ipv4.len() > 0 && spec_match_target(records, inst.ipv4[0]) is Some
}

/// Index of the first inventoried instance that resolves to a record.
pub open spec fn spec_first_match(
    instances: Seq<InstanceView>,
    records: Seq<RecordView>,
) -> Option<int>
    decreases instances.len(),
{
    if instances.len() == 0 {
        None
    } else if spec_instance_matches(instances[0], records) {
        Some(0)
    } else {
        match spec_first_match(instances.drop_first(), records) {
            Some(j) => Some(j + 1),
            None => None,
        }
    }
}

pub proof fn lemma_first_match_bounds(instances: Seq<InstanceView>, records: Seq<RecordView>)
    ensures
        match spec_first_match(instances, records) {
            Some(j) => 0 <= j < instances.len() && spec_instance_matches(instances[j], records)
                && forall|k: int|
                0 <= k < j ==> !spec_instance_matches(#[trigger] instances[k], records),
            None => forall|k: int|
                0 <= k < instances.len() ==> !spec_instance_matches(
                    #[trigger] instances[k],
                    records,
                ),
        },
    decreases instances.len(),
{
    if instances.len() > 0 && !spec_instance_matches(instances[0], records) {
        let rest = instances.drop_first();
        lemma_first_match_bounds(rest, records);
        assert(forall|k: int| 0 <= k < rest.len() ==> #[trigger] rest[k] == instances[k + 1]);
        match spec_first_match(rest, records) {
            Some(j) => {
                assert forall|k: int|
                    0 <= k < j + 1 implies !spec_instance_matches(
                    #[trigger] instances[k],
                    records,
                ) by {
                    if k > 0 {
                        assert(rest[k - 1] == instances[k]);
                    }
                }
            },
            None => {
                assert forall|k: int|
                    0 <= k < instances.len() implies !spec_instance_matches(
                    #[trigger] instances[k],
                    records,
                ) by {
                    if k > 0 {
                        assert(rest[k - 1] == instances[k]);
                    }
                }
            },
        }
    }
}

pub proof fn lemma_first_match_hit(
    instances: Seq<InstanceView>,
    records: Seq<RecordView>,
    j: int,
)
    requires
        0 <= j < instances.len(),
        forall|k: int| 0 <= k < j ==> !spec_instance_matches(#[trigger] instances[k], records),
        spec_instance_matches(instances[j], records),
    ensures
        spec_first_match(instances, records) == Some(j),
    decreases j,
{
    if j > 0 {
        let rest = instances.drop_first();
        assert(forall|k: int| 0 <= k < rest.len() ==> #[trigger] rest[k] == instances[k + 1]);
        assert(rest[j - 1] == instances[j]);
        assert(forall|k: int|
            0 <= k < j - 1 ==> !spec_instance_matches(#[trigger] rest[k], records));
        lemma_first_match_hit(rest, records, j - 1);
    }
}

/// What one scale-down unit decides: which record to vacate and which
/// instance to destroy.
pub struct ScaleDownPlan {
    pub record_id: u64,
    pub instance_id: u64,
}

/// What the scale-down decision must be: no plan exactly when no
/// inventoried instance resolves to a record; otherwise the first matching
/// instance and the record its first public address resolves to.
pub open spec fn spec_plan_ok(
    r: Option<ScaleDownPlan>,
    instances: Seq<InstanceView>,
    records: Seq<RecordView>,
) -> bool {
    match spec_first_match(instances, records) {
        None => r is None,
        Some(j) => {
            &&& r matches Some(p) && p.instance_id == instances[j].id && match spec_match_target(
                records,
                instances[j].ipv4[0],
            ) {
                Some(i) => p.record_id == records[i].id,
                None => false,
            }
        },
    }
}

/// Picks the first inventoried instance whose first public address resolves
/// to an `A` record; instances without a public address resolve to nothing.
/// Matching goes by record target address, never by record name against the
/// instance label: address matching tolerates label churn.
pub fn scale_down_plan(instances: &Vec<LinodeInstance>, records: &Vec<DomainRecord>) -> (r:
    Option<ScaleDownPlan>)
    ensures
        spec_plan_ok(r, instances.deep_view(), records.deep_view()),
{
    let ghost iv = instances.deep_view();
    let ghost rv = records.deep_view();
    let mut j: usize = 0;
    while j < instances.len()
        invariant
            0 <= j <= instances@.len(),
            iv == instances.deep_view(),
            rv == records.deep_view(),
            iv.len() == instances@.len(),
            forall|k: int| 0 <= k < j ==> !spec_instance_matches(#[trigger] iv[k], rv),
        decreases instances@.len() - j,
    {
        let inst = &instances[j];
        proof {
            assert(iv[j as int] == instances@[j as int]@);
        }
        if inst.ipv4.len() > 0 {
            proof {
                assert(inst.ipv4.deep_view()[0] == inst.ipv4@[0]@);
            }
            match find_record_by_target(records, inst.ipv4[0].as_str()) {
                Some(record_id) => {
                    proof {
                        lemma_first_match_hit(iv, rv, j as int);
                    }
                    return Some(ScaleDownPlan { record_id, instance_id: inst.id });
                },
                None => {
                    assert(!spec_instance_matches(iv[j as int], rv));
                },
            }
        } else {
            assert(!spec_instance_matches(iv[j as int], rv));
        }
        j += 1;
    }
    proof {
        lemma_first_match_bounds(iv, rv);
        if spec_first_match(iv, rv) is Some {
            assert(false);
        }
    }
    None
}

/// Which event a scale-down state is waiting for.
pub open spec fn spec_down_expects(state: ScaleDownState, event: ScaleEvent) -> bool {
    match state {
        ScaleDownState::Inventory => event matches ScaleEvent::Instances { .. },
        ScaleDownState::AwaitRecords { .. } => event matches ScaleEvent::Records { .. },
        ScaleDownState::AwaitRelease { .. } => event matches ScaleEvent::Done,
        ScaleDownState::AwaitDestroy { .. } => event matches ScaleEvent::Done,
        ScaleDownState::Complete => false,
    }
}

/// The scale-down transition relation. When no inventoried instance
/// resolves to a record, the unit completes without asking for any write:
/// the operation is a no-op.
pub open spec fn spec_scale_down_step_ok(
    params: ScaleDownParams,
    state: ScaleDownState,
    event: ScaleEvent,
    next: ScaleDownState,
    action: ScaleAction,
) -> bool {
    match state {
        ScaleDownState::Inventory => match event {
            ScaleEvent::Instances { instances } => {
                let inv = spec_inventory(instances.deep_view(), params.tag@, params.region_code@);
                &&& next matches ScaleDownState::AwaitRecords { instances: f } && f.deep_view()
                    == inv
                &&& action == (ScaleAction::FetchRecords { domain: params.domain })
            },
            _ => false,
        },
        ScaleDownState::AwaitRecords { instances } => match event {
            ScaleEvent::Records { records } => {
                match spec_first_match(instances.deep_view(), records.deep_view()) {
                    None => next == ScaleDownState::Complete && action == ScaleAction::Finish,
                    Some(j) => {
                        &&& next matches ScaleDownState::AwaitRelease { instance_id }
                            && instance_id == instances.deep_view()[j].id
                        &&& action matches ScaleAction::UpdateRecord { domain, record_id, target }
                            && domain == params.domain && target@ == spec_down_target() && match
                            spec_match_target(
                            records.deep_view(),
                            instances.deep_view()[j].ipv4[0],
                        ) {
                            Some(i) => record_id == records.deep_view()[i].id,
                            None => false,
                        }
                    },
                }
            },
            _ => false,
        },
        ScaleDownState::AwaitRelease { instance_id } => match event {
            ScaleEvent::Done => {
                &&& next matches ScaleDownState::AwaitDestroy { instance_id: i2 } && i2
                    == instance_id
                &&& action matches ScaleAction::DestroyInstance { instance_id: a } && a
                    == instance_id
            },
            _ => false,
        },
        ScaleDownState::AwaitDestroy { .. } => match event {
            ScaleEvent::Done => next == ScaleDownState::Complete && action == ScaleAction::Finish,
            _ => false,
        },
        ScaleDownState::Complete => false,
    }
}

/// The state and first action of a fresh scale-down unit.
pub fn scale_down_init() -> (r: (ScaleDownState, ScaleAction))
    ensures
        r.0 == ScaleDownState::Inventory,
        r.1 == ScaleAction::FetchInstances,
{
    (ScaleDownState::Inventory, ScaleAction::FetchInstances)
}

/// One scale-down transition: consumes the state and the event it was
/// waiting for, and yields the next state with the action the caller must
/// perform.
pub fn scale_down_step(params: &ScaleDownParams, state: ScaleDownState, event: ScaleEvent) -> (r:
    (ScaleDownState, ScaleAction))
    requires
        spec_down_expects(state, event),
    ensures
        spec_scale_down_step_ok(*params, state, event, r.0, r.1),
{
    match (state, event) {
        (ScaleDownState::Inventory, ScaleEvent::Instances { instances }) => {
            let group = group_tags(&params.tag, &params.region_code);
            let inv = filter_instances_by_tags(instances, &group);
            (
                ScaleDownState::AwaitRecords { instances: inv },
                ScaleAction::FetchRecords { domain: params.domain },
            )
        },
        (ScaleDownState::AwaitRecords { instances }, ScaleEvent::Records { records }) => {
            match scale_down_plan(&instances, &records) {
                Some(plan) => (
                    ScaleDownState::AwaitRelease { instance_id: plan.instance_id },
                    ScaleAction::UpdateRecord {
                        domain: params.domain,
                        record_id: plan.record_id,
                        target: "127.0.0.1".to_owned(),
                    },
                ),
                None => (ScaleDownState::Complete, ScaleAction::Finish),
            }
        },
        (ScaleDownState::AwaitRelease { instance_id }, ScaleEvent::Done) => {
            (
                ScaleDownState::AwaitDestroy { instance_id },
                ScaleAction::DestroyInstance { instance_id },
            )
        },
        (ScaleDownState::AwaitDestroy { instance_id: _ }, ScaleEvent::Done) => {
            (ScaleDownState::Complete, ScaleAction::Finish)
        },
        _ => {
            proof {
                assert(false);
            }
            (ScaleDownState::Complete, ScaleAction::Finish)
        },
    }
}

/// Scale-down on an unmatched fleet is a no-op: there is no plan — so no
/// record is vacated and no instance destroyed — exactly when no
/// inventoried instance's first public address resolves to a record.
pub proof fn lemma_scale_down_noop(instances: Seq<InstanceView>, records: Seq<RecordView>)
    ensures
        (spec_first_match(instances, records) is None) <==> (forall|k: int|
            0 <= k < instances.len() ==> !spec_instance_matches(#[trigger] instances[k], records)),
{
    lemma_first_match_bounds(instances, records);
}

/// Round trip: the DNS bind of a scale-up, followed immediately by a
/// scale-down on the same group, hands the bound slot back to its vacated
/// state and leaves the fleet size unchanged. `addr` is the new instance's
/// public address, fresh in the zone; `created` is the `A` record the
/// provider would store for a created slot; the previously inventoried instances
/// resolve to no record and the new instance is listed after them. When the
/// scale-up claimed a vacated record, the record set comes back exactly;
/// when it created a new slot, every old record comes back and the new slot
/// is left vacated.
pub proof fn lemma_scale_round_trip(
    records: Seq<RecordView>,
    prefix: Seq<char>,
    addr: Seq<char>,
    created: RecordView,
    instances: Seq<InstanceView>,
    new_inst: InstanceView,
)
    requires
        addr != spec_down_target(),
        forall|k: int| 0 <= k < records.len() ==> (#[trigger] records[k]).target != addr,
        spec_is_a_record(created),
        created.target == addr,
        new_inst.ipv4.len() > 0,
        new_inst.ipv4[0] == addr,
        forall|j: int|
            0 <= j < instances.len() ==> (#[trigger] instances[j]).ipv4.len() == 0 || (
            instances[j].ipv4[0] != addr && !spec_has_target(records, instances[j].ipv4[0])),
    ensures
        match spec_reconcile(records, prefix, addr) {
            ReconcileView::Claim { record_id } => match spec_first_down(records, prefix) {
                Some(i) => {
                    let up = spec_set_target(records, i, addr);
                    &&& record_id == records[i].id
                    &&& spec_match_target(up, addr) == Some(i)
                    &&& spec_first_match(instances.push(new_inst), up) == Some(
                        instances.len() as int,
                    )
                    &&& spec_set_target(up, i, spec_down_target()) == records
                    &&& instances.push(new_inst).drop_last() == instances
                },
                None => false,
            },
            ReconcileView::Create { name, target } => {
                let up = records.push(created);
                &&& spec_match_target(up, addr) == Some(records.len() as int)
                &&& spec_first_match(instances.push(new_inst), up) == Some(instances.len() as int)
                &&& spec_set_target(up, records.len() as int, spec_down_target())
                    == records.push(
                    RecordView {
                        id: created.id,
                        record_type: created.record_type,
                        name: created.name,
                        target: spec_down_target(),
                        ttl_sec: created.ttl_sec,
                    },
                )
                &&& instances.push(new_inst).drop_last() == instances
            },
        },
{
    let inv_up = instances.push(new_inst);
    assert(inv_up.drop_last() =~= instances);
    match spec_first_down(records, prefix) {
        Some(i) => {
            lemma_first_down_bounds(records, prefix);
            let up = spec_set_target(records, i, addr);
            assert(spec_is_a_record(up[i]));
            assert(up[i].target == addr);
            assert(forall|k: int|
                0 <= k < up.len() && k != i ==> (#[trigger] up[k]).target != addr);
            lemma_match_target_unique(up, addr, i);
            assert forall|k: int|
                0 <= k < up.len() implies (#[trigger] up[k]).target == addr || !spec_is_a_record(
                up[k],
            ) || spec_has_target(records, up[k].target) by {
                if k != i && spec_is_a_record(up[k]) {
                    assert(up[k] == records[k]);
                    assert(spec_is_a_record(records[k]) && records[k].target == up[k].target);
                }
            }
            lemma_round_trip_inventory(records, up, addr, instances, new_inst);
            assert(spec_set_target(up, i, spec_down_target()) =~= records);
        },
        None => {
            let up = records.push(created);
            assert(spec_is_a_record(up.last()));
            assert(up.last().target == addr);
            assert(spec_match_target(up, addr) == Some(records.len() as int));
            assert forall|k: int|
                0 <= k < up.len() implies (#[trigger] up[k]).target == addr || !spec_is_a_record(
                up[k],
            ) || spec_has_target(records, up[k].target) by {
                if k < records.len() && spec_is_a_record(up[k]) {
                    assert(up[k] == records[k]);
                    assert(spec_is_a_record(records[k]) && records[k].target == up[k].target);
                }
            }
            lemma_round_trip_inventory(records, up, addr, instances, new_inst);
            assert(spec_set_target(up, records.len() as int, spec_down_target()) =~= records.push(
                RecordView {
                    id: created.id,
                    record_type: created.record_type,
                    name: created.name,
                    target: spec_down_target(),
                    ttl_sec: created.ttl_sec,
                },
            ));
        },
    }
}

/// After the scale-up's DNS write — which only repoints one record at the
/// fresh address or adds one with it — the scale-down inventory scan picks
/// the new instance, listed last.
proof fn lemma_round_trip_inventory(
    records: Seq<RecordView>,
    up: Seq<RecordView>,
    addr: Seq<char>,
    instances: Seq<InstanceView>,
    new_inst: InstanceView,
)
    requires
        new_inst.ipv4.len() > 0,
        new_inst.ipv4[0] == addr,
        spec_match_target(up, addr) is Some,
        forall|k: int|
            0 <= k < up.len() ==> (#[trigger] up[k]).target == addr || !spec_is_a_record(up[k])
                || spec_has_target(records, up[k].target),
        forall|j: int|
            0 <= j < instances.len() ==> (#[trigger] instances[j]).ipv4.len() == 0 || (
            instances[j].ipv4[0] != addr && !spec_has_target(records, instances[j].ipv4[0])),
    ensures
        spec_first_match(instances.push(new_inst), up) == Some(instances.len() as int),
{
    let inv_up = instances.push(new_inst);
    assert forall|j: int|
        0 <= j < instances.len() implies !spec_instance_matches(
        #[trigger] inv_up[j],
        up,
    ) by {
        assert(inv_up[j] == instances[j]);
        if instances[j].ipv4.len() > 0 {
            let a = instances[j].ipv4[0];
            assert forall|k: int|
                0 <= k < up.len() implies !(spec_is_a_record(#[trigger] up[k]) && up[k].target
                == a) by {
                if up[k].target != addr && spec_is_a_record(up[k]) && up[k].target == a {
                    assert(spec_has_target(records, a));
                }
            }
            lemma_match_target_bounds(up, a);
            match spec_match_target(up, a) {
                Some(x) => {
                    assert(spec_is_a_record(up[x]) && up[x].target == a);
                    assert(false);
                },
                None => {},
            }
        }
    }
    assert(inv_up[instances.len() as int] == new_inst);
    assert(spec_instance_matches(new_inst, up));
    lemma_first_match_hit(inv_up, up, instances.len() as int);
}

} // verus!
