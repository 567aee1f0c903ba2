//! Fleet inventory: selecting the running instances that carry every tag of
//! a tag/region group, in the order the provider listed them.

use crate::types::{InstanceView, LinodeInstance};
use vstd::prelude::*;

verus! {

/// Whether an instance carries every one of the given tags.
pub open spec fn spec_matches_tags(inst: InstanceView, tags: Seq<Seq<char>>) -> bool {
    forall|i: int| 0 <= i < tags.len() ==> inst.tags.contains(#[trigger] tags[i])
}

/// The instances carrying every given tag, in listing order.
pub open spec fn spec_filter_by_tags(
    instances: Seq<InstanceView>,
    tags: Seq<Seq<char>>,
) -> Seq<InstanceView>
    decreases instances.len(),
{
    if instances.len() == 0 {
        Seq::empty()
    } else {
        let rest = spec_filter_by_tags(instances.drop_last(), tags);
        if spec_matches_tags(instances.last(), tags) {
            rest.push(instances.last())
        } else {
            rest
        }
    }
}

/// Whether some string of `v` holds the characters of `s`.
pub fn vec_string_contains(v: &Vec<String>, s: &String) -> (r: bool)
    ensures
        r == v.deep_view().contains(s@),
{
    let mut i: usize = 0;
    while i < v.len()
        invariant
            0 <= i <= v@.len(),
            forall|k: int| 0 <= k < i ==> v.deep_view()[k] != s@,
        decreases v@.len() - i,
    {
        if v[i].eq(s) {
            assert(v.deep_view()[i as int] == s@);
            return true;
        }
        i += 1;
    }
    assert(forall|k: int| 0 <= k < v.deep_view().len() ==> v.deep_view()[k] != s@);
    false
}

/// Whether an instance carries every one of the given tags.
pub fn instance_matches_tags(inst: &LinodeInstance, tags: &Vec<String>) -> (r: bool)
    ensures
        r == spec_matches_tags(inst@, tags.deep_view()),
{
    let mut j: usize = 0;
    while j < tags.len()
        invariant
            0 <= j <= tags@.len(),
            forall|k: int| 0 <= k < j ==> inst@.tags.contains(#[trigger] tags.deep_view()[k]),
        decreases tags@.len() - j,
    {
        if !vec_string_contains(&inst.tags, &tags[j]) {
            assert(!inst@.tags.contains(tags.deep_view()[j as int]));
            return false;
        }
        j += 1;
    }
    true
}

/// Keeps the instances that carry every given tag, in listing order.
pub fn filter_instances_by_tags(instances: Vec<LinodeInstance>, tags: &Vec<String>) -> (r: Vec<
    LinodeInstance,
>)
    ensures
        r.deep_view() == spec_filter_by_tags(instances.deep_view(), tags.deep_view()),
{
    let ghost iv = instances.deep_view();
    let mut rest = instances;
    let mut r: Vec<LinodeInstance> = Vec::new();
    let ghost mut i: int = 0;
    while rest.len() > 0
        invariant
            0 <= i <= iv.len(),
            i + rest@.len() == iv.len(),
            rest.deep_view() =~= iv.subrange(i, iv.len() as int),
            r.deep_view() =~= spec_filter_by_tags(iv.subrange(0, i), tags.deep_view()),
        decreases rest@.len(),
    {
        let ghost prev = rest@;
        let ghost old_deep = rest.deep_view();
        let ghost old_r = r.deep_view();
        let inst = rest.remove(0);
        proof {
            assert(rest@ =~= prev.drop_first());
            assert(inst == prev[0]);
            assert(inst@ == old_deep[0]);
            assert(inst@ == iv[i]);
            assert forall|k: int| 0 <= k < rest@.len() implies rest.deep_view()[k] == iv[i + 1
                + k] by {
                assert(rest@[k] == prev[k + 1]);
                assert(old_deep[k + 1] == prev[k + 1].deep_view());
                assert(old_deep[k + 1] == iv.subrange(i, iv.len() as int)[k + 1]);
            }
            assert(rest.deep_view() =~= iv.subrange(i + 1, iv.len() as int));
            assert(iv.subrange(0, i + 1).drop_last() =~= iv.subrange(0, i));
            assert(iv.subrange(0, i + 1).last() == iv[i]);
        }
        if instance_matches_tags(&inst, tags) {
            r.push(inst);
            proof {
                assert(r.deep_view() =~= old_r.push(iv[i]));
            }
        }
        proof {
            i = i + 1;
        }
    }
    proof {
        assert(iv.subrange(0, iv.len() as int) =~= iv);
    }
    r
}

/// The ids of a list of instances, in order.
pub open spec fn spec_ids(instances: Seq<InstanceView>) -> Seq<u64>
    decreases instances.len(),
{
    if instances.len() == 0 {
        Seq::empty()
    } else {
        spec_ids(instances.drop_last()).push(instances.last().id)
    }
}

pub proof fn lemma_ids_index(instances: Seq<InstanceView>)
    ensures
        spec_ids(instances).len() == instances.len(),
        forall|k: int| 0 <= k < instances.len() ==> spec_ids(instances)[k] == (
        #[trigger] instances[k]).id,
    decreases instances.len(),
{
    if instances.len() > 0 {
        let rest = instances.drop_last();
        lemma_ids_index(rest);
        assert forall|k: int| 0 <= k < instances.len() implies spec_ids(instances)[k] == (
        #[trigger] instances[k]).id by {
            if k < instances.len() - 1 {
                assert(spec_ids(instances)[k] == spec_ids(rest)[k]);
                assert(rest[k] == instances[k]);
            }
        }
    }
}

pub fn instance_ids(instances: &Vec<LinodeInstance>) -> (r: Vec<u64>)
    ensures
        r@ == spec_ids(instances.deep_view()),
{
    let ghost iv = instances.deep_view();
    let mut r: Vec<u64> = Vec::new();
    let mut i: usize = 0;
    while i < instances.len()
        invariant
            0 <= i <= instances@.len(),
            iv == instances.deep_view(),
            iv.len() == instances@.len(),
            r@ == spec_ids(iv.subrange(0, i as int)),
        decreases instances@.len() - i,
    {
        proof {
            assert(iv.subrange(0, i as int + 1).drop_last() =~= iv.subrange(0, i as int));
            assert(iv.subrange(0, i as int + 1).last() == iv[i as int]);
            assert(iv[i as int] == instances@[i as int]@);
        }
        r.push(instances[i].id);
        i += 1;
    }
    assert(iv.subrange(0, iv.len() as int) =~= iv);
    r
}

} // verus!
