//! DNS slot reconciliation: claiming a vacated slot record or computing the
//! next sequential slot name, and looking records up by target address.

use crate::text::{
    after_last_index_of, chars_vec, copy_range, find_after_last, lemma_parse_bounded_bound,
    parse_bounded, push_decimal, spec_dec, spec_parse_bounded, str_eq, MAX_SLOT,
};
use crate::types::{DomainRecord, DomainRecordOptions, DomainRecordUpdateOptions, RecordView};
use vstd::prelude::*;
use vstd::seq_lib::*;

verus! {

/// The sentinel target that marks a slot record as vacated.
pub open spec fn spec_down_target() -> Seq<char> {
    "127.0.0.1"@
}

/// Whether a record is vacated: its target is the down sentinel.
pub open spec fn spec_is_down(r: RecordView) -> bool {
    r.target == spec_down_target()
}

/// Whether a record is an `A` record: the only kind that takes part in slot
/// reconciliation and in target matching.
pub open spec fn spec_is_a_record(r: RecordView) -> bool {
    r.record_type == "A"@
}

/// Whether a record takes part in reconciliation for `prefix`: it is an `A`
/// record and its name starts with the prefix.
pub open spec fn spec_matches_prefix(r: RecordView, prefix: Seq<char>) -> bool {
    spec_is_a_record(r) && prefix.is_prefix_of(r.name)
}

/// The value of a trailing slot suffix: an optional single leading `+`,
/// then a run of digits — leading zeros allowed — whose value is at most
/// `MAX_SLOT`.
pub open spec fn spec_parse_slot_suffix(s: Seq<char>) -> Option<u32> {
    if s.len() > 0 && s[0] == '+' {
        spec_parse_bounded(s.drop_first(), MAX_SLOT)
    } else {
        spec_parse_bounded(s, MAX_SLOT)
    }
}

/// The trailing slot number of a record name: the number after the last
/// `-`, when there is one no greater than `MAX_SLOT`.
pub open spec fn spec_extract_number(s: Seq<char>) -> Option<u32> {
    spec_parse_slot_suffix(s.subrange(after_last_index_of(s, '-'), s.len() as int))
}

pub proof fn lemma_extract_number_bound(s: Seq<char>)
    ensures
        match spec_extract_number(s) {
            Some(n) => n <= MAX_SLOT,
            None => true,
        },
{
    let suffix = s.subrange(after_last_index_of(s, '-'), s.len() as int);
    if suffix.len() > 0 && suffix[0] == '+' {
        lemma_parse_bounded_bound(suffix.drop_first(), MAX_SLOT);
    } else {
        lemma_parse_bounded_bound(suffix, MAX_SLOT);
    }
}

/// The trailing slot number of a name; `None` when the text after the last
/// `-` (or the whole name, when it has no `-`) is not such a number.
pub fn extract_number(input: &str) -> (r: Option<u32>)
    ensures
        r == spec_extract_number(input@),
{
    let chars = chars_vec(input);
    let cut = find_after_last(&chars, '-');
    let suffix = copy_range(&chars, cut, chars.len());
    if suffix.len() > 0 && suffix[0] == '+' {
        let digits = copy_range(&suffix, 1, suffix.len());
        proof {
            assert(suffix@.subrange(1, suffix@.len() as int) =~= suffix@.drop_first());
        }
        return parse_bounded(&digits, MAX_SLOT);
    }
    parse_bounded(&suffix, MAX_SLOT)
}

/// Index of the first vacated record matching `prefix`, if any.
pub open spec fn spec_first_down(records: Seq<RecordView>, prefix: Seq<char>) -> Option<int>
    decreases records.len(),
{
    if records.len() == 0 {
        None
    } else if spec_matches_prefix(records[0], prefix) && spec_is_down(records[0]) {
        Some(0)
    } else {
        match spec_first_down(records.drop_first(), prefix) {
            Some(i) => Some(i + 1),
            None => None,
        }
    }
}

pub proof fn lemma_first_down_hit(records: Seq<RecordView>, prefix: Seq<char>, i: int)
    requires
        0 <= i < records.len(),
        forall|k: int|
            0 <= k < i ==> !(spec_matches_prefix(#[trigger] records[k], prefix) && spec_is_down(
                records[k],
            )),
        spec_matches_prefix(records[i], prefix) && spec_is_down(records[i]),
    ensures
        spec_first_down(records, prefix) == Some(i),
    decreases i,
{
    if i > 0 {
        let rest = records.drop_first();
        assert(forall|k: int|
            0 <= k < i - 1 ==> !(spec_matches_prefix(#[trigger] rest[k], prefix) && spec_is_down(
                rest[k],
            ))) by {
            assert(forall|k: int| 0 <= k < i - 1 ==> #[trigger] rest[k] == records[k + 1]);
        }
        assert(rest[i - 1] == records[i]);
        lemma_first_down_hit(rest, prefix, i - 1);
    }
}

pub proof fn lemma_first_down_none(records: Seq<RecordView>, prefix: Seq<char>)
    requires
        forall|k: int|
            0 <= k < records.len() ==> !(spec_matches_prefix(#[trigger] records[k], prefix)
                && spec_is_down(records[k])),
    ensures
        spec_first_down(records, prefix) is None,
    decreases records.len(),
{
    if records.len() > 0 {
        let rest = records.drop_first();
        assert(forall|k: int|
            0 <= k < rest.len() ==> !(spec_matches_prefix(#[trigger] rest[k], prefix)
                && spec_is_down(rest[k]))) by {
            assert(forall|k: int| 0 <= k < rest.len() ==> #[trigger] rest[k] == records[k + 1]);
        }
        lemma_first_down_none(rest, prefix);
    }
}

pub proof fn lemma_first_down_bounds(records: Seq<RecordView>, prefix: Seq<char>)
    ensures
        match spec_first_down(records, prefix) {
            Some(i) => 0 <= i < records.len() && spec_matches_prefix(records[i], prefix)
                && spec_is_down(records[i]),
            None => true,
        },
    decreases records.len(),
{
    if records.len() > 0 {
        lemma_first_down_bounds(records.drop_first(), prefix);
    }
}

/// The slot numbers of the live (not vacated) records matching `prefix`,
/// in record order; names without a trailing number contribute nothing.
pub open spec fn spec_slot_numbers(records: Seq<RecordView>, prefix: Seq<char>) -> Seq<u32>
    decreases records.len(),
{
    if records.len() == 0 {
        Seq::empty()
    } else {
        let rest = spec_slot_numbers(records.drop_last(), prefix);
        if spec_matches_prefix(records.last(), prefix) && !spec_is_down(records.last()) {
            match spec_extract_number(records.last().name) {
                Some(n) => rest.push(n),
                None => rest,
            }
        } else {
            rest
        }
    }
}

/// The largest of a list of slot numbers, if any.
pub open spec fn spec_max_slot_num(s: Seq<u32>) -> Option<u32>
    decreases s.len(),
{
    if s.len() == 0 {
        None
    } else {
        match spec_max_slot_num(s.drop_last()) {
            None => Some(s.last()),
            Some(m) => Some(if s.last() > m {
                s.last()
            } else {
                m
            }),
        }
    }
}

/// The number of the next slot to create: one past the largest live slot
/// number, or 1 when no record carries one.
pub open spec fn spec_next_slot(records: Seq<RecordView>, prefix: Seq<char>) -> u32 {
    match spec_max_slot_num(spec_slot_numbers(records, prefix)) {
        None => 1,
        Some(m) => (m + 1) as u32,
    }
}

/// The name of slot `n`: `<prefix>-<n>`.
pub open spec fn spec_slot_name(prefix: Seq<char>, n: u32) -> Seq<char> {
    prefix + seq!['-'] + spec_dec(n as nat)
}

pub fn make_slot_name(prefix: &str, n: u32) -> (r: String)
    ensures
        r@ == spec_slot_name(prefix@, n),
{
    let mut s = prefix.to_owned();
    proof {
        reveal_strlit("-");
    }
    s.append("-");
    push_decimal(&mut s, n);
    assert(s@ =~= spec_slot_name(prefix@, n));
    s
}

/// The slot-name prefix of a tag/region group: `<tag>-<region code>`.
pub open spec fn spec_prefix(tag: Seq<char>, region_code: Seq<char>) -> Seq<char> {
    tag + seq!['-'] + region_code
}

pub fn make_prefix(tag: &str, region_code: &str) -> (r: String)
    ensures
        r@ == spec_prefix(tag@, region_code@),
{
    let mut s = tag.to_owned();
    proof {
        reveal_strlit("-");
    }
    s.append("-");
    let r = s.concat(region_code);
    assert(r@ =~= spec_prefix(tag@, region_code@));
    r
}

/// What one reconciliation run decides: claim a vacated record by id, or
/// create a new record under the next sequential slot name.
pub enum ReconcileOutcome {
    Claim { record_id: u64 },
    Create { name: String, target: String },
}

pub enum ReconcileView {
    Claim { record_id: u64 },
    Create { name: Seq<char>, target: Seq<char> },
}

impl View for ReconcileOutcome {
    type V = ReconcileView;

    open spec fn view(&self) -> ReconcileView {
        match self {
            ReconcileOutcome::Claim { record_id } => ReconcileView::Claim { record_id: *record_id },
            ReconcileOutcome::Create { name, target } => ReconcileView::Create {
                name: name@,
                target: target@,
            },
        }
    }
}

/// What reconciliation decides on a record set: claim the first vacated
/// record matching the prefix, else create `<prefix>-<n>` for the next `n`.
pub open spec fn spec_reconcile(
    records: Seq<RecordView>,
    prefix: Seq<char>,
    target: Seq<char>,
) -> ReconcileView {
    match spec_first_down(records, prefix) {
        Some(i) => ReconcileView::Claim { record_id: records[i].id },
        None => ReconcileView::Create {
            name: spec_slot_name(prefix, spec_next_slot(records, prefix)),
            target,
        },
    }
}

/// Whether `s` starts with `p`.
pub fn starts_with_chars(s: &Vec<char>, p: &Vec<char>) -> (r: bool)
    ensures
        r == p@.is_prefix_of(s@),
{
    if p.len() > s.len() {
        return false;
    }
    let mut i: usize = 0;
    while i < p.len()
        invariant
            0 <= i <= p@.len() <= s@.len(),
            forall|k: int| 0 <= k < i ==> p@[k] == s@[k],
        decreases p@.len() - i,
    {
        if p[i] != s[i] {
            assert(p@[i as int] != s@.subrange(0, p@.len() as int)[i as int]);
            return false;
        }
        i += 1;
    }
    assert(p@ =~= s@.subrange(0, p@.len() as int));
    true
}

/// Whether a record takes part in reconciliation for `prefix`.
fn matches_prefix(rec: &DomainRecord, prefix_chars: &Vec<char>) -> (r: bool)
    ensures
        r == spec_matches_prefix(rec@, prefix_chars@),
{
    if !str_eq(rec.record_type.as_str(), "A") {
        return false;
    }
    let name_chars = chars_vec(rec.name.as_str());
    starts_with_chars(&name_chars, prefix_chars)
}

/// One reconciliation run over the zone's records: claims the first vacated
/// `A` record whose name starts with `prefix`, and otherwise names the next
/// sequential slot, pointed at `new_target`.
pub fn reconcile(records: &Vec<DomainRecord>, prefix: &str, new_target: &str) -> (r:
    ReconcileOutcome)
    ensures
        r@ == spec_reconcile(records.deep_view(), prefix@, new_target@),
{
    let ghost rv = records.deep_view();
    let prefix_chars = chars_vec(prefix);
    let mut cur: Option<u32> = None;
    let mut i: usize = 0;
    while i < records.len()
        invariant
            0 <= i <= records@.len(),
            rv == records.deep_view(),
            rv.len() == records@.len(),
            prefix_chars@ == prefix@,
            forall|k: int|
                0 <= k < i ==> !(spec_matches_prefix(#[trigger] rv[k], prefix@) && spec_is_down(
                    rv[k],
                )),
            cur == spec_max_slot_num(spec_slot_numbers(rv.subrange(0, i as int), prefix@)),
            match cur {
                Some(m) => m <= MAX_SLOT,
                None => true,
            },
        decreases records@.len() - i,
    {
        let rec = &records[i];
        proof {
            assert(rv.subrange(0, i as int + 1).drop_last() =~= rv.subrange(0, i as int));
            assert(rv.subrange(0, i as int + 1).last() == rv[i as int]);
            assert(rv[i as int] == records@[i as int]@);
        }
        if matches_prefix(rec, &prefix_chars) {
            if str_eq(rec.target.as_str(), "127.0.0.1") {
                proof {
                    lemma_first_down_hit(rv, prefix@, i as int);
                }
                return ReconcileOutcome::Claim { record_id: rec.id };
            }
            match extract_number(rec.name.as_str()) {
                Some(n) => {
                    let ghost nums = spec_slot_numbers(rv.subrange(0, i as int), prefix@);
                    proof {
                        lemma_extract_number_bound(rec.name@);
                        assert(spec_slot_numbers(rv.subrange(0, i as int + 1), prefix@)
                            == nums.push(n));
                        assert(nums.push(n).drop_last() =~= nums);
                    }
                    cur = match cur {
                        None => Some(n),
                        Some(m) => Some(if n > m {
                            n
                        } else {
                            m
                        }),
                    };
                },
                None => {},
            }
        }
        i += 1;
    }
    proof {
        lemma_first_down_none(rv, prefix@);
        assert(rv.subrange(0, records@.len() as int) =~= rv);
    }
    let n: u32 = match cur {
        Some(m) => m + 1,
        None => 1,
    };
    let name = make_slot_name(prefix, n);
    ReconcileOutcome::Create { name, target: new_target.to_owned() }
}

/// Index of the record a target address resolves to: the last `A` record
/// whose target equals it, mirroring a lookup table filled in record order.
/// Records of other kinds do not take part.
pub open spec fn spec_match_target(records: Seq<RecordView>, target: Seq<char>) -> Option<int>
    decreases records.len(),
{
    if records.len() == 0 {
        None
    } else if spec_is_a_record(records.last()) && records.last().target == target {
        Some(records.len() - 1)
    } else {
        spec_match_target(records.drop_last(), target)
    }
}

pub proof fn lemma_match_target_bounds(records: Seq<RecordView>, target: Seq<char>)
    ensures
        match spec_match_target(records, target) {
            Some(i) => 0 <= i < records.len() && spec_is_a_record(records[i]) && records[i].target
                == target && forall|k: int|
                i < k < records.len() ==> !(spec_is_a_record(#[trigger] records[k])
                    && records[k].target == target),
            None => forall|k: int|
                0 <= k < records.len() ==> !(spec_is_a_record(#[trigger] records[k])
                    && records[k].target == target),
        },
    decreases records.len(),
{
    if records.len() > 0 {
        let rest = records.drop_last();
        lemma_match_target_bounds(rest, target);
        if !(spec_is_a_record(records.last()) && records.last().target == target) {
            match spec_match_target(rest, target) {
                Some(i) => {
                    assert forall|k: int|
                        i < k < records.len() implies !(spec_is_a_record(#[trigger] records[k])
                        && records[k].target == target) by {
                        if k < records.len() - 1 {
                            assert(records[k] == rest[k]);
                        }
                    }
                },
                None => {
                    assert forall|k: int|
                        0 <= k < records.len() implies !(spec_is_a_record(#[trigger] records[k])
                        && records[k].target == target) by {
                        if k < records.len() - 1 {
                            assert(records[k] == rest[k]);
                        }
                    }
                },
            }
        }
    }
}

/// The request body that creates slot record `name` pointing at `target`:
/// an `A` record with a one-hour TTL.
pub fn a_record_options(name: String, target: String) -> (o: DomainRecordOptions)
    ensures
        o.record_type@ == "A"@,
        o.name == name,
        o.target == target,
        o.ttl_sec == 3600,
{
    DomainRecordOptions { record_type: "A".to_owned(), name, target, ttl_sec: 3600 }
}

/// The request body that repoints an existing record at `target`.
pub fn record_update_options(target: String) -> (o: DomainRecordUpdateOptions)
    ensures
        o.target == target,
{
    DomainRecordUpdateOptions { target }
}

/// Whether some `A` record's target equals `t`.
pub open spec fn spec_has_target(records: Seq<RecordView>, t: Seq<char>) -> bool {
    exists|k: int|
        0 <= k < records.len() && spec_is_a_record(#[trigger] records[k]) && records[k].target == t
}

pub proof fn lemma_match_target_unique(records: Seq<RecordView>, t: Seq<char>, i: int)
    requires
        0 <= i < records.len(),
        spec_is_a_record(records[i]),
        records[i].target == t,
        forall|k: int|
            0 <= k < records.len() && k != i ==> !(spec_is_a_record(#[trigger] records[k])
                && records[k].target == t),
    ensures
        spec_match_target(records, t) == Some(i),
    decreases records.len(),
{
    if i < records.len() - 1 {
        let rest = records.drop_last();
        assert(!(spec_is_a_record(records.last()) && records.last().target == t)) by {
            assert(!(spec_is_a_record(records[records.len() - 1]) && records[records.len()
                - 1].target == t));
        }
        assert(rest[i] == records[i]);
        assert(forall|k: int|
            0 <= k < rest.len() && k != i ==> !(spec_is_a_record(#[trigger] rest[k])
                && rest[k].target == t)) by {
            assert(forall|k: int| 0 <= k < rest.len() ==> #[trigger] rest[k] == records[k]);
        }
        lemma_match_target_unique(rest, t, i);
    }
}

/// The record list with the record at `i` repointed at `target`.
pub open spec fn spec_set_target(records: Seq<RecordView>, i: int, target: Seq<char>) -> Seq<
    RecordView,
> {
    records.update(
        i,
        RecordView {
            id: records[i].id,
            record_type: records[i].record_type,
            name: records[i].name,
            target,
            ttl_sec: records[i].ttl_sec,
        },
    )
}

/// Looks a target address up among the zone's `A` records, as a lookup
/// table filled in record order would resolve it: the last `A` record with
/// that target wins, and records of other kinds do not take part.
pub fn find_record_by_target(records: &Vec<DomainRecord>, target: &str) -> (r: Option<u64>)
    ensures
        r == match spec_match_target(records.deep_view(), target@) {
            Some(i) => Some(records.deep_view()[i].id),
            None => None::<u64>,
        },
{
    let ghost rv = records.deep_view();
    proof {
        assert(rv.subrange(0, records@.len() as int) =~= rv);
    }
    let mut j: usize = records.len();
    while j > 0
        invariant
            0 <= j <= records@.len(),
            rv == records.deep_view(),
            rv.len() == records@.len(),
            spec_match_target(rv, target@) == spec_match_target(
                rv.subrange(0, j as int),
                target@,
            ),
        decreases j,
    {
        j -= 1;
        proof {
            assert(rv.subrange(0, j as int + 1).drop_last() =~= rv.subrange(0, j as int));
            assert(rv.subrange(0, j as int + 1).last() == rv[j as int]);
            assert(rv[j as int] == records@[j as int]@);
        }
        if str_eq(records[j].record_type.as_str(), "A") && str_eq(
            records[j].target.as_str(),
            target,
        ) {
            return Some(records[j].id);
        }
    }
    assert(rv.subrange(0, 0) =~= Seq::<RecordView>::empty());
    None
}

} // verus!
