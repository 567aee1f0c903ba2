//! Provisioning inputs: the generated instance label, the generated root
//! credential, and the request body that creates an instance.

use crate::types::LinodeInstanceCreateOptions;
use rand::Rng;
use vstd::prelude::*;
use vstd::string::StringExecFns;

verus! {

/// An ASCII letter or digit.
pub open spec fn is_alnum_char(c: char) -> bool {
    (48 <= c as u32 && c as u32 <= 57) || (65 <= c as u32 && c as u32 <= 90) || (97 <= c as u32
        && c as u32 <= 122)
}

/// Relies on rand's `Alphanumeric` distribution: every sample is drawn from
/// the ASCII letters and digits. Nothing else holds of a random value.
#[verifier::external_body]
pub(crate) fn random_password() -> (r: String)
    ensures
        r@.len() == 30,
        forall|i: int| 0 <= i < r@.len() ==> is_alnum_char(#[trigger] r@[i]),
{
    rand::thread_rng().sample_iter(&rand::distributions::Alphanumeric).take(30).map(
        char::from,
    ).collect()
}

/// Relies on svix_ksuid's `Ksuid::now` and its base62 display form, which
/// pads to exactly 27 characters (20 bytes need at most 27 base62 digits).
/// The value depends on the clock and on randomness, so nothing holds of it
/// beyond its length.
#[verifier::external_body]
pub(crate) fn fresh_ksuid() -> (r: String)
    ensures
        r@.len() == 27,
{
    <svix_ksuid::Ksuid as svix_ksuid::KsuidLike>::now(None).to_string()
}

/// A label for a new instance: the region code, a `-`, and a fresh
/// monotonically sortable unique identifier.
pub fn make_instance_label(region_code: &str) -> (r: String)
    ensures
        r@.len() == region_code@.len() + 28,
        r@.subrange(0, region_code@.len() as int) == region_code@,
        r@[region_code@.len() as int] == '-',
{
    let mut s = region_code.to_owned();
    proof {
        reveal_strlit("-");
    }
    s.append("-");
    let k = fresh_ksuid();
    let r = s.concat(k.as_str());
    assert(r@.subrange(0, region_code@.len() as int) =~= region_code@);
    r
}

/// What the request that provisions a new instance must hold: the caller's
/// image and type, the group's two tags in order, a label opening with the
/// region code, a 30-character alphanumeric generated credential, and the
/// operator's public key as the one authorized key.
pub open spec fn spec_valid_create_options(
    o: LinodeInstanceCreateOptions,
    image: Seq<char>,
    tag: Seq<char>,
    region_code: Seq<char>,
    region_name: Seq<char>,
    instance_type: Seq<char>,
    pub_key: Seq<char>,
) -> bool {
    &&& o.image@ == image
    &&& o.tags.deep_view() == seq![tag, region_code]
    &&& o.label@.len() == region_code.len() + 28
    &&& o.label@.subrange(0, region_code.len() as int) == region_code
    &&& o.region@ == region_name
    &&& o.instance_type@ == instance_type
    &&& o.root_pass@.len() == 30
    &&& forall|i: int| 0 <= i < o.root_pass@.len() ==> is_alnum_char(#[trigger] o.root_pass@[i])
    &&& o.authorized_keys.deep_view() == seq![pub_key]
}

/// Builds the request that provisions one new instance of the group.
pub fn instance_create_options(
    image: &str,
    tag: &str,
    region_code: &str,
    region_name: &str,
    instance_type: &str,
    pub_key: &str,
) -> (o: LinodeInstanceCreateOptions)
    ensures
        spec_valid_create_options(
            o,
            image@,
            tag@,
            region_code@,
            region_name@,
            instance_type@,
            pub_key@,
        ),
{
    let mut tags: Vec<String> = Vec::new();
    tags.push(tag.to_owned());
    tags.push(region_code.to_owned());
    assert(tags.deep_view() =~= seq![tag@, region_code@]);
    let mut authorized_keys: Vec<String> = Vec::new();
    authorized_keys.push(pub_key.to_owned());
    assert(authorized_keys.deep_view() =~= seq![pub_key@]);
    LinodeInstanceCreateOptions {
        image: image.to_owned(),
        tags,
        label: make_instance_label(region_code),
        region: region_name.to_owned(),
        instance_type: instance_type.to_owned(),
        root_pass: random_password(),
        authorized_keys,
    }
}

} // verus!
