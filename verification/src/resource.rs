//! Resource attributes that every signal provider carries.
//!
//! The attributes are collected by the OpenTelemetry SDK, which starts from what it finds in the
//! environment and about itself, and handed out as plain pairs.

use crate::otlp;
use opentelemetry::KeyValue;
use opentelemetry_sdk::resource::ResourceBuilder;
use opentelemetry_sdk::Resource;
use vstd::prelude::*;

verus! {

/// `opentelemetry_sdk::resource::ResourceBuilder`: seen through [`collected`] only.
#[verifier::external_type_specification]
#[verifier::external_body]
pub struct ExResourceBuilder(ResourceBuilder);

/// The attributes that `builder` has collected: the value of each key, in its string form.
pub uninterp spec fn collected(builder: ResourceBuilder) -> Map<Seq<char>, Seq<char>>;

/// `Resource::builder`. What it has collected comes from the environment; nothing is claimed of
/// it.
#[verifier::external_body]
fn detected_resource() -> ResourceBuilder {
    Resource::builder()
}

/// What `detector` hands over.
fn detect<D: FnOnce() -> ResourceBuilder>(detector: D) -> (builder: ResourceBuilder)
    requires
        call_requires(detector, ()),
    ensures
        call_ensures(detector, (), builder),
{
    detector()
}

/// `found` is what one run of the SDK's detection collects.
pub closed spec fn is_detected(found: Map<Seq<char>, Seq<char>>) -> bool {
    exists|builder: ResourceBuilder| #[trigger]
        call_ensures(detected_resource, (), builder) && collected(builder) == found
}

/// `Resource::builder_empty`: nothing has been collected.
#[verifier::external_body]
fn empty_resource() -> (result: ResourceBuilder)
    ensures
        collected(result) == otlp::pair_map(Seq::empty()),
{
    Resource::builder_empty()
}

/// `ResourceBuilder::with_service_name`: sets the attribute `service.name`.
#[verifier::external_body]
fn with_service_name(builder: ResourceBuilder, name: &str) -> (result: ResourceBuilder)
    ensures
        collected(result) == collected(builder).insert("service.name"@, name@),
{
    builder.with_service_name(name.to_owned())
}

/// `ResourceBuilder::with_attribute`, of a string value: sets the attribute `key`, replacing an
/// earlier value.
#[verifier::external_body]
fn with_attribute(builder: ResourceBuilder, key: &str, value: &str) -> (result: ResourceBuilder)
    ensures
        collected(result) == collected(builder).insert(key@, value@),
{
    builder.with_attribute(KeyValue::new(key.to_owned(), value.to_owned()))
}

/// `ResourceBuilder::build` and `Resource::iter`: hands out each attribute once, in no particular
/// order.
#[verifier::external_body]
fn attribute_pairs(builder: ResourceBuilder) -> (pairs: Vec<(String, String)>)
    ensures
        otlp::distinct_keys(pairs@),
        otlp::pair_map(pairs@) == collected(builder),
{
    let resource = builder.build();
    resource.iter().map(|(key, value)| (key.to_string(), value.to_string())).collect()
}

/// What the configuration sets: the service name, and then the configured attributes, of which a
/// later one replaces an earlier one.
pub open spec fn configured(service_name: Seq<char>, attributes: Seq<(String, String)>) -> Map<
    Seq<char>,
    Seq<char>,
> {
    Map::empty().insert("service.name"@, service_name).union_prefer_right(
        otlp::pair_map(attributes),
    )
}

/// `builder` with the service name and the configured attributes on top of what it has.
fn with_configured(
    builder: ResourceBuilder,
    service_name: &str,
    attributes: &Vec<(String, String)>,
) -> (result: ResourceBuilder)
    ensures
        collected(result) == collected(builder).union_prefer_right(
            configured(service_name@, attributes@),
        ),
{
    let ghost detected = collected(builder);
    let mut result = with_service_name(builder, service_name);
    let mut i: usize = 0;
    assert(attributes@.take(0) =~= Seq::empty());
    assert(collected(result) =~= detected.union_prefer_right(
        configured(service_name@, attributes@.take(0)),
    ));
    while i < attributes.len()
        invariant
            i <= attributes@.len(),
            collected(result) == detected.union_prefer_right(
                configured(service_name@, attributes@.take(i as int)),
            ),
        decreases attributes@.len() - i,
    {
        let ghost so_far = attributes@.take(i as int);
        let ghost next = attributes@.take(i + 1);
        result = with_attribute(result, attributes[i].0.as_str(), attributes[i].1.as_str());
        proof {
            assert(next.drop_last() =~= so_far);
            assert(collected(result) =~= detected.union_prefer_right(
                configured(service_name@, next),
            ));
        }
        i += 1;
    }
    assert(attributes@.take(attributes@.len() as int) =~= attributes@);
    result
}

/// The attributes of a service on top of those that were `detected`, which give way: exactly these,
/// and every attribute is listed once.
pub fn attributes_on(
    detected: &Vec<(String, String)>,
    service_name: &str,
    attributes: &Vec<(String, String)>,
) -> (pairs: Vec<(String, String)>)
    ensures
        otlp::distinct_keys(pairs@),
        otlp::pair_map(pairs@) == otlp::pair_map(detected@).union_prefer_right(
            configured(service_name@, attributes@),
        ),
{
    let mut builder = empty_resource();
    let mut i: usize = 0;
    assert(detected@.take(0) =~= Seq::empty());
    while i < detected.len()
        invariant
            i <= detected@.len(),
            collected(builder) == otlp::pair_map(detected@.take(i as int)),
        decreases detected@.len() - i,
    {
        builder = with_attribute(builder, detected[i].0.as_str(), detected[i].1.as_str());
        assert(detected@.take(i + 1).drop_last() =~= detected@.take(i as int));
        i += 1;
    }
    assert(detected@.take(detected@.len() as int) =~= detected@);
    attribute_pairs(with_configured(builder, service_name, attributes))
}

/// The attributes of a service: what the SDK detects, with `service.name` and the configured
/// attributes on top. Every attribute is listed once.
///
/// What is detected comes from the environment; [`attributes_on`] says what is made of it.
pub fn resource_attributes(service_name: &str, attributes: &Vec<(String, String)>) -> (pairs: Vec<
    (String, String),
>)
    ensures
        otlp::distinct_keys(pairs@),
        configured(service_name@, attributes@).submap_of(otlp::pair_map(pairs@)),
        exists|found: Map<Seq<char>, Seq<char>>| #[trigger]
            is_detected(found) && otlp::pair_map(pairs@) == found.union_prefer_right(
                configured(service_name@, attributes@),
            ),
{
    let builder = detect(detected_resource);
    let ghost found = collected(builder);
    let detected = attribute_pairs(builder);
    assert(is_detected(found));
    attributes_on(&detected, service_name, attributes)
}

/// `service.name` is the service's name where no configured attribute has that key, and every
/// configured key has the value configured last.
pub proof fn law_configured_attributes_win(
    detected: Map<Seq<char>, Seq<char>>,
    service_name: Seq<char>,
    attributes: Seq<(String, String)>,
    key: Seq<char>,
)
    ensures
        ({
            let all = detected.union_prefer_right(configured(service_name, attributes));
            &&& !otlp::pair_map(attributes).dom().contains("service.name"@)
                ==> all.dom().contains("service.name"@) && all["service.name"@] == service_name
            &&& otlp::pair_map(attributes).dom().contains(key) ==> all.dom().contains(key)
                && all[key] == otlp::pair_map(attributes)[key]
        }),
{
}

/// Whatever the SDK detects each time, two signals of one service agree on every attribute that
/// the configuration sets.
pub proof fn law_signals_share_configured_attributes(
    service_name: Seq<char>,
    attributes: Seq<(String, String)>,
    one: Seq<(String, String)>,
    other: Seq<(String, String)>,
    key: Seq<char>,
)
    requires
        configured(service_name, attributes).submap_of(otlp::pair_map(one)),
        configured(service_name, attributes).submap_of(otlp::pair_map(other)),
        configured(service_name, attributes).dom().contains(key),
    ensures
        otlp::pair_map(one).dom().contains(key),
        otlp::pair_map(one)[key] == otlp::pair_map(other)[key],
        otlp::pair_map(one)[key] == configured(service_name, attributes)[key],
{
    assert(otlp::pair_map(one).dom().contains(key));
    assert(otlp::pair_map(other).dom().contains(key));
}

/// Where the same attributes are detected for two signals of one service, in whatever order, all
/// their attributes are identical.
pub proof fn law_signals_have_identical_attributes(
    detected: Seq<(String, String)>,
    detected_again: Seq<(String, String)>,
    service_name: Seq<char>,
    attributes: Seq<(String, String)>,
    one: Seq<(String, String)>,
    other: Seq<(String, String)>,
)
    requires
        otlp::pair_map(detected) == otlp::pair_map(detected_again),
        otlp::pair_map(one) == otlp::pair_map(detected).union_prefer_right(
            configured(service_name, attributes),
        ),
        otlp::pair_map(other) == otlp::pair_map(detected_again).union_prefer_right(
            configured(service_name, attributes),
        ),
    ensures
        otlp::pair_map(one) == otlp::pair_map(other),
{
}

/// What counts as detected is what the SDK's own detection hands over, and nothing else.
proof fn law_detection_is_the_sdks(found: Map<Seq<char>, Seq<char>>)
    ensures
        is_detected(found) <==> exists|builder: ResourceBuilder| #[trigger]
            call_ensures(detected_resource, (), builder) && collected(builder) == found,
{
}

/// Nothing is invented and nothing is lost: an attribute that is neither `service.name` nor
/// configured is there exactly where it was detected, with the detected value.
pub proof fn law_other_attributes_are_the_detected_ones(
    found: Map<Seq<char>, Seq<char>>,
    service_name: Seq<char>,
    attributes: Seq<(String, String)>,
    pairs: Seq<(String, String)>,
    key: Seq<char>,
)
    requires
        otlp::pair_map(pairs) == found.union_prefer_right(configured(service_name, attributes)),
        key != "service.name"@,
        forall|i: int| 0 <= i < attributes.len() ==> (#[trigger] attributes[i]).0@ != key,
    ensures
        found.dom().contains(key) <==> exists|j: int|
            0 <= j < pairs.len() && (#[trigger] pairs[j]).0@ == key,
        forall|j: int| #[trigger]
            otlp::last_of(pairs, key, j) ==> found.dom().contains(key) && pairs[j].1@ == found[key],
{
    otlp::law_last_value_of_a_key_counts(pairs, key);
    otlp::law_last_value_of_a_key_counts(attributes, key);
}

/// What was configured is there: every configured attribute with the value configured last, and
/// the service's name, unless an attribute of that key was configured.
pub proof fn law_configured_attributes_are_listed(
    found: Map<Seq<char>, Seq<char>>,
    service_name: Seq<char>,
    attributes: Seq<(String, String)>,
    pairs: Seq<(String, String)>,
)
    requires
        otlp::distinct_keys(pairs),
        otlp::pair_map(pairs) == found.union_prefer_right(configured(service_name, attributes)),
    ensures
        forall|key: Seq<char>, i: int| #[trigger]
            otlp::last_of(attributes, key, i) ==> exists|j: int|
                0 <= j < pairs.len() && (#[trigger] pairs[j]).0@ == key && pairs[j].1@
                    == attributes[i].1@,
        (forall|i: int|
            0 <= i < attributes.len() ==> (#[trigger] attributes[i]).0@ != "service.name"@)
            ==> exists|j: int|
            0 <= j < pairs.len() && (#[trigger] pairs[j]).0@ == "service.name"@ && pairs[j].1@
                == service_name,
        forall|i: int, j: int|
            0 <= i < j < pairs.len() ==> (#[trigger] pairs[i]).0@ != (#[trigger] pairs[j]).0@,
{
    assert forall|key: Seq<char>, i: int| #[trigger]
        otlp::last_of(attributes, key, i) implies exists|j: int|
        0 <= j < pairs.len() && (#[trigger] pairs[j]).0@ == key && pairs[j].1@
            == attributes[i].1@ by {
        otlp::law_last_value_of_a_key_counts(attributes, key);
        otlp::law_last_value_of_a_key_counts(pairs, key);
        let j = choose|j: int| #[trigger] otlp::last_of(pairs, key, j);
        assert(pairs[j].0@ == key);
    }
    if forall|i: int|
        0 <= i < attributes.len() ==> (#[trigger] attributes[i]).0@ != "service.name"@ {
        otlp::law_last_value_of_a_key_counts(attributes, "service.name"@);
        otlp::law_last_value_of_a_key_counts(pairs, "service.name"@);
        let j = choose|j: int| #[trigger] otlp::last_of(pairs, "service.name"@, j);
        assert(pairs[j].0@ == "service.name"@);
    }
}

} // verus!
