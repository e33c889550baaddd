//! OTLP export target shared by the span, metric and log exporters.
//!
//! One [`OtlpConfig`] plans three sibling exporters off the same endpoint, timeout and headers,
//! and gives every signal the same resource attributes. No backend type appears in a public
//! signature: a plan is plain data for the code that builds the exporter.

use crate::resource;
use std::time::Duration;
use vstd::prelude::*;

verus! {

/// `Duration`'s `Clone`: the clone is the same duration.
pub assume_specification[ <Duration as Clone>::clone ](duration: &Duration) -> (copy: Duration)
    ensures
        copy == *duration,
;

/// Endpoint, transport, headers, resource attributes and timeout for the OTLP collector.
#[derive(Clone, Debug)]
pub struct OtlpConfig {
    pub endpoint: String,
    pub protocol: OtlpProtocol,
    pub headers: Vec<(String, String)>,
    pub resource: Vec<(String, String)>,
    pub timeout: Duration,
}

/// Wire transport of the OTLP exporters.
#[derive(Clone, Copy, Debug, PartialEq, Eq, Structural)]
pub enum OtlpProtocol {
    Grpc,
    HttpProtobuf,
}

/// What an exporter sends.
#[derive(Clone, Copy, Debug, PartialEq, Eq, Structural)]
pub enum Signal {
    Spans,
    Metrics(Temporality),
    Logs,
}

/// How a metric exporter reports sums.
#[derive(Clone, Copy, Debug, PartialEq, Eq, Structural)]
pub enum Temporality {
    /// Since the start.
    Cumulative,
}

/// Transport of a planned exporter. Headers are wired on the HTTP transport only.
#[derive(Clone, Debug)]
pub enum Transport {
    Grpc,
    HttpProtobuf { headers: Vec<(String, String)> },
}

/// An exporter to build: what it sends, and where and how.
#[derive(Clone, Debug)]
pub struct ExporterPlan {
    pub signal: Signal,
    pub endpoint: String,
    pub timeout: Duration,
    pub transport: Transport,
}

/// `pairs` as a map: of two pairs with the same key, the later one counts.
pub open spec fn pair_map(pairs: Seq<(String, String)>) -> Map<Seq<char>, Seq<char>>
    decreases pairs.len(),
{
    if pairs.len() == 0 {
        Map::empty()
    } else {
        pair_map(pairs.drop_last()).insert(pairs.last().0@, pairs.last().1@)
    }
}

/// No key occurs twice in `pairs`.
pub open spec fn distinct_keys(pairs: Seq<(String, String)>) -> bool {
    forall|i: int, j: int|
        0 <= i < j < pairs.len() ==> #[trigger] pairs[i].0@ != #[trigger] pairs[j].0@
}

/// `plan` is the exporter of `signal` that `config` asks for.
pub open spec fn plans(config: OtlpConfig, signal: Signal, plan: ExporterPlan) -> bool {
    &&& plan.signal == signal
    &&& plan.endpoint@ == config.endpoint@
    &&& plan.timeout == config.timeout
    &&& match config.protocol {
        OtlpProtocol::Grpc => plan.transport is Grpc,
        OtlpProtocol::HttpProtobuf => {
            &&& plan.transport is HttpProtobuf
            &&& distinct_keys(plan.transport->headers@)
            &&& pair_map(plan.transport->headers@) == pair_map(config.headers@)
        },
    }
}

/// Overwriting the value of a key that occurs once is an insert into the map.
proof fn lemma_pair_map_update(pairs: Seq<(String, String)>, at: int, pair: (String, String))
    requires
        distinct_keys(pairs),
        0 <= at < pairs.len(),
        pairs[at].0@ == pair.0@,
    ensures
        pair_map(pairs.update(at, pair)) == pair_map(pairs).insert(pair.0@, pair.1@),
    decreases pairs.len(),
{
    let updated = pairs.update(at, pair);
    let last = pairs.last();
    if at == pairs.len() - 1 {
        assert(updated.drop_last() =~= pairs.drop_last());
        assert(pair_map(updated) =~= pair_map(pairs).insert(pair.0@, pair.1@));
    } else {
        lemma_pair_map_update(pairs.drop_last(), at, pair);
        assert(updated.drop_last() =~= pairs.drop_last().update(at, pair));
        assert(last.0@ != pair.0@) by {
            assert(pairs[at].0@ != pairs[pairs.len() - 1].0@);
        }
        assert(pair_map(updated) =~= pair_map(pairs).insert(pair.0@, pair.1@));
    }
}

/// Set `key` to `value` in a list of pairs without repeated keys.
fn set_pair(pairs: &mut Vec<(String, String)>, key: &String, value: &String)
    requires
        distinct_keys(old(pairs)@),
    ensures
        distinct_keys(final(pairs)@),
        pair_map(final(pairs)@) == pair_map(old(pairs)@).insert(key@, value@),
{
    let mut i: usize = 0;
    while i < pairs.len()
        invariant
            i <= pairs@.len(),
            pairs@ == old(pairs)@,
            distinct_keys(pairs@),
            forall|k: int| 0 <= k < i ==> (#[trigger] pairs@[k]).0@ != key@,
        decreases pairs@.len() - i,
    {
        if pairs[i].0 == *key {
            proof {
                lemma_pair_map_update(pairs@, i as int, (*key, *value));
            }
            pairs.set(i, (key.clone(), value.clone()));
            return ;
        }
        i += 1;
    }
    pairs.push((key.clone(), value.clone()));
    assert(pairs@.drop_last() =~= old(pairs)@);
}

impl OtlpConfig {
    /// Headers for the HTTP transport: one value per name, the last one configured.
    pub fn http_headers(&self) -> (headers: Vec<(String, String)>)
        ensures
            distinct_keys(headers@),
            pair_map(headers@) == pair_map(self.headers@),
    {
        let mut headers: Vec<(String, String)> = Vec::new();
        let mut i: usize = 0;
        assert(self.headers@.take(0) =~= Seq::empty());
        while i < self.headers.len()
            invariant
                i <= self.headers@.len(),
                distinct_keys(headers@),
                pair_map(headers@) == pair_map(self.headers@.take(i as int)),
            decreases self.headers@.len() - i,
        {
            set_pair(&mut headers, &self.headers[i].0, &self.headers[i].1);
            assert(self.headers@.take(i + 1).drop_last() =~= self.headers@.take(i as int));
            i += 1;
        }
        assert(self.headers@.take(self.headers@.len() as int) =~= self.headers@);
        headers
    }

    /// Plan the exporter of `signal`: endpoint and timeout on both transports, headers on HTTP.
    fn exporter(&self, signal: Signal) -> (plan: ExporterPlan)
        ensures
            plans(*self, signal, plan),
    {
        let transport = match self.protocol {
            OtlpProtocol::Grpc => Transport::Grpc,
            OtlpProtocol::HttpProtobuf => Transport::HttpProtobuf { headers: self.http_headers() },
        };
        ExporterPlan { signal, endpoint: self.endpoint.clone(), timeout: self.timeout, transport }
    }

    /// Plan the span exporter.
    pub fn span_exporter(&self) -> (plan: ExporterPlan)
        ensures
            plans(*self, Signal::Spans, plan),
            plan.signal is Spans,
            plan.endpoint@ == self.endpoint@,
            plan.timeout == self.timeout,
            plan.transport is Grpc <==> self.protocol is Grpc,
    {
        self.exporter(Signal::Spans)
    }

    /// Plan the metric exporter. Cumulative temporality.
    pub fn metric_exporter(&self) -> (plan: ExporterPlan)
        ensures
            plans(*self, Signal::Metrics(Temporality::Cumulative), plan),
            plan.signal == Signal::Metrics(Temporality::Cumulative),
            plan.endpoint@ == self.endpoint@,
            plan.timeout == self.timeout,
            plan.transport is Grpc <==> self.protocol is Grpc,
    {
        self.exporter(Signal::Metrics(Temporality::Cumulative))
    }

    /// Plan the log exporter.
    pub fn log_exporter(&self) -> (plan: ExporterPlan)
        ensures
            plans(*self, Signal::Logs, plan),
            plan.signal is Logs,
            plan.endpoint@ == self.endpoint@,
            plan.timeout == self.timeout,
            plan.transport is Grpc <==> self.protocol is Grpc,
    {
        self.exporter(Signal::Logs)
    }

    /// Attributes of the resource that all three signal providers share: `service.name` plus
    /// every configured pair, on top of what the SDK detects.
    pub fn otel_resource(&self, service_name: &str) -> (attributes: Vec<(String, String)>)
        ensures
            distinct_keys(attributes@),
            resource::configured(service_name@, self.resource@).submap_of(pair_map(attributes@)),
            exists|found: Map<Seq<char>, Seq<char>>| #[trigger]
                resource::is_detected(found) && pair_map(attributes@) == found.union_prefer_right(
                    resource::configured(service_name@, self.resource@),
                ),
    {
        resource::resource_attributes(service_name, &self.resource)
    }
}

/// The three signals' exporters differ in what they send only: endpoint, timeout and transport,
/// headers included, are the same.
pub proof fn law_sibling_exporters_share_the_target(
    config: OtlpConfig,
    signal: Signal,
    plan: ExporterPlan,
    other_signal: Signal,
    other: ExporterPlan,
)
    requires
        plans(config, signal, plan),
        plans(config, other_signal, other),
    ensures
        plan.endpoint@ == other.endpoint@,
        plan.timeout == other.timeout,
        plan.transport is Grpc <==> other.transport is Grpc,
        plan.transport is HttpProtobuf ==> pair_map(plan.transport->headers@) == pair_map(
            other.transport->headers@,
        ),
{
}

/// A plan goes where its config says: the endpoint, the timeout and the transport are the
/// config's own, and it sends the signal it was asked for.
pub proof fn law_plan_goes_where_the_config_says(
    config: OtlpConfig,
    signal: Signal,
    plan: ExporterPlan,
)
    requires
        plans(config, signal, plan),
    ensures
        plan.signal == signal,
        plan.endpoint@ == config.endpoint@,
        plan.timeout == config.timeout,
        config.protocol is Grpc ==> plan.transport is Grpc,
        config.protocol is HttpProtobuf ==> plan.transport is HttpProtobuf,
{
}

/// Configs that differ in endpoint, timeout or transport never share a plan.
pub proof fn law_different_targets_have_different_plans(
    one: OtlpConfig,
    other: OtlpConfig,
    signal: Signal,
    other_signal: Signal,
    plan: ExporterPlan,
)
    requires
        plans(one, signal, plan),
        plans(other, other_signal, plan),
    ensures
        one.endpoint@ == other.endpoint@,
        one.timeout == other.timeout,
        one.protocol == other.protocol,
        signal == other_signal,
{
}

/// Every plan that agrees with a config in all it has to say is a plan of that config.
pub proof fn law_agreeing_plan_is_a_plan(config: OtlpConfig, signal: Signal, plan: ExporterPlan)
    requires
        plan.signal == signal,
        plan.endpoint@ == config.endpoint@,
        plan.timeout == config.timeout,
        config.protocol is Grpc && plan.transport is Grpc || config.protocol is HttpProtobuf && (
        plan.transport matches Transport::HttpProtobuf { headers } && distinct_keys(headers@)
            && pair_map(headers@) == pair_map(config.headers@)),
    ensures
        plans(config, signal, plan),
{
}

/// `at` is the last place in `pairs` where `key` stands.
pub open spec fn last_of(pairs: Seq<(String, String)>, key: Seq<char>, at: int) -> bool {
    &&& 0 <= at < pairs.len()
    &&& pairs[at].0@ == key
    &&& forall|later: int| at < later < pairs.len() ==> (#[trigger] pairs[later]).0@ != key
}

/// A list of pairs maps the keys that stand in it, and no others, each to the value that it is
/// paired with last.
pub proof fn law_last_value_of_a_key_counts(pairs: Seq<(String, String)>, key: Seq<char>)
    ensures
        pair_map(pairs).dom().contains(key) <==> exists|i: int|
            0 <= i < pairs.len() && (#[trigger] pairs[i]).0@ == key,
        forall|at: int| #[trigger]
            last_of(pairs, key, at) ==> pair_map(pairs).dom().contains(key) && pair_map(pairs)[key]
                == pairs[at].1@,
        pair_map(pairs).dom().contains(key) ==> exists|at: int| #[trigger] last_of(pairs, key, at),
    decreases pairs.len(),
{
    if pairs.len() > 0 {
        let before = pairs.drop_last();
        let end = pairs.len() - 1;
        law_last_value_of_a_key_counts(before, key);
        if pairs.last().0@ == key {
            assert(pairs[end].0@ == key);
            assert(last_of(pairs, key, end));
            assert forall|at: int| #[trigger] last_of(pairs, key, at) implies at == end by {
                if at < end {
                    assert(pairs[end].0@ != key);
                }
            }
        } else {
            assert forall|at: int| #[trigger] last_of(pairs, key, at) implies last_of(
                before,
                key,
                at,
            ) by {
                assert(at != end);
                assert forall|later: int| at < later < before.len() implies (
                #[trigger] before[later]).0@ != key by {
                    assert(pairs[later].0@ != key);
                }
            }
            if pair_map(before).dom().contains(key) {
                let at = choose|at: int| #[trigger] last_of(before, key, at);
                assert forall|later: int| at < later < pairs.len() implies (
                #[trigger] pairs[later]).0@ != key by {
                    if later < end {
                        assert(before[later].0@ != key);
                    }
                }
                assert(last_of(pairs, key, at));
                assert(pairs[at].0@ == key);
            }
            if exists|i: int| 0 <= i < pairs.len() && (#[trigger] pairs[i]).0@ == key {
                let i = choose|i: int| 0 <= i < pairs.len() && (#[trigger] pairs[i]).0@ == key;
                assert(before[i].0@ == key);
            }
        }
    }
}

/// Headers are those that were configured: every name that was configured is given once, with the
/// value configured last, and no other name is given.
pub proof fn law_headers_are_the_configured_ones(
    configured: Seq<(String, String)>,
    given: Seq<(String, String)>,
)
    requires
        distinct_keys(given),
        pair_map(given) == pair_map(configured),
    ensures
        forall|i: int, j: int|
            0 <= i < j < given.len() ==> (#[trigger] given[i]).0@ != (#[trigger] given[j]).0@,
        forall|i: int|
            0 <= i < configured.len() ==> exists|j: int|
                0 <= j < given.len() && (#[trigger] given[j]).0@ == (#[trigger] configured[i]).0@,
        forall|j: int|
            0 <= j < given.len() ==> exists|i: int|
                last_of(configured, (#[trigger] given[j]).0@, i) && #[trigger] configured[i].1@
                    == given[j].1@,
{
    assert forall|i: int| 0 <= i < configured.len() implies exists|j: int|
        0 <= j < given.len() && (#[trigger] given[j]).0@ == (#[trigger] configured[i]).0@ by {
        law_last_value_of_a_key_counts(configured, configured[i].0@);
        law_last_value_of_a_key_counts(given, configured[i].0@);
    }
    assert forall|j: int| 0 <= j < given.len() implies exists|i: int|
        last_of(configured, (#[trigger] given[j]).0@, i) && #[trigger] configured[i].1@
            == given[j].1@ by {
        let key = given[j].0@;
        law_last_value_of_a_key_counts(given, key);
        law_last_value_of_a_key_counts(configured, key);
        assert(last_of(given, key, j));
        let i = choose|i: int| #[trigger] last_of(configured, key, i);
        assert(configured[i].1@ == given[j].1@);
    }
}

/// Without pairs there is nothing to map, and a pair behind the others has the last word on its
/// key and bears on no other.
pub proof fn law_pair_behind_the_others_wins(
    pairs: Seq<(String, String)>,
    pair: (String, String),
    key: Seq<char>,
)
    ensures
        !pair_map(Seq::empty()).dom().contains(key),
        pair_map(pairs.push(pair)).dom().contains(pair.0@),
        pair_map(pairs.push(pair))[pair.0@] == pair.1@,
        key != pair.0@ ==> (pair_map(pairs.push(pair)).dom().contains(key) <==> pair_map(
            pairs,
        ).dom().contains(key)),
        key != pair.0@ && pair_map(pairs).dom().contains(key) ==> pair_map(pairs.push(pair))[key]
            == pair_map(pairs)[key],
        distinct_keys(pairs) <==> forall|i: int, j: int|
            0 <= i < pairs.len() && 0 <= j < pairs.len() && i != j ==> (#[trigger] pairs[i]).0@ != (
            #[trigger] pairs[j]).0@,
{
    assert(pairs.push(pair).drop_last() =~= pairs);
    if distinct_keys(pairs) {
        assert forall|i: int, j: int|
            0 <= i < pairs.len() && 0 <= j < pairs.len() && i != j implies (
        #[trigger] pairs[i]).0@ != (#[trigger] pairs[j]).0@ by {
            if i < j {
                assert(pairs[i].0@ != pairs[j].0@);
            } else {
                assert(pairs[j].0@ != pairs[i].0@);
            }
        }
    }
}

/// Over HTTP a plan carries the config's headers, all of them and no others: every configured name
/// once, with the value configured last.
pub proof fn law_http_plan_carries_the_headers(
    config: OtlpConfig,
    signal: Signal,
    plan: ExporterPlan,
    headers: Seq<(String, String)>,
)
    requires
        plans(config, signal, plan),
        config.protocol is HttpProtobuf,
        plan.transport matches Transport::HttpProtobuf { headers: given } && given@ == headers,
    ensures
        forall|i: int|
            0 <= i < config.headers@.len() ==> exists|j: int|
                0 <= j < headers.len() && (#[trigger] headers[j]).0@ == (
                #[trigger] config.headers@[i]).0@,
        forall|j: int|
            0 <= j < headers.len() ==> exists|i: int|
                last_of(config.headers@, (#[trigger] headers[j]).0@, i)
                    && #[trigger] config.headers@[i].1@ == headers[j].1@,
        forall|i: int, j: int|
            0 <= i < j < headers.len() ==> (#[trigger] headers[i]).0@ != (#[trigger] headers[j]).0@,
{
    law_headers_are_the_configured_ones(config.headers@, headers);
}

} // verus!
