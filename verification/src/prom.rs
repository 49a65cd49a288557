//! The Prometheus client operations that the metrics module relies on.

use prometheus::Histogram;
use prometheus::HistogramVec;
use prometheus::IntCounter;
use prometheus::IntCounterVec;
use prometheus::IntGauge;
use prometheus::IntGaugeVec;
use prometheus::Registry;
use std::time::Duration;

use vstd::prelude::*;

verus! {

#[verifier::external_type_specification]
#[verifier::external_body]
pub struct ExRegistry(prometheus::Registry);

#[verifier::external_type_specification]
#[verifier::external_body]
pub struct ExPromError(prometheus::Error);

/// A labelled counter family of the Prometheus client (`IntCounterVec`). The client's
/// family types name builder types that the client does not export, so the family is held
/// here and reached only through the methods below.
#[verifier::external_body]
pub struct CounterFamily {
    family: IntCounterVec,
}

/// A labelled gauge family of the Prometheus client (`IntGaugeVec`), held as
/// [`CounterFamily`] is.
#[verifier::external_body]
pub struct GaugeFamily {
    family: IntGaugeVec,
}

/// A labelled histogram family of the Prometheus client (`HistogramVec`), held as
/// [`CounterFamily`] is.
#[verifier::external_body]
pub struct HistogramFamily {
    family: HistogramVec,
}

/// Number of label values a counter family takes (the label names it was made with).
pub uninterp spec fn counter_family_arity(f: CounterFamily) -> nat;

/// Number of label values a gauge family takes (the label names it was made with).
pub uninterp spec fn gauge_family_arity(f: GaugeFamily) -> nat;

/// Number of label values a histogram family takes (the label names it was made with).
pub uninterp spec fn histogram_family_arity(f: HistogramFamily) -> nat;

/// The label names a histogram family was made with.
pub uninterp spec fn histogram_family_label_names(f: HistogramFamily) -> Seq<Seq<char>>;

/// The bucket bounds, in microseconds, a histogram family was made with.
pub uninterp spec fn histogram_family_bounds(f: HistogramFamily) -> Seq<u64>;

/// Name of the hash under which a labelled family files a series: the client's
/// `FnvHasher` (64-bit FNV-1a, fixed seed) over the UTF-8 bytes of the label values written
/// one after another, with nothing between them. Label values that run together into the
/// same text, or whose texts collide, share one series.
pub uninterp spec fn series_hash(joined: Seq<char>) -> u64;

/// The hash under which a family files the series of these label values.
pub open spec fn series_key(values: Seq<Seq<char>>) -> u64 {
    series_hash(values.flatten())
}

/// The value of each counter of a counter family, by the hash it is filed under; a
/// counter not made yet is absent.
pub uninterp spec fn counter_family_values(f: CounterFamily) -> Map<u64, u64>;

/// The value of each gauge of a gauge family, by the hash it is filed under; a gauge not
/// made yet is absent.
pub uninterp spec fn gauge_family_values(f: GaugeFamily) -> Map<u64, i64>;

/// The durations observed by each histogram of a histogram family, in order, by the hash
/// it is filed under; a histogram not made yet is absent. (The client keeps of them only
/// their count, their sum and the bucket counts.)
pub uninterp spec fn histogram_family_observations(f: HistogramFamily) -> Map<u64, Seq<Duration>>;

/// The value of a single counter.
pub uninterp spec fn counter_metric_value(c: CounterMetric) -> u64;

/// The value of a single gauge.
pub uninterp spec fn gauge_metric_value(g: GaugeMetric) -> i64;

/// The durations a single histogram observed, in order (the client keeps of them only
/// their count, their sum and the bucket counts).
pub uninterp spec fn histogram_metric_observations(h: HistogramMetric) -> Seq<Duration>;

/// A counter's value after adding `n`: the client's atomic addition wraps around.
pub open spec fn wrapping_add(a: u64, n: u64) -> u64 {
    if a + n <= u64::MAX {
        (a + n) as u64
    } else {
        (a + n - u64::MAX - 1) as u64
    }
}

/// A gauge's value after adding `n` (1 or -1): the client's atomic addition wraps around.
pub open spec fn wrapping_step(a: i64, n: int) -> i64 {
    if i64::MIN <= a + n <= i64::MAX {
        (a + n) as i64
    } else if a + n > i64::MAX {
        i64::MIN
    } else {
        i64::MAX
    }
}

/// The counter under `key`, or 0 for one not made yet.
pub open spec fn counter_at(m: Map<u64, u64>, key: u64) -> u64 {
    if m.contains_key(key) {
        m[key]
    } else {
        0
    }
}

/// The gauge under `key`, or 0 for one not made yet.
pub open spec fn gauge_at(m: Map<u64, i64>, key: u64) -> i64 {
    if m.contains_key(key) {
        m[key]
    } else {
        0
    }
}

/// The observations under `key`, or none for a histogram not made yet.
pub open spec fn observations_at(m: Map<u64, Seq<Duration>>, key: u64) -> Seq<Duration> {
    if m.contains_key(key) {
        m[key]
    } else {
        Seq::empty()
    }
}

/// `n` added to the counter under `key`, made at 0 when absent.
pub open spec fn counted(m: Map<u64, u64>, key: u64, n: u64) -> Map<u64, u64> {
    m.insert(key, wrapping_add(counter_at(m, key), n))
}

/// `n` (1 or -1) added to the gauge under `key`, made at 0 when absent.
pub open spec fn stepped(m: Map<u64, i64>, key: u64, n: int) -> Map<u64, i64> {
    m.insert(key, wrapping_step(gauge_at(m, key), n))
}

/// `d` observed by the histogram under `key`, made empty when absent.
pub open spec fn observed(m: Map<u64, Seq<Duration>>, key: u64, d: Duration) -> Map<u64, Seq<Duration>> {
    m.insert(key, observations_at(m, key).push(d))
}

/// A character a metric name may begin with: an ASCII letter, `_` or `:`.
pub open spec fn metric_name_start(c: char) -> bool {
    ('a' <= c <= 'z') || ('A' <= c <= 'Z') || c == '_' || c == ':'
}

/// A name the client accepts for a metric: a first character as above, then those
/// characters or ASCII digits.
pub open spec fn valid_metric_name(s: Seq<char>) -> bool {
    &&& s.len() > 0
    &&& metric_name_start(s[0])
    &&& forall|k: int| 1 <= k < s.len() ==> metric_name_start(#[trigger] s[k]) || ('0' <= s[k] <= '9')
}

/// A character a label name may begin with: an ASCII letter or `_`.
pub open spec fn label_name_start(c: char) -> bool {
    ('a' <= c <= 'z') || ('A' <= c <= 'Z') || c == '_'
}

/// A name the client accepts for a label: a first character as above, then those
/// characters or ASCII digits.
pub open spec fn valid_label_name(s: Seq<char>) -> bool {
    &&& s.len() > 0
    &&& label_name_start(s[0])
    &&& forall|k: int| 1 <= k < s.len() ==> label_name_start(#[trigger] s[k]) || ('0' <= s[k] <= '9')
}

/// Label names the client accepts for a family: each valid, no two the same.
pub open spec fn valid_label_names(names: Seq<Seq<char>>) -> bool {
    &&& forall|i: int| 0 <= i < names.len() ==> valid_label_name(#[trigger] names[i])
    &&& forall|i: int, j: int| 0 <= i < j < names.len() ==> #[trigger] names[i] != #[trigger] names[j]
}

/// What the client checks of a metric's definition before making it: a valid name, a
/// non-empty help text and valid, distinct label names.
pub open spec fn valid_definition(name: Seq<char>, help: Seq<char>, label_names: Seq<Seq<char>>) -> bool {
    valid_metric_name(name) && help.len() > 0 && valid_label_names(label_names)
}

/// The views of a list of label names.
pub open spec fn label_views(names: Seq<&str>) -> Seq<Seq<char>> {
    names.map_values(|n: &str| n@)
}

/// Bucket bounds the client accepts once handed over in seconds: strictly increasing,
/// and small enough (at most a million seconds) that distinct microsecond values stay
/// distinct as seconds. No bounds at all means the client's default buckets.
pub open spec fn accepted_bounds(bounds: Seq<u64>) -> bool {
    &&& forall|i: int, j: int| 0 <= i < j < bounds.len() ==> bounds[i] < bounds[j]
    &&& forall|i: int| 0 <= i < bounds.len() ==> bounds[i] <= 1_000_000_000_000
}

/// Label names a histogram accepts: none is `le`, which the client keeps for its buckets.
pub open spec fn accepted_histogram_labels(names: Seq<Seq<char>>) -> bool {
    forall|i: int| 0 <= i < names.len() ==> names[i] != "le"@
}

/// Name of a descriptor's id: the client's `FnvHasher` over the fully-qualified name and
/// its separator byte (the metrics here have no constant labels).
pub uninterp spec fn descriptor_id(name: Seq<char>) -> u64;

/// The collectors registered in a registry, by collector id, with the names of their
/// descriptors.
pub uninterp spec fn registry_collectors(r: Registry) -> Map<u64, Seq<Seq<char>>>;

/// The descriptor ids of the collectors registered in a registry.
pub uninterp spec fn registry_descriptor_ids(r: Registry) -> Set<u64>;

/// The names whose label dimensions a registry has recorded.
pub uninterp spec fn registry_dimension_names(r: Registry) -> Set<Seq<char>>;

/// The name a counter family was made with.
pub uninterp spec fn counter_family_name(f: CounterFamily) -> Seq<char>;

/// The name a gauge family was made with.
pub uninterp spec fn gauge_family_name(f: GaugeFamily) -> Seq<char>;

/// The name a histogram family was made with.
pub uninterp spec fn histogram_family_name(f: HistogramFamily) -> Seq<char>;

/// The name a single counter was made with.
pub uninterp spec fn counter_metric_name(c: CounterMetric) -> Seq<char>;

/// The name a single gauge was made with.
pub uninterp spec fn gauge_metric_name(g: GaugeMetric) -> Seq<char>;

/// The name a single histogram was made with.
pub uninterp spec fn histogram_metric_name(h: HistogramMetric) -> Seq<char>;

/// What registering a collector of one descriptor named `name` did to a registry: on
/// success the collector is filed under its descriptor id, that id is taken and the name's
/// dimensions are recorded; on failure no collector and no id changed (the name's
/// dimensions may have been recorded).
pub open spec fn registered_one(old: Registry, new: Registry, name: Seq<char>, ok: bool) -> bool {
    let d = descriptor_id(name);
    if ok {
        &&& registry_collectors(new) == registry_collectors(old).insert(d, seq![name])
        &&& registry_descriptor_ids(new) == registry_descriptor_ids(old).insert(d)
        &&& registry_dimension_names(new) == registry_dimension_names(old).insert(name)
    } else {
        &&& registry_collectors(new) == registry_collectors(old)
        &&& registry_descriptor_ids(new) == registry_descriptor_ids(old)
        &&& (registry_dimension_names(new) == registry_dimension_names(old) || registry_dimension_names(new)
            == registry_dimension_names(old).insert(name))
    }
}

/// Whether a registry takes a collector of one descriptor named `name` for certain: its id
/// is not taken, by a descriptor or a collector, and no dimensions were recorded for the
/// name.
pub open spec fn registry_free_for(r: Registry, name: Seq<char>) -> bool {
    &&& !registry_descriptor_ids(r).contains(descriptor_id(name))
    &&& !registry_collectors(r).contains_key(descriptor_id(name))
    &&& !registry_dimension_names(r).contains(name)
}

/// Calls `Registry::new`: an empty registry (no collector, no descriptor id, no recorded
/// dimensions).
#[verifier::external_body]
pub(crate) fn registry_new() -> (r: Registry)
    ensures
        registry_collectors(r).dom().is_empty(),
        registry_descriptor_ids(r).is_empty(),
        registry_dimension_names(r).is_empty(),
{
    Registry::new()
}

impl CounterFamily {
    /// Calls `IntCounterVec::new` with `Opts::new(name, help)`. Claimed: a family it
    /// returns takes exactly as many label values as `label_names` holds and has no
    /// counter yet; the call succeeds on a definition that passes the client's checks
    /// (`Desc::new`: name, help text, label names).
    #[verifier::external_body]
    pub(crate) fn new(name: &str, help: &str, label_names: &[&str]) -> (r: Result<CounterFamily, prometheus::Error>)
        ensures
            r matches Ok(f) ==> counter_family_name(f) == name@,
            r matches Ok(f) ==> counter_family_arity(f) == label_names@.len(),
            r matches Ok(f) ==> counter_family_values(f).dom().is_empty(),
            valid_definition(name@, help@, label_views(label_names@)) ==> r is Ok,
    {
        IntCounterVec::new(prometheus::Opts::new(name, help), label_names).map(|family| CounterFamily { family })
    }

    /// Calls `Registry::register` with a clone of the family, a collector of one descriptor.
    /// Claimed: what the registry keeps afterwards (see [`registered_one`]), and success
    /// where the registry is free for the name (see [`registry_free_for`]).
    #[verifier::external_body]
    pub(crate) fn register_in(&self, registry: &mut Registry) -> (r: Result<(), prometheus::Error>)
        ensures
            registered_one(*old(registry), *final(registry), counter_family_name(*self), r is Ok),
            registry_free_for(*old(registry), counter_family_name(*self)) ==> r is Ok,
            r is Ok ==> registry_descriptor_ids(*final(registry)).contains(descriptor_id(counter_family_name(*self))),
    {
        registry.register(Box::new(self.family.clone()))
    }

    /// Calls `with_label_values(values).inc()`: the counter filed under the hash of `values` (made at 0 if
    /// new) goes up by one. The client panics on a wrong number of values, which
    /// `requires` rules out.
    #[verifier::external_body]
    pub(crate) fn inc(&mut self, values: &[&str])
        requires
            values@.len() == counter_family_arity(*old(self)),
        ensures
            counter_family_name(*final(self)) == counter_family_name(*old(self)),
            counter_family_arity(*final(self)) == counter_family_arity(*old(self)),
            counter_family_values(*final(self)) == counted(counter_family_values(*old(self)), series_hash(label_views(values@).flatten()), 1),
    {
        self.family.with_label_values(values).inc()
    }

    /// Calls `with_label_values(values).inc_by(n)`: the counter filed under the hash of `values` (made at 0
    /// if new) goes up by `n`. The client panics on a wrong number of values, which
    /// `requires` rules out.
    #[verifier::external_body]
    pub(crate) fn inc_by(&mut self, values: &[&str], n: u64)
        requires
            values@.len() == counter_family_arity(*old(self)),
        ensures
            counter_family_name(*final(self)) == counter_family_name(*old(self)),
            counter_family_arity(*final(self)) == counter_family_arity(*old(self)),
            counter_family_values(*final(self)) == counted(counter_family_values(*old(self)), series_hash(label_views(values@).flatten()), n),
    {
        self.family.with_label_values(values).inc_by(n)
    }
}

impl GaugeFamily {
    /// Calls `IntGaugeVec::new` with `Opts::new(name, help)`. Claimed: a family it returns
    /// takes exactly as many label values as `label_names` holds and has no gauge yet; the
    /// call succeeds on a definition that passes the client's checks (`Desc::new`).
    #[verifier::external_body]
    pub(crate) fn new(name: &str, help: &str, label_names: &[&str]) -> (r: Result<GaugeFamily, prometheus::Error>)
        ensures
            r matches Ok(f) ==> gauge_family_name(f) == name@,
            r matches Ok(f) ==> gauge_family_arity(f) == label_names@.len(),
            r matches Ok(f) ==> gauge_family_values(f).dom().is_empty(),
            valid_definition(name@, help@, label_views(label_names@)) ==> r is Ok,
    {
        IntGaugeVec::new(prometheus::Opts::new(name, help), label_names).map(|family| GaugeFamily { family })
    }

    /// Calls `Registry::register` with a clone of the family, a collector of one descriptor.
    /// Claimed: what the registry keeps afterwards (see [`registered_one`]), and success
    /// where the registry is free for the name (see [`registry_free_for`]).
    #[verifier::external_body]
    pub(crate) fn register_in(&self, registry: &mut Registry) -> (r: Result<(), prometheus::Error>)
        ensures
            registered_one(*old(registry), *final(registry), gauge_family_name(*self), r is Ok),
            registry_free_for(*old(registry), gauge_family_name(*self)) ==> r is Ok,
            r is Ok ==> registry_descriptor_ids(*final(registry)).contains(descriptor_id(gauge_family_name(*self))),
    {
        registry.register(Box::new(self.family.clone()))
    }

    /// Calls `with_label_values(values).set(x)`: the gauge filed under the hash of `values` becomes `x`. The
    /// client panics on a wrong number of values, which `requires` rules out.
    #[verifier::external_body]
    pub(crate) fn set(&mut self, values: &[&str], x: i64)
        requires
            values@.len() == gauge_family_arity(*old(self)),
        ensures
            gauge_family_name(*final(self)) == gauge_family_name(*old(self)),
            gauge_family_arity(*final(self)) == gauge_family_arity(*old(self)),
            gauge_family_values(*final(self)) == gauge_family_values(*old(self)).insert(series_hash(label_views(values@).flatten()), x),
    {
        self.family.with_label_values(values).set(x)
    }

    /// Calls `with_label_values(values).inc()`: the gauge filed under the hash of `values` (made at 0 if
    /// new) goes up by one. The client panics on a wrong number of values, which
    /// `requires` rules out.
    #[verifier::external_body]
    pub(crate) fn inc(&mut self, values: &[&str])
        requires
            values@.len() == gauge_family_arity(*old(self)),
        ensures
            gauge_family_name(*final(self)) == gauge_family_name(*old(self)),
            gauge_family_arity(*final(self)) == gauge_family_arity(*old(self)),
            gauge_family_values(*final(self)) == stepped(gauge_family_values(*old(self)), series_hash(label_views(values@).flatten()), 1),
    {
        self.family.with_label_values(values).inc()
    }

    /// Calls `with_label_values(values).dec()`: the gauge filed under the hash of `values` (made at 0 if
    /// new) goes down by one. The client panics on a wrong number of values, which
    /// `requires` rules out.
    #[verifier::external_body]
    pub(crate) fn dec(&mut self, values: &[&str])
        requires
            values@.len() == gauge_family_arity(*old(self)),
        ensures
            gauge_family_name(*final(self)) == gauge_family_name(*old(self)),
            gauge_family_arity(*final(self)) == gauge_family_arity(*old(self)),
            gauge_family_values(*final(self)) == stepped(gauge_family_values(*old(self)), series_hash(label_views(values@).flatten()), -1),
    {
        self.family.with_label_values(values).dec()
    }
}

impl HistogramFamily {
    /// Calls `HistogramVec::new` with `HistogramOpts::new(name, help)` and the bucket
    /// bounds `bounds_us`, given in microseconds and handed over in seconds. Claimed: a
    /// family it returns takes exactly as many label values as `label_names` holds, has
    /// no histogram yet, and keeps the label names and bounds it was given; the call
    /// succeeds on a definition that passes `Desc::new`'s checks. The client checks neither the
    /// bounds nor the `le` label here: it checks them, and panics on them, only when a
    /// labelled child is first made (see [`HistogramFamily::observe`]).
    #[verifier::external_body]
    pub(crate) fn new(name: &str, help: &str, bounds_us: &[u64], label_names: &[&str]) -> (r: Result<HistogramFamily, prometheus::Error>)
        ensures
            r matches Ok(f) ==> histogram_family_name(f) == name@,
            r matches Ok(f) ==> histogram_family_arity(f) == label_names@.len() && histogram_family_label_names(f)
                == label_views(label_names@) && histogram_family_bounds(f) == bounds_us@,
            r matches Ok(f) ==> histogram_family_observations(f).dom().is_empty(),
            valid_definition(name@, help@, label_views(label_names@)) ==> r is Ok,
    {
        let buckets = bounds_us.iter().map(|us| Duration::from_micros(*us).as_secs_f64()).collect();
        HistogramVec::new(prometheus::HistogramOpts::new(name, help).buckets(buckets), label_names).map(|family| HistogramFamily { family })
    }

    /// Calls `Registry::register` with a clone of the family, a collector of one descriptor.
    /// Claimed: what the registry keeps afterwards (see [`registered_one`]), and success
    /// where the registry is free for the name (see [`registry_free_for`]).
    #[verifier::external_body]
    pub(crate) fn register_in(&self, registry: &mut Registry) -> (r: Result<(), prometheus::Error>)
        ensures
            registered_one(*old(registry), *final(registry), histogram_family_name(*self), r is Ok),
            registry_free_for(*old(registry), histogram_family_name(*self)) ==> r is Ok,
            r is Ok ==> registry_descriptor_ids(*final(registry)).contains(descriptor_id(histogram_family_name(*self))),
    {
        registry.register(Box::new(self.family.clone()))
    }

    /// Calls `with_label_values(values).observe(..)` with `d` in seconds. The client
    /// panics on a wrong number of values, and, when it makes the labelled child, on bounds
    /// that are not increasing and on a label named `le`; `requires` rules all three out.
    /// The histogram filed under the hash of `values` (made empty if new) observes `d`.
    #[verifier::external_body]
    pub(crate) fn observe(&mut self, values: &[&str], d: Duration)
        requires
            values@.len() == histogram_family_arity(*old(self)),
            accepted_bounds(histogram_family_bounds(*old(self))),
            accepted_histogram_labels(histogram_family_label_names(*old(self))),
        ensures
            histogram_family_name(*final(self)) == histogram_family_name(*old(self)),
            histogram_family_arity(*final(self)) == histogram_family_arity(*old(self)),
            histogram_family_bounds(*final(self)) == histogram_family_bounds(*old(self)),
            histogram_family_label_names(*final(self)) == histogram_family_label_names(*old(self)),
            histogram_family_observations(*final(self)) == observed(
                histogram_family_observations(*old(self)),
                series_hash(label_views(values@).flatten()),
                d,
            ),
    {
        self.family.with_label_values(values).observe(d.as_secs_f64())
    }
}

/// A single counter of the Prometheus client (`IntCounter`). The client's type is generic
/// over one of the client's own traits; the counter is held here and reached only through
/// the methods below.
#[verifier::external_body]
pub struct CounterMetric {
    metric: IntCounter,
}

/// A single gauge of the Prometheus client (`IntGauge`), held as [`CounterMetric`] is.
#[verifier::external_body]
pub struct GaugeMetric {
    metric: IntGauge,
}

/// A single histogram of the Prometheus client (`Histogram`), held beside the others so
/// that every metric registers the same way.
#[verifier::external_body]
pub struct HistogramMetric {
    metric: Histogram,
}

impl CounterMetric {
    /// Calls `IntCounter::new(name, help)`: a counter at 0; the call succeeds on a name and
    /// help text that pass the client's checks (`Desc::new`).
    #[verifier::external_body]
    pub(crate) fn new(name: &str, help: &str) -> (r: Result<CounterMetric, prometheus::Error>)
        ensures
            r matches Ok(c) ==> counter_metric_name(c) == name@,
            r matches Ok(c) ==> counter_metric_value(c) == 0,
            valid_definition(name@, help@, Seq::empty()) ==> r is Ok,
    {
        IntCounter::new(name, help).map(|metric| CounterMetric { metric })
    }

    /// Calls `Registry::register` with a clone of the counter, a collector of one descriptor.
    /// Claimed: what the registry keeps afterwards (see [`registered_one`]), and success
    /// where the registry is free for the name (see [`registry_free_for`]).
    #[verifier::external_body]
    pub(crate) fn register_in(&self, registry: &mut Registry) -> (r: Result<(), prometheus::Error>)
        ensures
            registered_one(*old(registry), *final(registry), counter_metric_name(*self), r is Ok),
            registry_free_for(*old(registry), counter_metric_name(*self)) ==> r is Ok,
            r is Ok ==> registry_descriptor_ids(*final(registry)).contains(descriptor_id(counter_metric_name(*self))),
    {
        registry.register(Box::new(self.metric.clone()))
    }

    /// Calls `IntCounter::inc`: the counter goes up by one.
    #[verifier::external_body]
    pub(crate) fn inc(&mut self)
        ensures
            counter_metric_name(*final(self)) == counter_metric_name(*old(self)),
            counter_metric_value(*final(self)) == wrapping_add(counter_metric_value(*old(self)), 1),
    {
        self.metric.inc()
    }
}

impl GaugeMetric {
    /// Calls `IntGauge::new(name, help)`: a gauge at 0; the call succeeds on a name and
    /// help text that pass the client's checks (`Desc::new`).
    #[verifier::external_body]
    pub(crate) fn new(name: &str, help: &str) -> (r: Result<GaugeMetric, prometheus::Error>)
        ensures
            r matches Ok(g) ==> gauge_metric_name(g) == name@,
            r matches Ok(g) ==> gauge_metric_value(g) == 0,
            valid_definition(name@, help@, Seq::empty()) ==> r is Ok,
    {
        IntGauge::new(name, help).map(|metric| GaugeMetric { metric })
    }

    /// Calls `Registry::register` with a clone of the gauge, a collector of one descriptor.
    /// Claimed: what the registry keeps afterwards (see [`registered_one`]), and success
    /// where the registry is free for the name (see [`registry_free_for`]).
    #[verifier::external_body]
    pub(crate) fn register_in(&self, registry: &mut Registry) -> (r: Result<(), prometheus::Error>)
        ensures
            registered_one(*old(registry), *final(registry), gauge_metric_name(*self), r is Ok),
            registry_free_for(*old(registry), gauge_metric_name(*self)) ==> r is Ok,
            r is Ok ==> registry_descriptor_ids(*final(registry)).contains(descriptor_id(gauge_metric_name(*self))),
    {
        registry.register(Box::new(self.metric.clone()))
    }

    /// Calls `IntGauge::set`: the gauge becomes `x`.
    #[verifier::external_body]
    pub(crate) fn set(&mut self, x: i64)
        ensures
            gauge_metric_name(*final(self)) == gauge_metric_name(*old(self)),
            gauge_metric_value(*final(self)) == x,
    {
        self.metric.set(x)
    }
}

impl HistogramMetric {
    /// Calls `Histogram::with_opts` with `HistogramOpts::new(name, help)` and the bucket
    /// bounds `bounds_us`, given in microseconds and handed over in seconds. A histogram it
    /// returns has observed nothing; the call succeeds on a name and help text that pass
    /// `Desc::new`'s checks and on accepted bounds (the client refuses bounds that are not
    /// increasing).
    #[verifier::external_body]
    pub(crate) fn new(name: &str, help: &str, bounds_us: &[u64]) -> (r: Result<HistogramMetric, prometheus::Error>)
        ensures
            r matches Ok(h) ==> histogram_metric_name(h) == name@,
            r matches Ok(h) ==> histogram_metric_observations(h) == Seq::<Duration>::empty(),
            valid_definition(name@, help@, Seq::empty()) && accepted_bounds(bounds_us@) ==> r is Ok,
    {
        let buckets = bounds_us.iter().map(|us| Duration::from_micros(*us).as_secs_f64()).collect();
        Histogram::with_opts(prometheus::HistogramOpts::new(name, help).buckets(buckets)).map(|metric| HistogramMetric { metric })
    }

    /// Calls `Registry::register` with a clone of the histogram, a collector of one descriptor.
    /// Claimed: what the registry keeps afterwards (see [`registered_one`]), and success
    /// where the registry is free for the name (see [`registry_free_for`]).
    #[verifier::external_body]
    pub(crate) fn register_in(&self, registry: &mut Registry) -> (r: Result<(), prometheus::Error>)
        ensures
            registered_one(*old(registry), *final(registry), histogram_metric_name(*self), r is Ok),
            registry_free_for(*old(registry), histogram_metric_name(*self)) ==> r is Ok,
            r is Ok ==> registry_descriptor_ids(*final(registry)).contains(descriptor_id(histogram_metric_name(*self))),
    {
        registry.register(Box::new(self.metric.clone()))
    }

    /// Calls `Histogram::observe` with `d` in seconds: the histogram observes `d`.
    #[verifier::external_body]
    pub(crate) fn observe(&mut self, d: Duration)
        ensures
            histogram_metric_name(*final(self)) == histogram_metric_name(*old(self)),
            histogram_metric_observations(*final(self)) == histogram_metric_observations(*old(self)).push(d),
    {
        self.metric.observe(d.as_secs_f64())
    }
}

/// Calls `Registry::gather` and keeps the name of each metric family. What the registry
/// holds is not modelled, so nothing is stated of the names.
#[verifier::external_body]
pub(crate) fn gathered_family_names(registry: &Registry) -> (r: Vec<String>) {
    registry.gather().iter().map(|family| family.name().to_owned()).collect()
}


} // verus!
