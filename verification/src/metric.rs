//! Metrics: their labels, and the builder from which a metric is made.

use crate::assoc::{
    distinct_keys, lemma_map_of_keys, lemma_map_of_push, lemma_map_of_update, map_of,
};
use crate::resource::Resource;
use std::marker::PhantomData;
use vstd::prelude::*;

verus! {

/// The key of a label of a metric.
#[derive(PartialEq, Eq, Hash, Debug)]
pub struct LabelKey {
    /// The key of the label.
    pub key: String,
    /// What the label stands for, for a human reader.
    pub description: String,
}

impl View for LabelKey {
    type V = (Seq<char>, Seq<char>);

    open spec fn view(&self) -> (Seq<char>, Seq<char>) {
        (self.key@, self.description@)
    }
}

impl Clone for LabelKey {
    fn clone(&self) -> (r: Self)
        ensures
            r@ == self@,
    {
        LabelKey { key: self.key.clone(), description: self.description.clone() }
    }
}

/// The value of a label of a metric.
#[derive(PartialEq, Eq, Hash, Debug)]
pub struct LabelValue {
    /// The value of the label.
    pub value: String,
    /// Whether the label is set. Where it is not, `value` does not count:
    /// this tells a missing label from an empty one.
    pub has_value: bool,
}

impl View for LabelValue {
    type V = (Seq<char>, bool);

    open spec fn view(&self) -> (Seq<char>, bool) {
        (self.value@, self.has_value)
    }
}

impl Clone for LabelValue {
    fn clone(&self) -> (r: Self)
        ensures
            r@ == self@,
    {
        LabelValue { value: self.value.clone(), has_value: self.has_value }
    }
}

/// The keys and values that a list of constant labels stands for.
pub open spec fn constant_pairs(labels: Seq<(LabelKey, LabelValue)>) -> Seq<
    ((Seq<char>, Seq<char>), (Seq<char>, bool)),
> {
    labels.map_values(|label: (LabelKey, LabelValue)| (label.0@, label.1@))
}

/// The place of the constant label with the given key, if there is one.
fn find_constant_label(labels: &Vec<(LabelKey, LabelValue)>, key: &LabelKey) -> (r: Option<usize>)
    ensures
        match r {
            Some(at) => at < labels.len() && constant_pairs(labels@)[at as int].0 == key@,
            None => forall|i: int|
                0 <= i < labels.len() ==> (#[trigger] constant_pairs(labels@)[i]).0 != key@,
        },
{
    let mut i: usize = 0;
    while i < labels.len()
        invariant
            i <= labels.len(),
            forall|j: int| 0 <= j < i ==> (#[trigger] constant_pairs(labels@)[j]).0 != key@,
        decreases labels.len() - i,
    {
        if labels[i].0.key == key.key && labels[i].0.description == key.description {
            return Some(i);
        }
        i = i + 1;
    }
    None
}

/// Puts one constant label into the list: a label with a new key is added,
/// and the value of a key that is there is replaced.
fn put_constant_label(labels: &mut Vec<(LabelKey, LabelValue)>, key: LabelKey, value: LabelValue)
    requires
        distinct_keys(constant_pairs(old(labels)@)),
    ensures
        distinct_keys(constant_pairs(final(labels)@)),
        map_of(constant_pairs(final(labels)@)) == map_of(constant_pairs(old(labels)@)).insert(
            key@,
            value@,
        ),
        !map_of(constant_pairs(old(labels)@)).contains_key(key@) ==> constant_pairs(
            final(labels)@,
        ) == constant_pairs(old(labels)@).push((key@, value@)),
{
    let ghost before = constant_pairs(labels@);
    proof {
        lemma_map_of_keys(before, key@);
    }
    match find_constant_label(labels, &key) {
        None => {
            labels.push((key, value));
            proof {
                assert(constant_pairs(labels@) =~= before.push((key@, value@)));
                lemma_map_of_push(before, key@, value@);
            }
        },
        Some(at) => {
            labels.set(at, (key, value));
            proof {
                assert(constant_pairs(labels@) =~= before.update(
                    at as int,
                    (before[at as int].0, value@),
                ));
                lemma_map_of_update(before, at as int, value@);
            }
        },
    }
}

/// One series of values of a metric, for one choice of label values.
pub trait TimeSeries: Default {
    /// The type of the recorded values.
    type V;

    /// Adds `delta` to the current value.
    fn add(&self, delta: Self::V);

    /// Sets the current value.
    fn set(&self, val: Self::V);
}

/// A metric of some backend. A backend implements this for each kind of
/// metric it records, and says in `build` which descriptions it accepts.
pub trait Metric: Sized {
    /// Why a metric could not be made.
    type Error;

    /// The series of this metric.
    type TS: TimeSeries;

    /// The series for the given label values, made if it is not there yet.
    fn timeseries(&self, label_values: Vec<LabelValue>) -> Self::TS;

    /// The series with no label set.
    fn default_timeseries(&self) -> Self::TS;

    /// Removes the series for the given label values, if it is there.
    fn remove_timeseries(&self, label_values: Vec<LabelValue>);

    /// Removes every series of the metric.
    fn clear();

    /// Makes the metric that the builder describes.
    fn build(mb: MetricBuilder<Self>) -> Result<Self, Self::Error>;
}

/// A metric whose value only goes up.
pub trait Counter: Metric {

}

/// A counter of whole numbers.
pub trait CounterLong: Counter {

}

/// A counter of fractional numbers.
pub trait CounterDouble: Counter {

}

/// A metric whose value goes up and down.
pub trait Gauge: Metric {

}

/// A gauge of whole numbers.
pub trait GaugeLong: Gauge {

}

/// A gauge of fractional numbers.
pub trait GaugeDouble: Gauge {

}

/// One value recorded for a measure, to be recorded once and not kept.
pub trait Measurement {

}

/// The measurement of a backend that records nothing.
pub struct NoopMeasurement;

impl Measurement for NoopMeasurement {

}

/// The description of a metric, from which a backend makes the metric. The
/// constant labels stand for a mapping from label keys to label values; the
/// functions of the builder keep each key in the list once.
pub struct MetricBuilder<M: Metric> {
    pub name: String,
    pub description: String,
    pub unit: String,
    pub label_keys: Vec<LabelKey>,
    pub constant_labels: Vec<(LabelKey, LabelValue)>,
    pub component: Option<String>,
    pub resource: Option<Resource>,
    pub _factory: PhantomData<M>,
}

impl<M: Metric> MetricBuilder<M> {
    /// No key occurs twice among the constant labels.
    pub open spec fn spec_well_formed(&self) -> bool {
        distinct_keys(constant_pairs(self.constant_labels@))
    }

    /// The description of a metric with the given name: no description text,
    /// the unit `"1"`, no labels, no component and no resource.
    pub fn new(name: &str) -> (r: Self)
        ensures
            r.spec_well_formed(),
            r.name@ == name@,
            r.description@ == Seq::<char>::empty(),
            r.unit@ == seq!['1'],
            r.label_keys@ == Seq::<LabelKey>::empty(),
            r.constant_labels@ == Seq::<(LabelKey, LabelValue)>::empty(),
            r.component is None,
            r.resource is None,
    {
        proof {
            reveal_strlit("1");
            assert("1"@ =~= seq!['1']);
        }
        MetricBuilder {
            name: name.to_owned(),
            description: String::new(),
            unit: "1".to_owned(),
            label_keys: Vec::new(),
            constant_labels: Vec::new(),
            component: None,
            resource: None,
            _factory: PhantomData,
        }
    }

    /// Sets the description of the metric.
    pub fn description(self, description: &str) -> (r: Self)
        ensures
            r.description@ == description@,
            r.name == self.name,
            r.unit == self.unit,
            r.label_keys == self.label_keys,
            r.constant_labels == self.constant_labels,
            r.component == self.component,
            r.resource == self.resource,
    {
        let mut next = self;
        next.description = description.to_owned();
        next
    }

    /// Sets the unit of the metric.
    pub fn unit(self, unit: &str) -> (r: Self)
        ensures
            r.unit@ == unit@,
            r.name == self.name,
            r.description == self.description,
            r.label_keys == self.label_keys,
            r.constant_labels == self.constant_labels,
            r.component == self.component,
            r.resource == self.resource,
    {
        let mut next = self;
        next.unit = unit.to_owned();
        next
    }

    /// Sets the label keys of the metric.
    pub fn label_keys(self, label_keys: Vec<LabelKey>) -> (r: Self)
        ensures
            r.label_keys == label_keys,
            r.name == self.name,
            r.description == self.description,
            r.unit == self.unit,
            r.constant_labels == self.constant_labels,
            r.component == self.component,
            r.resource == self.resource,
    {
        let mut next = self;
        next.label_keys = label_keys;
        next
    }

    /// Sets the labels that every series of the metric has. The builder
    /// holds each key once: where a key is given more than once, its last
    /// value counts.
    pub fn constant_labels(self, constant_labels: Vec<(LabelKey, LabelValue)>) -> (r: Self)
        ensures
            r.spec_well_formed(),
            map_of(constant_pairs(r.constant_labels@)) == map_of(
                constant_pairs(constant_labels@),
            ),
            distinct_keys(constant_pairs(constant_labels@)) ==> constant_pairs(
                r.constant_labels@,
            ) == constant_pairs(constant_labels@),
            r.name == self.name,
            r.description == self.description,
            r.unit == self.unit,
            r.label_keys == self.label_keys,
            r.component == self.component,
            r.resource == self.resource,
    {
        let ghost given = constant_pairs(constant_labels@);
        let mut kept: Vec<(LabelKey, LabelValue)> = Vec::new();
        let mut i: usize = 0;
        while i < constant_labels.len()
            invariant
                i <= constant_labels.len(),
                given == constant_pairs(constant_labels@),
                distinct_keys(constant_pairs(kept@)),
                map_of(constant_pairs(kept@)) == map_of(given.subrange(0, i as int)),
                distinct_keys(given) ==> constant_pairs(kept@) == given.subrange(0, i as int),
            decreases constant_labels.len() - i,
        {
            let ghost before = constant_pairs(kept@);
            let key = constant_labels[i].0.clone();
            let value = constant_labels[i].1.clone();
            proof {
                let seen = given.subrange(0, i as int);
                let next = given.subrange(0, i + 1);
                assert(next.drop_last() =~= seen);
                assert(next.last() == given[i as int]);
                if distinct_keys(given) {
                    lemma_map_of_keys(seen, key@);
                    if map_of(seen).contains_key(key@) {
                        let j = choose|j: int|
                            0 <= j < seen.len() && (#[trigger] seen[j]).0 == key@;
                        assert(given[j].0 != given[i as int].0);
                    }
                }
            }
            put_constant_label(&mut kept, key, value);
            proof {
                if distinct_keys(given) {
                    assert(constant_pairs(kept@) =~= given.subrange(0, i + 1));
                }
            }
            i = i + 1;
        }
        proof {
            assert(given.subrange(0, i as int) =~= given);
        }
        let mut next = self;
        next.constant_labels = kept;
        next
    }

    /// Sets the name of the component that reports the metric.
    pub fn component(self, component: &str) -> (r: Self)
        ensures
            r.component is Some,
            r.component->Some_0@ == component@,
            r.name == self.name,
            r.description == self.description,
            r.unit == self.unit,
            r.label_keys == self.label_keys,
            r.constant_labels == self.constant_labels,
            r.resource == self.resource,
    {
        let mut next = self;
        next.component = Some(component.to_owned());
        next
    }

    /// Sets the resource of the metric.
    pub fn resource(self, resource: Resource) -> (r: Self)
        ensures
            r.resource == Some(resource),
            r.name == self.name,
            r.description == self.description,
            r.unit == self.unit,
            r.label_keys == self.label_keys,
            r.constant_labels == self.constant_labels,
            r.component == self.component,
    {
        let mut next = self;
        next.resource = Some(resource);
        next
    }

    /// Hands the description to the backend, which makes the metric or
    /// refuses it.
    pub fn build(self) -> (r: Result<M, M::Error>)
        ensures
            call_ensures(M::build, (self,), r),
    {
        M::build(self)
    }
}

} // verus!
