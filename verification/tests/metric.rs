use otel_context::metric::{LabelKey, LabelValue, Metric, MetricBuilder, TimeSeries};
use otel_context::resource::Resource;

#[derive(Default)]
struct Series;

impl TimeSeries for Series {
    type V = i64;

    fn add(&self, _delta: i64) {}

    fn set(&self, _val: i64) {}
}

#[derive(Debug, PartialEq)]
struct Named {
    name: String,
    unit: String,
}

impl Metric for Named {
    type Error = String;
    type TS = Series;

    fn timeseries(&self, _label_values: Vec<LabelValue>) -> Series {
        Series
    }

    fn default_timeseries(&self) -> Series {
        Series
    }

    fn remove_timeseries(&self, _label_values: Vec<LabelValue>) {}

    fn clear() {}

    fn build(mb: MetricBuilder<Self>) -> Result<Self, String> {
        if mb.name.is_empty() {
            Err("no name".to_string())
        } else {
            Ok(Named { name: mb.name, unit: mb.unit })
        }
    }
}

#[test]
fn metric_builder_starts_with_defaults() {
    let builder: MetricBuilder<Named> = MetricBuilder::new("jobs");
    assert_eq!(builder.name, "jobs");
    assert_eq!(builder.description, "");
    assert_eq!(builder.unit, "1");
    assert!(builder.label_keys.is_empty());
    assert!(builder.constant_labels.is_empty());
    assert_eq!(builder.component, None);
    assert!(builder.resource.is_none());
}

#[test]
fn metric_builder_sets_one_part_at_a_time() {
    let key = || LabelKey { key: "name".to_string(), description: "desc".to_string() };
    let value = || LabelValue { value: "work".to_string(), has_value: true };
    let resource =
        Resource::create(vec![("host".to_string(), "alpha".to_string())]).unwrap();
    let builder: MetricBuilder<Named> = MetricBuilder::new("jobs")
        .description("Processed jobs")
        .unit("By")
        .label_keys(vec![key()])
        .constant_labels(vec![(key(), value())])
        .component("queue")
        .resource(resource);
    assert_eq!(builder.name, "jobs");
    assert_eq!(builder.description, "Processed jobs");
    assert_eq!(builder.unit, "By");
    assert_eq!(builder.label_keys, vec![key()]);
    assert_eq!(builder.constant_labels, vec![(key(), value())]);
    assert_eq!(builder.component, Some("queue".to_string()));
    assert_eq!(builder.resource.unwrap().get("host"), Some("alpha"));
}

#[test]
fn metric_builder_hands_itself_to_the_backend() {
    let made = MetricBuilder::<Named>::new("jobs").unit("ms").build();
    assert_eq!(made, Ok(Named { name: "jobs".to_string(), unit: "ms".to_string() }));
    let refused = MetricBuilder::<Named>::new("").build();
    assert_eq!(refused, Err("no name".to_string()));
}

#[test]
fn constant_labels_hold_each_key_once() {
    let key = |k: &str, d: &str| LabelKey { key: k.to_string(), description: d.to_string() };
    let value = |v: &str| LabelValue { value: v.to_string(), has_value: true };
    let builder: MetricBuilder<Named> = MetricBuilder::new("jobs").constant_labels(vec![
        (key("zone", "where"), value("east")),
        (key("tier", "which"), value("gold")),
        (key("zone", "where"), value("west")),
        (key("zone", "other description"), value("north")),
    ]);
    assert_eq!(
        builder.constant_labels,
        vec![
            (key("zone", "where"), value("west")),
            (key("tier", "which"), value("gold")),
            (key("zone", "other description"), value("north")),
        ]
    );
    let emptied = builder.constant_labels(Vec::new());
    assert!(emptied.constant_labels.is_empty());
    assert_eq!(key("a", "b").clone(), key("a", "b"));
    assert_eq!(value("v").clone(), value("v"));
}
