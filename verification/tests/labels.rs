use std::sync::Arc;

use equistore::data::DataArray;
use equistore::labels::{LabelValue, Labels, LabelsBuilder};

fn row(values: Vec<i32>) -> Vec<LabelValue> {
    values.iter().map(|v| LabelValue::new(*v)).collect()
}

#[test]
fn labels_keep_insertion_order() {
    let mut builder =
        LabelsBuilder::new(vec!["structure".to_string(), "atom".to_string()]).unwrap();
    builder.add(&row(vec![0, 4])).unwrap();
    builder.add(&row(vec![0, 1])).unwrap();
    builder.add(&row(vec![2, -3])).unwrap();
    let labels = builder.finish();

    assert_eq!(labels.size(), 2);
    assert_eq!(labels.count(), 3);
    assert_eq!(*labels.names(), ["structure", "atom"]);

    // rows come out in insertion order, not sorted
    assert_eq!(*labels.row(0), row(vec![0, 4]));
    assert_eq!(*labels.row(1), row(vec![0, 1]));
    assert_eq!(*labels.row(2), row(vec![2, -3]));

    // restarting iteration yields the identical sequence
    let first: Vec<Vec<LabelValue>> = labels.iter().clone();
    let second: Vec<Vec<LabelValue>> = labels.iter().clone();
    assert_eq!(first, second);
    assert_eq!(first, vec![row(vec![0, 4]), row(vec![0, 1]), row(vec![2, -3])]);

    // reverse lookup finds each row at its position
    assert_eq!(labels.position(&row(vec![0, 4])), Some(0));
    assert_eq!(labels.position(&row(vec![2, -3])), Some(2));
    assert_eq!(labels.position(&row(vec![1, 1])), None);
}

#[test]
fn builder_rejects_duplicate_names() {
    let result = LabelsBuilder::new(vec!["atom".to_string(), "atom".to_string()]);
    assert_eq!(
        result.unwrap_err().message(),
        "invalid parameter: label dimension 'atom' appears more than once in the names"
    );
}

#[test]
fn builder_rejects_bad_rows() {
    let mut builder = LabelsBuilder::new(vec!["atom".to_string()]).unwrap();
    builder.add(&row(vec![7])).unwrap();

    let result = builder.add(&row(vec![1, 2]));
    assert_eq!(
        result.unwrap_err().message(),
        "invalid parameter: label entry has 2 values but we have 1 dimension names"
    );

    let result = builder.add(&row(vec![7]));
    assert_eq!(
        result.unwrap_err().message(),
        "invalid parameter: can not have the same label entry multiple times"
    );

    // the failed additions left the labels unchanged
    let labels = builder.finish();
    assert_eq!(labels.count(), 1);
    assert_eq!(*labels.row(0), row(vec![7]));
}

#[test]
fn single_labels_have_no_columns() {
    let single = Labels::single();
    assert_eq!(single.size(), 0);
    assert_eq!(single.count(), 1);
    assert!(single.names().is_empty());
    assert!(single.row(0).is_empty());
}

#[test]
fn label_values_hold_plain_integers() {
    let value = LabelValue::new(-17);
    assert_eq!(value.value(), -17);
    assert_eq!(value, LabelValue::new(-17));
    assert!(LabelValue::new(1) < LabelValue::new(2));
}

#[test]
fn shared_labels_are_the_same_relation() {
    let mut builder = LabelsBuilder::new(vec!["key".to_string()]).unwrap();
    builder.add(&row(vec![3])).unwrap();
    let labels = Arc::new(builder.finish());
    let shared = Arc::clone(&labels);
    assert_eq!(*shared.row(0), *labels.row(0));
    assert_eq!(*shared.names(), *labels.names());
}

#[test]
fn arrays_expose_shape_and_origin() {
    let mut array = DataArray::new(42, vec![2, 3, 4]);
    assert_eq!(array.origin(), 42);
    assert_eq!(*array.shape(), vec![2, 3, 4]);

    array.swap_axes(0, 2).unwrap();
    assert_eq!(*array.shape(), vec![4, 3, 2]);

    let result = array.swap_axes(0, 7);
    assert_eq!(
        result.unwrap_err().message(),
        "invalid parameter: axis 7 is out of bounds for an array with 3 dimensions"
    );
    assert_eq!(*array.shape(), vec![4, 3, 2]);

    array.reshape(vec![12, 2]).unwrap();
    assert_eq!(*array.shape(), vec![12, 2]);

    let copy = array.try_clone().unwrap();
    assert_eq!(*copy.shape(), vec![12, 2]);
    assert_eq!(copy.origin(), 42);
}
