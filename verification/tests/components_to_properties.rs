use std::sync::Arc;

use equistore::blocks::TensorBlock;
use equistore::data::DataArray;
use equistore::labels::{LabelValue, Labels, LabelsBuilder};
use equistore::tensor::TensorMap;

fn example_labels(names: Vec<&str>, rows: Vec<Vec<i32>>) -> Arc<Labels> {
    let names: Vec<String> = names.iter().map(|n| n.to_string()).collect();
    let mut builder = LabelsBuilder::new(names).unwrap();
    for row in rows {
        let row: Vec<LabelValue> = row.iter().map(|v| LabelValue::new(*v)).collect();
        builder.add(&row).unwrap();
    }
    Arc::new(builder.finish())
}

#[test]
fn one_component() {
    let mut block = TensorBlock::new(
        DataArray::new(0, vec![3, 2, 3]),
        example_labels(vec!["samples"], vec![vec![0], vec![1], vec![2]]),
        vec![example_labels(vec!["components"], vec![vec![0], vec![1]])],
        example_labels(vec!["properties"], vec![vec![0], vec![1], vec![2]]),
    )
    .unwrap();

    block
        .add_gradient(
            "parameter",
            DataArray::new(0, vec![2, 2, 3]),
            example_labels(vec!["sample", "parameter"], vec![vec![0, 2], vec![1, 2]]),
            vec![example_labels(vec!["components"], vec![vec![0], vec![1]])],
        )
        .unwrap();

    let tensor = TensorMap::new(Arc::new(Labels::single()), vec![block]).unwrap();
    let tensor = tensor.components_to_properties(&vec!["components".to_string()]).unwrap();

    let block = tensor.block_by_id(0);
    let values = block.values();
    assert_eq!(*values.samples.names(), ["samples"]);
    assert_eq!(values.samples.count(), 3);
    assert_eq!(*values.samples.row(0), [LabelValue::new(0)]);
    assert_eq!(*values.samples.row(1), [LabelValue::new(1)]);
    assert_eq!(*values.samples.row(2), [LabelValue::new(2)]);

    assert_eq!(values.components.len(), 0);

    assert_eq!(*values.properties.names(), ["components", "properties"]);
    assert_eq!(values.properties.count(), 6);
    assert_eq!(*values.properties.row(0), [LabelValue::new(0), LabelValue::new(0)]);
    assert_eq!(*values.properties.row(1), [LabelValue::new(0), LabelValue::new(1)]);
    assert_eq!(*values.properties.row(2), [LabelValue::new(0), LabelValue::new(2)]);
    assert_eq!(*values.properties.row(3), [LabelValue::new(1), LabelValue::new(0)]);
    assert_eq!(*values.properties.row(4), [LabelValue::new(1), LabelValue::new(1)]);
    assert_eq!(*values.properties.row(5), [LabelValue::new(1), LabelValue::new(2)]);

    assert_eq!(*values.data.shape(), vec![3, 6]);

    let gradient = block.gradient("parameter").unwrap();
    assert_eq!(*gradient.samples.names(), ["sample", "parameter"]);
    assert_eq!(gradient.samples.count(), 2);
    assert_eq!(*gradient.samples.row(0), [LabelValue::new(0), LabelValue::new(2)]);
    assert_eq!(*gradient.samples.row(1), [LabelValue::new(1), LabelValue::new(2)]);

    assert_eq!(*gradient.data.shape(), vec![2, 6]);
}

#[test]
fn multiple_components() {
    let data = DataArray::new(0, vec![2, 2, 3, 2]);

    let components = vec![
        example_labels(vec!["component_1"], vec![vec![0], vec![1]]),
        example_labels(vec!["component_2"], vec![vec![0], vec![1], vec![2]]),
    ];

    let mut block = TensorBlock::new(
        data,
        example_labels(vec!["samples"], vec![vec![0], vec![1]]),
        components.clone(),
        example_labels(vec!["properties"], vec![vec![0], vec![1]]),
    )
    .unwrap();

    block
        .add_gradient(
            "parameter",
            DataArray::new(0, vec![3, 2, 3, 2]),
            example_labels(
                vec!["sample", "parameter"],
                vec![vec![0, 2], vec![0, 3], vec![1, 2]],
            ),
            components,
        )
        .unwrap();

    let tensor = TensorMap::new(Arc::new(Labels::single()), vec![block]).unwrap();
    let tensor = tensor.components_to_properties(&vec!["component_1".to_string()]).unwrap();

    let block = tensor.block_by_id(0);
    let values = block.values();
    assert_eq!(*values.samples.names(), ["samples"]);
    assert_eq!(values.samples.count(), 2);
    assert_eq!(*values.samples.row(0), [LabelValue::new(0)]);
    assert_eq!(*values.samples.row(1), [LabelValue::new(1)]);

    assert_eq!(values.components.len(), 1);
    assert_eq!(*values.components.get(0).names(), ["component_2"]);
    assert_eq!(values.components.get(0).count(), 3);
    assert_eq!(*values.components.get(0).row(0), [LabelValue::new(0)]);
    assert_eq!(*values.components.get(0).row(1), [LabelValue::new(1)]);
    assert_eq!(*values.components.get(0).row(2), [LabelValue::new(2)]);

    assert_eq!(*values.properties.names(), ["component_1", "properties"]);
    assert_eq!(values.properties.count(), 4);
    assert_eq!(*values.properties.row(0), [LabelValue::new(0), LabelValue::new(0)]);
    assert_eq!(*values.properties.row(1), [LabelValue::new(0), LabelValue::new(1)]);
    assert_eq!(*values.properties.row(2), [LabelValue::new(1), LabelValue::new(0)]);
    assert_eq!(*values.properties.row(3), [LabelValue::new(1), LabelValue::new(1)]);

    assert_eq!(*values.data.shape(), vec![2, 3, 4]);

    let gradient = block.gradient("parameter").unwrap();
    assert_eq!(*gradient.samples.names(), ["sample", "parameter"]);
    assert_eq!(gradient.samples.count(), 3);
    assert_eq!(*gradient.samples.row(0), [LabelValue::new(0), LabelValue::new(2)]);
    assert_eq!(*gradient.samples.row(1), [LabelValue::new(0), LabelValue::new(3)]);
    assert_eq!(*gradient.samples.row(2), [LabelValue::new(1), LabelValue::new(2)]);

    assert_eq!(*gradient.data.shape(), vec![3, 3, 4]);
}

#[test]
fn extra_gradient_components_survive_migration() {
    let component = example_labels(vec!["component"], vec![vec![0], vec![1]]);
    let mut block = TensorBlock::new(
        DataArray::new(0, vec![4, 2, 3]),
        example_labels(vec!["samples"], vec![vec![0], vec![1], vec![2], vec![3]]),
        vec![component.clone()],
        example_labels(vec!["properties"], vec![vec![0], vec![1], vec![2]]),
    )
    .unwrap();

    // the gradient prepends one extra component of its own
    let component_2 = example_labels(vec!["component_2"], vec![vec![0], vec![1], vec![2]]);
    block
        .add_gradient(
            "parameter",
            DataArray::new(0, vec![2, 3, 2, 3]),
            example_labels(vec!["sample"], vec![vec![0], vec![1]]),
            vec![component_2, component],
        )
        .unwrap();

    block.components_to_properties(&vec!["component".to_string()]).unwrap();

    let values = block.values();
    assert_eq!(values.components.len(), 0);
    assert_eq!(*values.properties.names(), ["component", "properties"]);
    assert_eq!(values.properties.count(), 6);
    assert_eq!(*values.data.shape(), vec![4, 6]);

    // the extra gradient component stays; the shared one moved for the
    // gradient exactly as it did for the values
    let gradient = block.gradient("parameter").unwrap();
    assert_eq!(gradient.components.len(), 1);
    assert_eq!(*gradient.components.get(0).names(), ["component_2"]);
    assert_eq!(*gradient.properties.names(), ["component", "properties"]);
    assert_eq!(gradient.properties.count(), 6);
    assert_eq!(*gradient.data.shape(), vec![2, 3, 6]);
}

#[test]
fn empty_dimension_list_is_a_no_op() {
    let mut block = TensorBlock::new(
        DataArray::new(0, vec![3, 2, 3]),
        example_labels(vec!["samples"], vec![vec![0], vec![1], vec![2]]),
        vec![example_labels(vec!["components"], vec![vec![0], vec![1]])],
        example_labels(vec!["properties"], vec![vec![0], vec![1], vec![2]]),
    )
    .unwrap();

    block.components_to_properties(&Vec::new()).unwrap();
    assert_eq!(*block.values().data.shape(), vec![3, 2, 3]);
    assert_eq!(block.values().components.len(), 1);
    assert_eq!(*block.values().properties.names(), ["properties"]);
}

#[test]
fn missing_component_is_rejected() {
    let mut block = TensorBlock::new(
        DataArray::new(0, vec![3, 2, 3]),
        example_labels(vec!["samples"], vec![vec![0], vec![1], vec![2]]),
        vec![example_labels(vec!["components"], vec![vec![0], vec![1]])],
        example_labels(vec!["properties"], vec![vec![0], vec![1], vec![2]]),
    )
    .unwrap();

    let result = block.components_to_properties(&vec!["missing".to_string()]);
    assert_eq!(
        result.unwrap_err().message(),
        "invalid parameter: unable to find [missing] in the components"
    );
    // the failed operation left the block untouched
    assert_eq!(*block.values().data.shape(), vec![3, 2, 3]);
    assert_eq!(block.values().components.len(), 1);
}

#[test]
fn clashing_property_name_is_rejected() {
    // the moved component's column is already a property column
    let mut block = TensorBlock::new(
        DataArray::new(0, vec![3, 2, 3]),
        example_labels(vec!["samples"], vec![vec![0], vec![1], vec![2]]),
        vec![example_labels(vec!["properties"], vec![vec![0], vec![1]])],
        example_labels(vec!["properties"], vec![vec![0], vec![1], vec![2]]),
    )
    .unwrap();

    let result = block.components_to_properties(&vec!["properties".to_string()]);
    assert_eq!(
        result.unwrap_err().message(),
        "invalid parameter: label dimension 'properties' appears more than \
        once in the names"
    );
    assert_eq!(*block.values().data.shape(), vec![3, 2, 3]);
}

#[test]
fn wrong_blocks_count_is_rejected() {
    let block = TensorBlock::new(
        DataArray::new(0, vec![1, 1]),
        example_labels(vec!["samples"], vec![vec![0]]),
        vec![],
        example_labels(vec!["properties"], vec![vec![0]]),
    )
    .unwrap();

    let result = TensorMap::new(Arc::new(Labels::single()), vec![]);
    assert_eq!(
        result.unwrap_err().message(),
        "invalid parameter: the number of blocks (0) must match the number \
        of key entries (1)"
    );

    let keys = example_labels(vec!["key"], vec![vec![0]]);
    let map = TensorMap::new(keys, vec![block]).unwrap();
    assert_eq!(map.blocks_count(), 1);
}
