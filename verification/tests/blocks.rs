use std::sync::Arc;

use equistore::blocks::TensorBlock;
use equistore::data::DataArray;
use equistore::labels::{LabelValue, Labels, LabelsBuilder};

fn example_labels(name: &str, count: usize) -> Arc<Labels> {
    let mut labels = LabelsBuilder::new(vec![name.to_string()]).unwrap();
    let mut i: usize = 0;
    while i < count {
        labels.add(&vec![LabelValue::new(i as i32)]).unwrap();
        i += 1;
    }
    Arc::new(labels.finish())
}

#[test]
fn no_components() {
    let samples = example_labels("samples", 4);
    let properties = example_labels("properties", 7);
    let data = DataArray::new(0, vec![4, 7]);
    let result = TensorBlock::new(data, samples.clone(), Vec::new(), properties.clone());
    assert!(result.is_ok());

    let data = DataArray::new(0, vec![3, 7]);
    let result = TensorBlock::new(data, samples.clone(), Vec::new(), properties.clone());
    assert_eq!(
        result.unwrap_err().message(),
        "invalid parameter: data and labels don't match: the array shape \
        along axis 0 is 3 but we have 4 sample labels"
    );

    let data = DataArray::new(0, vec![4, 9]);
    let result = TensorBlock::new(data, samples.clone(), Vec::new(), properties.clone());
    assert_eq!(
        result.unwrap_err().message(),
        "invalid parameter: data and labels don't match: the array shape \
        along axis 1 is 9 but we have 7 properties labels"
    );

    let data = DataArray::new(0, vec![4, 1, 7]);
    let result = TensorBlock::new(data, samples, Vec::new(), properties);
    assert_eq!(
        result.unwrap_err().message(),
        "invalid parameter: data and labels don't match: the array has \
        3 dimensions, but we have 2 separate labels"
    );
}

#[test]
fn blocks_multiple_components() {
    let component_1 = example_labels("component_1", 4);
    let component_2 = example_labels("component_2", 3);

    let samples = example_labels("samples", 3);
    let properties = example_labels("properties", 2);
    let data = DataArray::new(0, vec![3, 4, 2]);
    let components = vec![Arc::clone(&component_1)];
    let result = TensorBlock::new(data, samples.clone(), components, properties.clone());
    assert!(result.is_ok());

    let data = DataArray::new(0, vec![3, 4, 3, 2]);
    let components = vec![Arc::clone(&component_1), Arc::clone(&component_2)];
    let result = TensorBlock::new(data, samples.clone(), components, properties.clone());
    assert!(result.is_ok());

    let data = DataArray::new(0, vec![3, 4, 2]);
    let components = vec![Arc::clone(&component_1), Arc::clone(&component_2)];
    let result = TensorBlock::new(data, samples.clone(), components, properties.clone());
    assert_eq!(
        result.unwrap_err().message(),
        "invalid parameter: data and labels don't match: the array has 3 \
        dimensions, but we have 4 separate labels"
    );

    let data = DataArray::new(0, vec![3, 4, 4, 2]);
    let components = vec![Arc::clone(&component_1), Arc::clone(&component_2)];
    let result = TensorBlock::new(data, samples.clone(), components, properties.clone());
    assert_eq!(
        result.unwrap_err().message(),
        "invalid parameter: data and labels don't match: the array shape \
        along axis 2 is 4 but we have 3 entries for the corresponding component"
    );

    let data = DataArray::new(0, vec![3, 4, 4, 2]);
    let components = vec![Arc::clone(&component_1), Arc::clone(&component_1)];
    let result = TensorBlock::new(data, samples.clone(), components, properties.clone());
    assert_eq!(
        result.unwrap_err().message(),
        "invalid parameter: data and labels don't match: some of the \
        component names appear more than once in component labels"
    );

    let data = DataArray::new(0, vec![3, 1, 2]);
    let mut components = LabelsBuilder::new(vec![
        "component_1".to_string(),
        "component_2".to_string(),
    ])
    .unwrap();
    components.add(&vec![LabelValue::new(0), LabelValue::new(1)]).unwrap();

    let result = TensorBlock::new(
        data,
        samples,
        vec![Arc::new(components.finish())],
        properties,
    );
    assert_eq!(
        result.unwrap_err().message(),
        "invalid parameter: component labels must have a single dimension, \
        got 2: [component_1, component_2] for component 0"
    );
}

#[test]
fn values_without_components() {
    let samples = example_labels("samples", 4);
    let properties = example_labels("properties", 7);
    let data = DataArray::new(0, vec![4, 7]);
    let mut block = TensorBlock::new(data, samples, vec![], properties).unwrap();
    assert!(block.gradients().is_empty());

    let gradient = DataArray::new(0, vec![3, 7]);
    let mut gradient_samples =
        LabelsBuilder::new(vec!["sample".to_string(), "foo".to_string()]).unwrap();
    gradient_samples.add(&vec![LabelValue::new(0), LabelValue::new(0)]).unwrap();
    gradient_samples.add(&vec![LabelValue::new(1), LabelValue::new(1)]).unwrap();
    gradient_samples.add(&vec![LabelValue::new(3), LabelValue::new(-2)]).unwrap();
    let gradient_samples = Arc::new(gradient_samples.finish());
    block.add_gradient("foo", gradient, gradient_samples, vec![]).unwrap();

    let gradient = DataArray::new(0, vec![3, 5, 7]);
    let gradient_samples = example_labels("sample", 3);
    let component = example_labels("component", 5);
    block.add_gradient("component", gradient, gradient_samples, vec![component]).unwrap();

    let mut gradients_list: Vec<String> =
        block.gradients().iter().map(|(name, _)| name.clone()).collect();
    gradients_list.sort_unstable();
    assert_eq!(gradients_list, ["component", "foo"]);

    let basic_block = block.gradient("foo").unwrap();
    assert_eq!(*basic_block.samples.names(), ["sample", "foo"]);
    assert!(basic_block.components.is_empty());
    assert_eq!(*basic_block.properties.names(), ["properties"]);

    let basic_block = block.gradient("component").unwrap();
    assert_eq!(*basic_block.samples.names(), ["sample"]);
    assert_eq!(basic_block.components.len(), 1);
    assert_eq!(*basic_block.components.get(0).names(), ["component"]);
    assert_eq!(*basic_block.properties.names(), ["properties"]);

    assert!(block.gradient("baz").is_none());
}

#[test]
fn values_with_components() {
    let samples = example_labels("samples", 4);
    let component = example_labels("component", 5);
    let properties = example_labels("properties", 7);
    let data = DataArray::new(0, vec![4, 5, 7]);
    let mut block = TensorBlock::new(data, samples, vec![component.clone()], properties).unwrap();

    let gradient = DataArray::new(0, vec![3, 5, 7]);
    let gradient_samples = example_labels("sample", 3);
    let result = block.add_gradient(
        "basic",
        gradient,
        gradient_samples.clone(),
        vec![component.clone()],
    );
    assert!(result.is_ok());

    let gradient = DataArray::new(0, vec![3, 3, 5, 7]);
    let component_2 = example_labels("component_2", 3);
    let components = vec![component_2.clone(), component.clone()];
    let result = block.add_gradient("components", gradient, gradient_samples.clone(), components);
    assert!(result.is_ok());

    let gradient = DataArray::new(0, vec![3, 3, 5, 7]);
    let components = vec![component, component_2];
    let result = block.add_gradient("wrong", gradient, gradient_samples, components);
    assert_eq!(
        result.unwrap_err().message(),
        "invalid parameter: gradients and values components mismatch \
        for values component 0 (the corresponding names are [component])"
    );
}

#[test]
fn gradient_validation() {
    let samples = example_labels("samples", 4);
    let properties = example_labels("properties", 7);
    let data = DataArray::new(0, vec![4, 7]);
    let mut block = TensorBlock::new(data, samples, vec![], properties).unwrap();

    let gradient_samples = example_labels("sample", 3);

    // a gradient from another backend origin is rejected
    let gradient = DataArray::new(1, vec![3, 7]);
    let result = block.add_gradient("foo", gradient, gradient_samples.clone(), vec![]);
    assert_eq!(
        result.unwrap_err().message(),
        "invalid parameter: the gradient array has a different origin ('1') \
        than the value array ('0')"
    );

    // a gradient parameter name can not be empty
    let gradient = DataArray::new(0, vec![3, 7]);
    let result = block.add_gradient("", gradient, gradient_samples.clone(), vec![]);
    assert_eq!(
        result.unwrap_err().message(),
        "invalid parameter: gradient parameter name can not be empty"
    );

    // the parameter name 'values' is reserved
    let gradient = DataArray::new(0, vec![3, 7]);
    let result = block.add_gradient("values", gradient, gradient_samples.clone(), vec![]);
    assert_eq!(
        result.unwrap_err().message(),
        "invalid parameter: can not store gradient with respect to 'values'"
    );

    // gradient samples must have at least one column
    let gradient = DataArray::new(0, vec![1, 7]);
    let result = block.add_gradient(
        "foo",
        gradient,
        Arc::new(Labels::single()),
        vec![],
    );
    assert_eq!(
        result.unwrap_err().message(),
        "invalid parameter: gradients samples must have at least one \
        dimension named 'sample', we got none"
    );

    // the first gradient sample column must be named 'sample'
    let gradient = DataArray::new(0, vec![3, 7]);
    let bad_samples = example_labels("foo", 3);
    let result = block.add_gradient("foo", gradient, bad_samples, vec![]);
    assert_eq!(
        result.unwrap_err().message(),
        "invalid parameter: 'foo' is not valid for the first dimension in \
        the gradients samples labels. It must be 'sample'"
    );

    // a gradient can not declare fewer components than the values
    let samples = example_labels("samples", 4);
    let component = example_labels("component", 5);
    let properties = example_labels("properties", 7);
    let data = DataArray::new(0, vec![4, 5, 7]);
    let mut with_components =
        TensorBlock::new(data, samples, vec![component], properties).unwrap();
    let gradient = DataArray::new(0, vec![3, 7]);
    let result = with_components.add_gradient("foo", gradient, gradient_samples.clone(), vec![]);
    assert_eq!(
        result.unwrap_err().message(),
        "invalid parameter: gradients components should contain at least as \
        many labels as the values components"
    );

    // adding the same parameter twice is rejected
    let gradient = DataArray::new(0, vec![3, 7]);
    block
        .add_gradient("foo", gradient, gradient_samples.clone(), vec![])
        .unwrap();
    let gradient = DataArray::new(0, vec![3, 7]);
    let result = block.add_gradient("foo", gradient, gradient_samples, vec![]);
    assert_eq!(
        result.unwrap_err().message(),
        "invalid parameter: gradient with respect to 'foo' already exists for this block"
    );
}

#[test]
fn gradient_parameters_in_insertion_order() {
    let samples = example_labels("samples", 4);
    let properties = example_labels("properties", 7);
    let data = DataArray::new(0, vec![4, 7]);
    let mut block = TensorBlock::new(data, samples, vec![], properties).unwrap();

    let gradient_samples = example_labels("sample", 2);
    block
        .add_gradient(
            "zeta",
            DataArray::new(0, vec![2, 7]),
            gradient_samples.clone(),
            vec![],
        )
        .unwrap();
    block
        .add_gradient(
            "alpha",
            DataArray::new(0, vec![2, 7]),
            gradient_samples,
            vec![],
        )
        .unwrap();

    assert_eq!(block.gradient_parameters_c(), ["zeta", "alpha"]);
}

#[test]
fn mutable_access() {
    let samples = example_labels("samples", 4);
    let properties = example_labels("properties", 7);
    let data = DataArray::new(0, vec![4, 7]);
    let mut block = TensorBlock::new(data, samples, vec![], properties).unwrap();
    let gradient_samples = example_labels("sample", 2);
    block
        .add_gradient(
            "foo",
            DataArray::new(0, vec![2, 7]),
            gradient_samples,
            vec![],
        )
        .unwrap();

    let values = block.values_mut();
    values.data.reshape(vec![28]).unwrap();
    assert_eq!(*block.values().data.shape(), vec![28]);

    let gradient = block.gradient_mut("foo").unwrap();
    gradient.data.reshape(vec![14]).unwrap();
    assert_eq!(*block.gradient("foo").unwrap().data.shape(), vec![14]);

    assert!(block.gradient_mut("bar").is_none());
}

#[test]
fn cloning_blocks() {
    let samples = example_labels("samples", 4);
    let properties = example_labels("properties", 7);
    let data = DataArray::new(0, vec![4, 7]);
    let mut block = TensorBlock::new(data, samples, vec![], properties).unwrap();
    let gradient_samples = example_labels("sample", 2);
    block
        .add_gradient(
            "foo",
            DataArray::new(0, vec![2, 7]),
            gradient_samples,
            vec![],
        )
        .unwrap();

    let copy = block.try_clone().unwrap();
    assert_eq!(*copy.values().data.shape(), vec![4, 7]);
    assert_eq!(copy.values().data.origin(), 0);
    assert_eq!(*copy.values().samples.names(), ["samples"]);
    assert_eq!(*copy.gradient("foo").unwrap().data.shape(), vec![2, 7]);
}
