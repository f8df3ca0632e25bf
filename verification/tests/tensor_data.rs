use batched_matmul::tensor::{NdArrayTensor, TensorData};

#[test]
fn should_support_into_and_from_data_1d() {
    let data_expected = TensorData { value: vec![10i64, -20, 30], shape: vec![3usize] };
    let tensor = NdArrayTensor::from_data(data_expected.clone());

    let data_actual = tensor.into_data();

    assert_eq!(data_expected, data_actual);
}

#[test]
fn should_support_into_and_from_data_2d() {
    let value: Vec<i64> = (0..6).map(|x: i64| 3 * x - 7).collect();
    let data_expected = TensorData { value, shape: vec![2usize, 3] };
    let tensor = NdArrayTensor::from_data(data_expected.clone());

    let data_actual = tensor.into_data();

    assert_eq!(data_expected, data_actual);
}

#[test]
fn should_support_into_and_from_data_3d() {
    let value: Vec<i64> = (0..24).map(|x: i64| x * x - 11 * x).collect();
    let data_expected = TensorData { value, shape: vec![2usize, 3, 4] };
    let tensor = NdArrayTensor::from_data(data_expected.clone());

    let data_actual = tensor.into_data();

    assert_eq!(data_expected, data_actual);
}

#[test]
fn should_support_into_and_from_data_4d() {
    let value: Vec<i64> = (0..48).map(|x: i64| 17 - x * 5).collect();
    let data_expected = TensorData { value, shape: vec![2usize, 3, 4, 2] };
    let tensor = NdArrayTensor::from_data(data_expected.clone());

    let data_actual = tensor.into_data();

    assert_eq!(data_expected, data_actual);
}

#[test]
fn shape_returns_the_extents() {
    let tensor = NdArrayTensor::from_data(TensorData {
        value: (0..24).map(|x: i64| x).collect(),
        shape: vec![2usize, 3, 4],
    });
    assert_eq!(tensor.shape(), vec![2usize, 3, 4]);
}
