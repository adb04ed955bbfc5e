use tensor::{Tensor, TensorError};

fn bits_of(values: &[f32]) -> Vec<u32> {
    values.iter().map(|v| v.to_bits()).collect()
}

fn floats_of(bits: &[u32]) -> Vec<f32> {
    bits.iter().map(|b| f32::from_bits(*b)).collect()
}

#[test]
fn it_works() {
    let result: i32 = 2 + 2;
    assert_eq!(result, 4);
}

#[test]
fn new_tensor() {
    let data: Vec<f32> = (0..12).map(|x| x as f32).collect();
    let shape: Vec<u32> = vec![2, 2, 3];
    let tensor = Tensor::new(&bits_of(&data), &shape).unwrap();
    for (i, val) in floats_of(tensor.data()).iter().enumerate() {
        assert_eq!(true, *val == data[i], "not equal at data element {}", i);
    }
    for (i, val) in tensor.shape().iter().enumerate() {
        assert_eq!(true, *val == shape[i], "not equal at shape element {}", i);
    }

    assert_eq!(3, tensor.offsets().len());
    assert_eq!(6, tensor.offsets()[0]);
    assert_eq!(3, tensor.offsets()[1]);
}

#[test]
fn new_bad_tensor() {
    let data: Vec<f32> = (0..12).map(|x| x as f32).collect();
    let shape: Vec<u32> = vec![4, 2, 3];
    assert_eq!(
        TensorError::WrongShapeError,
        Tensor::new(&bits_of(&data), &shape).unwrap_err()
    );
}

#[test]
fn zero_tensor() {
    let dim: Vec<u32> = vec![2, 2];
    let _zeros = Tensor::zeros(&dim);
}

#[test]
fn tensor_indexing_1d() {
    let data: Vec<f32> = (0..12).map(|x| x as f32).collect();
    let shape: Vec<u32> = vec![2, 2, 3];
    let tensor = Tensor::new(&bits_of(&data), &shape).unwrap();
    let new_tensor = tensor.at(&vec![1, 1, 0]).unwrap();
    assert_eq!(1, new_tensor.data().len());
    assert_eq!(9.0, f32::from_bits(new_tensor.data()[0]));
}

#[test]
fn tensor_indexing_md() {
    let data: Vec<f32> = (0..12).map(|x| x as f32).collect();
    let shape: Vec<u32> = vec![2, 2, 3];
    let tensor = Tensor::new(&bits_of(&data), &shape).unwrap();
    let new_tensor = tensor.at(&vec![1]).unwrap();

    let expected_shape: [u32; 2] = [2, 3];
    let expected_data: Vec<f32> = (6..12).map(|x| x as f32).collect();
    let got_data = floats_of(new_tensor.data());
    assert_eq!(
        0,
        expected_data
            .iter()
            .zip(got_data.iter())
            .filter(|&(a, b)| a != b)
            .count()
    );
    assert_eq!(
        0,
        expected_shape
            .iter()
            .zip(new_tensor.shape().iter())
            .filter(|&(a, b)| a != b)
            .count()
    );
}

#[test]
fn tensor_indexing_outoufbounds() {
    let data: Vec<f32> = (0..12).map(|x| x as f32).collect();
    let shape: Vec<u32> = vec![2, 2, 3];
    let tensor = Tensor::new(&bits_of(&data), &shape).unwrap();
    let new_tensor = tensor.at(&vec![1]).unwrap();

    let expected_shape: [u32; 2] = [2, 3];
    let expected_data: Vec<f32> = (6..12).map(|x| x as f32).collect();
    let got_data = floats_of(new_tensor.data());
    assert_eq!(
        0,
        expected_data
            .iter()
            .zip(got_data.iter())
            .filter(|&(a, b)| a != b)
            .count()
    );
    assert_eq!(
        0,
        expected_shape
            .iter()
            .zip(new_tensor.shape().iter())
            .filter(|&(a, b)| a != b)
            .count()
    );
}

#[test]
fn tensor_indexing_wrong_shape() {
    let data: Vec<f32> = (0..12).map(|x| x as f32).collect();
    let shape: Vec<u32> = vec![2, 2, 3];
    let tensor = Tensor::new(&bits_of(&data), &shape).unwrap();
    let tensor_err = tensor.at(&vec![2, 2, 2, 2]).unwrap_err();
    assert_eq!(TensorError::WrongShapeError, tensor_err);
}

#[test]
fn offsets_row_major() {
    let data: Vec<f32> = (0..12).map(|x| x as f32).collect();
    let shape: Vec<u32> = vec![2, 2, 3];
    let tensor = Tensor::new(&bits_of(&data), &shape).unwrap();
    assert_eq!(&vec![6, 3, 1], tensor.offsets());
}

#[test]
fn zeros_every_element_zero() {
    let dim: Vec<u32> = vec![2, 3];
    let zeros = Tensor::zeros(&dim).unwrap();
    assert_eq!(&vec![2, 3], zeros.shape());
    assert_eq!(6, zeros.data().len());
    for val in floats_of(zeros.data()) {
        assert_eq!(0.0, val);
    }
}

#[test]
fn full_index_scalar_shape() {
    let data: Vec<f32> = (0..12).map(|x| x as f32).collect();
    let shape: Vec<u32> = vec![2, 2, 3];
    let tensor = Tensor::new(&bits_of(&data), &shape).unwrap();
    let scalar = tensor.at(&vec![1, 1, 0]).unwrap();
    assert_eq!(&vec![1], scalar.shape());
    assert_eq!(vec![9.0], floats_of(scalar.data()));
}

#[test]
fn empty_index_copies_whole_tensor() {
    let data: Vec<f32> = (0..12).map(|x| x as f32).collect();
    let shape: Vec<u32> = vec![2, 2, 3];
    let tensor = Tensor::new(&bits_of(&data), &shape).unwrap();
    let copy = tensor.at(&vec![]).unwrap();
    assert_eq!(tensor.data(), copy.data());
    assert_eq!(tensor.shape(), copy.shape());
    assert_eq!(tensor.offsets(), copy.offsets());
}

#[test]
fn index_component_out_of_bounds() {
    let data: Vec<f32> = (0..12).map(|x| x as f32).collect();
    let shape: Vec<u32> = vec![2, 2, 3];
    let tensor = Tensor::new(&bits_of(&data), &shape).unwrap();
    assert_eq!(TensorError::OutOfBoundsError, tensor.at(&vec![2]).unwrap_err());
    assert_eq!(TensorError::OutOfBoundsError, tensor.at(&vec![1, 0, 3]).unwrap_err());
}

#[test]
fn slice_then_new_reproduces_slice() {
    let data: Vec<f32> = (0..12).map(|x| x as f32).collect();
    let shape: Vec<u32> = vec![2, 2, 3];
    let tensor = Tensor::new(&bits_of(&data), &shape).unwrap();
    let slice = tensor.at(&vec![0, 1]).unwrap();
    let rebuilt = Tensor::new(slice.data(), slice.shape()).unwrap();
    assert_eq!(slice.data(), rebuilt.data());
    assert_eq!(slice.shape(), rebuilt.shape());
    assert_eq!(slice.offsets(), rebuilt.offsets());
}

#[test]
fn rank_zero_tensor() {
    let tensor = Tensor::new(&vec![7u32], &vec![]).unwrap();
    assert_eq!(0, tensor.shape().len());
    assert_eq!(&vec![1], tensor.offsets());
    let copy = tensor.at(&vec![]).unwrap();
    assert_eq!(&vec![7u32], copy.data());
    assert_eq!(TensorError::WrongShapeError, tensor.at(&vec![0]).unwrap_err());
}

#[test]
fn zero_sized_dimension() {
    let tensor = Tensor::new(&vec![], &vec![0, 3]).unwrap();
    assert_eq!(0, tensor.data().len());
    assert_eq!(&vec![3, 1], tensor.offsets());
}

#[test]
fn element_count_too_large_for_machine() {
    let dim: Vec<u32> = vec![u32::MAX, u32::MAX, u32::MAX];
    assert_eq!(TensorError::WrongShapeError, Tensor::zeros(&dim).unwrap_err());
}

#[test]
fn stride_too_large_for_machine() {
    let shape: Vec<u32> = vec![0, 4_000_000_000, 4_000_000_000, 4_000_000_000];
    assert_eq!(
        TensorError::WrongShapeError,
        Tensor::new(&vec![], &shape).unwrap_err()
    );
}
