pub mod tensor;

pub use crate::tensor::Tensor;
pub use crate::tensor::TensorError;
