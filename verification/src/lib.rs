//! A minimal feed-forward computation engine: an ordered pipeline of
//! shape-checked transformation stages (valid-mode 2-D convolution, dense
//! affine projection, rectified-linear activation, softmax normalization)
//! that maps one flat row-major activation buffer to another.
//!
//! Activation values and coefficients are signed binary fixed-point numbers:
//! an `i64` holds the real value times [`SCALE`] (`65536`), so `1.0` is
//! written `SCALE`. Multiplication truncates toward zero and saturates at the
//! `i64` range; addition saturates likewise. Every contract states the result
//! of a computation exactly over these operations.
//!
//! Design choices documented up front:
//! - Convolution does not normalize: the accumulated sum is returned as is,
//!   never divided by the kernel's element count.
//! - Softmax clamps its exponent argument to `[-16.0, 16.0]` before
//!   exponentiating, which bounds the intermediate weights in place of the
//!   usual maximum-subtraction stabilization; the exponential is a Taylor
//!   polynomial combined with integer powers of `e`, and is floored at the
//!   smallest positive fixed-point value so a weight is never zero. Each
//!   normalized output is floored at that smallest positive value in turn,
//!   so every softmax output is strictly positive and the outputs sum to
//!   `1.0` within one fixed-point unit per element.
//! - Stages bind once: a stage's input shape is fixed when it is appended to
//!   a pipeline, and no rebinding operation is exposed.
//!
//! Beside the engine, a small decoder turns the classic big-endian sample
//! archives (one for images, one for labels) into plain pixel and label
//! buffers; a host scales pixels into fixed point and feeds them through a
//! pipeline.

mod dataset;
mod error;
mod fixed;
mod laws;
mod pipeline;
mod shape;
mod stage;

pub use dataset::parse_images;
pub use dataset::parse_labels;
pub use dataset::DatasetError;
pub use dataset::ImageSet;
pub use dataset::IMAGE_MAGIC;
pub use dataset::LABEL_MAGIC;
pub use error::Error;
pub use fixed::add_sat;
pub use fixed::exp_fixed;
pub use fixed::mul_fixed;
pub use fixed::E_FIXED;
pub use fixed::SCALE;
pub use laws::lemma_dense_zero_weights;
pub use laws::lemma_identity_convolution;
pub use laws::lemma_softmax_sum;
pub use laws::lemma_softmax_uniform;
pub use laws::lemma_zero_kernel_convolution;
pub use laws::sum_seq;
pub use pipeline::Observer;
pub use pipeline::Pipeline;
pub use pipeline::Recorder;
pub use shape::Shape;
pub use stage::ConvolutionStage;
pub use stage::DenseStage;
pub use stage::ReluStage;
pub use stage::SoftmaxStage;
pub use stage::Stage;
