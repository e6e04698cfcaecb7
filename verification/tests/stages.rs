use feedforward::ConvolutionStage;
use feedforward::DenseStage;
use feedforward::Error;
use feedforward::ReluStage;
use feedforward::Shape;
use feedforward::SoftmaxStage;
use feedforward::Stage;
use feedforward::SCALE;

#[test]
fn shape_product_counts_elements() {
    assert_eq!(Shape::new(28, 28).product(), 784);
    assert_eq!(Shape::new(0, 5).product(), 0);
    assert_eq!(Shape::new(3, 2).product(), 6);
}

#[test]
fn shape_subtract_componentwise() {
    assert_eq!(
        Shape::new(28, 28).subtract(Shape::new(5, 5)),
        Ok(Shape::new(23, 23))
    );
}

#[test]
fn shape_subtract_rejects_larger_subtrahend() {
    assert_eq!(
        Shape::new(4, 4).subtract(Shape::new(5, 5)),
        Err(Error::ShapeError {
            minuend: Shape::new(4, 4),
            subtrahend: Shape::new(5, 5),
        })
    );
    assert_eq!(
        Shape::new(10, 4).subtract(Shape::new(5, 5)),
        Err(Error::ShapeError {
            minuend: Shape::new(10, 4),
            subtrahend: Shape::new(5, 5),
        })
    );
}

#[test]
fn identity_convolution_returns_input() {
    let mut stage = ConvolutionStage::with_kernel(Shape::new(1, 1), vec![SCALE]);
    stage.bind_input_shape(Shape::new(3, 2)).unwrap();
    assert_eq!(stage.output_shape(), Shape::new(3, 2));
    let input: Vec<i64> = vec![65536, -65536, 123456, -7, 0, 42];
    let output = stage.evaluate(&input).unwrap();
    assert_eq!(output, input);
}

#[test]
fn convolution_rejects_kernel_larger_than_input() {
    let mut stage = ConvolutionStage::new(Shape::new(5, 5));
    let r = stage.bind_input_shape(Shape::new(4, 4));
    assert_eq!(
        r,
        Err(Error::ShapeError {
            minuend: Shape::new(4, 4),
            subtrahend: Shape::new(5, 5),
        })
    );
}

#[test]
fn convolution_averaging_window() {
    // A 2-by-2 kernel of quarters sums each window scaled by 0.25.
    let quarter = SCALE / 4;
    let mut stage = ConvolutionStage::with_kernel(
        Shape::new(2, 2),
        vec![quarter, quarter, quarter, quarter],
    );
    stage.bind_input_shape(Shape::new(3, 2)).unwrap();
    assert_eq!(stage.output_shape(), Shape::new(2, 1));
    // Row-major 3x2 input: one unit in every cell -> every window mean is 1.0.
    let one = SCALE;
    let input = vec![one, one, one, one, one, one];
    let output = stage.evaluate(&input).unwrap();
    assert_eq!(output, vec![SCALE, SCALE]);
}

#[test]
fn convolution_reports_length_mismatch() {
    let mut stage = ConvolutionStage::new(Shape::new(5, 5));
    stage.bind_input_shape(Shape::new(6, 6)).unwrap();
    let r = stage.evaluate(&vec![0; 35]);
    assert_eq!(
        r,
        Err(Error::ShapeMismatch {
            expected: 36,
            actual: 35,
        })
    );
}

#[test]
fn relu_clamps_negatives_elementwise() {
    let mut stage = ReluStage::new();
    stage.bind_input_shape(Shape::new(3, 2)).unwrap();
    assert_eq!(stage.output_shape(), Shape::new(3, 2));
    let input: Vec<i64> = vec![-5, 0, 7, i64::MIN, i64::MAX, -65536];
    let output = stage.evaluate(&input).unwrap();
    assert_eq!(output.len(), input.len());
    for (o, i) in output.iter().zip(input.iter()) {
        assert_eq!(*o, (*i).max(0));
    }
    assert_eq!(output, vec![0, 0, 7, 0, i64::MAX, 0]);
}

#[test]
fn dense_zero_weights_produce_zero_output() {
    let mut stage = DenseStage::new(Shape::new(3, 1));
    stage.bind_input_shape(Shape::new(2, 2)).unwrap();
    assert_eq!(stage.output_shape(), Shape::new(3, 1));
    let output = stage.evaluate(&vec![123, -456, 789, 65536]).unwrap();
    assert_eq!(output, vec![0, 0, 0]);
}

#[test]
fn dense_reports_length_mismatch() {
    let mut stage = DenseStage::new(Shape::new(3, 1));
    stage.bind_input_shape(Shape::new(2, 2)).unwrap();
    let r = stage.evaluate(&vec![1, 2, 3]);
    assert_eq!(
        r,
        Err(Error::ShapeMismatch {
            expected: 4,
            actual: 3,
        })
    );
}

#[test]
fn softmax_uniform_on_equal_inputs() {
    let mut stage = SoftmaxStage::new();
    stage.bind_input_shape(Shape::new(2, 2)).unwrap();
    let output = stage.evaluate(&vec![0, 0, 0, 0]).unwrap();
    assert_eq!(output, vec![16384, 16384, 16384, 16384]);
    let sum: i64 = output.iter().sum();
    assert_eq!(sum, SCALE);
}

#[test]
fn softmax_outputs_positive_and_normalized() {
    let mut stage = SoftmaxStage::new();
    stage.bind_input_shape(Shape::new(2, 1)).unwrap();
    // 0.0 and 1.0: weights are exp(0) = 65536 and exp(1) = 178145.
    let output = stage.evaluate(&vec![0, SCALE]).unwrap();
    assert_eq!(output, vec![17625, 47910]);
    assert!(output[0] > 0 && output[1] > output[0]);
    let sum: i64 = output.iter().sum();
    assert!(SCALE - 2 < sum && sum <= SCALE + 2);
}

#[test]
fn softmax_tiny_weight_floored_to_unit() {
    let mut stage = SoftmaxStage::new();
    stage.bind_input_shape(Shape::new(2, 1)).unwrap();
    // exp(16.0) dwarfs exp(0.0): the small quotient would floor to zero,
    // and is floored at the smallest positive unit instead.
    let output = stage.evaluate(&vec![0, 16 * SCALE]).unwrap();
    assert_eq!(output[0], 1);
    assert!(output[1] > 0 && output[1] <= SCALE);
    let sum: i64 = output.iter().sum();
    assert!(SCALE - 2 < sum && sum <= SCALE + 2);
}

#[test]
fn softmax_equal_inputs_split_the_unit() {
    let mut stage = SoftmaxStage::new();
    stage.bind_input_shape(Shape::new(3, 1)).unwrap();
    // Equal inputs give equal weights, so every output is SCALE / 3.
    let output = stage.evaluate(&vec![SCALE, SCALE, SCALE]).unwrap();
    assert_eq!(output, vec![21845, 21845, 21845]);
}

#[test]
fn softmax_single_element_is_unit() {
    let mut stage = SoftmaxStage::new();
    stage.bind_input_shape(Shape::new(1, 1)).unwrap();
    assert_eq!(stage.evaluate(&vec![5 * SCALE]).unwrap(), vec![SCALE]);
}

#[test]
fn stage_enum_dispatches_evaluate() {
    let mut stage = Stage::Relu(ReluStage::new());
    stage.bind_input_shape(Shape::new(2, 1)).unwrap();
    assert_eq!(stage.output_shape(), Shape::new(2, 1));
    assert_eq!(stage.evaluate(&vec![-1, 1]).unwrap(), vec![0, 1]);
}
