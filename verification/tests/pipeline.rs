use feedforward::ConvolutionStage;
use feedforward::DenseStage;
use feedforward::Error;
use feedforward::Observer;
use feedforward::Pipeline;
use feedforward::Recorder;
use feedforward::ReluStage;
use feedforward::Shape;
use feedforward::SoftmaxStage;
use feedforward::Stage;
use feedforward::SCALE;

#[test]
fn shape_propagation_through_appends() {
    let mut p = Pipeline::new(Shape::new(28, 28));
    p.append(Stage::Convolution(ConvolutionStage::new(Shape::new(5, 5))))
        .unwrap();
    p.append(Stage::Relu(ReluStage::new())).unwrap();
    assert_eq!(p.output_shape(), Shape::new(24, 24));
}

#[test]
fn empty_pipeline_output_shape_is_zero() {
    let p = Pipeline::new(Shape::new(28, 28));
    assert_eq!(p.output_shape(), Shape::new(0, 0));
}

#[test]
fn empty_pipeline_returns_input_unchanged() {
    let p = Pipeline::new(Shape::new(2, 2));
    let input: Vec<i64> = vec![1, -2, 3, -4];
    assert_eq!(p.evaluate(&input).unwrap(), input);
}

#[test]
fn pipeline_reports_short_buffer() {
    let mut p = Pipeline::new(Shape::new(28, 28));
    p.append(Stage::Convolution(ConvolutionStage::new(Shape::new(5, 5))))
        .unwrap();
    let r = p.evaluate(&vec![0; 783]);
    assert_eq!(
        r,
        Err(Error::ShapeMismatch {
            expected: 784,
            actual: 783,
        })
    );
}

#[test]
fn append_rejects_oversized_kernel() {
    let mut p = Pipeline::new(Shape::new(4, 4));
    let r = p.append(Stage::Convolution(ConvolutionStage::new(Shape::new(5, 5))));
    assert_eq!(
        r,
        Err(Error::ShapeError {
            minuend: Shape::new(4, 4),
            subtrahend: Shape::new(5, 5),
        })
    );
    // The failed append leaves the pipeline unchanged.
    assert_eq!(p.output_shape(), Shape::new(0, 0));
    p.append(Stage::Convolution(ConvolutionStage::new(Shape::new(4, 4))))
        .unwrap();
    assert_eq!(p.output_shape(), Shape::new(1, 1));
}

#[test]
fn zero_kernel_then_relu_is_all_zero() {
    let mut p = Pipeline::new(Shape::new(6, 6));
    p.append(Stage::Convolution(ConvolutionStage::new(Shape::new(5, 5))))
        .unwrap();
    p.append(Stage::Relu(ReluStage::new())).unwrap();
    assert_eq!(p.output_shape(), Shape::new(2, 2));
    let input: Vec<i64> = (0..36).map(|i| (i - 18) * 4096).collect();
    let output = p.evaluate(&input).unwrap();
    assert_eq!(output, vec![0, 0, 0, 0]);
}

#[test]
fn zero_kernel_then_relu_sixteen_zeros() {
    let mut p = Pipeline::new(Shape::new(8, 8));
    p.append(Stage::Convolution(ConvolutionStage::new(Shape::new(5, 5))))
        .unwrap();
    p.append(Stage::Relu(ReluStage::new())).unwrap();
    assert_eq!(p.output_shape(), Shape::new(4, 4));
    let input: Vec<i64> = (0..64).map(|i| (i - 32) * 4096).collect();
    let output = p.evaluate(&input).unwrap();
    assert_eq!(output, vec![0; 16]);
}

#[test]
fn identity_convolution_pipeline() {
    let mut p = Pipeline::new(Shape::new(3, 2));
    p.append(Stage::Convolution(ConvolutionStage::with_kernel(
        Shape::new(1, 1),
        vec![SCALE],
    )))
    .unwrap();
    let input: Vec<i64> = vec![65536, -65536, 123456, -7, 0, 42];
    assert_eq!(p.evaluate(&input).unwrap(), input);
}

#[test]
fn recorder_sees_every_intermediate_buffer() {
    let mut p = Pipeline::new(Shape::new(6, 6));
    p.append(Stage::Convolution(ConvolutionStage::new(Shape::new(5, 5))))
        .unwrap();
    p.append(Stage::Relu(ReluStage::new())).unwrap();
    let mut rec = Recorder::new();
    let input: Vec<i64> = vec![SCALE; 36];
    let output = p.evaluate_with_observer(&input, &mut rec).unwrap();
    assert_eq!(rec.outputs.len(), 2);
    assert_eq!(rec.shapes, vec![Shape::new(2, 2), Shape::new(2, 2)]);
    assert_eq!(rec.outputs[1], output);
    assert_eq!(rec.outputs[0].len(), 4);
}

struct CallCounter {
    calls: usize,
}

impl Observer for CallCounter {
    fn accept(&mut self, _stage: &Stage, _output: &Vec<i64>) {
        self.calls += 1;
    }
}

#[test]
fn observer_called_once_per_stage() {
    let mut p = Pipeline::new(Shape::new(4, 4));
    p.append(Stage::Relu(ReluStage::new())).unwrap();
    p.append(Stage::Softmax(SoftmaxStage::new())).unwrap();
    p.append(Stage::Relu(ReluStage::new())).unwrap();
    let mut counter = CallCounter { calls: 0 };
    let with_obs = p
        .evaluate_with_observer(&vec![0; 16], &mut counter)
        .unwrap();
    assert_eq!(counter.calls, 3);
    // The observer does not change the result.
    assert_eq!(p.evaluate(&vec![0; 16]).unwrap(), with_obs);
}

#[test]
fn full_network_on_one_sample() {
    // The classic arrangement: two convolution/rectification rounds, two
    // dense projections, softmax over ten classes.
    let mut p = Pipeline::new(Shape::new(28, 28));
    p.append(Stage::Convolution(ConvolutionStage::new(Shape::new(5, 5))))
        .unwrap();
    p.append(Stage::Relu(ReluStage::new())).unwrap();
    p.append(Stage::Convolution(ConvolutionStage::new(Shape::new(5, 5))))
        .unwrap();
    p.append(Stage::Relu(ReluStage::new())).unwrap();
    p.append(Stage::Dense(DenseStage::new(Shape::new(100, 1))))
        .unwrap();
    p.append(Stage::Relu(ReluStage::new())).unwrap();
    p.append(Stage::Dense(DenseStage::new(Shape::new(10, 1))))
        .unwrap();
    p.append(Stage::Softmax(SoftmaxStage::new())).unwrap();
    assert_eq!(p.output_shape(), Shape::new(10, 1));
    let input: Vec<i64> = vec![SCALE / 2; 784];
    let output = p.evaluate(&input).unwrap();
    assert_eq!(output.len(), 10);
    // Zero weights wash out the sample; softmax of ten zeros is uniform.
    assert_eq!(output, vec![6553; 10]);
}
