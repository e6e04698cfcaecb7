use crate::error::Error;
use crate::shape::Shape;
use crate::stage::is_bound_version;
use crate::stage::lemma_spec_eval_len;
use crate::stage::Stage;
use vstd::prelude::*;

verus! {

/// A fresh copy of an activation buffer.
fn copy_buffer(v: &Vec<i64>) -> (r: Vec<i64>)
    ensures
        r@ == v@,
{
    let mut out: Vec<i64> = Vec::new();
    let mut i: usize = 0;
    while i < v.len()
        invariant
            i <= v@.len(),
            out@.len() == i,
            forall|k: int| 0 <= k < i ==> out@[k] == v@[k],
        decreases v@.len() - i,
    {
        out.push(v[i]);
        i = i + 1;
    }
    proof {
        assert(out@ =~= v@);
    }
    out
}

/// A visitor handed each stage's freshly produced output during
/// [`Pipeline::evaluate_with_observer`]. Advisory only: an observer's side
/// effects are no part of evaluation's correctness contract.
pub trait Observer {
    /// Called synchronously in stage order, immediately after `stage`
    /// produces `output` and before the next stage consumes it.
    fn accept(&mut self, stage: &Stage, output: &Vec<i64>)
        requires
            stage.wf(),
            stage.is_bound(),
    ;
}

/// The observer used by plain evaluation: it ignores everything.
struct SilentObserver {}

impl Observer for SilentObserver {
    fn accept(&mut self, _stage: &Stage, _output: &Vec<i64>) {
    }
}

/// An observer that retains a copy of every intermediate buffer, tagged by
/// the producing stage's output shape, for a renderer to reshape into 2-D
/// images.
pub struct Recorder {
    /// Output shape of the stage that produced each retained buffer.
    pub shapes: Vec<Shape>,
    /// The retained buffers, one per stage, in stage order.
    pub outputs: Vec<Vec<i64>>,
}

impl Recorder {
    pub fn new() -> (r: Recorder)
        ensures
            r.shapes@.len() == 0,
            r.outputs@.len() == 0,
    {
        Recorder { shapes: Vec::new(), outputs: Vec::new() }
    }
}

impl Observer for Recorder {
    fn accept(&mut self, stage: &Stage, output: &Vec<i64>)
        ensures
            final(self).shapes@ == old(self).shapes@.push(stage.spec_output_shape()),
            final(self).outputs@.len() == old(self).outputs@.len() + 1,
            forall|i: int|
                0 <= i < old(self).outputs@.len() ==> final(self).outputs@[i] == old(
                self).outputs@[i],
            final(self).outputs@.last()@ == output@,
    {
        self.shapes.push(stage.output_shape());
        self.outputs.push(copy_buffer(output));
    }
}

/// A buffer threaded through `stages` in order: each stage's output feeds
/// the next stage's input unchanged, and an empty sequence returns the
/// input unchanged.
pub open spec fn spec_pipeline_eval(stages: Seq<Stage>, inp: Seq<i64>) -> Seq<i64>
    decreases stages.len(),
{
    if stages.len() == 0 {
        inp
    } else {
        stages.last().spec_eval(spec_pipeline_eval(stages.drop_last(), inp))
    }
}

/// An ordered sequence of bound stages plus the declared overall input
/// shape. Adjacent stages always agree on their boundary shape: that is
/// checked once, when a stage is appended, and stages are never removed or
/// reordered afterwards.
pub struct Pipeline {
    /// Declared overall input shape.
    pub input_shape: Shape,
    /// The bound stages, in evaluation order.
    pub stages: Vec<Stage>,
}

impl Pipeline {
    /// The input shape the stage at position `i` is bound to: the previous
    /// stage's output shape, or the pipeline's declared input shape for the
    /// first stage.
    pub open spec fn stage_input_at(self, i: int) -> Shape
        recommends
            0 <= i <= self.stages@.len(),
    {
        if i == 0 {
            self.input_shape
        } else {
            self.stages@[i - 1].spec_output_shape()
        }
    }

    /// Every stage is well formed, bound, and bound to exactly the shape
    /// its predecessor produces.
    pub open spec fn wf(self) -> bool {
        &&& self.input_shape.wf()
        &&& forall|i: int|
            0 <= i < self.stages@.len() ==> (#[trigger] self.stages@[i]).wf()
                && self.stages@[i].is_bound() && self.stages@[i].spec_input_shape()
                == self.stage_input_at(i)
    }

    /// The shape the next appended stage will bind to, which is also the
    /// shape of the buffer evaluation returns.
    pub open spec fn spec_append_shape(self) -> Shape {
        self.stage_input_at(self.stages@.len() as int)
    }

    /// The last stage's output shape, or the zero shape while the pipeline
    /// is empty.
    pub open spec fn spec_output_shape(self) -> Shape {
        if self.stages@.len() == 0 {
            Shape { width: 0, height: 0 }
        } else {
            self.stages@[self.stages@.len() - 1].spec_output_shape()
        }
    }

    /// An empty pipeline with the declared overall input shape.
    pub fn new(input_shape: Shape) -> (r: Pipeline)
        requires
            input_shape.wf(),
        ensures
            r.input_shape == input_shape,
            r.stages@.len() == 0,
            r.wf(),
    {
        Pipeline { input_shape, stages: Vec::new() }
    }

    /// Appends a stage: binds it to the previous stage's output shape (or
    /// to the declared input shape if it is the first stage), then takes
    /// ownership of it. On a failed bind the pipeline is unchanged and the
    /// stage's bind error is returned.
    pub fn append(&mut self, stage: Stage) -> (r: Result<(), Error>)
        requires
            old(self).wf(),
            stage.wf(),
            !stage.is_bound(),
        ensures
            final(self).input_shape == old(self).input_shape,
            final(self).wf(),
            stage.binds(old(self).spec_append_shape()) ==> r == Ok::<(), Error>(()) && final(
            self).stages@.len() == old(self).stages@.len() + 1 && (forall|i: int|
                0 <= i < old(self).stages@.len() ==> final(self).stages@[i] == old(
                self).stages@[i]) && is_bound_version(
                stage,
                final(self).stages@.last(),
                old(self).spec_append_shape(),
            ),
            !stage.binds(old(self).spec_append_shape()) ==> r == Err::<(), Error>(
                stage.spec_bind_error(old(self).spec_append_shape()),
            ) && *final(self) == *old(self),
    {
        let target: Shape = if self.stages.len() == 0 {
            self.input_shape
        } else {
            self.stages[self.stages.len() - 1].output_shape()
        };
        let mut stage = stage;
        match stage.bind_input_shape(target) {
            Ok(()) => {
                self.stages.push(stage);
                Ok(())
            },
            Err(e) => Err(e),
        }
    }

    /// The pipeline's overall output shape: the last stage's output shape,
    /// or the zero shape while the pipeline is empty.
    pub fn output_shape(&self) -> (r: Shape)
        requires
            self.wf(),
        ensures
            r == self.spec_output_shape(),
    {
        if self.stages.len() == 0 {
            Shape::new(0, 0)
        } else {
            self.stages[self.stages.len() - 1].output_shape()
        }
    }

    /// Evaluates one buffer through every stage in order; an empty pipeline
    /// returns its input unchanged. Fails with `Error::ShapeMismatch`
    /// exactly when the buffer's length disagrees with the declared input
    /// shape's product.
    pub fn evaluate(&self, input: &Vec<i64>) -> (r: Result<Vec<i64>, Error>)
        requires
            self.wf(),
        ensures
            match r {
                Ok(out) => input@.len() == self.input_shape.spec_product() && out@
                    == spec_pipeline_eval(self.stages@, input@) && out@.len()
                    == self.spec_append_shape().spec_product(),
                Err(e) => input@.len() != self.input_shape.spec_product() && e == (
                Error::ShapeMismatch {
                    expected: self.input_shape.spec_product() as usize,
                    actual: input@.len() as usize,
                }),
            },
    {
        let mut silent = SilentObserver {  };
        self.evaluate_with_observer(input, &mut silent)
    }

    /// Identical evaluation that additionally hands each stage's fresh
    /// output to `observer`, synchronously and in stage order, before the
    /// next stage consumes it. The observer cannot change the buffers, and
    /// evaluation's result does not depend on it.
    #[verifier::rlimit(100)]
    pub fn evaluate_with_observer<O: Observer>(&self, input: &Vec<i64>, observer: &mut O) -> (r:
        Result<Vec<i64>, Error>)
        requires
            self.wf(),
        ensures
            match r {
                Ok(out) => input@.len() == self.input_shape.spec_product() && out@
                    == spec_pipeline_eval(self.stages@, input@) && out@.len()
                    == self.spec_append_shape().spec_product(),
                Err(e) => input@.len() != self.input_shape.spec_product() && e == (
                Error::ShapeMismatch {
                    expected: self.input_shape.spec_product() as usize,
                    actual: input@.len() as usize,
                }),
            },
    {
        let expected: usize = self.input_shape.product();
        if input.len() != expected {
            return Err(Error::ShapeMismatch { expected, actual: input.len() });
        }
        let mut cur: Vec<i64> = copy_buffer(input);
        let mut i: usize = 0;
        while i < self.stages.len()
            invariant
                self.wf(),
                i <= self.stages@.len(),
                cur@ == spec_pipeline_eval(self.stages@.take(i as int), input@),
                cur@.len() == self.stage_input_at(i as int).spec_product(),
            decreases self.stages@.len() - i,
        {
            let st: &Stage = &self.stages[i];
            let next: Vec<i64> = match st.evaluate(&cur) {
                Ok(v) => v,
                Err(e) => {
                    proof {
                        assert(false);
                    }
                    return Err(e);
                },
            };
            observer.accept(st, &next);
            proof {
                assert(self.stages@.take(i as int + 1).drop_last() =~= self.stages@.take(i as int));
                assert(self.stages@.take(i as int + 1).last() == self.stages@[i as int]);
                lemma_spec_eval_len(self.stages@[i as int], cur@);
            }
            cur = next;
            i = i + 1;
        }
        proof {
            assert(self.stages@.take(self.stages@.len() as int) =~= self.stages@);
        }
        Ok(cur)
    }
}

} // verus!
