use vstd::prelude::*;

verus! {

/// Width of the input vector.
pub const INPUT_DIM: usize = 256;

/// Width of the hidden layer.
pub const HIDDEN_DIM: usize = 256;

/// Width of the output vector.
pub const OUTPUT_DIM: usize = 2;

/// Why a tensor shape was refused.
#[derive(Clone, Copy, Debug, PartialEq, Eq, Structural)]
pub enum ShapeError {
    /// The tensor has the wrong number of dimensions.
    RankMismatch { expected: usize, found: usize },
    /// A dimension has the wrong extent.
    DimMismatch { expected: usize, found: usize },
}

/// An affine stage `y = W x + b`, described by its dimensions. Its weight has
/// shape `[d_input, d_output]` and its bias shape `[d_output]`.
#[derive(Clone, Copy, Debug, PartialEq, Eq, Structural)]
pub struct LinearStage {
    pub d_input: usize,
    pub d_output: usize,
}

impl LinearStage {
    /// The shape of the weight and then of the bias.
    pub open spec fn param_shapes_spec(self) -> Seq<Seq<usize>> {
        seq![seq![self.d_input, self.d_output], seq![self.d_output]]
    }

    /// The output length for an input of length `n`, or an error when `n` is
    /// not the stage's input width.
    pub fn output_len(&self, n: usize) -> (r: Result<usize, ShapeError>)
        ensures
            n == self.d_input ==> r == Ok::<usize, ShapeError>(self.d_output),
            n != self.d_input ==> r == Err::<usize, ShapeError>(
                ShapeError::DimMismatch { expected: self.d_input, found: n },
            ),
    {
        if n == self.d_input {
            Ok(self.d_output)
        } else {
            Err(ShapeError::DimMismatch { expected: self.d_input, found: n })
        }
    }
}

/// The two-stage network: an affine stage, an elementwise sigmoid, and a
/// second affine stage.
#[derive(Clone, Copy, Debug, PartialEq, Eq, Structural)]
pub struct Model {
    pub l1: LinearStage,
    pub l2: LinearStage,
}

impl Model {
    /// The stages fit together: the sigmoid keeps the hidden width, so the
    /// second stage reads what the first one writes.
    pub open spec fn wf(self) -> bool {
        self.l1.d_output == self.l2.d_input
    }

    /// The shape of every parameter tensor, in the order l1.weight, l1.bias,
    /// l2.weight, l2.bias.
    pub open spec fn param_shapes_spec(self) -> Seq<Seq<usize>> {
        self.l1.param_shapes_spec() + self.l2.param_shapes_spec()
    }

    /// Whether `input` is a shape that the forward pass takes.
    pub open spec fn accepts(self, input: Seq<usize>) -> bool {
        input.len() == 1 && input[0] == self.l1.d_input
    }

    /// The error that the forward pass reports for a refused shape.
    pub open spec fn input_error(self, input: Seq<usize>) -> ShapeError {
        if input.len() != 1 {
            ShapeError::RankMismatch { expected: 1, found: input.len() as usize }
        } else {
            ShapeError::DimMismatch { expected: self.l1.d_input, found: input[0] }
        }
    }

    /// The architecture: 256 inputs, 256 hidden units, 2 outputs.
    pub fn init() -> (r: Model)
        ensures
            r.wf(),
            r.l1 == (LinearStage { d_input: INPUT_DIM, d_output: HIDDEN_DIM }),
            r.l2 == (LinearStage { d_input: HIDDEN_DIM, d_output: OUTPUT_DIM }),
    {
        Model {
            l1: LinearStage { d_input: INPUT_DIM, d_output: HIDDEN_DIM },
            l2: LinearStage { d_input: HIDDEN_DIM, d_output: OUTPUT_DIM },
        }
    }

    /// The shape of the forward pass's output for an input of shape `input`.
    /// A shape other than `[l1.d_input]` is refused, never broadcast or cut.
    pub fn forward_shape(&self, input: &Vec<usize>) -> (r: Result<Vec<usize>, ShapeError>)
        requires
            self.wf(),
        ensures
            r is Ok <==> self.accepts(input@),
            r matches Ok(out) ==> out@ == seq![self.l2.d_output],
            r matches Err(e) ==> e == self.input_error(input@),
    {
        if input.len() != 1 {
            return Err(ShapeError::RankMismatch { expected: 1, found: input.len() });
        }
        let hidden = self.l1.output_len(input[0]);
        match hidden {
            Ok(h) => match self.l2.output_len(h) {
                Ok(o) => Ok(vec![o]),
                Err(e) => Err(e),
            },
            Err(e) => Err(e),
        }
    }

    /// The shapes of the parameter tensors, in the order l1.weight, l1.bias,
    /// l2.weight, l2.bias.
    pub fn param_shapes(&self) -> (r: Vec<Vec<usize>>)
        ensures
            r@.len() == 4,
            forall|i: int| 0 <= i < 4 ==> (#[trigger] r@[i])@ == self.param_shapes_spec()[i],
    {
        let r = vec![
            vec![self.l1.d_input, self.l1.d_output],
            vec![self.l1.d_output],
            vec![self.l2.d_input, self.l2.d_output],
            vec![self.l2.d_output],
        ];
        assert(r@[0]@ == seq![self.l1.d_input, self.l1.d_output]);
        assert(r@[2]@ == seq![self.l2.d_input, self.l2.d_output]);
        r
    }
}

/// Whether the loss may compare `output` with `target`: it needs the two
/// shapes to be equal.
pub open spec fn mse_accepts(output: Seq<usize>, target: Seq<usize>) -> bool {
    output == target
}

/// Checks that the mean squared error may be taken of tensors of shapes
/// `output` and `target`. Unequal shapes are refused, never broadcast: a rank
/// that differs gives `RankMismatch`, else the first dimension that differs
/// gives `DimMismatch` with the target's extent as the one expected.
pub fn check_mse_shapes(output: &Vec<usize>, target: &Vec<usize>) -> (r: Result<(), ShapeError>)
    ensures
        r is Ok <==> mse_accepts(output@, target@),
        output@.len() != target@.len() ==> r == Err::<(), ShapeError>(
            ShapeError::RankMismatch { expected: target@.len() as usize, found: output@.len() as usize },
        ),
        output@.len() == target@.len() && r is Err ==> r matches Err(ShapeError::DimMismatch { .. }),
        r matches Err(ShapeError::DimMismatch { expected, found }) ==> exists|i: int|
            0 <= i < output@.len() && output@.len() == target@.len()
                && (forall|j: int| 0 <= j < i ==> output@[j] == target@[j])
                && expected == target@[i] && found == output@[i] && expected != found,
{
    if output.len() != target.len() {
        return Err(ShapeError::RankMismatch { expected: target.len(), found: output.len() });
    }
    let mut i: usize = 0;
    while i < output.len()
        invariant
            0 <= i <= output@.len(),
            output@.len() == target@.len(),
            forall|j: int| 0 <= j < i ==> output@[j] == target@[j],
        decreases output@.len() - i,
    {
        if output[i] != target[i] {
            return Err(ShapeError::DimMismatch { expected: target[i], found: output[i] });
        }
        i = i + 1;
    }
    assert(output@ =~= target@);
    Ok(())
}

} // verus!
