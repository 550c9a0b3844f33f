//! Shape checks between a parsed JSON training set and the model.
//!
//! A training set arrives in this shape, where every entry of `inputs` is one
//! sample and the entry of `outputs` at the same index is that sample's expected
//! value:
//!
//! ```json
//! {
//!   "inputs":  [[55.0, 1.0], [130.0, 4.0]],
//!   "outputs": [23000.0, 48500.0]
//! }
//! ```

use vstd::prelude::*;

verus! {

/// `serde_json`'s error type, carried through unchanged in
/// [`JsonConverterError::Json`].
#[verifier::external_type_specification]
#[verifier::external_body]
pub struct ExSerdeJsonError(serde_json::Error);

/// A training set: one entry of `inputs` per sample, each holding that sample's
/// feature values, and the expected output of each sample in `outputs`.
///
/// The element type is a parameter: the checks here read only the shape of the
/// set, never a value.
#[derive(Debug, Clone)]
pub struct TrainingData<T> {
    /// One entry per sample, each holding that sample's `n` feature values.
    pub inputs: Vec<Vec<T>>,
    /// The expected output of the sample at the same index in `inputs`.
    pub outputs: Vec<T>,
}

/// Everything that can go wrong while turning JSON into the model's vectors.
///
/// The variants other than `Json` describe a payload that parses as JSON but
/// does not describe a usable training set.
#[derive(Debug)]
pub enum JsonConverterError {
    /// The text was not valid JSON, or did not match the expected shape.
    Json(serde_json::Error),
    /// `inputs` was empty: there is nothing to train on, and no feature count
    /// can be derived.
    EmptyDataSet,
    /// There are not as many outputs as there are input samples.
    SampleCountMismatch { inputs: usize, outputs: usize },
    /// One sample carries a different number of features than the first one.
    RaggedSample { index: usize, expected: usize, found: usize },
}

impl From<serde_json::Error> for JsonConverterError {
    fn from(error: serde_json::Error) -> (converted: Self) {
        JsonConverterError::Json(error)
    }
}

impl vstd::std_specs::convert::FromSpecImpl<serde_json::Error> for JsonConverterError {
    open spec fn obeys_from_spec() -> bool {
        true
    }

    open spec fn from_spec(error: serde_json::Error) -> Self {
        JsonConverterError::Json(error)
    }
}

/// Sample `i` is the first one whose feature count differs from that of
/// sample 0.
pub open spec fn is_first_ragged<T>(rows: Seq<Vec<T>>, i: int) -> bool {
    &&& 0 <= i < rows.len()
    &&& rows[i].len() != rows[0].len()
    &&& forall|k: int| 0 <= k < i ==> #[trigger] rows[k].len() == rows[0].len()
}

/// Every sample has as many features as sample 0.
pub open spec fn same_width<T>(rows: Seq<Vec<T>>) -> bool {
    forall|i: int| 0 <= i < rows.len() ==> #[trigger] rows[i].len() == rows[0].len()
}

/// What checking a training set gives: the first failed check, in the order
/// empty set, sample count, feature count, or `Ok(())` when all pass.
pub open spec fn validation_of<T>(data: TrainingData<T>) -> Result<(), JsonConverterError> {
    let rows = data.inputs@;
    if rows.len() == 0 {
        Err(JsonConverterError::EmptyDataSet)
    } else if rows.len() != data.outputs@.len() {
        Err(
            JsonConverterError::SampleCountMismatch {
                inputs: rows.len() as usize,
                outputs: data.outputs@.len() as usize,
            },
        )
    } else if exists|i: int| is_first_ragged(rows, i) {
        let i = choose|i: int| is_first_ragged(rows, i);
        Err(
            JsonConverterError::RaggedSample {
                index: i as usize,
                expected: rows[0].len() as usize,
                found: rows[i].len() as usize,
            },
        )
    } else {
        Ok(())
    }
}

/// Two samples that are both the first ragged one are the same sample.
proof fn lemma_first_ragged_unique<T>(rows: Seq<Vec<T>>, i: int, j: int)
    requires
        is_first_ragged(rows, i),
        is_first_ragged(rows, j),
    ensures
        i == j,
{
    if i < j {
        assert(rows[i].len() == rows[0].len());
    } else if j < i {
        assert(rows[j].len() == rows[0].len());
    }
}

/// Rejects payloads that parse as JSON but cannot describe a training set.
///
/// The feature count is taken from the first sample and every other sample is
/// checked against it.
pub fn validate<T>(data: &TrainingData<T>) -> (result: Result<(), JsonConverterError>)
    ensures
        result == validation_of(*data),
        result is Ok <==> is_training_set(*data),
{
    proof {
        lemma_validation_characterized(*data);
    }

    let count = data.inputs.len();
    if count == 0 {
        return Err(JsonConverterError::EmptyDataSet);
    }
    if count != data.outputs.len() {
        return Err(
            JsonConverterError::SampleCountMismatch { inputs: count, outputs: data.outputs.len() },
        );
    }
    let n: usize = data.inputs[0].len();
    let mut index: usize = 0;
    while index < count
        invariant
            count == data.inputs@.len(),
            count == data.outputs@.len(),
            count > 0,
            n == data.inputs@[0].len(),
            0 <= index <= count,
            forall|k: int| 0 <= k < index ==> #[trigger] data.inputs@[k].len() == n,
        decreases count - index,
    {
        let found: usize = data.inputs[index].len();
        if found != n {
            proof {
                let rows = data.inputs@;
                assert(is_first_ragged(rows, index as int));
                let j = choose|j: int| is_first_ragged(rows, j);
                lemma_first_ragged_unique(rows, index as int, j);
            }
            return Err(JsonConverterError::RaggedSample { index, expected: n, found });
        }
        index = index + 1;
    }
    proof {
        let rows = data.inputs@;
        assert forall|i: int| !is_first_ragged(rows, i) by {
            if 0 <= i < rows.len() {
                assert(rows[i].len() == n);
            }
        }
    }
    Ok(())
}

/// Some sample is ragged, so there is a first ragged sample.
proof fn lemma_ragged_has_first<T>(rows: Seq<Vec<T>>, i: int)
    requires
        0 <= i < rows.len(),
        rows[i].len() != rows[0].len(),
    ensures
        exists|j: int| is_first_ragged(rows, j),
    decreases i,
{
    if forall|k: int| 0 <= k < i ==> #[trigger] rows[k].len() == rows[0].len() {
        assert(is_first_ragged(rows, i));
    } else {
        let k = choose|k: int| 0 <= k < i && #[trigger] rows[k].len() != rows[0].len();
        lemma_ragged_has_first(rows, k);
    }
}

/// A training set that passes the checks is not empty, has one output per
/// sample, and gives every sample the feature count of the first one.
pub proof fn lemma_accepted_set_is_rectangular<T>(data: TrainingData<T>)
    requires
        validation_of(data) is Ok,
    ensures
        data.inputs@.len() > 0,
        data.inputs@.len() == data.outputs@.len(),
        same_width(data.inputs@),
{
    let rows = data.inputs@;
    assert forall|i: int| 0 <= i < rows.len() implies #[trigger] rows[i].len() == rows[0].len() by {
        if rows[i].len() != rows[0].len() {
            lemma_ragged_has_first(rows, i);
        }
    }
}

/// A training set the model can take: at least one sample, one output per
/// sample, and every sample with the feature count of the first one.
pub open spec fn is_training_set<T>(data: TrainingData<T>) -> bool {
    &&& data.inputs@.len() > 0
    &&& data.inputs@.len() == data.outputs@.len()
    &&& same_width(data.inputs@)
}

/// A set that is not empty, has one output per sample and gives every sample
/// the feature count of the first one is accepted, whatever its number of
/// samples or features.
pub proof fn lemma_rectangular_set_is_accepted<T>(data: TrainingData<T>)
    requires
        is_training_set(data),
    ensures
        validation_of(data) == Ok::<(), JsonConverterError>(()),
{
    let rows = data.inputs@;
    assert forall|i: int| !is_first_ragged(rows, i) by {
        if 0 <= i < rows.len() {
            assert(rows[i].len() == rows[0].len());
        }
    }
}

/// What each outcome of the checks says of the set: it is accepted exactly
/// when it is a training set; it is reported empty exactly when it has no
/// sample; a count mismatch carries the two counts and comes exactly when they
/// differ on a non-empty set; a ragged sample carries the first sample whose
/// feature count differs from the first one's, with both counts, and comes
/// only when the counts match. A parse error never comes from the checks.
pub proof fn lemma_validation_characterized<T>(data: TrainingData<T>)
    ensures
        validation_of(data) is Ok <==> is_training_set(data),
        validation_of(data) == Err::<(), JsonConverterError>(JsonConverterError::EmptyDataSet)
            <==> data.inputs@.len() == 0,
        validation_of(data) matches Err(JsonConverterError::SampleCountMismatch { inputs, outputs })
            ==> {
            &&& data.inputs@.len() > 0
            &&& data.inputs@.len() != data.outputs@.len()
            &&& inputs == data.inputs@.len()
            &&& outputs == data.outputs@.len()
        },
        data.inputs@.len() > 0 && data.inputs@.len() != data.outputs@.len() ==> validation_of(data)
            == Err::<(), JsonConverterError>(
            JsonConverterError::SampleCountMismatch {
                inputs: data.inputs@.len() as usize,
                outputs: data.outputs@.len() as usize,
            },
        ),
        validation_of(data) matches Err(JsonConverterError::RaggedSample { index, expected, found })
            ==> {
            &&& data.inputs@.len() == data.outputs@.len()
            &&& is_first_ragged(data.inputs@, index as int)
            &&& expected == data.inputs@[0].len()
            &&& found == data.inputs@[index as int].len()
            &&& found != expected
        },
        forall|i: int|
            #![trigger is_first_ragged(data.inputs@, i)]
            data.inputs@.len() == data.outputs@.len() && is_first_ragged(data.inputs@, i)
                ==> validation_of(data) == Err::<(), JsonConverterError>(
                JsonConverterError::RaggedSample {
                    index: i as usize,
                    expected: data.inputs@[0].len() as usize,
                    found: data.inputs@[i].len() as usize,
                },
            ),
        !(validation_of(data) matches Err(JsonConverterError::Json(_))),
{
    let rows = data.inputs@;
    assert(data.inputs@.len() == data.inputs.len());
    assert(data.outputs@.len() == data.outputs.len());
    if is_training_set(data) {
        lemma_rectangular_set_is_accepted(data);
    }
    if validation_of(data) is Ok {
        lemma_accepted_set_is_rectangular(data);
    }
    if rows.len() > 0 && rows.len() == data.outputs@.len() && exists|i: int| is_first_ragged(rows, i) {
        let j = choose|i: int| is_first_ragged(rows, i);
        assert forall|i: int| #![trigger is_first_ragged(rows, i)] is_first_ragged(rows, i) implies i
            == j by {
            lemma_first_ragged_unique(rows, i, j);
        }
    }
}

/// Hands back the `(inputs, outputs)` pair that the model's constructor takes,
/// from the outcome of parsing a training set: a parse error is passed on as
/// [`JsonConverterError::Json`], a parsed set is checked with [`validate`] first.
pub fn training_data_from_parsed<T>(parsed: Result<TrainingData<T>, serde_json::Error>) -> (result:
    Result<(Vec<Vec<T>>, Vec<T>), JsonConverterError>)
    ensures
        match parsed {
            Err(error) => result == Err::<(Vec<Vec<T>>, Vec<T>), _>(JsonConverterError::Json(error)),
            Ok(data) => match validation_of(data) {
                Ok(()) => result == Ok::<_, JsonConverterError>((data.inputs, data.outputs)),
                Err(error) => result == Err::<(Vec<Vec<T>>, Vec<T>), _>(error),
            },
        },
        match parsed {
            Ok(data) => {
                &&& (result is Ok <==> is_training_set(data))
                &&& is_training_set(data) ==> result == Ok::<_, JsonConverterError>(
                    (data.inputs, data.outputs),
                )
            },
            Err(_) => result is Err,
        },
{
    let data = match parsed {
        Ok(data) => data,
        Err(error) => {
            return Err(JsonConverterError::from(error));
        },
    };
    match validate(&data) {
        Ok(()) => Ok((data.inputs, data.outputs)),
        Err(error) => Err(error),
    }
}

} // verus!
