//! The state of a linear-regression model trained without feature scaling, and
//! the descent loop that drives its training.
//!
//! The model function with `n` features is
//! `f(x) = a_1 * x_1 + a_2 * x_2 + ... + a_n * x_n + b`, and its coefficients are
//! kept in a single vector of length `n + 1`, laid out as `[a_1, ..., a_n, b]`.
//!
//! Gradient descent repeats `a_j := a_j - alpha * dJ/da_j` for every `j` and
//! `b := b - alpha * dJ/db`. The update is simultaneous: every new coefficient of
//! an iteration is computed from the same, still unchanged coefficients, and
//! they replace the old ones only once the whole iteration is done. The loop that
//! guarantees this is [`WithoutFeatureScaling::descend`]; the arithmetic of one
//! coefficient's update is handed to it by its caller.

use vstd::prelude::*;

use crate::json_converter::{validation_of, TrainingData};

verus! {

/// The sizes that the constructor checks: as many outputs as input samples, at
/// least one sample, and one coefficient per feature of the first sample plus
/// the bias.
pub open spec fn accepts_data_set<T>(
    real_inputs: Seq<Vec<T>>,
    real_outputs: Seq<T>,
    initial_coefficients: Seq<T>,
) -> bool {
    &&& real_inputs.len() == real_outputs.len()
    &&& real_inputs.len() > 0
    &&& real_inputs[0].len() + 1 == initial_coefficients.len()
}

/// A training set and the coefficients of the model fitted to it.
pub struct WithoutFeatureScaling<T> {
    real_inputs: Vec<Vec<T>>,
    real_outputs: Vec<T>,
    m: usize,
    n: usize,
    coefficients: Vec<T>,
}

impl<T> WithoutFeatureScaling<T> {
    /// The input samples.
    pub closed spec fn inputs(self) -> Seq<Vec<T>> {
        self.real_inputs@
    }

    /// The expected output of each sample.
    pub closed spec fn outputs(self) -> Seq<T> {
        self.real_outputs@
    }

    /// The number of samples, `m`.
    pub closed spec fn sample_count(self) -> nat {
        self.m as nat
    }

    /// The number of features, `n`, taken from the first sample.
    pub closed spec fn feature_count(self) -> nat {
        self.n as nat
    }

    /// The current coefficients `[a_1, ..., a_n, b]`.
    pub closed spec fn coefficient_values(self) -> Seq<T> {
        self.coefficients@
    }

    /// `m` counts the samples and the outputs, `n` the features of the first
    /// sample, and there are `n + 1` coefficients.
    pub open spec fn well_formed(self) -> bool {
        &&& accepts_data_set(self.inputs(), self.outputs(), self.coefficient_values())
        &&& self.sample_count() == self.inputs().len()
        &&& self.feature_count() == self.inputs()[0].len()
    }

    /// The two models hold the same samples, outputs and sizes; only their
    /// coefficients may differ.
    pub open spec fn same_data(self, other: Self) -> bool {
        &&& self.inputs() == other.inputs()
        &&& self.outputs() == other.outputs()
        &&& self.sample_count() == other.sample_count()
        &&& self.feature_count() == other.feature_count()
    }

    /// `after` is `before` after one iteration of descent with `step`: the same
    /// data, as many coefficients, and coefficient `j` of `after` is what `step`
    /// gives for `j` on the whole of `before`.
    pub open spec fn is_descent_step<F: Fn(&Self, usize) -> T>(step: F, before: Self, after: Self) -> bool {
        &&& after.same_data(before)
        &&& after.coefficient_values().len() == before.coefficient_values().len()
        &&& forall|j: int|
            0 <= j < before.coefficient_values().len() ==> step.ensures(
                (&before, j as usize),
                #[trigger] after.coefficient_values()[j],
            )
    }

    /// `states` are the models that descent with `step` passes through, one
    /// iteration from each to the next.
    pub open spec fn is_descent_run<F: Fn(&Self, usize) -> T>(step: F, states: Seq<Self>) -> bool {
        &&& states.len() > 0
        &&& forall|k: int|
            0 <= k < states.len() - 1 ==> #[trigger] Self::is_descent_step(
                step,
                states[k],
                states[k + 1],
            )
    }

    /// The two models hold the same data and the same coefficients.
    pub open spec fn same_contents(self, other: Self) -> bool {
        &&& self.same_data(other)
        &&& self.coefficient_values() == other.coefficient_values()
    }

    /// `step` gives one result for a coefficient index on models with the same
    /// contents: it reads nothing but the model it is handed.
    pub open spec fn step_is_deterministic<F: Fn(&Self, usize) -> T>(step: F) -> bool {
        forall|a: Self, b: Self, j: usize, x: T, y: T|
            a.same_contents(b) && #[trigger] step.ensures((&a, j), x) && #[trigger] step.ensures(
                (&b, j),
                y,
            ) ==> x == y
    }

    /// `step` may be called on any model that holds the data of `model`, for
    /// every coefficient index.
    pub open spec fn step_callable<F: Fn(&Self, usize) -> T>(step: F, model: Self) -> bool {
        forall|other: Self, j: usize|
            other.same_data(model) && other.well_formed() && j <= model.feature_count()
                ==> #[trigger] step.requires((&other, j))
    }

    /// Checks the sizes of a data set and derives `m` and `n` from it.
    fn validate_data_set(
        real_inputs: Vec<Vec<T>>,
        real_outputs: Vec<T>,
        initial_coefficients: Vec<T>,
    ) -> (result: (Vec<Vec<T>>, Vec<T>, usize, usize, Vec<T>))
        requires
            accepts_data_set(real_inputs@, real_outputs@, initial_coefficients@),
        ensures
            result.0 == real_inputs,
            result.1 == real_outputs,
            result.2 == real_inputs@.len(),
            result.3 == real_inputs@[0].len(),
            result.4 == initial_coefficients,
    {
        let m: usize = real_inputs.len();
        let n: usize = real_inputs[0].len();
        (real_inputs, real_outputs, m, n, initial_coefficients)
    }

    /// Builds a model from its samples, their expected outputs and the starting
    /// coefficients `[a_1, ..., a_n, b]`.
    pub fn new(
        real_inputs: Vec<Vec<T>>,
        real_outputs: Vec<T>,
        f_initial_coefficients: Vec<T>,
    ) -> (model: Self)
        requires
            accepts_data_set(real_inputs@, real_outputs@, f_initial_coefficients@),
        ensures
            model.well_formed(),
            model.inputs() == real_inputs@,
            model.outputs() == real_outputs@,
            model.coefficient_values() == f_initial_coefficients@,
    {
        let (real_inputs, real_outputs, m, n, initial_coefficients) = Self::validate_data_set(
            real_inputs,
            real_outputs,
            f_initial_coefficients,
        );
        WithoutFeatureScaling { real_inputs, real_outputs, m, n, coefficients: initial_coefficients }
    }

    /// The input samples.
    pub fn real_inputs(&self) -> (inputs: &Vec<Vec<T>>)
        ensures
            inputs@ == self.inputs(),
    {
        &self.real_inputs
    }

    /// The expected output of each sample.
    pub fn real_outputs(&self) -> (outputs: &Vec<T>)
        ensures
            outputs@ == self.outputs(),
    {
        &self.real_outputs
    }

    /// The number of samples, `m`.
    pub fn m(&self) -> (m: usize)
        ensures
            m == self.sample_count(),
    {
        self.m
    }

    /// The number of features, `n`.
    pub fn n(&self) -> (n: usize)
        ensures
            n == self.feature_count(),
    {
        self.n
    }

    /// The current coefficients `[a_1, ..., a_n, b]`.
    pub fn coefficients(&self) -> (coefficients: &Vec<T>)
        ensures
            coefficients@ == self.coefficient_values(),
    {
        &self.coefficients
    }

    /// One iteration of descent: every new coefficient is computed by `step`
    /// from the model as it stands, and only then do they all replace the old
    /// ones.
    fn descend_once<F: Fn(&Self, usize) -> T>(&mut self, step: &F)
        requires
            old(self).well_formed(),
            Self::step_callable(*step, *old(self)),
        ensures
            final(self).well_formed(),
            Self::is_descent_step(*step, *old(self), *final(self)),
    {
        let count: usize = self.coefficients.len();
        let mut temp_coefficients: Vec<T> = Vec::new();
        let mut j: usize = 0;
        while j < count
            invariant
                self.well_formed(),
                count == self.coefficient_values().len(),
                count == self.feature_count() + 1,
                Self::step_callable(*step, *self),
                0 <= j <= count,
                temp_coefficients@.len() == j,
                forall|i: int|
                    0 <= i < j ==> step.ensures(
                        (&*self, i as usize),
                        #[trigger] temp_coefficients@[i],
                    ),
            decreases count - j,
        {
            let value = step(&*self, j);
            temp_coefficients.push(value);
            j = j + 1;
        }
        self.coefficients = temp_coefficients;
    }

    /// Runs `loop_count` iterations of gradient descent; in each of them every
    /// coefficient `j` is replaced by what `step` gives for `j` on the model as
    /// it stood before that iteration.
    ///
    /// The arithmetic of one update, `a_j - alpha * dJ/da_j` for a feature and
    /// `b - alpha * dJ/db` for the bias, is `step`'s.
    pub fn descend<F: Fn(&Self, usize) -> T>(&mut self, loop_count: usize, step: &F)
        requires
            old(self).well_formed(),
            Self::step_callable(*step, *old(self)),
        ensures
            final(self).well_formed(),
            final(self).same_data(*old(self)),
            final(self).coefficient_values().len() == old(self).coefficient_values().len(),
            loop_count == 0 ==> *final(self) == *old(self),
            exists|states: Seq<Self>|
                {
                    &&& #[trigger] Self::is_descent_run(*step, states)
                    &&& states.len() == loop_count + 1
                    &&& states[0] == *old(self)
                    &&& states.last() == *final(self)
                },
    {
        let ghost states: Seq<Self> = seq![*self];
        let ghost start: Self = *self;
        let mut i: usize = 0;
        while i < loop_count
            invariant
                self.well_formed(),
                self.same_data(start),
                Self::step_callable(*step, start),
                0 <= i <= loop_count,
                Self::is_descent_run(*step, states),
                states.len() == i + 1,
                states[0] == start,
                states.last() == *self,
            decreases loop_count - i,
        {
            let ghost before: Self = *self;
            self.descend_once(step);
            proof {
                let next = states.push(*self);
                assert forall|k: int| 0 <= k < next.len() - 1 implies #[trigger] Self::is_descent_step(
                    *step,
                    next[k],
                    next[k + 1],
                ) by {
                    if k < states.len() - 1 {
                        assert(next[k] == states[k] && next[k + 1] == states[k + 1]);
                    } else {
                        assert(next[k] == before && next[k + 1] == *self);
                    }
                }
                states = next;
            }
            i = i + 1;
        }
    }
}

/// A training set that passes the checks of the JSON converter, together with
/// one coefficient per feature plus the bias, is accepted by the model's
/// constructor: data that the converter hands on never makes it fail.
pub proof fn lemma_accepted_set_fits_model<T>(data: TrainingData<T>, initial_coefficients: Seq<T>)
    requires
        validation_of(data) is Ok,
        initial_coefficients.len() == data.inputs@[0].len() + 1,
    ensures
        accepts_data_set(data.inputs@, data.outputs@, initial_coefficients),
{
    crate::json_converter::lemma_accepted_set_is_rectangular(data);
}

impl<T> WithoutFeatureScaling<T> {
    /// Training picks up where an earlier run stopped: a run of descent followed
    /// by a run that starts from its last model is one run through both.
    pub proof fn lemma_runs_compose<F: Fn(&Self, usize) -> T>(
        step: F,
        first: Seq<Self>,
        second: Seq<Self>,
    )
        requires
            Self::is_descent_run(step, first),
            Self::is_descent_run(step, second),
            first.last() == second[0],
        ensures
            Self::is_descent_run(step, first + second.drop_first()),
            (first + second.drop_first()).len() == first.len() + second.len() - 1,
            (first + second.drop_first())[0] == first[0],
            (first + second.drop_first()).last() == second.last(),
    {
        let joined = first + second.drop_first();
        assert forall|k: int| 0 <= k < joined.len() - 1 implies #[trigger] Self::is_descent_step(
            step,
            joined[k],
            joined[k + 1],
        ) by {
            if k < first.len() - 1 {
                assert(joined[k] == first[k] && joined[k + 1] == first[k + 1]);
            } else {
                let k2 = k - (first.len() - 1);
                assert(joined[k] == second[k2] && joined[k + 1] == second[k2 + 1]);
                assert(Self::is_descent_step(step, second[k2], second[k2 + 1]));
            }
        }
    }
}

impl<T> WithoutFeatureScaling<T> {
    /// Descent with a step that reads nothing but the model is reproducible: two
    /// runs of the same length from models with the same contents end with the
    /// same contents.
    pub proof fn lemma_deterministic_runs_agree<F: Fn(&Self, usize) -> T>(
        step: F,
        first: Seq<Self>,
        second: Seq<Self>,
    )
        requires
            Self::step_is_deterministic(step),
            Self::is_descent_run(step, first),
            Self::is_descent_run(step, second),
            first.len() == second.len(),
            first[0].same_contents(second[0]),
        ensures
            first.last().same_contents(second.last()),
        decreases first.len(),
    {
        if first.len() > 1 {
            let k = first.len() - 2;
            let first_prefix = first.drop_last();
            let second_prefix = second.drop_last();
            assert(Self::is_descent_run(step, first_prefix)) by {
                assert forall|i: int| 0 <= i < first_prefix.len() - 1 implies #[trigger] Self::is_descent_step(
                    step,
                    first_prefix[i],
                    first_prefix[i + 1],
                ) by {
                    assert(Self::is_descent_step(step, first[i], first[i + 1]));
                }
            }
            assert(Self::is_descent_run(step, second_prefix)) by {
                assert forall|i: int| 0 <= i < second_prefix.len() - 1 implies #[trigger] Self::is_descent_step(
                    step,
                    second_prefix[i],
                    second_prefix[i + 1],
                ) by {
                    assert(Self::is_descent_step(step, second[i], second[i + 1]));
                }
            }
            Self::lemma_deterministic_runs_agree(step, first_prefix, second_prefix);
            let a = first[k];
            let b = second[k];
            let a2 = first[k + 1];
            let b2 = second[k + 1];
            assert(a == first_prefix.last() && b == second_prefix.last());
            assert(Self::is_descent_step(step, a, a2));
            assert(Self::is_descent_step(step, b, b2));
            assert forall|j: int| 0 <= j < a2.coefficient_values().len() implies a2.coefficient_values()[j]
                == b2.coefficient_values()[j] by {
                assert(step.ensures((&a, j as usize), a2.coefficient_values()[j]));
                assert(step.ensures((&b, j as usize), b2.coefficient_values()[j]));
            }
            assert(a2.coefficient_values() =~= b2.coefficient_values());
        }
    }

    /// Training resumes exactly where it stopped: with a step that reads nothing
    /// but the model, a run of `k1` iterations followed by a run of `k2` from its
    /// last model ends with the contents of one run of `k1 + k2` iterations.
    pub proof fn lemma_resumed_run_matches_single_run<F: Fn(&Self, usize) -> T>(
        step: F,
        first: Seq<Self>,
        second: Seq<Self>,
        whole: Seq<Self>,
    )
        requires
            Self::step_is_deterministic(step),
            Self::is_descent_run(step, first),
            Self::is_descent_run(step, second),
            Self::is_descent_run(step, whole),
            first.last() == second[0],
            whole.len() == first.len() + second.len() - 1,
            whole[0].same_contents(first[0]),
        ensures
            second.last().same_contents(whole.last()),
    {
        Self::lemma_runs_compose(step, first, second);
        let joined = first + second.drop_first();
        Self::lemma_deterministic_runs_agree(step, joined, whole);
    }
}

} // verus!
