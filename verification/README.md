# Multivariable linear regression

Linear regression trained with batch gradient descent on unscaled features.

* `src/` is the verified library: the shape checks a JSON training set passes
  before it reaches the model, the model's state with its well-formedness, the
  descent loop that replaces all coefficients at once in every iteration, and the
  parsing of a JSON document into a `serde_json::Value`.
* `app/` is the program around it: reading the data set file, serde's derives,
  JSON output, and all floating-point arithmetic (the model function, the cost
  and its partial derivatives), which the library leaves to the caller of
  `WithoutFeatureScaling::descend`.
* `tests/` exercises the library on concrete data.
