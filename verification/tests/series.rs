use finance::{CentralMoment, Covariance, Error, MovingAverage, Scalar};

/// A 64-bit float as a sample type: each operation is the float operation.
#[derive(Clone, Copy, Debug, PartialEq)]
struct Real(f64);

impl Scalar for Real {
    fn of_count(n: usize) -> Self {
        Real(n as f64)
    }

    fn sum(self, rhs: Self) -> Self {
        Real(self.0 + rhs.0)
    }

    fn difference(self, rhs: Self) -> Self {
        Real(self.0 - rhs.0)
    }

    fn product(self, rhs: Self) -> Self {
        Real(self.0 * rhs.0)
    }

    fn quotient(self, rhs: Self) -> Self {
        Real(self.0 / rhs.0)
    }

    fn square_root(self) -> Self {
        Real(self.0.sqrt())
    }

    fn from_count(n: usize) -> Self {
        Self::of_count(n)
    }

    fn plus(self, rhs: Self) -> Self {
        self.sum(rhs)
    }

    fn minus(self, rhs: Self) -> Self {
        self.difference(rhs)
    }

    fn times(self, rhs: Self) -> Self {
        self.product(rhs)
    }

    fn over(self, rhs: Self) -> Self {
        self.quotient(rhs)
    }

    fn root(self) -> Self {
        self.square_root()
    }
}

fn reals<T: Copy + Into<f64>>(values: &[T]) -> Vec<Real> {
    values.iter().map(|v| Real((*v).into())).collect()
}

fn floats(values: Vec<Real>) -> Vec<f64> {
    values.into_iter().map(|v| v.0).collect()
}

#[test]
fn sma_calculated_correctly() {
    let numsf = reals(&[5., 7., 8., 6., 5., 5.5, 4.5]);
    let sma = floats(numsf.sma(2).unwrap());
    assert_eq!(sma, vec![6.0, 7.5, 7.0, 5.5, 5.25]);
}

#[test]
fn ema_calculated_correctly() {
    let nums = reals(&[2., 4., 6., 8., 12.]);
    let ema = floats(nums.ema(2).unwrap());
    assert_eq!(ema, vec![3.0, 6.333333333333333, 10.11111111111111]);
}

#[test]
fn mean_calculated_for_integers() {
    let nums = reals(&[5, 4, 3, 4]);
    let avg = nums.mean().unwrap();
    assert_eq!(avg.0, 4.);
}

#[test]
fn mean_calculated_for_f32s() {
    let nums = reals(&[5f32, 4.5, 3.5, 3.]);
    let avg = nums.mean().unwrap();
    assert_eq!(avg.0, 4.);
}

#[test]
fn var_calculated_for_f64s() {
    let nums = reals(&[5., 5., 10., 3.]);
    let var = nums.var().unwrap();
    assert_eq!(var.0, 6.6875);
}

#[test]
fn var_calculated_for_i32s() {
    let nums = reals(&[5, 5, 10, 3]);
    let var = nums.var().unwrap();
    assert_eq!(var.0, 6.6875);
}

#[test]
fn std_calculated_for_i32s() {
    let nums = reals(&[5, 5, 10, 3]);
    let var = nums.var().unwrap();
    assert_eq!(nums.stddev().unwrap().0, var.0.sqrt());
}

#[test]
fn std_calculated_for_f64s() {
    let nums = reals(&[5., 5., 10., 3.]);
    let var = nums.var().unwrap();
    assert_eq!(nums.stddev().unwrap().0, var.0.sqrt());
}

#[test]
fn covar_calculated_for_f64s() {
    let x1 = reals(&[10., 3., 19., 8., 7.]);
    let x2 = reals(&[13., 4., 21., 8., 3.]);
    let covar = x1.covar(&x2).unwrap();
    assert_eq!(covar.0, 41.35);
}

#[test]
fn diff_vec_lens_produces_error_for_covar() {
    let x1 = reals(&[10., 3., 19., 8., 7.]);
    let x2 = reals(&[13., 4., 21., 8.]);
    let covar = x1.covar(&x2);
    assert!(covar.is_err());
}

#[test]
fn covar_names_the_length_mismatch() {
    let x1 = reals(&[10., 3., 19., 8., 7.]);
    let x2 = reals(&[13., 4., 21., 8.]);
    assert_eq!(x1.covar(&x2), Err(Error::LengthMismatch));
    assert_eq!(x2.covar(&x1), Err(Error::LengthMismatch));
    let none: Vec<Real> = Vec::new();
    assert_eq!(none.covar(&x1), Err(Error::LengthMismatch));
}

#[test]
fn covar_needs_two_pairs() {
    let one = reals(&[10.]);
    let other = reals(&[13.]);
    assert_eq!(one.covar(&other), Err(Error::InsufficientData));
    let none: Vec<Real> = Vec::new();
    assert_eq!(none.covar(&none), Err(Error::InsufficientData));
}

#[test]
fn covar_of_two_pairs() {
    let x1 = reals(&[1., 3.]);
    let x2 = reals(&[2., 6.]);
    assert_eq!(x1.covar(&x2).unwrap().0, 4.0);
}

#[test]
fn sma_is_shorter_by_the_period() {
    let nums = reals(&[1., 2., 3., 4., 5., 6., 7., 8., 9.]);
    for periods in 1..9 {
        assert_eq!(nums.sma(periods).unwrap().len(), 9 - periods);
        assert_eq!(nums.ema(periods).unwrap().len(), 9 - periods);
    }
}

#[test]
fn sma_leaves_the_last_element_out() {
    let nums = reals(&[1., 2., 3., 1000.]);
    assert_eq!(floats(nums.sma(1).unwrap()), vec![1., 2., 3.]);
    assert_eq!(floats(nums.sma(3).unwrap()), vec![2.]);
}

#[test]
fn ema_starts_at_the_first_window_average() {
    let nums = reals(&[2., 4., 6., 8., 12.]);
    let sma = nums.sma(3).unwrap();
    let ema = nums.ema(3).unwrap();
    assert_eq!(ema[0], sma[0]);
    assert_eq!(floats(ema), vec![4.0, 8.0]);
}

#[test]
fn moving_averages_refuse_a_period_of_zero() {
    let nums = reals(&[1., 2., 3.]);
    assert_eq!(nums.sma(0), Err(Error::InvalidPeriod));
    assert_eq!(nums.ema(0), Err(Error::InvalidPeriod));
}

#[test]
fn moving_averages_refuse_a_period_as_long_as_the_series() {
    let nums = reals(&[1., 2., 3.]);
    assert_eq!(nums.sma(3), Err(Error::InvalidPeriod));
    assert_eq!(nums.ema(3), Err(Error::InvalidPeriod));
    assert_eq!(nums.sma(4), Err(Error::InvalidPeriod));
    assert_eq!(nums.ema(usize::MAX), Err(Error::InvalidPeriod));
    let none: Vec<Real> = Vec::new();
    assert_eq!(none.sma(1), Err(Error::InvalidPeriod));
    assert_eq!(none.ema(0), Err(Error::InvalidPeriod));
}

#[test]
fn moments_refuse_an_empty_series() {
    let none: Vec<Real> = Vec::new();
    assert_eq!(none.mean(), Err(Error::EmptySeries));
    assert_eq!(none.var(), Err(Error::EmptySeries));
    assert_eq!(none.stddev(), Err(Error::EmptySeries));
}

#[test]
fn moments_of_one_element() {
    let one = reals(&[7.5]);
    assert_eq!(one.mean().unwrap().0, 7.5);
    assert_eq!(one.var().unwrap().0, 0.0);
    assert_eq!(one.stddev().unwrap().0, 0.0);
}

#[test]
fn stddev_squared_is_the_variance() {
    let all: Vec<Vec<f64>> = vec![
        vec![5., 5., 10., 3.],
        vec![10.5, 2.1, 1.9, 10.3, 9.8],
        vec![1e9, 1e9 + 1., 1e9 + 2.],
        vec![-3.25, 0.5, 7.75, 2.0, 2.0, 11.125],
    ];
    for values in all.iter() {
        let nums = reals(values);
        let var = nums.var().unwrap().0;
        let std = nums.stddev().unwrap().0;
        assert!((std * std - var).abs() <= 1e-9 * var.abs());
    }
}

#[test]
fn variance_divides_by_count_and_covariance_by_one_less() {
    let nums = reals(&[5., 5., 10., 3.]);
    let var = nums.var().unwrap().0;
    let covar = nums.covar(&nums).unwrap().0;
    assert_eq!(var, 26.75 / 4.0);
    assert_eq!(covar, 26.75 / 3.0);
    assert!((var * 4.0 - covar * 3.0).abs() <= 1e-9);
}
