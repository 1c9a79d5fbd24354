//! Configuration of the radial integral: which analytic basis to use, and
//! whether to accelerate it with an accuracy-bounded spline.
//!
//! The analytic radial integrals themselves (the Gaussian-type-orbital
//! formulas) are external collaborators: this module owns the decision
//! logic — validating the configuration and working out the spline
//! parameters the accelerated path needs — while the numeric evaluation
//! happens outside. As everywhere in this crate, `f64` configuration values
//! are carried as their IEEE 754 bit patterns.

use vstd::prelude::*;

use crate::errors::Error;
use crate::spline::{HermitCubicSpline, SplineParameters};
use crate::system::{cutoff_bits_valid, is_valid_cutoff};

verus! {

/// Parameters for computing the radial integral using Hermite cubic
/// splines.
#[derive(Debug, Clone, Copy)]
pub struct SplinedRIParameters {
    /// Number of radial components.
    pub max_radial: usize,
    /// Number of angular components.
    pub max_angular: usize,
    /// Cutoff radius as `f64` bits; this is also the largest value that can
    /// be interpolated.
    pub cutoff_bits: u64,
}

/// The flattened tensor length of a radial integral with these parameters:
/// one value per `(angular, radial)` component pair.
pub open spec fn spec_tensor_len(parameters: SplinedRIParameters) -> int {
    (parameters.max_angular + 1) * parameters.max_radial
}

/// Compute the flattened tensor length `(max_angular + 1) * max_radial`,
/// or fail with `InvalidParameter` when it does not fit the machine.
pub fn tensor_len(parameters: &SplinedRIParameters) -> (r: Result<usize, Error>)
    ensures
        r is Ok <==> spec_tensor_len(*parameters) <= usize::MAX,
        r matches Result::Ok(n) ==> n == spec_tensor_len(*parameters),
        r matches Result::Err(e) ==> e is InvalidParameter,
{
    if parameters.max_angular == usize::MAX {
        proof {
            assert(spec_tensor_len(*parameters) > usize::MAX || parameters.max_radial == 0);
        }
        if parameters.max_radial == 0 {
            return Result::Ok(0);
        }
        return Result::Err(
            Error::InvalidParameter("the radial integral shape does not fit".to_owned()),
        );
    }
    let rows = parameters.max_angular + 1;
    match rows.checked_mul(parameters.max_radial) {
        Option::Some(n) => Result::Ok(n),
        Option::None => Result::Err(
            Error::InvalidParameter("the radial integral shape does not fit".to_owned()),
        ),
    }
}

/// The spline parameters of an accelerated radial integral: the domain runs
/// from zero to the cutoff, and the tensors have one value per
/// `(angular, radial)` component pair.
pub fn spline_parameters(parameters: &SplinedRIParameters) -> (r: Result<SplineParameters, Error>)
    ensures
        r is Ok <==> cutoff_bits_valid(parameters.cutoff_bits) && spec_tensor_len(*parameters)
            <= usize::MAX && parameters.max_angular + 1 <= usize::MAX,
        r matches Result::Ok(p) ==> p.wf() && p.start_bits == 0 && p.stop_bits
            == parameters.cutoff_bits && p.shape@ == seq![
            (parameters.max_angular + 1) as usize,
            parameters.max_radial,
        ],
        r matches Result::Err(e) ==> e is InvalidParameter || e is InvalidCutoff,
{
    if !is_valid_cutoff(parameters.cutoff_bits) {
        return Result::Err(
            Error::InvalidCutoff("cutoff must be a strictly positive finite number".to_owned()),
        );
    }
    if parameters.max_angular == usize::MAX {
        return Result::Err(
            Error::InvalidParameter("the radial integral shape does not fit".to_owned()),
        );
    }
    let _ = tensor_len(parameters)?;
    let mut shape: Vec<usize> = Vec::new();
    shape.push(parameters.max_angular + 1);
    shape.push(parameters.max_radial);
    let p = SplineParameters { start_bits: 0, stop_bits: parameters.cutoff_bits, shape };
    proof {
        assert(p.shape@ =~= seq![(parameters.max_angular + 1) as usize, parameters.max_radial]);
    }
    Result::Ok(p)
}

/// A radial integral evaluated through a cubic Hermite spline of the
/// analytic implementation. This can be much faster than the analytic
/// implementation itself.
pub struct SplinedRadialIntegral {
    parameters: SplinedRIParameters,
    spline: HermitCubicSpline,
}

impl SplinedRadialIntegral {
    /// The parameters the spline was built for.
    pub closed spec fn spec_ri_parameters(&self) -> SplinedRIParameters {
        self.parameters
    }

    /// The spline holding the interpolation grid.
    pub closed spec fn spec_spline(&self) -> HermitCubicSpline {
        self.spline
    }

    /// The spline is well formed, spans `[0, cutoff)` and holds tensors of
    /// the declared `(max_angular + 1) * max_radial` length.
    pub open spec fn wf(&self) -> bool {
        &&& self.spec_spline().wf()
        &&& self.spec_spline().spec_parameters().start_bits == 0
        &&& self.spec_spline().spec_parameters().stop_bits == self.spec_ri_parameters().cutoff_bits
        &&& self.spec_spline().spec_points()[0].values@.len() == spec_tensor_len(
            self.spec_ri_parameters(),
        )
    }

    /// Wrap an accuracy-converged spline as a radial integral.
    ///
    /// Fails with `InvalidParameter` when the spline's domain or tensor
    /// length does not match the given parameters.
    pub fn from_spline(parameters: SplinedRIParameters, spline: HermitCubicSpline) -> (r: Result<
        SplinedRadialIntegral,
        Error,
    >)
        requires
            spline.wf(),
        ensures
            r is Ok <==> spline.spec_parameters().start_bits == 0
                && spline.spec_parameters().stop_bits == parameters.cutoff_bits && spec_tensor_len(
                parameters,
            ) == spline.spec_points()[0].values@.len(),
            r matches Result::Ok(ri) ==> ri.wf() && ri.spec_ri_parameters() == parameters
                && ri.spec_spline() == spline,
            r matches Result::Err(e) ==> e is InvalidParameter,
    {
        let p0_len = spline.point(0).values.len();
        let expected = match tensor_len(&parameters) {
            Result::Ok(n) => n,
            Result::Err(_) => {
                proof {
                    assert(spec_tensor_len(parameters) > p0_len);
                }
                return Result::Err(
                    Error::InvalidParameter(
                        "the spline does not match the radial integral parameters".to_owned(),
                    ),
                );
            },
        };
        if spline.parameters().start_bits != 0 {
            return Result::Err(
                Error::InvalidParameter(
                    "the spline does not match the radial integral parameters".to_owned(),
                ),
            );
        }
        if spline.parameters().stop_bits != parameters.cutoff_bits {
            return Result::Err(
                Error::InvalidParameter(
                    "the spline does not match the radial integral parameters".to_owned(),
                ),
            );
        }
        let p0 = spline.point(0);
        if p0.values.len() != expected {
            return Result::Err(
                Error::InvalidParameter(
                    "the spline does not match the radial integral parameters".to_owned(),
                ),
            );
        }
        Result::Ok(SplinedRadialIntegral { parameters, spline })
    }

    /// The spline holding the interpolation grid.
    pub fn spline(&self) -> (r: &HermitCubicSpline)
        ensures
            *r == self.spec_spline(),
    {
        &self.spline
    }

    /// The parameters the spline was built for.
    pub fn ri_parameters(&self) -> (r: &SplinedRIParameters)
        ensures
            *r == self.spec_ri_parameters(),
    {
        &self.parameters
    }
}

/// The analytic Gaussian-type-orbital configuration handed to the external
/// evaluator.
#[derive(Debug, Clone, Copy)]
pub struct GtoParameters {
    /// Number of radial components.
    pub max_radial: usize,
    /// Number of angular components.
    pub max_angular: usize,
    /// Width of the atom-centered Gaussians, as `f64` bits.
    pub atomic_gaussian_width_bits: u64,
    /// Cutoff radius, as `f64` bits.
    pub cutoff_bits: u64,
}

/// The parameters of a spherical expansion that the radial basis reads.
#[derive(Debug, Clone, Copy)]
pub struct SphericalExpansionParameters {
    /// Number of radial components.
    pub max_radial: usize,
    /// Number of angular components.
    pub max_angular: usize,
    /// Width of the atom-centered Gaussians, as `f64` bits.
    pub atomic_gaussian_width_bits: u64,
    /// Cutoff radius, as `f64` bits.
    pub cutoff_bits: u64,
}

/// The plan for evaluating the radial integral: either call the analytic
/// implementation directly, or build an accuracy-bounded spline of it first
/// and evaluate that.
pub enum RadialIntegralPlan {
    /// Evaluate the analytic implementation directly.
    Analytic {
        /// The analytic configuration.
        gto: GtoParameters,
    },
    /// Build a spline of the analytic implementation and evaluate that.
    Splined {
        /// The analytic configuration to spline.
        gto: GtoParameters,
        /// The accuracy to converge the spline to, as `f64` bits.
        accuracy_bits: u64,
        /// The parameters of the spline to build.
        spline: SplineParameters,
    },
}

/// Radial basis that can be used in the SOAP spherical expansion.
///
/// The basis is defined as `R_n(r) ∝ r^n e^{-r² / (2σ_n²)}` with
/// `σ_n = cutoff √n / n_max`. When `splined_radial_integral` is set, the
/// radial integral is computed through a spline, which is much faster than
/// the base implementation; the number of spline nodes is then determined
/// automatically so that the mean error stays close to the requested
/// accuracy.
#[derive(Debug, Clone, Copy)]
pub enum SoapRadialBasis {
    /// A radial basis similar to Gaussian-type orbitals.
    Gto {
        /// Whether to compute the radial integral through a spline.
        splined_radial_integral: bool,
        /// The spline accuracy, as `f64` bits.
        spline_accuracy_bits: u64,
    },
}

/// The default choice for computing the radial integral: through a spline.
pub fn serde_default_splined_radial_integral() -> (r: bool)
    ensures
        r == true,
{
    true
}

impl SoapRadialBasis {
    /// Use GTO as the radial basis, and do not spline the radial integral.
    pub fn gto() -> (r: SoapRadialBasis)
        ensures
            r == (SoapRadialBasis::Gto { splined_radial_integral: false, spline_accuracy_bits: 0 }),
    {
        SoapRadialBasis::Gto { splined_radial_integral: false, spline_accuracy_bits: 0 }
    }

    /// Use GTO as the radial basis, and spline the radial integral to the
    /// given accuracy (as `f64` bits).
    pub fn splined_gto(accuracy_bits: u64) -> (r: SoapRadialBasis)
        ensures
            r == (SoapRadialBasis::Gto {
                splined_radial_integral: true,
                spline_accuracy_bits: accuracy_bits,
            }),
    {
        SoapRadialBasis::Gto { splined_radial_integral: true, spline_accuracy_bits: accuracy_bits }
    }

    /// Work out the right radial integral plan for this basis and set of
    /// spherical expansion parameters.
    ///
    /// Fails with `InvalidCutoff` when the cutoff is not strictly positive
    /// and finite, and with `InvalidParameter` when the Gaussian width is
    /// not strictly positive and finite or the tensor shape does not fit
    /// the machine.
    pub fn get_radial_integral(&self, parameters: &SphericalExpansionParameters) -> (r: Result<
        RadialIntegralPlan,
        Error,
    >)
        ensures
            r is Ok <==> cutoff_bits_valid(parameters.cutoff_bits) && cutoff_bits_valid(
                parameters.atomic_gaussian_width_bits,
            ) && (self matches SoapRadialBasis::Gto { splined_radial_integral: true, .. }
                ==> spec_tensor_len(
                SplinedRIParameters {
                    max_radial: parameters.max_radial,
                    max_angular: parameters.max_angular,
                    cutoff_bits: parameters.cutoff_bits,
                },
            ) <= usize::MAX && parameters.max_angular + 1 <= usize::MAX),
            r matches Result::Ok(plan) ==> {
                let gto = GtoParameters {
                    max_radial: parameters.max_radial,
                    max_angular: parameters.max_angular,
                    atomic_gaussian_width_bits: parameters.atomic_gaussian_width_bits,
                    cutoff_bits: parameters.cutoff_bits,
                };
                match *self {
                    SoapRadialBasis::Gto { splined_radial_integral, spline_accuracy_bits } => {
                        if !splined_radial_integral {
                            plan == (RadialIntegralPlan::Analytic { gto })
                        } else {
                            plan matches RadialIntegralPlan::Splined {
                                gto: g,
                                accuracy_bits,
                                spline,
                            } && g == gto && accuracy_bits == spline_accuracy_bits && spline.wf()
                                && spline.start_bits == 0 && spline.stop_bits
                                == parameters.cutoff_bits
                        }
                    },
                }
            },
    {
        let gto = GtoParameters {
            max_radial: parameters.max_radial,
            max_angular: parameters.max_angular,
            atomic_gaussian_width_bits: parameters.atomic_gaussian_width_bits,
            cutoff_bits: parameters.cutoff_bits,
        };
        if !is_valid_cutoff(parameters.cutoff_bits) {
            return Result::Err(
                Error::InvalidCutoff("cutoff must be a strictly positive finite number".to_owned()),
            );
        }
        if !is_valid_cutoff(parameters.atomic_gaussian_width_bits) {
            return Result::Err(
                Error::InvalidParameter(
                    "atomic_gaussian_width must be a strictly positive finite number".to_owned(),
                ),
            );
        }
        match *self {
            SoapRadialBasis::Gto { splined_radial_integral, spline_accuracy_bits } => {
                if !splined_radial_integral {
                    return Result::Ok(RadialIntegralPlan::Analytic { gto });
                }
                let ri_parameters = SplinedRIParameters {
                    max_radial: parameters.max_radial,
                    max_angular: parameters.max_angular,
                    cutoff_bits: parameters.cutoff_bits,
                };
                let spline = spline_parameters(&ri_parameters)?;
                Result::Ok(
                    RadialIntegralPlan::Splined {
                        gto,
                        accuracy_bits: spline_accuracy_bits,
                        spline,
                    },
                )
            },
        }
    }
}

} // verus!
