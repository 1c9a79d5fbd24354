use rascaline::errors::Error;
use rascaline::radial::{
    serde_default_splined_radial_integral, RadialIntegralPlan, SoapRadialBasis,
    SphericalExpansionParameters, SplinedRIParameters, SplinedRadialIntegral,
};
use rascaline::selection::{convert_labels_selection, LabelsSelection};
use rascaline::spline::{GridPoint, SplineBuilder, SplineParameters, MAX_SPLINE_POINTS};

fn node(position: f64, values: Vec<u64>, derivatives: Vec<u64>) -> GridPoint {
    GridPoint { position_bits: f64::to_bits(position), values, derivatives }
}

fn scalar_node(position: f64, value: f64, derivative: f64) -> GridPoint {
    node(position, vec![f64::to_bits(value)], vec![f64::to_bits(derivative)])
}

fn unit_domain(shape: Vec<usize>) -> SplineParameters {
    SplineParameters {
        start_bits: f64::to_bits(0.0),
        stop_bits: f64::to_bits(1.0),
        shape,
    }
}

#[test]
fn spline_builder_interleaves_midpoints() {
    let initial = vec![scalar_node(0.0, 1.0, 0.0), scalar_node(1.0, 2.0, 0.5)];
    let mut builder = SplineBuilder::new(f64::to_bits(1e-6), unit_domain(vec![1]), initial)
        .unwrap();
    assert_eq!(builder.n_points(), 2);

    builder.refine(vec![scalar_node(0.5, 1.5, 0.25)]).unwrap();
    assert_eq!(builder.n_points(), 3);
    assert_eq!(builder.point(0).position_bits, f64::to_bits(0.0));
    assert_eq!(builder.point(1).position_bits, f64::to_bits(0.5));
    assert_eq!(builder.point(2).position_bits, f64::to_bits(1.0));

    builder
        .refine(vec![scalar_node(0.25, 1.25, 0.1), scalar_node(0.75, 1.75, 0.4)])
        .unwrap();
    assert_eq!(builder.n_points(), 5);
    assert_eq!(builder.point(1).position_bits, f64::to_bits(0.25));
    assert_eq!(builder.point(3).position_bits, f64::to_bits(0.75));

    let spline = builder.finish();
    assert_eq!(spline.n_points(), 5);
}

#[test]
fn spline_builder_checks_its_input() {
    // fewer than two nodes
    let result = SplineBuilder::new(
        f64::to_bits(1e-6),
        unit_domain(vec![1]),
        vec![scalar_node(0.0, 1.0, 0.0)],
    );
    assert!(matches!(result, Err(Error::InvalidParameter(_))));

    // an empty domain
    let parameters = SplineParameters {
        start_bits: f64::to_bits(1.0),
        stop_bits: f64::to_bits(1.0),
        shape: vec![1],
    };
    let result = SplineBuilder::new(
        f64::to_bits(1e-6),
        parameters,
        vec![scalar_node(0.0, 1.0, 0.0), scalar_node(1.0, 2.0, 0.0)],
    );
    assert!(matches!(result, Err(Error::InvalidParameter(_))));

    // inconsistent tensor lengths
    let result = SplineBuilder::new(
        f64::to_bits(1e-6),
        unit_domain(vec![1]),
        vec![scalar_node(0.0, 1.0, 0.0), node(1.0, vec![], vec![])],
    );
    assert!(matches!(result, Err(Error::InvalidParameter(_))));

    // the wrong number of midpoints
    let initial = vec![scalar_node(0.0, 1.0, 0.0), scalar_node(1.0, 2.0, 0.5)];
    let mut builder = SplineBuilder::new(f64::to_bits(1e-6), unit_domain(vec![1]), initial)
        .unwrap();
    let result = builder.refine(vec![]);
    assert!(matches!(result, Err(Error::InvalidParameter(_))));
}

#[test]
fn unreachable_accuracy_exhausts_the_budget() {
    // an accuracy of zero can never be met, so the caller keeps refining;
    // the node budget must stop the loop with a deterministic error
    let accuracy = f64::to_bits(0.0);
    let initial = vec![scalar_node(0.0, 1.0, 0.0), scalar_node(1.0, 2.0, 0.5)];
    let mut builder = SplineBuilder::new(accuracy, unit_domain(vec![1]), initial).unwrap();

    let mut refinements: usize = 0;
    let exhausted = loop {
        let n = builder.n_points();
        let midpoints: Vec<GridPoint> = (0..n - 1)
            .map(|k| {
                let a = f64::from_bits(builder.point(k).position_bits);
                let b = f64::from_bits(builder.point(k + 1).position_bits);
                scalar_node((a + b) / 2.0, 0.0, 0.0)
            })
            .collect();
        match builder.refine(midpoints) {
            Ok(()) => {
                refinements += 1;
                assert!(refinements < MAX_SPLINE_POINTS, "the budget never triggered");
            }
            Err(error) => break error,
        }
    };
    // the node counts follow 2, 3, 5, 9, ..., 2^k + 1; the first count whose
    // doubling exceeds 10000 nodes is 8193, reached after 13 refinements
    assert_eq!(refinements, 13);
    assert_eq!(
        exhausted,
        Error::SplineBudgetExceeded { accuracy_bits: accuracy, n_points: 8193 }
    );
    assert_eq!(builder.n_points(), 8193);
}

#[test]
fn spline_evaluation_rejects_out_of_domain_input() {
    let initial = vec![scalar_node(0.0, 1.0, 0.0), scalar_node(1.0, 2.0, 0.5)];
    let builder = SplineBuilder::new(f64::to_bits(1e-6), unit_domain(vec![1]), initial).unwrap();
    let spline = builder.finish();

    assert!(spline.check_in_domain(f64::to_bits(0.0)).is_ok());
    assert!(spline.check_in_domain(f64::to_bits(0.75)).is_ok());
    // the domain is half-open: `stop` itself is already outside
    let result = spline.check_in_domain(f64::to_bits(1.0));
    assert!(matches!(result, Err(Error::OutOfDomain(_))));
    let result = spline.check_in_domain(f64::to_bits(1.5));
    assert!(matches!(result, Err(Error::OutOfDomain(_))));
}

#[test]
fn splined_radial_integral_checks_the_spline() {
    let cutoff = f64::to_bits(1.0);
    let parameters = SplinedRIParameters { max_radial: 1, max_angular: 0, cutoff_bits: cutoff };
    let initial = vec![scalar_node(0.0, 1.0, 0.0), scalar_node(1.0, 2.0, 0.5)];
    let builder = SplineBuilder::new(f64::to_bits(1e-6), unit_domain(vec![1]), initial).unwrap();
    let spline = builder.finish();
    let integral = SplinedRadialIntegral::from_spline(parameters, spline).unwrap();
    assert_eq!(integral.spline().n_points(), 2);

    // a tensor length that does not match (max_angular + 1) * max_radial
    let mismatched = SplinedRIParameters { max_radial: 3, max_angular: 1, cutoff_bits: cutoff };
    let initial = vec![scalar_node(0.0, 1.0, 0.0), scalar_node(1.0, 2.0, 0.5)];
    let builder = SplineBuilder::new(f64::to_bits(1e-6), unit_domain(vec![1]), initial).unwrap();
    let result = SplinedRadialIntegral::from_spline(mismatched, builder.finish());
    assert!(matches!(result, Err(Error::InvalidParameter(_))));
}

#[test]
fn radial_basis_configuration() {
    assert!(serde_default_splined_radial_integral());

    let parameters = SphericalExpansionParameters {
        max_radial: 8,
        max_angular: 6,
        atomic_gaussian_width_bits: f64::to_bits(0.3),
        cutoff_bits: f64::to_bits(3.5),
    };

    let plan = SoapRadialBasis::gto().get_radial_integral(&parameters).unwrap();
    assert!(matches!(plan, RadialIntegralPlan::Analytic { .. }));

    let accuracy = f64::to_bits(1e-8);
    let plan = SoapRadialBasis::splined_gto(accuracy)
        .get_radial_integral(&parameters)
        .unwrap();
    match plan {
        RadialIntegralPlan::Splined { gto, accuracy_bits, spline } => {
            assert_eq!(gto.max_radial, 8);
            assert_eq!(gto.max_angular, 6);
            assert_eq!(accuracy_bits, accuracy);
            assert_eq!(spline.start_bits, f64::to_bits(0.0));
            assert_eq!(spline.stop_bits, f64::to_bits(3.5));
            assert_eq!(spline.shape, vec![7, 8]);
        }
        RadialIntegralPlan::Analytic { .. } => panic!("expected the splined plan"),
    }

    let degenerate = SphericalExpansionParameters {
        max_radial: 8,
        max_angular: 6,
        atomic_gaussian_width_bits: f64::to_bits(0.3),
        cutoff_bits: f64::to_bits(-1.0),
    };
    let result = SoapRadialBasis::gto().get_radial_integral(&degenerate);
    assert!(matches!(result, Err(Error::InvalidCutoff(_))));
}

#[test]
fn labels_selection_requires_at_most_one_choice() {
    assert_eq!(convert_labels_selection(false, false), Ok(LabelsSelection::All));
    assert_eq!(convert_labels_selection(true, false), Ok(LabelsSelection::Subset));
    assert_eq!(convert_labels_selection(false, true), Ok(LabelsSelection::Predefined));
    assert!(matches!(
        convert_labels_selection(true, true),
        Err(Error::InvalidParameter(_))
    ));
}
