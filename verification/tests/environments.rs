use rascaline::environments::{AtomEnvironment, StructureEnvironment};
use rascaline::errors::Error;
use rascaline::indexes::IndexesBuilder;
use rascaline::system::{Pair, System};

/// A structure with the atom count and species of a methane molecule.
fn methane() -> System {
    System::new(vec![6, 1, 1, 1, 1])
}

/// A structure with the atom count and species of a water molecule.
fn water() -> System {
    System::new(vec![8, 1, 1])
}

/// The carbon-hydrogen pairs of methane, as the external neighbor-list
/// search reports them within a cutoff of 1.5.
fn methane_ch_pairs() -> Vec<Pair> {
    vec![
        Pair { first: 0, second: 1 },
        Pair { first: 0, second: 2 },
        Pair { first: 0, second: 3 },
        Pair { first: 0, second: 4 },
    ]
}

fn row(values: &[i32]) -> Vec<i32> {
    values.to_vec()
}

#[test]
fn structure() {
    let systems = vec![methane(), methane(), water()];
    let indexes = StructureEnvironment.indexes(&systems);
    assert_eq!(indexes.count(), 3);
    assert_eq!(*indexes.names(), vec!["structure".to_string()]);
    assert_eq!(*indexes.rows(), vec![row(&[0]), row(&[1]), row(&[2])]);
}

#[test]
fn structure_gradient() {
    let systems = vec![methane(), water()];

    let samples = StructureEnvironment.indexes(&systems);
    let gradients = StructureEnvironment.gradients_for(&systems, &samples);
    let gradients = gradients.unwrap();
    assert_eq!(gradients.count(), 24);
    assert_eq!(
        *gradients.names(),
        vec!["structure".to_string(), "atom".to_string(), "spatial".to_string()]
    );
    assert_eq!(*gradients.rows(), vec![
        // methane
        row(&[0, 0, 0]), row(&[0, 0, 1]), row(&[0, 0, 2]),
        row(&[0, 1, 0]), row(&[0, 1, 1]), row(&[0, 1, 2]),
        row(&[0, 2, 0]), row(&[0, 2, 1]), row(&[0, 2, 2]),
        row(&[0, 3, 0]), row(&[0, 3, 1]), row(&[0, 3, 2]),
        row(&[0, 4, 0]), row(&[0, 4, 1]), row(&[0, 4, 2]),
        // water
        row(&[1, 0, 0]), row(&[1, 0, 1]), row(&[1, 0, 2]),
        row(&[1, 1, 0]), row(&[1, 1, 1]), row(&[1, 1, 2]),
        row(&[1, 2, 0]), row(&[1, 2, 1]), row(&[1, 2, 2]),
    ]);
}

#[test]
fn partial_structure_gradient() {
    let mut indexes = IndexesBuilder::new(vec!["structure".to_string()]);
    indexes.add(row(&[2]));
    indexes.add(row(&[0]));

    let systems = vec![water(), methane(), water(), methane()];
    let gradients = StructureEnvironment.gradients_for(&systems, &indexes.finish());
    let gradients = gradients.unwrap();

    assert_eq!(
        *gradients.names(),
        vec!["structure".to_string(), "atom".to_string(), "spatial".to_string()]
    );
    assert_eq!(*gradients.rows(), vec![
        // water #2
        row(&[2, 0, 0]), row(&[2, 0, 1]), row(&[2, 0, 2]),
        row(&[2, 1, 0]), row(&[2, 1, 1]), row(&[2, 1, 2]),
        row(&[2, 2, 0]), row(&[2, 2, 1]), row(&[2, 2, 2]),
        // water #1
        row(&[0, 0, 0]), row(&[0, 0, 1]), row(&[0, 0, 2]),
        row(&[0, 1, 0]), row(&[0, 1, 1]), row(&[0, 1, 2]),
        row(&[0, 2, 0]), row(&[0, 2, 1]), row(&[0, 2, 2]),
    ]);
}

#[test]
fn atoms() {
    let systems = vec![methane(), water()];
    let strategy = AtomEnvironment::new(f64::to_bits(2.0)).unwrap();
    let indexes = strategy.indexes(&systems);
    assert_eq!(indexes.count(), 8);
    assert_eq!(*indexes.names(), vec!["structure".to_string(), "center".to_string()]);
    assert_eq!(*indexes.rows(), vec![
        row(&[0, 0]), row(&[0, 1]), row(&[0, 2]), row(&[0, 3]), row(&[0, 4]),
        row(&[1, 0]), row(&[1, 1]), row(&[1, 2]),
    ]);
}

#[test]
fn atom_gradients() {
    let cutoff = f64::to_bits(1.5);
    let mut system = methane();
    // Only C-H neighbors are within 1.3 A
    system.set_neighbors(cutoff, methane_ch_pairs()).unwrap();
    let systems = vec![system];
    let strategy = AtomEnvironment::new(cutoff).unwrap();
    let samples = strategy.indexes(&systems);
    let gradients = strategy.gradients_for(&systems, &samples);
    let gradients = gradients.unwrap();

    assert_eq!(gradients.count(), 24);
    assert_eq!(
        *gradients.names(),
        vec![
            "structure".to_string(),
            "center".to_string(),
            "neighbor".to_string(),
            "spatial".to_string(),
        ]
    );
    assert_eq!(*gradients.rows(), vec![
        // C center
        row(&[0, 0, 1, 0]),
        row(&[0, 0, 1, 1]),
        row(&[0, 0, 1, 2]),

        row(&[0, 0, 2, 0]),
        row(&[0, 0, 2, 1]),
        row(&[0, 0, 2, 2]),

        row(&[0, 0, 3, 0]),
        row(&[0, 0, 3, 1]),
        row(&[0, 0, 3, 2]),

        row(&[0, 0, 4, 0]),
        row(&[0, 0, 4, 1]),
        row(&[0, 0, 4, 2]),
        // H centers
        row(&[0, 1, 0, 0]),
        row(&[0, 1, 0, 1]),
        row(&[0, 1, 0, 2]),

        row(&[0, 2, 0, 0]),
        row(&[0, 2, 0, 1]),
        row(&[0, 2, 0, 2]),

        row(&[0, 3, 0, 0]),
        row(&[0, 3, 0, 1]),
        row(&[0, 3, 0, 2]),

        row(&[0, 4, 0, 0]),
        row(&[0, 4, 0, 1]),
        row(&[0, 4, 0, 2]),
    ]);
}

#[test]
fn partial_atom_gradient() {
    let cutoff = f64::to_bits(1.5);
    let mut indexes = IndexesBuilder::new(vec!["structure".to_string(), "center".to_string()]);
    // out of order values to ensure the gradients are also out of order
    indexes.add(row(&[0, 2]));
    indexes.add(row(&[0, 0]));

    let mut system = methane();
    system.set_neighbors(cutoff, methane_ch_pairs()).unwrap();
    let systems = vec![system];
    let strategy = AtomEnvironment::new(cutoff).unwrap();
    let gradients = strategy.gradients_for(&systems, &indexes.finish());
    let gradients = gradients.unwrap();

    assert_eq!(
        *gradients.names(),
        vec![
            "structure".to_string(),
            "center".to_string(),
            "neighbor".to_string(),
            "spatial".to_string(),
        ]
    );
    assert_eq!(*gradients.rows(), vec![
        // H centers
        row(&[0, 2, 0, 0]),
        row(&[0, 2, 0, 1]),
        row(&[0, 2, 0, 2]),
        // C center
        row(&[0, 0, 1, 0]),
        row(&[0, 0, 1, 1]),
        row(&[0, 0, 1, 2]),

        row(&[0, 0, 2, 0]),
        row(&[0, 0, 2, 1]),
        row(&[0, 0, 2, 2]),

        row(&[0, 0, 3, 0]),
        row(&[0, 0, 3, 1]),
        row(&[0, 0, 3, 2]),

        row(&[0, 0, 4, 0]),
        row(&[0, 0, 4, 1]),
        row(&[0, 0, 4, 2]),
    ]);
}

#[test]
fn repeated_samples_collapse_duplicate_gradients() {
    let cutoff = f64::to_bits(1.5);
    let mut system = methane();
    system.set_neighbors(cutoff, methane_ch_pairs()).unwrap();
    let systems = vec![system];
    let strategy = AtomEnvironment::new(cutoff).unwrap();

    let mut once = IndexesBuilder::new(vec!["structure".to_string(), "center".to_string()]);
    once.add(row(&[0, 1]));
    let mut twice = IndexesBuilder::new(vec!["structure".to_string(), "center".to_string()]);
    twice.add(row(&[0, 1]));
    twice.add(row(&[0, 1]));

    let gradients_once = strategy.gradients_for(&systems, &once.finish()).unwrap();
    let gradients_twice = strategy.gradients_for(&systems, &twice.finish()).unwrap();
    // the duplicated (structure, center, neighbor) triples collapse to one
    assert_eq!(*gradients_once.rows(), *gradients_twice.rows());
    assert_eq!(gradients_twice.count(), 3);
}

#[test]
fn gradient_rows_reference_sample_rows() {
    let cutoff = f64::to_bits(1.5);
    let mut system = methane();
    system.set_neighbors(cutoff, methane_ch_pairs()).unwrap();
    let systems = vec![system];
    let strategy = AtomEnvironment::new(cutoff).unwrap();

    let mut samples = IndexesBuilder::new(vec!["structure".to_string(), "center".to_string()]);
    samples.add(row(&[0, 3]));
    samples.add(row(&[0, 0]));
    let samples = samples.finish();
    let gradients = strategy.gradients_for(&systems, &samples).unwrap();

    for gradient_row in gradients.rows() {
        let matches_a_sample = samples
            .rows()
            .iter()
            .any(|s| s[0] == gradient_row[0] && s[1] == gradient_row[1]);
        assert!(matches_a_sample);
    }
}

#[test]
fn invalid_cutoff_is_a_construction_error() {
    assert!(AtomEnvironment::new(f64::to_bits(0.0)).is_err());
    assert!(AtomEnvironment::new(f64::to_bits(-1.5)).is_err());
    assert!(AtomEnvironment::new(f64::to_bits(f64::INFINITY)).is_err());
    assert!(AtomEnvironment::new(f64::to_bits(f64::NAN)).is_err());
    assert!(AtomEnvironment::new(f64::to_bits(1.5)).is_ok());
}

#[test]
fn neighbor_pairs_must_reference_atoms() {
    let mut system = water();
    let result = system.set_neighbors(
        f64::to_bits(2.0),
        vec![Pair { first: 0, second: 7 }],
    );
    assert!(matches!(result, Err(Error::InvalidParameter(_))));
    let result = system.set_neighbors(f64::to_bits(-2.0), vec![]);
    assert!(matches!(result, Err(Error::InvalidCutoff(_))));
    let result = system.set_neighbors(f64::to_bits(2.0), vec![Pair { first: 0, second: 2 }]);
    assert!(result.is_ok());
}
