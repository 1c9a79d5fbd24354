use rascaline::indexes::Indexes;
use rascaline::keys::{
    AllSpeciesPairsKeys, CenterSingleNeighborsSpeciesKeys, CenterSpeciesKeys,
    CenterTwoNeighborsSpeciesKeys, KeysBuilder, TwoCentersSingleNeighborsSpeciesKeys,
};
use rascaline::system::{Pair, System, Triplet};

fn keys_of<K: KeysBuilder>(builder: &K, systems: &Vec<System>) -> Indexes {
    builder.keys(systems).unwrap()
}

fn row(values: &[i32]) -> Vec<i32> {
    values.to_vec()
}

#[test]
fn center_species_keys_are_sorted_and_distinct() {
    let systems = vec![
        System::new(vec![6, 1, 1, 1, 1]),
        System::new(vec![8, 1, 1]),
    ];
    let keys = CenterSpeciesKeys.keys(&systems).unwrap();
    assert_eq!(*keys.names(), vec!["species_center".to_string()]);
    assert_eq!(*keys.rows(), vec![row(&[1]), row(&[6]), row(&[8])]);
}

#[test]
fn center_species_keys_of_no_structures_are_empty() {
    let systems: Vec<System> = Vec::new();
    let keys = CenterSpeciesKeys.keys(&systems).unwrap();
    assert_eq!(keys.count(), 0);
}

#[test]
fn center_species_keys_are_order_independent() {
    let forward = vec![
        System::new(vec![6, 1, 1, 1, 1]),
        System::new(vec![8, 1, 1]),
        System::new(vec![26, 26]),
    ];
    let backward = vec![
        System::new(vec![26, 26]),
        System::new(vec![8, 1, 1]),
        System::new(vec![6, 1, 1, 1, 1]),
    ];
    let first = CenterSpeciesKeys.keys(&forward).unwrap();
    let second = CenterSpeciesKeys.keys(&backward).unwrap();
    assert_eq!(*first.rows(), *second.rows());
    assert_eq!(*first.rows(), vec![row(&[1]), row(&[6]), row(&[8]), row(&[26])]);
}

#[test]
fn all_species_pairs_keys() {
    let systems = vec![System::new(vec![8, 1, 1]), System::new(vec![26])];
    let keys = AllSpeciesPairsKeys {}.keys(&systems).unwrap();
    assert_eq!(
        *keys.names(),
        vec!["species_center".to_string(), "species_neighbor".to_string()]
    );
    // pairs only form within one and the same structure: no (1, 26) pair
    assert_eq!(*keys.rows(), vec![
        row(&[1, 1]),
        row(&[1, 8]),
        row(&[8, 1]),
        row(&[8, 8]),
        row(&[26, 26]),
    ]);
}

#[test]
fn cutoff_pair_keys_follow_the_neighbor_list() {
    let cutoff = f64::to_bits(1.5);
    let mut methane = System::new(vec![6, 1, 1, 1, 1]);
    methane
        .set_neighbors(
            cutoff,
            vec![
                Pair { first: 0, second: 1 },
                Pair { first: 0, second: 2 },
                Pair { first: 0, second: 3 },
                Pair { first: 0, second: 4 },
            ],
        )
        .unwrap();
    let systems = vec![methane];

    let without_self = CenterSingleNeighborsSpeciesKeys::new(cutoff, false).unwrap();
    let keys = without_self.keys(&systems).unwrap();
    // only C-H pairs are in the list, inserted in both directions
    assert_eq!(*keys.rows(), vec![row(&[1, 6]), row(&[6, 1])]);

    let with_self = CenterSingleNeighborsSpeciesKeys::new(cutoff, true).unwrap();
    let keys = with_self.keys(&systems).unwrap();
    assert_eq!(*keys.rows(), vec![
        row(&[1, 1]),
        row(&[1, 6]),
        row(&[6, 1]),
        row(&[6, 6]),
    ]);
}

#[test]
fn cutoff_pair_keys_need_a_valid_cutoff() {
    assert!(CenterSingleNeighborsSpeciesKeys::new(f64::to_bits(0.0), false).is_err());
    assert!(CenterSingleNeighborsSpeciesKeys::new(f64::to_bits(f64::NAN), true).is_err());
    assert!(CenterSingleNeighborsSpeciesKeys::new(f64::to_bits(3.5), true).is_ok());
}

#[test]
fn two_centers_keys_follow_the_triplets() {
    let bond = f64::to_bits(2.0);
    let third = f64::to_bits(3.0);
    let mut system = System::new(vec![8, 1, 1]);
    system
        .set_triplets(
            bond,
            third,
            vec![
                Triplet { atom_i: 0, atom_j: 1, atom_k: 2, is_self_contrib: false },
                Triplet { atom_i: 0, atom_j: 1, atom_k: 1, is_self_contrib: true },
            ],
        )
        .unwrap();
    let systems = vec![system];

    let scheme = TwoCentersSingleNeighborsSpeciesKeys::new([bond, third], false).unwrap();
    assert_eq!(scheme.bond_cutoff(), bond);
    assert_eq!(scheme.third_cutoff(), third);
    let keys = scheme.keys(&systems).unwrap();
    // the self contribution is filtered out; both center orders are kept
    assert_eq!(*keys.rows(), vec![row(&[1, 8, 1]), row(&[8, 1, 1])]);

    let scheme = TwoCentersSingleNeighborsSpeciesKeys::new([bond, third], true).unwrap();
    let keys = scheme.keys(&systems).unwrap();
    assert_eq!(*keys.rows(), vec![row(&[1, 8, 1]), row(&[8, 1, 1])]);
}

#[test]
fn center_two_neighbors_keys() {
    let cutoff = f64::to_bits(1.5);
    let mut methane = System::new(vec![6, 1, 1, 1, 1]);
    methane
        .set_neighbors(
            cutoff,
            vec![
                Pair { first: 0, second: 1 },
                Pair { first: 0, second: 2 },
                Pair { first: 0, second: 3 },
                Pair { first: 0, second: 4 },
            ],
        )
        .unwrap();
    let systems = vec![methane];

    let asymmetric = CenterTwoNeighborsSpeciesKeys::new(cutoff, false, false).unwrap();
    let keys = asymmetric.keys(&systems).unwrap();
    assert_eq!(
        *keys.names(),
        vec![
            "species_center".to_string(),
            "species_neighbor_1".to_string(),
            "species_neighbor_2".to_string(),
        ]
    );
    // the carbon sees only hydrogen neighbors; each hydrogen only the carbon
    assert_eq!(*keys.rows(), vec![row(&[1, 6, 6]), row(&[6, 1, 1])]);

    let symmetric = CenterTwoNeighborsSpeciesKeys::new(cutoff, true, true).unwrap();
    let keys = symmetric.keys(&systems).unwrap();
    // with self pairs, the neighbor sets grow by the center's own species;
    // the symmetric scheme keeps only non-decreasing neighbor pairs
    assert_eq!(*keys.rows(), vec![
        row(&[1, 1, 1]),
        row(&[1, 1, 6]),
        row(&[1, 6, 6]),
        row(&[6, 1, 1]),
        row(&[6, 1, 6]),
        row(&[6, 6, 6]),
    ]);
}

#[test]
fn center_two_neighbors_keys_are_order_independent() {
    let cutoff = f64::to_bits(2.5);
    let mut first = System::new(vec![8, 1, 1]);
    first
        .set_neighbors(
            cutoff,
            vec![Pair { first: 0, second: 1 }, Pair { first: 0, second: 2 }],
        )
        .unwrap();
    let mut second = System::new(vec![26, 26]);
    second
        .set_neighbors(cutoff, vec![Pair { first: 0, second: 1 }])
        .unwrap();

    let scheme = CenterTwoNeighborsSpeciesKeys::new(cutoff, false, true).unwrap();

    let mut first_again = System::new(vec![8, 1, 1]);
    first_again
        .set_neighbors(
            cutoff,
            vec![Pair { first: 0, second: 1 }, Pair { first: 0, second: 2 }],
        )
        .unwrap();
    let mut second_again = System::new(vec![26, 26]);
    second_again
        .set_neighbors(cutoff, vec![Pair { first: 0, second: 1 }])
        .unwrap();

    let forward = scheme.keys(&vec![first, second]).unwrap();
    let backward = scheme.keys(&vec![second_again, first_again]).unwrap();
    assert_eq!(*forward.rows(), *backward.rows());
}

#[test]
fn every_scheme_works_through_the_common_interface() {
    let systems = vec![System::new(vec![6, 1, 1, 1, 1]), System::new(vec![8, 1, 1])];
    let through_trait = keys_of(&CenterSpeciesKeys, &systems);
    let directly = CenterSpeciesKeys.keys(&systems).unwrap();
    assert_eq!(*through_trait.rows(), *directly.rows());

    let through_trait = keys_of(&AllSpeciesPairsKeys {}, &systems);
    let directly = AllSpeciesPairsKeys {}.keys(&systems).unwrap();
    assert_eq!(*through_trait.rows(), *directly.rows());
}
