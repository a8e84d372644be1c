use std::collections::HashMap;

use evanescence_core::orbital::hybrid::kind::{validate_kind, InvalidKindError, Kind};
use evanescence_core::orbital::quantum_numbers::Qn;
use evanescence_core::utils::sup_sub_string::SupSubFormat;

fn qn(n: u32, l: u32, m: i32) -> Qn {
    Qn::new(n, l, m).unwrap()
}

fn mixture(entries: &[(u32, u32)]) -> HashMap<u32, u32> {
    entries.iter().copied().collect()
}

fn sp_combinations() -> Vec<Vec<Qn>> {
    vec![vec![qn(2, 0, 0), qn(2, 1, 0)], vec![qn(2, 0, 0), qn(2, 1, 0)]]
}

#[test]
fn kind_validation() {
    let sp = mixture(&[(0, 1), (1, 1)]);
    let lcs = sp_combinations();
    assert_eq!(Ok(()), validate_kind(2, &sp, &lcs));
    assert_eq!(Err(InvalidKindError::Empty), validate_kind(2, &HashMap::new(), &lcs));
    assert_eq!(Err(InvalidKindError::Empty), validate_kind(2, &sp, &vec![]));
    assert_eq!(
        Err(InvalidKindError::IncorrectLength { expected: 4, actual: 2 }),
        validate_kind(2, &mixture(&[(0, 1), (1, 3)]), &lcs)
    );
    assert_eq!(Err(InvalidKindError::InvalidN(1)), validate_kind(1, &sp, &lcs));
    assert_eq!(Err(InvalidKindError::InvalidN(0)), validate_kind(0, &sp, &lcs));
    let mixed = vec![vec![qn(2, 0, 0), qn(2, 1, 0)], vec![qn(3, 0, 0), qn(4, 1, 0)]];
    assert_eq!(Err(InvalidKindError::UnexpectedN(3)), validate_kind(2, &sp, &mixed));
}

#[test]
fn kind_new_checks_invariants() {
    let err = Kind::new(1, mixture(&[(0, 1), (1, 1)]), "linear".to_owned(), None, sp_combinations());
    assert_eq!(err.err(), Some(InvalidKindError::InvalidN(1)));
    let kind = Kind::new(
        2,
        mixture(&[(0, 1), (1, 1)]),
        "linear".to_owned(),
        Some("two lobes".to_owned()),
        sp_combinations(),
    )
    .unwrap();
    assert_eq!(kind.n(), 2);
    assert_eq!(kind.count(), 2);
    assert_eq!(kind.symmetry(), "linear");
    assert_eq!(kind.description().as_deref(), Some("two lobes"));
    assert_eq!(kind.mixture().get(&1), Some(&1));
    assert_eq!(kind.archetype(), &vec![qn(2, 0, 0), qn(2, 1, 0)]);
    assert_eq!(kind.combinations().len(), 2);
}

fn sp3d2_kind() -> Kind {
    let combination = vec![qn(3, 0, 0), qn(3, 1, 0), qn(3, 2, 0)];
    Kind::new(
        3,
        mixture(&[(2, 2), (0, 1), (1, 3)]),
        "octahedral".to_owned(),
        None,
        vec![combination; 6],
    )
    .unwrap()
}

#[test]
fn mixture_names() {
    let sp3 = Kind::new(
        2,
        mixture(&[(1, 3), (0, 1)]),
        "tetrahedral".to_owned(),
        None,
        vec![vec![qn(2, 0, 0)]; 4],
    )
    .unwrap();
    assert_eq!(Some("sp³".to_owned()), sp3.mixture_name().format(SupSubFormat::Unicode));
    let sp3d2 = sp3d2_kind();
    assert_eq!(Some("sp³d²".to_owned()), sp3d2.mixture_name().format(SupSubFormat::Unicode));
    assert_eq!(
        "sp<sup>3</sup>d<sup>2</sup>",
        sp3d2.mixture_name().format_or_normal(SupSubFormat::Html)
    );
    let odd = Kind::new(10, mixture(&[(9, 12)]), "none".to_owned(), None, vec![vec![qn(10, 0, 0)]; 12])
        .unwrap();
    assert_eq!(Some("<?>¹²".to_owned()), odd.mixture_name().format(SupSubFormat::Unicode));
}

#[test]
fn kind_to_string() {
    let mut kind = sp3d2_kind();
    assert_eq!(kind.to_string(), "sp³d²");
    kind.set_description(Some("axial".to_owned()));
    assert_eq!(kind.to_string(), "sp³d² (axial)");
    assert_eq!(kind.n(), 3);
    assert_eq!(kind.count(), 6);
}
