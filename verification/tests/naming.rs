use evanescence_core::geometry::storage::grid_values::CoordinatePlane3;
use evanescence_core::geometry::{check_grid_shape, CoordinatePlane, InvalidGridValuesError, Plane};
use evanescence_core::numerics::special::spherical_harmonics::RealSphericalHarmonic as CartesianHarmonic;
use evanescence_core::orbital::atomic::{basic_name, complex_orbital, real_orbital, subshell_name};
use evanescence_core::orbital::molecular::Geometry;
use evanescence_core::orbital::quantum_numbers::{Lm, Qn};
use evanescence_core::orbital::wavefunctions::RealSphericalHarmonic;
use evanescence_core::utils::sup_sub_string::{SupSubFormat, SupSubString};

#[test]
fn planes() {
    assert_eq!(("x", "y"), Plane::XY.axes_names());
    assert_eq!(("y", "z"), Plane::YZ.axes_names());
    assert_eq!(("z", "x"), Plane::ZX.axes_names());
    assert_eq!("(x, y, 0)", Plane::XY.ordered_triple());
    assert_eq!("(0, y, z)", Plane::YZ.ordered_triple());
    assert_eq!("(x, 0, z)", Plane::ZX.ordered_triple());
    assert_eq!("ZX", Plane::ZX.to_string());
    assert_eq!(("z", "x"), CoordinatePlane::ZX.axes_names());
    assert_eq!("(0, y, z)", CoordinatePlane::YZ.ordered_triple_form());
    assert_eq!("YZ", CoordinatePlane::YZ.to_string());
    assert_eq!(("y", "z"), CoordinatePlane3::YZ.axes_names());
    assert_eq!("(x, 0, z)", CoordinatePlane3::ZX.ordered_triple_form());
}

#[test]
fn grid_shapes() {
    // Two columns, three rows, but only two rows of values.
    assert_eq!(Err(InvalidGridValuesError::Row), check_grid_shape(2, 3, &vec![2, 2]));
    assert_eq!(Err(InvalidGridValuesError::Column), check_grid_shape(2, 2, &vec![2, 3]));
    assert_eq!(Ok(()), check_grid_shape(2, 2, &vec![2, 2]));
    assert_eq!(Ok(()), check_grid_shape(5, 0, &vec![]));
    assert_eq!(
        "number of row coordinates does not match number of value rows",
        InvalidGridValuesError::Row.to_string()
    );
}

#[test]
fn subshells() {
    let names: Vec<Option<&str>> = (0..9).map(subshell_name).collect();
    assert_eq!(
        vec![
            Some("s"),
            Some("p"),
            Some("d"),
            Some("f"),
            Some("g"),
            Some("h"),
            Some("i"),
            Some("k"),
            None
        ],
        names
    );
}

#[test]
fn orbital_names() {
    let q = Qn::new(4, 2, 0).unwrap();
    assert_eq!("4d<sub>z²</sub>", real_orbital::name_qn(q));
    assert_eq!("ψ<sub>420</sub>", complex_orbital::name_qn(q));
    assert_eq!("2p<sub>y</sub>", real_orbital::name_qn(Qn::new(2, 1, -1).unwrap()));
    assert_eq!("1s<sub></sub>", real_orbital::name_qn(Qn::new(1, 0, 0).unwrap()));
    // No Cartesian expression beyond l = 4.
    assert_eq!("ψ<sub>65-3</sub>", real_orbital::name_qn(Qn::new(6, 5, -3).unwrap()));
    assert_eq!("ψ<sub>31-1</sub>", basic_name(Qn::new(3, 1, -1).unwrap()));
}

#[test]
fn node_counts() {
    let q = Qn::new(5, 3, -2).unwrap();
    assert_eq!(1, real_orbital::num_radial_nodes(q));
    assert_eq!(3, real_orbital::num_angular_nodes(q));
    let lm = Lm::new(3, -2).unwrap();
    assert_eq!(1, real_orbital::num_conical_nodes(lm));
    assert_eq!(2, real_orbital::num_planar_nodes(lm));
}

#[test]
fn real_harmonic_expressions() {
    let expr = |l, m| RealSphericalHarmonic::expression(&Lm::new(l, m).unwrap());
    assert_eq!(Some(""), expr(0, 0));
    assert_eq!(Some("x"), expr(1, 1));
    assert_eq!(Some("x²−y²"), expr(2, 2));
    assert_eq!(Some("y(3x²−y²)"), expr(3, -3));
    assert_eq!(Some("x⁴+y⁴"), expr(4, 4));
    assert_eq!(None, expr(5, 0));
}

#[test]
fn cartesian_expressions() {
    let expr = |l, m| {
        CartesianHarmonic::cartesian_expression(Lm::new(l, m).unwrap())
            .map(|s| s.format(SupSubFormat::Html).unwrap())
    };
    assert_eq!(Some("".to_owned()), expr(0, 0));
    assert_eq!(Some("x<sup>2</sup>−y<sup>2</sup>".to_owned()), expr(2, 2));
    assert_eq!(Some("y<sup>3</sup>z".to_owned()), expr(4, -3));
    assert_eq!(None, expr(5, 5));
    let unicode = CartesianHarmonic::cartesian_expression(Lm::new(3, 3).unwrap())
        .unwrap()
        .format(SupSubFormat::Unicode);
    assert_eq!(Some("x(x²−3y²)".to_owned()), unicode);
}

#[test]
fn sup_sub_strings() {
    let mut s = SupSubString::from_normal("sp");
    s.push_sup("3");
    s.push_sub("x-1");
    assert_eq!(None, s.format(SupSubFormat::Unicode));
    assert_eq!("sp3x-1", s.format_or_normal(SupSubFormat::Unicode));
    assert_eq!("sp<sup>3</sup><sub>x-1</sub>", s.format_or_normal(SupSubFormat::Html));
    let mut t = SupSubString::new();
    t.push_nrm("H");
    t.push_sub("2");
    t.push_nrm("O");
    assert_eq!(Some("H₂O".to_owned()), t.format(SupSubFormat::Unicode));
    let mut u = SupSubString::from_normal("a");
    u.extend(t);
    assert_eq!(4, u.len());
    assert_eq!("aH2O", u.plain());
}

#[test]
fn geometry_symbols() {
    assert_eq!("σ", Geometry::Sigma.to_string());
    assert_eq!("π", Geometry::Pi.to_string());
}

#[test]
fn real_harmonic_expressions_are_distinct() {
    let mut seen = Vec::new();
    for l in 0..=5u32 {
        for m in -(l as i32)..=(l as i32) {
            let expr = RealSphericalHarmonic::expression(&Lm::new(l, m).unwrap());
            assert_eq!(expr.is_some(), l <= 4);
            if let Some(e) = expr {
                assert!(!seen.contains(&e), "{e} repeated");
                seen.push(e);
            }
        }
    }
    assert_eq!(seen.len(), 25);
}
