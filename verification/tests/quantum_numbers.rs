use evanescence_core::orbital::quantum_numbers::{InvalidQnError, Lm, Nl, Qn};

fn qn(n: u32, l: u32, m: i32) -> Qn {
    Qn::new(n, l, m).unwrap()
}

#[test]
fn clamping_setters() {
    let mut qn_ = qn(5, 4, -3);
    qn_.set_n_clamping(3).unwrap();
    assert_eq!(qn(3, 2, -2), qn_);
    qn_.set_l_clamping(0).unwrap();
    assert_eq!(qn(3, 0, 0), qn_);
    qn_ = qn(4, 2, 1);
    qn_.set_n_clamping(1).unwrap();
    assert_eq!(qn(1, 0, 0), qn_);
}

#[test]
fn m_setter() {
    let mut qn_ = qn(5, 4, -3);
    qn_.set_m(2).unwrap();
    assert_eq!(qn(5, 4, 2), qn_);
    qn_.set_m(-4).unwrap();
    assert_eq!(qn(5, 4, -4), qn_);
}

#[test]
fn invalid_n_setter() {
    let mut qn_ = qn(5, 4, -3);
    assert_eq!(Err(InvalidQnError::N), qn_.set_n_clamping(0));
}

#[test]
fn invalid_enumerate() {
    assert!(Qn::enumerate_up_to_n(0).is_err());
}

#[test]
fn invalid_l_setter() {
    let mut qn_ = qn(5, 4, -3);
    assert_eq!(Err(InvalidQnError::L { n: 5, l: 5 }), qn_.set_l_clamping(5));
}

#[test]
fn invalid_m_setter() {
    let mut qn_ = qn(5, 4, -3);
    assert_eq!(Err(InvalidQnError::M { l: 4, m: 5 }), qn_.set_m(5));
}

#[test]
fn enumerate_l_m() {
    assert_eq!(
        vec![0],
        Qn::enumerate_l_for_n(1).unwrap().collect::<Vec<_>>()
    );
    assert_eq!(
        vec![0, 1, 2],
        Qn::enumerate_l_for_n(3).unwrap().collect::<Vec<_>>()
    );
    assert_eq!(vec![0], Qn::enumerate_m_for_l(0).collect::<Vec<_>>());
    assert_eq!(
        vec![-2, -1, 0, 1, 2],
        Qn::enumerate_m_for_l(2).collect::<Vec<_>>()
    );
}

#[test]
fn enumerate_qn() {
    let expected = &[
        qn(1, 0, 0),
        qn(2, 0, 0),
        qn(2, 1, -1),
        qn(2, 1, 0),
        qn(2, 1, 1),
        qn(3, 0, 0),
        qn(3, 1, -1),
        qn(3, 1, 0),
        qn(3, 1, 1),
        // ^^ There are 9 quantum numbers up until n=3, l=2. ^^
        qn(3, 2, -2),
        qn(3, 2, -1),
        qn(3, 2, 0),
        qn(3, 2, 1),
        qn(3, 2, 2),
    ];
    for (exp, test) in expected.iter().zip(Qn::enumerate_up_to_n(3).unwrap()) {
        assert_eq!(exp, &test);
    }
    for (exp, test) in expected[..9]
        .iter()
        .zip(Qn::enumerate_up_to_n_l(3, 1).unwrap())
    {
        assert_eq!(exp, &test);
    }
}

#[test]
fn invalid_constructions() {
    assert_eq!(Err(InvalidQnError::N), Qn::new(0, 0, 0));
    assert_eq!(Err(InvalidQnError::M { l: 1, m: -2 }), Qn::new(2, 1, -2));
    assert_eq!(Err(InvalidQnError::L { n: 2, l: 5 }), Qn::new(2, 5, 3));
    assert_eq!(Err(InvalidQnError::L { n: 4, l: 4 }), Qn::new(4, 4, 3));
    assert!(Qn::new(4, 3, -3).is_ok());
}

#[test]
fn enumeration_counts_and_order() {
    // 1 + 4 + 9 + 16 = 30 quantum numbers up to n = 4.
    let all = Qn::enumerate_up_to_n(4).unwrap();
    assert_eq!(30, all.len());
    assert!(all.windows(2).all(|w| w[0] < w[1]));
    assert!(all.iter().all(|q| q.n() <= 4 && q.l() < q.n() && q.m().unsigned_abs() <= q.l()));
    let bounded = Qn::enumerate_up_to_n_l(4, 1).unwrap();
    let filtered: Vec<Qn> = all.into_iter().filter(|q| q.l() <= 1).collect();
    assert_eq!(filtered, bounded);
    assert_eq!(Err(InvalidQnError::L { n: 3, l: 3 }), Qn::enumerate_up_to_n_l(3, 3).map(|v| v.len()));
    assert_eq!(Err(InvalidQnError::N), Qn::enumerate_l_for_n(0));
}

#[test]
fn clamping_keeps_compatible_values() {
    let mut q = qn(5, 2, -2);
    q.set_n_clamping(7).unwrap();
    assert_eq!(qn(7, 2, -2), q);
    q.set_n_clamping(2).unwrap();
    assert_eq!(qn(2, 1, -1), q);
    q.set_n_clamping(2).unwrap();
    assert_eq!(qn(2, 1, -1), q);
    q.set_l_clamping(1).unwrap();
    assert_eq!(qn(2, 1, -1), q);
    let mut q = qn(4, 3, 3);
    q.set_l_clamping(1).unwrap();
    assert_eq!(qn(4, 1, 1), q);
    assert_eq!(Err(InvalidQnError::L { n: 4, l: 4 }), q.set_l_clamping(4));
    assert_eq!(qn(4, 1, 1), q);
}

#[test]
fn display_strings() {
    assert_eq!("ψ42-1", qn(4, 2, -1).to_string_as_wavefunction());
    assert_eq!("ψ100", Qn::default().to_string_as_wavefunction());
    assert_eq!("42n1", qn(4, 2, -1).to_string());
    assert_eq!("1031", qn(10, 3, 1).to_string());
}

#[test]
fn projections() {
    let q = qn(6, 3, -2);
    let nl = Nl::from(q);
    assert_eq!((6, 3), (nl.n(), nl.l()));
    let lm = Lm::from(q);
    assert_eq!((3, -2), (lm.l(), lm.m()));
    assert_eq!(Err(InvalidQnError::N), Nl::new(0, 0));
    assert_eq!(Err(InvalidQnError::L { n: 2, l: 2 }), Nl::new(2, 2));
    assert_eq!(Err(InvalidQnError::M { l: 2, m: -3 }), Lm::new(2, -3));
    assert!(Lm::new(2, -2).is_ok());
}
