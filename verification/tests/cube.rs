use evanescence_core::orbital::gaussian_mo::{
    parse_cube, try_parse_cube, CubeParse, FloatCheck, IntErrorKind, ParseCubeError,
};

const CUBE: &str = "  Water MO 5 \n\
 Generated by hand\n\
   -1   -1.000000   -1.000000   -1.000000    1\n\
    2    2.000000    0.000000    0.000000\n\
    2    0.000000    2.000000    0.000000\n\
   -2    0.000000    0.000000    2.000000\n\
    8    8.000000    0.000000    0.000000    0.117300\n\
    1    5\n\
  1.0E-01  2.0E-01  3.0E-01\n\
  4.0E-01  5.0E-01\n\
  6.0E-01  7.0E-01  8.0E-01\n";

fn token(text: &str, span: (usize, usize)) -> String {
    text.chars().skip(span.0).take(span.1 - span.0).collect()
}

fn header_with(third_line: &str) -> String {
    format!("comment\ncomment\n{third_line}\n")
}

fn outcome_error(text: &str) -> ParseCubeError {
    match parse_cube(text).outcome {
        Ok(_) => panic!("expected an error"),
        Err(e) => e,
    }
}

#[test]
fn cube_layout() {
    let CubeParse { checks, outcome } = parse_cube(CUBE);
    let layout = outcome.unwrap();
    assert_eq!(layout.comment_1, "Water MO 5");
    assert_eq!(layout.comment_2, "Generated by hand");
    assert_eq!(layout.mo_number, 5);
    let origin: Vec<String> = layout.initial_point.iter().map(|s| token(CUBE, *s)).collect();
    assert_eq!(origin, vec!["-1.000000", "-1.000000", "-1.000000"]);
    assert_eq!(
        layout.axes.iter().map(|a| a.count).collect::<Vec<_>>(),
        vec![2, 2, 2]
    );
    assert_eq!(
        layout.axes.iter().map(|a| a.in_angstrom).collect::<Vec<_>>(),
        vec![true, true, false]
    );
    assert_eq!(token(CUBE, layout.axes[1].step[1]), "2.000000");
    assert_eq!(layout.atoms.len(), 1);
    assert_eq!(layout.atoms[0].atomic_number, 8);
    assert_eq!(token(CUBE, layout.atoms[0].charge), "8.000000");
    assert_eq!(token(CUBE, layout.atoms[0].position[2]), "0.117300");
    let values: Vec<String> = layout.values.iter().map(|s| token(CUBE, *s)).collect();
    assert_eq!(
        values,
        vec![
            "1.0E-01", "2.0E-01", "3.0E-01", "4.0E-01", "5.0E-01", "6.0E-01", "7.0E-01", "8.0E-01"
        ]
    );
    // 3 numbers of the first point, 3 × (3 numbers + 1 axis check), 4 numbers of the atom,
    // 8 values.
    assert_eq!(checks.len(), 3 + 3 * 4 + 4 + 8);
    assert!(matches!(checks[0], FloatCheck::Number(_, _)));
    assert_eq!(checks[6], FloatCheck::AlongAxis(0, true));
    assert_eq!(checks[10], FloatCheck::AlongAxis(1, true));
    assert_eq!(checks[14], FloatCheck::AlongAxis(2, false));
    match checks[15] {
        FloatCheck::Number(a, e) => assert_eq!(token(CUBE, (a, e)), "8.000000"),
        other => panic!("unexpected check {other:?}"),
    }
}

#[test]
fn cube_crlf_line_endings() {
    let crlf = CUBE.replace('\n', "\r\n");
    let layout = parse_cube(&crlf).outcome.unwrap();
    assert_eq!(layout.comment_1, "Water MO 5");
    assert_eq!(layout.values.len(), 8);
    assert_eq!(token(&crlf, layout.values[7]), "8.0E-01");
}

#[test]
fn cube_unexpected_eof() {
    assert_eq!(outcome_error(""), ParseCubeError::UnexpectedEof);
    assert_eq!(outcome_error("only one line\n"), ParseCubeError::UnexpectedEof);
    assert_eq!(outcome_error("a\nb\n"), ParseCubeError::UnexpectedEof);
    // A missing coordinate of the first point is reported as the end of the file.
    let r = parse_cube(&header_with("-1 0.0 0.0"));
    assert_eq!(r.outcome.err(), Some(ParseCubeError::UnexpectedEof));
    assert_eq!(r.checks.len(), 2);
}

#[test]
fn cube_unexpected_eol() {
    assert_eq!(outcome_error(&header_with("   ")), ParseCubeError::UnexpectedEol);
    assert_eq!(outcome_error(&header_with("-1 0 0 0")), ParseCubeError::UnexpectedEol);
}

#[test]
fn cube_invalid_ints_match_the_standard_library() {
    for token in ["abc", "+", "-", "1x", "99999999999", "-99999999999", "2147483648", "-2147483649", "+-1"] {
        let expected = token.parse::<i32>().unwrap_err();
        let kind = match expected.kind() {
            std::num::IntErrorKind::Empty => IntErrorKind::Empty,
            std::num::IntErrorKind::InvalidDigit => IntErrorKind::InvalidDigit,
            std::num::IntErrorKind::PosOverflow => IntErrorKind::PosOverflow,
            std::num::IntErrorKind::NegOverflow => IntErrorKind::NegOverflow,
            other => panic!("unexpected kind {other:?}"),
        };
        assert_eq!(
            outcome_error(&header_with(token)),
            ParseCubeError::InvalidInt(kind),
            "token {token}"
        );
    }
    // The number of values per point is unsigned: a minus sign is not a digit there.
    assert_eq!(
        outcome_error(&header_with("-1 0 0 0 -1")),
        ParseCubeError::InvalidInt(IntErrorKind::InvalidDigit)
    );
    assert!("-1".parse::<u32>().is_err());
}

#[test]
fn cube_not_mo() {
    assert_eq!(outcome_error(&header_with("0 0 0 0 1")), ParseCubeError::NotMo);
    assert_eq!(outcome_error(&header_with("3 0 0 0 1")), ParseCubeError::NotMo);
}

#[test]
fn cube_too_many_values_per_point() {
    assert_eq!(
        outcome_error(&header_with("-1 0 0 0 2")),
        ParseCubeError::TooManyValuesPerPoint(2)
    );
}

#[test]
fn cube_too_many_mos() {
    let text = CUBE.replace("\n1    5\n", "\n2    5\n");
    assert_ne!(text, CUBE);
    assert_eq!(outcome_error(&text), ParseCubeError::TooManyMos(2));
}

#[test]
fn cube_incorrect_value_count() {
    let text = CUBE.replace("4.0E-01  5.0E-01\n", "4.0E-01\n");
    assert_ne!(text, CUBE);
    let r = parse_cube(&text);
    assert_eq!(r.outcome.err(), Some(ParseCubeError::IncorrectValueCount(8, 7)));
    // Every value is still listed to be read before the count is compared.
    assert_eq!(r.checks.len(), 3 + 3 * 4 + 4 + 7);
}

#[test]
fn cube_overflowing_point_count() {
    let text = format!(
        "c\nc\n-1 0 0 0 1\n{n} 1 0 0\n{n} 0 1 0\n0 0 0 1\n1 1 0 0 0\n1 1\n",
        n = isize::MAX
    );
    let overflow = match try_parse_cube(&text) {
        Err(overflow) => overflow,
        Ok(_) => panic!("expected the point count to overflow"),
    };
    // The checks met before the count: 3 numbers of the first point, 3 × (3 numbers + 1 axis
    // check), 4 numbers of the atom.
    assert_eq!(overflow.checks.len(), 3 + 3 * 4 + 4);
    assert_eq!(overflow.checks[6], FloatCheck::AlongAxis(0, true));
    match overflow.checks[0] {
        FloatCheck::Number(a, e) => assert_eq!(token(&text, (a, e)), "0"),
        other => panic!("unexpected check {other:?}"),
    }
    assert!(try_parse_cube(CUBE).is_ok());
}
