use wvpa::coord::MatrixPosition;
use wvpa::error::Error;
use wvpa::matrix::Matrix;
use wvpa::password::Password;

fn digit_rows(rows: [[u8; 16]; 3]) -> Vec<Vec<String>> {
    let mut tables: Vec<Vec<String>> = Vec::new();
    for row in rows.iter() {
        let mut cells: Vec<String> = Vec::new();
        for d in row.iter() {
            cells.push(format!("{}", d));
        }
        tables.push(cells);
    }
    tables
}

fn uniform_matrix(d: u8) -> Matrix {
    Matrix::from_cells(digit_rows([[d; 16]; 3])).unwrap()
}

#[test]
fn decode_splits_prefix_and_suffix() {
    let p = Password::from_str("0a1b2c0d1e2f0011xyz").unwrap();
    assert_eq!(p.entry(0), MatrixPosition { table: 0, position: 10 });
    assert_eq!(p.entry(1), MatrixPosition { table: 1, position: 11 });
    assert_eq!(p.entry(2), MatrixPosition { table: 2, position: 12 });
    assert_eq!(p.entry(3), MatrixPosition { table: 0, position: 13 });
    assert_eq!(p.entry(4), MatrixPosition { table: 1, position: 14 });
    assert_eq!(p.entry(5), MatrixPosition { table: 2, position: 15 });
    assert_eq!(p.entry(6), MatrixPosition { table: 0, position: 0 });
    assert_eq!(p.entry(7), MatrixPosition { table: 1, position: 1 });
    assert_eq!(p.suffix().as_str(), "xyz");
}

#[test]
fn decode_accepts_upper_case_hex() {
    let p = Password::from_str("0A1B2C0D1E2F0011").unwrap();
    assert_eq!(p.entry(0), MatrixPosition { table: 0, position: 10 });
    assert_eq!(p.entry(5), MatrixPosition { table: 2, position: 15 });
}

#[test]
fn round_trip_encode_of_decoded() {
    let s = "0a1b2c0d1e2f0011rest";
    let p = Password::from_str(s).unwrap();
    assert_eq!(p.encode(), s);
}

#[test]
fn round_trip_normalises_hex_case() {
    let p = Password::from_str("0A1B2C0D1E2F0011tail").unwrap();
    assert_eq!(p.encode(), "0a1b2c0d1e2f0011tail");
    let q = Password::from_str(&p.encode()).unwrap();
    assert_eq!(q.encode(), p.encode());
    for i in 0..8 {
        assert_eq!(q.entry(i), p.entry(i));
    }
    assert_eq!(q.suffix().as_str(), p.suffix().as_str());
}

#[test]
fn short_string_is_format_error() {
    assert_eq!(Password::from_str("").unwrap_err(), Error::FormatError);
    assert_eq!(Password::from_str("0a1b2c0d1e2f001").unwrap_err(), Error::FormatError);
}

#[test]
fn exactly_sixteen_chars_has_empty_suffix() {
    let p = Password::from_str("0a1b2c0d1e2f0011").unwrap();
    assert_eq!(p.suffix().as_str(), "");
}

#[test]
fn table_digit_three_is_range_error() {
    assert_eq!(
        Password::from_str("3a1b2c0d1e2f0011").unwrap_err(),
        Error::RangeError { value: 3, max: 2 }
    );
}

#[test]
fn bad_table_digit_is_digit_error_base_10() {
    assert_eq!(
        Password::from_str("xa1b2c0d1e2f0011").unwrap_err(),
        Error::DigitError { ch: 'x', radix: 10 }
    );
    // A hex letter is not a base-10 digit even though it is a hex digit.
    assert_eq!(
        Password::from_str("aa1b2c0d1e2f0011").unwrap_err(),
        Error::DigitError { ch: 'a', radix: 10 }
    );
}

#[test]
fn bad_position_digit_is_digit_error_base_16() {
    assert_eq!(
        Password::from_str("0g1b2c0d1e2f0011").unwrap_err(),
        Error::DigitError { ch: 'g', radix: 16 }
    );
}

#[test]
fn first_failing_pair_decides_the_error() {
    // Pair 0 is fine; pair 1 has the bad table digit.
    assert_eq!(
        Password::from_str("0a9b2c0d1e2f0011").unwrap_err(),
        Error::RangeError { value: 9, max: 2 }
    );
}

#[test]
fn multi_byte_char_in_prefix_is_digit_error() {
    let s = "0\u{3042}1b2c0d1e2f00112";
    assert_eq!(
        Password::from_str(s).unwrap_err(),
        Error::DigitError { ch: '\u{3042}', radix: 16 }
    );
}

#[test]
fn multi_byte_suffix_is_kept_verbatim() {
    let p = Password::from_str("0a1b2c0d1e2f0011p\u{00e4}ss").unwrap();
    assert_eq!(p.suffix().as_str(), "p\u{00e4}ss");
    assert_eq!(p.encode(), "0a1b2c0d1e2f0011p\u{00e4}ss");
}

#[test]
fn all_zero_grid_yields_zero_digits_and_suffix() {
    let matrix = uniform_matrix(0);
    let p = Password::from_str("0000000000000000XYZ").unwrap();
    assert_eq!(p.generate(&matrix), "00000000XYZ");
}

#[test]
fn generate_reads_the_selected_cells() {
    let mut rows = [[1u8; 16]; 3];
    rows[2][15] = 7;
    let matrix = Matrix::from_cells(digit_rows(rows)).unwrap();
    let p = Password::from_str("2f00000000000000").unwrap();
    let secret = p.generate(&matrix);
    assert_eq!(&secret[0..1], "7");
    assert_eq!(secret, "71111111");
}

#[test]
fn generate_is_deterministic() {
    let matrix = uniform_matrix(4);
    let p = Password::from_str("0a1b2c0d1e2f0011tail").unwrap();
    assert_eq!(p.generate(&matrix), p.generate(&matrix));
}

#[test]
fn generate_length_is_eight_plus_suffix() {
    let matrix = uniform_matrix(9);
    let p = Password::from_str("0a1b2c0d1e2f0011abcde").unwrap();
    assert_eq!(p.generate(&matrix).chars().count(), 8 + 5);
    let q = Password::from_str("0a1b2c0d1e2f0011").unwrap();
    assert_eq!(q.generate(&matrix).chars().count(), 8);
}

#[test]
fn coordinate_constructor_checks_ranges() {
    let p = MatrixPosition::new(2, 15).unwrap();
    assert_eq!(p.table, 2);
    assert_eq!(p.position, 15);
    assert_eq!(MatrixPosition::new(3, 0), Err(Error::RangeError { value: 3, max: 2 }));
    assert_eq!(MatrixPosition::new(0, 16), Err(Error::RangeError { value: 16, max: 15 }));
}
