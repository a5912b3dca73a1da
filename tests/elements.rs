use gpredict::elements::{
    line_checksum_ok, trim_line_end_bytes, ElementSet, Field, Line, OrbitalElements, TleError,
};
use gpredict::fields::{parse_decimal_field, parse_exponent_field, parse_integer_field, Decimal};

const GRIFEX_1: &str = "1 40379U 15003D   15243.42702278  .00003367  00000-0  17130-3 0  9993";
const GRIFEX_2: &str = "2 40379  99.1124 290.6779 0157088   8.9691 351.4280 15.07659299 31889";

fn dec(mantissa: i64, exponent: i32) -> Decimal {
    Decimal { mantissa, exponent }
}

#[test]
fn checksum_accepts_grifex() {
    assert!(line_checksum_ok(GRIFEX_1.as_bytes()));
    assert!(line_checksum_ok(GRIFEX_2.as_bytes()));
}

#[test]
fn checksum_rejects_wrong_digit() {
    let bad = "1 40379U 15003D   15243.42702278  .00003367  00000-0  17130-3 0  9994";
    assert!(!line_checksum_ok(bad.as_bytes()));
    let not_digit = "1 40379U 15003D   15243.42702278  .00003367  00000-0  17130-3 0  999X";
    assert!(!line_checksum_ok(not_digit.as_bytes()));
    assert!(!line_checksum_ok(b"1 40379U"));
}

#[test]
fn checksum_counts_minus_signs() {
    let iss = "1 25544U 98067A   08264.51782528 -.00002182  00000-0 -11606-4 0  2927";
    assert!(line_checksum_ok(iss.as_bytes()));
}

#[test]
fn trims_line_endings() {
    assert_eq!(trim_line_end_bytes(b"abc \r\n"), b"abc".to_vec());
    assert_eq!(trim_line_end_bytes(b"  \t"), Vec::<u8>::new());
    assert_eq!(trim_line_end_bytes(b" a b"), b" a b".to_vec());
}

#[test]
fn parses_grifex() {
    let set = ElementSet::parse("GRIFEX", GRIFEX_1, GRIFEX_2).unwrap();
    assert_eq!(set.name, "GRIFEX");
    assert_eq!(set.line1, GRIFEX_1.as_bytes().to_vec());
    assert_eq!(
        set.elements,
        OrbitalElements {
            catalog_number: 40379,
            epoch_year: 15,
            epoch_day: dec(24342702278, -8),
            mean_motion_dot: dec(3367, -8),
            mean_motion_ddot: dec(0, -5),
            bstar: dec(17130, -8),
            element_set_number: 999,
            inclination: dec(991124, -4),
            right_ascension: dec(2906779, -4),
            eccentricity: dec(157088, -7),
            argument_of_perigee: dec(89691, -4),
            mean_anomaly: dec(3514280, -4),
            mean_motion: dec(1507659299, -8),
            revolution_number: 3188,
        }
    );
}

#[test]
fn parses_negative_fields() {
    let l1 = "1 25544U 98067A   08264.51782528 -.00002182  00000-0 -11606-4 0  2927";
    let l2 = "2 25544  51.6416 247.4627 0006703 130.5360 325.0288 15.72125391563537";
    let set = ElementSet::parse("ISS", l1, l2).unwrap();
    assert_eq!(set.elements.mean_motion_dot, dec(-2182, -8));
    assert_eq!(set.elements.bstar, dec(-11606, -9));
    assert_eq!(set.elements.revolution_number, 56353);
    assert_eq!(set.elements.eccentricity, dec(6703, -7));
}

#[test]
fn accepts_line_endings() {
    let l1 = format!("{}\r\n", GRIFEX_1);
    let l2 = format!("{}  \n", GRIFEX_2);
    let set = ElementSet::parse("GRIFEX", &l1, &l2).unwrap();
    assert_eq!(set.line2, GRIFEX_2.as_bytes().to_vec());
}

#[test]
fn rejects_bad_length() {
    let short = &GRIFEX_1[..68];
    assert!(matches!(ElementSet::parse("X", short, GRIFEX_2), Err(TleError::BadLength(Line::One))));
    let long = format!("{}9", GRIFEX_2);
    assert!(matches!(ElementSet::parse("X", GRIFEX_1, &long), Err(TleError::BadLength(Line::Two))));
}

#[test]
fn rejects_checksum_mismatch() {
    let bad1 = "1 40379U 15003D   15243.42702278  .00003367  00000-0  17130-3 0  9990";
    assert!(matches!(
        ElementSet::parse("X", bad1, GRIFEX_2),
        Err(TleError::ChecksumMismatch(Line::One))
    ));
    let bad2 = "2 40379  99.1124 290.6779 0157088   8.9691 351.4280 15.07659299 31881";
    assert!(matches!(
        ElementSet::parse("X", GRIFEX_1, bad2),
        Err(TleError::ChecksumMismatch(Line::Two))
    ));
}

#[test]
fn rejects_catalog_mismatch() {
    let other = "2 40378  99.1124 290.6779 0157088   8.9691 351.4280 15.07659299 31888";
    assert!(line_checksum_ok(other.as_bytes()));
    assert!(matches!(ElementSet::parse("X", GRIFEX_1, other), Err(TleError::CatalogMismatch)));
}

#[test]
fn rejects_unparsable_field() {
    let bad = "2 40379  99.1A24 290.6779 0157088   8.9691 351.4280 15.07659299 31888";
    assert!(line_checksum_ok(bad.as_bytes()));
    assert!(matches!(
        ElementSet::parse("X", GRIFEX_1, bad),
        Err(TleError::FieldParse(Field::Inclination))
    ));
    let blank = "1 40379U 15003D   15243.42702278  .00003367  00000-0          0  9997";
    assert!(line_checksum_ok(blank.as_bytes()));
    assert!(matches!(
        ElementSet::parse("X", blank, GRIFEX_2),
        Err(TleError::FieldParse(Field::BStar))
    ));
}

#[test]
fn decimal_fields() {
    assert_eq!(parse_decimal_field(b"  8.9691", 0, 8), Some(dec(89691, -4)));
    assert_eq!(parse_decimal_field(b"-.5", 0, 3), Some(dec(-5, -1)));
    assert_eq!(parse_decimal_field(b"+12.", 0, 4), Some(dec(12, 0)));
    assert_eq!(parse_decimal_field(b"  42", 0, 4), Some(dec(42, 0)));
    assert_eq!(parse_decimal_field(b"   .", 0, 4), None);
    assert_eq!(parse_decimal_field(b"    ", 0, 4), None);
    assert_eq!(parse_decimal_field(b"1.2.3", 0, 5), None);
    assert_eq!(parse_decimal_field(b"1 2", 0, 3), None);
}

#[test]
fn integer_and_exponent_fields() {
    assert_eq!(parse_integer_field(b" 3188", 0, 5), Some(3188));
    assert_eq!(parse_integer_field(b"0157088", 0, 7), Some(157088));
    assert_eq!(parse_integer_field(b"  ", 0, 2), None);
    assert_eq!(parse_integer_field(b"1-2", 0, 3), None);
    assert_eq!(parse_exponent_field(b"-11606-4", 0), Some(dec(-11606, -9)));
    assert_eq!(parse_exponent_field(b" 12345+2", 0), Some(dec(12345, -3)));
    assert_eq!(parse_exponent_field(b" 12345 2", 0), None);
    assert_eq!(parse_exponent_field(b" 1234a-2", 0), None);
}

#[test]
fn epoch_as_julian_date() {
    let set = ElementSet::parse("GRIFEX", GRIFEX_1, GRIFEX_2).unwrap();
    // 2015, day 243.42702278: Julian date 2457265.92702278.
    assert_eq!(set.elements.epoch_julian(), Some(212_307_776_094_768_192_000));
    let mut e = set.elements;
    e.epoch_year = 99;
    e.epoch_day = dec(1, 0);
    // 1999-01-01T00:00:00Z
    assert_eq!(e.epoch_julian(), Some(gpredict::calendar::julian_timestamp(
        gpredict::calendar::CivilTime::new(1999, 1, 1, 0, 0, 0, 0).unwrap()
    )));
    e.epoch_day = dec(-1, 0);
    assert_eq!(e.epoch_julian(), None);
}
