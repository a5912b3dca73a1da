//! Two-line element sets: the checks on the two lines, and the parse of
//! their fields.
//!
//! Each line of a set is 69 columns once the whitespace at its end is
//! stripped. Its last column is a checksum: the sum of its digits, with each
//! minus sign counted as 1, modulo 10. Columns 3 to 7 of both lines hold the
//! satellite's catalog number, which must agree.

use vstd::prelude::*;
use vstd::string::StringSliceAdditionalSpecFns;
use crate::calendar::{julian_date_of_year, year_start_julian, NANOS_PER_DAY};
use crate::fields::{
    decimal_field, exponent_field, integer_field, is_digit, parse_decimal_field,
    parse_exponent_field, parse_integer_field, pow10, pow10_exec, Decimal,
};

verus! {

pub const LINE_LENGTH: usize = 69;

/// Which of the two lines of a set.
#[derive(Clone, Copy, Debug, PartialEq, Eq)]
pub enum Line {
    One,
    Two,
}

/// Why a pair of lines is not a valid element set.
#[derive(Clone, Copy, Debug, PartialEq, Eq)]
pub enum TleError {
    /// The line is not 69 columns long once its trailing whitespace is stripped.
    BadLength(Line),
    /// The line's last column is not the checksum of the columns before it.
    ChecksumMismatch(Line),
    /// The two lines name different catalog numbers.
    CatalogMismatch,
    /// A field could not be parsed.
    FieldParse(Field),
}

/// The numeric fields of an element set.
#[derive(Clone, Copy, Debug, PartialEq, Eq)]
pub enum Field {
    CatalogNumber,
    EpochYear,
    EpochDay,
    MeanMotionDot,
    MeanMotionDdot,
    BStar,
    ElementSetNumber,
    Inclination,
    RightAscension,
    Eccentricity,
    ArgumentOfPerigee,
    MeanAnomaly,
    MeanMotion,
    RevolutionNumber,
}

/// The fields of an element set, as written in its two lines.
#[derive(Clone, Copy, Debug, PartialEq, Eq)]
pub struct OrbitalElements {
    /// Satellite catalog number.
    pub catalog_number: i64,
    /// Last two digits of the epoch's year.
    pub epoch_year: i64,
    /// Day of the year of the epoch, with its fraction.
    pub epoch_day: Decimal,
    /// First derivative of the mean motion over two [revs/day^2].
    pub mean_motion_dot: Decimal,
    /// Second derivative of the mean motion over six [revs/day^3].
    pub mean_motion_ddot: Decimal,
    /// Drag term B* [1/earth radii].
    pub bstar: Decimal,
    pub element_set_number: i64,
    /// Inclination [deg].
    pub inclination: Decimal,
    /// Right ascension of the ascending node [deg].
    pub right_ascension: Decimal,
    /// Eccentricity, from its seven digits with the implied leading point.
    pub eccentricity: Decimal,
    /// Argument of perigee [deg].
    pub argument_of_perigee: Decimal,
    /// Mean anomaly [deg].
    pub mean_anomaly: Decimal,
    /// Mean motion [revs/day].
    pub mean_motion: Decimal,
    /// Revolution number at the epoch.
    pub revolution_number: i64,
}

/// A validated two-line element set and its parsed fields.
pub struct ElementSet {
    /// Display name of the satellite.
    pub name: String,
    /// First line, trailing whitespace stripped.
    pub line1: Vec<u8>,
    /// Second line, trailing whitespace stripped.
    pub line2: Vec<u8>,
    /// The fields of the two lines.
    pub elements: OrbitalElements,
}

pub open spec fn is_line_end_space(b: u8) -> bool {
    b == 0x20 || b == 0x09 || b == 0x0d || b == 0x0a
}

/// `s` without the whitespace at its end.
pub open spec fn trim_line_end(s: Seq<u8>) -> Seq<u8>
    decreases s.len(),
{
    if s.len() > 0 && is_line_end_space(s.last()) {
        trim_line_end(s.drop_last())
    } else {
        s
    }
}

/// What a column adds to the checksum: a digit its value, a minus sign 1.
pub open spec fn checksum_weight(b: u8) -> int {
    if is_digit(b) {
        b - 0x30
    } else if b == 0x2d {
        1
    } else {
        0
    }
}

pub open spec fn checksum_sum(s: Seq<u8>) -> int
    decreases s.len(),
{
    if s.len() == 0 {
        0
    } else {
        checksum_sum(s.drop_last()) + checksum_weight(s.last())
    }
}

/// A line of the right length whose last column is the checksum of the others.
pub open spec fn checksum_ok(line: Seq<u8>) -> bool {
    &&& line.len() == LINE_LENGTH
    &&& is_digit(line[LINE_LENGTH - 1])
    &&& line[LINE_LENGTH - 1] - 0x30 == checksum_sum(line.subrange(0, LINE_LENGTH - 1)) % 10
}

pub open spec fn catalogs_match(line1: Seq<u8>, line2: Seq<u8>) -> bool {
    line1.subrange(2, 7) == line2.subrange(2, 7)
}

/// Whether `field` of the lines `line1` and `line2` can be read.
pub open spec fn field_ok(line1: Seq<u8>, line2: Seq<u8>, field: Field) -> bool {
    match field {
        Field::CatalogNumber => integer_field(line1, 2, 7).is_some(),
        Field::EpochYear => integer_field(line1, 18, 20).is_some(),
        Field::EpochDay => decimal_field(line1, 20, 32).is_some(),
        Field::MeanMotionDot => decimal_field(line1, 33, 43).is_some(),
        Field::MeanMotionDdot => exponent_field(line1, 44).is_some(),
        Field::BStar => exponent_field(line1, 53).is_some(),
        Field::ElementSetNumber => integer_field(line1, 64, 68).is_some(),
        Field::Inclination => decimal_field(line2, 8, 16).is_some(),
        Field::RightAscension => decimal_field(line2, 17, 25).is_some(),
        Field::Eccentricity => integer_field(line2, 26, 33).is_some(),
        Field::ArgumentOfPerigee => decimal_field(line2, 34, 42).is_some(),
        Field::MeanAnomaly => decimal_field(line2, 43, 51).is_some(),
        Field::MeanMotion => decimal_field(line2, 52, 63).is_some(),
        Field::RevolutionNumber => integer_field(line2, 63, 68).is_some(),
    }
}

pub open spec fn all_fields_ok(line1: Seq<u8>, line2: Seq<u8>) -> bool {
    &&& field_ok(line1, line2, Field::CatalogNumber)
    &&& field_ok(line1, line2, Field::EpochYear)
    &&& field_ok(line1, line2, Field::EpochDay)
    &&& field_ok(line1, line2, Field::MeanMotionDot)
    &&& field_ok(line1, line2, Field::MeanMotionDdot)
    &&& field_ok(line1, line2, Field::BStar)
    &&& field_ok(line1, line2, Field::ElementSetNumber)
    &&& field_ok(line1, line2, Field::Inclination)
    &&& field_ok(line1, line2, Field::RightAscension)
    &&& field_ok(line1, line2, Field::Eccentricity)
    &&& field_ok(line1, line2, Field::ArgumentOfPerigee)
    &&& field_ok(line1, line2, Field::MeanAnomaly)
    &&& field_ok(line1, line2, Field::MeanMotion)
    &&& field_ok(line1, line2, Field::RevolutionNumber)
}

/// The first field, in the order of the columns, that cannot be read.
pub open spec fn first_bad_field(line1: Seq<u8>, line2: Seq<u8>) -> Field {
    if !field_ok(line1, line2, Field::CatalogNumber) {
        Field::CatalogNumber
    } else if !field_ok(line1, line2, Field::EpochYear) {
        Field::EpochYear
    } else if !field_ok(line1, line2, Field::EpochDay) {
        Field::EpochDay
    } else if !field_ok(line1, line2, Field::MeanMotionDot) {
        Field::MeanMotionDot
    } else if !field_ok(line1, line2, Field::MeanMotionDdot) {
        Field::MeanMotionDdot
    } else if !field_ok(line1, line2, Field::BStar) {
        Field::BStar
    } else if !field_ok(line1, line2, Field::ElementSetNumber) {
        Field::ElementSetNumber
    } else if !field_ok(line1, line2, Field::Inclination) {
        Field::Inclination
    } else if !field_ok(line1, line2, Field::RightAscension) {
        Field::RightAscension
    } else if !field_ok(line1, line2, Field::Eccentricity) {
        Field::Eccentricity
    } else if !field_ok(line1, line2, Field::ArgumentOfPerigee) {
        Field::ArgumentOfPerigee
    } else if !field_ok(line1, line2, Field::MeanAnomaly) {
        Field::MeanAnomaly
    } else if !field_ok(line1, line2, Field::MeanMotion) {
        Field::MeanMotion
    } else {
        Field::RevolutionNumber
    }
}

/// The fields of two lines whose fields can all be read.
pub open spec fn elements_of(line1: Seq<u8>, line2: Seq<u8>) -> OrbitalElements {
    OrbitalElements {
        catalog_number: integer_field(line1, 2, 7).unwrap() as i64,
        epoch_year: integer_field(line1, 18, 20).unwrap() as i64,
        epoch_day: decimal_field(line1, 20, 32).unwrap(),
        mean_motion_dot: decimal_field(line1, 33, 43).unwrap(),
        mean_motion_ddot: exponent_field(line1, 44).unwrap(),
        bstar: exponent_field(line1, 53).unwrap(),
        element_set_number: integer_field(line1, 64, 68).unwrap() as i64,
        inclination: decimal_field(line2, 8, 16).unwrap(),
        right_ascension: decimal_field(line2, 17, 25).unwrap(),
        eccentricity: Decimal { mantissa: integer_field(line2, 26, 33).unwrap() as i64, exponent: -7i32 },
        argument_of_perigee: decimal_field(line2, 34, 42).unwrap(),
        mean_anomaly: decimal_field(line2, 43, 51).unwrap(),
        mean_motion: decimal_field(line2, 52, 63).unwrap(),
        revolution_number: integer_field(line2, 63, 68).unwrap() as i64,
    }
}

/// The full year of a two-digit epoch year: 57 to 99 are 1957 to 1999,
/// 00 to 56 are 2000 to 2056.
pub open spec fn epoch_full_year(yy: int) -> int {
    if yy < 57 {
        2000 + yy
    } else {
        1900 + yy
    }
}

/// The Julian date of an element set's epoch, to the nanosecond below it,
/// where the epoch's year has two digits and its day is a nonnegative
/// decimal with at most twelve fraction digits.
pub open spec fn epoch_julian_of(e: OrbitalElements) -> Option<int> {
    if 0 <= e.epoch_year <= 99 && 0 <= e.epoch_day.mantissa && -12 <= e.epoch_day.exponent <= 0 {
        Some(
            year_start_julian(epoch_full_year(e.epoch_year as int)) + e.epoch_day.mantissa
                * NANOS_PER_DAY / pow10((-e.epoch_day.exponent) as nat),
        )
    } else {
        None
    }
}

impl OrbitalElements {
    /// The Julian date of the epoch, or `None` where the epoch fields are
    /// out of their ranges.
    pub fn epoch_julian(&self) -> (r: Option<i128>)
        ensures
            r == match epoch_julian_of(*self) {
                Some(j) => Some(j as i128),
                None => None::<i128>,
            },
    {
        let yy = self.epoch_year;
        let day = self.epoch_day;
        if !(0 <= yy && yy <= 99 && 0 <= day.mantissa && -12 <= day.exponent && day.exponent <= 0) {
            return None;
        }
        let year: i32 = if yy < 57 {
            2000 + yy as i32
        } else {
            1900 + yy as i32
        };
        let scale = pow10_exec((-day.exponent) as usize);
        proof {
            crate::fields::lemma_pow10_bound((-day.exponent) as nat);
            assert(day.mantissa * NANOS_PER_DAY <= 9_223_372_036_854_775_807 * 86_400_000_000_000)
                by (nonlinear_arith)
                requires
                    0 <= day.mantissa <= 9_223_372_036_854_775_807,
            ;
        }
        let start = julian_date_of_year(year);
        proof {
            crate::calendar::lemma_year_start_bound(year as int);
        }
        Some(start + (day.mantissa as i128) * NANOS_PER_DAY / (scale as i128))
    }
}

/// `line` without the whitespace at its end.
pub fn trim_line_end_bytes(line: &[u8]) -> (r: Vec<u8>)
    ensures
        r@ == trim_line_end(line@),
{
    let mut n: usize = line.len();
    assert(line@.subrange(0, n as int) =~= line@);
    while n > 0 && (line[n - 1] == 0x20 || line[n - 1] == 0x09 || line[n - 1] == 0x0d || line[n
        - 1] == 0x0a)
        invariant
            n <= line@.len(),
            trim_line_end(line@.subrange(0, n as int)) == trim_line_end(line@),
        decreases n,
    {
        assert(line@.subrange(0, n as int).drop_last() =~= line@.subrange(0, n - 1));
        n -= 1;
    }
    let mut r: Vec<u8> = Vec::new();
    let mut i: usize = 0;
    while i < n
        invariant
            i <= n <= line@.len(),
            r@ == line@.subrange(0, i as int),
        decreases n - i,
    {
        r.push(line[i]);
        i += 1;
        assert(r@ =~= line@.subrange(0, i as int));
    }
    assert(line@.subrange(0, n as int) =~= r@);
    r
}

/// Whether `line` is 69 columns long and ends in the checksum of the
/// columns before its last.
pub fn line_checksum_ok(line: &[u8]) -> (r: bool)
    ensures
        r == checksum_ok(line@),
{
    if line.len() != LINE_LENGTH {
        return false;
    }
    let mut sum: u32 = 0;
    let mut i: usize = 0;
    while i < LINE_LENGTH - 1
        invariant
            line@.len() == LINE_LENGTH,
            i <= LINE_LENGTH - 1,
            sum == checksum_sum(line@.subrange(0, i as int)),
            sum <= 9 * i,
        decreases LINE_LENGTH - 1 - i,
    {
        let b = line[i];
        assert(line@.subrange(0, i + 1).drop_last() =~= line@.subrange(0, i as int));
        if 0x30 <= b && b <= 0x39 {
            sum += (b - 0x30) as u32;
        } else if b == 0x2d {
            sum += 1;
        }
        i += 1;
    }
    let last = line[LINE_LENGTH - 1];
    0x30 <= last && last <= 0x39 && (last - 0x30) as u32 == sum % 10
}

/// Whether the two lines carry the same catalog number.
fn same_catalog(line1: &[u8], line2: &[u8]) -> (r: bool)
    requires
        line1@.len() == LINE_LENGTH,
        line2@.len() == LINE_LENGTH,
    ensures
        r == catalogs_match(line1@, line2@),
{
    let mut i: usize = 2;
    while i < 7
        invariant
            2 <= i <= 7,
            line1@.len() == LINE_LENGTH,
            line2@.len() == LINE_LENGTH,
            forall|j: int| 2 <= j < i ==> line1@[j] == line2@[j],
        decreases 7 - i,
    {
        if line1[i] != line2[i] {
            assert(line1@.subrange(2, 7)[i - 2] != line2@.subrange(2, 7)[i - 2]);
            return false;
        }
        i += 1;
    }
    assert(line1@.subrange(2, 7) =~= line2@.subrange(2, 7));
    true
}

/// The checks on the two lines that come before their fields are parsed.
pub open spec fn lines_valid(line1: Seq<u8>, line2: Seq<u8>) -> bool {
    &&& line1.len() == LINE_LENGTH
    &&& line2.len() == LINE_LENGTH
    &&& checksum_ok(line1)
    &&& checksum_ok(line2)
    &&& catalogs_match(line1, line2)
}

/// A set whose lines do not both end in their checksum is rejected: no pair
/// of lines in which either last column differs from the sum of that line's
/// digits (a minus sign counting 1) modulo 10 passes the checks that
/// `ElementSet::parse` requires for success.
pub proof fn lemma_checksum_mismatch_rejected(line1: Seq<u8>, line2: Seq<u8>)
    requires
        line1.len() == LINE_LENGTH,
        line2.len() == LINE_LENGTH,
        !is_digit(line1[LINE_LENGTH - 1]) || line1[LINE_LENGTH - 1] - 0x30 != checksum_sum(
            line1.subrange(0, LINE_LENGTH - 1),
        ) % 10 || !is_digit(line2[LINE_LENGTH - 1]) || line2[LINE_LENGTH - 1] - 0x30
            != checksum_sum(line2.subrange(0, LINE_LENGTH - 1)) % 10,
    ensures
        !lines_valid(line1, line2),
{
}

impl ElementSet {
    /// Validates the two lines of an element set named `name` and parses
    /// their fields. The checks come in this order: the length of each line,
    /// the checksum of each line, the catalog numbers, the fields.
    pub fn parse(name: &str, line1: &str, line2: &str) -> (r: Result<ElementSet, TleError>)
        ensures
            ({
                let t1 = trim_line_end(line1.spec_bytes());
                let t2 = trim_line_end(line2.spec_bytes());
                &&& r.is_ok() <==> lines_valid(t1, t2) && all_fields_ok(t1, t2)
                &&& r matches Ok(e) ==> e.name@ == name@ && e.line1@ == t1 && e.line2@ == t2
                    && e.elements == elements_of(t1, t2)
                &&& (r matches Err(TleError::BadLength(Line::One))) <==> t1.len() != LINE_LENGTH
                &&& (r matches Err(TleError::BadLength(Line::Two))) <==> t1.len() == LINE_LENGTH
                    && t2.len() != LINE_LENGTH
                &&& (r matches Err(TleError::ChecksumMismatch(Line::One))) <==> t1.len() == LINE_LENGTH
                    && t2.len() == LINE_LENGTH && !checksum_ok(t1)
                &&& (r matches Err(TleError::ChecksumMismatch(Line::Two))) <==> t1.len() == LINE_LENGTH
                    && t2.len() == LINE_LENGTH && checksum_ok(t1) && !checksum_ok(t2)
                &&& (r matches Err(TleError::CatalogMismatch)) <==> t1.len() == LINE_LENGTH
                    && t2.len() == LINE_LENGTH && checksum_ok(t1) && checksum_ok(t2)
                    && !catalogs_match(t1, t2)
                &&& (r matches Err(TleError::FieldParse(_))) <==> lines_valid(t1, t2)
                    && !all_fields_ok(t1, t2)
                &&& r matches Err(TleError::FieldParse(f)) ==> f == first_bad_field(t1, t2)
            }),
    {
        let t1 = trim_line_end_bytes(line1.as_bytes());
        let t2 = trim_line_end_bytes(line2.as_bytes());
        if t1.len() != LINE_LENGTH {
            return Err(TleError::BadLength(Line::One));
        }
        if t2.len() != LINE_LENGTH {
            return Err(TleError::BadLength(Line::Two));
        }
        if !line_checksum_ok(t1.as_slice()) {
            return Err(TleError::ChecksumMismatch(Line::One));
        }
        if !line_checksum_ok(t2.as_slice()) {
            return Err(TleError::ChecksumMismatch(Line::Two));
        }
        if !same_catalog(t1.as_slice(), t2.as_slice()) {
            return Err(TleError::CatalogMismatch);
        }
        let l1 = t1.as_slice();
        let l2 = t2.as_slice();
        let catalog_number = match parse_integer_field(l1, 2, 7) {
            Some(v) => v,
            None => return Err(TleError::FieldParse(Field::CatalogNumber)),
        };
        let epoch_year = match parse_integer_field(l1, 18, 20) {
            Some(v) => v,
            None => return Err(TleError::FieldParse(Field::EpochYear)),
        };
        let epoch_day = match parse_decimal_field(l1, 20, 32) {
            Some(v) => v,
            None => return Err(TleError::FieldParse(Field::EpochDay)),
        };
        let mean_motion_dot = match parse_decimal_field(l1, 33, 43) {
            Some(v) => v,
            None => return Err(TleError::FieldParse(Field::MeanMotionDot)),
        };
        let mean_motion_ddot = match parse_exponent_field(l1, 44) {
            Some(v) => v,
            None => return Err(TleError::FieldParse(Field::MeanMotionDdot)),
        };
        let bstar = match parse_exponent_field(l1, 53) {
            Some(v) => v,
            None => return Err(TleError::FieldParse(Field::BStar)),
        };
        let element_set_number = match parse_integer_field(l1, 64, 68) {
            Some(v) => v,
            None => return Err(TleError::FieldParse(Field::ElementSetNumber)),
        };
        let inclination = match parse_decimal_field(l2, 8, 16) {
            Some(v) => v,
            None => return Err(TleError::FieldParse(Field::Inclination)),
        };
        let right_ascension = match parse_decimal_field(l2, 17, 25) {
            Some(v) => v,
            None => return Err(TleError::FieldParse(Field::RightAscension)),
        };
        let eccentricity = match parse_integer_field(l2, 26, 33) {
            Some(v) => Decimal { mantissa: v, exponent: -7 },
            None => return Err(TleError::FieldParse(Field::Eccentricity)),
        };
        let argument_of_perigee = match parse_decimal_field(l2, 34, 42) {
            Some(v) => v,
            None => return Err(TleError::FieldParse(Field::ArgumentOfPerigee)),
        };
        let mean_anomaly = match parse_decimal_field(l2, 43, 51) {
            Some(v) => v,
            None => return Err(TleError::FieldParse(Field::MeanAnomaly)),
        };
        let mean_motion = match parse_decimal_field(l2, 52, 63) {
            Some(v) => v,
            None => return Err(TleError::FieldParse(Field::MeanMotion)),
        };
        let revolution_number = match parse_integer_field(l2, 63, 68) {
            Some(v) => v,
            None => return Err(TleError::FieldParse(Field::RevolutionNumber)),
        };
        let elements = OrbitalElements {
            catalog_number,
            epoch_year,
            epoch_day,
            mean_motion_dot,
            mean_motion_ddot,
            bstar,
            element_set_number,
            inclination,
            right_ascension,
            eccentricity,
            argument_of_perigee,
            mean_anomaly,
            mean_motion,
            revolution_number,
        };
        Ok(ElementSet { name: name.to_owned(), line1: t1, line2: t2, elements })
    }
}

} // verus!
