//! Positions on the globe and the centroid of a route.
//!
//! A position is held in whole billionths of a degree, so that the mean of a
//! route is exact integer arithmetic.

use vstd::prelude::*;
use vstd::string::*;
use crate::text::{decimal, decimal_string, fixed_digits, fixed_digits_string};

verus! {

/// How many units of a coordinate make one degree.
pub const UNITS_PER_DEGREE: i64 = 1_000_000_000;

/// A position: longitude and latitude, each in billionths of a degree.
#[derive(Clone, Copy, Debug, PartialEq, Eq, Structural)]
pub struct Coordinate {
    pub lon: i64,
    pub lat: i64,
}

/// The sum of the longitudes of `points`.
pub open spec fn lon_sum(points: Seq<Coordinate>) -> int
    decreases points.len(),
{
    if points.len() == 0 {
        0
    } else {
        lon_sum(points.drop_last()) + points.last().lon
    }
}

/// The sum of the latitudes of `points`.
pub open spec fn lat_sum(points: Seq<Coordinate>) -> int
    decreases points.len(),
{
    if points.len() == 0 {
        0
    } else {
        lat_sum(points.drop_last()) + points.last().lat
    }
}

/// `sum` divided by `count`, rounded towards zero.
pub open spec fn mean(sum: int, count: int) -> int
    recommends
        count > 0,
{
    if sum >= 0 {
        sum / count
    } else {
        -((-sum) / count)
    }
}

/// The centroid of a route: the mean of the longitudes and the mean of the
/// latitudes, each taken by itself. It is the centre of the route on a flat
/// map, not on the globe.
pub open spec fn centroid_of(points: Seq<Coordinate>) -> Coordinate
    recommends
        points.len() > 0,
{
    Coordinate {
        lon: mean(lon_sum(points), points.len() as int) as i64,
        lat: mean(lat_sum(points), points.len() as int) as i64,
    }
}

/// The sums of a route stay within its length times the range of a
/// coordinate.
pub proof fn lemma_sum_bounds(points: Seq<Coordinate>)
    ensures
        points.len() * i64::MIN <= lon_sum(points) <= points.len() * i64::MAX,
        points.len() * i64::MIN <= lat_sum(points) <= points.len() * i64::MAX,
    decreases points.len(),
{
    if points.len() > 0 {
        lemma_sum_bounds(points.drop_last());
    }
}

/// A mean lies in the range of the values it is the mean of, here that of a
/// coordinate.
pub proof fn lemma_mean_in_range(sum: int, count: int)
    requires
        count > 0,
        count * i64::MIN <= sum <= count * i64::MAX,
    ensures
        i64::MIN <= mean(sum, count) <= i64::MAX,
{
    if sum >= 0 {
        assert(sum / count <= i64::MAX) by (nonlinear_arith)
            requires
                count > 0,
                0 <= sum <= count * i64::MAX,
        ;
        assert(sum / count >= 0) by (nonlinear_arith)
            requires
                count > 0,
                0 <= sum,
        ;
    } else {
        let m = -sum;
        assert(m / count <= -(i64::MIN as int)) by (nonlinear_arith)
            requires
                count > 0,
                0 <= m <= count * (-(i64::MIN as int)),
        ;
        assert(m / count >= 0) by (nonlinear_arith)
            requires
                count > 0,
                0 <= m,
        ;
    }
}

fn rounded_mean(sum: i128, count: usize) -> (r: i64)
    requires
        count > 0,
        count * i64::MIN <= sum <= count * i64::MAX,
    ensures
        r == mean(sum as int, count as int),
{
    proof {
        lemma_mean_in_range(sum as int, count as int);
    }
    if sum >= 0 {
        let q: u128 = (sum as u128) / (count as u128);
        q as i64
    } else {
        let m: u128 = (-sum) as u128;
        let q: u128 = m / (count as u128);
        if q == 9223372036854775808u128 {
            i64::MIN
        } else {
            -(q as i64)
        }
    }
}

/// Computes the centroid of a route.
pub fn centroid(points: &Vec<Coordinate>) -> (r: Coordinate)
    requires
        points@.len() > 0,
    ensures
        r == centroid_of(points@),
{
    let mut lon: i128 = 0;
    let mut lat: i128 = 0;
    let mut i: usize = 0;
    while i < points.len()
        invariant
            i <= points@.len(),
            lon == lon_sum(points@.take(i as int)),
            lat == lat_sum(points@.take(i as int)),
        decreases points@.len() - i,
    {
        proof {
            lemma_sum_bounds(points@.take(i as int));
            assert(points@.take(i + 1).drop_last() =~= points@.take(i as int));
        }
        lon = lon + points[i].lon as i128;
        lat = lat + points[i].lat as i128;
        i += 1;
    }
    proof {
        assert(points@.take(points@.len() as int) =~= points@);
        lemma_sum_bounds(points@);
        lemma_mean_in_range(lon_sum(points@), points@.len() as int);
        lemma_mean_in_range(lat_sum(points@), points@.len() as int);
    }
    Coordinate { lon: rounded_mean(lon, points.len()), lat: rounded_mean(lat, points.len()) }
}

/// The size of `value` without its sign.
pub open spec fn magnitude(value: i64) -> nat {
    if value >= 0 {
        value as nat
    } else {
        (-value) as nat
    }
}

/// The fraction `fraction` of `width` decimal places, written without the
/// zeros at its end: no digit at all where the fraction is zero.
pub open spec fn fraction_digits(fraction: nat, width: nat) -> Seq<char>
    decreases width,
{
    if width == 0 {
        Seq::empty()
    } else if fraction % 10 == 0 {
        fraction_digits(fraction / 10, (width - 1) as nat)
    } else {
        fixed_digits(fraction, width)
    }
}

/// The digits of a fraction never end in a zero.
pub proof fn lemma_fraction_has_no_trailing_zero(fraction: nat, width: nat)
    ensures
        fraction_digits(fraction, width).len() > 0 ==> fraction_digits(fraction, width).last()
            != '0',
    decreases width,
{
    if width > 0 && fraction % 10 == 0 {
        lemma_fraction_has_no_trailing_zero(fraction / 10, (width - 1) as nat);
    }
}

/// A coordinate written in degrees, in the shortest decimal form: the whole
/// degrees and, where the billionths are not zero, a point and their digits
/// up to the last that is not zero.
pub open spec fn unsigned_degrees_of(size: nat) -> Seq<char> {
    let whole = decimal(size / (UNITS_PER_DEGREE as nat));
    let fraction = size % (UNITS_PER_DEGREE as nat);
    if fraction == 0 {
        whole
    } else {
        whole.push('.') + fraction_digits(fraction, 9)
    }
}

/// A coordinate written in degrees, as `unsigned_degrees_of` writes its
/// size, behind a minus sign where it is negative: `48.5`, `2`, `-0.0005`.
pub open spec fn degrees_of(value: i64) -> Seq<char> {
    if value < 0 {
        seq!['-'] + unsigned_degrees_of(magnitude(value))
    } else {
        unsigned_degrees_of(magnitude(value))
    }
}

fn fraction_digits_string(fraction: u64, width: u8) -> (r: String)
    ensures
        r@ == fraction_digits(fraction as nat, width as nat),
    decreases width,
{
    if width == 0 {
        String::new()
    } else if fraction % 10 == 0 {
        fraction_digits_string(fraction / 10, width - 1)
    } else {
        fixed_digits_string(fraction, width)
    }
}

/// Writes a coordinate in degrees.
pub fn degrees_text(value: i64) -> (r: String)
    ensures
        r@ == degrees_of(value),
{
    let size: u64 = if value >= 0 {
        value as u64
    } else {
        (-(value as i128)) as u64
    };
    let unit: u64 = UNITS_PER_DEGREE as u64;
    let mut body = decimal_string(size / unit);
    let fraction = size % unit;
    if fraction != 0 {
        body.push('.');
        body = body.concat(fraction_digits_string(fraction, 9).as_str());
    }
    if value < 0 {
        let mut out = String::new();
        out.push('-');
        assert(out@ =~= seq!['-']);
        out.concat(body.as_str())
    } else {
        body
    }
}

} // verus!
