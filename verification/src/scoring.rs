//! Column scoring. Each numeric field adds to the score of its column: a
//! base weight for being a number, and one more weight for each plausible
//! telemetry range that the number lies in. Scores count tenths.

use vstd::prelude::*;
use crate::reading::Reading;
use crate::text::MAX_ROWS;

verus! {

/// Latitude, in degrees.
pub const LAT_MIN: i32 = -90;

pub const LAT_MAX: i32 = 90;

/// Longitude, in degrees.
pub const LON_MIN: i32 = -180;

pub const LON_MAX: i32 = 180;

/// Barometric pressure, in hectopascal.
pub const PRESSURE_MIN: i32 = 800;

pub const PRESSURE_MAX: i32 = 1100;

/// Temperature, in degrees Celsius.
pub const TEMPERATURE_MIN: i32 = -40;

pub const TEMPERATURE_MAX: i32 = 85;

/// Altitude, in metres.
pub const ALTITUDE_MIN: i32 = -500;

pub const ALTITUDE_MAX: i32 = 12000;

/// Tenths given to a field for being a number.
pub const WEIGHT_NUMERIC: u64 = 1;

/// Tenths given for each range that holds the number.
pub const WEIGHT_LAT: u64 = 5;

pub const WEIGHT_LON: u64 = 3;

pub const WEIGHT_PRESSURE: u64 = 5;

pub const WEIGHT_TEMPERATURE: u64 = 3;

pub const WEIGHT_ALTITUDE: u64 = 2;

/// No field weighs more than all weights together.
pub const WEIGHT_LIMIT: u64 = 19;

/// No column scores more than `MAX_ROWS` fields of the greatest weight.
pub const COLUMN_LIMIT: u64 = 950;

/// The weight of a range where it holds the reading, else nothing.
pub open spec fn bonus(r: Reading, lo: i32, hi: i32, w: u64) -> nat {
    if r.within(lo as int, hi as int) {
        w as nat
    } else {
        0
    }
}

/// The tenths that one numeric field adds to its column. The ranges overlap,
/// and a number earns the weight of each range that it lies in.
pub open spec fn weight(r: Reading) -> nat {
    WEIGHT_NUMERIC as nat + bonus(r, LAT_MIN, LAT_MAX, WEIGHT_LAT) + bonus(
        r,
        LON_MIN,
        LON_MAX,
        WEIGHT_LON,
    ) + bonus(r, PRESSURE_MIN, PRESSURE_MAX, WEIGHT_PRESSURE) + bonus(
        r,
        TEMPERATURE_MIN,
        TEMPERATURE_MAX,
        WEIGHT_TEMPERATURE,
    ) + bonus(r, ALTITUDE_MIN, ALTITUDE_MAX, WEIGHT_ALTITUDE)
}

/// The tenths that a field adds: nothing where it is not a number.
pub open spec fn cell_weight(cell: Option<Reading>) -> nat {
    match cell {
        Some(r) => weight(r),
        None => 0,
    }
}

/// The rows that are scored: the first `MAX_ROWS` rows of the table.
pub open spec fn grid(table: Seq<Vec<Option<Reading>>>) -> Seq<Seq<Option<Reading>>> {
    Seq::new(
        if table.len() > MAX_ROWS {
            MAX_ROWS as nat
        } else {
            table.len()
        },
        |r: int| table[r]@,
    )
}

/// The field of a row in column `c`; a row that is too short has none.
pub open spec fn cell_at(row: Seq<Option<Reading>>, c: int) -> Option<Reading> {
    if 0 <= c < row.len() {
        row[c]
    } else {
        None
    }
}

/// The number of columns: the length of the longest row.
pub open spec fn width(g: Seq<Seq<Option<Reading>>>) -> nat
    decreases g.len(),
{
    if g.len() == 0 {
        0
    } else {
        let w = width(g.drop_last());
        if g.last().len() > w {
            g.last().len()
        } else {
            w
        }
    }
}

/// The score of column `c`: the weights of its fields, over all rows.
pub open spec fn column_score(g: Seq<Seq<Option<Reading>>>, c: int) -> nat
    decreases g.len(),
{
    if g.len() == 0 {
        0
    } else {
        column_score(g.drop_last(), c) + cell_weight(cell_at(g.last(), c))
    }
}

/// The score of every column.
pub open spec fn column_scores(g: Seq<Seq<Option<Reading>>>) -> Seq<nat> {
    Seq::new(width(g), |c: int| column_score(g, c))
}

/// The sum of the scores of the first `n` columns.
pub open spec fn score_sum(g: Seq<Seq<Option<Reading>>>, n: nat) -> nat
    decreases n,
{
    if n == 0 {
        0
    } else {
        score_sum(g, (n - 1) as nat) + column_score(g, n - 1)
    }
}

/// The scores as natural numbers.
pub open spec fn as_nats(scores: Seq<u64>) -> Seq<nat> {
    Seq::new(scores.len(), |i: int| scores[i] as nat)
}

/// The overall score of a sample: the mean of its column scores, held as
/// their sum, in tenths, and the number of columns. With no column the score
/// is zero.
#[derive(Clone, Copy, Debug, PartialEq, Eq)]
pub struct Score {
    pub tenths: u128,
    pub columns: usize,
}

impl Score {
    /// What the sum is divided by: the number of columns, or one if there is
    /// none.
    pub open spec fn divisor(self) -> int {
        if self.columns == 0 {
            1
        } else {
            self.columns as int
        }
    }

    /// Whether this mean is strictly smaller than the other.
    pub open spec fn less_than(self, other: Score) -> bool {
        self.tenths * other.divisor() < other.tenths * self.divisor()
    }

    /// The score of a sample without data.
    pub fn zero() -> (s: Score)
        ensures
            s.tenths == 0,
            s.columns == 0,
    {
        Score { tenths: 0, columns: 0 }
    }

    /// Compares two means exactly.
    pub fn lt(&self, other: &Score) -> (b: bool)
        ensures
            b == self.less_than(*other),
    {
        let d1: u128 = if self.columns == 0 {
            1
        } else {
            self.columns as u128
        };
        let d2: u128 = if other.columns == 0 {
            1
        } else {
            other.columns as u128
        };
        let q1: u128 = self.tenths / d1;
        let r1: u128 = self.tenths % d1;
        let q2: u128 = other.tenths / d2;
        let r2: u128 = other.tenths % d2;
        proof {
            lemma_compare_fractions(
                self.tenths as int,
                d1 as int,
                q1 as int,
                r1 as int,
                other.tenths as int,
                d2 as int,
                q2 as int,
                r2 as int,
            );
        }
        if q1 != q2 {
            q1 < q2
        } else {
            assert(r1 * d2 <= 0xffff_ffff_ffff_ffff * 0xffff_ffff_ffff_ffff) by (nonlinear_arith)
                requires
                    r1 <= 0xffff_ffff_ffff_ffff,
                    d2 <= 0xffff_ffff_ffff_ffff,
            ;
            assert(r2 * d1 <= 0xffff_ffff_ffff_ffff * 0xffff_ffff_ffff_ffff) by (nonlinear_arith)
                requires
                    r2 <= 0xffff_ffff_ffff_ffff,
                    d1 <= 0xffff_ffff_ffff_ffff,
            ;
            r1 * d2 < r2 * d1
        }
    }
}

/// Two fractions compare as their whole parts do, and where these agree, as
/// their remainders over the other's divisor.
proof fn lemma_compare_fractions(
    t1: int,
    d1: int,
    q1: int,
    r1: int,
    t2: int,
    d2: int,
    q2: int,
    r2: int,
)
    requires
        d1 > 0,
        d2 > 0,
        q1 == t1 / d1,
        r1 == t1 % d1,
        q2 == t2 / d2,
        r2 == t2 % d2,
    ensures
        q1 < q2 ==> t1 * d2 < t2 * d1,
        q1 > q2 ==> !(t1 * d2 < t2 * d1),
        q1 == q2 ==> (t1 * d2 < t2 * d1 <==> r1 * d2 < r2 * d1),
{
    vstd::arithmetic::div_mod::lemma_fundamental_div_mod(t1, d1);
    vstd::arithmetic::div_mod::lemma_fundamental_div_mod(t2, d2);
    vstd::arithmetic::div_mod::lemma_mod_bound(t1, d1);
    vstd::arithmetic::div_mod::lemma_mod_bound(t2, d2);
    assert(t1 * d2 == q1 * (d1 * d2) + r1 * d2) by (nonlinear_arith)
        requires
            t1 == d1 * q1 + r1,
    ;
    assert(t2 * d1 == q2 * (d1 * d2) + r2 * d1) by (nonlinear_arith)
        requires
            t2 == d2 * q2 + r2,
    ;
    let dd = d1 * d2;
    assert(0 <= r1 * d2 < dd) by (nonlinear_arith)
        requires
            0 <= r1 < d1,
            d2 > 0,
            dd == d1 * d2,
    ;
    assert(0 <= r2 * d1 < dd) by (nonlinear_arith)
        requires
            0 <= r2 < d2,
            d1 > 0,
            dd == d1 * d2,
    ;
    if q1 < q2 {
        assert(q1 * dd + dd <= q2 * dd) by (nonlinear_arith)
            requires
                q1 + 1 <= q2,
                dd > 0,
        ;
    }
    if q1 > q2 {
        assert(q2 * dd + dd <= q1 * dd) by (nonlinear_arith)
            requires
                q2 + 1 <= q1,
                dd > 0,
        ;
    }
}

/// The tenths that a numeric field adds to its column.
pub fn reading_weight(r: &Reading) -> (w: u64)
    ensures
        w == weight(*r),
        w <= WEIGHT_LIMIT,
{
    let mut w: u64 = WEIGHT_NUMERIC;
    if r.in_range(LAT_MIN, LAT_MAX) {
        w += WEIGHT_LAT;
    }
    if r.in_range(LON_MIN, LON_MAX) {
        w += WEIGHT_LON;
    }
    if r.in_range(PRESSURE_MIN, PRESSURE_MAX) {
        w += WEIGHT_PRESSURE;
    }
    if r.in_range(TEMPERATURE_MIN, TEMPERATURE_MAX) {
        w += WEIGHT_TEMPERATURE;
    }
    if r.in_range(ALTITUDE_MIN, ALTITUDE_MAX) {
        w += WEIGHT_ALTITUDE;
    }
    w
}

/// The number of rows that are scored.
pub(crate) fn scored_rows(table: &Vec<Vec<Option<Reading>>>) -> (n: usize)
    ensures
        n == grid(table@).len(),
        n <= MAX_ROWS,
        n <= table.len(),
{
    if table.len() > MAX_ROWS {
        MAX_ROWS
    } else {
        table.len()
    }
}

/// The field of row `r` in column `c`, if the row reaches that far.
pub(crate) fn field(table: &Vec<Vec<Option<Reading>>>, r: usize, c: usize) -> (cell: Option<Reading>)
    requires
        r < grid(table@).len(),
    ensures
        cell == cell_at(grid(table@)[r as int], c as int),
{
    if c < table[r].len() {
        table[r][c]
    } else {
        None
    }
}

/// The number of columns of the table: the length of its longest row among
/// those that are scored.
pub fn column_count(table: &Vec<Vec<Option<Reading>>>) -> (w: usize)
    ensures
        w == width(grid(table@)),
{
    let n: usize = scored_rows(table);
    let ghost g = grid(table@);
    let mut w: usize = 0;
    let mut r: usize = 0;
    while r < n
        invariant
            r <= n,
            n == g.len(),
            g == grid(table@),
            w == width(g.take(r as int)),
        decreases n - r,
    {
        assert(g.take(r + 1).drop_last() =~= g.take(r as int));
        if table[r].len() > w {
            w = table[r].len();
        }
        r += 1;
    }
    assert(g.take(n as int) =~= g);
    w
}

/// The score of column `c`, in tenths.
pub fn score_column(table: &Vec<Vec<Option<Reading>>>, c: usize) -> (total: u64)
    ensures
        total == column_score(grid(table@), c as int),
        total <= COLUMN_LIMIT,
{
    let n: usize = scored_rows(table);
    let ghost g = grid(table@);
    let mut total: u64 = 0;
    let mut r: usize = 0;
    while r < n
        invariant
            r <= n <= MAX_ROWS,
            n == g.len(),
            g == grid(table@),
            total == column_score(g.take(r as int), c as int),
            total <= WEIGHT_LIMIT * r,
        decreases n - r,
    {
        assert(g.take(r + 1).drop_last() =~= g.take(r as int));
        match field(table, r, c) {
            Some(reading) => {
                total += reading_weight(&reading);
            },
            None => {},
        }
        r += 1;
    }
    assert(g.take(n as int) =~= g);
    total
}

/// Scores every column of the table. A field that is a number adds one
/// tenth to its column, and more for each range that holds it: five for
/// latitude, three for longitude, five for pressure, three for temperature,
/// two for altitude.
pub fn score_columns(table: &Vec<Vec<Option<Reading>>>) -> (scores: Vec<u64>)
    ensures
        as_nats(scores@) == column_scores(grid(table@)),
        forall|c: int| 0 <= c < scores.len() ==> scores[c] <= COLUMN_LIMIT,
{
    let w: usize = column_count(table);
    let mut scores: Vec<u64> = Vec::new();
    let mut c: usize = 0;
    while c < w
        invariant
            c <= w,
            w == width(grid(table@)),
            scores.len() == c,
            forall|j: int| 0 <= j < c ==> scores[j] == column_score(grid(table@), j),
            forall|j: int| 0 <= j < c ==> scores[j] <= COLUMN_LIMIT,
        decreases w - c,
    {
        let total = score_column(table, c);
        scores.push(total);
        c += 1;
    }
    assert(as_nats(scores@) =~= column_scores(grid(table@)));
    scores
}

/// The overall score of the table: the mean of its column scores.
pub fn sample_score(table: &Vec<Vec<Option<Reading>>>) -> (s: Score)
    ensures
        s.columns == width(grid(table@)),
        s.tenths == score_sum(grid(table@), width(grid(table@))),
{
    let w: usize = column_count(table);
    let mut sum: u128 = 0;
    let mut c: usize = 0;
    while c < w
        invariant
            c <= w,
            sum == score_sum(grid(table@), c as nat),
            sum <= COLUMN_LIMIT * c,
        decreases w - c,
    {
        let total = score_column(table, c);
        sum += total as u128;
        c += 1;
    }
    Score { tenths: sum, columns: w }
}

} // verus!
