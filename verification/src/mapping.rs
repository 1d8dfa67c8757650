//! The semantic mapping of columns. Latitude and longitude go to the best
//! ranked columns whose numbers lie mostly in range; every other column is
//! named after the range that holds the mean of its numbers.

use vstd::prelude::*;
use crate::ranking::{rank_columns, ranking_of};
use crate::reading::Reading;
use crate::scoring::{
    cell_at,
    column_scores,
    field,
    grid,
    score_columns,
    sample_score,
    score_sum,
    scored_rows,
    width,
    Score,
    ALTITUDE_MAX,
    ALTITUDE_MIN,
    LAT_MAX,
    LAT_MIN,
    LON_MAX,
    LON_MIN,
    PRESSURE_MAX,
    PRESSURE_MIN,
    TEMPERATURE_MAX,
    TEMPERATURE_MIN,
};
use crate::text::MAX_ROWS;

verus! {

/// A mapping holds at most this many entries.
pub const MAX_ENTRIES: usize = 6;

/// A column needs this many numeric fields to be taken for a coordinate.
pub const MIN_NUMERIC: usize = 5;

/// What a column is taken to hold.
#[derive(Clone, Copy, Debug, PartialEq, Eq)]
pub enum ColumnKind {
    Lat,
    Lon,
    Pressure,
    Temperature,
    Altitude,
    Value,
    Mode,
}

/// A column with the kind assigned to it.
#[derive(Clone, Copy, Debug, PartialEq, Eq)]
pub struct Assignment {
    pub index: usize,
    pub kind: ColumnKind,
}

/// One entry of a mapping: a column index with the key, value type, units
/// and visual of what it holds.
#[derive(Clone, Debug, PartialEq, Eq)]
pub struct CsvMapping {
    pub index: usize,
    pub key: String,
    pub value_type: String,
    pub units: Option<String>,
    pub visual: String,
}

/// The text of a mapping entry.
pub struct MappingView {
    pub index: usize,
    pub key: Seq<char>,
    pub value_type: Seq<char>,
    pub units: Option<Seq<char>>,
    pub visual: Seq<char>,
}

impl View for CsvMapping {
    type V = MappingView;

    open spec fn view(&self) -> MappingView {
        MappingView {
            index: self.index,
            key: self.key@,
            value_type: self.value_type@,
            units: match self.units {
                Some(u) => Some(u@),
                None => None,
            },
            visual: self.visual@,
        }
    }
}

/// The key of a kind.
pub open spec fn key_text(kind: ColumnKind) -> Seq<char> {
    match kind {
        ColumnKind::Lat => "lat"@,
        ColumnKind::Lon => "lon"@,
        ColumnKind::Pressure => "pressure"@,
        ColumnKind::Temperature => "temperature"@,
        ColumnKind::Altitude => "altitude"@,
        ColumnKind::Value => "value"@,
        ColumnKind::Mode => "mode"@,
    }
}

/// The units of a kind, where it has any.
pub open spec fn units_text(kind: ColumnKind) -> Option<Seq<char>> {
    match kind {
        ColumnKind::Pressure => Some("hPa"@),
        ColumnKind::Temperature => Some("\u{c2}\u{b0}C"@),
        ColumnKind::Altitude => Some("m"@),
        _ => None,
    }
}

/// How a kind is shown: coordinates on the map, a column without numbers as a
/// label, every other as a chart.
pub open spec fn visual_text(kind: ColumnKind) -> Seq<char> {
    match kind {
        ColumnKind::Lat => "map"@,
        ColumnKind::Lon => "map"@,
        ColumnKind::Mode => "label"@,
        _ => "chart"@,
    }
}

/// The entry that stands for an assignment.
pub open spec fn entry_view(a: Assignment) -> MappingView {
    MappingView {
        index: a.index,
        key: key_text(a.kind),
        value_type: "number"@,
        units: units_text(a.kind),
        visual: visual_text(a.kind),
    }
}

/// The entries that stand for a list of assignments.
pub open spec fn entry_views(a: Seq<Assignment>) -> Seq<MappingView> {
    Seq::new(a.len(), |i: int| entry_view(a[i]))
}

/// The text of each entry of a mapping.
pub open spec fn mapping_views(m: Seq<CsvMapping>) -> Seq<MappingView> {
    Seq::new(m.len(), |i: int| m[i]@)
}

/// The number of rows with a number in column `c`.
pub open spec fn numeric_count(g: Seq<Seq<Option<Reading>>>, c: int) -> nat
    decreases g.len(),
{
    if g.len() == 0 {
        0
    } else {
        numeric_count(g.drop_last(), c) + if cell_at(g.last(), c) is Some {
            1nat
        } else {
            0nat
        }
    }
}

/// Whether the field is a number from `lo` to `hi`.
pub open spec fn is_hit(cell: Option<Reading>, lo: int, hi: int) -> bool {
    match cell {
        Some(r) => r.within(lo, hi),
        None => false,
    }
}

/// The number of rows with a number from `lo` to `hi` in column `c`.
pub open spec fn hit_count(g: Seq<Seq<Option<Reading>>>, c: int, lo: int, hi: int) -> nat
    decreases g.len(),
{
    if g.len() == 0 {
        0
    } else {
        hit_count(g.drop_last(), c, lo, hi) + if is_hit(cell_at(g.last(), c), lo, hi) {
            1nat
        } else {
            0nat
        }
    }
}

/// Whether column `c` may be taken for a coordinate with the range from `lo`
/// to `hi`: it has at least `MIN_NUMERIC` numbers, and more than six tenths
/// of them lie in the range.
pub open spec fn has_majority(g: Seq<Seq<Option<Reading>>>, c: int, lo: int, hi: int) -> bool {
    numeric_count(g, c) >= MIN_NUMERIC && 5 * hit_count(g, c, lo, hi) > 3 * numeric_count(g, c)
}

/// The first column of `order` that has the majority of its numbers in range.
pub open spec fn pick(g: Seq<Seq<Option<Reading>>>, order: Seq<usize>, lo: int, hi: int) -> Option<
    usize,
>
    decreases order.len(),
{
    if order.len() == 0 {
        None
    } else if has_majority(g, order.first() as int, lo, hi) {
        Some(order.first())
    } else {
        pick(g, order.drop_first(), lo, hi)
    }
}

/// The kind that a mean stands for: the first of pressure, temperature and
/// altitude whose range holds it, else a generic value.
pub open spec fn mean_kind(mean: Reading) -> ColumnKind {
    if mean.within(PRESSURE_MIN as int, PRESSURE_MAX as int) {
        ColumnKind::Pressure
    } else if mean.within(TEMPERATURE_MIN as int, TEMPERATURE_MAX as int) {
        ColumnKind::Temperature
    } else if mean.within(ALTITUDE_MIN as int, ALTITUDE_MAX as int) {
        ColumnKind::Altitude
    } else {
        ColumnKind::Value
    }
}

/// The kind of a column that is no coordinate. A column without numbers is a
/// mode; another is named after its mean, and counts as a generic value
/// where `means` does not reach it.
pub open spec fn column_kind(g: Seq<Seq<Option<Reading>>>, means: Seq<Reading>, c: int) -> ColumnKind {
    if numeric_count(g, c) == 0 {
        ColumnKind::Mode
    } else if 0 <= c < means.len() {
        mean_kind(means[c])
    } else {
        ColumnKind::Value
    }
}

/// The entries for latitude and longitude, as far as columns were found.
pub open spec fn coordinates(lat: Option<usize>, lon: Option<usize>) -> Seq<Assignment> {
    let first = match lat {
        Some(c) => seq![Assignment { index: c, kind: ColumnKind::Lat }],
        None => Seq::<Assignment>::empty(),
    };
    match lon {
        Some(c) => first.push(Assignment { index: c, kind: ColumnKind::Lon }),
        None => first,
    }
}

/// The predicate that holds of the columns that are no coordinate.
pub open spec fn is_free(lat: Option<usize>, lon: Option<usize>) -> spec_fn(usize) -> bool {
    |c: usize| Some(c) != lat && Some(c) != lon
}

/// The first `n` entries of `s`, or all of it.
pub open spec fn first_n(s: Seq<usize>, n: int) -> Seq<usize> {
    if s.len() > n {
        s.take(n)
    } else {
        s
    }
}

/// Each column with its kind.
pub open spec fn classified(g: Seq<Seq<Option<Reading>>>, means: Seq<Reading>, cols: Seq<usize>) -> Seq<
    Assignment,
> {
    Seq::new(
        cols.len(),
        |i: int| Assignment { index: cols[i], kind: column_kind(g, means, cols[i] as int) },
    )
}

/// The assignments made with a given ranking: the coordinates first, then the
/// other columns in rank order, as many as fit.
pub open spec fn assignments_in(
    g: Seq<Seq<Option<Reading>>>,
    means: Seq<Reading>,
    order: Seq<usize>,
) -> Seq<Assignment> {
    let lat = pick(g, order, LAT_MIN as int, LAT_MAX as int);
    let lon = pick(g, order, LON_MIN as int, LON_MAX as int);
    let head = coordinates(lat, lon);
    head + classified(
        g,
        means,
        first_n(order.filter(is_free(lat, lon)), MAX_ENTRIES - head.len()),
    )
}

/// The assignments for a table and the means of its columns. Latitude goes to
/// the best ranked column with a majority in the latitude range, longitude
/// likewise and independently, so that both may name one column. The columns
/// left over follow in rank order, until the mapping is full.
pub open spec fn assignments(g: Seq<Seq<Option<Reading>>>, means: Seq<Reading>) -> Seq<Assignment> {
    assignments_in(g, means, ranking_of(column_scores(g)))
}

/// A column that was picked has the majority that is asked for, and stands
/// in the ranking.
pub proof fn lemma_pick_sound(g: Seq<Seq<Option<Reading>>>, order: Seq<usize>, lo: int, hi: int)
    ensures
        match pick(g, order, lo, hi) {
            Some(c) => has_majority(g, c as int, lo, hi) && order.contains(c),
            None => forall|i: int| 0 <= i < order.len() ==> !has_majority(g, #[trigger] order[i] as int, lo, hi),
        },
    decreases order.len(),
{
    if order.len() > 0 {
        if has_majority(g, order.first() as int, lo, hi) {
            assert(order[0] == order.first());
        } else {
            let rest = order.drop_first();
            lemma_pick_sound(g, rest, lo, hi);
            match pick(g, rest, lo, hi) {
                Some(c) => {
                    let i = choose|i: int| 0 <= i < rest.len() && rest[i] == c;
                    assert(order[i + 1] == c);
                },
                None => {
                    assert forall|i: int| 0 <= i < order.len() implies !has_majority(
                        g,
                        #[trigger] order[i] as int,
                        lo,
                        hi,
                    ) by {
                        if i > 0 {
                            assert(order[i] == rest[i - 1]);
                        }
                    }
                },
            }
        }
    }
}

/// A mapping never holds more than `MAX_ENTRIES` entries.
pub proof fn lemma_mapping_capped(g: Seq<Seq<Option<Reading>>>, means: Seq<Reading>)
    ensures
        assignments(g, means).len() <= MAX_ENTRIES,
{
}

/// A column is taken for latitude only if it has at least `MIN_NUMERIC`
/// numbers and more than six tenths of them lie in the latitude range,
/// whatever its score; and likewise for longitude.
pub proof fn lemma_coordinates_need_majority(
    g: Seq<Seq<Option<Reading>>>,
    means: Seq<Reading>,
    i: int,
)
    requires
        0 <= i < assignments(g, means).len(),
    ensures
        assignments(g, means)[i].kind == ColumnKind::Lat ==> has_majority(
            g,
            assignments(g, means)[i].index as int,
            LAT_MIN as int,
            LAT_MAX as int,
        ),
        assignments(g, means)[i].kind == ColumnKind::Lon ==> has_majority(
            g,
            assignments(g, means)[i].index as int,
            LON_MIN as int,
            LON_MAX as int,
        ),
{
    let order = ranking_of(column_scores(g));
    lemma_pick_sound(g, order, LAT_MIN as int, LAT_MAX as int);
    lemma_pick_sound(g, order, LON_MIN as int, LON_MAX as int);
}

impl ColumnKind {
    /// The key under which the kind is reported.
    pub fn key(&self) -> (s: String)
        ensures
            s@ == key_text(*self),
    {
        match self {
            ColumnKind::Lat => "lat".to_owned(),
            ColumnKind::Lon => "lon".to_owned(),
            ColumnKind::Pressure => "pressure".to_owned(),
            ColumnKind::Temperature => "temperature".to_owned(),
            ColumnKind::Altitude => "altitude".to_owned(),
            ColumnKind::Value => "value".to_owned(),
            ColumnKind::Mode => "mode".to_owned(),
        }
    }

    /// The units of the kind, where it has any.
    pub fn units(&self) -> (u: Option<String>)
        ensures
            match u {
                Some(s) => units_text(*self) == Some(s@),
                None => units_text(*self) is None,
            },
    {
        match self {
            ColumnKind::Pressure => Some("hPa".to_owned()),
            ColumnKind::Temperature => Some("\u{c2}\u{b0}C".to_owned()),
            ColumnKind::Altitude => Some("m".to_owned()),
            _ => None,
        }
    }

    /// How the kind is shown.
    pub fn visual(&self) -> (s: String)
        ensures
            s@ == visual_text(*self),
    {
        match self {
            ColumnKind::Lat => "map".to_owned(),
            ColumnKind::Lon => "map".to_owned(),
            ColumnKind::Mode => "label".to_owned(),
            _ => "chart".to_owned(),
        }
    }
}

impl CsvMapping {
    /// The entry that reports column `index` as `kind`.
    pub fn new(index: usize, kind: ColumnKind) -> (m: CsvMapping)
        ensures
            m@ == entry_view(Assignment { index, kind }),
    {
        CsvMapping {
            index,
            key: kind.key(),
            value_type: "number".to_owned(),
            units: kind.units(),
            visual: kind.visual(),
        }
    }
}

/// Counts the numbers of column `c`, and those of them from `lo` to `hi`.
pub fn count_in_range(table: &Vec<Vec<Option<Reading>>>, c: usize, lo: i32, hi: i32) -> (r: (
    usize,
    usize,
))
    ensures
        r.0 == numeric_count(grid(table@), c as int),
        r.1 == hit_count(grid(table@), c as int, lo as int, hi as int),
        r.1 <= r.0 <= MAX_ROWS,
{
    let n: usize = scored_rows(table);
    let ghost g = grid(table@);
    let mut total: usize = 0;
    let mut hits: usize = 0;
    let mut r: usize = 0;
    while r < n
        invariant
            r <= n <= MAX_ROWS,
            n == g.len(),
            g == grid(table@),
            total == numeric_count(g.take(r as int), c as int),
            hits == hit_count(g.take(r as int), c as int, lo as int, hi as int),
            hits <= total <= r,
        decreases n - r,
    {
        assert(g.take(r + 1).drop_last() =~= g.take(r as int));
        match field(table, r, c) {
            Some(reading) => {
                total += 1;
                if reading.in_range(lo, hi) {
                    hits += 1;
                }
            },
            None => {},
        }
        r += 1;
    }
    assert(g.take(n as int) =~= g);
    (total, hits)
}

/// Whether column `c` has the majority of its numbers from `lo` to `hi`.
pub fn majority_in_range(table: &Vec<Vec<Option<Reading>>>, c: usize, lo: i32, hi: i32) -> (b: bool)
    ensures
        b == has_majority(grid(table@), c as int, lo as int, hi as int),
{
    let (total, hits) = count_in_range(table, c, lo, hi);
    total >= MIN_NUMERIC && 5 * hits > 3 * total
}

/// The first column of `order` that has the majority of its numbers from `lo`
/// to `hi`.
pub fn pick_column(table: &Vec<Vec<Option<Reading>>>, order: &Vec<usize>, lo: i32, hi: i32) -> (found:
    Option<usize>)
    ensures
        found == pick(grid(table@), order@, lo as int, hi as int),
{
    let mut i: usize = 0;
    assert(order@.skip(0) =~= order@);
    while i < order.len()
        invariant
            i <= order.len(),
            pick(grid(table@), order@, lo as int, hi as int) == pick(
                grid(table@),
                order@.skip(i as int),
                lo as int,
                hi as int,
            ),
        decreases order.len() - i,
    {
        assert(order@.skip(i as int).drop_first() =~= order@.skip(i + 1));
        assert(order@.skip(i as int).first() == order@[i as int]);
        if majority_in_range(table, order[i], lo, hi) {
            return Some(order[i]);
        }
        i += 1;
    }
    None
}

/// The kind that the mean of a column stands for.
pub fn classify_mean(mean: &Reading) -> (kind: ColumnKind)
    ensures
        kind == mean_kind(*mean),
{
    if mean.in_range(PRESSURE_MIN, PRESSURE_MAX) {
        ColumnKind::Pressure
    } else if mean.in_range(TEMPERATURE_MIN, TEMPERATURE_MAX) {
        ColumnKind::Temperature
    } else if mean.in_range(ALTITUDE_MIN, ALTITUDE_MAX) {
        ColumnKind::Altitude
    } else {
        ColumnKind::Value
    }
}

/// The kind of column `c`, which is no coordinate.
pub fn classify_column(table: &Vec<Vec<Option<Reading>>>, means: &Vec<Reading>, c: usize) -> (kind:
    ColumnKind)
    ensures
        kind == column_kind(grid(table@), means@, c as int),
{
    let (total, _hits) = count_in_range(table, c, 0, 0);
    if total == 0 {
        ColumnKind::Mode
    } else if c < means.len() {
        classify_mean(&means[c])
    } else {
        ColumnKind::Value
    }
}

/// Assigns kinds to the columns of the table. `means[c]` is the mean of the
/// numbers of column `c`; it is read only for a column that has numbers.
pub fn assign_columns(table: &Vec<Vec<Option<Reading>>>, means: &Vec<Reading>) -> (out: Vec<
    Assignment,
>)
    ensures
        out@ == assignments(grid(table@), means@),
        out.len() <= MAX_ENTRIES,
{
    let scores = score_columns(table);
    let order = rank_columns(&scores);
    let ghost g = grid(table@);
    let lat = pick_column(table, &order, LAT_MIN, LAT_MAX);
    let lon = pick_column(table, &order, LON_MIN, LON_MAX);
    let mut out: Vec<Assignment> = Vec::new();
    match lat {
        Some(c) => {
            out.push(Assignment { index: c, kind: ColumnKind::Lat });
        },
        None => {},
    }
    match lon {
        Some(c) => {
            out.push(Assignment { index: c, kind: ColumnKind::Lon });
        },
        None => {},
    }
    let ghost head = out@;
    let ghost room = MAX_ENTRIES - head.len();
    assert(head =~= coordinates(lat, lon));
    let mut i: usize = 0;
    proof {
        assert(order@.take(0).filter(is_free(lat, lon)) =~= Seq::<usize>::empty()) by {
            reveal(Seq::filter);
        }
        assert(out@ =~= head + classified(
            g,
            means@,
            first_n(order@.take(0).filter(is_free(lat, lon)), room),
        ));
    }
    while i < order.len()
        invariant
            i <= order.len(),
            g == grid(table@),
            head == coordinates(lat, lon),
            room == MAX_ENTRIES - head.len(),
            0 <= room,
            out@ == head + classified(
                g,
                means@,
                first_n(order@.take(i as int).filter(is_free(lat, lon)), room),
            ),
        decreases order.len() - i,
    {
        let c: usize = order[i];
        let ghost kept = order@.take(i as int).filter(is_free(lat, lon));
        proof {
            assert(order@.take(i + 1) =~= order@.take(i as int).push(c));
            order@.take(i as int).lemma_filter_push(c, is_free(lat, lon));
        }
        let free = !is_column(lat, c) && !is_column(lon, c);
        if free && out.len() < MAX_ENTRIES {
            let kind = classify_column(table, means, c);
            let ghost before = out@;
            out.push(Assignment { index: c, kind });
            proof {
                assert(first_n(kept.push(c), room) =~= first_n(kept, room).push(c));
                assert(out@ =~= head + classified(g, means@, first_n(kept.push(c), room)));
            }
        } else {
            proof {
                if free {
                    assert(first_n(kept.push(c), room) =~= first_n(kept, room));
                }
            }
        }
        i += 1;
    }
    proof {
        assert(order@.take(order.len() as int) =~= order@);
    }
    out
}

/// Whether `found` is the column `c`.
fn is_column(found: Option<usize>, c: usize) -> (b: bool)
    ensures
        b == (found == Some(c)),
{
    match found {
        Some(f) => f == c,
        None => false,
    }
}

/// Builds the mapping of the table: one entry for each column that was
/// assigned a kind, in the order of assignment.
pub fn build_mapping(table: &Vec<Vec<Option<Reading>>>, means: &Vec<Reading>) -> (mapping: Vec<
    CsvMapping,
>)
    ensures
        mapping_views(mapping@) == entry_views(assignments(grid(table@), means@)),
        mapping.len() <= MAX_ENTRIES,
{
    let assigned = assign_columns(table, means);
    let mut mapping: Vec<CsvMapping> = Vec::new();
    let mut i: usize = 0;
    while i < assigned.len()
        invariant
            i <= assigned.len(),
            mapping.len() == i,
            forall|j: int| 0 <= j < i ==> mapping[j]@ == entry_view(assigned[j]),
        decreases assigned.len() - i,
    {
        let a = assigned[i];
        mapping.push(CsvMapping::new(a.index, a.kind));
        i += 1;
    }
    assert(mapping_views(mapping@) =~= entry_views(assigned@));
    mapping
}

/// Scores a parsed sample and guesses what its columns hold. `table` holds
/// the fields of each row, `None` where a field is no number; `means[c]` is
/// the mean of the numbers of column `c`. The result is the mapping and the
/// overall score, the mean of the column scores.
pub fn score_and_guess(table: &Vec<Vec<Option<Reading>>>, means: &Vec<Reading>) -> (r: (
    Vec<CsvMapping>,
    Score,
))
    ensures
        mapping_views(r.0@) == entry_views(assignments(grid(table@), means@)),
        r.0.len() <= MAX_ENTRIES,
        r.1.columns == width(grid(table@)),
        r.1.tenths == score_sum(grid(table@), width(grid(table@))),
{
    let mapping = build_mapping(table, means);
    let score = sample_score(table);
    (mapping, score)
}

} // verus!
