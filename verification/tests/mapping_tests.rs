use telemetry_acquisition::mapping::{
    assign_columns, build_mapping, classify_column, classify_mean, count_in_range,
    majority_in_range, pick_column, score_and_guess, Assignment, ColumnKind, CsvMapping,
    MAX_ENTRIES,
};
use telemetry_acquisition::ranking::rank_columns;
use telemetry_acquisition::reading::Reading;
use telemetry_acquisition::scoring::{score_columns, Score};
use telemetry_acquisition::text::{detect_delimiter, tokenize};

fn reading(v: f64) -> Reading {
    Reading::from_bits(v.to_bits())
}

fn parse(rows: &Vec<Vec<String>>) -> Vec<Vec<Option<f64>>> {
    rows.iter().map(|r| r.iter().map(|s| s.parse::<f64>().ok()).collect()).collect()
}

fn readings(values: &Vec<Vec<Option<f64>>>) -> Vec<Vec<Option<Reading>>> {
    values.iter().map(|r| r.iter().map(|v| v.map(reading)).collect()).collect()
}

fn means(values: &Vec<Vec<Option<f64>>>) -> Vec<Reading> {
    let width = values.iter().map(|r| r.len()).max().unwrap_or(0);
    let mut out = Vec::new();
    for c in 0..width {
        let mut count = 0.0;
        let mut sum = 0.0;
        for r in values.iter() {
            if let Some(Some(v)) = r.get(c) {
                count += 1.0;
                sum += *v;
            }
        }
        out.push(reading(sum / count));
    }
    out
}

fn guess(sample: &str) -> (char, Vec<CsvMapping>, Score) {
    let delim = detect_delimiter(sample);
    let values = parse(&tokenize(sample, delim));
    let (mapping, score) = score_and_guess(&readings(&values), &means(&values));
    (delim, mapping, score)
}

fn columns(cols: &[Vec<Option<f64>>]) -> Vec<Vec<Option<f64>>> {
    let rows = cols.iter().map(|c| c.len()).max().unwrap_or(0);
    let mut table = Vec::new();
    for r in 0..rows {
        let mut row = Vec::new();
        for c in cols.iter() {
            row.push(if r < c.len() { c[r] } else { None });
        }
        table.push(row);
    }
    table
}

fn numbers(values: &[f64]) -> Vec<Option<f64>> {
    values.iter().map(|v| Some(*v)).collect()
}

fn assigned(cols: &[Vec<Option<f64>>]) -> Vec<(usize, ColumnKind)> {
    let values = columns(cols);
    assign_columns(&readings(&values), &means(&values)).iter().map(|a| (a.index, a.kind)).collect()
}

fn entry(index: usize, key: &str, units: Option<&str>, visual: &str) -> CsvMapping {
    CsvMapping {
        index,
        key: key.to_string(),
        value_type: "number".to_string(),
        units: units.map(|u| u.to_string()),
        visual: visual.to_string(),
    }
}

#[test]
fn entries_carry_key_units_and_visual() {
    assert_eq!(CsvMapping::new(3, ColumnKind::Lat), entry(3, "lat", None, "map"));
    assert_eq!(CsvMapping::new(4, ColumnKind::Lon), entry(4, "lon", None, "map"));
    assert_eq!(CsvMapping::new(0, ColumnKind::Pressure), entry(0, "pressure", Some("hPa"), "chart"));
    assert_eq!(
        CsvMapping::new(1, ColumnKind::Temperature),
        entry(1, "temperature", Some("\u{c2}\u{b0}C"), "chart")
    );
    assert_eq!(CsvMapping::new(2, ColumnKind::Altitude), entry(2, "altitude", Some("m"), "chart"));
    assert_eq!(CsvMapping::new(9, ColumnKind::Value), entry(9, "value", None, "chart"));
    assert_eq!(CsvMapping::new(7, ColumnKind::Mode), entry(7, "mode", None, "label"));
}

#[test]
fn coordinates_go_to_the_best_ranked_column_that_passes() {
    let mut sample = String::new();
    for i in 0..20 {
        let lat = -85.0 + 170.0 * (i as f64) / 19.0;
        let lon = -170.0 + 340.0 * (i as f64) / 19.0;
        sample.push_str(&format!("{:.4},{:.4}\n", lat, lon));
    }
    let (delim, mapping, _score) = guess(&sample);
    assert_eq!(delim, ',');
    assert!(mapping.contains(&entry(0, "lat", None, "map")));
    assert_eq!(mapping[0], entry(0, "lat", None, "map"));
    assert_eq!(mapping[1], entry(0, "lon", None, "map"));
    assert_eq!(mapping[2], entry(1, "temperature", Some("\u{c2}\u{b0}C"), "chart"));
    assert_eq!(mapping.len(), 3);
}

#[test]
fn longitude_goes_to_its_own_column_where_that_ranks_first() {
    let mut lat = vec![None; 20];
    for i in 0..5 {
        lat[i] = Some(40.0 + i as f64);
    }
    let lon: Vec<Option<f64>> = (0..20).map(|i| Some(100.0 + i as f64)).collect();
    assert_eq!(
        assigned(&[lat, lon]),
        vec![(0, ColumnKind::Lat), (1, ColumnKind::Lon)]
    );
}

#[test]
fn half_in_range_is_never_a_latitude() {
    let mut half = Vec::new();
    for i in 0..10 {
        half.push(Some(10.0 + i as f64));
        half.push(Some(100.0 + i as f64));
    }
    let other: Vec<Option<f64>> = (0..20).map(|i| if i < 4 { Some(500.0) } else { None }).collect();
    let values = columns(&[half.clone(), other.clone()]);
    let table = readings(&values);
    assert_eq!(rank_columns(&score_columns(&table)), vec![0, 1]);
    assert_eq!(count_in_range(&table, 0, -90, 90), (20, 10));
    assert!(!majority_in_range(&table, 0, -90, 90));
    let kinds = assigned(&[half, other]);
    assert!(kinds.iter().all(|(_, k)| *k != ColumnKind::Lat));
    assert_eq!(kinds, vec![(0, ColumnKind::Lon), (1, ColumnKind::Altitude)]);
}

#[test]
fn six_tenths_are_not_a_majority() {
    let col = numbers(&[1.0, 2.0, 3.0, 100.0, 200.0]);
    let table = readings(&columns(&[col.clone()]));
    assert_eq!(count_in_range(&table, 0, -90, 90), (5, 3));
    assert!(!majority_in_range(&table, 0, -90, 90));
    let ten = numbers(&[1.0, 2.0, 3.0, 4.0, 5.0, 6.0, 100.0, 200.0, 300.0, 400.0]);
    assert!(!majority_in_range(&readings(&columns(&[ten])), 0, -90, 90));
}

#[test]
fn more_than_six_tenths_are_a_majority() {
    let col = numbers(&[1.0, 2.0, 3.0, 4.0, 200.0]);
    assert!(majority_in_range(&readings(&columns(&[col])), 0, -90, 90));
    let eleven = numbers(&[1.0, 2.0, 3.0, 4.0, 5.0, 6.0, 7.0, 100.0, 200.0, 300.0, 400.0]);
    assert!(majority_in_range(&readings(&columns(&[eleven])), 0, -90, 90));
}

#[test]
fn five_numbers_are_enough_and_four_are_not() {
    let five = numbers(&[1.0, 2.0, 3.0, 4.0, 5.0]);
    assert!(majority_in_range(&readings(&columns(&[five])), 0, -90, 90));
    let four = numbers(&[1.0, 2.0, 3.0, 4.0]);
    assert!(!majority_in_range(&readings(&columns(&[four.clone()])), 0, -90, 90));
    assert_eq!(assigned(&[four]), vec![(0, ColumnKind::Temperature)]);
}

#[test]
fn fields_that_are_no_numbers_do_not_count() {
    let col = vec![Some(1.0), None, Some(2.0), None, Some(3.0), None, Some(4.0), Some(5.0), None];
    let table = readings(&columns(&[col]));
    assert_eq!(count_in_range(&table, 0, -90, 90), (5, 5));
    assert_eq!(count_in_range(&table, 1, -90, 90), (0, 0));
    assert!(majority_in_range(&table, 0, -90, 90));
}

#[test]
fn pick_takes_the_first_in_the_given_order() {
    let a = numbers(&[1.0, 2.0, 3.0, 4.0, 5.0]);
    let b = numbers(&[500.0, 500.0, 500.0, 500.0, 500.0]);
    let c = numbers(&[6.0, 7.0, 8.0, 9.0, 10.0]);
    let table = readings(&columns(&[a, b, c]));
    assert_eq!(pick_column(&table, &vec![1, 2, 0], -90, 90), Some(2));
    assert_eq!(pick_column(&table, &vec![0, 1, 2], -90, 90), Some(0));
    assert_eq!(pick_column(&table, &vec![1], -90, 90), None);
    assert_eq!(pick_column(&table, &vec![], -90, 90), None);
    assert_eq!(pick_column(&table, &vec![1, 2, 0], 400, 600), Some(1));
}

#[test]
fn means_name_the_other_columns() {
    assert_eq!(classify_mean(&reading(1013.0)), ColumnKind::Pressure);
    assert_eq!(classify_mean(&reading(800.0)), ColumnKind::Pressure);
    assert_eq!(classify_mean(&reading(21.5)), ColumnKind::Temperature);
    assert_eq!(classify_mean(&reading(-40.0)), ColumnKind::Temperature);
    assert_eq!(classify_mean(&reading(85.0)), ColumnKind::Temperature);
    assert_eq!(classify_mean(&reading(85.1)), ColumnKind::Altitude);
    assert_eq!(classify_mean(&reading(5000.0)), ColumnKind::Altitude);
    assert_eq!(classify_mean(&reading(-500.0)), ColumnKind::Altitude);
    assert_eq!(classify_mean(&reading(799.9)), ColumnKind::Altitude);
    assert_eq!(classify_mean(&reading(12000.5)), ColumnKind::Value);
    assert_eq!(classify_mean(&reading(-501.0)), ColumnKind::Value);
    assert_eq!(classify_mean(&reading(f64::NAN)), ColumnKind::Value);
    assert_eq!(classify_mean(&reading(f64::INFINITY)), ColumnKind::Value);
}

#[test]
fn a_column_without_numbers_is_a_mode() {
    let text: Vec<Option<f64>> = vec![None; 8];
    let pressure = numbers(&[1000.0, 1001.0, 1002.0, 1003.0, 1004.0, 1005.0, 1006.0, 1007.0]);
    let values = columns(&[text, pressure]);
    let table = readings(&values);
    let m = means(&values);
    assert_eq!(classify_column(&table, &m, 0), ColumnKind::Mode);
    assert_eq!(classify_column(&table, &m, 1), ColumnKind::Pressure);
    assert_eq!(
        build_mapping(&table, &m),
        vec![entry(1, "pressure", Some("hPa"), "chart"), entry(0, "mode", None, "label")]
    );
}

#[test]
fn a_column_beyond_the_means_is_a_generic_value() {
    let values = columns(&[numbers(&[20.0, 21.0]), numbers(&[20.0, 21.0])]);
    let table = readings(&values);
    let short = vec![reading(20.5)];
    assert_eq!(classify_column(&table, &short, 0), ColumnKind::Temperature);
    assert_eq!(classify_column(&table, &short, 1), ColumnKind::Value);
}

#[test]
fn a_mapping_holds_at_most_six_entries() {
    let mut cols = Vec::new();
    for c in 0..10 {
        cols.push(numbers(&[1000.0 + c as f64; 6]));
    }
    let kinds = assigned(&cols);
    assert_eq!(kinds.len(), MAX_ENTRIES);
    assert_eq!(
        kinds,
        vec![
            (0, ColumnKind::Pressure),
            (1, ColumnKind::Pressure),
            (2, ColumnKind::Pressure),
            (3, ColumnKind::Pressure),
            (4, ColumnKind::Pressure),
            (5, ColumnKind::Pressure)
        ]
    );
}

#[test]
fn coordinates_count_towards_the_six_entries() {
    let mut cols = Vec::new();
    for c in 0..10 {
        cols.push(numbers(&[20.0 + c as f64; 6]));
    }
    assert_eq!(
        assigned(&cols),
        vec![
            (0, ColumnKind::Lat),
            (0, ColumnKind::Lon),
            (1, ColumnKind::Temperature),
            (2, ColumnKind::Temperature),
            (3, ColumnKind::Temperature),
            (4, ColumnKind::Temperature)
        ]
    );
}

#[test]
fn entries_follow_the_ranking() {
    let altitude = numbers(&[5000.0, 5100.0, 5200.0]);
    let temperature = numbers(&[20.0, 21.0, 22.0]);
    let pressure = numbers(&[1000.0, 1001.0, 1002.0]);
    let big = numbers(&[1e6, 2e6, 3e6]);
    assert_eq!(
        assigned(&[altitude, temperature, pressure, big]),
        vec![
            (1, ColumnKind::Temperature),
            (2, ColumnKind::Pressure),
            (0, ColumnKind::Altitude),
            (3, ColumnKind::Value)
        ]
    );
}

#[test]
fn an_empty_table_gives_an_empty_mapping() {
    let table: Vec<Vec<Option<Reading>>> = Vec::new();
    let (mapping, score) = score_and_guess(&table, &Vec::new());
    assert_eq!(mapping.len(), 0);
    assert_eq!(score, Score::zero());
    assert_eq!(assign_columns(&table, &Vec::new()), Vec::<Assignment>::new());
}

#[test]
fn a_sample_is_scored_from_its_text() {
    let sample = "t;p;mode\r\n20.5;1013.2;auto\r\n21.0;1012.9;auto\r\n21.5;1012.7;manual\r\n";
    let (delim, mapping, score) = guess(sample);
    assert_eq!(delim, ';');
    assert_eq!(
        mapping,
        vec![
            entry(0, "temperature", Some("\u{c2}\u{b0}C"), "chart"),
            entry(1, "pressure", Some("hPa"), "chart"),
            entry(2, "mode", None, "label")
        ]
    );
    assert_eq!(score, Score { tenths: 66, columns: 3 });
}
