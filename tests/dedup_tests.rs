use csv_dedup::cli::{done_message, missing_input_message, parse_args, usage_message};
use csv_dedup::codec::{deduplicate_csv, write_rows, DedupError};
use csv_dedup::dedup::{dedup_records, Deduplicator};
use csv_dedup::row_key::row_key;
use csv_dedup::seen_set::SeenSet;

fn rec(fields: &[&str]) -> Vec<String> {
    fields.iter().map(|f| f.to_string()).collect()
}

fn run(input: &str) -> Vec<u8> {
    match deduplicate_csv(input.as_bytes()) {
        Ok(out) => out,
        Err(_) => panic!("deduplication failed on {:?}", input),
    }
}

#[test]
fn scenario_repeated_row_removed() {
    assert_eq!(run("a,b\na,b\nc,d\n"), b"a,b\nc,d\n".to_vec());
}

#[test]
fn scenario_empty_input() {
    assert_eq!(run(""), Vec::<u8>::new());
}

#[test]
fn write_rows_of_nothing() {
    let rows: Vec<Vec<String>> = Vec::new();
    assert!(matches!(write_rows(&rows), Ok(out) if out.is_empty()));
}

#[test]
fn scenario_quoted_field_round_trips() {
    assert_eq!(run("x,\"y,z\"\nx,\"y,z\"\n"), b"x,\"y,z\"\n".to_vec());
}

#[test]
fn first_row_is_not_a_header() {
    assert_eq!(run("h,k\nh,k\n1,2\n"), b"h,k\n1,2\n".to_vec());
}

#[test]
fn fully_duplicated_input_gives_one_row() {
    assert_eq!(run("p,q\np,q\np,q\np,q\n"), b"p,q\n".to_vec());
}

#[test]
fn order_of_first_occurrences_is_kept() {
    assert_eq!(run("c\nb\nc\na\nb\n"), b"c\nb\na\n".to_vec());
}

#[test]
fn running_twice_changes_nothing() {
    let once = run("1,2\n3,4\n1,2\n5,6\n3,4\n");
    let twice = match deduplicate_csv(&once) {
        Ok(out) => out,
        Err(_) => panic!("second run failed"),
    };
    assert_eq!(once, b"1,2\n3,4\n5,6\n".to_vec());
    assert_eq!(twice, once);
}

#[test]
fn unequal_row_lengths_are_a_parse_error() {
    let r = deduplicate_csv(b"a,b\nc\n");
    assert!(matches!(r, Err(DedupError::Parse(_))));
}

#[test]
fn invalid_utf8_is_a_parse_error() {
    let r = deduplicate_csv(b"a,\xff\n");
    assert!(matches!(r, Err(DedupError::Parse(_))));
}

#[test]
fn row_key_joins_with_comma() {
    assert_eq!(row_key(&rec(&["a", "b", "c"])), "a,b,c");
    assert_eq!(row_key(&rec(&["solo"])), "solo");
    assert_eq!(row_key(&rec(&[])), "");
}

#[test]
fn dedup_records_keeps_first_occurrence() {
    let rows = vec![
        rec(&["k", "1"]),
        rec(&["m", "2"]),
        rec(&["k", "1"]),
        rec(&["n", "3"]),
        rec(&["m", "2"]),
    ];
    let kept = dedup_records(&rows);
    assert_eq!(kept, vec![rec(&["k", "1"]), rec(&["m", "2"]), rec(&["n", "3"])]);
    assert!(kept.len() < rows.len());
    for i in 0..kept.len() {
        for j in (i + 1)..kept.len() {
            assert_ne!(row_key(&kept[i]), row_key(&kept[j]));
        }
    }
}

#[test]
fn distinct_rows_pass_unchanged() {
    let rows = vec![rec(&["a"]), rec(&["b"]), rec(&["c"])];
    let kept = dedup_records(&rows);
    assert_eq!(kept.len(), rows.len());
    assert_eq!(kept, rows);
}

#[test]
fn dedup_records_of_nothing() {
    let rows: Vec<Vec<String>> = Vec::new();
    assert!(dedup_records(&rows).is_empty());
}

#[test]
fn seen_set_reports_new_keys() {
    let mut s = SeenSet::new();
    assert!(!s.contains(&"a".to_string()));
    assert!(s.insert("a".to_string()));
    assert!(s.insert("b".to_string()));
    assert!(!s.insert("a".to_string()));
    assert!(s.contains(&"a".to_string()));
    assert!(s.contains(&"b".to_string()));
    assert!(!s.contains(&"c".to_string()));
}

#[test]
fn deduplicator_examines_rows() {
    let mut d = Deduplicator::new();
    assert!(d.examine(&rec(&["a", "b"])));
    assert!(d.examine(&rec(&["c", "d"])));
    assert!(!d.examine(&rec(&["a", "b"])));
}

#[test]
fn write_rows_quotes_where_needed() {
    let rows = vec![rec(&["a", "b"]), rec(&["say \"hi\"", "x,y"]), rec(&["", "line\nbreak"])];
    let out = match write_rows(&rows) {
        Ok(out) => out,
        Err(_) => panic!("writing failed"),
    };
    assert_eq!(
        String::from_utf8(out).unwrap(),
        "a,b\n\"say \"\"hi\"\"\",\"x,y\"\n,\"line\nbreak\"\n"
    );
}

#[test]
fn write_rows_single_empty_field() {
    let out = match write_rows(&vec![rec(&[""])]) {
        Ok(out) => out,
        Err(_) => panic!("writing failed"),
    };
    assert_eq!(out, b"\"\"\n".to_vec());
}

#[test]
fn embedded_newline_survives() {
    assert_eq!(
        run("\"a\nb\",c\n\"a\nb\",c\n"),
        b"\"a\nb\",c\n".to_vec()
    );
}

#[test]
fn args_need_exactly_two_paths() {
    let prog = "dedup".to_string();
    assert!(parse_args(&vec![]).is_none());
    assert!(parse_args(&vec![prog.clone()]).is_none());
    assert!(parse_args(&vec![prog.clone(), "in.csv".to_string()]).is_none());
    let four = vec![prog.clone(), "a".to_string(), "b".to_string(), "c".to_string()];
    assert!(parse_args(&four).is_none());
    let three = vec![prog, "in.csv".to_string(), "out.csv".to_string()];
    assert_eq!(
        parse_args(&three),
        Some(("in.csv".to_string(), "out.csv".to_string()))
    );
}

#[test]
fn messages_name_their_paths() {
    assert_eq!(usage_message("dedup"), "Usage: dedup <input_csv> <output_csv>");
    assert_eq!(
        missing_input_message("nope.csv"),
        "Error: Input file 'nope.csv' does not exist"
    );
    assert_eq!(
        done_message("out.csv"),
        "Deduplication complete. Unique lines written to out.csv"
    );
}
