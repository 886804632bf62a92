use table_qa::aggregate::aggregate_rows;
use table_qa::source::read_table;
use table_qa::synth::{qualifying_columns, synthesize};
use table_qa::{QaError, QuestionAnswer};

/// Run the whole pipeline over delimited-text bytes: decode, aggregate,
/// fold the numeric values (the floating-point step the caller owns), and
/// synthesize the pairs.
fn run_pipeline(data: &[u8]) -> Result<Vec<QuestionAnswer>, QaError> {
    let table = read_table(data.to_vec())?;
    let agg = aggregate_rows(&table.rows);
    let cols = qualifying_columns(&agg);
    let mut totals: Vec<String> = Vec::new();
    let mut averages: Vec<String> = Vec::new();
    for &idx in cols.iter() {
        let vals = &agg.cols[idx].values;
        let mut sum: f64 = 0.0;
        for v in vals.iter() {
            sum += v.parse::<f64>().expect("recorded value must be numeric");
        }
        totals.push(format!("{:.2}", sum));
        averages.push(format!("{:.2}", sum / vals.len() as f64));
    }
    synthesize(&agg, &table.headers, &totals, &averages)
}

fn questions(pairs: &[QuestionAnswer]) -> Vec<&str> {
    pairs.iter().map(|qa| qa.question.as_str()).collect()
}

#[test]
fn scenario_numeric_columns() {
    let data = b"month,revenue,visits\nJan,100.0,10\nFeb,200.0,20\nMar,300.0,30";
    let pairs = run_pipeline(data).expect("expected Q&A pairs");
    assert_eq!(pairs.len(), 6);
    assert_eq!(pairs[0].question, "What is the total of column \"revenue\"?");
    assert_eq!(pairs[0].answer, "600.00");
    assert_eq!(pairs[1].question, "What is the average of column \"revenue\"?");
    assert_eq!(pairs[1].answer, "200.00");
    assert_eq!(
        pairs[2].question,
        "How many rows contain a numeric value in column \"revenue\"?"
    );
    assert_eq!(pairs[2].answer, "3");
    assert_eq!(pairs[3].question, "What is the total of column \"visits\"?");
    assert_eq!(pairs[3].answer, "60.00");
    assert_eq!(pairs[4].question, "What is the average of column \"visits\"?");
    assert_eq!(pairs[4].answer, "20.00");
    assert_eq!(
        pairs[5].question,
        "How many rows contain a numeric value in column \"visits\"?"
    );
    assert_eq!(pairs[5].answer, "3");
    // The non-numeric column contributes nothing.
    assert!(questions(&pairs).iter().all(|q| !q.contains("month")));
}

#[test]
fn fully_numeric_column_average_consistent() {
    // The average answer equals the total answer divided by the count
    // answer, at the displayed precision.
    let data = b"month,revenue,visits\nJan,100.0,10\nFeb,200.0,20\nMar,300.0,30";
    let pairs = run_pipeline(data).expect("expected Q&A pairs");
    for col in pairs.chunks(3) {
        let total: f64 = col[0].answer.parse().unwrap();
        let avg: f64 = col[1].answer.parse().unwrap();
        let count: f64 = col[2].answer.parse().unwrap();
        assert!((avg - total / count).abs() < 0.005);
    }
}

#[test]
fn scenario_no_numeric_cells() {
    let data = b"a,b\nx,y\np,q";
    match run_pipeline(data) {
        Err(QaError::NoNumericColumns) => {}
        other => panic!("expected NoNumericColumns, got {:?}", other),
    }
}

#[test]
fn scenario_empty_cell_excluded() {
    let data = b"a\n1\n\n3";
    let pairs = run_pipeline(data).expect("expected Q&A pairs");
    assert_eq!(pairs.len(), 3);
    assert_eq!(pairs[0].question, "What is the total of column \"a\"?");
    assert_eq!(pairs[0].answer, "4.00");
    assert_eq!(pairs[1].answer, "2.00");
    assert_eq!(pairs[2].answer, "2");
}

#[test]
fn scenario_short_row_tolerated() {
    let data = b"a,b\n1\n2,3";
    let pairs = run_pipeline(data).expect("short rows must not abort the scan");
    assert_eq!(pairs.len(), 6);
    assert_eq!(pairs[0].question, "What is the total of column \"a\"?");
    assert_eq!(pairs[0].answer, "3.00");
    assert_eq!(pairs[2].answer, "2");
    assert_eq!(pairs[3].question, "What is the total of column \"b\"?");
    assert_eq!(pairs[3].answer, "3.00");
    assert_eq!(pairs[5].answer, "1");
}

#[test]
fn header_shorter_than_row_uses_fallback_name() {
    let data = b"a\n1,2";
    let pairs = run_pipeline(data).expect("expected Q&A pairs");
    assert_eq!(pairs.len(), 6);
    assert_eq!(pairs[0].question, "What is the total of column \"a\"?");
    assert_eq!(pairs[3].question, "What is the total of column \"value\"?");
}

#[test]
fn header_names_are_trimmed() {
    let data = b" revenue \n5\n7";
    let pairs = run_pipeline(data).expect("expected Q&A pairs");
    assert_eq!(pairs[0].question, "What is the total of column \"revenue\"?");
    assert_eq!(pairs[0].answer, "12.00");
}

#[test]
fn pipeline_is_idempotent() {
    let data = b"month,revenue,visits\nJan,100.0,10\nFeb,200.0,20\nMar,300.0,30";
    let first = run_pipeline(data).expect("expected Q&A pairs");
    let second = run_pipeline(data).expect("expected Q&A pairs");
    assert_eq!(first, second);
}

#[test]
fn row_order_does_not_change_sums_or_counts() {
    let data = b"month,revenue,visits\nJan,100.0,10\nFeb,200.0,20\nMar,300.0,30";
    let permuted = b"month,revenue,visits\nMar,300.0,30\nJan,100.0,10\nFeb,200.0,20";
    let first = run_pipeline(data).expect("expected Q&A pairs");
    let second = run_pipeline(permuted).expect("expected Q&A pairs");
    assert_eq!(first, second);
}

#[test]
fn mixed_column_counts_only_numeric_cells() {
    let data = b"v\n10\nabc\n5.5\n\n 7 ";
    let pairs = run_pipeline(data).expect("expected Q&A pairs");
    assert_eq!(pairs.len(), 3);
    assert_eq!(pairs[0].answer, "22.50");
    assert_eq!(pairs[2].answer, "3");
}

#[test]
fn special_float_words_are_numeric_evidence() {
    // "nan" and "inf" parse as 64-bit floats, so they count as numeric
    // cells and flow into the totals.
    let pairs = run_pipeline(b"x\nnan\n1").expect("expected Q&A pairs");
    assert_eq!(pairs.len(), 3);
    assert_eq!(pairs[0].answer, "NaN");
    assert_eq!(pairs[2].answer, "2");

    let pairs = run_pipeline(b"x\ninf\n1").expect("expected Q&A pairs");
    assert_eq!(pairs[0].answer, "inf");
    assert_eq!(pairs[2].answer, "2");
}

#[test]
fn empty_input_reports_no_numeric_columns() {
    match run_pipeline(b"") {
        Err(QaError::NoNumericColumns) => {}
        other => panic!("expected NoNumericColumns, got {:?}", other),
    }
}

#[test]
fn header_only_input_reports_no_numeric_columns() {
    match run_pipeline(b"a,b,c") {
        Err(QaError::NoNumericColumns) => {}
        other => panic!("expected NoNumericColumns, got {:?}", other),
    }
}

#[test]
fn unreadable_header_is_its_own_failure() {
    // The first record holds bytes that are not UTF-8.
    let data = b"a,\xff\xfe\n1,2";
    match read_table(data.to_vec()) {
        Err(QaError::HeaderUnreadable(_)) => {}
        other => panic!("expected HeaderUnreadable, got {:?}", other),
    }
}

#[test]
fn unreadable_record_is_its_own_failure() {
    // A later record holds bytes that are not UTF-8.
    let data = b"a,b\n1,2\n3,\xff\xfe";
    match read_table(data.to_vec()) {
        Err(QaError::RecordUnreadable(_)) => {}
        other => panic!("expected RecordUnreadable, got {:?}", other),
    }
}

#[test]
fn read_table_decodes_headers_and_rows() {
    let table = read_table(b"month,revenue\nJan,100.0\nFeb,200.0".to_vec()).expect("readable");
    assert_eq!(table.headers, vec!["month".to_string(), "revenue".to_string()]);
    assert_eq!(
        table.rows,
        vec![
            vec!["Jan".to_string(), "100.0".to_string()],
            vec!["Feb".to_string(), "200.0".to_string()],
        ]
    );
}

#[test]
fn quoted_fields_are_decoded() {
    let data = b"name,amount\n\"Smith, Jane\",4\nBob,6";
    let pairs = run_pipeline(data).expect("expected Q&A pairs");
    assert_eq!(pairs.len(), 3);
    assert_eq!(pairs[0].question, "What is the total of column \"amount\"?");
    assert_eq!(pairs[0].answer, "10.00");
    assert_eq!(pairs[2].answer, "2");
}
