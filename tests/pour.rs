use cstea::{PourCsTea, PourCsvArg, PourLedger};

#[test]
fn pour_create_csv_args() {
    let csv_args = PourCsvArg::new("fixtures/test.csv");
    assert_eq!(csv_args.filepath(), "fixtures/test.csv");
}

#[test]
fn create_pour_cstea() {
    let csv_args = PourCsvArg::new("fixtures/test.csv");
    let pour_cstea = PourCsTea::new("test_csv", csv_args);
    assert_eq!(pour_cstea.name(), "test_csv");
    assert_eq!(pour_cstea.params().filepath(), "fixtures/test.csv");
}

#[test]
fn new_file_gets_one_header_over_two_batches() {
    let mut ledger = PourLedger::new();
    assert_eq!(ledger.header_wanted(), None);
    assert!(ledger.begin_batch(false, 2));
    assert_eq!(ledger.header_wanted(), Some(true));
    // The first batch created the file; the decision is not taken again.
    assert!(!ledger.begin_batch(true, 1));
    assert_eq!(ledger.header_wanted(), Some(true));
}

#[test]
fn existing_file_never_gets_a_header() {
    let mut ledger = PourLedger::new();
    assert!(!ledger.begin_batch(true, 3));
    assert_eq!(ledger.header_wanted(), Some(false));
    assert!(!ledger.begin_batch(false, 3));
    assert!(!ledger.begin_batch(true, 3));
}

#[test]
fn header_waits_for_first_record() {
    let mut ledger = PourLedger::new();
    assert!(!ledger.begin_batch(false, 0));
    assert!(ledger.begin_batch(true, 1));
    assert!(!ledger.begin_batch(true, 1));
}

#[test]
fn many_batches_one_header() {
    let mut ledger = PourLedger::new();
    let mut headers = 0;
    let mut rows = 0;
    for i in 0..4 {
        if ledger.begin_batch(i > 0, 3) {
            headers += 1;
        }
        rows += 3;
    }
    assert_eq!(headers, 1);
    assert_eq!(rows, 12);
}
