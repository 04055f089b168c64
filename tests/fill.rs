use cstea::{BatchFill, FillCsTea, FillCsvArg, FillStep};

/// Feeds `items` to a fresh read in batches of `size`, then the end of the
/// input, and collects what was dispatched and the error, if any.
fn run<T, E>(size: usize, items: Vec<Result<T, E>>) -> (Vec<Vec<T>>, Option<E>) {
    let mut fill: BatchFill<T> = BatchFill::new(size);
    let mut batches = Vec::new();
    let mut items = items.into_iter();
    loop {
        match fill.next(items.next()) {
            FillStep::Continue => {}
            FillStep::Dispatch(b) => batches.push(b),
            FillStep::Done => return (batches, None),
            FillStep::Failed(e) => {
                assert!(fill.is_finished());
                return (batches, Some(e));
            }
        }
    }
}

fn rows(n: u32) -> Vec<Result<u32, String>> {
    (1..=n).map(Ok).collect()
}

#[test]
fn fill_create_csv_args() {
    let csv_args = FillCsvArg::new("fixtures/test.csv", 50);
    assert_eq!(csv_args.filepath(), "fixtures/test.csv");
    assert_eq!(csv_args.batch_size(), 50);
}

#[test]
fn create_fill_cstea() {
    let csv_args = FillCsvArg::new("fixtures/test.csv", 50);
    let fill_cstea = FillCsTea::new("test_csv", "fixture", csv_args);
    assert_eq!(fill_cstea.name(), "test_csv");
    assert_eq!(fill_cstea.source(), "fixture");
    assert_eq!(fill_cstea.params().filepath(), "fixtures/test.csv");
    assert_eq!(fill_cstea.params().batch_size(), 50);
}

#[test]
fn unit_starts_read_with_its_batch_size() {
    let fill_cstea = FillCsTea::new("n", "s", FillCsvArg::new("f.csv", 2));
    let mut fill: BatchFill<u32> = fill_cstea.params().start();
    assert!(matches!(fill.next::<()>(Some(Ok(1))), FillStep::Continue));
    match fill.next::<()>(Some(Ok(2))) {
        FillStep::Dispatch(b) => assert_eq!(b, vec![1, 2]),
        _ => panic!("a full batch must be dispatched"),
    }
}

#[test]
fn batches_are_full_then_remainder() {
    let (batches, err) = run(3, rows(7));
    assert!(err.is_none());
    assert_eq!(batches, vec![vec![1, 2, 3], vec![4, 5, 6], vec![7]]);
}

#[test]
fn batch_count_is_rows_over_size_rounded_up() {
    for n in 0..20u32 {
        for b in 1..6usize {
            let (batches, _) = run(b, rows(n));
            assert_eq!(batches.len(), (n as usize + b - 1) / b);
            let flat: Vec<u32> = batches.iter().flatten().copied().collect();
            assert_eq!(flat, (1..=n).collect::<Vec<u32>>());
            if let Some((last, full)) = batches.split_last() {
                assert!(full.iter().all(|x| x.len() == b));
                let rem = n as usize % b;
                assert_eq!(last.len(), if rem == 0 { b } else { rem });
            }
        }
    }
}

#[test]
fn no_rows_no_batches() {
    let (batches, err) = run(4, rows(0));
    assert!(batches.is_empty());
    assert!(err.is_none());
}

#[test]
fn exact_multiple_has_no_partial_batch() {
    let (batches, _) = run(2, rows(4));
    assert_eq!(batches, vec![vec![1, 2], vec![3, 4]]);
    let (batches, _) = run(3, rows(3));
    assert_eq!(batches, vec![vec![1, 2, 3]]);
}

#[test]
fn single_row_makes_one_batch() {
    let (batches, _) = run(50, rows(1));
    assert_eq!(batches, vec![vec![1]]);
}

#[test]
fn zero_batch_size_dispatches_once_at_end() {
    let (batches, _) = run(0, rows(5));
    assert_eq!(batches, vec![vec![1, 2, 3, 4, 5]]);
}

#[test]
fn decode_failure_stops_before_failing_row() {
    let items: Vec<Result<u32, String>> =
        vec![Ok(1), Ok(2), Ok(3), Err("bad row 4".to_string()), Ok(5), Ok(6)];
    let (batches, err) = run(2, items);
    assert_eq!(batches, vec![vec![1, 2]]);
    assert_eq!(err, Some("bad row 4".to_string()));
}

#[test]
fn decode_failure_on_first_row_dispatches_nothing() {
    let items: Vec<Result<u32, String>> = vec![Err("bad".to_string()), Ok(2)];
    let (batches, err) = run(1, items);
    assert!(batches.is_empty());
    assert!(err.is_some());
}

#[test]
fn finished_read_stays_done() {
    let mut fill: BatchFill<u32> = BatchFill::new(2);
    assert!(matches!(fill.next::<()>(None), FillStep::Done));
    assert!(fill.is_finished());
    assert!(matches!(fill.next::<()>(Some(Ok(1))), FillStep::Done));
    assert!(matches!(fill.next::<()>(None), FillStep::Done));
}

#[test]
fn fill_csv_example_batches() {
    let items: Vec<Result<(i32, String, i32), ()>> = vec![
        Ok((1, "a".to_string(), 10)),
        Ok((2, "b".to_string(), 20)),
        Ok((3, "c".to_string(), 30)),
    ];
    let (batches, err) = run(2, items);
    assert!(err.is_none());
    assert_eq!(
        batches,
        vec![
            vec![(1, "a".to_string(), 10), (2, "b".to_string(), 20)],
            vec![(3, "c".to_string(), 30)],
        ]
    );
}
