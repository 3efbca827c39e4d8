use rrr_make::error::{DataFilesMalformed, Error};
use rrr_make::owned::data::{classify_data_file_name, order_data_files, parse_index, split_points};
use rrr_make::record::SplittingStrategy;

#[test]
fn data_file_names_are_classified() {
    assert_eq!(classify_data_file_name(b"data"), Some(None));
    assert_eq!(classify_data_file_name(b"data.txt"), Some(None));
    assert_eq!(classify_data_file_name(b"data."), Some(None));
    assert_eq!(classify_data_file_name(b"data.0.bin"), Some(Some(0)));
    assert_eq!(classify_data_file_name(b"data.12.tar.gz"), Some(Some(12)));
    assert_eq!(classify_data_file_name(b"data.+3.bin"), Some(Some(3)));
    assert_eq!(classify_data_file_name(b"data.x.bin"), Some(None));
    assert_eq!(classify_data_file_name(b"data..bin"), Some(None));
    assert_eq!(classify_data_file_name(b"data.99999999999999999999999.bin"), Some(None));
    assert_eq!(classify_data_file_name(b"datafile"), None);
    assert_eq!(classify_data_file_name(b"record.toml"), None);
    assert_eq!(classify_data_file_name(b"dat"), None);
}

#[test]
fn indexes_parse_like_usize() {
    assert_eq!(parse_index(b"0"), Some(0));
    assert_eq!(parse_index(b"042"), Some(42));
    assert_eq!(parse_index(b"+7"), Some(7));
    assert_eq!(parse_index(b"+"), None);
    assert_eq!(parse_index(b""), None);
    assert_eq!(parse_index(b"-1"), None);
    assert_eq!(parse_index(b"1a"), None);
    assert_eq!(parse_index(b"18446744073709551615"), Some(usize::MAX));
    assert_eq!(parse_index(b"18446744073709551616"), None);
}

#[test]
fn no_data_files_give_empty_order() {
    assert_eq!(order_data_files(&vec![]), Ok(vec![]));
}

#[test]
fn single_non_indexed_file() {
    assert_eq!(order_data_files(&vec![None]), Ok(vec![0]));
}

#[test]
fn two_non_indexed_files_conflict() {
    assert_eq!(order_data_files(&vec![None, None]), Err(DataFilesMalformed::DuplicateNonIndexed));
}

#[test]
fn mixed_indexing_is_refused() {
    assert_eq!(order_data_files(&vec![Some(1), None]), Err(DataFilesMalformed::MixedIndexing));
}

#[test]
fn indexed_files_are_ordered_by_index() {
    assert_eq!(order_data_files(&vec![Some(2), Some(0), Some(1)]), Ok(vec![1, 2, 0]));
    assert_eq!(order_data_files(&vec![Some(6), Some(5)]), Ok(vec![1, 0]));
    assert_eq!(order_data_files(&vec![Some(5)]), Ok(vec![0]));
}

#[test]
fn duplicate_index_is_refused() {
    assert_eq!(
        order_data_files(&vec![Some(3), Some(3), Some(1), Some(1)]),
        Err(DataFilesMalformed::DuplicateIndex { index: 1 })
    );
}

#[test]
fn gap_in_indexes_is_refused() {
    assert_eq!(order_data_files(&vec![Some(0), Some(2)]), Err(DataFilesMalformed::MissingIndex { index: 1 }));
    assert_eq!(
        order_data_files(&vec![Some(9), Some(4), Some(5), Some(7)]),
        Err(DataFilesMalformed::MissingIndex { index: 6 })
    );
}

#[test]
fn manual_splitting_records_cumulative_boundaries() {
    assert_eq!(split_points(SplittingStrategy::Manual {}, &vec![3, 4, 5]), Ok(Some(vec![3, 7])));
    assert_eq!(split_points(SplittingStrategy::Manual {}, &vec![10]), Ok(Some(vec![])));
    assert_eq!(split_points(SplittingStrategy::Fill {}, &vec![3, 4, 5]), Ok(None));
}

#[test]
fn record_without_data_cannot_be_read() {
    assert_eq!(split_points(SplittingStrategy::Fill {}, &vec![]), Err(Error::DataFileMissing));
    assert_eq!(split_points(SplittingStrategy::Manual {}, &vec![]), Err(Error::DataFileMissing));
}
