use solforge::datetime::DateParseErrorKind;
use solforge::query::{
    account_filter, day_range_filter, empty_string_as_none, transactions_filter, DocumentFilter,
    TxQuery,
};

fn s(x: &str) -> String {
    x.to_string()
}

#[test]
fn empty_parameter_is_absent() {
    assert_eq!(empty_string_as_none(Some(s(""))), None);
    assert_eq!(empty_string_as_none(None), None);
    assert_eq!(empty_string_as_none(Some(s("abc"))), Some(s("abc")));
}

#[test]
fn empty_string_as_none_is_idempotent() {
    for v in [None, Some(s("")), Some(s(" ")), Some(s("x"))] {
        let once = empty_string_as_none(v);
        let twice = empty_string_as_none(once.clone());
        assert_eq!(once, twice);
        assert_ne!(once, Some(s("")));
    }
}

#[test]
fn query_params_normalised() {
    let q = TxQuery::from_params(Some(s("")), Some(s("31/07/2024")));
    assert_eq!(q.id(), None);
    assert_eq!(q.day(), Some(s("31/07/2024")));
}

#[test]
fn id_takes_precedence_over_day() {
    let q = TxQuery::from_params(Some(s("4CqYTMNtGpWjk67")), Some(s("23/05/2023")));
    assert_eq!(
        transactions_filter(&q),
        Ok(DocumentFilter::TransactionSignature(s("4CqYTMNtGpWjk67")))
    );
}

#[test]
fn id_precedence_even_with_bad_day() {
    let q = TxQuery::from_params(Some(s("abc")), Some(s("not a day")));
    assert_eq!(
        transactions_filter(&q),
        Ok(DocumentFilter::TransactionSignature(s("abc")))
    );
}

#[test]
fn day_gives_timestamp_range() {
    let q = TxQuery::from_params(None, Some(s("31/07/2024")));
    assert_eq!(
        transactions_filter(&q),
        Ok(DocumentFilter::TimestampRange {
            from: s("2024-07-31T00:00:00Z"),
            to: s("2024-07-31T23:59:59Z"),
        })
    );
}

#[test]
fn day_with_single_digit_fields() {
    let q = TxQuery::from_params(None, Some(s("1/2/2023")));
    assert_eq!(
        transactions_filter(&q),
        Ok(DocumentFilter::TimestampRange {
            from: s("2023-02-01T00:00:00Z"),
            to: s("2023-02-01T23:59:59Z"),
        })
    );
}

#[test]
fn no_parameters_give_all() {
    let q = TxQuery::from_params(None, None);
    assert_eq!(transactions_filter(&q), Ok(DocumentFilter::AllTransactions));
    let q = TxQuery::from_params(Some(s("")), Some(s("")));
    assert_eq!(transactions_filter(&q), Ok(DocumentFilter::AllTransactions));
}

#[test]
fn badly_formed_day_is_an_error() {
    let q = TxQuery::from_params(None, Some(s("2024-07-31")));
    let err = transactions_filter(&q).unwrap_err();
    assert_eq!(
        err.message(),
        "Failed parsing day in from date with error: input contains invalid characters"
    );
}

#[test]
fn out_of_range_day_is_an_error() {
    let q = TxQuery::from_params(None, Some(s("32/07/2024")));
    let err = transactions_filter(&q).unwrap_err();
    assert_eq!(
        err.message(),
        "Failed parsing day in from date with error: input is out of range"
    );
}

#[test]
fn error_text_matches_date_library() {
    for day in ["2024-07-31", "32/07/2024", "31/02/2024", "31/07", "31/07/2024x", "31/13/2024"] {
        let input = format!("{} 00:00:00", day);
        let lib_err = chrono::NaiveDateTime::parse_from_str(&input, "%d/%m/%Y %H:%M:%S").unwrap_err();
        let q = TxQuery::from_params(None, Some(day.to_string()));
        let err = transactions_filter(&q).unwrap_err();
        assert_eq!(
            err.message(),
            format!("Failed parsing day in from date with error: {}", lib_err)
        );
    }
}

#[test]
fn to_date_error_reported() {
    let res = day_range_filter(Ok(s("2024-07-31T00:00:00Z")), Err(DateParseErrorKind::TooLong));
    assert_eq!(
        res.unwrap_err().message(),
        "Failed parsing day in to date with error: trailing input"
    );
}

#[test]
fn from_date_error_wins() {
    let res = day_range_filter(Err(DateParseErrorKind::TooShort), Err(DateParseErrorKind::Impossible));
    assert_eq!(
        res.unwrap_err().message(),
        "Failed parsing day in from date with error: premature end of input"
    );
}

#[test]
fn each_error_kind_has_its_text() {
    let cases = [
        (DateParseErrorKind::OutOfRange, "input is out of range"),
        (DateParseErrorKind::Impossible, "no possible date and time matching input"),
        (DateParseErrorKind::NotEnough, "input is not enough for unique date and time"),
        (DateParseErrorKind::Invalid, "input contains invalid characters"),
        (DateParseErrorKind::TooShort, "premature end of input"),
        (DateParseErrorKind::TooLong, "trailing input"),
        (DateParseErrorKind::BadFormat, "bad or unsupported format string"),
    ];
    for (kind, text) in cases {
        assert_eq!(kind.text(), text);
        let res = day_range_filter(Err(kind), Ok(s("x")));
        assert_eq!(
            res.unwrap_err().message(),
            format!("Failed parsing day in from date with error: {}", text)
        );
    }
}

#[test]
fn both_bounds_give_range() {
    assert_eq!(
        day_range_filter(Ok(s("a")), Ok(s("b"))),
        Ok(DocumentFilter::TimestampRange { from: s("a"), to: s("b") })
    );
}

#[test]
fn account_filter_by_id() {
    assert_eq!(
        account_filter(s("CTTHnWEM7WRQVp9gTZL2SDT1vtGrgu9hYEgtJhjwhDHx")),
        DocumentFilter::AccountId(s("CTTHnWEM7WRQVp9gTZL2SDT1vtGrgu9hYEgtJhjwhDHx"))
    );
}

#[test]
fn documented_query_examples() {
    let id = "4CqYTMNtGpWjk67Ntq9QtDHZNaDeqYwhbh6cMVx7Qx6Y4b43kgsHP8t4TJbdrWf5kD4xuWNXhFLZfo4H6GBmxXzG";
    let q = TxQuery::from_params(Some(s(id)), None);
    assert_eq!(transactions_filter(&q), Ok(DocumentFilter::TransactionSignature(s(id))));
    let q = TxQuery::from_params(None, Some(s("23/05/2023")));
    assert_eq!(
        transactions_filter(&q),
        Ok(DocumentFilter::TimestampRange {
            from: s("2023-05-23T00:00:00Z"),
            to: s("2023-05-23T23:59:59Z"),
        })
    );
}
