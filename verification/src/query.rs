//! Request parameters of the query service and the document filters that
//! answer them.

use vstd::prelude::*;
use crate::datetime::{
    DateParseErrorKind, format_naive_datetime, naive_datetime_format,
    naive_datetime_parse_from_str, parse_error_text, parse_naive_datetime, timestamp_format,
};
use crate::error::AppError;

verus! {

/// Maps an empty parameter to an absent one; any other value is kept.
pub open spec fn spec_empty_string_as_none(value: Option<Seq<char>>) -> Option<Seq<char>> {
    match value {
        Some(s) => if s.len() == 0 { None } else { Some(s) },
        None => None,
    }
}

/// A parameter read this way is never the empty string, and reading it
/// again changes nothing.
pub proof fn lemma_empty_string_as_none_normalises(value: Option<Seq<char>>)
    ensures
        !(spec_empty_string_as_none(value) matches Some(s) && s.len() == 0),
        spec_empty_string_as_none(spec_empty_string_as_none(value)) == spec_empty_string_as_none(value),
{
}

/// Treats a query parameter given as the empty string as not given.
pub fn empty_string_as_none(value: Option<String>) -> (res: Option<String>)
    ensures
        res.deep_view() == spec_empty_string_as_none(value.deep_view()),
{
    match value {
        Some(s) => if s.as_str().is_empty() { None } else { Some(s) },
        None => None,
    }
}

/// The query parameters of the `/transactions` endpoint: a transaction id
/// (its signature) or a day in the form `day/month/year`.
#[derive(Debug, Clone, PartialEq, Eq)]
pub struct TxQuery {
    id: Option<String>,
    day: Option<String>,
}

impl TxQuery {
    /// The transaction id asked for, if any.
    pub closed spec fn spec_id(&self) -> Option<Seq<char>> {
        self.id.deep_view()
    }

    /// The day asked for, if any.
    pub closed spec fn spec_day(&self) -> Option<Seq<char>> {
        self.day.deep_view()
    }

    /// Reads the query from its raw parameters; an empty parameter counts
    /// as absent.
    pub fn from_params(id: Option<String>, day: Option<String>) -> (res: TxQuery)
        ensures
            res.spec_id() == spec_empty_string_as_none(id.deep_view()),
            res.spec_day() == spec_empty_string_as_none(day.deep_view()),
    {
        TxQuery { id: empty_string_as_none(id), day: empty_string_as_none(day) }
    }

    /// The transaction id asked for, if any.
    pub fn id(&self) -> (res: Option<String>)
        ensures
            res.deep_view() == self.spec_id(),
    {
        match &self.id {
            Some(s) => Some(s.clone()),
            None => None,
        }
    }

    /// The day asked for, if any.
    pub fn day(&self) -> (res: Option<String>)
        ensures
            res.deep_view() == self.spec_day(),
    {
        match &self.day {
            Some(s) => Some(s.clone()),
            None => None,
        }
    }
}

/// A filter on the stored documents.
#[derive(Debug, Clone, PartialEq, Eq)]
pub enum DocumentFilter {
    /// Transactions whose signatures include the given one.
    TransactionSignature(String),
    /// Transactions whose timestamp `t` has `from <= t <= to`: both
    /// bounds belong to the range.
    TimestampRange { from: String, to: String },
    /// All transactions.
    AllTransactions,
    /// The account whose id is the given one.
    AccountId(String),
}

/// The model of a document filter.
pub enum FilterSpec {
    TransactionSignature(Seq<char>),
    /// Timestamps from the first bound to the second, both included.
    TimestampRange(Seq<char>, Seq<char>),
    AllTransactions,
    AccountId(Seq<char>),
}

impl View for DocumentFilter {
    type V = FilterSpec;

    open spec fn view(&self) -> FilterSpec {
        match self {
            DocumentFilter::TransactionSignature(id) => FilterSpec::TransactionSignature(id@),
            DocumentFilter::TimestampRange { from, to } => FilterSpec::TimestampRange(from@, to@),
            DocumentFilter::AllTransactions => FilterSpec::AllTransactions,
            DocumentFilter::AccountId(id) => FilterSpec::AccountId(id@),
        }
    }
}

/// The fields of a stored document that filters read: its id, the
/// signatures of the transaction it holds, and its timestamp text.
pub struct StoredDocument {
    pub id: Seq<char>,
    pub signatures: Seq<Seq<char>>,
    pub timestamp: Seq<char>,
}

/// Whether text `a` comes no later than text `b` in the order in which the
/// document store compares strings: character by character, a proper
/// prefix first.
pub open spec fn text_le(a: Seq<char>, b: Seq<char>) -> bool
    decreases a.len(),
{
    if a.len() == 0 {
        true
    } else if b.len() == 0 {
        false
    } else if a[0] != b[0] {
        (a[0] as u32) < (b[0] as u32)
    } else {
        text_le(a.drop_first(), b.drop_first())
    }
}

/// Whether the filter selects the document. A timestamp range holds both
/// of its bounds.
pub open spec fn selects(filter: FilterSpec, doc: StoredDocument) -> bool {
    match filter {
        FilterSpec::TransactionSignature(sig) => doc.signatures.contains(sig),
        FilterSpec::TimestampRange(from, to) => text_le(from, doc.timestamp) && text_le(doc.timestamp, to),
        FilterSpec::AllTransactions => true,
        FilterSpec::AccountId(id) => doc.id == id,
    }
}

/// Every text comes no later than itself.
pub proof fn lemma_text_le_reflexive(a: Seq<char>)
    ensures
        text_le(a, a),
    decreases a.len(),
{
    if a.len() > 0 {
        lemma_text_le_reflexive(a.drop_first());
    }
}

/// A timestamp range selects a document stamped at either of its bounds:
/// both bounds belong to the range.
pub proof fn lemma_range_includes_its_bounds(from: Seq<char>, to: Seq<char>, doc: StoredDocument)
    requires
        text_le(from, to),
        doc.timestamp == from || doc.timestamp == to,
    ensures
        selects(FilterSpec::TimestampRange(from, to), doc),
{
    lemma_text_le_reflexive(from);
    lemma_text_le_reflexive(to);
}

/// The model of a handler's outcome: the filter, or the message of the error.
pub open spec fn filter_outcome(res: Result<DocumentFilter, AppError>) -> Result<FilterSpec, Seq<char>> {
    match res {
        Ok(f) => Ok(f@),
        Err(e) => Err(e.spec_message()),
    }
}

/// The format in which a day is read, with the time of day appended.
pub open spec fn day_format() -> Seq<char> {
    "%d/%m/%Y %H:%M:%S"@
}

/// The time of day that starts a day.
pub open spec fn start_of_day() -> Seq<char> {
    " 00:00:00"@
}

/// The last second of a day, which the range of the day includes.
pub open spec fn end_of_day() -> Seq<char> {
    " 23:59:59"@
}

/// The message of the error for a day whose start could not be read.
pub open spec fn from_date_error_prefix() -> Seq<char> {
    "Failed parsing day in from date with error: "@
}

/// The message of the error for a day whose end could not be read.
pub open spec fn to_date_error_prefix() -> Seq<char> {
    "Failed parsing day in to date with error: "@
}

/// One bound of the range of `day`: `day` followed by `time_of_day`, read
/// with the day format and printed as a stored timestamp, or the kind of
/// error that reading it gave.
pub open spec fn day_bound(day: Seq<char>, time_of_day: Seq<char>) -> Result<Seq<char>, DateParseErrorKind> {
    match naive_datetime_parse_from_str(day + time_of_day, day_format()) {
        Ok(dt) => Ok(naive_datetime_format(dt, timestamp_format())),
        Err(kind) => Err(kind),
    }
}

/// The filter for a day from its two bounds, or the error of the first
/// bound that could not be read.
pub open spec fn spec_day_range_filter(
    from: Result<Seq<char>, DateParseErrorKind>,
    to: Result<Seq<char>, DateParseErrorKind>,
) -> Result<FilterSpec, Seq<char>> {
    match from {
        Err(kind) => Err(from_date_error_prefix() + parse_error_text(kind)),
        Ok(f) => match to {
            Err(kind) => Err(to_date_error_prefix() + parse_error_text(kind)),
            Ok(t) => Ok(FilterSpec::TimestampRange(f, t)),
        },
    }
}

/// The filter that answers a transactions query: by id where an id is
/// given, whatever the day; else by the day's range; else all.
pub open spec fn spec_transactions_filter(id: Option<Seq<char>>, day: Option<Seq<char>>) -> Result<
    FilterSpec,
    Seq<char>,
> {
    match id {
        Some(id) => Ok(FilterSpec::TransactionSignature(id)),
        None => match day {
            Some(day) => spec_day_range_filter(
                day_bound(day, start_of_day()),
                day_bound(day, end_of_day()),
            ),
            None => Ok(FilterSpec::AllTransactions),
        },
    }
}

/// A query by day alone, where both bounds of the day can be read, selects
/// exactly the documents stamped from the day's first second to its last,
/// both included.
pub proof fn lemma_day_query_selects_whole_day(day: Seq<char>, doc: StoredDocument)
    requires
        day_bound(day, start_of_day()) is Ok,
        day_bound(day, end_of_day()) is Ok,
    ensures
        ({
            let from = day_bound(day, start_of_day())->Ok_0;
            let to = day_bound(day, end_of_day())->Ok_0;
            let range = FilterSpec::TimestampRange(from, to);
            &&& spec_transactions_filter(None, Some(day)) matches Ok(f) && f == range
            &&& selects(range, doc) <==> (text_le(from, doc.timestamp) && text_le(doc.timestamp, to))
        }),
{
}

/// A query that holds an id asks for the transaction with exactly that
/// signature, whatever the id and whatever the day: it selects a document
/// exactly when the document's signatures include the id.
pub proof fn lemma_id_query_selects_its_signature(id: Seq<char>, day: Option<Seq<char>>, doc: StoredDocument)
    ensures
        spec_transactions_filter(Some(id), day) matches Ok(f) && f == FilterSpec::TransactionSignature(id)
            && (selects(f, doc) <==> doc.signatures.contains(id)),
{
}

/// Each bound of a day is the day, followed by the time of day, read with
/// the one format day/month/year and printed as a stored timestamp,
/// whatever the characters of the day.
pub proof fn lemma_day_bound_reads_day_month_year(day: Seq<char>, time_of_day: Seq<char>)
    ensures
        day_bound(day, time_of_day) == (match naive_datetime_parse_from_str(
            day + time_of_day,
            "%d/%m/%Y %H:%M:%S"@,
        ) {
            Ok(dt) => Ok(naive_datetime_format(dt, "%Y-%m-%dT%H:%M:%SZ"@)),
            Err(kind) => Err(kind),
        }),
{
}

/// Two days whose texts, with their times of day, read as the same date and
/// time under the day/month/year format have the same bound: how the day
/// is written (a leading zero or not) changes nothing else.
pub proof fn lemma_day_bound_depends_on_the_date_read(
    d1: Seq<char>,
    t1: Seq<char>,
    d2: Seq<char>,
    t2: Seq<char>,
)
    requires
        naive_datetime_parse_from_str(d1 + t1, "%d/%m/%Y %H:%M:%S"@) == naive_datetime_parse_from_str(
            d2 + t2,
            "%d/%m/%Y %H:%M:%S"@,
        ),
    ensures
        day_bound(d1, t1) == day_bound(d2, t2),
{
}

/// The model of a bound as the date library gave it back.
pub open spec fn bound_outcome(bound: Result<String, DateParseErrorKind>) -> Result<Seq<char>, DateParseErrorKind> {
    match bound {
        Ok(s) => Ok(s@),
        Err(kind) => Err(kind),
    }
}

/// Builds the filter for a day from its two bounds: the timestamp range
/// `[from, to]`, both bounds included, where both were read, else the
/// error of the first that was not, with a message that says which bound
/// failed and why.
pub fn day_range_filter(
    from: Result<String, DateParseErrorKind>,
    to: Result<String, DateParseErrorKind>,
) -> (res: Result<DocumentFilter, AppError>)
    ensures
        filter_outcome(res) == spec_day_range_filter(bound_outcome(from), bound_outcome(to)),
{
    match from {
        Err(kind) => {
            let msg = String::from_str("Failed parsing day in from date with error: ");
            let text = kind.text();
            let msg = msg.concat(text.as_str());
            Err(AppError::from_error(msg.as_str()))
        },
        Ok(f) => match to {
            Err(kind) => {
                let msg = String::from_str("Failed parsing day in to date with error: ");
                let text = kind.text();
                let msg = msg.concat(text.as_str());
                Err(AppError::from_error(msg.as_str()))
            },
            Ok(t) => Ok(DocumentFilter::TimestampRange { from: f, to: t }),
        },
    }
}

/// Reads `day` followed by `time_of_day` with the day format and prints it
/// as a stored timestamp.
fn read_day_bound(day: &String, time_of_day: &str) -> (res: Result<String, DateParseErrorKind>)
    requires
        time_of_day@ == start_of_day() || time_of_day@ == end_of_day(),
    ensures
        bound_outcome(res) == day_bound(day@, time_of_day@),
        bound_outcome(res) == (match naive_datetime_parse_from_str(
            day@ + time_of_day@,
            "%d/%m/%Y %H:%M:%S"@,
        ) {
            Ok(dt) => Ok(naive_datetime_format(dt, "%Y-%m-%dT%H:%M:%SZ"@)),
            Err(kind) => Err(kind),
        }),
{
    let text = day.clone().concat(time_of_day);
    match parse_naive_datetime(text.as_str(), "%d/%m/%Y %H:%M:%S") {
        Ok(dt) => Ok(format_naive_datetime(&dt, "%Y-%m-%dT%H:%M:%SZ")),
        Err(kind) => Err(kind),
    }
}

/// The filter that answers a `/transactions` query: the transactions with
/// the given id (signature) where one is given, whatever the day; else
/// those stamped within the given day, from its first second to its last,
/// both included; else all transactions. A day that cannot be read
/// is answered with an error that says which bound failed and why.
pub fn transactions_filter(query: &TxQuery) -> (res: Result<DocumentFilter, AppError>)
    ensures
        filter_outcome(res) == spec_transactions_filter(query.spec_id(), query.spec_day()),
        query.spec_id() matches Some(id) ==> (res matches Ok(
            DocumentFilter::TransactionSignature(sig),
        ) && sig@ == id),
{
    match &query.id {
        Some(id) => Ok(DocumentFilter::TransactionSignature(id.clone())),
        None => match &query.day {
            Some(day) => {
                let from = read_day_bound(day, " 00:00:00");
                match from {
                    Err(kind) => day_range_filter(Err(kind), Err(kind)),
                    Ok(f) => {
                        let to = read_day_bound(day, " 23:59:59");
                        day_range_filter(Ok(f), to)
                    },
                }
            },
            None => Ok(DocumentFilter::AllTransactions),
        },
    }
}

/// The filter that answers an `/account/:id` query.
pub fn account_filter(account_id: String) -> (res: DocumentFilter)
    ensures
        res@ == FilterSpec::AccountId(account_id@),
{
    DocumentFilter::AccountId(account_id)
}

} // verus!
