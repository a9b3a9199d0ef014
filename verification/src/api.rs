//! The read side: what a query asks for and what the store answers.

use crate::calendar::{day_format, parsed_epoch_day, CalendarDay};
use crate::signature::{decoded_signature, TransactionId};
use crate::store::{details_on_day, lookup, views_of, RecordStore, RecordView};
use crate::transaction_details::{DetailsView, TransactionDetails};
use vstd::prelude::*;

verus! {

/// Why a request was turned down.
#[derive(Clone, Copy, Debug, PartialEq, Eq, Structural)]
pub enum QueryError {
    /// A parameter's value could not be read.
    InvalidArgument,
}

/// What a request asks for.
#[derive(Clone, Copy, Debug, PartialEq, Eq)]
pub enum Query {
    /// The details of one transaction.
    ById(TransactionId),
    /// The details of every transaction of one day.
    ByDay(CalendarDay),
    /// Nothing that the service knows.
    Unrecognized,
}

/// The mathematical value of a [`Query`].
pub enum QueryView {
    ById(Seq<u8>),
    ByDay(int),
    Unrecognized,
}

impl View for Query {
    type V = QueryView;

    open spec fn view(&self) -> QueryView {
        match *self {
            Query::ById(id) => QueryView::ById(id@),
            Query::ByDay(day) => QueryView::ByDay(day.epoch_day as int),
            Query::Unrecognized => QueryView::Unrecognized,
        }
    }
}

/// The answer to a request.
pub enum Reply<'a> {
    /// The details asked for by identifier, or nothing where the store has
    /// none under it.
    Detail(Option<&'a TransactionDetails>),
    /// The details of the day asked for.
    Records(Vec<&'a TransactionDetails>),
    /// The request named no selector.
    InvalidQuery,
}

/// The mathematical value of a [`Reply`].
pub enum ReplyView {
    Detail(Option<DetailsView>),
    Records(Seq<DetailsView>),
    InvalidQuery,
}

impl<'a> View for Reply<'a> {
    type V = ReplyView;

    open spec fn view(&self) -> ReplyView {
        match *self {
            Reply::Detail(Some(details)) => ReplyView::Detail(Some(details@)),
            Reply::Detail(None) => ReplyView::Detail(None),
            Reply::Records(found) => ReplyView::Records(views_of(found@)),
            Reply::InvalidQuery => ReplyView::InvalidQuery,
        }
    }
}

/// The query that two parameters select. Each is absent, present and
/// unreadable, or present with its value. An identifier goes before a day;
/// an unreadable value of the parameter that decides is an error.
pub open spec fn query_of(id: Option<Option<Seq<u8>>>, day: Option<Option<int>>) -> Result<
    QueryView,
    QueryError,
> {
    match id {
        Some(Some(bytes)) => Ok(QueryView::ById(bytes)),
        Some(None) => Err(QueryError::InvalidArgument),
        None => match day {
            Some(Some(epoch_day)) => Ok(QueryView::ByDay(epoch_day)),
            Some(None) => Err(QueryError::InvalidArgument),
            None => Ok(QueryView::Unrecognized),
        },
    }
}

/// What the store answers to a query.
pub open spec fn reply_of(records: Seq<RecordView>, query: QueryView) -> ReplyView {
    match query {
        QueryView::ById(id) => ReplyView::Detail(lookup(records, id)),
        QueryView::ByDay(epoch_day) => ReplyView::Records(details_on_day(records, epoch_day)),
        QueryView::Unrecognized => ReplyView::InvalidQuery,
    }
}

/// The value of an identifier parameter that has been read.
pub open spec fn id_read(id: Option<Option<TransactionId>>) -> Option<Option<Seq<u8>>> {
    match id {
        Some(Some(id)) => Some(Some(id@)),
        Some(None) => Some(None),
        None => None,
    }
}

/// The value of a day parameter that has been read.
pub open spec fn day_read(day: Option<Option<CalendarDay>>) -> Option<Option<int>> {
    match day {
        Some(Some(day)) => Some(Some(day.epoch_day as int)),
        Some(None) => Some(None),
        None => None,
    }
}

/// What reading an identifier parameter gives.
pub open spec fn id_in(text: Option<&str>) -> Option<Option<Seq<u8>>> {
    match text {
        Some(text) => Some(decoded_signature(text@)),
        None => None,
    }
}

/// What reading a day parameter gives.
pub open spec fn day_in(text: Option<&str>) -> Option<Option<int>> {
    match text {
        Some(text) => Some(parsed_epoch_day(text@, day_format())),
        None => None,
    }
}

/// The message sent where a request names no selector.
pub fn invalid_query_message() -> (message: &'static str)
    ensures
        message@ == "Invalid query parameters"@,
{
    "Invalid query parameters"
}

/// Picks the query from two parameters that have been read.
pub fn select_query(id: Option<Option<TransactionId>>, day: Option<Option<CalendarDay>>) -> (query:
    Result<Query, QueryError>)
    ensures
        query matches Ok(selected) ==> query_of(id_read(id), day_read(day)) == Ok::<
            QueryView,
            QueryError,
        >(selected@),
        query matches Err(error) ==> query_of(id_read(id), day_read(day)) == Err::<
            QueryView,
            QueryError,
        >(error),
{
    match id {
        Some(Some(id)) => Ok(Query::ById(id)),
        Some(None) => Err(QueryError::InvalidArgument),
        None => match day {
            Some(Some(day)) => Ok(Query::ByDay(day)),
            Some(None) => Err(QueryError::InvalidArgument),
            None => Ok(Query::Unrecognized),
        },
    }
}

/// Reads the query out of the `id` and `day` parameters of a request.
pub fn parse_query(id: Option<&str>, day: Option<&str>) -> (query: Result<Query, QueryError>)
    ensures
        query matches Ok(selected) ==> query_of(id_in(id), day_in(day)) == Ok::<
            QueryView,
            QueryError,
        >(selected@),
        query matches Err(error) ==> query_of(id_in(id), day_in(day)) == Err::<
            QueryView,
            QueryError,
        >(error),
{
    match id {
        Some(text) => select_query(Some(TransactionId::parse(text)), None),
        None => match day {
            Some(text) => select_query(None, Some(CalendarDay::parse(text))),
            None => select_query(None, None),
        },
    }
}

/// Answers a query from the store.
pub fn answer<'a>(store: &'a RecordStore, query: &Query) -> (reply: Reply<'a>)
    requires
        store.wf(),
    ensures
        reply@ == reply_of(store@, query@),
{
    match query {
        Query::ById(id) => Reply::Detail(store.get(id)),
        Query::ByDay(day) => Reply::Records(store.scan_by_day(*day)),
        Query::Unrecognized => Reply::InvalidQuery,
    }
}

/// Answers a request from its `id` and `day` parameters.
pub fn respond<'a>(store: &'a RecordStore, id: Option<&str>, day: Option<&str>) -> (reply: Result<
    Reply<'a>,
    QueryError,
>)
    requires
        store.wf(),
    ensures
        match query_of(id_in(id), day_in(day)) {
            Ok(query) => reply matches Ok(sent) && sent@ == reply_of(store@, query),
            Err(error) => reply matches Err(given) && given == error,
        },
{
    match parse_query(id, day) {
        Ok(query) => Ok(answer(store, &query)),
        Err(error) => Err(error),
    }
}

} // verus!
