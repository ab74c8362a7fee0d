//! From what the host answered to what a caller receives.
//!
//! Each fetch puts one fixed request to the host. The functions here take the
//! answer as a plain value and return the fetch's result: the data in its
//! final shape, or the error that belongs to the stage at which the host
//! refused.

use vstd::prelude::*;

use crate::error::Error;
use crate::property_map::{
    entries_map, lemma_same_properties_same_map, same_properties, PropertyMap,
};
use crate::variant::{Value, Variant};

verus! {

/// One result row as the management subsystem reports it: the names of the
/// row's properties, each with its value.
pub type Row = Vec<(String, Variant)>;

/// How a session with the management subsystem ended.
#[derive(Debug, PartialEq, Eq)]
pub enum Reply<T> {
    /// No session could be established; with the reason given.
    Unreachable(String),
    /// The session was established and a query was refused; with the reason given.
    Rejected(String),
    /// Every query was answered.
    Answered(T),
}

/// The mappings that the rows denote, in the order of the rows.
pub open spec fn row_maps(rows: Seq<Row>) -> Seq<Map<Seq<char>, Value>> {
    Seq::new(rows.len(), |i: int| entries_map(rows[i]@))
}

/// The mappings that a list holds, in the order of the list.
pub open spec fn list_maps(list: Seq<PropertyMap>) -> Seq<Map<Seq<char>, Value>> {
    Seq::new(list.len(), |i: int| list[i]@)
}

/// The mapping that stands for a whole answer of which one row is expected:
/// the last row's, or the empty mapping where there is no row.
pub open spec fn last_row_map(rows: Seq<Row>) -> Map<Seq<char>, Value> {
    if rows.len() == 0 {
        Map::empty()
    } else {
        entries_map(rows.last()@)
    }
}

/// The two answers report the same rows: equally many, and row by row the
/// same properties.
pub open spec fn same_rows(first: Seq<Row>, second: Seq<Row>) -> bool {
    &&& first.len() == second.len()
    &&& forall|i: int| 0 <= i < first.len() ==> same_properties(#[trigger] first[i]@, second[i]@)
}

/// An answer has as many mappings as rows, and an answer without rows is the
/// empty list, or the empty mapping where a single mapping stands for it.
pub proof fn lemma_rows_are_counted(rows: Seq<Row>)
    ensures
        row_maps(rows).len() == rows.len(),
        rows.len() == 0 ==> row_maps(rows) == Seq::<Map<Seq<char>, Value>>::empty(),
        rows.len() == 0 ==> last_row_map(rows) == Map::<Seq<char>, Value>::empty(),
{
}

/// Where a single mapping stands for an answer, the row reported last decides
/// it, whatever was reported before.
pub proof fn lemma_last_row_wins(earlier: Seq<Row>, last: Row)
    ensures
        last_row_map(earlier.push(last)) == entries_map(last@),
{
}

/// What is made of an answer depends on the reported properties alone: two
/// answers that report the same rows give the same list of mappings and the
/// same single mapping.
pub proof fn lemma_same_rows_same_result(first: Seq<Row>, second: Seq<Row>)
    requires
        same_rows(first, second),
    ensures
        row_maps(first) == row_maps(second),
        last_row_map(first) == last_row_map(second),
{
    assert forall|i: int| 0 <= i < first.len() implies entries_map(first[i]@) == entries_map(
        second[i]@,
    ) by {
        assert(same_properties(first[i]@, second[i]@));
        lemma_same_properties_same_map(first[i]@, second[i]@);
    }
    assert(row_maps(first) =~= row_maps(second));
    if first.len() > 0 {
        assert(entries_map(first[first.len() - 1]@) == entries_map(second[second.len() - 1]@));
    }
}

/// Turns every row into a mapping, keeping number and order.
pub fn shape_rows(rows: Vec<Row>) -> (list: Vec<PropertyMap>)
    ensures
        list@.len() == rows@.len(),
        list_maps(list@) == row_maps(rows@),
{
    let ghost reported = rows@;
    let mut list: Vec<PropertyMap> = Vec::new();
    for row in it: rows
        invariant
            it.seq() == reported,
            list@.len() == it.index(),
            forall|i: int|
                0 <= i < list@.len() ==> (#[trigger] list@[i])@ == entries_map(reported[i]@),
    {
        list.push(PropertyMap::from_entries(row));
    }
    list
}

/// Collapses an answer to a single mapping: the last row wins, and no row
/// gives the empty mapping.
pub fn last_row(rows: Vec<Row>) -> (map: PropertyMap)
    ensures
        map@ == last_row_map(rows@),
{
    let mut rows = rows;
    match rows.pop() {
        Some(row) => PropertyMap::from_entries(row),
        None => PropertyMap::new(),
    }
}

/// The result of a fetch that expects at most one row.
fn single_row(reply: Reply<Vec<Row>>) -> (result: Result<PropertyMap, Error>)
    ensures
        match reply {
            Reply::Unreachable(reason) => result == Err::<PropertyMap, Error>(
                Error::Connection(reason),
            ),
            Reply::Rejected(reason) => result == Err::<PropertyMap, Error>(Error::Query(reason)),
            Reply::Answered(rows) => result matches Ok(map) && map@ == last_row_map(rows@),
        },
{
    match reply {
        Reply::Unreachable(reason) => Err(Error::Connection(reason)),
        Reply::Rejected(reason) => Err(Error::Query(reason)),
        Reply::Answered(rows) => Ok(last_row(rows)),
    }
}

/// The properties of the operating system, from the answer to
/// [`OPERATING_SYSTEM_QUERY`](crate::request::OPERATING_SYSTEM_QUERY).
///
/// An answer without rows is a success and gives the empty mapping. Of several
/// rows the last is returned.
pub fn get_cimos(reply: Reply<Vec<Row>>) -> (result: Result<PropertyMap, Error>)
    ensures
        match reply {
            Reply::Unreachable(reason) => result == Err::<PropertyMap, Error>(
                Error::Connection(reason),
            ),
            Reply::Rejected(reason) => result == Err::<PropertyMap, Error>(Error::Query(reason)),
            Reply::Answered(rows) => result matches Ok(map) && map@ == last_row_map(rows@),
        },
{
    single_row(reply)
}

/// The properties of the processor, from the answer to
/// [`PROCESSOR_QUERY`](crate::request::PROCESSOR_QUERY).
///
/// A host reports one row per processor; the rows are collapsed to the last
/// one. An answer without rows is a success and gives the empty mapping.
pub fn get_cpu(reply: Reply<Vec<Row>>) -> (result: Result<PropertyMap, Error>)
    ensures
        match reply {
            Reply::Unreachable(reason) => result == Err::<PropertyMap, Error>(
                Error::Connection(reason),
            ),
            Reply::Rejected(reason) => result == Err::<PropertyMap, Error>(Error::Query(reason)),
            Reply::Answered(rows) => result matches Ok(map) && map@ == last_row_map(rows@),
        },
{
    single_row(reply)
}

/// The antivirus products and the firewall products, in this order, from the
/// answers to [`ANTIVIRUS_QUERY`](crate::request::ANTIVIRUS_QUERY) and
/// [`FIREWALL_QUERY`](crate::request::FIREWALL_QUERY).
///
/// The two lists are returned as reported, one mapping per row. Either may be
/// empty: a host whose built-in firewall is active reports no firewall
/// product.
pub fn get_avfw(reply: Reply<(Vec<Row>, Vec<Row>)>) -> (result: Result<
    (Vec<PropertyMap>, Vec<PropertyMap>),
    Error,
>)
    ensures
        match reply {
            Reply::Unreachable(reason) => result == Err::<
                (Vec<PropertyMap>, Vec<PropertyMap>),
                Error,
            >(Error::Connection(reason)),
            Reply::Rejected(reason) => result == Err::<(Vec<PropertyMap>, Vec<PropertyMap>), Error>(
                Error::Query(reason),
            ),
            Reply::Answered(rows) => {
                &&& result matches Ok(lists)
                &&& lists.0@.len() == rows.0@.len()
                &&& lists.1@.len() == rows.1@.len()
                &&& list_maps(lists.0@) == row_maps(rows.0@)
                &&& list_maps(lists.1@) == row_maps(rows.1@)
            },
        },
{
    match reply {
        Reply::Unreachable(reason) => Err(Error::Connection(reason)),
        Reply::Rejected(reason) => Err(Error::Query(reason)),
        Reply::Answered(rows) => {
            let antivirus = shape_rows(rows.0);
            let firewall = shape_rows(rows.1);
            Ok((antivirus, firewall))
        },
    }
}

/// The product key, from the outcome of reading
/// [`PRODUCT_KEY_VALUE`](crate::request::PRODUCT_KEY_VALUE): the bytes of the
/// registry value as they were read, or the refusal as a registry error.
pub fn get_key(reply: Result<Vec<u8>, String>) -> (result: Result<Vec<u8>, Error>)
    ensures
        match reply {
            Ok(bytes) => result == Ok::<Vec<u8>, Error>(bytes),
            Err(reason) => result == Err::<Vec<u8>, Error>(Error::RegistryAccess(reason)),
        },
{
    match reply {
        Ok(bytes) => Ok(bytes),
        Err(reason) => Err(Error::RegistryAccess(reason)),
    }
}

/// The listing of the scheduled tasks, from the outcome of enumerating
/// [`TASK_ROOT_FOLDER`](crate::request::TASK_ROOT_FOLDER): the listing as the
/// service rendered it, for the caller to emit, or the refusal as a task
/// service error.
pub fn get_tasks(reply: Result<String, String>) -> (result: Result<String, Error>)
    ensures
        match reply {
            Ok(listing) => result == Ok::<String, Error>(listing),
            Err(reason) => result == Err::<String, Error>(Error::TaskService(reason)),
        },
{
    match reply {
        Ok(listing) => Ok(listing),
        Err(reason) => Err(Error::TaskService(reason)),
    }
}

} // verus!
