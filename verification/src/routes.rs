//! The two route shapes and their verb handlers: a single-item route
//! identified by a path parameter, and a collection route identified by
//! query-string filters. Each handler turns the request's plain inputs and
//! the store's answer into one HTTP-level response.

use vstd::prelude::*;

use crate::fields::Field;
use crate::fields::fields_view;
use crate::filter::FieldFilter;
use crate::filter::Filter;
use crate::filter::FilterError;
use crate::filter::FilterErrorModel;
use crate::filter::build_collection_filter;
use crate::filter::build_identifier_filter;
use crate::filter::collection_filter;
use crate::filter::first_matching;
use crate::filter::identifier_filter_spec;
use crate::filter::matching;
use crate::query::decode_query;
use crate::query::parsed_query_of;
use crate::resource::Record;
use crate::resource::id_field;
use crate::resource::with_id;
use crate::store::Database;
use crate::value::PairsModel;

verus! {

/// The HTTP verbs this core dispatches.
#[derive(Clone, Copy, PartialEq, Eq, Structural, Debug)]
pub enum Verb {
    Get,
    Post,
}

/// What a response carries: nothing, a plain message, one shaped resource,
/// a list of shaped resources, or a fresh identifier.
pub enum ResponseBody {
    Empty,
    Message(String),
    Item(Record),
    Items(Vec<Record>),
    Identifier(u32),
}

/// An HTTP-level response: a status code and a body. Serialization of the
/// body onto the wire is the transport layer's concern.
pub struct Response {
    pub status: u16,
    pub body: ResponseBody,
}

/// The output of a single-item view transform: either a free-form field
/// mapping or a pass-through of the typed resource.
pub enum MapOrStruct<T> {
    Mapping(Record),
    Struct(T),
}

/// The field the error of a rejected request parameter names.
pub open spec fn filter_error_field(e: FilterErrorModel) -> Seq<char> {
    match e {
        FilterErrorModel::Numeric(f) => f,
        FilterErrorModel::Boolean(f) => f,
    }
}

/// The response for a request whose parameters could not be parsed: status
/// 400, naming the rejected field.
pub fn bad_request_response(e: &FilterError) -> (r: Response)
    ensures
        r.status == 400,
        (match r.body {
            ResponseBody::Message(m) => m@ == filter_error_field(e@),
            _ => false,
        }),
{
    Response { status: 400, body: ResponseBody::Message(e.field_name().clone()) }
}

/// The response for a request the authorization predicate refused: status
/// 403, distinguishable from both success and absence.
pub fn denied_response() -> (r: Response)
    ensures
        r.status == 403,
        (match r.body {
            ResponseBody::Message(m) => m@ == "access denied"@,
            _ => false,
        }),
{
    Response { status: 403, body: ResponseBody::Message("access denied".to_owned()) }
}

/// The response for a failure of the store: status 500.
pub fn store_error_response() -> (r: Response)
    ensures
        r.status == 500,
        (match r.body {
            ResponseBody::Message(m) => m@ == "error in data layer"@,
            _ => false,
        }),
{
    Response { status: 500, body: ResponseBody::Message("error in data layer".to_owned()) }
}

/// The response for a single-item request whose identifier selects nothing:
/// status 404 with an empty body, distinguishable from a denial.
pub fn not_found_response() -> (r: Response)
    ensures
        r.status == 404,
        r.body matches ResponseBody::Empty,
{
    Response { status: 404, body: ResponseBody::Empty }
}

/// The response for a verb the route shape does not support: status 405.
pub fn method_not_allowed_response() -> (r: Response)
    ensures
        r.status == 405,
        r.body matches ResponseBody::Empty,
{
    Response { status: 405, body: ResponseBody::Empty }
}

/// The response for a request body that did not parse as the resource:
/// status 400.
pub fn unparsable_body_response() -> (r: Response)
    ensures
        r.status == 400,
        (match r.body {
            ResponseBody::Message(m) => m@ == "error deserializing"@,
            _ => false,
        }),
{
    Response { status: 400, body: ResponseBody::Message("error deserializing".to_owned()) }
}

/// The response for a store that refused an insert: status 500.
pub fn insert_error_response() -> (r: Response)
    ensures
        r.status == 500,
        (match r.body {
            ResponseBody::Message(m) => m@ == "error inserting"@,
            _ => false,
        }),
{
    Response { status: 500, body: ResponseBody::Message("error inserting".to_owned()) }
}

/// What fetching one item by its path parameter comes to: either the
/// request is already answered, or the record was found and awaits the
/// authorization predicate and the view transform.
pub enum SingleGet {
    Done(Response),
    Found(Record),
}

/// A single-item route: one resource, addressed by an identifier path
/// parameter. Its authorization predicate and view transform run between
/// [`SingleRoute::handler_get`] and [`SingleRoute::respond_found`].
pub struct SingleRoute {
    pub path: String,
    pub methods: Vec<Verb>,
    pub collection: String,
}

impl SingleRoute {
    /// On GET: build the identifier filter from the path parameter (400
    /// when it is not a decimal number), ask the store for the first match
    /// (500 on store failure), answer 404 with an empty body on absence,
    /// and otherwise hand the record on.
    pub fn handler_get<DB: Database>(&self, data_layer: &DB, id_param: &str) -> (r: SingleGet)
        ensures
            (match r {
                SingleGet::Done(resp) => {
                    &&& (resp.status == 400 || resp.status == 404 || resp.status == 500)
                    &&& resp.status == 400 ==> identifier_filter_spec(id_param@) is Err && (
                    match resp.body {
                        ResponseBody::Message(m) => m@ == id_field(),
                        _ => false,
                    })
                    &&& resp.status == 404 ==> (resp.body matches ResponseBody::Empty) && (
                    match identifier_filter_spec(id_param@) {
                        Ok(fm) => first_matching(data_layer.table(self.collection@), fm) is None,
                        Err(_) => false,
                    })
                    &&& resp.status == 500 ==> (identifier_filter_spec(id_param@) is Ok) && (
                    match resp.body {
                        ResponseBody::Message(m) => m@ == "error in data layer"@,
                        _ => false,
                    })
                },
                SingleGet::Found(rec) => match identifier_filter_spec(id_param@) {
                    Ok(fm) => first_matching(data_layer.table(self.collection@), fm) == Some(rec@),
                    Err(_) => false,
                },
            }),
    {
        let filter = match build_identifier_filter::<FieldFilter>(id_param) {
            Ok(f) => f,
            Err(e) => {
                return SingleGet::Done(bad_request_response(&e));
            },
        };
        match data_layer.retrieve_one(self.collection.clone(), filter) {
            Ok(Some(rec)) => SingleGet::Found(rec),
            Ok(None) => SingleGet::Done(not_found_response()),
            Err(_) => SingleGet::Done(store_error_response()),
        }
    }

    /// Answers for a retrieved record once the authorization predicate has
    /// spoken: a denial when it refused, otherwise the shaped view of the
    /// record with status 200.
    pub fn respond_found(&self, shaped: MapOrStruct<Record>, allowed: bool) -> (r: Response)
        ensures
            !allowed ==> r.status == 403 && (match r.body {
                ResponseBody::Message(m) => m@ == "access denied"@,
                _ => false,
            }),
            allowed ==> r.status == 200 && (match shaped {
                MapOrStruct::Mapping(m) => r.body == ResponseBody::Item(m),
                MapOrStruct::Struct(s) => r.body == ResponseBody::Item(s),
            }),
    {
        if !allowed {
            return denied_response();
        }
        match shaped {
            MapOrStruct::Mapping(m) => Response { status: 200, body: ResponseBody::Item(m) },
            MapOrStruct::Struct(s) => Response { status: 200, body: ResponseBody::Item(s) },
        }
    }

    /// On POST: a single-item route rejects writes.
    pub fn handler_post(&self) -> (r: Response)
        ensures
            r.status == 405,
            r.body matches ResponseBody::Empty,
    {
        method_not_allowed_response()
    }

    /// The verbs this route accepts.
    pub fn methods(&self) -> (r: &Vec<Verb>)
        ensures
            r@ == self.methods@,
    {
        &self.methods
    }

    /// The path pattern this route serves.
    pub fn path(&self) -> (r: &String)
        ensures
            r@ == self.path@,
    {
        &self.path
    }
}

/// A collection route: all resources of one collection, filtered by the
/// query string. Its authorization predicate is evaluated against the
/// context alone, before any data access.
pub struct CollectionRoute {
    pub path: String,
    pub methods: Vec<Verb>,
    pub collection: String,
    pub fields: Vec<Field>,
}

impl CollectionRoute {
    /// On GET: decode the query string, build the multi-field filter from
    /// the declared fields (400 when a value does not parse, with no store
    /// call), honour the authorization outcome (403), and otherwise answer
    /// 200 with every matching record, or 500 when the store fails.
    pub fn handler_get<DB: Database>(&self, data_layer: &DB, query: &str, allowed: bool) -> (r:
        Response)
        ensures
            ({
                let cf = collection_filter(fields_view(self.fields@), parsed_query_of(query@));
                match cf {
                    Err(e) => r.status == 400 && (match r.body {
                        ResponseBody::Message(m) => m@ == filter_error_field(e),
                        _ => false,
                    }),
                    Ok(fm) => {
                        &&& !allowed ==> r.status == 403 && (match r.body {
                            ResponseBody::Message(m) => m@ == "access denied"@,
                            _ => false,
                        })
                        &&& allowed ==> {
                            &&& (r.status == 200 || r.status == 500)
                            &&& r.status == 200 ==> (match r.body {
                                ResponseBody::Items(rows) => crate::resource::records_view(rows@)
                                    == matching(data_layer.table(self.collection@), fm),
                                _ => false,
                            })
                            &&& r.status == 500 ==> (match r.body {
                                ResponseBody::Message(m) => m@ == "error in data layer"@,
                                _ => false,
                            })
                        }
                    },
                }
            }),
    {
        let params = decode_query(query);
        let filter = match build_collection_filter::<FieldFilter>(&self.fields, &params) {
            Ok(f) => f,
            Err(e) => {
                return bad_request_response(&e);
            },
        };
        if !allowed {
            return denied_response();
        }
        match data_layer.retrieve_many(self.collection.clone(), filter) {
            Ok(rows) => Response { status: 200, body: ResponseBody::Items(rows) },
            Err(_) => store_error_response(),
        }
    }

    /// On POST: answer 400 when the request body did not parse as the
    /// resource, otherwise persist the body under the fresh identifier and
    /// answer 200 with that identifier, or 500 when the store fails.
    pub fn handler_post<DB: Database>(
        &self,
        data_layer: &mut DB,
        body: Option<Record>,
        new_id: u32,
    ) -> (r: Response)
        ensures
            (match body {
                None => {
                    &&& r.status == 400
                    &&& (match r.body {
                        ResponseBody::Message(m) => m@ == "error deserializing"@,
                        _ => false,
                    })
                    &&& forall|n: Seq<char>| #[trigger]
                        final(data_layer).table(n) == old(data_layer).table(n)
                },
                Some(rec) => {
                    let item = with_id(rec@, Some(new_id));
                    &&& (r.status == 200 || r.status == 500)
                    &&& r.status == 200 ==> {
                        &&& r.body == ResponseBody::Identifier(new_id)
                        &&& final(data_layer).table(self.collection@) == old(data_layer).table(
                            self.collection@,
                        ).push(item)
                        &&& forall|n: Seq<char>|
                            n != self.collection@ ==> #[trigger] final(data_layer).table(n) == old(
                                data_layer,
                            ).table(n)
                    }
                    &&& r.status == 500 ==> (match r.body {
                        ResponseBody::Message(m) => m@ == "error inserting"@,
                        _ => false,
                    })
                },
            }),
    {
        let mut item = match body {
            None => {
                return unparsable_body_response();
            },
            Some(rec) => rec,
        };
        let ghost before_id = item@;
        item.set_id(Some(new_id));
        proof {
            crate::resource::lemma_with_id_id(before_id, new_id);
        }
        match data_layer.insert_one(self.collection.clone(), item) {
            Ok(id) => Response { status: 200, body: ResponseBody::Identifier(id) },
            Err(_) => insert_error_response(),
        }
    }

    /// The verbs this route accepts.
    pub fn methods(&self) -> (r: &Vec<Verb>)
        ensures
            r@ == self.methods@,
    {
        &self.methods
    }

    /// The path pattern this route serves.
    pub fn path(&self) -> (r: &String)
        ensures
            r@ == self.path@,
    {
        &self.path
    }
}

} // verus!
