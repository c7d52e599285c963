//! The document-store client's logic: the request URLs, the interpretation
//! of a fetch outcome into documents or a tagged error, and the typed
//! decoding of the store's field envelope into the pipeline's view.
//! The network call itself happens outside; this module receives its
//! outcome as a plain value and is verified for every outcome.

use vstd::prelude::*;
use vstd::string::*;
use crate::CoreError;
use crate::json::JsonValue;
use crate::json::field_of;
use crate::json::text_of;
use crate::json::int_of;
use crate::json::elements_of;
use crate::json::lookup;
use crate::json::parsed_json;
use crate::json::str_eq;
use crate::pipeline::QueueDocument;
use crate::pipeline::select_spec;
use crate::time::DateYmd;

verus! {

/// How one authenticated read of the remote store ended: the network failed,
/// or the store answered with a status and a body.
pub enum FetchOutcome {
    Transport,
    Response { ok: bool, body: String },
}

/// One inbound request, as the routing layer hands it over.
pub struct DocumentRequest {
    pub id: Option<String>,
    pub amount: Option<u64>,
}

/// The number of documents a request asks for when it names none.
pub const DEFAULT_AMOUNT: u64 = 10;

impl DocumentRequest {
    /// The requested document id; `None` when it is missing or empty, which
    /// the handler rejects before any fetch.
    pub fn document_id(&self) -> (r: Option<&String>)
        ensures
            match r {
                Some(s) => self.id matches Some(i) && s@ == i@ && s@.len() > 0,
                None => self.id is None || (self.id matches Some(i) && i@.len() == 0),
            },
    {
        match &self.id {
            Some(s) => {
                if s.as_str().is_empty() {
                    None
                } else {
                    Some(s)
                }
            },
            None => None,
        }
    }

    /// The requested count, or the default when the request names none.
    pub fn amount_or_default(&self) -> (r: u64)
        ensures
            match self.amount {
                Some(a) => r == a,
                None => r == DEFAULT_AMOUNT,
            },
    {
        match self.amount {
            Some(a) => a,
            None => DEFAULT_AMOUNT,
        }
    }
}

/// A logical pointer into the remote store: a project, a collection, and
/// optionally one document in it. Purely descriptive; built fresh per
/// request from configuration and request parameters.
pub struct DocumentRef {
    pub project: String,
    pub collection: String,
    pub document_id: Option<String>,
}

impl DocumentRef {
    /// The URL this pointer resolves to: the collection listing, or one
    /// document under it.
    pub fn url(&self) -> (r: String)
        ensures
            match self.document_id {
                None => r@ == spec_collection_url(self.project@, self.collection@),
                Some(id) => r@ == spec_collection_url(self.project@, self.collection@)
                    + "/"@ + id@,
            },
    {
        match &self.document_id {
            None => collection_url(self.project.as_str(), self.collection.as_str()),
            Some(id) => document_url(
                self.project.as_str(),
                self.collection.as_str(),
                id.as_str(),
            ),
        }
    }
}

/// The store's URL for listing one collection.
pub open spec fn spec_collection_url(project: Seq<char>, collection: Seq<char>) -> Seq<char> {
    "https://firestore.googleapis.com/v1/projects/"@ + project
        + "/databases/(default)/documents/"@ + collection
}

pub fn collection_url(project: &str, collection: &str) -> (r: String)
    ensures
        r@ == spec_collection_url(project@, collection@),
{
    let mut url = String::from_str("https://firestore.googleapis.com/v1/projects/");
    url.append(project);
    url.append("/databases/(default)/documents/");
    url.append(collection);
    url
}

/// The store's URL for fetching one document by id.
pub fn document_url(project: &str, collection: &str, id: &str) -> (r: String)
    ensures
        r@ == spec_collection_url(project@, collection@) + "/"@ + id@,
{
    let mut url = collection_url(project, collection);
    url.append("/");
    url.append(id);
    url
}

/// The timestamp text a document carries under
/// `fields.scheduled_date.timestampValue`, if any.
pub open spec fn spec_scheduled_stamp(doc: JsonValue) -> Option<Seq<char>> {
    match field_of(doc, "fields"@) {
        Some(f) => match field_of(f, "scheduled_date"@) {
            Some(sd) => match field_of(sd, "timestampValue"@) {
                Some(t) => text_of(t),
                None => None,
            },
            None => None,
        },
        None => None,
    }
}

/// The time slot a document carries under `fields.time_slot.stringValue`;
/// empty when absent or not a string.
pub open spec fn spec_time_slot(doc: JsonValue) -> Seq<char> {
    match field_of(doc, "fields"@) {
        Some(f) => match field_of(f, "time_slot"@) {
            Some(ts) => match field_of(ts, "stringValue"@) {
                Some(t) => match text_of(t) {
                    Some(s) => s,
                    None => Seq::empty(),
                },
                None => Seq::empty(),
            },
            None => Seq::empty(),
        },
        None => Seq::empty(),
    }
}

/// The queue number a document carries under
/// `fields.queue_number.integerValue`; 0 when absent or not an integer.
pub open spec fn spec_queue_number(doc: JsonValue) -> i64 {
    match field_of(doc, "fields"@) {
        Some(f) => match field_of(f, "queue_number"@) {
            Some(qn) => match field_of(qn, "integerValue"@) {
                Some(n) => match int_of(n) {
                    Some(i) => i,
                    None => 0,
                },
                None => 0,
            },
            None => 0,
        },
        None => 0,
    }
}

fn scheduled_stamp<'a>(doc: &'a JsonValue) -> (r: Option<&'a String>)
    ensures
        match r {
            Some(s) => spec_scheduled_stamp(*doc) == Some(s@),
            None => spec_scheduled_stamp(*doc) is None,
        },
{
    match doc.get_field("fields") {
        Some(f) => match f.get_field("scheduled_date") {
            Some(sd) => match sd.get_field("timestampValue") {
                Some(t) => t.as_text(),
                None => None,
            },
            None => None,
        },
        None => None,
    }
}

fn time_slot_of(doc: &JsonValue) -> (r: String)
    ensures
        r@ == spec_time_slot(*doc),
{
    let found = match doc.get_field("fields") {
        Some(f) => match f.get_field("time_slot") {
            Some(ts) => match ts.get_field("stringValue") {
                Some(t) => t.as_text(),
                None => None,
            },
            None => None,
        },
        None => None,
    };
    match found {
        Some(s) => s.clone(),
        None => String::new(),
    }
}

fn queue_number_of(doc: &JsonValue) -> (r: i64)
    ensures
        r == spec_queue_number(*doc),
{
    let found = match doc.get_field("fields") {
        Some(f) => match f.get_field("queue_number") {
            Some(qn) => match qn.get_field("integerValue") {
                Some(n) => n.as_int(),
                None => None,
            },
            None => None,
        },
        None => None,
    };
    match found {
        Some(i) => i,
        None => 0,
    }
}

/// How a pipeline document relates to the raw document it was decoded from:
/// the payload is kept as it came, the sort keys are read through the field
/// envelope, and a document without a timestamp gets no scheduled day.
pub open spec fn decoded_doc(d: QueueDocument, src: JsonValue) -> bool {
    &&& d.raw == src
    &&& d.time_slot@ == spec_time_slot(src)
    &&& d.queue_number == spec_queue_number(src)
    &&& (spec_scheduled_stamp(src) is None ==> d.scheduled_day is None)
}

/// The typed decoding step at the client boundary: read the scheduling
/// fields through the store's envelope, once, so the pipeline never touches
/// the loose schema.
pub fn decode_document(doc: JsonValue) -> (r: QueueDocument)
    ensures
        decoded_doc(r, doc),
{
    let scheduled_day = match scheduled_stamp(&doc) {
        Some(s) => crate::time::local_day_of_rfc3339(s.as_str()),
        None => None,
    };
    let time_slot = time_slot_of(&doc);
    let queue_number = queue_number_of(&doc);
    QueueDocument { scheduled_day, time_slot, queue_number, raw: doc }
}

/// The `documents` container of a list response, if the response has one.
pub open spec fn spec_documents(v: JsonValue) -> Option<Seq<JsonValue>> {
    match field_of(v, "documents"@) {
        Some(d) => elements_of(d),
        None => None,
    }
}

/// Takes the `documents` array out of a list response body, `None` when the
/// body has no such container — the shape failure, distinct from an empty
/// array, which is a valid zero-length result.
fn take_documents(v: JsonValue) -> (r: Option<Vec<JsonValue>>)
    ensures
        match r {
            Some(ds) => spec_documents(v) == Some(ds@),
            None => spec_documents(v) is None,
        },
{
    match v {
        JsonValue::Object(mut pairs) => {
            let mut i: usize = 0;
            proof {
                assert(pairs@.skip(0) =~= pairs@);
            }
            while i < pairs.len()
                invariant
                    i <= pairs@.len(),
                    field_of(v, "documents"@) == lookup(pairs@, "documents"@),
                    lookup(pairs@, "documents"@) == lookup(pairs@.skip(i as int), "documents"@),
                decreases pairs@.len() - i,
            {
                proof {
                    assert(pairs@.skip(i as int)[0] == pairs@[i as int]);
                    assert(pairs@.skip(i as int).drop_first() =~= pairs@.skip(i as int + 1));
                }
                let matched = str_eq(pairs[i].0.as_str(), "documents");
                if matched {
                    proof {
                        assert(lookup(pairs@.skip(i as int), "documents"@)
                            == Some(pairs@[i as int].1));
                    }
                    let p = pairs.remove(i);
                    let ghost gp = p;
                    proof {
                        assert(field_of(v, "documents"@) == Some(gp.1));
                        assert(spec_documents(v) == elements_of(gp.1));
                    }
                    match p.1 {
                        JsonValue::Array(items) => {
                            proof {
                                assert(gp.1 == JsonValue::Array(items));
                            }
                            return Some(items);
                        },
                        _ => {
                            return None;
                        },
                    }
                }
                i = i + 1;
            }
            proof {
                assert(pairs@.skip(i as int) =~= Seq::<(String, JsonValue)>::empty());
            }
            None
        },
        _ => None,
    }
}

fn decode_documents(items: Vec<JsonValue>) -> (r: Vec<QueueDocument>)
    ensures
        r@.len() == items@.len(),
        forall|i: int| 0 <= i < items@.len() ==> decoded_doc(#[trigger] r@[i], items@[i]),
{
    let ghost orig = items@;
    let mut rest = items;
    let mut out: Vec<QueueDocument> = Vec::new();
    proof {
        assert(orig.skip(0) =~= orig);
    }
    while rest.len() > 0
        invariant
            out@.len() + rest@.len() == orig.len(),
            rest@ == orig.skip(out@.len() as int),
            forall|i: int| 0 <= i < out@.len() ==> decoded_doc(#[trigger] out@[i], orig[i]),
        decreases rest@.len(),
    {
        let ghost i = out@.len() as int;
        proof {
            assert(rest@[0] == orig[i]);
            assert(rest@.remove(0) =~= orig.skip(i + 1));
        }
        let d = rest.remove(0);
        out.push(decode_document(d));
    }
    out
}

/// Interprets a collection listing: a transport failure, a non-success
/// status, an unparseable body and a body without the `documents` container
/// each yield their own error; otherwise every listed document is decoded,
/// in the order the store returned them.
pub fn list_collection(outcome: FetchOutcome) -> (r: Result<Vec<QueueDocument>, CoreError>)
    ensures
        match outcome {
            FetchOutcome::Transport => r matches Err(e) && e == CoreError::Transport,
            FetchOutcome::Response { ok, body } => {
                if !ok {
                    r matches Err(e) && e == CoreError::NotFound
                } else {
                    match parsed_json(body@) {
                        None => r matches Err(e) && e == CoreError::Decode,
                        Some(v) => match spec_documents(v) {
                            None => r matches Err(e) && e == CoreError::Shape,
                            Some(ds) => r matches Ok(docs) && docs@.len() == ds.len()
                                && (forall|i: int| 0 <= i < ds.len()
                                    ==> decoded_doc(#[trigger] docs@[i], ds[i])),
                        },
                    }
                }
            },
        },
{
    match outcome {
        FetchOutcome::Transport => Err(CoreError::Transport),
        FetchOutcome::Response { ok, body } => {
            if !ok {
                return Err(CoreError::NotFound);
            }
            match crate::json::parse_json(body.as_str()) {
                None => Err(CoreError::Decode),
                Some(v) => {
                    match take_documents(v) {
                        None => Err(CoreError::Shape),
                        Some(items) => Ok(decode_documents(items)),
                    }
                },
            }
        },
    }
}

/// Interprets a single-document fetch: the parsed document itself on
/// success, else the error the outcome calls for.
pub fn document_body(outcome: FetchOutcome) -> (r: Result<JsonValue, CoreError>)
    ensures
        match outcome {
            FetchOutcome::Transport => r matches Err(e) && e == CoreError::Transport,
            FetchOutcome::Response { ok, body } => {
                if !ok {
                    r matches Err(e) && e == CoreError::NotFound
                } else {
                    match parsed_json(body@) {
                        None => r matches Err(e) && e == CoreError::Decode,
                        Some(v) => r matches Ok(d) && d == v,
                    }
                }
            },
        },
{
    match outcome {
        FetchOutcome::Transport => Err(CoreError::Transport),
        FetchOutcome::Response { ok, body } => {
            if !ok {
                return Err(CoreError::NotFound);
            }
            match crate::json::parse_json(body.as_str()) {
                None => Err(CoreError::Decode),
                Some(v) => Ok(v),
            }
        },
    }
}

/// One whole listing request after the fetch: interpret the outcome, then
/// run the pipeline for the given day and count. A fetch failure is always
/// surfaced, never masked as zero results.
pub fn fetch_today_documents(outcome: FetchOutcome, amount: u64, today: DateYmd)
    -> (r: Result<Vec<QueueDocument>, CoreError>)
    ensures
        match outcome {
            FetchOutcome::Transport => r matches Err(e) && e == CoreError::Transport,
            FetchOutcome::Response { ok, body } => {
                if !ok {
                    r matches Err(e) && e == CoreError::NotFound
                } else {
                    match parsed_json(body@) {
                        None => r matches Err(e) && e == CoreError::Decode,
                        Some(v) => match spec_documents(v) {
                            None => r matches Err(e) && e == CoreError::Shape,
                            Some(ds) => r matches Ok(sel)
                                && (exists|docs: Seq<QueueDocument>| docs.len() == ds.len()
                                    && (forall|i: int| 0 <= i < ds.len()
                                        ==> decoded_doc(#[trigger] docs[i], ds[i]))
                                    && sel@ == select_spec(docs, amount as int, today)),
                        },
                    }
                }
            },
        },
{
    match list_collection(outcome) {
        Err(e) => Err(e),
        Ok(docs) => {
            let ghost gdocs = docs@;
            let sel = crate::pipeline::select(docs, amount, today);
            proof {
                assert(sel@ == select_spec(gdocs, amount as int, today));
            }
            Ok(sel)
        },
    }
}

} // verus!
