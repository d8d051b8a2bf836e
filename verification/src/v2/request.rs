//! The frames that a client sends: requests, notifications and batches.
//!
//! A frame is written in two steps. The first writes what may fail, the
//! literal of the method's name and the parameters; the second puts the id
//! in. So a caller can know that a request can be written before it takes an
//! id for it.

use crate::json::{json_quoted, quote};
use crate::text::{decimal, decimal_text, join, joined, texts};
use crate::v2::params::{params_text, params_writable, write_params, JsonRpcParams, ParamsView};
use vstd::prelude::*;
use vstd::string::*;

verus! {

/// A call as it stands on the wire, built from the literal of the method's
/// name, the text of the `params` field where there is one, and the text of
/// the `id` field where there is one.
pub open spec fn call_text(
    method: Seq<char>,
    params: Option<Seq<char>>,
    id: Option<Seq<char>>,
) -> Seq<char> {
    "{\"jsonrpc\":\"2.0\",\"method\":"@ + method + match params {
        Some(p) => ",\"params\":"@ + p,
        None => Seq::empty(),
    } + match id {
        Some(i) => ",\"id\":"@ + i,
        None => Seq::empty(),
    } + "}"@
}

/// Whether a call can be written: the codec has a literal for the method's
/// name and for the name of every named parameter. Every function that
/// writes a call states that it can.
pub open spec fn call_writable(method: Seq<char>, params: ParamsView) -> bool {
    json_quoted(method) is Some && params_writable(params)
}

/// The request frame for a method, its parameters and an id.
pub open spec fn request_text(method: Seq<char>, params: ParamsView, id: u64) -> Seq<char> {
    call_text(json_quoted(method).unwrap(), params_text(params), Some(decimal_text(id as nat)))
}

/// The notification frame for a method and its parameters: a request
/// without an id.
pub open spec fn notification_text(method: Seq<char>, params: ParamsView) -> Seq<char> {
    call_text(json_quoted(method).unwrap(), params_text(params), None)
}

/// What a list of calls says: each method's name with its parameters.
pub open spec fn call_views(calls: Seq<(String, JsonRpcParams)>) -> Seq<(Seq<char>, ParamsView)> {
    Seq::new(calls.len(), |i: int| (calls[i].0@, calls[i].1@))
}

/// Whether every call of a list can be written.
pub open spec fn calls_writable(calls: Seq<(Seq<char>, ParamsView)>) -> bool {
    forall|i: int| 0 <= i < calls.len() ==> call_writable(#[trigger] calls[i].0, calls[i].1)
}

/// The request frames of a list of calls, the call at each place under the
/// id at that place.
pub open spec fn request_texts(calls: Seq<(Seq<char>, ParamsView)>, ids: Seq<u64>) -> Seq<
    Seq<char>,
> {
    Seq::new(calls.len(), |i: int| request_text(calls[i].0, calls[i].1, ids[i]))
}

/// The batch frame for a list of calls and as many ids: a JSON array of the
/// requests in the order of the list.
pub open spec fn batch_text(calls: Seq<(Seq<char>, ParamsView)>, ids: Seq<u64>) -> Seq<char> {
    "["@ + joined(request_texts(calls, ids), ","@) + "]"@
}

/// A call whose name and parameters are written, and which lacks only its
/// id.
#[derive(Debug)]
pub struct Prepared {
    /// The literal of the method's name.
    pub name: String,
    /// The text of the `params` field, where there is one.
    pub arguments: Option<String>,
}

impl View for Prepared {
    type V = (Seq<char>, Option<Seq<char>>);

    open spec fn view(&self) -> (Seq<char>, Option<Seq<char>>) {
        (
            self.name@,
            match self.arguments {
                Some(p) => Some(p@),
                None => None,
            },
        )
    }
}

/// The written parts of a call that can be written.
pub open spec fn prepared_of(method: Seq<char>, params: ParamsView) -> (
    Seq<char>,
    Option<Seq<char>>,
) {
    (json_quoted(method).unwrap(), params_text(params))
}

/// The text of an id that may be absent.
pub open spec fn numeral_of(id: Option<u64>) -> Option<Seq<char>> {
    match id {
        Some(n) => Some(decimal_text(n as nat)),
        None => None,
    }
}

/// Writes the name and the parameters of a call. The codec has a literal for
/// every name, so the call is always written; the `Result` is the codec's.
pub fn prepare(method: &str, params: &JsonRpcParams) -> (r: Result<Prepared, String>)
    ensures
        r is Ok,
        match r {
            Ok(call) => call_writable(method@, params@) && call@ == prepared_of(method@, params@),
            Err(_) => !call_writable(method@, params@),
        },
{
    let name = match quote(method) {
        Ok(name) => name,
        Err(e) => {
            return Err(e);
        },
    };
    let arguments = match write_params(params) {
        Ok(arguments) => arguments,
        Err(e) => {
            return Err(e);
        },
    };
    Ok(Prepared { name, arguments })
}

/// Writes the frame of a prepared call, with the id where there is one.
pub fn seal(call: &Prepared, id: Option<u64>) -> (r: String)
    ensures
        r@ == call_text(call@.0, call@.1, numeral_of(id)),
{
    let mut t = String::from_str("{\"jsonrpc\":\"2.0\",\"method\":");
    t.append(call.name.as_str());
    match &call.arguments {
        Some(p) => {
            let mut field = String::from_str(",\"params\":");
            field.append(p.as_str());
            t.append(field.as_str());
        },
        None => {
            assert(t@ + Seq::<char>::empty() == t@);
        },
    }
    match id {
        Some(n) => {
            let mut field = String::from_str(",\"id\":");
            let numeral = decimal(n);
            field.append(numeral.as_str());
            t.append(field.as_str());
        },
        None => {
            assert(t@ + Seq::<char>::empty() == t@);
        },
    }
    t.append("}");
    t
}

/// Writes the request frame for a method, its parameters and an id. The
/// frame is always written; the `Result` is the codec's.
pub fn request_frame(method: &str, params: &JsonRpcParams, id: u64) -> (r: Result<String, String>)
    ensures
        r is Ok,
        match r {
            Ok(t) => call_writable(method@, params@) && t@ == request_text(method@, params@, id),
            Err(_) => !call_writable(method@, params@),
        },
{
    match prepare(method, params) {
        Ok(call) => Ok(seal(&call, Some(id))),
        Err(e) => Err(e),
    }
}

/// Writes the notification frame for a method and its parameters. The frame
/// is always written; the `Result` is the codec's.
pub fn notification_frame(method: &str, params: &JsonRpcParams) -> (r: Result<String, String>)
    ensures
        r is Ok,
        match r {
            Ok(t) => call_writable(method@, params@) && t@ == notification_text(method@, params@),
            Err(_) => !call_writable(method@, params@),
        },
{
    match prepare(method, params) {
        Ok(call) => Ok(seal(&call, None)),
        Err(e) => Err(e),
    }
}

/// Whether a list of prepared calls holds the written parts of a list of
/// calls, place by place.
pub open spec fn prepared_from(prepared: Seq<Prepared>, calls: Seq<(Seq<char>, ParamsView)>) -> bool {
    prepared.len() == calls.len() && forall|k: int|
        0 <= k < calls.len() ==> (#[trigger] prepared[k])@ == prepared_of(calls[k].0, calls[k].1)
}

/// Writes the names and the parameters of a list of calls. They are always
/// written; the `Result` is the codec's.
pub fn prepare_all(calls: &Vec<(String, JsonRpcParams)>) -> (r: Result<Vec<Prepared>, String>)
    ensures
        r is Ok,
        match r {
            Ok(prepared) => calls_writable(call_views(calls@)) && prepared_from(
                prepared@,
                call_views(calls@),
            ),
            Err(_) => !calls_writable(call_views(calls@)),
        },
{
    let mut prepared: Vec<Prepared> = Vec::new();
    let mut i: usize = 0;
    while i < calls.len()
        invariant
            i <= calls.len(),
            prepared.len() == i,
            forall|k: int|
                0 <= k < i ==> call_writable(
                    #[trigger] call_views(calls@)[k].0,
                    call_views(calls@)[k].1,
                ),
            forall|k: int|
                0 <= k < i ==> (#[trigger] prepared[k])@ == prepared_of(
                    call_views(calls@)[k].0,
                    call_views(calls@)[k].1,
                ),
        decreases calls.len() - i,
    {
        let call = match prepare(calls[i].0.as_str(), &calls[i].1) {
            Ok(call) => call,
            Err(e) => {
                assert(!call_writable(call_views(calls@)[i as int].0, call_views(calls@)[i as int].1));
                return Err(e);
            },
        };
        prepared.push(call);
        i += 1;
    }
    Ok(prepared)
}

/// The request frames of a list of prepared calls, the call at each place
/// under the id at that place.
pub open spec fn sealed_texts(prepared: Seq<Prepared>, ids: Seq<u64>) -> Seq<Seq<char>> {
    Seq::new(
        prepared.len(),
        |i: int| call_text(prepared[i]@.0, prepared[i]@.1, Some(decimal_text(ids[i] as nat))),
    )
}

/// The frames of prepared calls are the request frames of the calls that
/// they were prepared from.
pub proof fn lemma_sealed_texts(
    prepared: Seq<Prepared>,
    calls: Seq<(Seq<char>, ParamsView)>,
    ids: Seq<u64>,
)
    requires
        prepared_from(prepared, calls),
    ensures
        sealed_texts(prepared, ids) == request_texts(calls, ids),
{
    assert(sealed_texts(prepared, ids) =~= request_texts(calls, ids));
}

/// Writes the batch frame of a list of prepared calls and as many ids: a
/// JSON array of the requests in the order of the list.
pub fn seal_batch(prepared: &Vec<Prepared>, ids: &Vec<u64>) -> (r: String)
    requires
        prepared.len() == ids.len(),
    ensures
        r@ == "["@ + joined(sealed_texts(prepared@, ids@), ","@) + "]"@,
{
    let mut frames: Vec<String> = Vec::new();
    let mut i: usize = 0;
    while i < prepared.len()
        invariant
            i <= prepared.len(),
            prepared.len() == ids.len(),
            frames.len() == i,
            forall|k: int|
                0 <= k < i ==> (#[trigger] frames[k])@ == call_text(
                    prepared[k]@.0,
                    prepared[k]@.1,
                    Some(decimal_text(ids[k] as nat)),
                ),
        decreases prepared.len() - i,
    {
        frames.push(seal(&prepared[i], Some(ids[i])));
        i += 1;
    }
    assert(texts(frames@) =~= sealed_texts(prepared@, ids@));
    let mut t = String::from_str("[");
    let body = join(&frames, ",");
    t.append(body.as_str());
    t.append("]");
    t
}

/// Writes the batch frame for a list of calls and as many ids. The frame is
/// always written; the `Result` is the codec's.
pub fn batch_frame(calls: &Vec<(String, JsonRpcParams)>, ids: &Vec<u64>) -> (r: Result<
    String,
    String,
>)
    requires
        calls.len() == ids.len(),
    ensures
        r is Ok,
        match r {
            Ok(t) => calls_writable(call_views(calls@)) && t@ == batch_text(
                call_views(calls@),
                ids@,
            ),
            Err(_) => !calls_writable(call_views(calls@)),
        },
{
    match prepare_all(calls) {
        Ok(prepared) => {
            proof {
                lemma_sealed_texts(prepared@, call_views(calls@), ids@);
            }
            Ok(seal_batch(&prepared, ids))
        },
        Err(e) => Err(e),
    }
}

} // verus!
