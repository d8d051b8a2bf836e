//! Request parameters and subscription ids.

use crate::json::{
    json_quoted, json_string, json_u64, member_views, quote, string_value, u64_value, Member,
};
use crate::text::{decimal, decimal_text, join, joined, texts};
use vstd::prelude::*;
use vstd::string::*;

verus! {

/// What parameters say: nothing, a list of values, or values by name. Each
/// value is the JSON text that stands for it.
pub ghost enum ParamsView {
    NoParams,
    Array(Seq<Seq<char>>),
    Named(Seq<(Seq<char>, Seq<char>)>),
}

/// The parameters of a request. Each value is held as JSON text.
#[derive(Debug)]
pub enum JsonRpcParams {
    /// No params: the field is left out of the request.
    NoParams,
    /// Positional params, sent as a JSON array.
    Array(Vec<String>),
    /// Named params, sent as a JSON object.
    Named(Vec<Member>),
}

impl View for JsonRpcParams {
    type V = ParamsView;

    open spec fn view(&self) -> ParamsView {
        match self {
            JsonRpcParams::NoParams => ParamsView::NoParams,
            JsonRpcParams::Array(items) => ParamsView::Array(texts(items@)),
            JsonRpcParams::Named(members) => ParamsView::Named(member_views(members@)),
        }
    }
}

/// Whether the codec gives a string literal for the name of every member.
pub open spec fn names_quotable(members: Seq<(Seq<char>, Seq<char>)>) -> bool {
    forall|i: int| 0 <= i < members.len() ==> (#[trigger] json_quoted(members[i].0)) is Some
}

/// A member as it stands in a JSON object: the literal of its name, a colon,
/// and the text of its value.
pub open spec fn member_text(member: (Seq<char>, Seq<char>)) -> Seq<char> {
    json_quoted(member.0).unwrap() + ":"@ + member.1
}

/// The members as they stand in a JSON object, in order.
pub open spec fn member_texts(members: Seq<(Seq<char>, Seq<char>)>) -> Seq<Seq<char>> {
    Seq::new(members.len(), |i: int| member_text(members[i]))
}

/// Whether parameters can be written: the names of named ones have literals.
pub open spec fn params_writable(params: ParamsView) -> bool {
    match params {
        ParamsView::Named(members) => names_quotable(members),
        _ => true,
    }
}

/// The text of the `params` field, or `None` where the field is left out.
pub open spec fn params_text(params: ParamsView) -> Option<Seq<char>> {
    match params {
        ParamsView::NoParams => None,
        ParamsView::Array(items) => Some("["@ + joined(items, ","@) + "]"@),
        ParamsView::Named(members) => Some("{"@ + joined(member_texts(members), ","@) + "}"@),
    }
}

/// Writes the `params` field of a request: `None` where the field is left
/// out. The codec has a literal for every name, so the parameters are always
/// written; the `Result` is the codec's.
pub fn write_params(params: &JsonRpcParams) -> (r: Result<Option<String>, String>)
    ensures
        r is Ok,
        match r {
            Ok(Some(t)) => params_writable(params@) && params_text(params@) == Some(t@),
            Ok(None) => params_writable(params@) && params_text(params@) is None,
            Err(_) => !params_writable(params@),
        },
{
    match params {
        JsonRpcParams::NoParams => Ok(None),
        JsonRpcParams::Array(items) => {
            let mut t = String::from_str("[");
            let body = join(items, ",");
            t.append(body.as_str());
            t.append("]");
            Ok(Some(t))
        },
        JsonRpcParams::Named(members) => {
            let mut parts: Vec<String> = Vec::new();
            let mut i: usize = 0;
            while i < members.len()
                invariant
                    i <= members.len(),
                    parts.len() == i,
                    params@ == ParamsView::Named(member_views(members@)),
                    forall|k: int|
                        0 <= k < i ==> (#[trigger] json_quoted(member_views(members@)[k].0)) is Some,
                    forall|k: int|
                        0 <= k < i ==> (#[trigger] parts[k])@ == member_text(
                            member_views(members@)[k],
                        ),
                decreases members.len() - i,
            {
                let mut part = match quote(members[i].name.as_str()) {
                    Ok(name) => name,
                    Err(e) => {
                        assert(json_quoted(member_views(members@)[i as int].0) is None);
                        return Err(e);
                    },
                };
                part.append(":");
                part.append(members[i].value.as_str());
                parts.push(part);
                i += 1;
            }
            assert(texts(parts@) =~= member_texts(member_views(members@)));
            let mut t = String::from_str("{");
            let body = join(&parts, ",");
            t.append(body.as_str());
            t.append("}");
            Ok(Some(t))
        },
    }
}

/// What a subscription id says: a number or a string.
pub ghost enum SubscriptionIdView {
    Num(u64),
    Str(Seq<char>),
}

/// The id that a server gives to a subscription. It is a key: two ids are
/// the same where both are the same number or both the same string.
#[derive(Clone, Debug, PartialEq, Eq)]
pub enum SubscriptionId {
    /// Numeric id.
    Num(u64),
    /// String id.
    Str(String),
}

impl View for SubscriptionId {
    type V = SubscriptionIdView;

    open spec fn view(&self) -> SubscriptionIdView {
        match self {
            SubscriptionId::Num(n) => SubscriptionIdView::Num(*n),
            SubscriptionId::Str(s) => SubscriptionIdView::Str(s@),
        }
    }
}

/// The subscription id that a JSON text holds: a number within `u64`, else a
/// string, else none.
pub open spec fn subscription_id_of(text: Seq<char>) -> Option<SubscriptionIdView> {
    match json_u64(text) {
        Some(n) => Some(SubscriptionIdView::Num(n)),
        None => match json_string(text) {
            Some(s) => Some(SubscriptionIdView::Str(s)),
            None => None,
        },
    }
}

/// The JSON text of a subscription id, or `None` where the codec has no
/// literal for a string id.
pub open spec fn subscription_id_text(id: SubscriptionIdView) -> Option<Seq<char>> {
    match id {
        SubscriptionIdView::Num(n) => Some(decimal_text(n as nat)),
        SubscriptionIdView::Str(s) => json_quoted(s),
    }
}

impl SubscriptionId {
    /// Whether two ids are the same key.
    pub fn same(&self, other: &SubscriptionId) -> (b: bool)
        ensures
            b == (self@ == other@),
    {
        match (self, other) {
            (SubscriptionId::Num(a), SubscriptionId::Num(b)) => *a == *b,
            (SubscriptionId::Str(a), SubscriptionId::Str(b)) => *a == *b,
            _ => false,
        }
    }

    /// A copy of the id.
    pub fn duplicate(&self) -> (r: SubscriptionId)
        ensures
            r@ == self@,
    {
        match self {
            SubscriptionId::Num(n) => SubscriptionId::Num(*n),
            SubscriptionId::Str(s) => SubscriptionId::Str(s.clone()),
        }
    }

    /// Reads a subscription id from JSON text.
    pub fn read(text: &str) -> (r: Option<SubscriptionId>)
        ensures
            match r {
                Some(id) => subscription_id_of(text@) == Some(id@),
                None => subscription_id_of(text@) is None,
            },
    {
        match u64_value(text) {
            Some(n) => Some(SubscriptionId::Num(n)),
            None => match string_value(text) {
                Some(s) => Some(SubscriptionId::Str(s)),
                None => None,
            },
        }
    }

    /// Writes the id as JSON text. It is always written; the `Result` is the
    /// codec's.
    pub fn write(&self) -> (r: Result<String, String>)
        ensures
            r is Ok,
            match r {
                Ok(t) => subscription_id_text(self@) == Some(t@),
                Err(_) => subscription_id_text(self@) is None,
            },
    {
        match self {
            SubscriptionId::Num(n) => Ok(decimal(*n)),
            SubscriptionId::Str(s) => quote(s.as_str()),
        }
    }
}

} // verus!
