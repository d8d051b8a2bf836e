//! Reading a frame: from the text that came to the messages it holds.
//!
//! Reading takes two steps. The first, which stands here, asks the codec for
//! everything that a decision may rest on and lays it out as an `Envelope` of
//! plain values. The second decides, from the envelope alone, what kind of
//! message came; the client and the server each decide for themselves.

use crate::json::{
    array_elements, i32_value, is_number, json_array, json_i32, json_number, json_object,
    json_string, json_u64, member_views, object_members, string_value, u64_value, Member,
};
use crate::v2::error::{ErrorObjectView, JsonRpcErrorCode, JsonRpcErrorObject};
use crate::v2::params::{subscription_id_of, SubscriptionId, SubscriptionIdView};
use vstd::prelude::*;
use vstd::string::*;

verus! {

/// The view of a string that may be absent.
pub open spec fn text_view(text: Option<String>) -> Option<Seq<char>> {
    match text {
        Some(t) => Some(t@),
        None => None,
    }
}

/// The view of a subscription id that may be absent.
pub open spec fn subscription_view(id: Option<SubscriptionId>) -> Option<SubscriptionIdView> {
    match id {
        Some(s) => Some(s@),
        None => None,
    }
}

/// The value of the first member of the given name, if there is one.
pub open spec fn lookup(members: Seq<(Seq<char>, Seq<char>)>, name: Seq<char>) -> Option<
    Seq<char>,
>
    decreases members.len(),
{
    if members.len() == 0 {
        None
    } else if members[0].0 == name {
        Some(members[0].1)
    } else {
        lookup(members.skip(1), name)
    }
}

/// The string that the first member of the given name holds, if there is
/// such a member and it holds a string.
pub open spec fn lookup_string(members: Seq<(Seq<char>, Seq<char>)>, name: Seq<char>) -> Option<
    Seq<char>,
> {
    match lookup(members, name) {
        Some(text) => json_string(text),
        None => None,
    }
}

/// What the text of an id holds.
#[derive(Clone, Copy, Debug, PartialEq, Eq, Structural)]
pub enum IdForm {
    /// A whole number within `u64`.
    Natural(u64),
    /// Another number.
    Number,
    /// A string.
    Text,
    /// Anything else.
    Other,
}

/// What the text of an id holds.
pub open spec fn id_form_of(text: Seq<char>) -> IdForm {
    match json_u64(text) {
        Some(n) => IdForm::Natural(n),
        None => if json_number(text) {
            IdForm::Number
        } else if json_string(text) is Some {
            IdForm::Text
        } else {
            IdForm::Other
        },
    }
}

/// What an id says: its text as it came, and what that text holds.
pub ghost struct RawIdView {
    pub text: Seq<char>,
    pub form: IdForm,
}

/// An id as it came: its text, and what that text holds.
#[derive(Debug)]
pub struct RawId {
    pub text: String,
    pub form: IdForm,
}

impl View for RawId {
    type V = RawIdView;

    open spec fn view(&self) -> RawIdView {
        RawIdView { text: self.text@, form: self.form }
    }
}

/// What the `error` member of a message says.
pub ghost enum ErrorMemberView {
    Absent,
    Malformed,
    Object(ErrorObjectView),
}

/// The `error` member of a message: absent, present without the shape of an
/// error object, or an error object.
#[derive(Debug)]
pub enum ErrorMember {
    Absent,
    Malformed,
    Object(JsonRpcErrorObject),
}

impl View for ErrorMember {
    type V = ErrorMemberView;

    open spec fn view(&self) -> ErrorMemberView {
        match self {
            ErrorMember::Absent => ErrorMemberView::Absent,
            ErrorMember::Malformed => ErrorMemberView::Malformed,
            ErrorMember::Object(e) => ErrorMemberView::Object(e@),
        }
    }
}

/// What an envelope says.
pub ghost struct EnvelopeView {
    pub version: Option<Seq<char>>,
    pub id: Option<RawIdView>,
    pub method: Option<Seq<char>>,
    pub params: Option<Seq<char>>,
    pub result: Option<Seq<char>>,
    pub error: ErrorMemberView,
    pub subscription: Option<SubscriptionIdView>,
    pub payload: Option<Seq<char>>,
    pub granted: Option<SubscriptionIdView>,
}

/// One JSON object of a frame, laid out for the decisions that follow.
#[derive(Debug)]
pub struct Envelope {
    /// The string of the `jsonrpc` member.
    pub version: Option<String>,
    /// The `id` member.
    pub id: Option<RawId>,
    /// The string of the `method` member.
    pub method: Option<String>,
    /// The text of the `params` member.
    pub params: Option<String>,
    /// The text of the `result` member.
    pub result: Option<String>,
    /// The `error` member.
    pub error: ErrorMember,
    /// The subscription id in the `subscription` member of `params`.
    pub subscription: Option<SubscriptionId>,
    /// The text of the `result` member of `params`.
    pub payload: Option<String>,
    /// The subscription id that the `result` member holds, if it holds one.
    pub granted: Option<SubscriptionId>,
}

impl View for Envelope {
    type V = EnvelopeView;

    open spec fn view(&self) -> EnvelopeView {
        EnvelopeView {
            version: text_view(self.version),
            id: match self.id {
                Some(id) => Some(id@),
                None => None,
            },
            method: text_view(self.method),
            params: text_view(self.params),
            result: text_view(self.result),
            error: self.error@,
            subscription: subscription_view(self.subscription),
            payload: text_view(self.payload),
            granted: subscription_view(self.granted),
        }
    }
}

/// The views of a vector of envelopes, in order.
pub open spec fn envelope_views(v: Seq<Envelope>) -> Seq<EnvelopeView> {
    Seq::new(v.len(), |i: int| v[i]@)
}

/// What the `error` member among the given members says. The code of an
/// error object is the one that its number stands for: one of the five that
/// the protocol defines, or a code of its own for any other number.
pub open spec fn error_member_of(members: Seq<(Seq<char>, Seq<char>)>) -> ErrorMemberView {
    match lookup(members, "error"@) {
        None => ErrorMemberView::Absent,
        Some(text) => match json_object(text) {
            None => ErrorMemberView::Malformed,
            Some(inner) => match lookup(inner, "code"@) {
                None => ErrorMemberView::Malformed,
                Some(code_text) => match json_i32(code_text) {
                    None => ErrorMemberView::Malformed,
                    Some(code) => match lookup_string(inner, "message"@) {
                        None => ErrorMemberView::Malformed,
                        Some(message) => ErrorMemberView::Object(
                            ErrorObjectView {
                                code: JsonRpcErrorCode::spec_from_code(code as int),
                                message,
                                data: lookup(inner, "data"@),
                            },
                        ),
                    },
                },
            },
        },
    }
}

/// The members of the object that the `params` member holds, or none where
/// it is absent or holds something else.
pub open spec fn params_members(members: Seq<(Seq<char>, Seq<char>)>) -> Seq<
    (Seq<char>, Seq<char>),
> {
    match lookup(members, "params"@) {
        None => Seq::empty(),
        Some(text) => match json_object(text) {
            None => Seq::empty(),
            Some(inner) => inner,
        },
    }
}

/// The subscription id that the first member of the given name holds.
pub open spec fn lookup_subscription(members: Seq<(Seq<char>, Seq<char>)>, name: Seq<char>) -> Option<
    SubscriptionIdView,
> {
    match lookup(members, name) {
        Some(text) => subscription_id_of(text),
        None => None,
    }
}

/// The envelope that the members of one JSON object give.
pub open spec fn envelope_of(members: Seq<(Seq<char>, Seq<char>)>) -> EnvelopeView {
    EnvelopeView {
        version: lookup_string(members, "jsonrpc"@),
        id: match lookup(members, "id"@) {
            Some(text) => Some(RawIdView { text, form: id_form_of(text) }),
            None => None,
        },
        method: lookup_string(members, "method"@),
        params: lookup(members, "params"@),
        result: lookup(members, "result"@),
        error: error_member_of(members),
        subscription: lookup_subscription(params_members(members), "subscription"@),
        payload: lookup(params_members(members), "result"@),
        granted: lookup_subscription(members, "result"@),
    }
}

/// What a frame says before any decision: one envelope, a list of them, or
/// nothing that can be read.
pub ghost enum RawFrameView {
    Single(EnvelopeView),
    Batch(Seq<EnvelopeView>),
    Malformed,
}

/// A frame before any decision: one envelope, a list of them, or nothing
/// that can be read.
#[derive(Debug)]
pub enum RawFrame {
    /// The frame is one JSON object.
    Single(Envelope),
    /// The frame is a JSON array of objects.
    Batch(Vec<Envelope>),
    /// The frame is neither.
    Malformed,
}

impl View for RawFrame {
    type V = RawFrameView;

    open spec fn view(&self) -> RawFrameView {
        match self {
            RawFrame::Single(e) => RawFrameView::Single(e@),
            RawFrame::Batch(v) => RawFrameView::Batch(envelope_views(v@)),
            RawFrame::Malformed => RawFrameView::Malformed,
        }
    }
}

/// Whether every text of a list holds one JSON object.
pub open spec fn all_objects(items: Seq<Seq<char>>) -> bool {
    forall|i: int| 0 <= i < items.len() ==> (#[trigger] json_object(items[i])) is Some
}

/// The envelopes of a list of texts that each hold one JSON object.
pub open spec fn envelopes_of(items: Seq<Seq<char>>) -> Seq<EnvelopeView> {
    Seq::new(items.len(), |i: int| envelope_of(json_object(items[i]).unwrap()))
}

/// What the codec finds in the text of a frame.
pub open spec fn frame_of(text: Seq<char>) -> RawFrameView {
    match json_object(text) {
        Some(members) => RawFrameView::Single(envelope_of(members)),
        None => match json_array(text) {
            Some(items) => if all_objects(items) {
                RawFrameView::Batch(envelopes_of(items))
            } else {
                RawFrameView::Malformed
            },
            None => RawFrameView::Malformed,
        },
    }
}

/// Whether a string is the given text.
pub fn text_is(s: &String, text: &str) -> (b: bool)
    ensures
        b == (s@ == text@),
{
    let other = String::from_str(text);
    *s == other
}

/// Whether the version of an envelope is `2.0`.
pub fn version_is_two(version: &Option<String>) -> (b: bool)
    ensures
        b == (text_view(*version) == Some("2.0"@)),
{
    match version {
        Some(v) => text_is(v, "2.0"),
        None => false,
    }
}

/// Finds the value of the first member of the given name.
pub fn find_member<'a>(members: &'a Vec<Member>, name: &str) -> (r: Option<&'a String>)
    ensures
        text_view(
            match r {
                Some(t) => Some(*t),
                None => None,
            },
        ) == lookup(member_views(members@), name@),
{
    let key = String::from_str(name);
    let mut i: usize = 0;
    assert(member_views(members@).skip(0) =~= member_views(members@));
    while i < members.len()
        invariant
            i <= members.len(),
            key@ == name@,
            lookup(member_views(members@), name@) == lookup(
                member_views(members@).skip(i as int),
                name@,
            ),
        decreases members.len() - i,
    {
        let ghost rest = member_views(members@).skip(i as int);
        assert(rest[0] == members[i as int]@);
        assert(rest.skip(1) =~= member_views(members@).skip(i + 1));
        if members[i].name == key {
            return Some(&members[i].value);
        }
        i += 1;
    }
    None
}

fn find_string(members: &Vec<Member>, name: &str) -> (r: Option<String>)
    ensures
        text_view(r) == lookup_string(member_views(members@), name@),
{
    match find_member(members, name) {
        Some(text) => string_value(text.as_str()),
        None => None,
    }
}

fn find_text(members: &Vec<Member>, name: &str) -> (r: Option<String>)
    ensures
        text_view(r) == lookup(member_views(members@), name@),
{
    match find_member(members, name) {
        Some(text) => Some(text.clone()),
        None => None,
    }
}

fn find_subscription(members: &Vec<Member>, name: &str) -> (r: Option<SubscriptionId>)
    ensures
        subscription_view(r) == lookup_subscription(member_views(members@), name@),
{
    match find_member(members, name) {
        Some(text) => SubscriptionId::read(text.as_str()),
        None => None,
    }
}

fn read_id_form(text: &str) -> (r: IdForm)
    ensures
        r == id_form_of(text@),
{
    match u64_value(text) {
        Some(n) => IdForm::Natural(n),
        None => {
            if is_number(text) {
                IdForm::Number
            } else if string_value(text).is_some() {
                IdForm::Text
            } else {
                IdForm::Other
            }
        },
    }
}

fn read_error_member(members: &Vec<Member>) -> (r: ErrorMember)
    ensures
        r@ == error_member_of(member_views(members@)),
{
    let text = match find_member(members, "error") {
        Some(text) => text,
        None => {
            return ErrorMember::Absent;
        },
    };
    let inner = match object_members(text.as_str()) {
        Some(inner) => inner,
        None => {
            return ErrorMember::Malformed;
        },
    };
    let code = match find_member(&inner, "code") {
        Some(code_text) => match i32_value(code_text.as_str()) {
            Some(code) => code,
            None => {
                return ErrorMember::Malformed;
            },
        },
        None => {
            return ErrorMember::Malformed;
        },
    };
    let message = match find_string(&inner, "message") {
        Some(message) => message,
        None => {
            return ErrorMember::Malformed;
        },
    };
    let data = find_text(&inner, "data");
    ErrorMember::Object(JsonRpcErrorObject { code: JsonRpcErrorCode::from(code), message, data })
}

fn read_params_members(members: &Vec<Member>) -> (r: Vec<Member>)
    ensures
        member_views(r@) == params_members(member_views(members@)),
{
    match find_member(members, "params") {
        Some(text) => match object_members(text.as_str()) {
            Some(inner) => inner,
            None => {
                let none: Vec<Member> = Vec::new();
                assert(member_views(none@) =~= Seq::empty());
                none
            },
        },
        None => {
            let none: Vec<Member> = Vec::new();
            assert(member_views(none@) =~= Seq::empty());
            none
        },
    }
}

/// Lays out the members of one JSON object as an envelope.
pub fn read_envelope(members: &Vec<Member>) -> (r: Envelope)
    ensures
        r@ == envelope_of(member_views(members@)),
{
    let id = match find_member(members, "id") {
        Some(text) => Some(RawId { text: text.clone(), form: read_id_form(text.as_str()) }),
        None => None,
    };
    let inner = read_params_members(members);
    Envelope {
        version: find_string(members, "jsonrpc"),
        id,
        method: find_string(members, "method"),
        params: find_text(members, "params"),
        result: find_text(members, "result"),
        error: read_error_member(members),
        subscription: find_subscription(&inner, "subscription"),
        payload: find_text(&inner, "result"),
        granted: find_subscription(members, "result"),
    }
}

/// Reads the text of a frame: asks the codec whether it is an object or an
/// array of objects, and lays out each object as an envelope.
pub fn read_frame(text: &str) -> (r: RawFrame)
    ensures
        r@ == frame_of(text@),
{
    match object_members(text) {
        Some(members) => RawFrame::Single(read_envelope(&members)),
        None => match array_elements(text) {
            Some(items) => {
                let mut envelopes: Vec<Envelope> = Vec::new();
                let mut i: usize = 0;
                while i < items.len()
                    invariant
                        i <= items.len(),
                        envelopes.len() == i,
                        json_object(text@) is None,
                        json_array(text@) == Some(crate::text::texts(items@)),
                        forall|k: int|
                            0 <= k < i ==> (#[trigger] json_object(
                                crate::text::texts(items@)[k],
                            )) is Some,
                        forall|k: int|
                            0 <= k < i ==> (#[trigger] envelopes[k])@ == envelope_of(
                                json_object(crate::text::texts(items@)[k]).unwrap(),
                            ),
                    decreases items.len() - i,
                {
                    match object_members(items[i].as_str()) {
                        Some(members) => {
                            envelopes.push(read_envelope(&members));
                        },
                        None => {
                            assert(json_object(crate::text::texts(items@)[i as int]) is None);
                            return RawFrame::Malformed;
                        },
                    }
                    i += 1;
                }
                assert(envelope_views(envelopes@) =~= envelopes_of(crate::text::texts(items@)));
                RawFrame::Batch(envelopes)
            },
            None => RawFrame::Malformed,
        },
    }
}

} // verus!
