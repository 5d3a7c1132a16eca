//! What callers hand in, and how a raw payload becomes an expression.

use crate::address::Address;
use crate::entry::{
    DataView, ExpressionProof, ExpressionView, PrivateShortFormExpression, ProofView,
    ShortFormExpression, ShortFormExpressionData,
};
use crate::errors::{ErrorView, ExpressionError};
use crate::json::{
    find_member, json_members, json_pair, json_string, json_string_list, member_value,
    member_views, read_members, read_pair, read_string, read_string_list,
};
use crate::time::Timestamp;
use vstd::prelude::*;

verus! {

/// A request to publish: the content as a JSON text, with its author, the
/// author's own timestamp and the proof.
#[derive(Debug, PartialEq, Eq)]
pub struct CreateExpression {
    pub data: String,
    pub author: String,
    pub timestamp: Timestamp,
    pub proof: ExpressionProof,
}

pub struct CreateView {
    pub data: Seq<char>,
    pub author: Seq<char>,
    pub timestamp: Timestamp,
    pub proof: ProofView,
}

impl View for CreateExpression {
    type V = CreateView;

    open spec fn view(&self) -> CreateView {
        CreateView {
            data: self.data@,
            author: self.author@,
            timestamp: self.timestamp,
            proof: self.proof@,
        }
    }
}

impl Clone for CreateExpression {
    fn clone(&self) -> (r: Self)
        ensures
            r@ == self@,
    {
        CreateExpression {
            data: self.data.clone(),
            author: self.author.clone(),
            timestamp: self.timestamp,
            proof: self.proof.clone(),
        }
    }
}

/// A request to publish privately, as it arrives from outside.
#[derive(Debug, PartialEq, Eq)]
pub struct CreatePrivateExpression {
    pub data: String,
    pub author: String,
    pub timestamp: String,
    pub proof: ExpressionProof,
}

/// A request for the expressions of one author within a time window.
#[derive(Debug, PartialEq, Eq)]
pub struct GetByAuthor {
    pub author: String,
    pub from: Timestamp,
    pub until: Timestamp,
}

/// A request to deliver an expression to one peer.
#[derive(Debug, PartialEq, Eq)]
pub struct SendPrivate {
    pub to: Address,
    pub expression: CreateExpression,
}

/// A request for the inbox, of one sender or of all.
#[derive(Debug, PartialEq, Eq)]
pub struct Inbox {
    pub from: Option<String>,
    pub page_size: usize,
    pub page_number: usize,
}

/// The JSON texts of the two members that make a payload, `background` and
/// `body` in that order, or `None` where one of them is missing. Members of
/// other names do not count.
pub open spec fn payload_members(members: Seq<(Seq<char>, Seq<char>)>) -> Option<
    (Seq<char>, Seq<char>),
> {
    match (member_value(members, "background"@), member_value(members, "body"@)) {
        (Some(background), Some(body)) => Some((background, body)),
        _ => None,
    }
}

/// The content that a payload holds, or `None` where the payload does not
/// have the shape of one.
///
/// A payload is a JSON object with a member `background`, an array of
/// strings, and a member `body`, a string; other members are passed over.
/// The two values in that order, as a JSON array, are read as well.
pub open spec fn decode_payload(text: Seq<char>) -> Option<DataView> {
    match json_members(text) {
        Some(members) => match payload_members(members) {
            Some((background, body)) => match (json_string_list(background), json_string(body)) {
                (Some(list), Some(text)) => Some(DataView { background: list, body: text }),
                _ => None,
            },
            None => None,
        },
        None => match json_pair(text) {
            Some(pair) => Some(DataView { background: pair.0, body: pair.1 }),
            None => None,
        },
    }
}

/// The expression that a request stands for, where its payload decodes.
pub open spec fn expression_of(content: CreateView) -> Option<ExpressionView> {
    match decode_payload(content.data) {
        Some(data) => Some(
            ExpressionView {
                data,
                author: content.author,
                timestamp: content.timestamp,
                proof: content.proof,
            },
        ),
        None => None,
    }
}

/// Picks the two members that make a payload out of the members of an
/// object: the JSON texts of `background` and of `body`. Succeeds exactly
/// where both are there, whatever else is.
pub fn payload_fields<'a>(members: &'a Vec<(String, String)>) -> (r: Option<
    (&'a String, &'a String),
>)
    ensures
        match r {
            Some(pair) => payload_members(member_views(members@)) == Some((pair.0@, pair.1@)),
            None => payload_members(member_views(members@)) is None,
        },
{
    match (find_member(members, "background"), find_member(members, "body")) {
        (Some(background), Some(body)) => Some((background, body)),
        _ => None,
    }
}

impl ShortFormExpressionData {
    /// Reads the content out of a raw payload. Fails with `Serialization`
    /// exactly where the payload does not have the shape of an expression.
    pub fn try_parse(payload: &str) -> (r: Result<ShortFormExpressionData, ExpressionError>)
        ensures
            match r {
                Ok(data) => decode_payload(payload@) == Some(data@),
                Err(e) => decode_payload(payload@) is None && e@ == ErrorView::Serialization,
            },
    {
        match read_members(payload) {
            Some(members) => match payload_fields(&members) {
                Some((background, body)) => {
                    let list = read_string_list(background.as_str());
                    let text = read_string(body.as_str());
                    match (list, text) {
                        (Some(list), Some(text)) => Ok(
                            ShortFormExpressionData { background: list, body: text },
                        ),
                        _ => Err(ExpressionError::Serialization),
                    }
                },
                None => Err(ExpressionError::Serialization),
            },
            None => match read_pair(payload) {
                Some(pair) => Ok(ShortFormExpressionData { background: pair.0, body: pair.1 }),
                None => Err(ExpressionError::Serialization),
            },
        }
    }
}

impl ShortFormExpression {
    /// Turns a request into the expression it stands for. Fails with
    /// `Serialization` exactly where the payload does not decode; author,
    /// timestamp and proof are carried over as they came.
    pub fn try_from(content: CreateExpression) -> (r: Result<ShortFormExpression, ExpressionError>)
        ensures
            match r {
                Ok(expression) => expression_of(content@) == Some(expression@),
                Err(e) => expression_of(content@) is None && e@ == ErrorView::Serialization,
            },
    {
        match ShortFormExpressionData::try_parse(content.data.as_str()) {
            Ok(data) => Ok(
                ShortFormExpression {
                    data,
                    author: content.author,
                    timestamp: content.timestamp,
                    proof: content.proof,
                },
            ),
            Err(e) => Err(e),
        }
    }
}

impl PrivateShortFormExpression {
    /// The private twin of a public expression: the same fields under the
    /// other visibility. Never fails and loses nothing.
    pub fn from(content: ShortFormExpression) -> (r: PrivateShortFormExpression)
        ensures
            r@ == content@,
    {
        PrivateShortFormExpression {
            data: content.data,
            author: content.author,
            timestamp: content.timestamp,
            proof: content.proof,
        }
    }
}

} // verus!
