//! The module's entry points as a host calls them: each takes its input as
//! one value and begins the operation it names.

use crate::address::Address;
use crate::entry::{PrivateShortFormExpression, Visibility};
use crate::errors::ExpressionError;
use crate::flow::Step;
use crate::inputs::{CreateExpression, GetByAuthor, Inbox, SendPrivate};
use crate::methods::{
    author_start, inbox_start, lookup_start, publish_start, receive_start, send_start,
    ExpressionDNA,
};
use crate::outputs::ManyDhtHash;
use crate::substrate::LinkTag;
use vstd::prelude::*;

verus! {

/// Who may call a function of this module from outside.
#[derive(Clone, Copy, Debug, PartialEq, Eq, Structural)]
pub enum Access {
    /// Any peer, with no check beyond the transport's own.
    Unrestricted,
}

/// A grant of a capability: the function it opens and to whom.
#[derive(Debug, PartialEq, Eq)]
pub struct AccessPolicy {
    pub tag: String,
    pub function: String,
    pub access: Access,
}

pub struct AccessPolicyView {
    pub tag: Seq<char>,
    pub function: Seq<char>,
    pub access: Access,
}

impl View for AccessPolicy {
    type V = AccessPolicyView;

    open spec fn view(&self) -> AccessPolicyView {
        AccessPolicyView { tag: self.tag@, function: self.function@, access: self.access }
    }
}

/// The name under which peers call the receiving function.
pub const RECEIVE_FUNCTION: &'static str = "recv_private_expression";

/// The name of this module among the modules of its host.
pub const ZOME_NAME: &'static str = "shortform";

/// The open inbox: any peer may call the receiving function.
pub open spec fn open_inbox() -> AccessPolicyView {
    AccessPolicyView {
        tag: ""@,
        function: "recv_private_expression"@,
        access: Access::Unrestricted,
    }
}

/// What the module installs when an agent first runs it: the grant that
/// opens the receiving function to every peer.
pub fn init() -> (policy: AccessPolicy)
    ensures
        policy@ == open_inbox(),
{
    AccessPolicy {
        tag: "".to_owned(),
        function: "recv_private_expression".to_owned(),
        access: Access::Unrestricted,
    }
}

/// Every agent may join.
pub fn validate_agent(_agent: &Address) -> (r: Result<(), ExpressionError>)
    ensures
        r is Ok,
{
    Ok(())
}

/// How one kind of entry is declared to the host.
#[derive(Clone, Copy, Debug, PartialEq, Eq)]
pub struct EntryDef {
    pub id: &'static str,
    pub visibility: Visibility,
    pub link: LinkTag,
}

/// The declaration of the public expression: replicated for everyone,
/// linked from its author.
pub fn expression_entry_def() -> (def: EntryDef)
    ensures
        def.id@ == "shortform_expression"@,
        def.visibility == Visibility::Public,
        def.link == LinkTag::Expression,
{
    EntryDef {
        id: "shortform_expression",
        visibility: Visibility::Public,
        link: LinkTag::Expression,
    }
}

/// The declaration of the private expression: kept by its committer,
/// linked in the inbox.
pub fn private_expression_entry_def() -> (def: EntryDef)
    ensures
        def.id@ == "private_shortform_expression"@,
        def.visibility == Visibility::Private,
        def.link == LinkTag::Inbox,
{
    EntryDef {
        id: "private_shortform_expression",
        visibility: Visibility::Private,
        link: LinkTag::Inbox,
    }
}

/// Take in a private expression that a peer delivers.
pub fn recv_private_expression(create_data: PrivateShortFormExpression) -> (r: Step)
    ensures
        r@ == receive_start(create_data@),
{
    ExpressionDNA::recv_private_expression(create_data)
}

/// Create an expression and link it to its author publicly.
pub fn create_public_expression(create_data: CreateExpression) -> (r: Step)
    ensures
        r@ == publish_start(create_data@),
{
    ExpressionDNA::create_public_expression(create_data)
}

/// Get the expressions of one author within a time window.
pub fn get_by_author(get_data: GetByAuthor) -> (r: Step)
    ensures
        r@ == author_start(get_data.author@, get_data.from, get_data.until),
{
    ExpressionDNA::get_by_author(get_data.author, get_data.from, get_data.until)
}

/// Get the expression at an address, if there is one.
pub fn get_expression_by_address(address: Address) -> (r: Step)
    ensures
        r@ == lookup_start(address@),
{
    ExpressionDNA::get_expression_by_address(address)
}

/// Send an expression to one peer privately.
pub fn send_private(send_data: SendPrivate) -> (r: Step)
    ensures
        r@ == send_start(send_data.to@, send_data.expression@),
{
    ExpressionDNA::send_private(send_data.to, send_data.expression)
}

/// Get the private expressions received, of one sender or of all.
pub fn inbox(data: Inbox) -> (r: Step)
    ensures
        r@ == inbox_start(
            match data.from {
                Some(sender) => Some(sender@),
                None => None,
            },
        ),
{
    ExpressionDNA::inbox(data.from, data.page_size, data.page_number)
}

/// The other modules that must be installed beside this one: none.
pub fn required_dnas() -> (r: ManyDhtHash)
    ensures
        r.0@.len() == 0,
{
    ManyDhtHash(Vec::new())
}

} // verus!
