//! The operations of the expression service: how each one begins.

use crate::address::Address;
use crate::entry::{
    Entry, EntryKind, EntryView, PrivateAcaiAgent, PrivateShortFormExpression,
    ShortFormExpression,
};
use crate::errors::{ErrorView, ExpressionError};
use crate::flow::{fails, Flow, FlowView, Step, StepView};
use crate::inputs::{expression_of, CreateExpression, CreateView};
use crate::entry::ExpressionView;
use crate::substrate::{Action, ActionView, LinkTag};
use crate::time::Timestamp;
use vstd::prelude::*;

verus! {

/// The expression service. It holds no state: all that lasts is in the
/// substrate.
pub struct ExpressionDNA();

pub open spec fn malformed() -> Seq<char> {
    "Could not serialized content into ShortForm expression type"@
}

/// The first move of publishing: commit the expression that the request
/// stands for, or refuse a payload that does not decode.
pub open spec fn publish_start(content: CreateView) -> StepView {
    match expression_of(content) {
        Some(expression) => StepView::Ask(
            FlowView::Committing { expression },
            ActionView::Commit { entry: EntryView::Public(expression) },
        ),
        None => fails(ErrorView::RequestError(malformed())),
    }
}

/// The first move of an author's page: query the time index with the
/// author, the window and the tag of expressions.
pub open spec fn author_start(author: Seq<char>, from: Timestamp, until: Timestamp) -> StepView {
    StepView::Ask(
        FlowView::Querying,
        ActionView::QueryByTime { anchor: author, from, until, tag: LinkTag::Expression },
    )
}

/// The first move of a lookup: fetch what is at the address.
pub open spec fn lookup_start(address: Seq<u8>) -> StepView {
    StepView::Ask(FlowView::Looking, ActionView::Get { address })
}

/// The first move of a private send: call the peer with the private twin of
/// the expression, or refuse a payload that does not decode.
pub open spec fn send_start(to: Seq<u8>, content: CreateView) -> StepView {
    match expression_of(content) {
        Some(expression) => StepView::Ask(
            FlowView::Sending { expression },
            ActionView::CallRemote { to, payload: expression },
        ),
        None => fails(ErrorView::RequestError(malformed())),
    }
}

/// The first move of reading the inbox: for one sender, compute the address
/// of that sender's marker; for all, list the caller's own private
/// expressions.
pub open spec fn inbox_start(from: Option<Seq<char>>) -> StepView {
    match from {
        Some(sender) => StepView::Ask(
            FlowView::InboxHashing,
            ActionView::Hash { entry: EntryView::Marker(sender) },
        ),
        None => StepView::Ask(
            FlowView::Scanning,
            ActionView::QueryLocal { kind: EntryKind::PrivateExpression },
        ),
    }
}

/// The first move of a delivery: compute the address of the sender's
/// marker.
pub open spec fn receive_start(incoming: ExpressionView) -> StepView {
    StepView::Ask(
        FlowView::Hashing { incoming },
        ActionView::Hash { entry: EntryView::Marker(incoming.author) },
    )
}

impl ExpressionDNA {
    /// Create an expression and link it to its author publicly.
    ///
    /// A payload that does not decode ends the operation at once with a
    /// request error, before anything is asked of the substrate.
    pub fn create_public_expression(content: CreateExpression) -> (r: Step)
        ensures
            r@ == publish_start(content@),
    {
        match ShortFormExpression::try_from(content) {
            Ok(expression) => {
                let entry = Entry::Public(expression.clone());
                Step::Ask(Flow::Committing { expression }, Action::Commit { entry })
            },
            Err(_) => Step::Done(
                Err(
                    ExpressionError::request(
                        "Could not serialized content into ShortForm expression type",
                    ),
                ),
            ),
        }
    }

    /// Get the expressions of one author committed within `[from, until]`,
    /// oldest first.
    pub fn get_by_author(author: String, from: Timestamp, until: Timestamp) -> (r: Step)
        ensures
            r@ == author_start(author@, from, until),
    {
        Step::Ask(
            Flow::Querying,
            Action::QueryByTime { anchor: author, from, until, tag: LinkTag::Expression },
        )
    }

    /// Get the expression at an address, if there is one.
    pub fn get_expression_by_address(address: Address) -> (r: Step)
        ensures
            r@ == lookup_start(address@),
    {
        Step::Ask(Flow::Looking, Action::Get { address })
    }

    /// Send an expression to one peer privately. The sender commits
    /// nothing: what was sent comes back as the result.
    pub fn send_private(to: Address, expression: CreateExpression) -> (r: Step)
        ensures
            r@ == send_start(to@, expression@),
    {
        match ShortFormExpression::try_from(expression) {
            Ok(expression) => {
                let expression = PrivateShortFormExpression::from(expression);
                let payload = expression.clone();
                Step::Ask(Flow::Sending { expression }, Action::CallRemote { to, payload })
            },
            Err(_) => Step::Done(
                Err(
                    ExpressionError::request(
                        "Could not serialized content into ShortForm expression type",
                    ),
                ),
            ),
        }
    }

    /// Get the private expressions received, of one sender or of all. The
    /// page size and number do not bear on the result: the inbox comes
    /// whole.
    pub fn inbox(from: Option<String>, _page_size: usize, _page_number: usize) -> (r: Step)
        ensures
            r@ == inbox_start(
                match from {
                    Some(sender) => Some(sender@),
                    None => None,
                },
            ),
    {
        match from {
            Some(sender) => Step::Ask(
                Flow::InboxHashing,
                Action::Hash { entry: Entry::Marker(PrivateAcaiAgent(sender)) },
            ),
            None => Step::Ask(
                Flow::Scanning,
                Action::QueryLocal { kind: EntryKind::PrivateExpression },
            ),
        }
    }

    /// Take in a private expression that a peer delivers: keep it, and make
    /// it reachable from the marker of its sender.
    pub fn recv_private_expression(create_data: PrivateShortFormExpression) -> (r: Step)
        ensures
            r@ == receive_start(create_data@),
    {
        let anchor = PrivateAcaiAgent(create_data.author.clone());
        Step::Ask(
            Flow::Hashing { incoming: create_data },
            Action::Hash { entry: Entry::Marker(anchor) },
        )
    }
}

} // verus!
