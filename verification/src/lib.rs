//! A store of short-form expressions on a content-addressed substrate:
//! public expressions found by author and time or by address, and private
//! expressions delivered from peer to peer and kept in an inbox.
//!
//! The library decides and the host acts. An operation begins with one of
//! the functions of [`ExpressionDNA`], which hands back a [`Step`]: either a
//! request to the substrate together with the state to resume from, or the
//! end. The host answers the request and calls [`Flow::resume`] with the
//! answer, until the operation is done:
//!
//! ```text
//! let mut step = ExpressionDNA::get_by_author(author, from, until);
//! loop {
//!     match step {
//!         Step::Done(result) => return result,
//!         Step::Ask(flow, action) => step = flow.resume(host.perform(action)),
//!     }
//! }
//! ```
//!
//! - `entry`, `inputs`, `outputs`, `errors`: the values and how a payload
//!   becomes an expression.
//! - `substrate`: the requests and answers that pass between an operation
//!   and its host.
//! - `flow`, `methods`, `zome`: the operations as state machines and their
//!   entry points.
//! - `ledger`: a model of the substrate; `memory`: that model in memory,
//!   with the operations run on it.
//! - `service`: what each operation comes to on the model; `laws`: what
//!   that means for callers; `soundness`: the model's invariant.

pub mod address;
pub mod entry;
pub mod errors;
pub mod flow;
pub mod inputs;
pub mod json;
pub mod laws;
pub mod ledger;
pub mod memory;
pub mod methods;
pub mod outputs;
pub mod service;
pub mod soundness;
pub mod substrate;
pub mod text;
pub mod time;
pub mod views;
pub mod zome;

pub use crate::address::Address;
pub use crate::entry::{
    Entry, EntryKind, ExpressionProof, PrivateAcaiAgent, PrivateShortFormExpression,
    ShortFormExpression, ShortFormExpressionData, Visibility,
};
pub use crate::errors::{ExpressionError, ExpressionResult};
pub use crate::flow::{Flow, Outcome, Step};
pub use crate::inputs::{CreateExpression, CreatePrivateExpression, GetByAuthor, Inbox, SendPrivate};
pub use crate::memory::Ledger;
pub use crate::methods::ExpressionDNA;
pub use crate::outputs::{
    ExpressionResponse, HolochainData, ManyDhtHash, ManyExpressionResponse,
    ManyPrivateExpressionResponse, MaybeExpression, PrivateExpressionResponse,
};
pub use crate::substrate::{Action, Event, Fault, LinkTag, Record};
pub use crate::time::Timestamp;
pub use crate::zome::{
    create_public_expression, expression_entry_def, get_by_author, get_expression_by_address,
    inbox, init, private_expression_entry_def, recv_private_expression, required_dnas,
    send_private, validate_agent, Access, AccessPolicy, EntryDef,
};
