//! The operations as state machines. An operation asks the substrate for
//! one thing at a time and decides, on each answer, what to ask next or
//! how to finish. Whoever holds the substrate runs the loop.

use crate::address::Address;
use crate::entry::{
    Entry, EntryView, ExpressionView, PrivateAcaiAgent, PrivateShortFormExpression,
    ShortFormExpression,
};
use crate::errors::{ErrorView, ExpressionError};
use crate::outputs::{
    envelope, EnvelopeView, ExpressionResponse, ManyExpressionResponse,
    ManyPrivateExpressionResponse, MaybeExpression, PrivateExpressionResponse,
};
use crate::substrate::{
    Action, ActionView, Event, EventView, Fault, FaultView, LinkTag, Record, RecordView,
};
use crate::time::Timestamp;
use crate::views::{lemma_views_empty, lemma_views_push, lemma_views_remove_first, views};
use vstd::prelude::*;

verus! {

/// How an operation ended well.
#[derive(Debug, PartialEq, Eq)]
pub enum Outcome {
    Created(ExpressionResponse),
    Authored(ManyExpressionResponse),
    Found(MaybeExpression),
    Sent(PrivateShortFormExpression),
    Received,
    Inbox(ManyPrivateExpressionResponse),
}

pub enum OutcomeView {
    Created(EnvelopeView),
    Authored(Seq<EnvelopeView>),
    Found(Option<EnvelopeView>),
    Sent(ExpressionView),
    Received,
    Inbox(Seq<EnvelopeView>),
}

impl View for Outcome {
    type V = OutcomeView;

    open spec fn view(&self) -> OutcomeView {
        match self {
            Outcome::Created(r) => OutcomeView::Created(r@),
            Outcome::Authored(list) => OutcomeView::Authored(list@),
            Outcome::Found(found) => OutcomeView::Found(found@),
            Outcome::Sent(e) => OutcomeView::Sent(e@),
            Outcome::Received => OutcomeView::Received,
            Outcome::Inbox(list) => OutcomeView::Inbox(list@),
        }
    }
}

/// Where an operation stands between two answers of the substrate.
#[derive(Debug, PartialEq, Eq)]
#[allow(inconsistent_fields)]
pub enum Flow {
    /// Publishing: the entry is being committed.
    Committing { expression: ShortFormExpression },
    /// Publishing: the entry is being indexed under its author.
    Indexing { expression: ShortFormExpression, address: Address },
    /// Publishing: the entry is read back for its commit time.
    Refetching { expression: ShortFormExpression },
    /// Publishing: the envelope waits for its provenance.
    Sealing { expression: ShortFormExpression, address: Address, created_at: Timestamp },
    /// An author's page: the time index is being queried.
    Querying,
    /// An author's page: one entry is being fetched, `pending` come after.
    PageFetching { pending: Vec<Address>, done: Vec<ExpressionResponse> },
    /// An author's page: one envelope waits for its provenance.
    PageSealing {
        pending: Vec<Address>,
        done: Vec<ExpressionResponse>,
        expression: ShortFormExpression,
        address: Address,
        created_at: Timestamp,
    },
    /// A lookup by address: the entry is being fetched.
    Looking,
    /// A lookup by address: the envelope waits for its provenance.
    LookSealing { expression: ShortFormExpression, address: Address, created_at: Timestamp },
    /// A private send: the peer is being called.
    Sending { expression: PrivateShortFormExpression },
    /// A delivery: the address of the sender's marker is being computed.
    Hashing { incoming: PrivateShortFormExpression },
    /// A delivery: the sender's marker is being looked for.
    Probing { incoming: PrivateShortFormExpression, marker: Address },
    /// A delivery: the sender's marker is being committed.
    Anchoring { incoming: PrivateShortFormExpression, marker: Address },
    /// A delivery: the message is being committed.
    Storing { marker: Address },
    /// A delivery: the message is being linked to the marker.
    Linking,
    /// One sender's inbox: the address of the marker is being computed.
    InboxHashing,
    /// One sender's inbox: the marker's links are being listed.
    InboxListing,
    /// One sender's inbox: one message is being fetched.
    InboxFetching { pending: Vec<Address>, done: Vec<PrivateExpressionResponse> },
    /// One sender's inbox: one envelope waits for its provenance.
    InboxSealing {
        pending: Vec<Address>,
        done: Vec<PrivateExpressionResponse>,
        expression: PrivateShortFormExpression,
        address: Address,
        created_at: Timestamp,
    },
    /// The whole inbox: the caller's own private expressions are being
    /// listed.
    Scanning,
    /// The whole inbox: one envelope waits for its provenance.
    ScanSealing {
        pending: Vec<Record>,
        done: Vec<PrivateExpressionResponse>,
        expression: PrivateShortFormExpression,
        address: Address,
        created_at: Timestamp,
    },
}

#[allow(inconsistent_fields)]
pub enum FlowView {
    Committing { expression: ExpressionView },
    Indexing { expression: ExpressionView, address: Seq<u8> },
    Refetching { expression: ExpressionView },
    Sealing { expression: ExpressionView, address: Seq<u8>, created_at: Timestamp },
    Querying,
    PageFetching { pending: Seq<Seq<u8>>, done: Seq<EnvelopeView> },
    PageSealing {
        pending: Seq<Seq<u8>>,
        done: Seq<EnvelopeView>,
        expression: ExpressionView,
        address: Seq<u8>,
        created_at: Timestamp,
    },
    Looking,
    LookSealing { expression: ExpressionView, address: Seq<u8>, created_at: Timestamp },
    Sending { expression: ExpressionView },
    Hashing { incoming: ExpressionView },
    Probing { incoming: ExpressionView, marker: Seq<u8> },
    Anchoring { incoming: ExpressionView, marker: Seq<u8> },
    Storing { marker: Seq<u8> },
    Linking,
    InboxHashing,
    InboxListing,
    InboxFetching { pending: Seq<Seq<u8>>, done: Seq<EnvelopeView> },
    InboxSealing {
        pending: Seq<Seq<u8>>,
        done: Seq<EnvelopeView>,
        expression: ExpressionView,
        address: Seq<u8>,
        created_at: Timestamp,
    },
    Scanning,
    ScanSealing {
        pending: Seq<RecordView>,
        done: Seq<EnvelopeView>,
        expression: ExpressionView,
        address: Seq<u8>,
        created_at: Timestamp,
    },
}

impl View for Flow {
    type V = FlowView;

    open spec fn view(&self) -> FlowView {
        match self {
            Flow::Committing { expression } => FlowView::Committing { expression: expression@ },
            Flow::Indexing { expression, address } => FlowView::Indexing {
                expression: expression@,
                address: address@,
            },
            Flow::Refetching { expression } => FlowView::Refetching { expression: expression@ },
            Flow::Sealing { expression, address, created_at } => FlowView::Sealing {
                expression: expression@,
                address: address@,
                created_at: *created_at,
            },
            Flow::Querying => FlowView::Querying,
            Flow::PageFetching { pending, done } => FlowView::PageFetching {
                pending: views(pending@),
                done: views(done@),
            },
            Flow::PageSealing { pending, done, expression, address, created_at } => {
                FlowView::PageSealing {
                    pending: views(pending@),
                    done: views(done@),
                    expression: expression@,
                    address: address@,
                    created_at: *created_at,
                }
            },
            Flow::Looking => FlowView::Looking,
            Flow::LookSealing { expression, address, created_at } => FlowView::LookSealing {
                expression: expression@,
                address: address@,
                created_at: *created_at,
            },
            Flow::Sending { expression } => FlowView::Sending { expression: expression@ },
            Flow::Hashing { incoming } => FlowView::Hashing { incoming: incoming@ },
            Flow::Probing { incoming, marker } => FlowView::Probing {
                incoming: incoming@,
                marker: marker@,
            },
            Flow::Anchoring { incoming, marker } => FlowView::Anchoring {
                incoming: incoming@,
                marker: marker@,
            },
            Flow::Storing { marker } => FlowView::Storing { marker: marker@ },
            Flow::Linking => FlowView::Linking,
            Flow::InboxHashing => FlowView::InboxHashing,
            Flow::InboxListing => FlowView::InboxListing,
            Flow::InboxFetching { pending, done } => FlowView::InboxFetching {
                pending: views(pending@),
                done: views(done@),
            },
            Flow::InboxSealing { pending, done, expression, address, created_at } => {
                FlowView::InboxSealing {
                    pending: views(pending@),
                    done: views(done@),
                    expression: expression@,
                    address: address@,
                    created_at: *created_at,
                }
            },
            Flow::Scanning => FlowView::Scanning,
            Flow::ScanSealing { pending, done, expression, address, created_at } => {
                FlowView::ScanSealing {
                    pending: views(pending@),
                    done: views(done@),
                    expression: expression@,
                    address: address@,
                    created_at: *created_at,
                }
            },
        }
    }
}

/// One move of an operation: a request to the substrate with the state to
/// resume from, or the end.
#[derive(Debug, PartialEq, Eq)]
pub enum Step {
    Ask(Flow, Action),
    Done(Result<Outcome, ExpressionError>),
}

pub enum StepView {
    Ask(FlowView, ActionView),
    Done(Result<OutcomeView, ErrorView>),
}

impl View for Step {
    type V = StepView;

    open spec fn view(&self) -> StepView {
        match self {
            Step::Ask(flow, action) => StepView::Ask(flow@, action@),
            Step::Done(Ok(outcome)) => StepView::Done(Ok(outcome@)),
            Step::Done(Err(e)) => StepView::Done(Err(e@)),
        }
    }
}

/// The error that a fault of the substrate is reported as: a fault of the
/// substrate itself is internal, a fault of the delivery keeps its kind.
pub open spec fn failure(fault: FaultView) -> ErrorView {
    match fault {
        FaultView::Substrate(detail) => ErrorView::InternalError(detail),
        FaultView::Unauthorized => ErrorView::Unauthorized,
        FaultView::NetworkUnreachable => ErrorView::NetworkUnreachable,
        FaultView::Remote(detail) => ErrorView::Remote(detail),
    }
}

/// The error for an answer that the operation cannot go on with: the fault
/// it reports, or an internal error where the answer is of the wrong kind.
pub open spec fn rejection(event: EventView) -> ErrorView {
    match event {
        EventView::Failed(fault) => failure(fault),
        _ => ErrorView::InternalError("Unexpected reply from the substrate"@),
    }
}

pub open spec fn fails(error: ErrorView) -> StepView {
    StepView::Done(Err(error))
}

pub open spec fn missing_entry() -> Seq<char> {
    "Could not get entry after commit"@
}

pub open spec fn not_public() -> Seq<char> {
    "Could not deserialize link expression data into ShortFormExpression"@
}

pub open spec fn not_private() -> Seq<char> {
    "Could not deserialize link expression data into PrivateShortFormExpression"@
}

pub open spec fn not_private_local() -> Seq<char> {
    "Could not deserialize local expression data into PrivateShortFormExpression"@
}

/// An author's page after some envelopes are done: fetch the next pending
/// address, or end with what is done.
pub open spec fn page_continue(pending: Seq<Seq<u8>>, done: Seq<EnvelopeView>) -> StepView {
    if pending.len() == 0 {
        StepView::Done(Ok(OutcomeView::Authored(done)))
    } else {
        StepView::Ask(
            FlowView::PageFetching { pending: pending.drop_first(), done },
            ActionView::Get { address: pending[0] },
        )
    }
}

/// One sender's inbox after some envelopes are done.
pub open spec fn inbox_continue(pending: Seq<Seq<u8>>, done: Seq<EnvelopeView>) -> StepView {
    if pending.len() == 0 {
        StepView::Done(Ok(OutcomeView::Inbox(done)))
    } else {
        StepView::Ask(
            FlowView::InboxFetching { pending: pending.drop_first(), done },
            ActionView::Get { address: pending[0] },
        )
    }
}

/// The whole inbox after some envelopes are done: seal the next record, or
/// end. A record that is no private expression ends the scan with an error.
pub open spec fn scan_continue(pending: Seq<RecordView>, done: Seq<EnvelopeView>) -> StepView {
    if pending.len() == 0 {
        StepView::Done(Ok(OutcomeView::Inbox(done)))
    } else {
        match pending[0].entry {
            EntryView::Private(expression) => StepView::Ask(
                FlowView::ScanSealing {
                    pending: pending.drop_first(),
                    done,
                    expression,
                    address: pending[0].address,
                    created_at: pending[0].created_at,
                },
                ActionView::Provenance,
            ),
            _ => fails(ErrorView::RequestError(not_private_local())),
        }
    }
}

/// The move that an operation in state `flow` makes on the answer `event`.
pub open spec fn next(flow: FlowView, event: EventView) -> StepView {
    match flow {
        FlowView::Committing { expression } => match event {
            EventView::Address(address) => StepView::Ask(
                FlowView::Indexing { expression, address },
                ActionView::IndexByTime {
                    anchor: expression.author,
                    target: address,
                    tag: LinkTag::Expression,
                },
            ),
            _ => fails(rejection(event)),
        },
        FlowView::Indexing { expression, address } => match event {
            EventView::Done => StepView::Ask(
                FlowView::Refetching { expression },
                ActionView::Get { address },
            ),
            _ => fails(rejection(event)),
        },
        FlowView::Refetching { expression } => match event {
            EventView::Record(Some(record)) => StepView::Ask(
                FlowView::Sealing {
                    expression,
                    address: record.address,
                    created_at: record.created_at,
                },
                ActionView::Provenance,
            ),
            EventView::Record(None) => fails(ErrorView::InternalError(missing_entry())),
            _ => fails(rejection(event)),
        },
        FlowView::Sealing { expression, address, created_at } => match event {
            EventView::Provenance { module, agent } => StepView::Done(
                Ok(OutcomeView::Created(envelope(expression, address, created_at, module, agent))),
            ),
            _ => fails(rejection(event)),
        },
        FlowView::Querying => match event {
            EventView::Addresses(list) => page_continue(list, Seq::empty()),
            _ => fails(rejection(event)),
        },
        FlowView::PageFetching { pending, done } => match event {
            EventView::Record(Some(record)) => match record.entry {
                EntryView::Public(expression) => StepView::Ask(
                    FlowView::PageSealing {
                        pending,
                        done,
                        expression,
                        address: record.address,
                        created_at: record.created_at,
                    },
                    ActionView::Provenance,
                ),
                _ => fails(ErrorView::RequestError(not_public())),
            },
            EventView::Record(None) => fails(ErrorView::RequestError(missing_entry())),
            _ => fails(rejection(event)),
        },
        FlowView::PageSealing { pending, done, expression, address, created_at } => match event {
            EventView::Provenance { module, agent } => page_continue(
                pending,
                done.push(envelope(expression, address, created_at, module, agent)),
            ),
            _ => fails(rejection(event)),
        },
        FlowView::Looking => match event {
            EventView::Record(Some(record)) => match record.entry {
                EntryView::Public(expression) => StepView::Ask(
                    FlowView::LookSealing {
                        expression,
                        address: record.address,
                        created_at: record.created_at,
                    },
                    ActionView::Provenance,
                ),
                _ => fails(ErrorView::RequestError(not_public())),
            },
            EventView::Record(None) => StepView::Done(Ok(OutcomeView::Found(None))),
            _ => fails(rejection(event)),
        },
        FlowView::LookSealing { expression, address, created_at } => match event {
            EventView::Provenance { module, agent } => StepView::Done(
                Ok(
                    OutcomeView::Found(
                        Some(envelope(expression, address, created_at, module, agent)),
                    ),
                ),
            ),
            _ => fails(rejection(event)),
        },
        FlowView::Sending { expression } => match event {
            EventView::Done => StepView::Done(Ok(OutcomeView::Sent(expression))),
            _ => fails(rejection(event)),
        },
        FlowView::Hashing { incoming } => match event {
            EventView::Address(marker) => StepView::Ask(
                FlowView::Probing { incoming, marker },
                ActionView::Get { address: marker },
            ),
            _ => fails(rejection(event)),
        },
        FlowView::Probing { incoming, marker } => match event {
            EventView::Record(Some(_)) => StepView::Ask(
                FlowView::Storing { marker },
                ActionView::Commit { entry: EntryView::Private(incoming) },
            ),
            EventView::Record(None) => StepView::Ask(
                FlowView::Anchoring { incoming, marker },
                ActionView::Commit { entry: EntryView::Marker(incoming.author) },
            ),
            _ => fails(rejection(event)),
        },
        FlowView::Anchoring { incoming, marker } => match event {
            EventView::Address(_) => StepView::Ask(
                FlowView::Storing { marker },
                ActionView::Commit { entry: EntryView::Private(incoming) },
            ),
            _ => fails(rejection(event)),
        },
        FlowView::Storing { marker } => match event {
            EventView::Address(target) => StepView::Ask(
                FlowView::Linking,
                ActionView::Link { base: marker, target, tag: LinkTag::Inbox },
            ),
            _ => fails(rejection(event)),
        },
        FlowView::Linking => match event {
            EventView::Done => StepView::Done(Ok(OutcomeView::Received)),
            _ => fails(rejection(event)),
        },
        FlowView::InboxHashing => match event {
            EventView::Address(marker) => StepView::Ask(
                FlowView::InboxListing,
                ActionView::LinksOf { base: marker, tag: LinkTag::Inbox },
            ),
            _ => fails(rejection(event)),
        },
        FlowView::InboxListing => match event {
            EventView::Addresses(list) => inbox_continue(list, Seq::empty()),
            _ => fails(rejection(event)),
        },
        FlowView::InboxFetching { pending, done } => match event {
            EventView::Record(Some(record)) => match record.entry {
                EntryView::Private(expression) => StepView::Ask(
                    FlowView::InboxSealing {
                        pending,
                        done,
                        expression,
                        address: record.address,
                        created_at: record.created_at,
                    },
                    ActionView::Provenance,
                ),
                _ => fails(ErrorView::RequestError(not_private())),
            },
            EventView::Record(None) => fails(ErrorView::RequestError(missing_entry())),
            _ => fails(rejection(event)),
        },
        FlowView::InboxSealing { pending, done, expression, address, created_at } => match event {
            EventView::Provenance { module, agent } => inbox_continue(
                pending,
                done.push(envelope(expression, address, created_at, module, agent)),
            ),
            _ => fails(rejection(event)),
        },
        FlowView::Scanning => match event {
            EventView::Records(list) => scan_continue(list, Seq::empty()),
            _ => fails(rejection(event)),
        },
        FlowView::ScanSealing { pending, done, expression, address, created_at } => match event {
            EventView::Provenance { module, agent } => scan_continue(
                pending,
                done.push(envelope(expression, address, created_at, module, agent)),
            ),
            _ => fails(rejection(event)),
        },
    }
}


impl ExpressionError {
    /// Reports a fault of the substrate under its kind.
    pub fn from_fault(fault: Fault) -> (e: ExpressionError)
        ensures
            e@ == failure(fault@),
    {
        match fault {
            Fault::Substrate(detail) => ExpressionError::InternalError(detail),
            Fault::Unauthorized => ExpressionError::Unauthorized,
            Fault::NetworkUnreachable => ExpressionError::NetworkUnreachable,
            Fault::Remote(detail) => ExpressionError::Remote(detail),
        }
    }
}

fn reject(event: Event) -> (r: Step)
    ensures
        r@ == fails(rejection(event@)),
{
    match event {
        Event::Failed(fault) => Step::Done(Err(ExpressionError::from_fault(fault))),
        _ => Step::Done(Err(ExpressionError::internal("Unexpected reply from the substrate"))),
    }
}

fn page_advance(pending: Vec<Address>, done: Vec<ExpressionResponse>) -> (r: Step)
    ensures
        r@ == page_continue(views(pending@), views(done@)),
{
    let mut pending = pending;
    proof {
        lemma_views_empty(pending@);
    }
    if pending.len() == 0 {
        Step::Done(Ok(Outcome::Authored(ManyExpressionResponse(done))))
    } else {
        proof {
            lemma_views_remove_first(pending@);
        }
        let address = pending.remove(0);
        Step::Ask(Flow::PageFetching { pending, done }, Action::Get { address })
    }
}

fn inbox_advance(pending: Vec<Address>, done: Vec<PrivateExpressionResponse>) -> (r: Step)
    ensures
        r@ == inbox_continue(views(pending@), views(done@)),
{
    let mut pending = pending;
    proof {
        lemma_views_empty(pending@);
    }
    if pending.len() == 0 {
        Step::Done(Ok(Outcome::Inbox(ManyPrivateExpressionResponse(done))))
    } else {
        proof {
            lemma_views_remove_first(pending@);
        }
        let address = pending.remove(0);
        Step::Ask(Flow::InboxFetching { pending, done }, Action::Get { address })
    }
}

fn scan_advance(pending: Vec<Record>, done: Vec<PrivateExpressionResponse>) -> (r: Step)
    ensures
        r@ == scan_continue(views(pending@), views(done@)),
{
    let mut pending = pending;
    proof {
        lemma_views_empty(pending@);
    }
    if pending.len() == 0 {
        Step::Done(Ok(Outcome::Inbox(ManyPrivateExpressionResponse(done))))
    } else {
        proof {
            lemma_views_remove_first(pending@);
        }
        let record = pending.remove(0);
        match record.entry {
            Entry::Private(expression) => Step::Ask(
                Flow::ScanSealing {
                    pending,
                    done,
                    expression,
                    address: record.address,
                    created_at: record.created_at,
                },
                Action::Provenance,
            ),
            _ => Step::Done(
                Err(
                    ExpressionError::request(
                        "Could not deserialize local expression data into PrivateShortFormExpression",
                    ),
                ),
            ),
        }
    }
}

impl Flow {
    /// Takes the substrate's answer and makes the operation's next move.
    ///
    /// A fault ends the operation with the error of its kind; an answer of
    /// a kind that the state does not wait for ends it with an internal
    /// error. Nothing is retried.
    pub fn resume(self, event: Event) -> (r: Step)
        ensures
            r@ == next(self@, event@),
    {
        match self {
            Flow::Committing { expression } => match event {
                Event::Address(address) => {
                    let anchor = expression.author.clone();
                    let target = address.clone();
                    Step::Ask(
                        Flow::Indexing { expression, address },
                        Action::IndexByTime { anchor, target, tag: LinkTag::Expression },
                    )
                },
                other => reject(other),
            },
            Flow::Indexing { expression, address } => match event {
                Event::Done => Step::Ask(Flow::Refetching { expression }, Action::Get { address }),
                other => reject(other),
            },
            Flow::Refetching { expression } => match event {
                Event::Record(Some(record)) => Step::Ask(
                    Flow::Sealing {
                        expression,
                        address: record.address,
                        created_at: record.created_at,
                    },
                    Action::Provenance,
                ),
                Event::Record(None) => Step::Done(
                    Err(ExpressionError::internal("Could not get entry after commit")),
                ),
                other => reject(other),
            },
            Flow::Sealing { expression, address, created_at } => match event {
                Event::Provenance { module, agent } => Step::Done(
                    Ok(
                        Outcome::Created(
                            ExpressionResponse::assemble(
                                expression,
                                address,
                                created_at,
                                module,
                                agent,
                            ),
                        ),
                    ),
                ),
                other => reject(other),
            },
            Flow::Querying => match event {
                Event::Addresses(list) => {
                    let done: Vec<ExpressionResponse> = Vec::new();
                    proof {
                        lemma_views_empty(done@);
                    }
                    page_advance(list, done)
                },
                other => reject(other),
            },
            Flow::PageFetching { pending, done } => match event {
                Event::Record(Some(record)) => match record.entry {
                    Entry::Public(expression) => Step::Ask(
                        Flow::PageSealing {
                            pending,
                            done,
                            expression,
                            address: record.address,
                            created_at: record.created_at,
                        },
                        Action::Provenance,
                    ),
                    _ => Step::Done(
                        Err(
                            ExpressionError::request(
                                "Could not deserialize link expression data into ShortFormExpression",
                            ),
                        ),
                    ),
                },
                Event::Record(None) => Step::Done(
                    Err(ExpressionError::request("Could not get entry after commit")),
                ),
                other => reject(other),
            },
            Flow::PageSealing { pending, done, expression, address, created_at } => match event {
                Event::Provenance { module, agent } => {
                    let mut done = done;
                    let sealed = ExpressionResponse::assemble(
                        expression,
                        address,
                        created_at,
                        module,
                        agent,
                    );
                    proof {
                        lemma_views_push(done@, sealed);
                    }
                    done.push(sealed);
                    page_advance(pending, done)
                },
                other => reject(other),
            },
            Flow::Looking => match event {
                Event::Record(Some(record)) => match record.entry {
                    Entry::Public(expression) => Step::Ask(
                        Flow::LookSealing {
                            expression,
                            address: record.address,
                            created_at: record.created_at,
                        },
                        Action::Provenance,
                    ),
                    _ => Step::Done(
                        Err(
                            ExpressionError::request(
                                "Could not deserialize link expression data into ShortFormExpression",
                            ),
                        ),
                    ),
                },
                Event::Record(None) => Step::Done(Ok(Outcome::Found(MaybeExpression(None)))),
                other => reject(other),
            },
            Flow::LookSealing { expression, address, created_at } => match event {
                Event::Provenance { module, agent } => Step::Done(
                    Ok(
                        Outcome::Found(
                            MaybeExpression(
                                Some(
                                    ExpressionResponse::assemble(
                                        expression,
                                        address,
                                        created_at,
                                        module,
                                        agent,
                                    ),
                                ),
                            ),
                        ),
                    ),
                ),
                other => reject(other),
            },
            Flow::Sending { expression } => match event {
                Event::Done => Step::Done(Ok(Outcome::Sent(expression))),
                other => reject(other),
            },
            Flow::Hashing { incoming } => match event {
                Event::Address(marker) => {
                    let address = marker.clone();
                    Step::Ask(Flow::Probing { incoming, marker }, Action::Get { address })
                },
                other => reject(other),
            },
            Flow::Probing { incoming, marker } => match event {
                Event::Record(Some(_)) => Step::Ask(
                    Flow::Storing { marker },
                    Action::Commit { entry: Entry::Private(incoming) },
                ),
                Event::Record(None) => {
                    let anchor = PrivateAcaiAgent(incoming.author.clone());
                    Step::Ask(
                        Flow::Anchoring { incoming, marker },
                        Action::Commit { entry: Entry::Marker(anchor) },
                    )
                },
                other => reject(other),
            },
            Flow::Anchoring { incoming, marker } => match event {
                Event::Address(_) => Step::Ask(
                    Flow::Storing { marker },
                    Action::Commit { entry: Entry::Private(incoming) },
                ),
                other => reject(other),
            },
            Flow::Storing { marker } => match event {
                Event::Address(target) => Step::Ask(
                    Flow::Linking,
                    Action::Link { base: marker, target, tag: LinkTag::Inbox },
                ),
                other => reject(other),
            },
            Flow::Linking => match event {
                Event::Done => Step::Done(Ok(Outcome::Received)),
                other => reject(other),
            },
            Flow::InboxHashing => match event {
                Event::Address(marker) => Step::Ask(
                    Flow::InboxListing,
                    Action::LinksOf { base: marker, tag: LinkTag::Inbox },
                ),
                other => reject(other),
            },
            Flow::InboxListing => match event {
                Event::Addresses(list) => {
                    let done: Vec<PrivateExpressionResponse> = Vec::new();
                    proof {
                        lemma_views_empty(done@);
                    }
                    inbox_advance(list, done)
                },
                other => reject(other),
            },
            Flow::InboxFetching { pending, done } => match event {
                Event::Record(Some(record)) => match record.entry {
                    Entry::Private(expression) => Step::Ask(
                        Flow::InboxSealing {
                            pending,
                            done,
                            expression,
                            address: record.address,
                            created_at: record.created_at,
                        },
                        Action::Provenance,
                    ),
                    _ => Step::Done(
                        Err(
                            ExpressionError::request(
                                "Could not deserialize link expression data into PrivateShortFormExpression",
                            ),
                        ),
                    ),
                },
                Event::Record(None) => Step::Done(
                    Err(ExpressionError::request("Could not get entry after commit")),
                ),
                other => reject(other),
            },
            Flow::InboxSealing { pending, done, expression, address, created_at } => match event {
                Event::Provenance { module, agent } => {
                    let mut done = done;
                    let sealed = PrivateExpressionResponse::assemble(
                        expression,
                        address,
                        created_at,
                        module,
                        agent,
                    );
                    proof {
                        lemma_views_push(done@, sealed);
                    }
                    done.push(sealed);
                    inbox_advance(pending, done)
                },
                other => reject(other),
            },
            Flow::Scanning => match event {
                Event::Records(list) => {
                    let done: Vec<PrivateExpressionResponse> = Vec::new();
                    proof {
                        lemma_views_empty(done@);
                    }
                    scan_advance(list, done)
                },
                other => reject(other),
            },
            Flow::ScanSealing { pending, done, expression, address, created_at } => match event {
                Event::Provenance { module, agent } => {
                    let mut done = done;
                    let sealed = PrivateExpressionResponse::assemble(
                        expression,
                        address,
                        created_at,
                        module,
                        agent,
                    );
                    proof {
                        lemma_views_push(done@, sealed);
                    }
                    done.push(sealed);
                    scan_advance(pending, done)
                },
                other => reject(other),
            },
        }
    }
}


/// How many kinds of answer an operation in this state still waits for
/// before it knows how many entries it has to fetch.
pub open spec fn rank(flow: FlowView) -> nat {
    match flow {
        FlowView::InboxHashing => 2,
        FlowView::Querying | FlowView::InboxListing | FlowView::Scanning => 1,
        _ => 0,
    }
}

/// An upper bound on the requests an operation in this state still makes,
/// once it knows what it has to fetch.
pub open spec fn load(flow: FlowView) -> nat {
    match flow {
        FlowView::Committing { .. } => 4,
        FlowView::Indexing { .. } => 3,
        FlowView::Refetching { .. } => 2,
        FlowView::Sealing { .. } => 1,
        FlowView::PageFetching { pending, .. } => 2 * pending.len() + 2,
        FlowView::PageSealing { pending, .. } => 2 * pending.len() + 1,
        FlowView::Looking => 2,
        FlowView::LookSealing { .. } => 1,
        FlowView::Sending { .. } => 1,
        FlowView::Hashing { .. } => 5,
        FlowView::Probing { .. } => 4,
        FlowView::Anchoring { .. } => 3,
        FlowView::Storing { .. } => 2,
        FlowView::Linking => 1,
        FlowView::InboxFetching { pending, .. } => 2 * pending.len() + 2,
        FlowView::InboxSealing { pending, .. } => 2 * pending.len() + 1,
        FlowView::ScanSealing { pending, .. } => pending.len() + 1,
        FlowView::Querying | FlowView::InboxHashing | FlowView::InboxListing | FlowView::Scanning => 0,
    }
}

pub open spec fn step_rank(step: StepView) -> nat {
    match step {
        StepView::Ask(flow, _) => rank(flow),
        StepView::Done(_) => 0,
    }
}

pub open spec fn step_load(step: StepView) -> nat {
    match step {
        StepView::Ask(flow, _) => load(flow),
        StepView::Done(_) => 0,
    }
}

/// `a` is nearer to its end than `b`.
pub open spec fn nearer(a: StepView, b: StepView) -> bool {
    step_rank(a) < step_rank(b) || (step_rank(a) == step_rank(b) && step_load(a) < step_load(b))
}

/// Every operation ends: each answer brings it nearer to its end, whatever
/// the answer is.
pub proof fn lemma_progress(flow: FlowView, action: ActionView, event: EventView)
    ensures
        nearer(next(flow, event), StepView::Ask(flow, action)),
{
}

/// Only the first move of an operation can be a call to a peer.
pub proof fn lemma_next_is_local(flow: FlowView, event: EventView)
    ensures
        match next(flow, event) {
            StepView::Ask(_, action) => !(action is CallRemote),
            StepView::Done(_) => true,
        },
{
}

} // verus!
