//! What each operation comes to on the model substrate, stated outright,
//! and the proof that running the operation's state machine there comes to
//! exactly that.

use crate::entry::{EntryKind, EntryView, ExpressionView};
use crate::errors::ErrorView;
use crate::flow::{
    inbox_continue, lemma_progress, missing_entry, next, not_private, not_private_local,
    not_public, page_continue, rejection, scan_continue, FlowView, OutcomeView, StepView,
};
use crate::inputs::{expression_of, CreateView};
use crate::ledger::{run, LedgerView};
use crate::methods::{
    author_start, inbox_start, lookup_start, malformed, publish_start, receive_start, send_start,
};
use crate::outputs::{envelope, EnvelopeView};
use crate::substrate::{ActionView, EventView, LinkTag, RecordView};
use crate::time::Timestamp;
use vstd::prelude::*;

verus! {

/// Publishing on the model: the expression is committed for `me` and filed
/// under its author; the envelope carries what is then found at its
/// address.
pub open spec fn published(ledger: LedgerView, me: Seq<u8>, content: CreateView) -> (
    LedgerView,
    Result<EnvelopeView, ErrorView>,
) {
    match expression_of(content) {
        None => (ledger, Err(ErrorView::RequestError(malformed()))),
        Some(expression) => {
            let (committed, address) = ledger.commit(me, EntryView::Public(expression));
            let (filed, answer) = committed.index(
                me,
                expression.author,
                address,
                LinkTag::Expression,
            );
            match answer {
                EventView::Done => match filed.fetch(me, address) {
                    Some(record) => (
                        filed,
                        Ok(
                            envelope(
                                expression,
                                record.address,
                                record.created_at,
                                filed.module,
                                me,
                            ),
                        ),
                    ),
                    None => (filed, Err(ErrorView::InternalError(missing_entry()))),
                },
                _ => (filed, Err(rejection(answer))),
            }
        },
    }
}

/// The envelopes of the public expressions at `addresses`, in that order,
/// as `me` reads them. One address with nothing behind it, or with
/// something that is no public expression, fails the whole list.
pub open spec fn public_envelopes(ledger: LedgerView, me: Seq<u8>, addresses: Seq<Seq<u8>>) -> Result<
    Seq<EnvelopeView>,
    ErrorView,
>
    decreases addresses.len(),
{
    if addresses.len() == 0 {
        Ok(Seq::empty())
    } else {
        match ledger.fetch(me, addresses[0]) {
            None => Err(ErrorView::RequestError(missing_entry())),
            Some(record) => match record.entry {
                EntryView::Public(expression) => match public_envelopes(
                    ledger,
                    me,
                    addresses.drop_first(),
                ) {
                    Ok(rest) => Ok(
                        seq![
                            envelope(
                                expression,
                                record.address,
                                record.created_at,
                                ledger.module,
                                me,
                            ),
                        ] + rest,
                    ),
                    Err(e) => Err(e),
                },
                _ => Err(ErrorView::RequestError(not_public())),
            },
        }
    }
}

/// The same for private expressions.
pub open spec fn private_envelopes(ledger: LedgerView, me: Seq<u8>, addresses: Seq<Seq<u8>>) -> Result<
    Seq<EnvelopeView>,
    ErrorView,
>
    decreases addresses.len(),
{
    if addresses.len() == 0 {
        Ok(Seq::empty())
    } else {
        match ledger.fetch(me, addresses[0]) {
            None => Err(ErrorView::RequestError(missing_entry())),
            Some(record) => match record.entry {
                EntryView::Private(expression) => match private_envelopes(
                    ledger,
                    me,
                    addresses.drop_first(),
                ) {
                    Ok(rest) => Ok(
                        seq![
                            envelope(
                                expression,
                                record.address,
                                record.created_at,
                                ledger.module,
                                me,
                            ),
                        ] + rest,
                    ),
                    Err(e) => Err(e),
                },
                _ => Err(ErrorView::RequestError(not_private())),
            },
        }
    }
}

/// The envelopes of records at hand, in their order. A record that is no
/// private expression fails the whole list.
pub open spec fn local_envelopes(records: Seq<RecordView>, module: Seq<char>, me: Seq<u8>) -> Result<
    Seq<EnvelopeView>,
    ErrorView,
>
    decreases records.len(),
{
    if records.len() == 0 {
        Ok(Seq::empty())
    } else {
        match records[0].entry {
            EntryView::Private(expression) => match local_envelopes(
                records.drop_first(),
                module,
                me,
            ) {
                Ok(rest) => Ok(
                    seq![
                        envelope(
                            expression,
                            records[0].address,
                            records[0].created_at,
                            module,
                            me,
                        ),
                    ] + rest,
                ),
                Err(e) => Err(e),
            },
            _ => Err(ErrorView::RequestError(not_private_local())),
        }
    }
}

/// An author's page on the model: the envelopes of what the time index
/// holds under the author within the window, in the order of the index.
pub open spec fn authored(
    ledger: LedgerView,
    me: Seq<u8>,
    author: Seq<char>,
    from: Timestamp,
    until: Timestamp,
) -> Result<Seq<EnvelopeView>, ErrorView> {
    public_envelopes(ledger, me, ledger.window(author, from, until, LinkTag::Expression))
}

/// A lookup on the model: nothing where nothing is found, the envelope
/// where a public expression is, an error where something else is.
pub open spec fn found(ledger: LedgerView, me: Seq<u8>, address: Seq<u8>) -> Result<
    Option<EnvelopeView>,
    ErrorView,
> {
    match ledger.fetch(me, address) {
        None => Ok(None),
        Some(record) => match record.entry {
            EntryView::Public(expression) => Ok(
                Some(envelope(expression, record.address, record.created_at, ledger.module, me)),
            ),
            _ => Err(ErrorView::RequestError(not_public())),
        },
    }
}

/// A delivery on the model: the sender's marker is committed for `me`
/// unless `me` has it already, the message is committed for `me`, and a
/// link of the inbox leads from the marker to the message.
pub open spec fn received(ledger: LedgerView, me: Seq<u8>, incoming: ExpressionView) -> LedgerView {
    let (named, marker) = ledger.hash(EntryView::Marker(incoming.author));
    let anchored = if named.fetch(me, marker) is Some {
        named
    } else {
        named.commit(me, EntryView::Marker(incoming.author)).0
    };
    let (stored, target) = anchored.commit(me, EntryView::Private(incoming));
    stored.link(marker, target, LinkTag::Inbox)
}

/// A private send on the model: refused where the peer cannot be reached
/// or has not opened its inbox, delivered otherwise. The sender's own
/// records stay as they were.
pub open spec fn sent(ledger: LedgerView, me: Seq<u8>, to: Seq<u8>, content: CreateView) -> (
    LedgerView,
    Result<ExpressionView, ErrorView>,
) {
    match expression_of(content) {
        None => (ledger, Err(ErrorView::RequestError(malformed()))),
        Some(expression) => {
            if ledger.offline.contains(to) {
                (ledger, Err(ErrorView::NetworkUnreachable))
            } else if !ledger.open_inboxes.contains(to) {
                (ledger, Err(ErrorView::Unauthorized))
            } else {
                (received(ledger, to, expression), Ok(expression))
            }
        },
    }
}

/// The inbox on the model: of one sender, the envelopes of what the links
/// of the sender's marker lead to; of all, the envelopes of the private
/// expressions that `me` committed.
pub open spec fn inbox_of(ledger: LedgerView, me: Seq<u8>, from: Option<Seq<char>>) -> (
    LedgerView,
    Result<Seq<EnvelopeView>, ErrorView>,
) {
    match from {
        Some(sender) => {
            let (named, marker) = ledger.hash(EntryView::Marker(sender));
            (named, private_envelopes(named, me, named.targets(marker, LinkTag::Inbox)))
        },
        None => (
            ledger,
            local_envelopes(ledger.own(me, EntryKind::PrivateExpression), ledger.module, me),
        ),
    }
}

/// The result of an operation as its outcome: what came out well goes under
/// the outcome that `wrap` makes of it, an error stays as it is.
pub open spec fn outcome<T>(result: Result<T, ErrorView>, wrap: spec_fn(T) -> OutcomeView) -> Result<
    OutcomeView,
    ErrorView,
> {
    match result {
        Ok(value) => Ok(wrap(value)),
        Err(e) => Err(e),
    }
}

/// Running the publishing machine on the model publishes.
pub proof fn lemma_publish_runs(ledger: LedgerView, me: Seq<u8>, content: CreateView, hops: nat)
    ensures
        run(ledger, me, publish_start(content), hops) == (
            published(ledger, me, content).0,
            outcome(published(ledger, me, content).1, |sealed: EnvelopeView| OutcomeView::Created(sealed)),
        ),
{
    reveal_with_fuel(run, 6);
}

/// Running the lookup machine on the model looks up, and changes nothing.
pub proof fn lemma_lookup_runs(ledger: LedgerView, me: Seq<u8>, address: Seq<u8>, hops: nat)
    ensures
        run(ledger, me, lookup_start(address), hops) == (
            ledger,
            outcome(found(ledger, me, address), |sealed: Option<EnvelopeView>| OutcomeView::Found(sealed)),
        ),
{
    reveal_with_fuel(run, 4);
}

/// One request of a run: the substrate acts, the operation moves on.
pub proof fn lemma_run_step(
    ledger: LedgerView,
    me: Seq<u8>,
    flow: FlowView,
    action: ActionView,
    hops: nat,
)
    ensures
        run(ledger, me, StepView::Ask(flow, action), hops) == run(
            ledger.act(me, action, hops).0,
            me,
            next(flow, ledger.act(me, action, hops).1),
            hops,
        ),
{
    lemma_progress(flow, action, ledger.act(me, action, hops).1);
}

/// Running the receiving machine on the model receives, and never fails.
pub proof fn lemma_receive_runs(ledger: LedgerView, me: Seq<u8>, incoming: ExpressionView, hops: nat)
    ensures
        run(ledger, me, receive_start(incoming), hops) == (
            received(ledger, me, incoming),
            Ok::<OutcomeView, ErrorView>(OutcomeView::Received),
        ),
{
    let anchor = EntryView::Marker(incoming.author);
    let message = EntryView::Private(incoming);
    let (named, marker) = ledger.hash(anchor);
    lemma_run_step(ledger, me, FlowView::Hashing { incoming }, ActionView::Hash { entry: anchor }, hops);
    lemma_run_step(
        named,
        me,
        FlowView::Probing { incoming, marker },
        ActionView::Get { address: marker },
        hops,
    );
    let anchored = if named.fetch(me, marker) is Some {
        named
    } else {
        named.commit(me, anchor).0
    };
    if named.fetch(me, marker) is None {
        lemma_run_step(
            named,
            me,
            FlowView::Anchoring { incoming, marker },
            ActionView::Commit { entry: anchor },
            hops,
        );
    }
    lemma_run_step(
        anchored,
        me,
        FlowView::Storing { marker },
        ActionView::Commit { entry: message },
        hops,
    );
    let (stored, target) = anchored.commit(me, message);
    lemma_run_step(
        stored,
        me,
        FlowView::Linking,
        ActionView::Link { base: marker, target, tag: LinkTag::Inbox },
        hops,
    );
}

proof fn lemma_page_runs(
    ledger: LedgerView,
    me: Seq<u8>,
    pending: Seq<Seq<u8>>,
    done: Seq<EnvelopeView>,
    hops: nat,
)
    ensures
        run(ledger, me, page_continue(pending, done), hops) == (
            ledger,
            outcome(
                public_envelopes(ledger, me, pending),
                |rest: Seq<EnvelopeView>| OutcomeView::Authored(done + rest),
            ),
        ),
    decreases pending.len(),
{
    if pending.len() == 0 {
        assert(done + Seq::<EnvelopeView>::empty() =~= done);
    } else {
        let rest = pending.drop_first();
        lemma_run_step(
            ledger,
            me,
            FlowView::PageFetching { pending: rest, done },
            ActionView::Get { address: pending[0] },
            hops,
        );
        match ledger.fetch(me, pending[0]) {
            Some(record) => match record.entry {
                EntryView::Public(expression) => {
                    let sealed = envelope(
                        expression,
                        record.address,
                        record.created_at,
                        ledger.module,
                        me,
                    );
                    lemma_run_step(
                        ledger,
                        me,
                        FlowView::PageSealing {
                            pending: rest,
                            done,
                            expression,
                            address: record.address,
                            created_at: record.created_at,
                        },
                        ActionView::Provenance,
                        hops,
                    );
                    lemma_page_runs(ledger, me, rest, done.push(sealed), hops);
                    match public_envelopes(ledger, me, rest) {
                        Ok(tail) => {
                            assert(done.push(sealed) + tail =~= done + (seq![sealed] + tail));
                        },
                        Err(_) => {},
                    }
                },
                _ => {},
            },
            None => {},
        }
    }
}

proof fn lemma_inbox_page_runs(
    ledger: LedgerView,
    me: Seq<u8>,
    pending: Seq<Seq<u8>>,
    done: Seq<EnvelopeView>,
    hops: nat,
)
    ensures
        run(ledger, me, inbox_continue(pending, done), hops) == (
            ledger,
            outcome(
                private_envelopes(ledger, me, pending),
                |rest: Seq<EnvelopeView>| OutcomeView::Inbox(done + rest),
            ),
        ),
    decreases pending.len(),
{
    if pending.len() == 0 {
        assert(done + Seq::<EnvelopeView>::empty() =~= done);
    } else {
        let rest = pending.drop_first();
        lemma_run_step(
            ledger,
            me,
            FlowView::InboxFetching { pending: rest, done },
            ActionView::Get { address: pending[0] },
            hops,
        );
        match ledger.fetch(me, pending[0]) {
            Some(record) => match record.entry {
                EntryView::Private(expression) => {
                    let sealed = envelope(
                        expression,
                        record.address,
                        record.created_at,
                        ledger.module,
                        me,
                    );
                    lemma_run_step(
                        ledger,
                        me,
                        FlowView::InboxSealing {
                            pending: rest,
                            done,
                            expression,
                            address: record.address,
                            created_at: record.created_at,
                        },
                        ActionView::Provenance,
                        hops,
                    );
                    lemma_inbox_page_runs(ledger, me, rest, done.push(sealed), hops);
                    match private_envelopes(ledger, me, rest) {
                        Ok(tail) => {
                            assert(done.push(sealed) + tail =~= done + (seq![sealed] + tail));
                        },
                        Err(_) => {},
                    }
                },
                _ => {},
            },
            None => {},
        }
    }
}

proof fn lemma_scan_runs(
    ledger: LedgerView,
    me: Seq<u8>,
    pending: Seq<RecordView>,
    done: Seq<EnvelopeView>,
    hops: nat,
)
    ensures
        run(ledger, me, scan_continue(pending, done), hops) == (
            ledger,
            outcome(
                local_envelopes(pending, ledger.module, me),
                |rest: Seq<EnvelopeView>| OutcomeView::Inbox(done + rest),
            ),
        ),
    decreases pending.len(),
{
    if pending.len() == 0 {
        assert(done + Seq::<EnvelopeView>::empty() =~= done);
    } else {
        let rest = pending.drop_first();
        match pending[0].entry {
            EntryView::Private(expression) => {
                let sealed = envelope(
                    expression,
                    pending[0].address,
                    pending[0].created_at,
                    ledger.module,
                    me,
                );
                lemma_run_step(
                    ledger,
                    me,
                    FlowView::ScanSealing {
                        pending: rest,
                        done,
                        expression,
                        address: pending[0].address,
                        created_at: pending[0].created_at,
                    },
                    ActionView::Provenance,
                    hops,
                );
                lemma_scan_runs(ledger, me, rest, done.push(sealed), hops);
                match local_envelopes(rest, ledger.module, me) {
                    Ok(tail) => {
                        assert(done.push(sealed) + tail =~= done + (seq![sealed] + tail));
                    },
                    Err(_) => {},
                }
            },
            _ => {},
        }
    }
}

/// Running the machine of an author's page on the model gives the page,
/// and changes nothing.
pub proof fn lemma_author_runs(
    ledger: LedgerView,
    me: Seq<u8>,
    author: Seq<char>,
    from: Timestamp,
    until: Timestamp,
    hops: nat,
)
    ensures
        run(ledger, me, author_start(author, from, until), hops) == (
            ledger,
            outcome(
                authored(ledger, me, author, from, until),
                |list: Seq<EnvelopeView>| OutcomeView::Authored(list),
            ),
        ),
{
    let addresses = ledger.window(author, from, until, LinkTag::Expression);
    lemma_run_step(
        ledger,
        me,
        FlowView::Querying,
        ActionView::QueryByTime { anchor: author, from, until, tag: LinkTag::Expression },
        hops,
    );
    lemma_page_runs(ledger, me, addresses, Seq::empty(), hops);
    match public_envelopes(ledger, me, addresses) {
        Ok(list) => {
            assert(Seq::<EnvelopeView>::empty() + list =~= list);
        },
        Err(_) => {},
    }
}

/// Running the inbox machine on the model gives the inbox.
pub proof fn lemma_inbox_runs(ledger: LedgerView, me: Seq<u8>, from: Option<Seq<char>>, hops: nat)
    ensures
        run(ledger, me, inbox_start(from), hops) == (
            inbox_of(ledger, me, from).0,
            outcome(inbox_of(ledger, me, from).1, |list: Seq<EnvelopeView>| OutcomeView::Inbox(list)),
        ),
{
    match from {
        Some(sender) => {
            let anchor = EntryView::Marker(sender);
            let (named, marker) = ledger.hash(anchor);
            let addresses = named.targets(marker, LinkTag::Inbox);
            lemma_run_step(
                ledger,
                me,
                FlowView::InboxHashing,
                ActionView::Hash { entry: anchor },
                hops,
            );
            lemma_run_step(
                named,
                me,
                FlowView::InboxListing,
                ActionView::LinksOf { base: marker, tag: LinkTag::Inbox },
                hops,
            );
            lemma_inbox_page_runs(named, me, addresses, Seq::empty(), hops);
            match private_envelopes(named, me, addresses) {
                Ok(list) => {
                    assert(Seq::<EnvelopeView>::empty() + list =~= list);
                },
                Err(_) => {},
            }
        },
        None => {
            let records = ledger.own(me, EntryKind::PrivateExpression);
            lemma_run_step(
                ledger,
                me,
                FlowView::Scanning,
                ActionView::QueryLocal { kind: EntryKind::PrivateExpression },
                hops,
            );
            lemma_scan_runs(ledger, me, records, Seq::empty(), hops);
            match local_envelopes(records, ledger.module, me) {
                Ok(list) => {
                    assert(Seq::<EnvelopeView>::empty() + list =~= list);
                },
                Err(_) => {},
            }
        },
    }
}

/// Running the sending machine on the model sends, where one hop is
/// allowed.
pub proof fn lemma_send_runs(ledger: LedgerView, me: Seq<u8>, to: Seq<u8>, content: CreateView)
    ensures
        run(ledger, me, send_start(to, content), 1) == (
            sent(ledger, me, to, content).0,
            outcome(sent(ledger, me, to, content).1, |message: ExpressionView| OutcomeView::Sent(message)),
        ),
{
    match expression_of(content) {
        Some(expression) => {
            lemma_run_step(
                ledger,
                me,
                FlowView::Sending { expression },
                ActionView::CallRemote { to, payload: expression },
                1,
            );
            lemma_receive_runs(ledger, to, expression, 0);
        },
        None => {},
    }
}

} // verus!
