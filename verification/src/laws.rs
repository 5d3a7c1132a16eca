//! What the operations promise on a well-formed substrate.

use crate::entry::{EntryKind, EntryView, ExpressionView};
use crate::errors::ErrorView;
use crate::flow::{
    failure, fails, lemma_progress, next, step_load, step_rank, FlowView, OutcomeView, StepView,
};
use crate::inputs::{expression_of, payload_members, CreateView};
use crate::ledger::{
    in_window, link_targets, position, run, slot, targets_of, visible, window_of, LedgerView,
    LinkView, TimeLinkView,
};
use crate::outputs::{envelope, EnvelopeView};
use crate::service::{
    authored, found, inbox_of, lemma_receive_runs, private_envelopes, published, received,
    sent,
};
use crate::soundness::{
    lemma_address_injective, lemma_commit_wf, lemma_find_is, lemma_find_some,
    lemma_hash_wf, lemma_index_wf, lemma_link_wf, lemma_local_envelopes, lemma_member_value_skips,
    lemma_no_member, lemma_own_records, lemma_position, lemma_public_envelopes,
    lemma_same_address_entry_at, lemma_same_address_same_entry, lemma_same_commits, lemma_slot,
    lemma_window, lemma_window_holds, lemma_without,
};
use crate::substrate::{ActionView, EventView, FaultView, LinkTag};
use crate::time::Timestamp;
use vstd::prelude::*;

verus! {

/// What is published is found. Publishing a payload that decodes succeeds;
/// the envelope holds the expression that the payload stands for, with the
/// publisher as the reading agent; and any agent who then looks up the
/// envelope's address finds that same expression, at that address, with the
/// same commit time. Where the publisher had not committed this content
/// before, the commit time is the clock's. The substrate stays well formed.
pub proof fn lemma_published_is_found(
    ledger: LedgerView,
    me: Seq<u8>,
    reader: Seq<u8>,
    content: CreateView,
)
    requires
        ledger.wf(),
        expression_of(content) is Some,
    ensures
        published(ledger, me, content).0.wf(),
        published(ledger, me, content).1 is Ok,
        ({
            let (after, result) = published(ledger, me, content);
            let expression = expression_of(content).unwrap();
            let sealed = result->Ok_0;
            &&& sealed.expression_data == expression
            &&& sealed.holochain_data.creator == me
            &&& sealed.holochain_data.expression_dna == ledger.module
            &&& sealed.holochain_data.address == ledger.hash(EntryView::Public(expression)).1
            &&& ledger.fetch(me, sealed.holochain_data.address) is None
                ==> sealed.holochain_data.created_at == ledger.clock
            &&& found(after, reader, sealed.holochain_data.address) == Ok::<_, ErrorView>(
                Some(
                    envelope(
                        expression,
                        sealed.holochain_data.address,
                        sealed.holochain_data.created_at,
                        ledger.module,
                        reader,
                    ),
                ),
            )
        }),
{
    let expression = expression_of(content).unwrap();
    let entry = EntryView::Public(expression);
    lemma_commit_wf(ledger, me, entry);
    let (committed, address) = ledger.commit(me, entry);
    lemma_index_wf(committed, me, expression.author, address, LinkTag::Expression);
    let filed = committed.index(me, expression.author, address, LinkTag::Expression).0;
    let at = lemma_find_some(filed.commits, me, address);
    assert forall|k: int| 0 <= k < at implies !(filed.commits[k].record.address == address
        && visible(filed.commits[k], reader)) by {
        if filed.commits[k].record.address == address {
            lemma_same_address_same_entry(filed, k, at);
        }
    }
    lemma_find_is(filed.commits, reader, address, at);
}

/// An author's page is in the order of time and within its window: the
/// envelopes come oldest first by commit time, and each commit time lies in
/// `[from, until]`.
pub proof fn lemma_page_is_chronological(
    ledger: LedgerView,
    me: Seq<u8>,
    author: Seq<char>,
    from: Timestamp,
    until: Timestamp,
)
    requires
        ledger.wf(),
        authored(ledger, me, author, from, until) is Ok,
    ensures
        ({
            let page = authored(ledger, me, author, from, until)->Ok_0;
            &&& forall|i: int|
                0 <= i < page.len() ==> (#[trigger] page[i]).holochain_data.created_at.within(
                    from,
                    until,
                )
            &&& forall|i: int, j: int|
                0 <= i < j < page.len() ==> (
                #[trigger] page[i]).holochain_data.created_at.at_or_before(
                    (#[trigger] page[j]).holochain_data.created_at,
                )
        }),
{
    let chosen = window_of(ledger.timeline, author, from, until, LinkTag::Expression);
    let addresses = link_targets(chosen);
    let page = authored(ledger, me, author, from, until)->Ok_0;
    lemma_window(ledger.timeline, author, from, until, LinkTag::Expression);
    lemma_public_envelopes(ledger, me, addresses);
    assert forall|i: int| 0 <= i < page.len() implies (#[trigger] page[i]).holochain_data.created_at
        == chosen[i].time by {
        assert(addresses[i] == chosen[i].target);
        let k = lemma_find_some(ledger.commits, me, addresses[i]);
        assert(ledger.timeline.contains(chosen[i]));
        let at = choose|at: int| 0 <= at < ledger.timeline.len() && ledger.timeline[at] == chosen[i];
        assert(ledger.timeline[at].target == ledger.commits[k].record.address);
    }
    assert forall|i: int| 0 <= i < page.len() implies (
    #[trigger] page[i]).holochain_data.created_at.within(from, until) by {
        assert(in_window(chosen[i], author, from, until, LinkTag::Expression));
    }
    assert forall|i: int, j: int| 0 <= i < j < page.len() implies (
    #[trigger] page[i]).holochain_data.created_at.at_or_before(
        (#[trigger] page[j]).holochain_data.created_at,
    ) by {
        assert(chosen[i].time.at_or_before(chosen[j].time));
    }
}

/// A window that holds nothing gives an empty page, not an error.
pub proof fn lemma_empty_window_is_empty_page(
    ledger: LedgerView,
    me: Seq<u8>,
    author: Seq<char>,
    from: Timestamp,
    until: Timestamp,
)
    requires
        ledger.window(author, from, until, LinkTag::Expression).len() == 0,
    ensures
        authored(ledger, me, author, from, until) == Ok::<_, ErrorView>(Seq::<EnvelopeView>::empty()),
{
}

/// Whatever the substrate and whatever the operation: a fault ends it at
/// once, with the error of the fault's kind. Nothing is asked again.
pub proof fn lemma_faults_end_operations(flow: FlowView, fault: FaultView)
    ensures
        next(flow, EventView::Failed(fault)) == fails(failure(fault)),
        fault is Substrate ==> failure(fault) is InternalError,
{
}

/// Whatever the substrate: where the time index answers with no address,
/// the page is empty and no error; nothing more is asked.
pub proof fn lemma_no_address_is_empty_page()
    ensures
        next(FlowView::Querying, EventView::Addresses(Seq::empty())) == StepView::Done(
            Ok(OutcomeView::Authored(Seq::empty())),
        ),
{
}

/// Whatever the substrate: a lookup that finds nothing ends with nothing,
/// and no error.
pub proof fn lemma_nothing_found_is_no_error()
    ensures
        next(FlowView::Looking, EventView::Record(None)) == StepView::Done(
            Ok(OutcomeView::Found(None)),
        ),
{
}

/// Whatever the substrate: a send that the peer's side refuses for want of
/// the capability ends as unauthorized, one that cannot reach the peer as
/// unreachable, and any other remote fault with the remote's own words.
pub proof fn lemma_send_failures_keep_their_kind(expression: ExpressionView, detail: Seq<char>)
    ensures
        next(FlowView::Sending { expression }, EventView::Failed(FaultView::Unauthorized))
            == fails(ErrorView::Unauthorized),
        next(FlowView::Sending { expression }, EventView::Failed(FaultView::NetworkUnreachable))
            == fails(ErrorView::NetworkUnreachable),
        next(FlowView::Sending { expression }, EventView::Failed(FaultView::Remote(detail)))
            == fails(ErrorView::Remote(detail)),
        ErrorView::Unauthorized.message() == "recipient is not accepting private messages"@,
        ErrorView::NetworkUnreachable.message() == "recipient is currently unreachable"@,
        ErrorView::Remote(detail).message() == detail,
{
}

/// On the model: a send to a peer that can be reached but has not opened
/// its inbox fails as unauthorized and changes nothing.
pub proof fn lemma_closed_inbox_refuses(
    ledger: LedgerView,
    me: Seq<u8>,
    to: Seq<u8>,
    content: CreateView,
)
    requires
        expression_of(content) is Some,
        !ledger.offline.contains(to),
        !ledger.open_inboxes.contains(to),
    ensures
        sent(ledger, me, to, content) == (
            ledger,
            Err::<ExpressionView, _>(ErrorView::Unauthorized),
        ),
{
}

/// On the model: a send to a peer that took its grants back fails as
/// unauthorized, however often the peer had granted before.
pub proof fn lemma_revoked_inbox_refuses(
    ledger: LedgerView,
    me: Seq<u8>,
    to: Seq<u8>,
    content: CreateView,
)
    requires
        expression_of(content) is Some,
        !ledger.offline.contains(to),
    ensures
        sent(ledger.revoking(to), me, to, content) == (
            ledger.revoking(to),
            Err::<ExpressionView, _>(ErrorView::Unauthorized),
        ),
{
    lemma_without(ledger.open_inboxes, to);
}

/// A delivery keeps the substrate well formed. The sender's marker is then
/// there for the receiver, at the address of its content; the message is
/// there at the address of its own; and one more link of the inbox leads
/// from the one to the other.
pub proof fn lemma_received(ledger: LedgerView, me: Seq<u8>, incoming: ExpressionView)
    requires
        ledger.wf(),
    ensures
        received(ledger, me, incoming).wf(),
        ({
            let after = received(ledger, me, incoming);
            let marker = ledger.hash(EntryView::Marker(incoming.author)).1;
            let target = after.hash(EntryView::Private(incoming)).1;
            &&& after.hash(EntryView::Marker(incoming.author)) == (after, marker)
            &&& after.hash(EntryView::Private(incoming)).0 == after
            &&& after.fetch(me, marker) is Some
            &&& after.fetch(me, marker).unwrap().entry == EntryView::Marker(incoming.author)
            &&& after.fetch(me, target) is Some
            &&& after.fetch(me, target).unwrap().entry == EntryView::Private(incoming)
            &&& after.fetch(me, target).unwrap().address == target
            &&& after.links == ledger.links.push(
                LinkView { base: marker, target, tag: LinkTag::Inbox },
            )
            &&& ledger.fetch(me, marker) is Some ==> after.commits == ledger.commit(
                me,
                EntryView::Private(incoming),
            ).0.commits
            &&& forall|other: EntryView|
                position(ledger.contents, other) < ledger.contents.len() ==> position(
                    after.contents,
                    other,
                ) == position(ledger.contents, other)
        }),
{
    let anchor = EntryView::Marker(incoming.author);
    let message = EntryView::Private(incoming);
    lemma_hash_wf(ledger, anchor);
    let (named, marker) = ledger.hash(anchor);
    lemma_commit_wf(named, me, anchor);
    let anchored = if named.fetch(me, marker) is Some {
        named
    } else {
        named.commit(me, anchor).0
    };
    assert(anchored.wf());
    assert(anchored.fetch(me, marker) is Some);
    lemma_position(named.contents, anchor);
    lemma_hash_wf(anchored, anchor);
    assert(position(anchored.contents, anchor) < anchored.contents.len());
    lemma_commit_wf(anchored, me, message);
    let (stored, target) = anchored.commit(me, message);
    lemma_hash_wf(anchored, message);
    let got = lemma_find_some(anchored.commits, me, marker);
    lemma_same_address_entry_at(anchored, got, anchor);
    lemma_link_wf(stored, marker, target, LinkTag::Inbox);
    let after = stored.link(marker, target, LinkTag::Inbox);
    assert(after == received(ledger, me, incoming));
    assert(anchored.commit(me, message).0.fetch(me, marker) == anchored.fetch(me, marker));
    assert(after.fetch(me, marker) == stored.fetch(me, marker));
    assert(after.fetch(me, target) == stored.fetch(me, target));
    lemma_hash_wf(stored, message);
    lemma_hash_wf(stored, anchor);
    if ledger.fetch(me, marker) is Some {
        lemma_hash_wf(ledger, message);
        lemma_commit_wf(ledger, me, message);
        lemma_same_commits(ledger, named, me, message);
    }
}

/// Two deliveries from one sender, one after the other: both hang from the
/// same marker, which the second finds and does not commit again; each adds
/// one link of the inbox; and the two links lead to one address exactly
/// where the two messages are the same.
pub proof fn lemma_two_deliveries(
    ledger: LedgerView,
    me: Seq<u8>,
    first: ExpressionView,
    second: ExpressionView,
)
    requires
        ledger.wf(),
        first.author == second.author,
    ensures
        ({
            let once = received(ledger, me, first);
            let twice = received(once, me, second);
            let marker = ledger.hash(EntryView::Marker(first.author)).1;
            let a = once.hash(EntryView::Private(first)).1;
            let b = twice.hash(EntryView::Private(second)).1;
            &&& twice.wf()
            &&& once.hash(EntryView::Marker(second.author)).1 == marker
            &&& twice.commits == once.commit(me, EntryView::Private(second)).0.commits
            &&& twice.links == ledger.links.push(
                LinkView { base: marker, target: a, tag: LinkTag::Inbox },
            ).push(LinkView { base: marker, target: b, tag: LinkTag::Inbox })
            &&& twice.targets(marker, LinkTag::Inbox) == ledger.targets(
                marker,
                LinkTag::Inbox,
            ).push(a).push(b)
            &&& (a == b <==> first == second)
        }),
{
    let once = received(ledger, me, first);
    let twice = received(once, me, second);
    let marker = ledger.hash(EntryView::Marker(first.author)).1;
    let a = once.hash(EntryView::Private(first)).1;
    let b = twice.hash(EntryView::Private(second)).1;
    lemma_received(ledger, me, first);
    lemma_received(once, me, second);
    lemma_hash_wf(once, EntryView::Private(first));
    lemma_hash_wf(twice, EntryView::Private(first));
    lemma_hash_wf(twice, EntryView::Private(second));
    let one = ledger.links.push(LinkView { base: marker, target: a, tag: LinkTag::Inbox });
    let two = one.push(LinkView { base: marker, target: b, tag: LinkTag::Inbox });
    assert(one.drop_last() =~= ledger.links);
    assert(two.drop_last() =~= one);
    assert(targets_of(one, marker, LinkTag::Inbox) == targets_of(
        ledger.links,
        marker,
        LinkTag::Inbox,
    ).push(a));
    assert(targets_of(two, marker, LinkTag::Inbox) == targets_of(one, marker, LinkTag::Inbox).push(
        b,
    ));
    if a == b {
        lemma_address_injective(
            position(twice.contents, EntryView::Private(first)),
            position(twice.contents, EntryView::Private(second)),
        );
        lemma_position(twice.contents, EntryView::Private(first));
        lemma_position(twice.contents, EntryView::Private(second));
    }
}

/// Whatever is asked of it, a well-formed substrate stays well formed.
pub proof fn lemma_act_wf(ledger: LedgerView, me: Seq<u8>, action: ActionView, hops: nat)
    requires
        ledger.wf(),
    ensures
        ledger.act(me, action, hops).0.wf(),
{
    match action {
        ActionView::Commit { entry } => {
            lemma_commit_wf(ledger, me, entry);
        },
        ActionView::Hash { entry } => {
            lemma_hash_wf(ledger, entry);
        },
        ActionView::IndexByTime { anchor, target, tag } => {
            lemma_index_wf(ledger, me, anchor, target, tag);
        },
        ActionView::Link { base, target, tag } => {
            lemma_link_wf(ledger, base, target, tag);
        },
        ActionView::CallRemote { to, payload } => {
            if hops > 0 && !ledger.offline.contains(to) && ledger.open_inboxes.contains(to) {
                lemma_receive_runs(ledger, to, payload, (hops - 1) as nat);
                lemma_received(ledger, to, payload);
            }
        },
        _ => {},
    }
}

/// Whatever operation runs on it, however it ends, a well-formed substrate
/// stays well formed.
pub proof fn lemma_run_wf(ledger: LedgerView, me: Seq<u8>, step: StepView, hops: nat)
    requires
        ledger.wf(),
    ensures
        run(ledger, me, step, hops).0.wf(),
    decreases step_rank(step), step_load(step),
{
    match step {
        StepView::Done(_) => {},
        StepView::Ask(flow, action) => {
            lemma_act_wf(ledger, me, action, hops);
            let (after, event) = ledger.act(me, action, hops);
            lemma_progress(flow, action, event);
            lemma_run_wf(after, me, next(flow, event), hops);
        },
    }
}

/// What is published is on its author's list: every window that holds the
/// envelope's commit time lists the envelope's address under the
/// expression's author.
pub proof fn lemma_published_is_listed(
    ledger: LedgerView,
    me: Seq<u8>,
    content: CreateView,
    from: Timestamp,
    until: Timestamp,
)
    requires
        ledger.wf(),
        expression_of(content) is Some,
        (published(ledger, me, content).1->Ok_0).holochain_data.created_at.within(from, until),
    ensures
        published(ledger, me, content).0.window(
            expression_of(content).unwrap().author,
            from,
            until,
            LinkTag::Expression,
        ).contains((published(ledger, me, content).1->Ok_0).holochain_data.address),
{
    let expression = expression_of(content).unwrap();
    let entry = EntryView::Public(expression);
    lemma_published_is_found(ledger, me, me, content);
    lemma_commit_wf(ledger, me, entry);
    let (committed, address) = ledger.commit(me, entry);
    lemma_index_wf(committed, me, expression.author, address, LinkTag::Expression);
    let filed = committed.index(me, expression.author, address, LinkTag::Expression).0;
    let record = committed.fetch(me, address).unwrap();
    let place = slot(committed.timeline, record.created_at) as int;
    lemma_slot(committed.timeline, record.created_at);
    assert(filed.timeline[place] == TimeLinkView {
        anchor: expression.author,
        target: address,
        tag: LinkTag::Expression,
        time: record.created_at,
    });
    lemma_window_holds(filed.timeline, expression.author, from, until, LinkTag::Expression, place);
    let chosen = window_of(filed.timeline, expression.author, from, until, LinkTag::Expression);
    let found = choose|found: int| 0 <= found < chosen.len() && chosen[found] == filed.timeline[place];
    assert(link_targets(chosen)[found] == address);
}

/// What is delivered is in the inbox. Where the sender's marker had no
/// links before, the receiver's inbox of that sender holds exactly the
/// message, in an envelope that names the receiver as the reading agent.
pub proof fn lemma_delivered_is_in_inbox(ledger: LedgerView, me: Seq<u8>, incoming: ExpressionView)
    requires
        ledger.wf(),
        ledger.targets(
            ledger.hash(EntryView::Marker(incoming.author)).1,
            LinkTag::Inbox,
        ).len() == 0,
    ensures
        ({
            let after = received(ledger, me, incoming);
            let target = after.hash(EntryView::Private(incoming)).1;
            inbox_of(after, me, Some(incoming.author)) == (
                after,
                Ok::<_, ErrorView>(
                    seq![
                        envelope(
                            incoming,
                            target,
                            after.fetch(me, target).unwrap().created_at,
                            ledger.module,
                            me,
                        ),
                    ],
                ),
            )
        }),
{
    let after = received(ledger, me, incoming);
    let marker = ledger.hash(EntryView::Marker(incoming.author)).1;
    let target = after.hash(EntryView::Private(incoming)).1;
    lemma_received(ledger, me, incoming);
    let link = LinkView { base: marker, target, tag: LinkTag::Inbox };
    assert(ledger.links.push(link).drop_last() =~= ledger.links);
    assert(targets_of(ledger.links, marker, LinkTag::Inbox) =~= Seq::empty());
    let listed = after.targets(marker, LinkTag::Inbox);
    assert(listed =~= seq![target]);
    assert(listed.drop_first() =~= Seq::<Seq<u8>>::empty());
    assert(private_envelopes(after, me, listed.drop_first()) == Ok::<_, ErrorView>(
        Seq::<EnvelopeView>::empty(),
    ));
    let sealed = envelope(
        incoming,
        target,
        after.fetch(me, target).unwrap().created_at,
        after.module,
        me,
    );
    assert(seq![sealed] + Seq::<EnvelopeView>::empty() =~= seq![sealed]);
}

/// The whole inbox never fails: it holds one envelope for each private
/// expression that the agent committed, and changes nothing.
pub proof fn lemma_whole_inbox_never_fails(ledger: LedgerView, me: Seq<u8>)
    ensures
        inbox_of(ledger, me, None).0 == ledger,
        inbox_of(ledger, me, None).1 is Ok,
        (inbox_of(ledger, me, None).1->Ok_0).len() == ledger.own(
            me,
            EntryKind::PrivateExpression,
        ).len(),
{
    let records = ledger.own(me, EntryKind::PrivateExpression);
    lemma_own_records(ledger.commits, me, EntryKind::PrivateExpression);
    assert forall|i: int| 0 <= i < records.len() implies (#[trigger] records[i]).entry is Private by {
        assert(records[i].entry.kind() == Some(EntryKind::PrivateExpression));
    }
    lemma_local_envelopes(records, ledger.module, me);
}

/// Addresses go by content: naming one entry twice gives one address, and
/// two entries share an address only where they are the same entry.
pub proof fn lemma_addresses_go_by_content(ledger: LedgerView, one: EntryView, other: EntryView)
    requires
        ledger.wf(),
    ensures
        ledger.hash(one).0.hash(one) == ledger.hash(one),
        (ledger.hash(one).1 == ledger.hash(one).0.hash(other).1) <==> one == other,
{
    let (named, a) = ledger.hash(one);
    lemma_hash_wf(ledger, one);
    lemma_hash_wf(named, other);
    let (both, b) = named.hash(other);
    if a == b {
        assert(position(both.contents, one) == position(named.contents, one));
        lemma_address_injective(position(both.contents, one), position(both.contents, other));
        lemma_position(both.contents, one);
        lemma_position(both.contents, other);
    }
}

/// A payload tolerates what it does not know: a member that is neither
/// `background` nor `body`, wherever it stands among the others, does not
/// change what the payload's two members are.
pub proof fn lemma_extra_member_is_passed_over(
    members: Seq<(Seq<char>, Seq<char>)>,
    extra: (Seq<char>, Seq<char>),
    at: int,
)
    requires
        0 <= at <= members.len(),
        extra.0 != "background"@,
        extra.0 != "body"@,
    ensures
        payload_members(members.insert(at, extra)) == payload_members(members),
{
    lemma_member_value_skips(members, extra, at, "background"@);
    lemma_member_value_skips(members, extra, at, "body"@);
}

/// A payload needs both of its members: where no member is called `body`,
/// or none `background`, there is no payload.
pub proof fn lemma_missing_member_is_refused(members: Seq<(Seq<char>, Seq<char>)>, key: Seq<char>)
    requires
        key == "background"@ || key == "body"@,
        forall|i: int| 0 <= i < members.len() ==> (#[trigger] members[i]).0 != key,
    ensures
        payload_members(members) is None,
{
    lemma_no_member(members, key);
}

} // verus!
