//! The substrate in memory: the model of `ledger` made executable, for tests
//! and for running the operations without a host.

use crate::address::Address;
use crate::entry::{Entry, EntryKind, Visibility};
use crate::errors::{list_result_of, optional_result_of, result_of, ExpressionError};
use crate::flow::{lemma_progress, step_load, step_rank, Outcome, Step};
use crate::ledger::{
    find, link_targets, own_records, position, run, slot, targets_of, window_of, without,
    CommitView, LedgerView, LinkView, TimeLinkView,
};
use crate::entry::PrivateShortFormExpression;
use crate::inputs::CreateExpression;
use crate::methods::ExpressionDNA;
use crate::outputs::{ExpressionResponse, PrivateExpressionResponse};
use crate::inputs::expression_of;
use crate::laws::{
    lemma_published_is_found, lemma_received, lemma_run_wf, lemma_whole_inbox_never_fails,
};
use crate::soundness::{
    lemma_commit_wf, lemma_genesis_wf, lemma_hash_wf, lemma_index_wf, lemma_link_wf,
    lemma_settings_wf,
};
use crate::service::{
    authored, found, inbox_of, lemma_author_runs, lemma_inbox_runs, lemma_lookup_runs,
    lemma_publish_runs, lemma_receive_runs, lemma_send_runs, published, received, sent,
};
use crate::substrate::{Action, Event, Fault, LinkTag, Record};
use crate::time::Timestamp;
use crate::views::views;
use crate::zome::{Access, AccessPolicy, RECEIVE_FUNCTION};
use vstd::bytes::u64_to_le_bytes;
use vstd::prelude::*;

verus! {

/// One commit: the record and the agent who committed it.
pub struct Commit {
    pub record: Record,
    pub owner: Address,
}

impl View for Commit {
    type V = CommitView;

    open spec fn view(&self) -> CommitView {
        CommitView { record: self.record@, owner: self.owner@ }
    }
}

/// One plain link.
pub struct Link {
    pub base: Address,
    pub target: Address,
    pub tag: LinkTag,
}

impl View for Link {
    type V = LinkView;

    open spec fn view(&self) -> LinkView {
        LinkView { base: self.base@, target: self.target@, tag: self.tag }
    }
}

/// One link of the time index.
pub struct TimeLink {
    pub anchor: String,
    pub target: Address,
    pub tag: LinkTag,
    pub time: Timestamp,
}

impl View for TimeLink {
    type V = TimeLinkView;

    open spec fn view(&self) -> TimeLinkView {
        TimeLinkView {
            anchor: self.anchor@,
            target: self.target@,
            tag: self.tag,
            time: self.time,
        }
    }
}

/// A substrate held in memory, shared by all the agents that act on it.
pub struct Ledger {
    clock: Timestamp,
    module: String,
    contents: Vec<Entry>,
    commits: Vec<Commit>,
    links: Vec<Link>,
    timeline: Vec<TimeLink>,
    open_inboxes: Vec<Address>,
    offline: Vec<Address>,
}

impl View for Ledger {
    type V = LedgerView;

    closed spec fn view(&self) -> LedgerView {
        LedgerView {
            clock: self.clock,
            module: self.module@,
            contents: views(self.contents@),
            commits: views(self.commits@),
            links: views(self.links@),
            timeline: views(self.timeline@),
            open_inboxes: views(self.open_inboxes@),
            offline: views(self.offline@),
        }
    }
}

/// Whether an address is among those of a list.
pub fn holds(list: &Vec<Address>, address: &Address) -> (r: bool)
    ensures
        r == views(list@).contains(address@),
{
    let mut i: usize = 0;
    while i < list.len()
        invariant
            i <= list.len(),
            forall|k: int| 0 <= k < i ==> views(list@)[k] != address@,
        decreases list.len() - i,
    {
        if list[i].same(address) {
            assert(views(list@)[i as int] == address@);
            return true;
        }
        i += 1;
    }
    false
}

impl Ledger {
    /// A substrate that holds nothing yet, for the module `module`.
    pub fn new(module: String) -> (ledger: Ledger)
        ensures
            ledger@ == LedgerView::genesis(module@),
            ledger@.wf(),
    {
        proof {
            lemma_genesis_wf(module@);
        }
        let ledger = Ledger {
            clock: Timestamp { secs: 0, nanos: 0 },
            module,
            contents: Vec::new(),
            commits: Vec::new(),
            links: Vec::new(),
            timeline: Vec::new(),
            open_inboxes: Vec::new(),
            offline: Vec::new(),
        };
        assert(ledger@.contents =~= Seq::empty());
        assert(ledger@.commits =~= Seq::empty());
        assert(ledger@.links =~= Seq::empty());
        assert(ledger@.timeline =~= Seq::empty());
        assert(ledger@.open_inboxes =~= Seq::empty());
        assert(ledger@.offline =~= Seq::empty());
        ledger
    }

    /// Sets the clock: commits from now on are recorded at `now`.
    pub fn set_clock(&mut self, now: Timestamp)
        ensures
            final(self)@ == old(self)@.at(now),
            old(self)@.wf() ==> final(self)@.wf(),
    {
        proof {
            if self@.wf() {
                lemma_settings_wf(self@, now, Seq::empty(), crate::zome::open_inbox());
            }
        }
        self.clock = now;
    }

    /// Installs a grant of `agent`. The grant of the open inbox lets any
    /// peer deliver to `agent` from now on.
    pub fn grant(&mut self, agent: Address, policy: &AccessPolicy)
        ensures
            final(self)@ == old(self)@.granted(agent@, policy@),
            old(self)@.wf() ==> final(self)@.wf(),
    {
        proof {
            if self@.wf() {
                lemma_settings_wf(self@, self@.clock, agent@, policy@);
            }
        }
        let opens = policy.tag.as_str().is_empty() && policy.function == RECEIVE_FUNCTION.to_owned()
            && match policy.access {
            Access::Unrestricted => true,
        };
        proof {
            reveal_strlit("");
            reveal_strlit("recv_private_expression");
            assert(policy@.tag.len() == 0 <==> policy@.tag =~= ""@);
        }
        if opens {
            self.open_inboxes.push(agent);
            assert(final(self)@.open_inboxes =~= old(self)@.open_inboxes.push(agent@));
        }
    }

    /// Takes the grants of `agent` back: no peer can deliver to it until
    /// it grants again.
    pub fn revoke(&mut self, agent: &Address)
        ensures
            final(self)@ == old(self)@.revoking(agent@),
            old(self)@.wf() ==> final(self)@.wf(),
    {
        proof {
            if self@.wf() {
                lemma_settings_wf(self@, self@.clock, agent@, crate::zome::open_inbox());
            }
        }
        let ghost all = views(self.open_inboxes@);
        let mut kept: Vec<Address> = Vec::new();
        let mut i: usize = 0;
        assert(all.take(0) =~= Seq::empty());
        assert(views(kept@) =~= Seq::empty());
        while i < self.open_inboxes.len()
            invariant
                i <= self.open_inboxes.len(),
                all == views(self.open_inboxes@),
                views(kept@) == without(all.take(i as int), agent@),
            decreases self.open_inboxes.len() - i,
        {
            assert(all.take(i + 1).drop_last() =~= all.take(i as int));
            assert(all.take(i + 1).last() == self.open_inboxes[i as int]@);
            if !self.open_inboxes[i].same(agent) {
                let ghost before = kept@;
                let one = self.open_inboxes[i].clone();
                kept.push(one);
                assert(views(kept@) =~= views(before).push(one@));
            }
            i += 1;
        }
        assert(all.take(i as int) =~= all);
        self.open_inboxes = kept;
    }

    /// Makes `agent` unreachable from now on.
    pub fn disconnect(&mut self, agent: Address)
        ensures
            final(self)@ == old(self)@.losing(agent@),
            old(self)@.wf() ==> final(self)@.wf(),
    {
        proof {
            if self@.wf() {
                lemma_settings_wf(self@, self@.clock, agent@, crate::zome::open_inbox());
            }
        }
        self.offline.push(agent);
        assert(final(self)@.offline =~= old(self)@.offline.push(agent@));
    }

    fn locate(&self, entry: &Entry) -> (place: usize)
        ensures
            place == position(self@.contents, entry@),
            place <= self@.contents.len(),
    {
        let ghost all = views(self.contents@);
        let mut i: usize = 0;
        assert(all.skip(0) =~= all);
        while i < self.contents.len()
            invariant
                i <= self.contents.len(),
                all == views(self.contents@),
                position(all, entry@) == i + position(all.skip(i as int), entry@),
            decreases self.contents.len() - i,
        {
            assert(all.skip(i as int)[0] == self.contents[i as int]@);
            if self.contents[i].same(entry) {
                return i;
            }
            assert(all.skip(i as int).drop_first() =~= all.skip(i + 1));
            i += 1;
        }
        assert(all.skip(i as int).len() == 0);
        i
    }

    /// The address of an entry.
    pub fn hash(&mut self, entry: Entry) -> (address: Address)
        ensures
            (final(self)@, address@) == old(self)@.hash(entry@),
            old(self)@.wf() ==> final(self)@.wf(),
    {
        proof {
            if self@.wf() {
                lemma_hash_wf(self@, entry@);
            }
        }
        let place = self.locate(&entry);
        if place == self.contents.len() {
            self.contents.push(entry);
            assert(final(self)@.contents =~= old(self)@.contents.push(entry@));
        }
        assert(place < 0x1_0000_0000_0000_0000);
        Address { bytes: u64_to_le_bytes(place as u64) }
    }

    /// What `me` finds at an address.
    pub fn get(&self, me: &Address, address: &Address) -> (r: Option<Record>)
        ensures
            match r {
                Some(record) => self@.fetch(me@, address@) == Some(record@),
                None => self@.fetch(me@, address@) is None,
            },
    {
        let ghost all = views(self.commits@);
        let mut i: usize = 0;
        assert(all.skip(0) =~= all);
        while i < self.commits.len()
            invariant
                i <= self.commits.len(),
                all == views(self.commits@),
                find(all, me@, address@) == find(all.skip(i as int), me@, address@),
            decreases self.commits.len() - i,
        {
            assert(all.skip(i as int)[0] == self.commits[i as int]@);
            let commit = &self.commits[i];
            let seen = match commit.record.entry.visibility() {
                Visibility::Public => true,
                Visibility::Private => commit.owner.same(me),
            };
            if seen && commit.record.address.same(address) {
                return Some(commit.record.clone());
            }
            assert(all.skip(i as int).drop_first() =~= all.skip(i + 1));
            i += 1;
        }
        assert(all.skip(i as int).len() == 0);
        None
    }

    /// Commits an entry on behalf of `me`.
    pub fn commit(&mut self, me: &Address, entry: Entry) -> (address: Address)
        ensures
            (final(self)@, address@) == old(self)@.commit(me@, entry@),
            old(self)@.wf() ==> final(self)@.wf(),
    {
        proof {
            if self@.wf() {
                lemma_commit_wf(self@, me@, entry@);
            }
        }
        let address = self.hash(entry.clone());
        let ghost named = self@;
        if self.get(me, &address).is_none() {
            let record = Record { address: address.clone(), entry, created_at: self.clock };
            let commit = Commit { record, owner: me.clone() };
            self.commits.push(commit);
            assert(final(self)@.commits =~= named.commits.push(commit@));
        }
        address
    }

    /// Records a plain link.
    pub fn link(&mut self, base: Address, target: Address, tag: LinkTag)
        ensures
            final(self)@ == old(self)@.link(base@, target@, tag),
            old(self)@.wf() ==> final(self)@.wf(),
    {
        proof {
            if self@.wf() {
                lemma_link_wf(self@, base@, target@, tag);
            }
        }
        let link = Link { base, target, tag };
        self.links.push(link);
        assert(final(self)@.links =~= old(self)@.links.push(link@));
    }

    /// The targets of the links of one tag on a base, oldest first.
    pub fn links_of(&self, base: &Address, tag: LinkTag) -> (r: Vec<Address>)
        ensures
            views(r@) == self@.targets(base@, tag),
    {
        let ghost all = views(self.links@);
        let mut out: Vec<Address> = Vec::new();
        let mut i: usize = 0;
        assert(all.take(0) =~= Seq::empty());
        assert(views(out@) =~= Seq::empty());
        while i < self.links.len()
            invariant
                i <= self.links.len(),
                all == views(self.links@),
                views(out@) == targets_of(all.take(i as int), base@, tag),
            decreases self.links.len() - i,
        {
            assert(all.take(i + 1).drop_last() =~= all.take(i as int));
            assert(all.take(i + 1).last() == self.links[i as int]@);
            let link = &self.links[i];
            if link.base.same(base) && link.tag == tag {
                let ghost before = out@;
                let target = link.target.clone();
                out.push(target);
                assert(views(out@) =~= views(before).push(target@));
            }
            i += 1;
        }
        assert(all.take(i as int) =~= all);
        out
    }

    /// Files a committed entry under an author, at the time of its commit.
    pub fn index_by_time(&mut self, me: &Address, anchor: String, target: Address, tag: LinkTag) -> (r:
        Event)
        ensures
            (final(self)@, r@) == old(self)@.index(me@, anchor@, target@, tag),
            old(self)@.wf() ==> final(self)@.wf(),
    {
        proof {
            if self@.wf() {
                lemma_index_wf(self@, me@, anchor@, target@, tag);
            }
        }
        match self.get(me, &target) {
            Some(record) => {
                let time = record.created_at;
                let ghost all = views(self.timeline@);
                let mut i: usize = 0;
                assert(all.skip(0) =~= all);
                while i < self.timeline.len() && self.timeline[i].time.is_at_or_before(&time)
                    invariant
                        i <= self.timeline.len(),
                        all == views(self.timeline@),
                        slot(all, time) == i + slot(all.skip(i as int), time),
                    ensures
                        i <= self.timeline.len(),
                        slot(all, time) == i,
                    decreases self.timeline.len() - i,
                {
                    assert(all.skip(i as int)[0] == self.timeline[i as int]@);
                    assert(all.skip(i as int).drop_first() =~= all.skip(i + 1));
                    i += 1;
                }
                let link = TimeLink { anchor, target, tag, time };
                self.timeline.insert(i, link);
                assert(final(self)@.timeline =~= old(self)@.timeline.insert(i as int, link@));
                Event::Done
            },
            None => Event::Failed(
                Fault::Substrate("Cannot index an entry that is not committed".to_owned()),
            ),
        }
    }

    /// The targets filed under an author and tag within `[from, until]`,
    /// in the order of the index.
    pub fn query_by_time(&self, anchor: &String, from: Timestamp, until: Timestamp, tag: LinkTag) -> (r:
        Vec<Address>)
        ensures
            views(r@) == self@.window(anchor@, from, until, tag),
    {
        let ghost all = views(self.timeline@);
        let mut out: Vec<Address> = Vec::new();
        let mut i: usize = 0;
        assert(all.take(0) =~= Seq::empty());
        assert(views(out@) =~= link_targets(Seq::empty()));
        while i < self.timeline.len()
            invariant
                i <= self.timeline.len(),
                all == views(self.timeline@),
                views(out@) == link_targets(window_of(all.take(i as int), anchor@, from, until, tag)),
            decreases self.timeline.len() - i,
        {
            assert(all.take(i + 1).drop_last() =~= all.take(i as int));
            assert(all.take(i + 1).last() == self.timeline[i as int]@);
            let link = &self.timeline[i];
            if link.anchor == *anchor && link.tag == tag && link.time.is_within(&from, &until) {
                let ghost before = out@;
                let ghost chosen = window_of(all.take(i as int), anchor@, from, until, tag);
                let target = link.target.clone();
                out.push(target);
                assert(views(out@) =~= views(before).push(target@));
                assert(link_targets(chosen.push(link@)) =~= link_targets(chosen).push(
                    link@.target,
                ));
            }
            i += 1;
        }
        assert(all.take(i as int) =~= all);
        out
    }

    /// The records of one kind that `me` committed itself, oldest first.
    pub fn query_local(&self, me: &Address, kind: EntryKind) -> (r: Vec<Record>)
        ensures
            views(r@) == self@.own(me@, kind),
    {
        let ghost all = views(self.commits@);
        let mut out: Vec<Record> = Vec::new();
        let mut i: usize = 0;
        assert(all.take(0) =~= Seq::empty());
        assert(views(out@) =~= Seq::empty());
        while i < self.commits.len()
            invariant
                i <= self.commits.len(),
                all == views(self.commits@),
                views(out@) == own_records(all.take(i as int), me@, kind),
            decreases self.commits.len() - i,
        {
            assert(all.take(i + 1).drop_last() =~= all.take(i as int));
            assert(all.take(i + 1).last() == self.commits[i as int]@);
            let commit = &self.commits[i];
            if commit.owner.same(me) && commit.record.entry.kind() == Some(kind) {
                let ghost before = out@;
                let record = commit.record.clone();
                out.push(record);
                assert(views(out@) =~= views(before).push(record@));
            }
            i += 1;
        }
        assert(all.take(i as int) =~= all);
        out
    }
}


/// How far calls to peers may chain: one hop from an operation that a
/// caller starts, none from one that a peer's call starts.
pub open spec fn hops(remote: bool) -> nat {
    if remote {
        1
    } else {
        0
    }
}

impl Ledger {
    /// Does what `me` asks and answers. A call to a peer runs the peer's
    /// receiving operation here, where `remote` allows it.
    fn act(&mut self, me: &Address, action: Action, remote: bool) -> (event: Event)
        ensures
            (final(self)@, event@) == old(self)@.act(me@, action@, hops(remote)),
        decreases hops(remote), 0nat,
    {
        match action {
            Action::Commit { entry } => Event::Address(self.commit(me, entry)),
            Action::Hash { entry } => Event::Address(self.hash(entry)),
            Action::IndexByTime { anchor, target, tag } => self.index_by_time(
                me,
                anchor,
                target,
                tag,
            ),
            Action::Link { base, target, tag } => {
                self.link(base, target, tag);
                Event::Done
            },
            Action::Get { address } => Event::Record(self.get(me, &address)),
            Action::LinksOf { base, tag } => Event::Addresses(self.links_of(&base, tag)),
            Action::QueryByTime { anchor, from, until, tag } => Event::Addresses(
                self.query_by_time(&anchor, from, until, tag),
            ),
            Action::QueryLocal { kind } => Event::Records(self.query_local(me, kind)),
            Action::Provenance => Event::Provenance {
                module: self.module.clone(),
                agent: me.clone(),
            },
            Action::CallRemote { to, payload } => {
                if !remote {
                    Event::Failed(Fault::Substrate("A delivery cannot call a peer".to_owned()))
                } else if holds(&self.offline, &to) {
                    Event::Failed(Fault::NetworkUnreachable)
                } else if !holds(&self.open_inboxes, &to) {
                    Event::Failed(Fault::Unauthorized)
                } else {
                    let start = ExpressionDNA::recv_private_expression(payload);
                    match self.drive(&to, start, false) {
                        Ok(_) => Event::Done,
                        Err(e) => Event::Failed(Fault::Remote(e.message())),
                    }
                }
            },
        }
    }

    fn drive(&mut self, me: &Address, step: Step, remote: bool) -> (r: Result<
        Outcome,
        ExpressionError,
    >)
        ensures
            (final(self)@, result_of(r)) == run(old(self)@, me@, step@, hops(remote)),
        decreases hops(remote), 1nat,
    {
        let mut current = step;
        loop
            invariant
                run(self@, me@, current@, hops(remote)) == run(
                    old(self)@,
                    me@,
                    step@,
                    hops(remote),
                ),
            decreases step_rank(current@), step_load(current@),
        {
            match current {
                Step::Done(result) => {
                    return result;
                },
                Step::Ask(flow, action) => {
                    let ghost before = flow@;
                    let ghost asked = action@;
                    let event = self.act(me, action, remote);
                    proof {
                        lemma_progress(before, asked, event@);
                    }
                    current = flow.resume(event);
                },
            }
        }
    }

    /// Runs an operation to its end on behalf of `me`, answering each of
    /// its requests from this ledger.
    pub fn run(&mut self, me: &Address, step: Step) -> (r: Result<Outcome, ExpressionError>)
        ensures
            (final(self)@, result_of(r)) == run(old(self)@, me@, step@, 1),
            old(self)@.wf() ==> final(self)@.wf(),
    {
        proof {
            if self@.wf() {
                lemma_run_wf(self@, me@, step@, 1);
            }
        }
        self.drive(me, step, true)
    }
}


impl Ledger {
    /// Publishes on behalf of `me`: commits the expression, files it under
    /// its author, and hands back its envelope.
    pub fn create_public_expression(&mut self, me: &Address, content: CreateExpression) -> (r:
        Result<ExpressionResponse, ExpressionError>)
        ensures
            (final(self)@, result_of(r)) == published(old(self)@, me@, content@),
            expression_of(content@) is None ==> r is Err && final(self)@ == old(self)@,
            old(self)@.wf() ==> final(self)@.wf() && (r is Ok <==> expression_of(content@) is Some),
    {
        proof {
            lemma_publish_runs(self@, me@, content@, 1);
            if self@.wf() && expression_of(content@) is Some {
                lemma_published_is_found(self@, me@, me@, content@);
            }
        }
        match self.run(me, ExpressionDNA::create_public_expression(content)) {
            Ok(Outcome::Created(sealed)) => Ok(sealed),
            Ok(_) => Err(ExpressionError::internal("Unexpected outcome")),
            Err(e) => Err(e),
        }
    }

    /// The page of one author within `[from, until]` as `me` reads it,
    /// oldest first. Nothing is changed.
    pub fn get_by_author(&mut self, me: &Address, author: String, from: Timestamp, until: Timestamp) -> (r:
        Result<Vec<ExpressionResponse>, ExpressionError>)
        ensures
            final(self)@ == old(self)@,
            list_result_of(r) == authored(old(self)@, me@, author@, from, until),
    {
        proof {
            lemma_author_runs(self@, me@, author@, from, until, 1);
        }
        match self.run(me, ExpressionDNA::get_by_author(author, from, until)) {
            Ok(Outcome::Authored(list)) => Ok(list.0),
            Ok(_) => Err(ExpressionError::internal("Unexpected outcome")),
            Err(e) => Err(e),
        }
    }

    /// What `me` finds at an address: the envelope of a public expression,
    /// or nothing. Nothing is changed.
    pub fn get_expression_by_address(&mut self, me: &Address, address: Address) -> (r: Result<
        Option<ExpressionResponse>,
        ExpressionError,
    >)
        ensures
            final(self)@ == old(self)@,
            optional_result_of(r) == found(old(self)@, me@, address@),
    {
        proof {
            lemma_lookup_runs(self@, me@, address@, 1);
        }
        match self.run(me, ExpressionDNA::get_expression_by_address(address)) {
            Ok(Outcome::Found(sealed)) => Ok(sealed.0),
            Ok(_) => Err(ExpressionError::internal("Unexpected outcome")),
            Err(e) => Err(e),
        }
    }

    /// Sends from `me` to the peer `to`, who receives at once where it can
    /// be reached and has opened its inbox.
    pub fn send_private(&mut self, me: &Address, to: Address, expression: CreateExpression) -> (r:
        Result<PrivateShortFormExpression, ExpressionError>)
        ensures
            (final(self)@, result_of(r)) == sent(old(self)@, me@, to@, expression@),
            r is Ok <==> expression_of(expression@) is Some && !old(self)@.offline.contains(to@)
                && old(self)@.open_inboxes.contains(to@),
            r is Err ==> final(self)@ == old(self)@,
            old(self)@.wf() ==> final(self)@.wf(),
    {
        proof {
            if self@.wf() && expression_of(expression@) is Some {
                lemma_received(self@, to@, expression_of(expression@).unwrap());
            }
        }
        proof {
            lemma_send_runs(self@, me@, to@, expression@);
        }
        match self.run(me, ExpressionDNA::send_private(to, expression)) {
            Ok(Outcome::Sent(message)) => Ok(message),
            Ok(_) => Err(ExpressionError::internal("Unexpected outcome")),
            Err(e) => Err(e),
        }
    }

    /// Takes a delivery in on behalf of `me`. On this substrate it never
    /// fails.
    pub fn recv_private_expression(&mut self, me: &Address, create_data: PrivateShortFormExpression) -> (r:
        Result<(), ExpressionError>)
        ensures
            final(self)@ == received(old(self)@, me@, create_data@),
            r is Ok,
            old(self)@.wf() ==> final(self)@.wf(),
    {
        proof {
            if self@.wf() {
                lemma_received(self@, me@, create_data@);
            }
        }
        proof {
            lemma_receive_runs(self@, me@, create_data@, 1);
        }
        match self.run(me, ExpressionDNA::recv_private_expression(create_data)) {
            Ok(_) => Ok(()),
            Err(e) => Err(e),
        }
    }

    /// The inbox of `me`, of one sender or of all. The page size and number
    /// do not bear on the result.
    pub fn inbox(&mut self, me: &Address, from: Option<String>, page_size: usize, page_number: usize) -> (r:
        Result<Vec<PrivateExpressionResponse>, ExpressionError>)
        ensures
            (final(self)@, list_result_of(r)) == inbox_of(old(self)@, me@, sender_view(from)),
            from is None ==> r is Ok && final(self)@ == old(self)@,
            old(self)@.wf() ==> final(self)@.wf(),
    {
        proof {
            lemma_whole_inbox_never_fails(self@, me@);
            if self@.wf() && sender_view(from) is Some {
                lemma_hash_wf(self@, crate::entry::EntryView::Marker(sender_view(from).unwrap()));
            }
        }
        proof {
            lemma_inbox_runs(self@, me@, sender_view(from), 1);
        }
        match self.run(me, ExpressionDNA::inbox(from, page_size, page_number)) {
            Ok(Outcome::Inbox(list)) => Ok(list.0),
            Ok(_) => Err(ExpressionError::internal("Unexpected outcome")),
            Err(e) => Err(e),
        }
    }
}

/// The sender asked for, by its characters.
pub open spec fn sender_view(from: Option<String>) -> Option<Seq<char>> {
    match from {
        Some(sender) => Some(sender@),
        None => None,
    }
}

} // verus!
