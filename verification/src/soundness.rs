//! What holds of every substrate that grew from an empty one, and why each
//! request keeps it so.

use crate::entry::{EntryKind, EntryView, Visibility};
use crate::json::member_value;
use crate::ledger::{
    address_at, find, in_window, own_records, position, slot, visible, window_of, without,
    CommitView, LedgerView, TimeLinkView,
};
use crate::outputs::envelope;
use crate::service::{local_envelopes, public_envelopes};
use crate::substrate::{EventView, LinkTag, RecordView};
use crate::time::Timestamp;
use vstd::bytes::{lemma_auto_spec_u64_to_from_le_bytes, spec_u64_to_le_bytes};
use vstd::prelude::*;

verus! {

/// Two places never share an address.
pub proof fn lemma_address_injective(a: nat, b: nat)
    requires
        address_at(a) == address_at(b),
    ensures
        a == b,
    decreases a,
{
    lemma_auto_spec_u64_to_from_le_bytes();
    let word: nat = 0x1_0000_0000_0000_0000;
    let low_a = spec_u64_to_le_bytes((a % word) as u64);
    let low_b = spec_u64_to_le_bytes((b % word) as u64);
    assert(low_a.len() == 8 && low_b.len() == 8);
    lemma_address_length(a);
    lemma_address_length(b);
    assert(address_at(a).subrange(0, 8) =~= low_a);
    assert(address_at(b).subrange(0, 8) =~= low_b);
    assert(low_a == low_b);
    assert((a % word) as u64 == (b % word) as u64);
    if a < word {
        assert(address_at(a).len() == 8);
        assert(b < word);
    } else {
        assert(address_at(a).len() > 8);
        assert(b >= word);
        let high_a = address_at(a / word);
        let high_b = address_at(b / word);
        assert(address_at(a).subrange(8, address_at(a).len() as int) =~= high_a);
        assert(address_at(b).subrange(8, address_at(b).len() as int) =~= high_b);
        lemma_address_injective(a / word, b / word);
        assert(a == word * (a / word) + a % word) by (nonlinear_arith)
            requires
                word > 0,
        ;
        assert(b == word * (b / word) + b % word) by (nonlinear_arith)
            requires
                word > 0,
        ;
    }
}

/// An address is one word long for a place below a word, and longer above.
pub proof fn lemma_address_length(place: nat)
    ensures
        address_at(place).len() >= 8,
        place < 0x1_0000_0000_0000_0000 <==> address_at(place).len() == 8,
    decreases place,
{
    lemma_auto_spec_u64_to_from_le_bytes();
    if place >= 0x1_0000_0000_0000_0000 {
        lemma_address_length(place / 0x1_0000_0000_0000_0000);
    }
}

/// The place of an entry is within the contents, holds the entry where it
/// is inside, and nothing before it does.
pub proof fn lemma_position(contents: Seq<EntryView>, entry: EntryView)
    ensures
        position(contents, entry) <= contents.len(),
        position(contents, entry) < contents.len() ==> contents[position(contents, entry) as int]
            == entry,
        forall|k: int| 0 <= k < position(contents, entry) ==> contents[k] != entry,
    decreases contents.len(),
{
    if contents.len() > 0 && contents[0] != entry {
        let rest = contents.drop_first();
        lemma_position(rest, entry);
        assert forall|k: int| 0 <= k < position(contents, entry) implies contents[k] != entry by {
            if k > 0 {
                assert(contents[k] == rest[k - 1]);
            }
        }
    }
}

/// The first occurrence is at `at` where the entry is there and nowhere
/// before.
pub proof fn lemma_position_is(contents: Seq<EntryView>, entry: EntryView, at: int)
    requires
        0 <= at <= contents.len(),
        at < contents.len() ==> contents[at] == entry,
        forall|k: int| 0 <= k < at ==> contents[k] != entry,
    ensures
        position(contents, entry) == at,
    decreases contents.len(),
{
    if contents.len() > 0 && at > 0 {
        let rest = contents.drop_first();
        assert(contents[0] != entry);
        assert forall|k: int| 0 <= k < at - 1 implies rest[k] != entry by {
            assert(rest[k] == contents[k + 1]);
        }
        lemma_position_is(rest, entry, at - 1);
    }
}

/// No entry occurs twice.
pub open spec fn distinct(contents: Seq<EntryView>) -> bool {
    forall|i: int, j: int| 0 <= i < j < contents.len() ==> contents[i] != contents[j]
}

/// What a lookup that found something found: a commit at that address that
/// the agent sees, the oldest of them.
pub proof fn lemma_find_some(commits: Seq<CommitView>, me: Seq<u8>, address: Seq<u8>) -> (at: int)
    requires
        find(commits, me, address) is Some,
    ensures
        0 <= at < commits.len(),
        find(commits, me, address) == Some(commits[at].record),
        commits[at].record.address == address,
        visible(commits[at], me),
        forall|k: int|
            0 <= k < at ==> !(commits[k].record.address == address && visible(commits[k], me)),
    decreases commits.len(),
{
    if commits[0].record.address == address && visible(commits[0], me) {
        0
    } else {
        let rest = commits.drop_first();
        let inner = lemma_find_some(rest, me, address);
        assert forall|k: int| 0 <= k < inner + 1 implies !(commits[k].record.address == address
            && visible(commits[k], me)) by {
            if k > 0 {
                assert(commits[k] == rest[k - 1]);
            }
        }
        inner + 1
    }
}

/// A lookup that found nothing: no commit at that address that the agent
/// sees.
pub proof fn lemma_find_none(commits: Seq<CommitView>, me: Seq<u8>, address: Seq<u8>)
    requires
        find(commits, me, address) is None,
    ensures
        forall|k: int|
            0 <= k < commits.len() ==> !(commits[k].record.address == address && visible(
                commits[k],
                me,
            )),
    decreases commits.len(),
{
    if commits.len() > 0 {
        let rest = commits.drop_first();
        lemma_find_none(rest, me, address);
        assert forall|k: int| 0 <= k < commits.len() implies !(commits[k].record.address
            == address && visible(commits[k], me)) by {
            if k > 0 {
                assert(commits[k] == rest[k - 1]);
            }
        }
    }
}

/// The oldest commit at an address that the agent sees is what a lookup
/// finds.
pub proof fn lemma_find_is(commits: Seq<CommitView>, me: Seq<u8>, address: Seq<u8>, at: int)
    requires
        0 <= at < commits.len(),
        commits[at].record.address == address,
        visible(commits[at], me),
        forall|k: int|
            0 <= k < at ==> !(commits[k].record.address == address && visible(commits[k], me)),
    ensures
        find(commits, me, address) == Some(commits[at].record),
    decreases commits.len(),
{
    if at > 0 {
        let rest = commits.drop_first();
        assert(!(commits[0].record.address == address && visible(commits[0], me)));
        assert forall|k: int| 0 <= k < at - 1 implies !(rest[k].record.address == address
            && visible(rest[k], me)) by {
            assert(rest[k] == commits[k + 1]);
        }
        lemma_find_is(rest, me, address, at - 1);
    }
}

/// A new commit does not change what was found before; where nothing was
/// found, it is found if it is at the address and seen.
pub proof fn lemma_find_push(commits: Seq<CommitView>, commit: CommitView, me: Seq<u8>, address: Seq<u8>)
    ensures
        find(commits.push(commit), me, address) == if find(commits, me, address) is Some {
            find(commits, me, address)
        } else if commit.record.address == address && visible(commit, me) {
            Some(commit.record)
        } else {
            None
        },
{
    let grown = commits.push(commit);
    if find(commits, me, address) is Some {
        let at = lemma_find_some(commits, me, address);
        assert(grown[at] == commits[at]);
        assert forall|k: int| 0 <= k < at implies !(grown[k].record.address == address
            && visible(grown[k], me)) by {
            assert(grown[k] == commits[k]);
        }
        lemma_find_is(grown, me, address, at);
    } else {
        lemma_find_none(commits, me, address);
        if commit.record.address == address && visible(commit, me) {
            assert forall|k: int| 0 <= k < commits.len() implies !(grown[k].record.address
                == address && visible(grown[k], me)) by {
                assert(grown[k] == commits[k]);
            }
            lemma_find_is(grown, me, address, commits.len() as int);
        } else {
            if find(grown, me, address) is Some {
                let at = lemma_find_some(grown, me, address);
                if at < commits.len() {
                    assert(grown[at] == commits[at]);
                }
            }
        }
    }
}

/// The time index is in order: no link is filed before an earlier one.
pub open spec fn chronological(timeline: Seq<TimeLinkView>) -> bool {
    forall|i: int, j: int|
        0 <= i < j < timeline.len() ==> timeline[i].time.at_or_before(timeline[j].time)
}

impl LedgerView {
    /// What holds of a substrate that grew from an empty one:
    /// no entry has two addresses; every commit sits at the address of its
    /// entry; no agent committed what it already saw; the time index is in
    /// order; and every link of the time index leads to a commit and, where
    /// that commit is public, carries its time.
    pub open spec fn wf(self) -> bool {
        &&& distinct(self.contents)
        &&& forall|k: int|
            0 <= k < self.commits.len() ==> {
                &&& position(self.contents, (#[trigger] self.commits[k]).record.entry)
                    < self.contents.len()
                &&& self.commits[k].record.address == address_at(
                    position(self.contents, self.commits[k].record.entry),
                )
            }
        &&& forall|i: int, j: int|
            0 <= i < j < self.commits.len() ==> !((#[trigger] self.commits[i]).record.address == (
            #[trigger] self.commits[j]).record.address && visible(
                self.commits[i],
                self.commits[j].owner,
            ))
        &&& chronological(self.timeline)
        &&& forall|i: int|
            0 <= i < self.timeline.len() ==> self.targeted((#[trigger] self.timeline[i]).target)
        &&& forall|i: int, k: int|
            0 <= i < self.timeline.len() && 0 <= k < self.commits.len() && (
            #[trigger] self.timeline[i]).target == (#[trigger] self.commits[k]).record.address
                && self.commits[k].record.entry.visibility() == Visibility::Public
                ==> self.timeline[i].time == self.commits[k].record.created_at
    }

    /// There is a commit at this address.
    pub open spec fn targeted(self, address: Seq<u8>) -> bool {
        exists|k: int| 0 <= k < self.commits.len() && (#[trigger] self.commits[k]).record.address == address
    }
}

/// Two commits at one address hold the same entry.
pub proof fn lemma_same_address_same_entry(ledger: LedgerView, i: int, j: int)
    requires
        ledger.wf(),
        0 <= i < ledger.commits.len(),
        0 <= j < ledger.commits.len(),
        ledger.commits[i].record.address == ledger.commits[j].record.address,
    ensures
        ledger.commits[i].record.entry == ledger.commits[j].record.entry,
{
    let a = position(ledger.contents, ledger.commits[i].record.entry);
    let b = position(ledger.contents, ledger.commits[j].record.entry);
    lemma_address_injective(a, b);
    lemma_position(ledger.contents, ledger.commits[i].record.entry);
    lemma_position(ledger.contents, ledger.commits[j].record.entry);
}

/// Setting the clock, granting, revoking and losing touch keep a substrate
/// well formed.
pub proof fn lemma_settings_wf(
    ledger: LedgerView,
    now: Timestamp,
    agent: Seq<u8>,
    policy: crate::zome::AccessPolicyView,
)
    requires
        ledger.wf(),
    ensures
        ledger.at(now).wf(),
        ledger.granted(agent, policy).wf(),
        ledger.revoking(agent).wf(),
        ledger.losing(agent).wf(),
{
    assert(ledger.at(now).targeted_all()) by {
        assert forall|i: int| 0 <= i < ledger.timeline.len() implies ledger.at(now).targeted(
            (#[trigger] ledger.timeline[i]).target,
        ) by {
            lemma_targeted_by_commits(ledger, ledger.at(now), ledger.timeline[i].target);
        }
    }
    assert(ledger.granting(agent).targeted_all()) by {
        assert forall|i: int| 0 <= i < ledger.timeline.len() implies ledger.granting(agent).targeted(
            (#[trigger] ledger.timeline[i]).target,
        ) by {
            lemma_targeted_by_commits(ledger, ledger.granting(agent), ledger.timeline[i].target);
        }
    }
    assert(ledger.revoking(agent).targeted_all()) by {
        assert forall|i: int| 0 <= i < ledger.timeline.len() implies ledger.revoking(agent).targeted(
            (#[trigger] ledger.timeline[i]).target,
        ) by {
            lemma_targeted_by_commits(ledger, ledger.revoking(agent), ledger.timeline[i].target);
        }
    }
    assert(ledger.losing(agent).targeted_all()) by {
        assert forall|i: int| 0 <= i < ledger.timeline.len() implies ledger.losing(agent).targeted(
            (#[trigger] ledger.timeline[i]).target,
        ) by {
            lemma_targeted_by_commits(ledger, ledger.losing(agent), ledger.timeline[i].target);
        }
    }
}

/// Whether there is a commit at an address goes by the commits alone.
pub proof fn lemma_targeted_by_commits(a: LedgerView, b: LedgerView, address: Seq<u8>)
    requires
        a.commits == b.commits,
        a.targeted(address),
    ensures
        b.targeted(address),
{
    let k = choose|k: int| 0 <= k < a.commits.len() && (#[trigger] a.commits[k]).record.address == address;
    assert(b.commits[k].record.address == address);
}

/// An empty substrate is well formed.
pub proof fn lemma_genesis_wf(module: Seq<char>)
    ensures
        LedgerView::genesis(module).wf(),
{
}

/// A new entry at the end moves no entry that was there, and takes the
/// place at the end where it was not there.
pub proof fn lemma_position_push(contents: Seq<EntryView>, added: EntryView, entry: EntryView)
    ensures
        position(contents, entry) < contents.len() ==> position(contents.push(added), entry)
            == position(contents, entry),
        position(contents, entry) == contents.len() && added == entry ==> position(
            contents.push(added),
            entry,
        ) == contents.len(),
        position(contents, entry) == contents.len() && added != entry ==> position(
            contents.push(added),
            entry,
        ) == contents.len() + 1,
{
    let grown = contents.push(added);
    let at = position(contents, entry);
    lemma_position(contents, entry);
    assert forall|k: int| 0 <= k < at implies grown[k] != entry by {
        assert(grown[k] == contents[k]);
    }
    if at < contents.len() {
        assert(grown[at as int] == contents[at as int]);
        lemma_position_is(grown, entry, at as int);
    } else if added == entry {
        lemma_position_is(grown, entry, at as int);
    } else {
        lemma_position_is(grown, entry, (at + 1) as int);
    }
}

/// Naming an entry keeps a substrate well formed, moves nothing, and gives
/// the entry the address of its place.
pub proof fn lemma_hash_wf(ledger: LedgerView, entry: EntryView)
    requires
        ledger.wf(),
    ensures
        ledger.hash(entry).0.wf(),
        ledger.hash(entry).0 == (LedgerView { contents: ledger.hash(entry).0.contents, ..ledger }),
        position(ledger.hash(entry).0.contents, entry) < ledger.hash(entry).0.contents.len(),
        ledger.hash(entry).1 == address_at(position(ledger.hash(entry).0.contents, entry)),
        forall|other: EntryView|
            position(ledger.contents, other) < ledger.contents.len() ==> position(
                ledger.hash(entry).0.contents,
                other,
            ) == position(ledger.contents, other),
        ledger.hash(entry).0.hash(entry) == ledger.hash(entry),
{
    let named = ledger.hash(entry).0;
    lemma_position(ledger.contents, entry);
    lemma_position_push(ledger.contents, entry, entry);
    assert forall|other: EntryView|
        position(ledger.contents, other) < ledger.contents.len() implies position(
        named.contents,
        other,
    ) == position(ledger.contents, other) by {
        lemma_position_push(ledger.contents, entry, other);
    }
    assert forall|k: int| 0 <= k < named.commits.len() implies {
        &&& position(named.contents, (#[trigger] named.commits[k]).record.entry)
            < named.contents.len()
        &&& named.commits[k].record.address == address_at(
            position(named.contents, named.commits[k].record.entry),
        )
    } by {
        assert(named.commits[k] == ledger.commits[k]);
    }
    assert(named.targeted_all() == ledger.targeted_all()) by {
        assert(named.commits == ledger.commits);
    }
}

impl LedgerView {
    /// Every link of the time index leads to a commit.
    pub open spec fn targeted_all(self) -> bool {
        forall|i: int|
            0 <= i < self.timeline.len() ==> self.targeted((#[trigger] self.timeline[i]).target)
    }
}

/// A commit keeps a substrate well formed, and what was committed is then
/// found at its address by the agent who committed it.
pub proof fn lemma_commit_wf(ledger: LedgerView, me: Seq<u8>, entry: EntryView)
    requires
        ledger.wf(),
    ensures
        ledger.commit(me, entry).0.wf(),
        ledger.commit(me, entry).0.fetch(me, ledger.commit(me, entry).1) is Some,
        ledger.commit(me, entry).0.fetch(me, ledger.commit(me, entry).1).unwrap().entry == entry,
        ledger.commit(me, entry).0.fetch(me, ledger.commit(me, entry).1).unwrap().address
            == ledger.commit(me, entry).1,
        ledger.commit(me, entry).1 == ledger.hash(entry).1,
        ledger.commit(me, entry).0.links == ledger.links,
        ledger.commit(me, entry).0.timeline == ledger.timeline,
        ledger.commit(me, entry).0.contents == ledger.hash(entry).0.contents,
        ledger.commit(me, entry).0 == (LedgerView {
            contents: ledger.commit(me, entry).0.contents,
            commits: ledger.commit(me, entry).0.commits,
            ..ledger
        }),
        ledger.fetch(me, ledger.hash(entry).1) is Some ==> ledger.commit(me, entry).0.commits
            == ledger.commits,
        ledger.fetch(me, ledger.hash(entry).1) is None ==> ledger.commit(me, entry).0.fetch(
            me,
            ledger.commit(me, entry).1,
        ).unwrap().created_at == ledger.clock,
        forall|who: Seq<u8>, at: Seq<u8>|
            ledger.fetch(who, at) is Some ==> #[trigger] ledger.commit(me, entry).0.fetch(who, at)
                == ledger.fetch(who, at),
{
    lemma_hash_wf(ledger, entry);
    let (named, address) = ledger.hash(entry);
    let after = ledger.commit(me, entry).0;
    assert forall|who: Seq<u8>, at: Seq<u8>| ledger.fetch(who, at) is Some implies #[trigger] after.fetch(
        who,
        at,
    ) == ledger.fetch(who, at) by {
        if named.fetch(me, address) is None {
            lemma_find_push(
                named.commits,
                CommitView {
                    record: RecordView { address, entry, created_at: ledger.clock },
                    owner: me,
                },
                who,
                at,
            );
        }
    }
    if named.fetch(me, address) is Some {
        let at = lemma_find_some(named.commits, me, address);
        let held = named.commits[at].record.entry;
        lemma_address_injective(position(named.contents, held), position(named.contents, entry));
        lemma_position(named.contents, held);
        lemma_position(named.contents, entry);
    } else {
        let added = CommitView {
            record: RecordView { address, entry, created_at: ledger.clock },
            owner: me,
        };
        lemma_find_push(named.commits, added, me, address);
        lemma_find_none(named.commits, me, address);
        assert forall|k: int| 0 <= k < after.commits.len() implies {
            &&& position(after.contents, (#[trigger] after.commits[k]).record.entry)
                < after.contents.len()
            &&& after.commits[k].record.address == address_at(
                position(after.contents, after.commits[k].record.entry),
            )
        } by {
            if k < named.commits.len() {
                assert(after.commits[k] == named.commits[k]);
            }
        }
        assert forall|i: int, j: int| 0 <= i < j < after.commits.len() implies !((
        #[trigger] after.commits[i]).record.address == (#[trigger] after.commits[j]).record.address
            && visible(after.commits[i], after.commits[j].owner)) by {
            assert(after.commits[i] == named.commits[i]);
            if j < named.commits.len() {
                assert(after.commits[j] == named.commits[j]);
            }
        }
        assert forall|i: int| 0 <= i < after.timeline.len() implies after.targeted(
            (#[trigger] after.timeline[i]).target,
        ) by {
            assert(named.targeted(named.timeline[i].target));
            let k = choose|k: int|
                0 <= k < named.commits.len() && (#[trigger] named.commits[k]).record.address
                    == named.timeline[i].target;
            assert(after.commits[k] == named.commits[k]);
        }
        assert forall|i: int, k: int|
            0 <= i < after.timeline.len() && 0 <= k < after.commits.len() && (
            #[trigger] after.timeline[i]).target == (#[trigger] after.commits[k]).record.address
                && after.commits[k].record.entry.visibility()
                == Visibility::Public implies after.timeline[i].time
            == after.commits[k].record.created_at by {
            if k < named.commits.len() {
                assert(after.commits[k] == named.commits[k]);
            } else {
                // The link's target was committed before, with this entry: the
                // agent would have seen it.
                assert(named.targeted(named.timeline[i].target));
                let older = choose|older: int|
                    0 <= older < named.commits.len() && (
                    #[trigger] named.commits[older]).record.address == named.timeline[i].target;
                let held = named.commits[older].record.entry;
                lemma_address_injective(
                    position(named.contents, held),
                    position(named.contents, entry),
                );
                lemma_position(named.contents, held);
                lemma_position(named.contents, entry);
                assert(visible(named.commits[older], me));
            }
        }
    }
}

/// A plain link keeps a substrate well formed.
pub proof fn lemma_link_wf(ledger: LedgerView, base: Seq<u8>, target: Seq<u8>, tag: LinkTag)
    requires
        ledger.wf(),
    ensures
        ledger.link(base, target, tag).wf(),
{
    let after = ledger.link(base, target, tag);
    assert forall|i: int| 0 <= i < after.timeline.len() implies after.targeted(
        (#[trigger] after.timeline[i]).target,
    ) by {
        assert(ledger.targeted(ledger.timeline[i].target));
        let k = choose|k: int|
            0 <= k < ledger.commits.len() && (#[trigger] ledger.commits[k]).record.address
                == ledger.timeline[i].target;
        assert(after.commits[k].record.address == after.timeline[i].target);
    }
}

/// The order of time is total and transitive.
pub proof fn lemma_time_order(a: Timestamp, b: Timestamp, c: Timestamp)
    ensures
        a.at_or_before(b) || b.at_or_before(a),
        a.at_or_before(b) && b.at_or_before(c) ==> a.at_or_before(c),
        a.at_or_before(a),
{
}

/// Where a link goes in an ordered time index: behind all that are not
/// later, before all that are.
pub proof fn lemma_slot(timeline: Seq<TimeLinkView>, time: Timestamp)
    requires
        chronological(timeline),
    ensures
        slot(timeline, time) <= timeline.len(),
        forall|k: int| 0 <= k < slot(timeline, time) ==> timeline[k].time.at_or_before(time),
        forall|k: int|
            slot(timeline, time) <= k < timeline.len() ==> !timeline[k].time.at_or_before(time),
    decreases timeline.len(),
{
    if timeline.len() > 0 {
        let rest = timeline.drop_first();
        if timeline[0].time.at_or_before(time) {
            assert forall|i: int, j: int| 0 <= i < j < rest.len() implies rest[i].time.at_or_before(
                rest[j].time,
            ) by {
                assert(rest[i] == timeline[i + 1] && rest[j] == timeline[j + 1]);
            }
            lemma_slot(rest, time);
            assert forall|k: int| 0 <= k < slot(timeline, time) implies timeline[k].time.at_or_before(
                time,
            ) by {
                if k > 0 {
                    assert(timeline[k] == rest[k - 1]);
                }
            }
            assert forall|k: int|
                slot(timeline, time) <= k < timeline.len() implies !timeline[k].time.at_or_before(
                time,
            ) by {
                assert(timeline[k] == rest[k - 1]);
            }
        } else {
            assert forall|k: int| 0 <= k < timeline.len() implies !timeline[k].time.at_or_before(
                time,
            ) by {
                if k > 0 {
                    lemma_time_order(timeline[0].time, timeline[k].time, time);
                }
            }
        }
    }
}

/// Filing an entry keeps a substrate well formed; the new link carries the
/// time of the commit that the filing agent sees.
pub proof fn lemma_index_wf(ledger: LedgerView, me: Seq<u8>, anchor: Seq<char>, target: Seq<u8>, tag: LinkTag)
    requires
        ledger.wf(),
    ensures
        ledger.index(me, anchor, target, tag).0.wf(),
        ledger.index(me, anchor, target, tag).0.commits == ledger.commits,
        ledger.index(me, anchor, target, tag).0.contents == ledger.contents,
        ledger.index(me, anchor, target, tag).0.module == ledger.module,
        ledger.fetch(me, target) is Some ==> ledger.index(me, anchor, target, tag).1
            == EventView::Done,
{
    let after = ledger.index(me, anchor, target, tag).0;
    match ledger.fetch(me, target) {
        Some(record) => {
            let at = lemma_find_some(ledger.commits, me, target);
            let time = record.created_at;
            let place = slot(ledger.timeline, time) as int;
            let added = TimeLinkView { anchor, target, tag, time };
            lemma_slot(ledger.timeline, time);
            assert forall|i: int, j: int| 0 <= i < j < after.timeline.len() implies (
            #[trigger] after.timeline[i]).time.at_or_before((#[trigger] after.timeline[j]).time) by {
                let a = after.timeline[i];
                let b = after.timeline[j];
                if j < place {
                    assert(a == ledger.timeline[i] && b == ledger.timeline[j]);
                } else if j == place {
                    assert(a == ledger.timeline[i]);
                } else if i < place {
                    assert(a == ledger.timeline[i] && b == ledger.timeline[j - 1]);
                } else if i == place {
                    assert(b == ledger.timeline[j - 1]);
                    lemma_time_order(time, b.time, time);
                } else {
                    assert(a == ledger.timeline[i - 1] && b == ledger.timeline[j - 1]);
                }
            }
            assert forall|i: int| 0 <= i < after.timeline.len() implies after.targeted(
                (#[trigger] after.timeline[i]).target,
            ) by {
                if i < place {
                    assert(after.timeline[i] == ledger.timeline[i]);
                    assert(ledger.targeted(ledger.timeline[i].target));
                } else if i == place {
                    assert(ledger.commits[at].record.address == target);
                } else {
                    assert(after.timeline[i] == ledger.timeline[i - 1]);
                    assert(ledger.targeted(ledger.timeline[i - 1].target));
                }
            }
            assert forall|i: int, k: int|
                0 <= i < after.timeline.len() && 0 <= k < after.commits.len() && (
                #[trigger] after.timeline[i]).target == (#[trigger] after.commits[k]).record.address
                    && after.commits[k].record.entry.visibility()
                    == Visibility::Public implies after.timeline[i].time
                == after.commits[k].record.created_at by {
                if i < place {
                    assert(after.timeline[i] == ledger.timeline[i]);
                } else if i == place {
                    lemma_same_address_same_entry(ledger, at, k);
                    if k < at {
                        assert(visible(ledger.commits[k], ledger.commits[at].owner));
                    } else if at < k {
                        assert(visible(ledger.commits[at], ledger.commits[k].owner));
                    }
                } else {
                    assert(after.timeline[i] == ledger.timeline[i - 1]);
                }
            }
        },
        None => {},
    }
}

/// The window of an ordered time index is ordered, lies within its bounds,
/// and holds only links of the index.
pub proof fn lemma_window(
    timeline: Seq<TimeLinkView>,
    anchor: Seq<char>,
    from: Timestamp,
    until: Timestamp,
    tag: LinkTag,
)
    requires
        chronological(timeline),
    ensures
        chronological(window_of(timeline, anchor, from, until, tag)),
        forall|i: int|
            0 <= i < window_of(timeline, anchor, from, until, tag).len() ==> {
                &&& in_window(
                    #[trigger] window_of(timeline, anchor, from, until, tag)[i],
                    anchor,
                    from,
                    until,
                    tag,
                )
                &&& timeline.contains(window_of(timeline, anchor, from, until, tag)[i])
            },
    decreases timeline.len(),
{
    if timeline.len() > 0 {
        let before = timeline.drop_last();
        let last = timeline.last();
        assert forall|i: int, j: int| 0 <= i < j < before.len() implies before[i].time.at_or_before(
            before[j].time,
        ) by {
            assert(before[i] == timeline[i] && before[j] == timeline[j]);
        }
        lemma_window(before, anchor, from, until, tag);
        let chosen = window_of(before, anchor, from, until, tag);
        let all = window_of(timeline, anchor, from, until, tag);
        assert forall|i: int| 0 <= i < all.len() implies {
            &&& in_window(#[trigger] all[i], anchor, from, until, tag)
            &&& timeline.contains(all[i])
        } by {
            if i < chosen.len() {
                assert(all[i] == chosen[i]);
                assert(before.contains(chosen[i]));
                let at = choose|at: int| 0 <= at < before.len() && before[at] == chosen[i];
                assert(timeline[at] == chosen[i]);
            } else {
                assert(all[i] == last);
                assert(timeline[timeline.len() - 1] == last);
            }
        }
        assert forall|i: int, j: int| 0 <= i < j < all.len() implies all[i].time.at_or_before(
            all[j].time,
        ) by {
            if j < chosen.len() {
                assert(all[i] == chosen[i] && all[j] == chosen[j]);
            } else {
                assert(all[i] == chosen[i]);
                assert(before.contains(chosen[i]));
                let at = choose|at: int| 0 <= at < before.len() && before[at] == chosen[i];
                assert(timeline[at] == chosen[i]);
                assert(all[j] == timeline[timeline.len() - 1]);
            }
        }
    }
}

/// A list of envelopes that came out whole has one envelope for each
/// address, made from the public expression that the reader finds there.
pub proof fn lemma_public_envelopes(ledger: LedgerView, me: Seq<u8>, addresses: Seq<Seq<u8>>)
    requires
        public_envelopes(ledger, me, addresses) is Ok,
    ensures
        public_envelopes(ledger, me, addresses)->Ok_0.len() == addresses.len(),
        forall|i: int|
            0 <= i < addresses.len() ==> {
                &&& ledger.fetch(me, #[trigger] addresses[i]) is Some
                &&& ledger.fetch(me, addresses[i]).unwrap().entry is Public
                &&& public_envelopes(ledger, me, addresses)->Ok_0[i] == envelope(
                    ledger.fetch(me, addresses[i]).unwrap().entry->Public_0,
                    ledger.fetch(me, addresses[i]).unwrap().address,
                    ledger.fetch(me, addresses[i]).unwrap().created_at,
                    ledger.module,
                    me,
                )
            },
    decreases addresses.len(),
{
    if addresses.len() > 0 {
        let rest = addresses.drop_first();
        lemma_public_envelopes(ledger, me, rest);
        assert forall|i: int| 0 <= i < addresses.len() implies {
            &&& ledger.fetch(me, #[trigger] addresses[i]) is Some
            &&& ledger.fetch(me, addresses[i]).unwrap().entry is Public
            &&& public_envelopes(ledger, me, addresses)->Ok_0[i] == envelope(
                ledger.fetch(me, addresses[i]).unwrap().entry->Public_0,
                ledger.fetch(me, addresses[i]).unwrap().address,
                ledger.fetch(me, addresses[i]).unwrap().created_at,
                ledger.module,
                me,
            )
        } by {
            if i > 0 {
                assert(addresses[i] == rest[i - 1]);
            }
        }
    }
}

/// An agent that took its grants back is on no list of open inboxes.
pub proof fn lemma_without(agents: Seq<Seq<u8>>, agent: Seq<u8>)
    ensures
        !without(agents, agent).contains(agent),
        forall|other: Seq<u8>|
            other != agent ==> (without(agents, agent).contains(other) <==> agents.contains(other)),
    decreases agents.len(),
{
    if agents.len() > 0 {
        let before = agents.drop_last();
        lemma_without(before, agent);
        let kept = without(before, agent);
        let all = without(agents, agent);
        if all.contains(agent) {
            let at = choose|at: int| 0 <= at < all.len() && all[at] == agent;
            if at < kept.len() {
                assert(kept[at] == agent);
            }
        }
        assert forall|other: Seq<u8>| other != agent implies (all.contains(other)
            <==> agents.contains(other)) by {
            if all.contains(other) {
                let at = choose|at: int| 0 <= at < all.len() && all[at] == other;
                if at < kept.len() {
                    assert(kept[at] == other);
                    assert(before.contains(other));
                    let origin = choose|origin: int| 0 <= origin < before.len() && before[origin] == other;
                    assert(agents[origin] == other);
                } else {
                    assert(agents[agents.len() - 1] == other);
                }
            }
            if agents.contains(other) {
                let origin = choose|origin: int| 0 <= origin < agents.len() && agents[origin] == other;
                if origin < before.len() {
                    assert(before[origin] == other);
                    assert(before.contains(other));
                    assert(kept.contains(other));
                    let at = choose|at: int| 0 <= at < kept.len() && kept[at] == other;
                    assert(all[at] == other);
                } else {
                    assert(all[all.len() - 1] == other);
                }
            }
        }
    }
}

/// Naming another entry first does not change which commits a commit
/// leaves.
pub proof fn lemma_same_commits(ledger: LedgerView, named: LedgerView, me: Seq<u8>, entry: EntryView)
    requires
        ledger.wf(),
        named.wf(),
        named.commits == ledger.commits,
        named.clock == ledger.clock,
        forall|other: EntryView|
            position(ledger.contents, other) < ledger.contents.len() ==> position(
                named.contents,
                other,
            ) == position(ledger.contents, other),
        named.contents.len() >= ledger.contents.len(),
    ensures
        named.fetch(me, named.hash(entry).1) is Some <==> ledger.fetch(me, ledger.hash(entry).1)
            is Some,
{
    lemma_hash_wf(ledger, entry);
    lemma_hash_wf(named, entry);
    let a = ledger.hash(entry).1;
    let b = named.hash(entry).1;
    if ledger.fetch(me, a) is Some {
        let k = lemma_find_some(ledger.commits, me, a);
        lemma_position(ledger.contents, ledger.commits[k].record.entry);
        lemma_position(ledger.contents, entry);
        lemma_address_injective(
            position(ledger.contents, ledger.commits[k].record.entry),
            position(ledger.contents, entry),
        );
        assert(position(ledger.contents, entry) < ledger.contents.len());
        assert(a == b);
    }
    if named.fetch(me, b) is Some {
        let k = lemma_find_some(named.commits, me, b);
        lemma_same_address_entry_at(named, k, entry);
        assert(ledger.commits[k].record.entry == entry);
        assert(position(ledger.contents, entry) < ledger.contents.len());
        assert(a == b);
    }
}

/// A commit at the address of an entry holds that entry.
pub proof fn lemma_same_address_entry_at(ledger: LedgerView, k: int, entry: EntryView)
    requires
        ledger.wf(),
        0 <= k < ledger.commits.len(),
        ledger.commits[k].record.address == ledger.hash(entry).1,
    ensures
        ledger.commits[k].record.entry == entry,
{
    let held = ledger.commits[k].record.entry;
    lemma_position(ledger.contents, held);
    lemma_position(ledger.contents, entry);
    lemma_address_injective(position(ledger.contents, held), position(ledger.contents, entry));
}

/// Every link of the time index that lies in a window is on the window's
/// list.
pub proof fn lemma_window_holds(
    timeline: Seq<TimeLinkView>,
    anchor: Seq<char>,
    from: Timestamp,
    until: Timestamp,
    tag: LinkTag,
    at: int,
)
    requires
        0 <= at < timeline.len(),
        in_window(timeline[at], anchor, from, until, tag),
    ensures
        window_of(timeline, anchor, from, until, tag).contains(timeline[at]),
    decreases timeline.len(),
{
    let before = timeline.drop_last();
    let chosen = window_of(before, anchor, from, until, tag);
    let all = window_of(timeline, anchor, from, until, tag);
    if at == timeline.len() - 1 {
        assert(all[all.len() - 1] == timeline[at]);
    } else {
        assert(before[at] == timeline[at]);
        lemma_window_holds(before, anchor, from, until, tag, at);
        let found = choose|found: int| 0 <= found < chosen.len() && chosen[found] == timeline[at];
        assert(all[found] == timeline[at]);
    }
}

/// The records that an agent committed itself, of one kind, are all of
/// that kind.
pub proof fn lemma_own_records(commits: Seq<CommitView>, me: Seq<u8>, kind: EntryKind)
    ensures
        forall|i: int|
            0 <= i < own_records(commits, me, kind).len() ==> (#[trigger] own_records(
                commits,
                me,
                kind,
            )[i]).entry.kind() == Some(kind),
    decreases commits.len(),
{
    if commits.len() > 0 {
        lemma_own_records(commits.drop_last(), me, kind);
    }
}

/// Records that are all private expressions make as many envelopes, and
/// no error.
pub proof fn lemma_local_envelopes(records: Seq<RecordView>, module: Seq<char>, me: Seq<u8>)
    requires
        forall|i: int| 0 <= i < records.len() ==> (#[trigger] records[i]).entry is Private,
    ensures
        local_envelopes(records, module, me) is Ok,
        (local_envelopes(records, module, me)->Ok_0).len() == records.len(),
    decreases records.len(),
{
    if records.len() > 0 {
        let rest = records.drop_first();
        assert forall|i: int| 0 <= i < rest.len() implies (#[trigger] rest[i]).entry is Private by {
            assert(rest[i] == records[i + 1]);
        }
        lemma_local_envelopes(rest, module, me);
        assert(records[0].entry is Private);
    }
}

/// A member lookup passes over the members of other names: one more member
/// under another key, wherever it stands, changes nothing.
pub proof fn lemma_member_value_skips(
    members: Seq<(Seq<char>, Seq<char>)>,
    extra: (Seq<char>, Seq<char>),
    at: int,
    key: Seq<char>,
)
    requires
        0 <= at <= members.len(),
        extra.0 != key,
    ensures
        member_value(members.insert(at, extra), key) == member_value(members, key),
    decreases at,
{
    let wider = members.insert(at, extra);
    if at == 0 {
        assert(wider.drop_first() =~= members);
    } else {
        assert(wider[0] == members[0]);
        assert(wider.drop_first() =~= members.drop_first().insert(at - 1, extra));
        lemma_member_value_skips(members.drop_first(), extra, at - 1, key);
    }
}

pub proof fn lemma_no_member(members: Seq<(Seq<char>, Seq<char>)>, key: Seq<char>)
    requires
        forall|i: int| 0 <= i < members.len() ==> (#[trigger] members[i]).0 != key,
    ensures
        member_value(members, key) is None,
    decreases members.len(),
{
    if members.len() > 0 {
        let rest = members.drop_first();
        assert(members[0].0 != key);
        assert forall|i: int| 0 <= i < rest.len() implies (#[trigger] rest[i]).0 != key by {
            assert(rest[i] == members[i + 1]);
        }
        lemma_no_member(rest, key);
    }
}

} // verus!
