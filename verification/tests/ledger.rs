use shortform::{
    init, Access, AccessPolicy, Address, CreateExpression, Entry, EntryKind, Event,
    ExpressionDNA, ExpressionError,
    ExpressionProof, Fault, Ledger, LinkTag, Outcome, PrivateAcaiAgent,
    PrivateShortFormExpression, ShortFormExpression, ShortFormExpressionData, Timestamp,
};

fn request_by(author: &str, payload: &str) -> CreateExpression {
    CreateExpression {
        data: payload.to_string(),
        author: author.to_string(),
        timestamp: Timestamp::new(1, 0),
        proof: ExpressionProof { signature: "s".to_string(), key: "k".to_string() },
    }
}

fn hello(author: &str, body: &str) -> CreateExpression {
    request_by(author, &format!("{{\"background\":[],\"body\":\"{}\"}}", body))
}

fn agent(name: &str) -> Address {
    Address::new(name.as_bytes().to_vec())
}

fn at(secs: i64) -> Timestamp {
    Timestamp::new(secs, 0)
}

fn world() -> Ledger {
    let mut ledger = Ledger::new("shortform-dna".to_string());
    ledger.grant(agent("alice"), &init());
    ledger.grant(agent("bob"), &init());
    ledger
}

#[test]
fn alice_publishes_bob_reads_alice_whispers_bob_opens_his_inbox() {
    let alice = agent("alice");
    let bob = agent("bob");
    let mut ledger = world();

    ledger.set_clock(at(100));
    let created = ledger
        .create_public_expression(&alice, hello("alice", "hello"))
        .unwrap();
    assert_eq!(created.expression_data.data.body, "hello");
    assert!(created.expression_data.data.background.is_empty());
    assert_eq!(created.holochain_data.creator, alice);
    assert_eq!(created.holochain_data.created_at, at(100));
    assert_eq!(created.holochain_data.expression_dna, "shortform-dna");

    ledger.set_clock(at(150));
    let page = ledger
        .get_by_author(&bob, "alice".to_string(), at(0), at(200))
        .unwrap();
    assert_eq!(page.len(), 1);
    assert_eq!(page[0].expression_data, created.expression_data);
    assert_eq!(page[0].holochain_data.address, created.holochain_data.address);
    assert_eq!(page[0].holochain_data.created_at, at(100));
    assert_eq!(page[0].holochain_data.expression_dna, "shortform-dna");
    assert_eq!(page[0].holochain_data.creator, bob);

    ledger.set_clock(at(160));
    let sent = ledger
        .send_private(&alice, bob.clone(), request_by("alice", r#"{"body":"psst","background":[]}"#))
        .unwrap();
    assert_eq!(sent.data.body, "psst");

    ledger.set_clock(at(170));
    let inbox = ledger.inbox(&bob, Some("alice".to_string()), 10, 0).unwrap();
    assert_eq!(inbox.len(), 1);
    assert_eq!(inbox[0].expression_data, sent);
    assert_eq!(inbox[0].holochain_data.creator, bob);
    assert_ne!(inbox[0].holochain_data.creator, alice);
    assert_eq!(inbox[0].holochain_data.created_at, at(160));

    let all = ledger.inbox(&bob, None, 10, 0).unwrap();
    assert_eq!(all, inbox);
    assert!(ledger.inbox(&alice, None, 10, 0).unwrap().is_empty());
    assert!(ledger.inbox(&alice, Some("alice".to_string()), 10, 0).is_err());
}

#[test]
fn what_is_published_is_found_at_its_address() {
    let alice = agent("alice");
    let carol = agent("carol");
    let mut ledger = world();
    ledger.set_clock(at(7));
    let created = ledger
        .create_public_expression(
            &alice,
            request_by("alice", r#"{"background":["ctx","more"],"body":"findable"}"#),
        )
        .unwrap();
    for reader in [&alice, &carol] {
        let found = ledger
            .get_expression_by_address(reader, created.holochain_data.address.clone())
            .unwrap()
            .unwrap();
        assert_eq!(found.expression_data, created.expression_data);
        assert_eq!(found.holochain_data.address, created.holochain_data.address);
        assert_eq!(found.holochain_data.created_at, at(7));
        assert_eq!(&found.holochain_data.creator, reader);
    }
}

#[test]
fn nothing_is_found_where_nothing_was_committed() {
    let mut ledger = world();
    assert_eq!(
        ledger.get_expression_by_address(&agent("alice"), Address::new(vec![9; 8])),
        Ok(None)
    );
    assert_eq!(ledger.get_expression_by_address(&agent("alice"), Address::new(vec![])), Ok(None));
}

#[test]
fn publishing_a_bad_payload_changes_nothing() {
    let alice = agent("alice");
    let mut ledger = world();
    assert_eq!(
        ledger.create_public_expression(&alice, request_by("alice", r#"{"body":"x"}"#)),
        Err(ExpressionError::RequestError(
            "Could not serialized content into ShortForm expression type".to_string()
        ))
    );
    assert!(ledger
        .get_by_author(&alice, "alice".to_string(), at(i64::MIN), at(i64::MAX))
        .unwrap()
        .is_empty());
    assert!(ledger.query_local(&alice, EntryKind::PublicExpression).is_empty());
}

#[test]
fn a_page_is_sorted_by_commit_time_and_bounded_by_its_window() {
    let alice = agent("alice");
    let mut ledger = world();
    for (time, body) in [(50, "fifty"), (10, "ten"), (30, "thirty"), (20, "twenty"), (40, "forty")] {
        ledger.set_clock(at(time));
        ledger.create_public_expression(&alice, hello("alice", body)).unwrap();
    }
    ledger.set_clock(at(25));
    ledger.create_public_expression(&alice, hello("someone else", "other")).unwrap();

    let page = ledger.get_by_author(&alice, "alice".to_string(), at(20), at(40)).unwrap();
    let bodies: Vec<&str> = page.iter().map(|e| e.expression_data.data.body.as_str()).collect();
    assert_eq!(bodies, vec!["twenty", "thirty", "forty"]);
    let times: Vec<Timestamp> = page.iter().map(|e| e.holochain_data.created_at).collect();
    assert_eq!(times, vec![at(20), at(30), at(40)]);

    let all = ledger
        .get_by_author(&alice, "alice".to_string(), at(i64::MIN), at(i64::MAX))
        .unwrap();
    let bodies: Vec<&str> = all.iter().map(|e| e.expression_data.data.body.as_str()).collect();
    assert_eq!(bodies, vec!["ten", "twenty", "thirty", "forty", "fifty"]);
}

#[test]
fn a_window_cuts_within_a_second() {
    let alice = agent("alice");
    let mut ledger = world();
    for nanos in [0u32, 500, 999_999_999] {
        ledger.set_clock(Timestamp::new(10, nanos));
        ledger.create_public_expression(&alice, hello("alice", &format!("n{}", nanos))).unwrap();
    }
    let page = ledger
        .get_by_author(&alice, "alice".to_string(), Timestamp::new(10, 1), Timestamp::new(10, 999_999_998))
        .unwrap();
    assert_eq!(page.len(), 1);
    assert_eq!(page[0].expression_data.data.body, "n500");
    let edge = ledger
        .get_by_author(&alice, "alice".to_string(), Timestamp::new(10, 500), Timestamp::new(10, 500))
        .unwrap();
    assert_eq!(edge.len(), 1);
}

#[test]
fn entries_of_one_instant_keep_the_order_of_their_commits() {
    let alice = agent("alice");
    let mut ledger = world();
    ledger.set_clock(at(5));
    for body in ["a", "b", "c"] {
        ledger.create_public_expression(&alice, hello("alice", body)).unwrap();
    }
    let page = ledger.get_by_author(&alice, "alice".to_string(), at(5), at(5)).unwrap();
    let bodies: Vec<&str> = page.iter().map(|e| e.expression_data.data.body.as_str()).collect();
    assert_eq!(bodies, vec!["a", "b", "c"]);
}

#[test]
fn a_window_without_entries_gives_an_empty_page() {
    let alice = agent("alice");
    let mut ledger = world();
    assert_eq!(ledger.get_by_author(&alice, "alice".to_string(), at(0), at(100)), Ok(vec![]));
    ledger.set_clock(at(100));
    ledger.create_public_expression(&alice, hello("alice", "hello")).unwrap();
    assert_eq!(ledger.get_by_author(&alice, "alice".to_string(), at(0), at(99)), Ok(vec![]));
    assert_eq!(ledger.get_by_author(&alice, "alice".to_string(), at(101), at(200)), Ok(vec![]));
    assert_eq!(ledger.get_by_author(&alice, "alice".to_string(), at(200), at(0)), Ok(vec![]));
    assert_eq!(ledger.get_by_author(&alice, "nobody".to_string(), at(0), at(200)), Ok(vec![]));
}

#[test]
fn publishing_the_same_content_twice_gives_one_address_and_two_links() {
    let alice = agent("alice");
    let mut ledger = world();
    ledger.set_clock(at(10));
    let first = ledger.create_public_expression(&alice, hello("alice", "again")).unwrap();
    ledger.set_clock(at(20));
    let second = ledger.create_public_expression(&alice, hello("alice", "again")).unwrap();
    assert_eq!(first.holochain_data.address, second.holochain_data.address);
    assert_eq!(second.holochain_data.created_at, at(10));
    assert_eq!(ledger.query_local(&alice, EntryKind::PublicExpression).len(), 1);
    let page = ledger.get_by_author(&alice, "alice".to_string(), at(0), at(100)).unwrap();
    assert_eq!(page.len(), 2);
    assert_eq!(page[0], page[1]);
}

#[test]
fn different_content_gets_different_addresses() {
    let alice = agent("alice");
    let mut ledger = world();
    let a = ledger.create_public_expression(&alice, hello("alice", "one")).unwrap();
    let b = ledger.create_public_expression(&alice, hello("alice", "two")).unwrap();
    let c = ledger.create_public_expression(&alice, hello("alice2", "one")).unwrap();
    assert_ne!(a.holochain_data.address, b.holochain_data.address);
    assert_ne!(a.holochain_data.address, c.holochain_data.address);
    assert_ne!(b.holochain_data.address, c.holochain_data.address);
}

#[test]
fn a_corrupt_index_entry_aborts_the_page() {
    let alice = agent("alice");
    let mut ledger = world();
    ledger.set_clock(at(10));
    ledger.create_public_expression(&alice, hello("alice", "fine")).unwrap();
    let marker = ledger.commit(&alice, Entry::Marker(PrivateAcaiAgent("x".to_string())));
    assert_eq!(
        ledger.index_by_time(&alice, "alice".to_string(), marker, LinkTag::Expression),
        Event::Done
    );
    assert_eq!(
        ledger.get_by_author(&alice, "alice".to_string(), at(0), at(100)),
        Err(ExpressionError::RequestError(
            "Could not deserialize link expression data into ShortFormExpression".to_string()
        ))
    );
    assert_eq!(
        ledger.get_by_author(&agent("bob"), "alice".to_string(), at(0), at(100)),
        Err(ExpressionError::RequestError("Could not get entry after commit".to_string()))
    );
}

#[test]
fn what_is_not_committed_cannot_be_indexed() {
    let alice = agent("alice");
    let mut ledger = world();
    assert_eq!(
        ledger.index_by_time(&alice, "alice".to_string(), Address::new(vec![1]), LinkTag::Expression),
        Event::Failed(Fault::Substrate("Cannot index an entry that is not committed".to_string()))
    );
    assert!(ledger
        .query_by_time(&"alice".to_string(), at(i64::MIN), at(i64::MAX), LinkTag::Expression)
        .is_empty());
}

#[test]
fn a_peer_with_a_closed_inbox_refuses() {
    let alice = agent("alice");
    let carol = agent("carol");
    let mut ledger = world();
    let error = ledger.send_private(&alice, carol.clone(), hello("alice", "psst")).unwrap_err();
    assert_eq!(error, ExpressionError::Unauthorized);
    assert_eq!(error.message(), "recipient is not accepting private messages");
    assert!(ledger.inbox(&carol, None, 10, 0).unwrap().is_empty());
}

#[test]
fn a_peer_that_is_offline_cannot_be_reached() {
    let alice = agent("alice");
    let bob = agent("bob");
    let mut ledger = world();
    ledger.disconnect(bob.clone());
    let error = ledger.send_private(&alice, bob.clone(), hello("alice", "psst")).unwrap_err();
    assert_eq!(error, ExpressionError::NetworkUnreachable);
    assert_eq!(error.message(), "recipient is currently unreachable");
    assert!(ledger.inbox(&bob, None, 10, 0).unwrap().is_empty());
}

#[test]
fn a_bad_payload_is_not_sent() {
    let alice = agent("alice");
    let bob = agent("bob");
    let mut ledger = world();
    assert_eq!(
        ledger.send_private(&alice, bob.clone(), request_by("alice", "[]")),
        Err(ExpressionError::RequestError(
            "Could not serialized content into ShortForm expression type".to_string()
        ))
    );
    assert!(ledger.inbox(&bob, None, 10, 0).unwrap().is_empty());
}

#[test]
fn the_sender_keeps_no_copy() {
    let alice = agent("alice");
    let bob = agent("bob");
    let mut ledger = world();
    ledger.send_private(&alice, bob.clone(), hello("alice", "psst")).unwrap();
    assert!(ledger.query_local(&alice, EntryKind::PrivateExpression).is_empty());
    assert!(ledger.query_local(&alice, EntryKind::PeerMarker).is_empty());
    assert_eq!(ledger.query_local(&bob, EntryKind::PrivateExpression).len(), 1);
    assert_eq!(ledger.query_local(&bob, EntryKind::PeerMarker).len(), 1);
}

#[test]
fn two_deliveries_share_one_marker_and_make_two_links() {
    let bob = agent("bob");
    let mut ledger = world();
    let first = PrivateShortFormExpression::from(
        ShortFormExpression::try_from(hello("alice", "one")).unwrap(),
    );
    let second = PrivateShortFormExpression::from(
        ShortFormExpression::try_from(hello("alice", "two")).unwrap(),
    );
    assert_eq!(ledger.recv_private_expression(&bob, first.clone()), Ok(()));
    assert_eq!(ledger.recv_private_expression(&bob, second.clone()), Ok(()));

    let markers = ledger.query_local(&bob, EntryKind::PeerMarker);
    assert_eq!(markers.len(), 1);
    assert_eq!(markers[0].entry, Entry::Marker(PrivateAcaiAgent("alice".to_string())));
    let targets = ledger.links_of(&markers[0].address, LinkTag::Inbox);
    assert_eq!(targets.len(), 2);
    assert_ne!(targets[0], targets[1]);
    assert!(ledger.links_of(&markers[0].address, LinkTag::Expression).is_empty());

    let inbox = ledger.inbox(&bob, Some("alice".to_string()), 10, 0).unwrap();
    let got: Vec<&PrivateShortFormExpression> = inbox.iter().map(|e| &e.expression_data).collect();
    assert_eq!(got, vec![&first, &second]);
    assert_eq!(inbox[0].holochain_data.address, targets[0]);
    assert_eq!(inbox[1].holochain_data.address, targets[1]);
}

#[test]
fn the_same_message_twice_makes_two_links_to_one_address() {
    let bob = agent("bob");
    let mut ledger = world();
    let message = PrivateShortFormExpression::from(
        ShortFormExpression::try_from(hello("alice", "same")).unwrap(),
    );
    ledger.recv_private_expression(&bob, message.clone()).unwrap();
    ledger.recv_private_expression(&bob, message.clone()).unwrap();
    let markers = ledger.query_local(&bob, EntryKind::PeerMarker);
    assert_eq!(markers.len(), 1);
    let targets = ledger.links_of(&markers[0].address, LinkTag::Inbox);
    assert_eq!(targets.len(), 2);
    assert_eq!(targets[0], targets[1]);
    assert_eq!(ledger.query_local(&bob, EntryKind::PrivateExpression).len(), 1);
    assert_eq!(ledger.inbox(&bob, Some("alice".to_string()), 10, 0).unwrap().len(), 2);
    assert_eq!(ledger.inbox(&bob, None, 10, 0).unwrap().len(), 1);
}

#[test]
fn markers_are_kept_apart_by_sender() {
    let bob = agent("bob");
    let mut ledger = world();
    ledger.send_private(&agent("alice"), bob.clone(), hello("alice", "from alice")).unwrap();
    ledger.send_private(&agent("carol"), bob.clone(), hello("carol", "from carol")).unwrap();
    let from_alice = ledger.inbox(&bob, Some("alice".to_string()), 10, 0).unwrap();
    let from_carol = ledger.inbox(&bob, Some("carol".to_string()), 10, 0).unwrap();
    assert_eq!(from_alice.len(), 1);
    assert_eq!(from_alice[0].expression_data.data.body, "from alice");
    assert_eq!(from_carol.len(), 1);
    assert_eq!(from_carol[0].expression_data.data.body, "from carol");
    assert_eq!(ledger.inbox(&bob, Some("dave".to_string()), 10, 0), Ok(vec![]));
    assert_eq!(ledger.inbox(&bob, None, 10, 0).unwrap().len(), 2);
    assert_eq!(ledger.query_local(&bob, EntryKind::PeerMarker).len(), 2);
}

#[test]
fn the_inbox_comes_whole_whatever_the_page() {
    let bob = agent("bob");
    let mut ledger = world();
    for body in ["1", "2", "3"] {
        ledger.send_private(&agent("alice"), bob.clone(), hello("alice", body)).unwrap();
    }
    let whole = ledger.inbox(&bob, Some("alice".to_string()), 10, 0).unwrap();
    assert_eq!(whole.len(), 3);
    assert_eq!(ledger.inbox(&bob, Some("alice".to_string()), 1, 0).unwrap(), whole);
    assert_eq!(ledger.inbox(&bob, Some("alice".to_string()), 1, 2).unwrap(), whole);
    assert_eq!(ledger.inbox(&bob, Some("alice".to_string()), 0, 0).unwrap(), whole);
    assert_eq!(ledger.inbox(&bob, None, 2, 5).unwrap(), whole);
}

#[test]
fn private_entries_are_seen_by_their_committer_only() {
    let alice = agent("alice");
    let bob = agent("bob");
    let mut ledger = world();
    let message = PrivateShortFormExpression::from(
        ShortFormExpression::try_from(hello("alice", "secret")).unwrap(),
    );
    let address = ledger.commit(&bob, Entry::Private(message.clone()));
    assert!(ledger.get(&bob, &address).is_some());
    assert!(ledger.get(&alice, &address).is_none());
    assert_eq!(ledger.hash(Entry::Private(message.clone())), address);
    let again = ledger.commit(&alice, Entry::Private(message));
    assert_eq!(again, address);
    assert!(ledger.get(&alice, &address).is_some());
    assert_eq!(ledger.query_local(&alice, EntryKind::PrivateExpression).len(), 1);
    assert_eq!(ledger.query_local(&bob, EntryKind::PrivateExpression).len(), 1);
}

#[test]
fn the_inbox_of_another_receiver_breaks_the_link_list() {
    let bob = agent("bob");
    let carol = agent("carol");
    let mut ledger = world();
    ledger.grant(carol.clone(), &init());
    ledger.send_private(&agent("alice"), bob.clone(), hello("alice", "for bob")).unwrap();
    ledger.send_private(&agent("alice"), carol.clone(), hello("alice", "for carol")).unwrap();
    assert_eq!(
        ledger.inbox(&bob, Some("alice".to_string()), 10, 0),
        Err(ExpressionError::RequestError("Could not get entry after commit".to_string()))
    );
    let all = ledger.inbox(&bob, None, 10, 0).unwrap();
    assert_eq!(all.len(), 1);
    assert_eq!(all[0].expression_data.data.body, "for bob");
}

#[test]
fn a_delivery_cannot_call_on() {
    let bob = agent("bob");
    let mut ledger = world();
    let outcome = ledger.run(&bob, ExpressionDNA::recv_private_expression(
        PrivateShortFormExpression::from(ShortFormExpression::try_from(hello("alice", "x")).unwrap()),
    ));
    assert_eq!(outcome, Ok(Outcome::Received));
}

#[test]
fn running_a_lookup_by_hand_agrees_with_the_ledger() {
    let alice = agent("alice");
    let mut ledger = world();
    ledger.set_clock(at(3));
    let created = ledger.create_public_expression(&alice, hello("alice", "x")).unwrap();
    let by_run = ledger.run(
        &alice,
        ExpressionDNA::get_expression_by_address(created.holochain_data.address.clone()),
    );
    match by_run {
        Ok(Outcome::Found(found)) => assert_eq!(found.0, Some(created)),
        other => panic!("{:?}", other),
    }
}

#[test]
fn expression_data_compares_by_content() {
    let a = ShortFormExpressionData { background: vec!["x".to_string()], body: "b".to_string() };
    let b = ShortFormExpressionData { background: vec!["x".to_string()], body: "b".to_string() };
    let c = ShortFormExpressionData { background: vec![], body: "b".to_string() };
    let d = ShortFormExpressionData { background: vec!["x".to_string()], body: "c".to_string() };
    assert!(a.same(&b));
    assert!(!a.same(&c));
    assert!(!a.same(&d));
    assert!(Entry::Foreign.same(&Entry::Foreign));
    assert!(!Entry::Foreign.same(&Entry::Marker(PrivateAcaiAgent("x".to_string()))));
}

#[test]
fn a_peer_that_revoked_its_grant_refuses() {
    let alice = agent("alice");
    let bob = agent("bob");
    let mut ledger = world();
    ledger.grant(bob.clone(), &init());
    ledger.send_private(&alice, bob.clone(), hello("alice", "before")).unwrap();
    ledger.revoke(&bob);
    assert_eq!(
        ledger.send_private(&alice, bob.clone(), hello("alice", "after")),
        Err(ExpressionError::Unauthorized)
    );
    assert_eq!(ledger.inbox(&bob, None, 10, 0).unwrap().len(), 1);
    ledger.send_private(&bob, alice.clone(), hello("bob", "still open")).unwrap();
    ledger.grant(bob.clone(), &init());
    ledger.send_private(&alice, bob.clone(), hello("alice", "again")).unwrap();
    assert_eq!(ledger.inbox(&bob, None, 10, 0).unwrap().len(), 2);
}

#[test]
fn only_the_grant_of_the_open_inbox_opens_it() {
    let alice = agent("alice");
    let carol = agent("carol");
    let mut ledger = world();
    for (tag, function) in [("", "create_public_expression"), ("x", "recv_private_expression"), ("", "")] {
        ledger.grant(
            carol.clone(),
            &AccessPolicy {
                tag: tag.to_string(),
                function: function.to_string(),
                access: Access::Unrestricted,
            },
        );
        assert_eq!(
            ledger.send_private(&alice, carol.clone(), hello("alice", "psst")),
            Err(ExpressionError::Unauthorized)
        );
    }
}

#[test]
fn addresses_count_up_in_little_endian_words() {
    let mut ledger = world();
    let first = ledger.hash(Entry::Marker(PrivateAcaiAgent("a".to_string())));
    let second = ledger.hash(Entry::Marker(PrivateAcaiAgent("b".to_string())));
    let again = ledger.hash(Entry::Marker(PrivateAcaiAgent("a".to_string())));
    assert_eq!(first, Address::new(vec![0, 0, 0, 0, 0, 0, 0, 0]));
    assert_eq!(second, Address::new(vec![1, 0, 0, 0, 0, 0, 0, 0]));
    assert_eq!(again, first);
    for i in 0..300u32 {
        ledger.hash(Entry::Marker(PrivateAcaiAgent(format!("n{}", i))));
    }
    let late = ledger.hash(Entry::Marker(PrivateAcaiAgent("late".to_string())));
    assert_eq!(late, Address::new(vec![46, 1, 0, 0, 0, 0, 0, 0]));
}

#[test]
fn the_whole_inbox_sees_messages_that_no_marker_leads_to() {
    let bob = agent("bob");
    let mut ledger = world();
    let stray = PrivateShortFormExpression::from(
        ShortFormExpression::try_from(hello("alice", "stray")).unwrap(),
    );
    ledger.set_clock(at(9));
    let address = ledger.commit(&bob, Entry::Private(stray.clone()));
    assert_eq!(ledger.inbox(&bob, Some("alice".to_string()), 10, 0), Ok(vec![]));
    let all = ledger.inbox(&bob, None, 10, 0).unwrap();
    assert_eq!(all.len(), 1);
    assert_eq!(all[0].expression_data, stray);
    assert_eq!(all[0].holochain_data.address, address);
    assert_eq!(all[0].holochain_data.created_at, at(9));
    assert_eq!(all[0].holochain_data.creator, bob);
}

#[test]
fn plain_links_are_listed_by_base_and_tag_in_the_order_they_were_made() {
    let mut ledger = world();
    let base = Address::new(vec![1]);
    let other = Address::new(vec![2]);
    ledger.link(base.clone(), Address::new(vec![10]), LinkTag::Inbox);
    ledger.link(other.clone(), Address::new(vec![11]), LinkTag::Inbox);
    ledger.link(base.clone(), Address::new(vec![12]), LinkTag::Expression);
    ledger.link(base.clone(), Address::new(vec![13]), LinkTag::Inbox);
    ledger.link(base.clone(), Address::new(vec![10]), LinkTag::Inbox);
    assert_eq!(
        ledger.links_of(&base, LinkTag::Inbox),
        vec![Address::new(vec![10]), Address::new(vec![13]), Address::new(vec![10])]
    );
    assert_eq!(ledger.links_of(&base, LinkTag::Expression), vec![Address::new(vec![12])]);
    assert_eq!(ledger.links_of(&other, LinkTag::Inbox), vec![Address::new(vec![11])]);
    assert!(ledger.links_of(&Address::new(vec![3]), LinkTag::Inbox).is_empty());
}

#[test]
fn the_time_index_files_by_commit_time_not_by_the_time_of_filing() {
    let alice = agent("alice");
    let mut ledger = world();
    ledger.set_clock(at(30));
    let late = ledger.commit(
        &alice,
        Entry::Public(ShortFormExpression::try_from(hello("alice", "late")).unwrap()),
    );
    ledger.set_clock(at(10));
    let early = ledger.commit(
        &alice,
        Entry::Public(ShortFormExpression::try_from(hello("alice", "early")).unwrap()),
    );
    ledger.set_clock(at(99));
    assert_eq!(
        ledger.index_by_time(&alice, "alice".to_string(), late.clone(), LinkTag::Expression),
        Event::Done
    );
    assert_eq!(
        ledger.index_by_time(&alice, "alice".to_string(), early.clone(), LinkTag::Expression),
        Event::Done
    );
    assert_eq!(
        ledger.query_by_time(&"alice".to_string(), at(0), at(50), LinkTag::Expression),
        vec![early.clone(), late.clone()]
    );
    assert_eq!(
        ledger.query_by_time(&"alice".to_string(), at(11), at(98), LinkTag::Expression),
        vec![late]
    );
    assert!(ledger
        .query_by_time(&"alice".to_string(), at(0), at(50), LinkTag::Inbox)
        .is_empty());
    assert!(ledger
        .query_by_time(&"bob".to_string(), at(0), at(50), LinkTag::Expression)
        .is_empty());
    assert!(ledger
        .query_by_time(&"alice".to_string(), at(31), at(99), LinkTag::Expression)
        .is_empty());
}

#[test]
fn a_send_is_delivered_at_the_clock_of_the_delivery() {
    let alice = agent("alice");
    let bob = agent("bob");
    let mut ledger = world();
    ledger.set_clock(Timestamp::new(1_600_000_000, 123_456_789));
    let sent = ledger.send_private(&alice, bob.clone(), hello("alice", "timed")).unwrap();
    assert_eq!(sent.author, "alice");
    assert_eq!(sent.timestamp, Timestamp::new(1, 0));
    let inbox = ledger.inbox(&bob, Some("alice".to_string()), 0, 0).unwrap();
    assert_eq!(inbox[0].holochain_data.created_at, Timestamp::new(1_600_000_000, 123_456_789));
    assert_eq!(inbox[0].expression_data.timestamp, Timestamp::new(1, 0));
}
