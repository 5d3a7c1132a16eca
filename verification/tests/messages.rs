use shortform::{
    expression_entry_def, init, private_expression_entry_def, required_dnas, validate_agent,
    Access, Address, ExpressionError, Fault, LinkTag, Timestamp, Visibility,
};

#[test]
fn each_error_has_its_message() {
    assert_eq!(
        ExpressionError::Serialization.message(),
        "Could not serialized content into ShortForm expression type"
    );
    assert_eq!(
        ExpressionError::RequestError("bad page".to_string()).message(),
        "Invalid Request Data. Error: bad page"
    );
    assert_eq!(
        ExpressionError::InternalError("disk".to_string()).message(),
        "Internal Error. Error: disk"
    );
    assert_eq!(
        ExpressionError::Unauthorized.message(),
        "recipient is not accepting private messages"
    );
    assert_eq!(
        ExpressionError::NetworkUnreachable.message(),
        "recipient is currently unreachable"
    );
    assert_eq!(ExpressionError::Remote("peer said no".to_string()).message(), "peer said no");
}

#[test]
fn error_builders_keep_their_detail() {
    assert_eq!(ExpressionError::request("x"), ExpressionError::RequestError("x".to_string()));
    assert_eq!(ExpressionError::internal("y"), ExpressionError::InternalError("y".to_string()));
}

#[test]
fn faults_keep_their_kind() {
    assert_eq!(
        ExpressionError::from_fault(Fault::Substrate("io".to_string())),
        ExpressionError::InternalError("io".to_string())
    );
    assert_eq!(ExpressionError::from_fault(Fault::Unauthorized), ExpressionError::Unauthorized);
    assert_eq!(
        ExpressionError::from_fault(Fault::NetworkUnreachable),
        ExpressionError::NetworkUnreachable
    );
    assert_eq!(
        ExpressionError::from_fault(Fault::Remote("boom".to_string())),
        ExpressionError::Remote("boom".to_string())
    );
}

#[test]
fn init_opens_the_inbox_to_everyone() {
    let policy = init();
    assert_eq!(policy.tag, "");
    assert_eq!(policy.function, "recv_private_expression");
    assert_eq!(policy.access, Access::Unrestricted);
    assert_eq!(policy.function, shortform::zome::RECEIVE_FUNCTION);
}

#[test]
fn every_agent_is_valid() {
    assert_eq!(validate_agent(&Address::new(vec![])), Ok(()));
    assert_eq!(validate_agent(&Address::new(b"anyone at all".to_vec())), Ok(()));
}

#[test]
fn no_other_module_is_required() {
    assert!(required_dnas().0.is_empty());
}

#[test]
fn entry_definitions_name_their_visibility() {
    let public = expression_entry_def();
    assert_eq!(public.id, "shortform_expression");
    assert_eq!(public.visibility, Visibility::Public);
    assert_eq!(public.link, LinkTag::Expression);
    let private = private_expression_entry_def();
    assert_eq!(private.id, "private_shortform_expression");
    assert_eq!(private.visibility, Visibility::Private);
    assert_eq!(private.link, LinkTag::Inbox);
}

#[test]
fn link_tags_are_spelled_as_the_substrate_spells_them() {
    assert_eq!(LinkTag::Expression.as_str(), "expression");
    assert_eq!(LinkTag::Inbox.as_str(), "inbox");
}

#[test]
fn time_is_ordered_by_seconds_then_nanoseconds() {
    let a = Timestamp::new(10, 5);
    let b = Timestamp::new(10, 6);
    let c = Timestamp::new(11, 0);
    let early = Timestamp::new(-3, 999_999_999);
    assert!(a.is_at_or_before(&a));
    assert!(a.is_at_or_before(&b));
    assert!(!b.is_at_or_before(&a));
    assert!(b.is_at_or_before(&c));
    assert!(!c.is_at_or_before(&b));
    assert!(early.is_at_or_before(&a));
    assert!(b.is_within(&a, &c));
    assert!(a.is_within(&a, &a));
    assert!(!early.is_within(&a, &c));
    assert!(!c.is_within(&a, &b));
    assert!(!b.is_within(&c, &a));
}

#[test]
fn addresses_compare_by_their_bytes() {
    let a = Address::new(vec![1, 2, 3]);
    assert!(a.same(&Address::new(vec![1, 2, 3])));
    assert!(a.same(&a.clone()));
    assert!(!a.same(&Address::new(vec![1, 2])));
    assert!(!a.same(&Address::new(vec![1, 2, 4])));
    assert!(!a.same(&Address::new(vec![])));
    assert!(Address::new(vec![]).same(&Address::new(vec![])));
}
