use biscuit_gate::attenuate::bearer_header;
use biscuit_gate::context::RequestContext;
use biscuit_gate::error::AuthError;
use biscuit_gate::facts::{build_facts, Fact, FactKind, SubscriptionFacts};
use biscuit_gate::decision::{decide, identity_from_candidates};
use biscuit_gate::operation::{
    describe, introspect, reached_sets, root_field_names, select_operation, OperationKind, ParsedDocument,
    ParsedFragment, ParsedOperation, Selection,
};
use biscuit_gate::request::conclude_request;
use biscuit_gate::token::extract_token_string;

fn pairs(facts: &[Fact]) -> Vec<(FactKind, String)> {
    facts.iter().map(|f| (f.kind, f.value.clone())).collect()
}

fn names(query: &str, op: Option<&str>) -> (OperationKind, Vec<String>) {
    let d = introspect(query, op).unwrap();
    (d.kind, d.root_fields.iter().map(|f| f.name.clone()).collect())
}

#[test]
fn bearer_prefix_is_stripped() {
    assert_eq!(extract_token_string(None), Ok(None));
    assert_eq!(extract_token_string(Some("Bearer abc")), Ok(Some("abc".to_string())));
    assert_eq!(extract_token_string(Some("Bearer ")), Ok(Some(String::new())));
    assert_eq!(extract_token_string(Some("Bearer")), Err(AuthError::MalformedHeader));
    assert_eq!(extract_token_string(Some("bearer abc")), Err(AuthError::MalformedHeader));
    assert_eq!(extract_token_string(Some("")), Err(AuthError::MalformedHeader));
}

#[test]
fn bearer_header_adds_prefix() {
    assert_eq!(bearer_header("abc"), "Bearer abc");
}

#[test]
fn first_operation_is_selected_without_name() {
    let q = "query A { me { id } test } mutation B { update }";
    assert_eq!(names(q, None), (OperationKind::Query, vec!["me".to_string(), "test".to_string()]));
    assert_eq!(names(q, Some("B")), (OperationKind::Mutation, vec!["update".to_string()]));
    assert_eq!(introspect(q, Some("B")).unwrap().selected_operation_name, Some("B".to_string()));
}

#[test]
fn missing_or_absent_operation() {
    assert_eq!(introspect("query A { me }", Some("C")).unwrap_err(), AuthError::OperationNotFound);
    assert_eq!(introspect("", None).unwrap_err(), AuthError::OperationNotFound);
    assert_eq!(introspect("fragment F on Query { me }", None).unwrap_err(), AuthError::OperationNotFound);
}

#[test]
fn anonymous_query_and_subscription() {
    assert_eq!(names("{ allOrganizations { id } }", None), (OperationKind::Query, vec!["allOrganizations".to_string()]));
    assert_eq!(names("subscription { ticks }", None), (OperationKind::Subscription, vec!["ticks".to_string()]));
}

#[test]
fn fragment_fields_at_root_are_listed() {
    let (_, fields) = names("query { me ... on Query { secret } }", None);
    assert!(fields.contains(&"me".to_string()));
    assert!(fields.contains(&"secret".to_string()));
}

#[test]
fn selection_by_name_takes_the_first_match() {
    let ops = vec![
        ParsedOperation { name: None, kind: OperationKind::Query, selection_set: 0 },
        ParsedOperation { name: Some("X".to_string()), kind: OperationKind::Mutation, selection_set: 1 },
        ParsedOperation { name: Some("X".to_string()), kind: OperationKind::Query, selection_set: 2 },
    ];
    assert_eq!(select_operation(&ops, Some("X")), Ok(1));
    assert_eq!(select_operation(&ops, None), Ok(0));
    assert_eq!(select_operation(&ops, Some("Y")), Err(AuthError::OperationNotFound));
    assert_eq!(select_operation(&Vec::new(), None), Err(AuthError::OperationNotFound));
}

#[test]
fn root_fields_follow_fragments_and_stop_at_cycles() {
    let doc = ParsedDocument {
        selection_sets: vec![
            vec![Selection::Field("a".to_string()), Selection::InlineFragment(1), Selection::FragmentSpread("F".to_string())],
            vec![Selection::Field("b".to_string())],
            vec![Selection::Field("c".to_string()), Selection::FragmentSpread("F".to_string()), Selection::InlineFragment(9)],
            vec![Selection::Field("unreached".to_string())],
        ],
        operations: vec![ParsedOperation { name: None, kind: OperationKind::Query, selection_set: 0 }],
        fragments: vec![ParsedFragment { name: "F".to_string(), selection_set: 2 }],
    };
    let mut names = root_field_names(&doc, 0);
    names.sort();
    assert_eq!(names, vec!["a".to_string(), "b".to_string(), "c".to_string()]);
    assert_eq!(reached_sets(&doc, 0), vec![true, true, true, false]);
    assert_eq!(root_field_names(&doc, 7), Vec::<String>::new());
    let d = describe(&doc, 0);
    assert_eq!(d.root_fields.len(), 3);
}

#[test]
fn field_selections_are_not_root_fields() {
    let (_, fields) = names("{ me { activeOrganization { id } } }", None);
    assert_eq!(fields, vec!["me".to_string()]);
}

#[test]
fn one_fact_per_distinct_root_field() {
    let d = introspect("{ a: me { id } b: me { name } test }", None).unwrap();
    assert_eq!(d.root_fields.len(), 3);
    let facts = build_facts(&d, SubscriptionFacts::Assert, None);
    assert_eq!(
        pairs(&facts),
        vec![(FactKind::Query, "me".to_string()), (FactKind::Query, "test".to_string())]
    );
}

#[test]
fn mutation_and_service_facts() {
    let d = introspect("mutation { update }", None).unwrap();
    let facts = build_facts(&d, SubscriptionFacts::Omit, Some("orga"));
    assert_eq!(
        pairs(&facts),
        vec![(FactKind::Mutation, "update".to_string()), (FactKind::Subgraph, "orga".to_string())]
    );
}

#[test]
fn subscription_facts_follow_configuration() {
    let d = introspect("subscription { ticks }", None).unwrap();
    assert_eq!(pairs(&build_facts(&d, SubscriptionFacts::Omit, None)), vec![]);
    assert_eq!(
        pairs(&build_facts(&d, SubscriptionFacts::Assert, None)),
        vec![(FactKind::Subscription, "ticks".to_string())]
    );
}

#[test]
fn predicate_names() {
    assert_eq!(FactKind::Query.predicate(), "query");
    assert_eq!(FactKind::Mutation.predicate(), "mutation");
    assert_eq!(FactKind::Subscription.predicate(), "subscription");
    assert_eq!(FactKind::Subgraph.predicate(), "subgraph");
}

#[test]
fn identity_needs_exactly_one_candidate() {
    assert_eq!(identity_from_candidates(&vec![]), None);
    assert_eq!(identity_from_candidates(&vec![7]), Some(7));
    assert_eq!(identity_from_candidates(&vec![7, 8]), None);
}

#[test]
fn decision_from_engine_answers() {
    assert_eq!(
        decide(Err("authorization failed".to_string())),
        Err(AuthError::AuthorizationDenied("authorization failed".to_string()))
    );
    assert_eq!(decide(Ok(vec![])), Ok(None));
    assert_eq!(decide(Ok(vec![3])), Ok(Some(3)));
    assert_eq!(decide(Ok(vec![3, 3])), Ok(None));
}

#[test]
fn context_accessors() {
    let mut ctx = RequestContext::new();
    assert_eq!(ctx.raw_token(), None);
    assert_eq!(ctx.identity(), None);
    ctx.set_raw_token("abc".to_string());
    ctx.set_identity(Some(5));
    assert_eq!(ctx.raw_token(), Some("abc"));
    assert_eq!(ctx.identity(), Some(5));
}

#[test]
fn error_messages() {
    assert_eq!(AuthError::TokenInvalid("x".to_string()).message(), "x");
    assert_eq!(AuthError::AttenuationError("y".to_string()).message(), "y");
    assert_eq!(AuthError::InvalidRootKey("z".to_string()).message(), "z");
}

#[test]
fn conclusion_carries_token_and_identity() {
    let ctx = conclude_request(Some("abc".to_string()), Ok(vec![9])).unwrap();
    assert_eq!(ctx.raw_token(), Some("abc"));
    assert_eq!(ctx.identity(), Some(9));
    let ctx = conclude_request(None, Ok(vec![1, 2])).unwrap();
    assert_eq!(ctx.raw_token(), None);
    assert_eq!(ctx.identity(), None);
    assert_eq!(
        conclude_request(Some("abc".to_string()), Err("no".to_string())).unwrap_err(),
        AuthError::AuthorizationDenied("no".to_string())
    );
}
