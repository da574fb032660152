use biscuit_auth::builder::BlockBuilder;
use biscuit_auth::{Biscuit, KeyPair};
use biscuit_gate::attenuate::{attenuate, attenuate_for_hop};
use biscuit_gate::error::AuthError;
use biscuit_gate::facts::{build_facts, SubscriptionFacts};
use biscuit_gate::decision::{consult_engine, evaluate};
use biscuit_gate::operation::introspect;
use biscuit_gate::request::validate_request;
use biscuit_gate::token::{extract_token, root_key_from_hex, RootKey};

const ORGA_POLICY: &str = r#"
        subgraph("orga");

        allow if user($id), query("_entity");
        allow if query("allOrganizations"), orga_service_admin(true) trusting ed25519/b8a73872297bb052b3a8c9b64a23b127cdfc64ba30d9634c10de8644ee6be13f;

        allow if query("_service");
        deny if true;"#;

fn token_with(root: &KeyPair, authority: &str, extra: Option<&str>) -> String {
    let mut builder = Biscuit::builder();
    builder.add_code(authority).unwrap();
    let mut token = builder.build(root).unwrap();
    if let Some(code) = extra {
        let mut block = BlockBuilder::new();
        block.add_code(code).unwrap();
        token = token.append(block).unwrap();
    }
    token.to_base64().unwrap()
}

fn root_of(kp: &KeyPair) -> RootKey {
    root_key_from_hex(&kp.public().to_bytes_hex()).unwrap()
}

fn me_or_test_token(kp: &KeyPair) -> String {
    token_with(
        kp,
        r#"check if query($query), ["me", "test"].contains($query);"#,
        Some(r#"check if query("me")"#),
    )
}

/// Checks a forwarded request the way a downstream service named `service` does.
fn downstream_check(root: &RootKey, service: &str, header: &str) -> Result<Option<i64>, AuthError> {
    let token = extract_token(Some(header), root)?.unwrap();
    let policy = format!("subgraph(\"{}\");\nallow if true", service);
    evaluate(&policy, &Vec::new(), Some(&token.token))
}

#[test]
fn basic_test() {
    let kp = KeyPair::new();
    let root = root_of(&kp);
    let header = format!("Bearer {}", me_or_test_token(&kp));
    let r = validate_request(
        "query { me { activeOrganization { id creatorUser { name } } } }",
        None,
        Some(&header),
        &root,
        "allow if true",
        SubscriptionFacts::Assert,
        None,
    );
    assert!(r.is_ok());
    let ctx = r.unwrap();
    assert_eq!(ctx.raw_token(), Some(&header[7..]));
    assert_eq!(ctx.identity(), None);
}

#[test]
fn failing_test() {
    let kp = KeyPair::new();
    let root = root_of(&kp);
    let header = format!("Bearer {}", me_or_test_token(&kp));
    let r = validate_request(
        "query { otherUser(id: 1) { activeOrganization { id creatorUser { name } } } }",
        None,
        Some(&header),
        &root,
        "allow if true",
        SubscriptionFacts::Assert,
        None,
    );
    let e = r.unwrap_err();
    assert_eq!(e.message(), "authorization failed");
}

#[test]
fn attenuation() {
    let kp = KeyPair::new();
    let root = root_of(&kp);
    let header = format!("Bearer {}", token_with(&kp, r#"authorized_queries("me");"#, None));
    let ctx = validate_request(
        "query { me { activeOrganization { id creatorUser { name } } } }",
        None,
        Some(&header),
        &root,
        "allow if true",
        SubscriptionFacts::Assert,
        None,
    )
    .unwrap();
    let forwarded = attenuate_for_hop(&ctx, "user").unwrap().unwrap();
    assert!(forwarded.starts_with("Bearer "));
    assert_ne!(forwarded, header);
    let e = downstream_check(&root, "usera", &forwarded).unwrap_err();
    assert_eq!(e.message(), "authorization failed");
}

#[test]
fn default_deny_refuses_with_and_without_token() {
    let kp = KeyPair::new();
    let root = root_of(&kp);
    let header = format!("Bearer {}", token_with(&kp, r#"user(1);"#, None));
    for h in [None, Some(header.as_str())] {
        let r = validate_request("{ me { id } }", None, h, &root, "deny if true;", SubscriptionFacts::Assert, None);
        assert!(matches!(r, Err(AuthError::AuthorizationDenied(_))));
    }
}

#[test]
fn token_scoped_to_one_service_fails_elsewhere() {
    let kp = KeyPair::new();
    let root = root_of(&kp);
    let raw = token_with(&kp, r#"right("read");"#, None);
    let narrowed = attenuate(&raw, "orga").unwrap();
    let token = extract_token(Some(&format!("Bearer {}", narrowed)), &root).unwrap().unwrap();
    let desc = introspect("{ me { id } }", None).unwrap();
    let as_user = build_facts(&desc, SubscriptionFacts::Assert, Some("user"));
    let as_orga = build_facts(&desc, SubscriptionFacts::Assert, Some("orga"));
    assert!(matches!(
        evaluate("allow if true", &as_user, Some(&token.token)),
        Err(AuthError::AuthorizationDenied(_))
    ));
    assert_eq!(evaluate("allow if true", &as_orga, Some(&token.token)), Ok(None));
}

#[test]
fn second_attenuation_keeps_the_first() {
    let kp = KeyPair::new();
    let root = root_of(&kp);
    let raw = token_with(&kp, r#"right("read");"#, None);
    let twice = attenuate(&attenuate(&raw, "orga").unwrap(), "catalog").unwrap();
    let token = extract_token(Some(&format!("Bearer {}", twice)), &root).unwrap().unwrap();
    let desc = introspect("{ products { id } }", None).unwrap();
    let catalog_only = build_facts(&desc, SubscriptionFacts::Assert, Some("catalog"));
    assert!(matches!(
        evaluate("allow if true", &catalog_only, Some(&token.token)),
        Err(AuthError::AuthorizationDenied(_))
    ));
    let mut both = catalog_only.clone();
    both.extend(build_facts(&desc, SubscriptionFacts::Assert, Some("orga")));
    assert_eq!(evaluate("allow if true", &both, Some(&token.token)), Ok(None));
}

#[test]
fn identity_is_the_single_derived_user() {
    let desc = introspect("{ me { id } }", None).unwrap();
    let facts = build_facts(&desc, SubscriptionFacts::Assert, None);
    assert_eq!(evaluate("user(1);\nallow if true;", &facts, None), Ok(Some(1)));
    assert_eq!(evaluate("user(1);\nuser(2);\nallow if true;", &facts, None), Ok(None));
    assert_eq!(evaluate("allow if true;", &facts, None), Ok(None));
}

#[test]
fn identity_comes_from_the_token() {
    let kp = KeyPair::new();
    let root = root_of(&kp);
    let header = format!("Bearer {}", token_with(&kp, r#"user(42);"#, None));
    let ctx = validate_request(
        "{ me { id } }",
        None,
        Some(&header),
        &root,
        "allow if user($id);",
        SubscriptionFacts::Assert,
        Some("user"),
    )
    .unwrap();
    assert_eq!(ctx.identity(), Some(42));
}

#[test]
fn scenario_unlisted_query_is_denied() {
    let kp = KeyPair::new();
    let root = root_of(&kp);
    let header = format!("Bearer {}", token_with(&kp, r#"check if query("me");"#, None));
    let r = validate_request(
        "{ allOrganizations { id } }",
        None,
        Some(&header),
        &root,
        "allow if true",
        SubscriptionFacts::Assert,
        None,
    );
    assert_eq!(r.unwrap_err(), AuthError::AuthorizationDenied("authorization failed".to_string()));
}

#[test]
fn scenario_federation_introspection_is_allowed() {
    let kp = KeyPair::new();
    let root = root_of(&kp);
    let header = format!("Bearer {}", token_with(&kp, r#"authorized_queries("me");"#, None));
    for h in [None, Some(header.as_str())] {
        let r = validate_request("{ _service }", None, h, &root, ORGA_POLICY, SubscriptionFacts::Omit, Some("orga"));
        assert!(r.is_ok(), "{:?}", r.err());
    }
}

#[test]
fn scenario_admin_query_without_header_is_denied() {
    let kp = KeyPair::new();
    let root = root_of(&kp);
    let r = validate_request(
        "{ allOrganizations { id } }",
        None,
        None,
        &root,
        ORGA_POLICY,
        SubscriptionFacts::Omit,
        Some("orga"),
    );
    assert!(matches!(r, Err(AuthError::AuthorizationDenied(_))));
}

#[test]
fn invalid_token_is_token_invalid() {
    let kp = KeyPair::new();
    let root = root_of(&kp);
    let other = KeyPair::new();
    let foreign = format!("Bearer {}", token_with(&other, r#"user(1);"#, None));
    for h in ["Bearer not-a-token", foreign.as_str()] {
        let r = validate_request("{ me { id } }", None, Some(h), &root, "allow if true", SubscriptionFacts::Assert, None);
        assert!(matches!(r, Err(AuthError::TokenInvalid(_))));
    }
}

#[test]
fn malformed_header_is_rejected() {
    let kp = KeyPair::new();
    let root = root_of(&kp);
    let r = validate_request("{ me { id } }", None, Some("Basic abc"), &root, "allow if true", SubscriptionFacts::Assert, None);
    let e = r.unwrap_err();
    assert_eq!(e, AuthError::MalformedHeader);
    assert_eq!(e.message(), "not a bearer token");
}

#[test]
fn missing_operation_is_reported_first() {
    let kp = KeyPair::new();
    let root = root_of(&kp);
    let r = validate_request("query A { me { id } }", Some("B"), Some("Basic abc"), &root, "allow if true", SubscriptionFacts::Assert, None);
    let e = r.unwrap_err();
    assert_eq!(e, AuthError::OperationNotFound);
    assert_eq!(e.message(), "cannot find operation");
}

#[test]
fn attenuation_of_garbage_fails() {
    let r = attenuate("not a token", "orga");
    assert!(matches!(r, Err(AuthError::AttenuationError(_))));
}

#[test]
fn bad_root_key_is_rejected() {
    assert!(matches!(root_key_from_hex("zz"), Err(AuthError::InvalidRootKey(_))));
}

#[test]
fn token_signed_by_root_is_accepted() {
    let kp = KeyPair::new();
    let root = root_of(&kp);
    let raw = token_with(&kp, r#"user(1);"#, Some(r#"check if query("me")"#));
    let t = extract_token(Some(&format!("Bearer {}", raw)), &root).unwrap().unwrap();
    assert_eq!(t.raw, raw);
    assert_eq!(t.token.to_base64().unwrap(), raw);
    assert_eq!(root.bytes, kp.public().to_bytes().to_vec());
}

#[test]
fn malformed_number_in_argument_does_not_panic() {
    let kp = KeyPair::new();
    let root = root_of(&kp);
    for q in ["{ me(id: 1e) { id } }", "{ me(id: -) { id } }"] {
        let r = validate_request(q, None, None, &root, "allow if true", SubscriptionFacts::Assert, None);
        assert!(r.is_ok() || r.is_err());
    }
}

#[test]
fn nested_fragment_fields_reach_the_policy() {
    let kp = KeyPair::new();
    let root = root_of(&kp);
    let q = "query { ... on Query { ... on Query { secret } } ...F } fragment F on Query { ...G } fragment G on Query { hidden }";
    for field in ["secret", "hidden"] {
        let policy = format!("deny if query(\"{}\");\nallow if true;", field);
        let r = validate_request(q, None, None, &root, &policy, SubscriptionFacts::Assert, None);
        assert!(matches!(r, Err(AuthError::AuthorizationDenied(_))));
    }
    let r = validate_request(q, None, None, &root, "deny if query(\"other\");\nallow if true;", SubscriptionFacts::Assert, None);
    assert!(r.is_ok());
}

#[test]
fn each_attenuation_adds_one_block() {
    let kp = KeyPair::new();
    let raw = token_with(&kp, r#"right("read");"#, Some(r#"check if query("me")"#));
    let once = attenuate(&raw, "orga").unwrap();
    let twice = attenuate(&once, "catalog").unwrap();
    let count = |s: &str| biscuit_auth::UnverifiedBiscuit::from_base64(s).unwrap().block_count();
    assert_eq!(count(&raw), 2);
    assert_eq!(count(&once), 3);
    assert_eq!(count(&twice), 4);
    let b = biscuit_auth::UnverifiedBiscuit::from_base64(&twice).unwrap();
    let first = biscuit_auth::UnverifiedBiscuit::from_base64(&raw).unwrap();
    for i in 0..2 {
        assert_eq!(b.print_block_source(i).unwrap(), first.print_block_source(i).unwrap());
    }
    assert_eq!(b.print_block_source(2).unwrap(), "check if subgraph(\"orga\");\n");
    assert_eq!(b.print_block_source(3).unwrap(), "check if subgraph(\"catalog\");\n");
}

#[test]
fn engine_answers_for_refusal_and_allowance() {
    let refused = consult_engine("deny if true;", &Vec::new(), None).unwrap();
    assert!(refused.is_err());
    let allowed = consult_engine("user(3);\nallow if true;", &Vec::new(), None).unwrap();
    assert_eq!(allowed, Ok(vec![3]));
}

#[test]
fn failing_identity_query_fails_the_request() {
    let r = evaluate("user(\"alice\");\nallow if true;", &Vec::new(), None);
    assert!(matches!(r, Err(AuthError::AuthorizationDenied(_))));
}

#[test]
fn root_key_is_the_decoded_hex_in_either_case() {
    let kp = KeyPair::new();
    let hex = kp.public().to_bytes_hex();
    let lower = root_key_from_hex(&hex).unwrap();
    let upper = root_key_from_hex(&hex.to_uppercase()).unwrap();
    assert_eq!(lower.bytes, kp.public().to_bytes().to_vec());
    assert_eq!(upper.bytes, lower.bytes);
    assert!(root_key_from_hex(&hex[..62]).is_err());
}
