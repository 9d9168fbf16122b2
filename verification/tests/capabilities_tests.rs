use hypha::capabilities::{trim_leading_slashes, HyphaAbility, HyphaScope, HyphaSemantics, ScopeError};
use url::Url;

#[test]
fn test_scope_from_url() {
    let scope = HyphaScope::try_from(Url::parse("hypha://node-1/compute").unwrap()).unwrap();
    assert_eq!(scope.origin_node, "node-1");
    assert_eq!(scope.resource_type, "compute");
    assert_eq!(scope.to_uri(), "hypha://node-1/compute");

    let nested = HyphaScope::try_from(Url::parse("hypha://n//a/b").unwrap()).unwrap();
    assert_eq!(nested.resource_type, "a/b");
    let bare = HyphaScope::try_from(Url::parse("hypha://n").unwrap()).unwrap();
    assert_eq!((bare.origin_node.as_str(), bare.resource_type.as_str()), ("n", ""));

    assert_eq!(
        HyphaScope::try_from(Url::parse("https://node-1/compute").unwrap()).unwrap_err(),
        ScopeError::InvalidScheme
    );
    assert_eq!(
        HyphaScope::try_from(Url::parse("hypha:compute").unwrap()).unwrap_err(),
        ScopeError::MissingHost
    );
}

#[test]
fn test_scope_from_parts() {
    let scope = HyphaScope::from_parts("hypha", Some("n".to_string()), "///x/y/").unwrap();
    assert_eq!(scope.origin_node, "n");
    assert_eq!(scope.resource_type, "x/y/");
    assert_eq!(
        HyphaScope::from_parts("Hypha", Some("n".to_string()), "/x").unwrap_err(),
        ScopeError::InvalidScheme
    );
    // the scheme is looked at first
    assert_eq!(HyphaScope::from_parts("http", None, "/x").unwrap_err(), ScopeError::InvalidScheme);
    assert_eq!(HyphaScope::from_parts("hypha", None, "/x").unwrap_err(), ScopeError::MissingHost);
    assert_eq!(trim_leading_slashes(""), "");
    assert_eq!(trim_leading_slashes("///"), "");
    assert_eq!(trim_leading_slashes("a/"), "a/");
    assert_eq!(trim_leading_slashes("/é/ü"), "é/ü");
}

#[test]
fn test_scope_containment() {
    let scope = |node: &str, kind: &str| HyphaScope {
        origin_node: node.to_string(),
        resource_type: kind.to_string(),
    };
    assert!(scope("n", "compute").contains(&scope("n", "compute")));
    assert!(scope("n", "compute") == scope("n", "compute").clone());
    assert!(scope("n", "compute") != scope("n", "sensing"));
    assert!(!scope("n", "compute").contains(&scope("n", "storage")));
    assert!(!scope("n", "compute").contains(&scope("m", "compute")));
}

#[test]
fn test_abilities() {
    let all = [
        (HyphaAbility::Execute, "hypha/execute"),
        (HyphaAbility::Store, "hypha/store"),
        (HyphaAbility::Sense, "hypha/sense"),
        (HyphaAbility::Admin, "hypha/admin"),
    ];
    for (ability, name) in all {
        assert_eq!(ability.to_name(), name);
        assert_eq!(HyphaAbility::try_from(name.to_string()), Ok(ability));
        assert_eq!(HyphaSemantics.parse_action(name), Some(ability));
    }
    assert_eq!(HyphaAbility::try_from("hypha/fly".to_string()), Err("hypha/fly".to_string()));
    assert_eq!(HyphaAbility::try_from("hypha/Execute".to_string()), Err("hypha/Execute".to_string()));
    assert_eq!(HyphaSemantics.parse_action(""), None);
    assert!(HyphaAbility::Execute < HyphaAbility::Store);
    assert!(HyphaAbility::Store < HyphaAbility::Sense);
    assert!(HyphaAbility::Sense < HyphaAbility::Admin);
}

#[test]
fn test_scope_semantics() {
    let semantics = HyphaSemantics;
    let scope = semantics.parse_scope(&Url::parse("hypha://hub/sensing").unwrap()).unwrap();
    assert_eq!((scope.origin_node.as_str(), scope.resource_type.as_str()), ("hub", "sensing"));
    assert!(semantics.parse_scope(&Url::parse("mailto:hub@example.org").unwrap()).is_none());
}
