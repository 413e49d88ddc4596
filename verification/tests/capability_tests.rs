use nexus_wasm_bridge::capability::Capability;
use nexus_wasm_bridge::capability::CapabilityChecker;
use nexus_wasm_bridge::capability::CapabilityToken;
use nexus_wasm_bridge::capability::CapabilityType;
use nexus_wasm_bridge::inference::infer_capabilities;

#[test]
fn test_capability_token_parse() {
    assert_eq!(
        CapabilityToken::parse("state:read:*"),
        Some(CapabilityToken::StateReadAll)
    );
    assert_eq!(
        CapabilityToken::parse("state:write:count"),
        Some(CapabilityToken::StateWrite("count".to_string()))
    );
    assert_eq!(
        CapabilityToken::parse("ext:http"),
        Some(CapabilityToken::Extension("http".to_string()))
    );
}

#[test]
fn test_capability_token_matches() {
    let all_read = CapabilityToken::StateReadAll;
    assert!(all_read.matches("state:read:count"));
    assert!(all_read.matches("state:read:anything"));

    let specific_read = CapabilityToken::StateRead("count".to_string());
    assert!(specific_read.matches("state:read:count"));
    assert!(!specific_read.matches("state:read:other"));
}

#[test]
fn test_capability_checker() {
    let checker = CapabilityChecker::new(vec![
        CapabilityToken::StateReadAll,
        CapabilityToken::StateWrite("count".to_string()),
        CapabilityToken::EventsEmit("toast".to_string()),
    ]);

    assert!(checker.can_read_state("anything"));
    assert!(checker.can_write_state("count"));
    assert!(!checker.can_write_state("other"));
    assert!(checker.can_emit_event("toast"));
    assert!(!checker.can_emit_event("other"));
}

#[test]
fn test_capability_to_string() {
    assert_eq!(CapabilityToken::StateReadAll.to_string_repr(), "state:read:*");
    assert_eq!(
        CapabilityToken::StateWrite("count".to_string()).to_string_repr(),
        "state:write:count"
    );
}

#[test]
fn test_capability_families_never_cross() {
    let write = CapabilityToken::StateWrite("count".to_string());
    assert!(!write.matches("state:read:count"));
    let emit_all = CapabilityToken::EventsEmitAll;
    assert!(!emit_all.matches("view:update:panel"));
    assert!(!emit_all.matches("ext:http"));
}

#[test]
fn test_wildcards_match_their_family() {
    assert!(CapabilityToken::StateReadAll.matches("state:read:x"));
    assert!(CapabilityToken::StateWriteAll.matches("state:write:x"));
    assert!(CapabilityToken::EventsEmitAll.matches("events:emit:x"));
    assert!(CapabilityToken::ViewUpdateAll.matches("view:update:x"));
    assert!(CapabilityToken::ExtensionAll.matches("ext:x"));
}

#[test]
fn test_parse_round_trip() {
    let tokens = vec![
        CapabilityToken::StateRead("count".to_string()),
        CapabilityToken::StateWrite("body".to_string()),
        CapabilityToken::StateReadAll,
        CapabilityToken::StateWriteAll,
        CapabilityToken::EventsEmit("toast".to_string()),
        CapabilityToken::EventsEmitAll,
        CapabilityToken::ViewUpdate("input".to_string()),
        CapabilityToken::ViewUpdateAll,
        CapabilityToken::Extension("http".to_string()),
        CapabilityToken::ExtensionAll,
    ];
    for t in tokens {
        let s = t.to_string_repr();
        assert_eq!(CapabilityToken::parse(&s), Some(t));
    }
}

#[test]
fn test_parse_rejects_malformed() {
    assert_eq!(CapabilityToken::parse(""), None);
    assert_eq!(CapabilityToken::parse("state"), None);
    assert_eq!(CapabilityToken::parse("state:read"), None);
    assert_eq!(CapabilityToken::parse("bogus:read:x"), None);
    assert_eq!(CapabilityToken::parse("state:read:a:b"), None);
}

#[test]
fn test_capability_to_token() {
    let cap = Capability::new(CapabilityType::StateRead, "count".to_string());
    assert_eq!(
        cap.to_token(),
        CapabilityToken::StateRead("count".to_string())
    );
    let wild = Capability::new(CapabilityType::Extension, "*".to_string());
    assert_eq!(wild.to_token(), CapabilityToken::ExtensionAll);
}

#[test]
fn test_infer_capabilities() {
    let code = "const count = $state.get? $state.count; $state.count = count + 1; $emit('updated', { count }); $ext.http";
    let caps = infer_capabilities(code);
    assert!(caps.contains(&CapabilityToken::StateRead("count".to_string())));
    assert!(caps.contains(&CapabilityToken::StateWrite("count".to_string())));
    assert!(caps.contains(&CapabilityToken::EventsEmit("updated".to_string())));
    assert!(caps.contains(&CapabilityToken::Extension("http".to_string())));
}

#[test]
fn test_infer_capabilities_dedups() {
    let code = "$state.a; $state.a; $emit('e', 1); $emit('e', 2);";
    let caps = infer_capabilities(code);
    let reads = caps
        .iter()
        .filter(|c| **c == CapabilityToken::StateRead("a".to_string()))
        .count();
    let emits = caps
        .iter()
        .filter(|c| **c == CapabilityToken::EventsEmit("e".to_string()))
        .count();
    assert_eq!(reads, 1);
    assert_eq!(emits, 1);
}
