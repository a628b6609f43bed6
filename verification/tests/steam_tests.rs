use deadlock_cli::steam::{
    account_id_to_steamid64, parse_steamid3_or_account_id, steamid64_to_account_id,
    steam_input_action, trim_str, validate_steamid64, vanity_outcome, SteamError, SteamIdInput,
};

#[test]
fn parses_raw_steamid64() {
    let id = "76561197960435530";
    validate_steamid64(id).unwrap();
    let acc = steamid64_to_account_id(id).unwrap();
    assert!(acc > 0);
}

#[test]
fn extracts_from_profiles_url() {
    let url = "https://steamcommunity.com/profiles/76561197960435530";
    let action = steam_input_action(url).unwrap();
    match action {
        SteamIdInput::Resolved(sid) => assert_eq!(sid, "76561197960435530"),
        SteamIdInput::NeedsVanity(_) => panic!("expected a resolved id"),
    }
}

#[test]
fn rejects_invalid_url() {
    let bad = "https://example.com/id/foo";
    let err = steam_input_action(bad).err().unwrap();
    let msg = err.message();
    assert!(msg.contains("invalid Steam community URL"));
}

#[test]
fn vanity_url_defers_to_resolution() {
    let url = "https://steamcommunity.com/id/gabelogannewell/";
    let action = steam_input_action(url).unwrap();
    assert!(matches!(action, SteamIdInput::NeedsVanity(name) if name == "gabelogannewell"));
}

#[test]
fn bare_vanity_name_defers_to_resolution() {
    let action = steam_input_action("  gabelogannewell ").unwrap();
    assert!(matches!(action, SteamIdInput::NeedsVanity(name) if name == "gabelogannewell"));
}

#[test]
fn vanity_outcome_success_carries_id() {
    let r = vanity_outcome(1, Some("76561197960287930".to_string()), None).unwrap();
    assert_eq!(r, "76561197960287930");
}

#[test]
fn vanity_outcome_failure_carries_message() {
    let err = vanity_outcome(42, None, Some("No match".to_string())).err().unwrap();
    assert!(matches!(err, SteamError::Other(m) if m == "No match"));
}

#[test]
fn rejects_too_small_steamid64() {
    // seventeen digits, but below the individual-account offset
    assert!(validate_steamid64("10000000000000000").is_err());
    assert!(validate_steamid64("7656119796026572").is_err());
    assert!(validate_steamid64("76561197960265a8x").is_err());
    assert!(validate_steamid64("76561197960265728").is_ok());
}

#[test]
fn account_id_round_trip() {
    let sid = account_id_to_steamid64(388674065);
    assert_eq!(sid, "76561198348939793");
    let acc = steamid64_to_account_id(&sid).unwrap();
    assert_eq!(acc, 388674065);
}

#[test]
fn parses_steamid3_forms() {
    assert_eq!(parse_steamid3_or_account_id("[U:1:123456]").unwrap(), 123456);
    assert_eq!(parse_steamid3_or_account_id(" [u:1:42] ").unwrap(), 42);
    assert_eq!(parse_steamid3_or_account_id("STEAM_0:1:12345").unwrap(), 24691);
    assert_eq!(parse_steamid3_or_account_id("steam_0:0:2").unwrap(), 4);
    assert_eq!(parse_steamid3_or_account_id("388674065").unwrap(), 388674065);
    assert!(parse_steamid3_or_account_id("STEAM_0:2:12345").is_err());
    assert!(parse_steamid3_or_account_id("[U:1:]").is_err());
    assert!(parse_steamid3_or_account_id("4294967296").is_err());
    assert!(parse_steamid3_or_account_id("not-an-id").is_err());
}

#[test]
fn trims_ascii_whitespace() {
    assert_eq!(trim_str("  abc\t\n"), "abc");
    assert_eq!(trim_str("   "), "");
    assert_eq!(trim_str("x"), "x");
}
