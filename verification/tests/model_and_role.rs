use lyra_client::model::Model;
use lyra_client::role::{role_to_string, string_to_role, Role};

#[test]
fn known_ids_round_trip() {
    let ids = [
        "lyra-3-5-vega-20240620",
        "lyra-3-altair-20240229",
        "lyra-3-vega-20240229",
        "lyra-3-corvus-20240307",
    ];
    for id in ids {
        let model = Model::from_id(id);
        assert_eq!(model.id(), id);
    }
}

#[test]
fn alias_prefixes_resolve_to_families() {
    assert_eq!(Model::from_id("lyra-3-5-vega"), Model::Lyra3_5Vega);
    assert_eq!(Model::from_id("lyra-3-altair"), Model::Lyra3Altair);
    assert_eq!(Model::from_id("lyra-3-vega"), Model::Lyra3Vega);
    assert_eq!(Model::from_id("lyra-3-corvus"), Model::Lyra3Corvus);
    assert_eq!(Model::from_id("lyra-3-altair-latest"), Model::Lyra3Altair);
}

#[test]
fn unknown_id_becomes_custom_unchanged() {
    let model = Model::from_id("some-other-model");
    assert_eq!(
        model,
        Model::Custom {
            name: "some-other-model".to_string(),
            max_tokens: None,
        }
    );
    assert_eq!(model.id(), "some-other-model");
    assert_eq!(model.display_name(), "some-other-model");
}

#[test]
fn display_names() {
    assert_eq!(Model::Lyra3_5Vega.display_name(), "Lyra 3.5 Vega");
    assert_eq!(Model::Lyra3Altair.display_name(), "Lyra 3 Altair");
    assert_eq!(Model::Lyra3Vega.display_name(), "Lyra 3 Vega");
    assert_eq!(Model::Lyra3Corvus.display_name(), "Lyra 3 Corvus");
}

#[test]
fn max_token_counts() {
    assert_eq!(Model::Lyra3_5Vega.max_token_count(), 200_000);
    assert_eq!(Model::Lyra3Corvus.max_token_count(), 200_000);
    let custom = Model::Custom {
        name: "m".to_string(),
        max_tokens: Some(50_000),
    };
    assert_eq!(custom.max_token_count(), 50_000);
    let unspecified = Model::Custom {
        name: "m".to_string(),
        max_tokens: None,
    };
    assert_eq!(unspecified.max_token_count(), 200_000);
    let zero = Model::Custom {
        name: "m".to_string(),
        max_tokens: Some(0),
    };
    assert_eq!(zero.max_token_count(), 200_000);
}

#[test]
fn role_round_trip() {
    for role in [Role::User, Role::Assistant] {
        let s = role_to_string(role);
        assert_eq!(string_to_role(s.as_str()), Some(role));
    }
    assert_eq!(role_to_string(Role::User), "user");
    assert_eq!(role_to_string(Role::Assistant), "assistant");
}

#[test]
fn bad_role_strings_fail() {
    assert_eq!(string_to_role("system"), None);
    assert_eq!(string_to_role("User"), None);
    assert_eq!(string_to_role(""), None);
    assert_eq!(string_to_role("user "), None);
}
