use console::module::ConsoleModule;
use console::modules::team::TeamModule;
use console::registry::build_registry;
use console::services::query::url_encode;

#[test]
fn registry_gives_back_module_items() {
    let team = TeamModule;
    let expected = team.nav_items();
    let registry = build_registry(vec![Box::new(TeamModule)]);
    assert_eq!(registry.modules.len(), 1);
    assert_eq!(registry.modules[0].id, "team");
    assert_eq!(registry.nav_items_for("team"), expected);
    assert!(registry.nav_items_for("storage").is_empty());
    assert_eq!(registry.commands, TeamModule.commands());
    assert_eq!(registry.cockpit_cards, TeamModule.cockpit_cards());
}

#[test]
fn url_encoding_is_piecewise() {
    let whole = url_encode("a b张");
    assert_eq!(whole, format!("{}{}", url_encode("a "), url_encode("b张")));
    assert_eq!(url_encode("plain-text_1.0~"), "plain-text_1.0~");
}
