use spite::frontend::app_config::app_config_from_source;
use spite::ir::access::{AccessLevel, AppConfig, AppMode, EntityAccessConfig, MethodAccessConfig};

fn parse_app_config(source: &str) -> Option<AppConfig> {
    app_config_from_source(source, "domain/index.ts").unwrap()
}

fn entity<'a>(config: &'a AppConfig, name: &str) -> &'a EntityAccessConfig {
    &config.entities.iter().find(|(n, _)| n == name).expect("entity registered").1
}

fn method<'a>(config: &'a EntityAccessConfig, name: &str) -> &'a MethodAccessConfig {
    &config.methods.iter().find(|(n, _)| n == name).expect("method configured").1
}

#[test]
fn test_parse_basic_app_config() {
    let source = r#"
            const app = new App();
            app.register(OrderAggregate, {
                access: 'private',
                roles: ['user']
            });
        "#;

    let config = parse_app_config(source).unwrap();

    assert_eq!(config.mode, AppMode::Greenfield);
    assert!(!config.api_versioning);

    assert!(config.entities.iter().any(|(n, _)| n == "OrderAggregate"));
    let order_config = entity(&config, "OrderAggregate");
    assert_eq!(order_config.access, AccessLevel::Private);
    assert_eq!(order_config.roles, vec!["user"]);
}

#[test]
fn test_parse_production_mode() {
    let source = r#"
            const app = new App({ mode: 'production' });
            app.register(OrderAggregate);
        "#;

    let config = parse_app_config(source).unwrap();

    assert_eq!(config.mode, AppMode::Production);
    assert!(!config.api_versioning);
}

#[test]
fn test_parse_api_versioning() {
    let source = r#"
            const app = new App({ mode: 'production', apiVersioning: true });
            app.register(OrderAggregate);
        "#;

    let config = parse_app_config(source).unwrap();

    assert_eq!(config.mode, AppMode::Production);
    assert!(config.api_versioning);
}

#[test]
fn test_parse_greenfield_mode_explicit() {
    let source = r#"
            const app = new App({ mode: 'greenfield' });
            app.register(OrderAggregate);
        "#;

    let config = parse_app_config(source).unwrap();

    assert_eq!(config.mode, AppMode::Greenfield);
}

#[test]
fn test_parse_method_overrides() {
    let source = r#"
            const app = new App();
            app.register(OrderAggregate, {
                access: 'private',
                methods: {
                    create: { access: 'public' },
                    cancel: { access: 'internal', roles: ['admin'] }
                }
            });
        "#;

    let config = parse_app_config(source).unwrap();

    let order_config = entity(&config, "OrderAggregate");
    assert_eq!(method(order_config, "create").access, AccessLevel::Public);
    assert_eq!(method(order_config, "cancel").access, AccessLevel::Internal);
    assert_eq!(method(order_config, "cancel").roles, vec!["admin"]);
}

#[test]
fn test_no_app_registration() {
    let source = r#"
            // Just some code, no App
            const x = 5;
        "#;

    let config = parse_app_config(source);
    assert!(config.is_none());
}

#[test]
fn registering_twice_keeps_one_entry_with_the_last_settings() {
    let source = r#"
            const api = new App({ "mode": "PRODUCTION", apiVersioning: false });
            api.register(Todo, { access: "public" });
            other.register(Ignored);
            api.register(Todo, { access: 'bogus', roles: ['', "ops"] });
        "#;

    let config = parse_app_config(source).unwrap();
    assert_eq!(config.mode, AppMode::Production);
    assert!(!config.api_versioning);
    assert_eq!(config.entities.len(), 1);
    let todo = entity(&config, "Todo");
    assert_eq!(todo.access, AccessLevel::Internal);
    assert_eq!(todo.roles, vec!["ops"]);
    assert!(todo.methods.is_empty());
}

#[test]
fn register_without_app_is_ignored_but_unknown_mode_is_greenfield() {
    let config = parse_app_config("const app = new App({ mode: 'staging' });").unwrap();
    assert_eq!(config.mode, AppMode::Greenfield);
    assert!(config.entities.is_empty());
    assert!(parse_app_config("app.register(Todo);").is_none());
}
