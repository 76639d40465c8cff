use bc_server::config::Config;
use bc_server::table::StrMap;

fn vars(pairs: &[(&str, &str)]) -> StrMap<String> {
    let mut m = StrMap::new();
    for (k, v) in pairs {
        m.insert(k.to_string(), v.to_string());
    }
    m
}

#[test]
fn defaults_when_nothing_is_set() {
    let c = Config::from_vars(&vars(&[]));
    assert_eq!(c.database_url, "mongodb://localhost:27017/BondageClubDatabase");
    assert_eq!(c.database_name, "BondageClubDatabase");
    assert_eq!(c.account_collection, "Accounts");
    assert_eq!(c.port, 4288);
    assert_eq!(c.ip_connection_limit, 64);
    assert_eq!(c.ip_connection_rate_limit, 2);
    assert_eq!(c.client_message_rate_limit, 20);
    assert_eq!(c.max_ip_account_per_day, 12);
    assert_eq!(c.max_ip_account_per_hour, 4);
    assert_eq!(c.max_heap_usage, 16_000_000_000);
    assert!(c.cors_origins.is_empty());
    assert!(c.production_origins.is_empty());
    assert_eq!(c.email_host, "mail.bondageprojects.com");
    assert_eq!(c.email_port, 465);
}

#[test]
fn numbers_are_parsed_and_bad_ones_fall_back() {
    let c = Config::from_vars(&vars(&[
        ("PORT", "8080"),
        ("IP_CONNECTION_LIMIT", "10"),
        ("IP_CONNECTION_RATE_LIMIT", "0"),
        ("CLIENT_MESSAGE_RATE_LIMIT", "abc"),
        ("MAX_HEAP_USAGE", "123"),
        ("EMAIL_PORT", "70000"),
    ]));
    assert_eq!(c.port, 8080);
    assert_eq!(c.ip_connection_limit, 10);
    assert_eq!(c.ip_connection_rate_limit, 2);
    assert_eq!(c.client_message_rate_limit, 20);
    assert_eq!(c.max_heap_usage, 123);
    assert_eq!(c.email_port, 465);
}

#[test]
fn numbered_origins_in_order_production_lower_cased() {
    let c = Config::from_vars(&vars(&[
        ("CORS_ORIGIN1", "https://b.example"),
        ("CORS_ORIGIN0", "https://a.example"),
        ("CORS_ORIGIN2", ""),
        ("CORS_ORIGIN6", "https://ignored.example"),
        ("PRODUCTION0", "HTTPS://Game.Example"),
        ("DATABASE_URL", "sqlite://bc.db"),
    ]));
    assert_eq!(c.cors_origins, vec!["https://a.example".to_string(), "https://b.example".to_string()]);
    assert_eq!(c.production_origins, vec!["https://game.example".to_string()]);
    assert_eq!(c.database_url, "sqlite://bc.db");
}
