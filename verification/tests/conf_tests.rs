use taranis::conf::{
    default_charge_type, default_size, default_speed, default_update_interval,
    default_websocket_url, disallow_break, price_conf_path, ChargeType, Conf,
};

#[test]
fn defaults_match_the_documented_settings() {
    assert_eq!(price_conf_path(), "prices.json");
    assert_eq!(default_charge_type(), ChargeType::Fast);
    assert_eq!(default_size(), 2);
    assert!(!disallow_break());
    assert_eq!(default_websocket_url(), "ws://localhost:8080/ws");
    assert_eq!(default_update_interval(), 5000);
    assert_eq!(default_speed(), 1);
}

#[test]
fn default_conf_is_assembled_from_the_parts() {
    let c = Conf::default();
    assert_eq!(c.price.path, "prices.json");
    assert_eq!(c.charge.charge_type, ChargeType::Fast);
    assert_eq!(c.charge.power, 30_000);
    assert_eq!(c.charge.size, 2);
    assert!(!c.charge.allow_break);
    assert_eq!(c.websocket.url, "ws://localhost:8080/ws");
    assert_eq!(c.time.update_interval, 5000);
    assert_eq!(c.time.tz, "Asia/Shanghai");
    assert_eq!(c.time.speed, 1);
    assert!(c.time.start_time.is_none());
}

#[test]
fn fresh_tariff_tables_start_unnormalized() {
    assert!(!taranis::price::not_optimized());
    let p = taranis::price::Prices::new();
    assert!(!p.is_optimized);
}
