use mole::config::Config;

fn to_json(c: &Config) -> String {
    let mut m = serde_json::Map::new();
    m.insert("strategy".to_string(), serde_json::Value::String(c.strategy.clone()));
    m.insert("resolver".to_string(), serde_json::Value::String(c.resolver.clone()));
    m.insert("block_quic".to_string(), serde_json::Value::Bool(c.block_quic));
    m.insert("canary".to_string(), serde_json::Value::String(c.canary.clone()));
    serde_json::Value::Object(m).to_string()
}

fn from_json(text: &str) -> Config {
    let v: serde_json::Value = serde_json::from_str(text).unwrap();
    let s = |k: &str| v.get(k).and_then(|x| x.as_str()).unwrap_or("").to_string();
    Config::new(&s("strategy"), &s("resolver"))
        .quic(v.get("block_quic").and_then(|x| x.as_bool()).unwrap_or(false))
        .canary(&s("canary"))
}

#[test]
fn round_trips_through_json() {
    let c = Config::new("fakesplit:ttl6:sni", "Cloudflare");
    let text = to_json(&c);
    let back = from_json(&text);
    assert_eq!(c, back);
}

#[test]
fn config_builders_set_one_field_each() {
    let c = Config::new("split:sni", "Google");
    assert_eq!(c.strategy, "split:sni");
    assert_eq!(c.resolver, "Google");
    assert!(!c.block_quic);
    assert_eq!(c.canary, "");
    let c = c.quic(true).canary("discord.com");
    assert!(c.block_quic);
    assert_eq!(c.canary, "discord.com");
    assert_eq!(c.strategy, "split:sni");
}
