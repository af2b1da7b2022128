use embed_server::text;
use embed_server::url::canonicalize;
use embed_server::url::UrlParts;
use embed_server::fix_relative_scheme;
use embed_server::trim_nl;
use embed_server::model::finalize_embed;
use embed_server::model::EmbedV1;
use embed_server::model::DEFAULT_EXPIRE_SECS;
use embed_server::classify::TagSet;
use embed_server::config::Config;
use embed_server::config::ConfigField;
use embed_server::config::ConfigError;
use embed_server::config::ExtractorSection;
use embed_server::furaffinity::FurAffinityExtractorFactory;

fn field(k: &str, v: &str) -> ConfigField {
    ConfigField { key: k.to_string(), value: v.to_string() }
}

fn full_config() -> Config {
    Config {
        extractors: vec![ExtractorSection {
            name: "furaffinity".to_string(),
            fields: vec![field("a", "SECRET-REDACTED"), field("b", "SECRET-REDACTED")],
        }],
        user_agents: vec![field("%browser", "Mozilla/5.0")],
    }
}

#[test]
fn trim_nl_strips_only_line_breaks() {
    assert_eq!(trim_nl("\r\n\nhi there\n\r"), "hi there");
    assert_eq!(trim_nl("\n a b \n"), " a b ");
    assert_eq!(trim_nl(""), "");
    assert_eq!(trim_nl("\n\r\n"), "");
}

#[test]
fn trim_helpers() {
    assert_eq!(text::trim_ws("  cat \t"), "cat");
    assert_eq!(text::trim_start_ws("\n  x y"), "x y");
    assert_eq!(text::trim_end_ws("x y \n"), "x y");
}

#[test]
fn protocol_relative_fixup() {
    assert_eq!(fix_relative_scheme("//a.example/b.png"), "https://a.example/b.png");
    assert_eq!(fix_relative_scheme("https://a.example/b.png"), "https://a.example/b.png");
    assert_eq!(fix_relative_scheme("/relative/path"), "/relative/path");
}

#[test]
fn canonicalize_strips_query_and_fragment() {
    assert_eq!(canonicalize("https://h/p?x=1#f"), "https://h/p");
    assert_eq!(canonicalize("https://h/p#f?x"), "https://h/p");
    assert_eq!(canonicalize("https://h/p"), "https://h/p");
}

#[test]
fn canonicalize_is_idempotent() {
    let once = canonicalize("https://h/p?a=b&c=d#frag");
    let twice = canonicalize(&once);
    assert_eq!(once, twice);
    assert_eq!(once, "https://h/p");
}

#[test]
fn canonical_url_from_parts() {
    let u = UrlParts {
        scheme: "https".to_string(),
        host: "www.furaffinity.net".to_string(),
        path: "/view/123".to_string(),
    };
    assert_eq!(u.canonical_url(), "https://www.furaffinity.net/view/123");
}

#[test]
fn finalize_defaults_and_clamps() {
    let mut e = EmbedV1::empty();
    e.color = Some(0x2000000);
    let (out, expire) = finalize_embed(e, None);
    assert_eq!(expire, DEFAULT_EXPIRE_SECS);
    assert_eq!(expire, 14400);
    assert_eq!(out.color, Some(0xffffff));
    let e2 = EmbedV1::empty();
    let (_, expire2) = finalize_embed(e2, Some(77));
    assert_eq!(expire2, 77);
}

#[test]
fn finalize_enforces_canonical_url() {
    let mut e = EmbedV1::empty();
    e.url = Some("https://h/p?q=1#frag".to_string());
    let (out, _) = finalize_embed(e, None);
    assert_eq!(out.url.as_deref(), Some("https://h/p"));
    let e2 = EmbedV1::empty();
    let (out2, _) = finalize_embed(e2, None);
    assert!(out2.url.is_none());
}

#[test]
fn tag_set_is_case_insensitive_exact() {
    let set = TagSet::new(vec!["gore".to_string(), "snuff".to_string()]);
    assert!(set.contains("gore"));
    assert!(set.contains("GoRe"));
    assert!(!set.contains("gores"));
    assert!(!set.contains("gor"));
}

#[test]
fn factory_absent_section_disables_handler() {
    let cfg = Config { extractors: vec![], user_agents: vec![field("%browser", "UA")] };
    let r = FurAffinityExtractorFactory.create(&cfg);
    assert!(matches!(r, Ok(None)));
}

#[test]
fn factory_missing_fields_are_startup_errors() {
    let mut cfg = full_config();
    cfg.extractors[0].fields.retain(|f| f.key != "a");
    match FurAffinityExtractorFactory.create(&cfg) {
        Err(ConfigError::MissingExtractorField(m)) => assert_eq!(m, "furaffinity.a"),
        other => panic!("unexpected: {:?}", other.is_ok()),
    }
    let mut cfg = full_config();
    cfg.extractors[0].fields.retain(|f| f.key != "b");
    match FurAffinityExtractorFactory.create(&cfg) {
        Err(ConfigError::MissingExtractorField(m)) => assert_eq!(m, "furaffinity.b"),
        other => panic!("unexpected: {:?}", other.is_ok()),
    }
    let mut cfg = full_config();
    cfg.user_agents.clear();
    match FurAffinityExtractorFactory.create(&cfg) {
        Err(ConfigError::InvalidUserAgent(m)) => assert_eq!(m, "%browser not found"),
        other => panic!("unexpected: {:?}", other.is_ok()),
    }
}

#[test]
fn factory_invalid_cookie_value_is_rejected() {
    let mut cfg = full_config();
    cfg.extractors[0].fields[0].value = "bad\nvalue".to_string();
    match FurAffinityExtractorFactory.create(&cfg) {
        Err(ConfigError::InvalidExtractorField(m)) => assert_eq!(m, "furaffinity.(a|b)"),
        other => panic!("unexpected: {:?}", other.is_ok()),
    }
}

#[test]
fn factory_builds_cookie_and_user_agent() {
    let cfg = full_config();
    let e = FurAffinityExtractorFactory.create(&cfg).unwrap().unwrap();
    assert_eq!(e.cookie, "b=SECRET-REDACTED; a=SECRET-REDACTED");
    assert_eq!(e.user_agent, "Mozilla/5.0");
    assert!(e.adult_tags.contains("nsfw"));
    assert!(e.graphic_tags.contains("gore"));
    assert!(!e.graphic_tags.contains("nsfw"));
}
