use embed_server::config::Config;
use embed_server::config::ConfigField;
use embed_server::config::ExtractorSection;
use embed_server::deviantart::DeviantArtExtractor;
use embed_server::deviantart::DeviantArtOEmbed;
use embed_server::deviantart::OEmbed;
use embed_server::furaffinity::default_adult_tags;
use embed_server::furaffinity::default_graphic_tags;
use embed_server::furaffinity::FurAffinityExtractor;
use embed_server::html::parse_document_events;
use embed_server::html::RawNode;
use embed_server::registry::Handler;
use embed_server::registry::Registry;
use embed_server::url::UrlParts;

fn url(scheme: &str, host: &str, path: &str) -> UrlParts {
    UrlParts { scheme: scheme.to_string(), host: host.to_string(), path: path.to_string() }
}

fn fa_extractor() -> FurAffinityExtractor {
    FurAffinityExtractor {
        cookie: "b=SECRET-REDACTED; a=SECRET-REDACTED".to_string(),
        user_agent: "UA".to_string(),
        adult_tags: default_adult_tags(),
        graphic_tags: default_graphic_tags(),
    }
}

fn empty_oembed() -> OEmbed {
    OEmbed {
        media_type: None,
        url: None,
        title: None,
        author_name: None,
        author_url: None,
        provider_name: None,
        provider_url: None,
        thumbnail_url: None,
        html: None,
        cache_age: None,
    }
}

#[test]
fn da_match_suffix_domain_with_art_path() {
    let da = DeviantArtExtractor;
    assert!(da.matches(&url("https", "www.deviantart.com", "/art/Sunset-123")));
    assert!(da.matches(&url("https", "deviantart.com", "/x/art/y")));
    assert!(!da.matches(&url("https", "www.deviantart.com", "/journal/1")));
    assert!(!da.matches(&url("https", "deviantart.com.evil.example", "/art/Sunset-123")));
    // an unrelated domain merely sharing the suffix string is rejected
    assert!(!da.matches(&url("https", "notdeviantart.com", "/art/x")));
    assert!(!da.matches(&url("https", "xdeviantart.com", "/art/x")));
}

#[test]
fn da_match_shortener_needs_nonempty_path() {
    let da = DeviantArtExtractor;
    assert!(da.matches(&url("https", "sta.sh", "/abc123")));
    assert!(da.matches(&url("https", "fav.me", "/dabc")));
    assert!(!da.matches(&url("https", "sta.sh", "/")));
    assert!(!da.matches(&url("https", "fav.me", "")));
    assert!(!da.matches(&url("https", "unrelated.example", "/abc")));
}

#[test]
fn fa_match_exact_hosts_and_view_path() {
    let fa = fa_extractor();
    assert!(fa.matches(&url("https", "furaffinity.net", "/view/1")));
    assert!(fa.matches(&url("https", "www.furaffinity.net", "/view/55")));
    assert!(!fa.matches(&url("https", "www.furaffinity.net", "/user/55")));
    assert!(!fa.matches(&url("https", "evilfuraffinity.net", "/view/55")));
}

#[test]
fn registry_first_match_in_order() {
    let cfg = Config {
        extractors: vec![ExtractorSection {
            name: "furaffinity".to_string(),
            fields: vec![
                ConfigField { key: "a".to_string(), value: "A".to_string() },
                ConfigField { key: "b".to_string(), value: "B".to_string() },
            ],
        }],
        user_agents: vec![ConfigField {
            key: "%browser".to_string(),
            value: "UA".to_string(),
        }],
    };
    let reg = Registry::from_config(&cfg).unwrap();
    assert_eq!(reg.handlers.len(), 2);
    assert!(matches!(reg.handlers[0], Handler::DeviantArt(_)));
    assert!(matches!(reg.handlers[1], Handler::FurAffinity(_)));

    let da_url = url("https", "www.deviantart.com", "/art/Sunset-123");
    let fa_url = url("https", "furaffinity.net", "/view/9");
    let miss = url("https", "nobody.example", "/x");
    assert_eq!(reg.find_handler(&da_url), Some(0));
    assert_eq!(reg.find_handler(&fa_url), Some(1));
    assert_eq!(reg.find_handler(&miss), None);
    // stable across repeated dispatch
    assert_eq!(reg.find_handler(&da_url), Some(0));
}

#[test]
fn da_adult_safety_and_tag_description() {
    let da = DeviantArtExtractor;
    let oembed = DeviantArtOEmbed {
        basic: empty_oembed(),
        safety: "adult".to_string(),
        tags: "one,two,three".to_string(),
    };
    let u = url("https", "www.deviantart.com", "/art/X-1");
    let (embed, expire) = da.extract(&oembed, &u);
    assert!(embed.flags.adult);
    assert!(!embed.flags.graphic);
    assert_eq!(embed.description.as_deref(), Some("One, Two, Three"));
    assert_eq!(embed.url.as_deref(), Some("https://www.deviantart.com/art/X-1"));
    assert_eq!(embed.color, Some(0x05cc47));
    assert_eq!(expire, 14400);
    assert!(embed.obj.is_none());
}

#[test]
fn da_sixteen_tags_kept_whole() {
    let da = DeviantArtExtractor;
    let tags = vec!["one"; 16].join(",");
    let oembed = DeviantArtOEmbed {
        basic: empty_oembed(),
        safety: String::new(),
        tags,
    };
    let u = url("https", "www.deviantart.com", "/art/X-1");
    let (embed, _) = da.extract(&oembed, &u);
    let expected = vec!["One"; 16].join(", ");
    assert_eq!(embed.description.as_deref(), Some(expected.as_str()));
    assert!(!embed.flags.adult);
}

#[test]
fn da_twenty_tags_truncate_to_sixteen_plus_more() {
    let da = DeviantArtExtractor;
    let tags = vec!["one"; 20].join(",");
    let oembed = DeviantArtOEmbed {
        basic: empty_oembed(),
        safety: "general".to_string(),
        tags,
    };
    let u = url("https", "www.deviantart.com", "/art/X-1");
    let (embed, _) = da.extract(&oembed, &u);
    let mut items = vec!["One"; 16];
    items.push("More");
    let expected = items.join(", ");
    assert_eq!(embed.description.as_deref(), Some(expected.as_str()));
}

#[test]
fn da_common_field_mapping_and_overrides() {
    let da = DeviantArtExtractor;
    let oembed = DeviantArtOEmbed {
        basic: OEmbed {
            media_type: Some("photo".to_string()),
            url: None,
            title: Some("A Title".to_string()),
            author_name: Some("ann".to_string()),
            author_url: Some("https://example.test/ann".to_string()),
            provider_name: Some("Site".to_string()),
            provider_url: Some("https://example.test".to_string()),
            thumbnail_url: Some("https://example.test/t.jpg".to_string()),
            html: Some("<iframe></iframe>".to_string()),
            cache_age: Some(600),
        },
        safety: "general".to_string(),
        tags: String::new(),
    };
    let u = url("https", "sta.sh", "/zzz");
    let (embed, expire) = da.extract(&oembed, &u);
    assert_eq!(expire, 600);
    assert_eq!(embed.title.as_deref(), Some("A Title"));
    assert!(embed.description.is_none());
    let author = embed.author.expect("author");
    assert_eq!(author.name, "ann");
    assert_eq!(author.url.as_deref(), Some("https://example.test/ann"));
    assert_eq!(embed.provider.name.as_deref(), Some("Site"));
    // inline HTML is never forwarded
    assert!(embed.obj.is_none());
    // the thumbnail stays: no full-size media was mapped
    assert_eq!(embed.thumb.expect("thumb").url, "https://example.test/t.jpg");
    assert_eq!(
        embed.provider.icon.expect("icon").url,
        "https://st.deviantart.net/eclipse/icons/da_favicon_v2.ico"
    );
    assert!(!embed.flags.adult);
}

#[test]
fn da_photo_media_fills_gallery_and_suppresses_thumbnail() {
    let da = DeviantArtExtractor;
    let oembed = DeviantArtOEmbed {
        basic: OEmbed {
            media_type: Some("photo".to_string()),
            url: Some("https://example.test/full.png".to_string()),
            title: None,
            author_name: None,
            author_url: None,
            provider_name: None,
            provider_url: None,
            thumbnail_url: Some("https://example.test/t.jpg".to_string()),
            html: None,
            cache_age: None,
        },
        safety: String::new(),
        tags: String::new(),
    };
    let u = url("https", "www.deviantart.com", "/art/X-1");
    let (embed, _) = da.extract(&oembed, &u);
    assert_eq!(embed.imgs.len(), 1);
    assert_eq!(embed.imgs[0].url, "https://example.test/full.png");
    // the low-res thumbnail is redundant beside the full-size image
    assert!(embed.thumb.is_none());
}

#[test]
fn da_request_url() {
    let r = DeviantArtExtractor::oembed_request_url("https://www.deviantart.com/art/X-1");
    assert_eq!(r, "https://backend.deviantart.com/oembed?url=https://www.deviantart.com/art/X-1");
}

fn fa_parse(page: &str) -> embed_server::model::EmbedV1 {
    let fa = fa_extractor();
    let u = url("https", "www.furaffinity.net", "/view/42");
    let (embed, expire) = fa.extract_from_html(page, &u);
    assert_eq!(expire, 14400);
    embed
}

#[test]
fn fa_full_page_extraction() {
    let page = "<html><body>\
<div class=\"submission-area\"><img src=\"//cdn.example/art.png\" alt=\"My Art\"></div>\
<section><div class=\"submission-title\"><h2>Sunset</h2></div>\
<a href=\"/user/painter\"><strong>painter</strong></a></section>\
<img class=\"submission-user-icon\" src=\"//cdn.example/icon.jpg\">\
<div class=\"submission-description\">Hello<br><br>World</div>\
<span class=\"rating-box adult\">Adult</span>\
<span class=\"tags\"><a>gore</a><a>landscape</a></span>\
</body></html>";
    let embed = fa_parse(page);
    assert_eq!(embed.imgs.len(), 1);
    assert_eq!(embed.imgs[0].url, "https://cdn.example/art.png");
    assert_eq!(embed.imgs[0].description.as_deref(), Some("My Art"));
    assert!(embed.thumb.is_none());
    assert_eq!(embed.title.as_deref(), Some("Sunset"));
    let author = embed.author.expect("author");
    assert_eq!(author.name, "painter");
    assert_eq!(author.url.as_deref(), Some("https://www.furaffinity.net/user/painter"));
    assert_eq!(author.icon.expect("icon").url, "https://cdn.example/icon.jpg");
    assert_eq!(embed.description.as_deref(), Some("Hello\n\nWorld"));
    assert!(embed.flags.adult);
    assert!(embed.flags.graphic);
    assert_eq!(embed.url.as_deref(), Some("https://www.furaffinity.net/view/42"));
    assert_eq!(embed.color, Some(0xadd8f5));
    assert_eq!(embed.provider.name.as_deref(), Some("FurAffinity"));
    assert_eq!(embed.provider.url.as_deref(), Some("https://www.furaffinity.net"));
}

#[test]
fn fa_alt_text_deduplicated() {
    let page = "<div class=\"submission-description\"><img alt=\"Cat\">Cat</div>";
    let embed = fa_parse(page);
    assert_eq!(embed.description.as_deref(), Some("Cat"));
}

#[test]
fn fa_alt_text_kept_when_caption_differs() {
    let page = "<div class=\"submission-description\"><img alt=\"Cat\">Dog</div>";
    let embed = fa_parse(page);
    assert_eq!(embed.description.as_deref(), Some("CatDog"));
}

#[test]
fn fa_line_breaks_collapse() {
    let a = fa_parse("<div class=\"submission-description\">a<br><br>b</div>");
    let b = fa_parse("<div class=\"submission-description\">a<br><br><br><br>b</div>");
    assert_eq!(a.description.as_deref(), Some("a\n\nb"));
    assert_eq!(b.description.as_deref(), Some("a\n\nb"));
}

#[test]
fn fa_unsupported_object_aborts_media() {
    let page = "<div class=\"submission-area\">\
<object data=\"plugin\"></object>\
<img src=\"/late.png\" alt=\"late\">\
</div>";
    let embed = fa_parse(page);
    assert!(embed.imgs.is_empty());
    assert!(embed.thumb.is_none());
    assert!(embed.video.is_none());
    assert!(embed.audio.is_none());
}

#[test]
fn fa_text_only_submission_routes_image_to_thumbnail() {
    let page = "<div class=\"submission-area submission-writing\">\
<img src=\"/story.png\" alt=\"cover\">\
</div>";
    let embed = fa_parse(page);
    assert!(embed.imgs.is_empty());
    let thumb = embed.thumb.expect("thumb");
    assert_eq!(thumb.url, "/story.png");
    assert_eq!(thumb.description.as_deref(), Some("cover"));
}

#[test]
fn fa_rating_sets_adult_independently_of_tags() {
    let page = "<span class=\"rating-box mature\">M</span>";
    let embed = fa_parse(page);
    assert!(embed.flags.adult);
    assert!(!embed.flags.graphic);
}

#[test]
fn fa_general_rating_leaves_flags_clear() {
    let page = "<span class=\"rating-box general\">G</span>";
    let embed = fa_parse(page);
    assert!(!embed.flags.adult);
    assert!(!embed.flags.graphic);
}

#[test]
fn fa_tag_scan_is_case_insensitive() {
    let page = "<span class=\"tags\"><a>NSFW</a></span>";
    let embed = fa_parse(page);
    assert!(embed.flags.adult);
    assert!(!embed.flags.graphic);
}

#[test]
fn fa_tags_scanned_across_every_container() {
    let page = "<span class=\"tags\"><a>landscape</a></span>\
<span class=\"tags\"><a>nsfw</a></span>\
<span class=\"tags\"><a>gore</a></span>";
    let embed = fa_parse(page);
    assert!(embed.flags.adult);
    assert!(embed.flags.graphic);
}

#[test]
fn fa_video_and_audio_slots() {
    let v = fa_parse("<div class=\"submission-area\"><vid src=\"/v.webm\"></vid></div>");
    assert_eq!(v.video.expect("video").url, "/v.webm");
    let a = fa_parse("<div class=\"submission-area\"><audio src=\"/a.mp3\"></audio></div>");
    assert_eq!(a.audio.expect("audio").url, "/a.mp3");
}

#[test]
fn fa_empty_description_container_yields_empty_text() {
    let embed = fa_parse("<div class=\"submission-description\"></div>");
    assert_eq!(embed.description.as_deref(), Some(""));
}

#[test]
fn da_tags_are_trimmed_before_title_casing() {
    let da = DeviantArtExtractor;
    let oembed = DeviantArtOEmbed {
        basic: empty_oembed(),
        safety: String::new(),
        tags: " one , two ".to_string(),
    };
    let u = url("https", "www.deviantart.com", "/art/X-1");
    let (embed, _) = da.extract(&oembed, &u);
    assert_eq!(embed.description.as_deref(), Some("One, Two"));
}

#[test]
fn fa_missing_elements_degrade_softly() {
    let embed = fa_parse("<p>nothing here</p>");
    assert!(embed.title.is_none());
    assert!(embed.description.is_none());
    assert!(embed.imgs.is_empty());
    let author = embed.author.expect("author record is always attached");
    assert_eq!(author.name, "");
    assert!(author.url.is_none());
    assert!(author.icon.is_none());
    assert!(!embed.flags.adult);
    assert_eq!(embed.url.as_deref(), Some("https://www.furaffinity.net/view/42"));
}

#[test]
fn parse_events_reflect_document_structure() {
    let nodes = parse_document_events("<div class=\"x\">hi</div>");
    // the wrapper must hand back real events, not its input
    assert!(nodes.len() >= 4);
    let mut saw_div = false;
    let mut saw_text = false;
    for n in &nodes {
        match n {
            RawNode::Open { name, classes, .. } => {
                if name == "div" {
                    saw_div = true;
                    assert_eq!(classes.as_slice(), ["x".to_string()]);
                }
            }
            RawNode::Text { content } => {
                if content == "hi" {
                    saw_text = true;
                }
            }
            _ => {}
        }
    }
    assert!(saw_div && saw_text);
}
