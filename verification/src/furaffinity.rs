use vstd::prelude::*;
use vstd::string::StrSliceExecFns;
use vstd::string::StringExecFns;
use crate::classify;
use crate::classify::TagSet;
use crate::config::Config;
use crate::config::ConfigError;
use crate::config::get_field;
use crate::config::get_section;
use crate::config::section_lookup;
use crate::config::field_lookup;
use crate::config::header_value_ok;
use crate::config::check_header_value;
use crate::html;
use crate::html::RawNode;
use crate::model;
use crate::model::EmbedFlags;
use crate::model::EmbedMedia;
use crate::model::EmbedAuthor;
use crate::model::EmbedV1;
use crate::text;
use crate::url::UrlParts;

verus! {

/// The adult keyword set: explicit content tags that set the ADULT flag
/// when the site's own rating misses them.
pub open spec fn adult_words() -> Seq<Seq<char>> {
    seq![
        "nsfw"@,
        "sex"@,
        "horny"@,
        "r18"@,
        "fetish"@,
        "hentai"@,
        "yiff"@,
        "rape"@,
        "necrophilia"@,
        "vore"@,
        "hyper"@,
        "clit"@,
        "erection"@,
        "penis"@,
        "cum"@,
        "pussy"@,
        "dick"@,
        "porn"@,
        "ssbbw"@,
        "immobility"@,
        "ussbbw"@,
    ]
}

/// The graphic keyword set.
pub open spec fn graphic_words() -> Seq<Seq<char>> {
    seq!["gore"@, "snuff"@, "necrophilia"@]
}

/// The adult keyword set, built once at handler construction.
pub fn default_adult_tags() -> (r: TagSet)
    ensures
        classify::string_views(r.words@) == adult_words(),
{
    let mut w: Vec<String> = Vec::new();
    w.push("nsfw".to_owned());
    w.push("sex".to_owned());
    w.push("horny".to_owned());
    w.push("r18".to_owned());
    w.push("fetish".to_owned());
    w.push("hentai".to_owned());
    w.push("yiff".to_owned());
    w.push("rape".to_owned());
    w.push("necrophilia".to_owned());
    w.push("vore".to_owned());
    w.push("hyper".to_owned());
    w.push("clit".to_owned());
    w.push("erection".to_owned());
    w.push("penis".to_owned());
    w.push("cum".to_owned());
    w.push("pussy".to_owned());
    w.push("dick".to_owned());
    w.push("porn".to_owned());
    w.push("ssbbw".to_owned());
    w.push("immobility".to_owned());
    w.push("ussbbw".to_owned());
    proof {
        assert(classify::string_views(w@) =~= adult_words());
    }
    TagSet::new(w)
}

/// The graphic keyword set, built once at handler construction.
pub fn default_graphic_tags() -> (r: TagSet)
    ensures
        classify::string_views(r.words@) == graphic_words(),
{
    let mut w: Vec<String> = Vec::new();
    w.push("gore".to_owned());
    w.push("snuff".to_owned());
    w.push("necrophilia".to_owned());
    proof {
        assert(classify::string_views(w@) =~= graphic_words());
    }
    TagSet::new(w)
}

/// The cookie header value the handler sends, built from the two
/// configured credential fields.
pub open spec fn fa_cookie_of(a: Seq<char>, b: Seq<char>) -> Seq<char> {
    "b="@ + b + "; a="@ + a
}

/// The scrape site handler: it fetches the submission page with
/// configured credentials and reconstructs the record from raw HTML.
#[derive(Clone, Debug)]
pub struct FurAffinityExtractor {
    pub cookie: String,
    pub user_agent: String,
    pub adult_tags: TagSet,
    pub graphic_tags: TagSet,
}

/// Builds the scrape handler from its configuration section.
pub struct FurAffinityExtractorFactory;

/// Exactly what the factory yields for a given configuration: no handler
/// when the section is absent; a missing credential field or an invalid
/// cookie value is a startup error; else a handler carrying the cookie,
/// the named user agent and the two keyword sets.
pub open spec fn fa_create_ok(
    c: Config,
    r: Result<Option<FurAffinityExtractor>, ConfigError>,
) -> bool {
    match section_lookup(c.extractors@, "furaffinity"@) {
        None => r matches Ok(None),
        Some(fields) => match field_lookup(fields, "a"@) {
            None => r matches Err(ConfigError::MissingExtractorField(m)) && m@
                == "furaffinity.a"@,
            Some(a) => match field_lookup(fields, "b"@) {
                None => r matches Err(ConfigError::MissingExtractorField(m)) && m@
                    == "furaffinity.b"@,
                Some(b) => match field_lookup(c.user_agents@, "%browser"@) {
                    None => r matches Err(ConfigError::InvalidUserAgent(m)) && m@
                        == "%browser not found"@,
                    Some(ua) => if header_value_ok(fa_cookie_of(a, b)) {
                        r matches Ok(Some(e)) && e.cookie@ == fa_cookie_of(a, b)
                            && e.user_agent@ == ua && classify::string_views(e.adult_tags.words@)
                            == adult_words() && classify::string_views(e.graphic_tags.words@)
                            == graphic_words()
                    } else {
                        r matches Err(ConfigError::InvalidExtractorField(m)) && m@
                            == "furaffinity.(a|b)"@
                    },
                },
            },
        },
    }
}

impl FurAffinityExtractorFactory {
    /// An absent section disables the handler; a present-but-invalid one
    /// is a hard startup failure.
    pub fn create(&self, config: &Config) -> (r: Result<
        Option<FurAffinityExtractor>,
        ConfigError,
    >)
        ensures
            fa_create_ok(*config, r),
    {
        let fields = match get_section(&config.extractors, "furaffinity") {
            None => {
                return Ok(None);
            },
            Some(f) => f,
        };
        let a = match get_field(fields, "a") {
            None => {
                return Err(ConfigError::MissingExtractorField("furaffinity.a".to_owned()));
            },
            Some(v) => v,
        };
        let b = match get_field(fields, "b") {
            None => {
                return Err(ConfigError::MissingExtractorField("furaffinity.b".to_owned()));
            },
            Some(v) => v,
        };
        let ua = match get_field(&config.user_agents, "%browser") {
            None => {
                return Err(ConfigError::InvalidUserAgent("%browser not found".to_owned()));
            },
            Some(v) => v,
        };
        let cookie = String::from_str("b=").concat(b.as_str()).concat("; a=").concat(a.as_str());
        if !check_header_value(cookie.as_str()) {
            return Err(ConfigError::InvalidExtractorField("furaffinity.(a|b)".to_owned()));
        }
        Ok(
            Some(
                FurAffinityExtractor {
                    cookie,
                    user_agent: ua,
                    adult_tags: default_adult_tags(),
                    graphic_tags: default_graphic_tags(),
                },
            ),
        )
    }
}

/// Which URLs this handler claims: the site's two hosts, with a
/// submission-view path.
pub open spec fn fa_matches_spec(u: UrlParts) -> bool {
    (u.host@ == "furaffinity.net"@ || u.host@ == "www.furaffinity.net"@)
        && text::starts_with_spec(u.path@, "/view/"@)
}

pub open spec fn media_is(m: EmbedMedia, url: Seq<char>, alt: Option<Seq<char>>) -> bool {
    m.url@ == url && html::opt_str_view(m.description) == alt
}

pub open spec fn no_media(e: EmbedV1) -> bool {
    e.thumb is None && e.imgs@.len() == 0 && e.video is None && e.audio is None
}

/// The media fields of the record, exactly as the submission-area scan
/// determines them: the first recognized media element fills one slot; a
/// text-only submission routes an image into the thumbnail slot.
pub open spec fn fa_media_ok(nv: Seq<RawNode>, e: EmbedV1) -> bool {
    match html::find_elem_spec(nv, 0, "div"@, "submission-area"@) {
        None => no_media(e),
        Some(a) => match html::detect_media_spec(nv, a) {
            None => no_media(e),
            Some(m) => {
                let use_thumb = html::has_class_ci(
                    html::open_classes(nv[a]),
                    "submission-writing"@,
                );
                if m.0 == html::MediaKind::Image && use_thumb {
                    (e.thumb matches Some(t) && media_is(t, m.1, m.2)) && e.imgs@.len() == 0
                        && e.video is None && e.audio is None
                } else if m.0 == html::MediaKind::Image {
                    e.imgs@.len() == 1 && media_is(e.imgs@[0], m.1, m.2) && e.thumb is None
                        && e.video is None && e.audio is None
                } else if m.0 == html::MediaKind::Video {
                    (e.video matches Some(t) && media_is(t, m.1, m.2)) && e.thumb is None
                        && e.imgs@.len() == 0 && e.audio is None
                } else {
                    (e.audio matches Some(t) && media_is(t, m.1, m.2)) && e.thumb is None
                        && e.imgs@.len() == 0 && e.video is None
                }
            },
        },
    }
}

/// The description field, exactly as the subtree walk aggregates it, with
/// trailing whitespace trimmed; absent when the page has no description
/// container.
pub open spec fn fa_description_ok(nv: Seq<RawNode>, e: EmbedV1) -> bool {
    match html::find_elem_spec(nv, 0, "div"@, "submission-description"@) {
        None => e.description is None,
        Some(i) => e.description matches Some(d) && d@ == text::trim_end_ws_spec(
            html::desc_walk(nv, i, html::elem_close(nv, i), Seq::<char>::empty()),
        ),
    }
}

/// The title field: all text of the title container, unaltered.
pub open spec fn fa_title_ok(nv: Seq<RawNode>, e: EmbedV1) -> bool {
    match html::find_elem_spec(nv, 0, "div"@, "submission-title"@) {
        None => e.title is None,
        Some(t) => e.title matches Some(s) && s@ == html::text_in(nv, t, html::elem_close(nv, t)),
    }
}

pub open spec fn href_of(n: RawNode) -> Seq<char> {
    match html::open_href(n) {
        Some(h) => h,
        None => Seq::<char>::empty(),
    }
}

/// The author: name and resolved profile URL from the first user link
/// among the title's following siblings, and the icon from the user-icon
/// image, protocol-relative fix-up applied.
pub open spec fn fa_author_ok(nv: Seq<RawNode>, e: EmbedV1) -> bool {
    e.author matches Some(author) && {
        let link_ok = match html::find_elem_spec(nv, 0, "div"@, "submission-title"@) {
            None => author.name@ == Seq::<char>::empty() && author.url is None,
            Some(t) => match html::find_author_idx(nv, html::elem_close(nv, t) + 1, 0) {
                None => author.name@ == Seq::<char>::empty() && author.url is None,
                Some(k) => author.name@ == html::text_in(nv, k, html::elem_close(nv, k)) && (
                author.url matches Some(u) && u@ == "https://www.furaffinity.net"@ + href_of(
                    nv[k],
                )),
            },
        };
        let icon_ok = match html::find_elem_spec(nv, 0, "img"@, "submission-user-icon"@) {
            None => author.icon is None,
            Some(i) => match html::open_src(nv[i]) {
                None => author.icon is None,
                Some(src) => author.icon matches Some(m) && m.url@ == crate::url::fix_relative_spec(
                    src,
                ) && m.description is None,
            },
        };
        link_ok && icon_ok
    }
}

/// What the explicit rating element alone sets: ADULT whenever the
/// element is present and not the general/all-ages category.
pub open spec fn fa_rating_flags(nv: Seq<RawNode>) -> EmbedFlags {
    let rated = match html::find_elem_spec(nv, 0, "span"@, "rating-box"@) {
        Some(i) => !html::has_class_ci(html::open_classes(nv[i]), "general"@),
        None => false,
    };
    EmbedFlags { adult: rated, graphic: false }
}

/// The content tags the page lists, over every tag container.
pub open spec fn fa_tags(nv: Seq<RawNode>) -> Seq<Seq<char>> {
    html::all_tags_spec(nv, 0)
}

/// The flag set: the site's own rating element sets ADULT unless it is
/// the general category, and the content-tag scan may add ADULT and
/// GRAPHIC; the two are combined by OR, and nothing ever clears a flag.
pub open spec fn fa_flags_spec(nv: Seq<RawNode>, adult: Seq<String>, graphic: Seq<String>) -> EmbedFlags {
    classify::scan_spec(fa_rating_flags(nv), fa_tags(nv), adult, graphic)
}

/// Flags are monotonic within one request: whatever the explicit rating
/// set, the tag scan that follows never clears it.
pub proof fn lemma_fa_flags_monotonic(nv: Seq<RawNode>, adult: Seq<String>, graphic: Seq<String>)
    ensures
        model::flags_leq(fa_rating_flags(nv), fa_flags_spec(nv, adult, graphic)),
{
    classify::lemma_scan_monotonic(fa_rating_flags(nv), fa_tags(nv), adult, graphic);
}

/// The handler's fixed fields: canonical URL, color, provider constant,
/// and no inline HTML.
pub open spec fn fa_static_ok(nv: Seq<RawNode>, u: UrlParts, e: EmbedV1) -> bool {
    &&& e.url matches Some(s) && s@ == u.canonical_spec()
    &&& e.color == Some(0xadd8f5u32)
    &&& e.obj is None
    &&& e.provider.name matches Some(n) && n@ == "FurAffinity"@
    &&& e.provider.url matches Some(p) && p@ == "https://www.furaffinity.net"@
    &&& e.provider.icon matches Some(m) && m.url@
        == "https://www.furaffinity.net/themes/beta/img/favicon.ico"@ && m.description is None
}

/// Exactly what the scrape handler extracts from a parsed document, field
/// by field.
pub open spec fn fa_parse_ok(
    nv: Seq<RawNode>,
    u: UrlParts,
    adult: Seq<String>,
    graphic: Seq<String>,
    e: EmbedV1,
) -> bool {
    &&& fa_media_ok(nv, e)
    &&& fa_description_ok(nv, e)
    &&& fa_title_ok(nv, e)
    &&& fa_author_ok(nv, e)
    &&& e.flags == fa_flags_spec(nv, adult, graphic)
    &&& fa_static_ok(nv, u, e)
}

impl FurAffinityExtractor {
    /// The match predicate: pure and side-effect-free.
    pub fn matches(&self, url: &UrlParts) -> (r: bool)
        ensures
            r == fa_matches_spec(*url),
    {
        (text::str_eq(url.host.as_str(), "furaffinity.net") || text::str_eq(
            url.host.as_str(),
            "www.furaffinity.net",
        )) && text::starts_with(url.path.as_str(), "/view/")
    }

    /// Reconstructs the record from the parsed document: primary media
    /// from the submission area, aggregated description, title, author
    /// link and icon, safety flags from the rating element and the tag
    /// scan, and the handler's fixed fields.
    pub fn parse_html(&self, nodes: &Vec<RawNode>, url: &UrlParts) -> (e: EmbedV1)
        ensures
            fa_parse_ok(nodes@, *url, self.adult_tags.words@, self.graphic_tags.words@, e),
    {
        let mut embed = EmbedV1::empty();
        let n = nodes.len();

        // primary media within the submission area
        match html::find_elem(nodes, 0, "div", "submission-area") {
            Some(area) => {
                match html::detect_media(nodes, area) {
                    Some((kind, src, alt)) => {
                        let use_thumbnail = html::elem_has_class_ci(
                            nodes,
                            area,
                            "submission-writing",
                        );
                        let media = EmbedMedia { url: src, description: alt };
                        match kind {
                            html::MediaKind::Image => {
                                if use_thumbnail {
                                    embed.thumb = Some(media);
                                } else {
                                    embed.imgs.push(media);
                                }
                            },
                            html::MediaKind::Video => {
                                embed.video = Some(media);
                            },
                            html::MediaKind::Audio => {
                                embed.audio = Some(media);
                            },
                        }
                    },
                    None => {},
                }
            },
            None => {},
        }

        // aggregate description text
        match html::find_elem(nodes, 0, "div", "submission-description") {
            Some(i) => {
                let end = html::find_elem_close(nodes, i);
                let d = html::aggregate_description(nodes, i, end);
                embed.description = Some(text::trim_end_ws(d.as_str()).to_owned());
            },
            None => {},
        }

        // title, and the author link among its following siblings
        let mut author = EmbedAuthor::empty();
        match html::find_elem(nodes, 0, "div", "submission-title") {
            Some(t) => {
                let end = html::find_elem_close(nodes, t);
                embed.title = Some(html::accumulate_text(nodes, t, end));
                let start = if end < n {
                    end + 1
                } else {
                    n
                };
                match html::find_author(nodes, start) {
                    Some(k) => {
                        proof {
                            html::lemma_find_author_props(nodes@, start as int, 0);
                        }
                        match &nodes[k] {
                            RawNode::Open { href: Some(h), .. } => {
                                proof {
                                    assert(html::open_href(nodes@[k as int]) == Some(h@));
                                }
                                author.url = Some(
                                    String::from_str("https://www.furaffinity.net").concat(
                                        h.as_str(),
                                    ),
                                );
                                let kend = html::find_elem_close(nodes, k);
                                author.name = html::accumulate_text(nodes, k, kend);
                            },
                            _ => {
                                proof {
                                    assert(false);
                                }
                            },
                        }
                    },
                    None => {},
                }
            },
            None => {},
        }

        // the user-icon image, with protocol-relative fix-up
        match html::find_elem(nodes, 0, "img", "submission-user-icon") {
            Some(i) => {
                match &nodes[i] {
                    RawNode::Open { src: Some(s), .. } => {
                        proof {
                            assert(html::open_src(nodes@[i as int]) == Some(s@));
                        }
                        author.icon = Some(
                            EmbedMedia::with_url(crate::url::fix_relative_scheme(s.as_str())),
                        );
                    },
                    _ => {
                        proof {
                            assert(html::open_src(nodes@[i as int]) is None);
                        }
                    },
                }
            },
            None => {},
        }
        embed.author = Some(author);

        // the rating element, unless it is the general category
        let mut flags = EmbedFlags::none();
        match html::find_elem(nodes, 0, "span", "rating-box") {
            Some(i) => {
                if !html::elem_has_class_ci(nodes, i, "general") {
                    flags.set_adult();
                }
            },
            None => {},
        }

        // content tags, scanned against the keyword sets
        let tags = html::collect_all_tags(nodes);
        classify::scan_tags(&mut flags, &tags, &self.adult_tags, &self.graphic_tags);
        embed.flags = flags;

        embed.url = Some(url.canonical_url());
        embed.color = Some(0xadd8f5);
        embed.provider.name = Some("FurAffinity".to_owned());
        embed.provider.url = Some("https://www.furaffinity.net".to_owned());
        embed.provider.icon = Some(
            EmbedMedia::with_url(
                "https://www.furaffinity.net/themes/beta/img/favicon.ico".to_owned(),
            ),
        );

        embed
    }

    /// The whole per-request pipeline after the fetch: parse the page,
    /// reconstruct the record, and attach the fixed expiry.
    pub fn extract_from_html(&self, page: &str, url: &UrlParts) -> (r: (EmbedV1, u64))
        requires
            url.wf(),
        ensures
            fa_parse_ok(
                html::events_of(page@),
                *url,
                self.adult_tags.words@,
                self.graphic_tags.words@,
                r.0,
            ),
            r.1 == model::DEFAULT_EXPIRE_SECS,
    {
        let nodes = html::parse_document_events(page);
        let embed = self.parse_html(&nodes, url);
        proof {
            crate::url::lemma_canonical_spec_clean(*url);
        }
        model::finalize_embed(embed, Some(model::DEFAULT_EXPIRE_SECS))
    }
}

} // verus!
