use vstd::prelude::*;
use vstd::string::StrSliceExecFns;
use vstd::string::StringExecFns;
use crate::classify;
use crate::config::Config;
use crate::config::ConfigError;
use crate::model;
use crate::model::EmbedFlags;
use crate::model::EmbedMedia;
use crate::model::EmbedAuthor;
use crate::model::EmbedV1;
use crate::text;
use crate::url::UrlParts;

verus! {

/// The handler-agnostic fields of an upstream structured-metadata
/// (oEmbed) response; missing optional fields are absent, not an error.
#[derive(Clone, Debug)]
pub struct OEmbed {
    pub media_type: Option<String>,
    /// The media URL itself; for a photo response this is the full-size
    /// image.
    pub url: Option<String>,
    pub title: Option<String>,
    pub author_name: Option<String>,
    pub author_url: Option<String>,
    pub provider_name: Option<String>,
    pub provider_url: Option<String>,
    pub thumbnail_url: Option<String>,
    pub html: Option<String>,
    pub cache_age: Option<u64>,
}

/// The upstream response of the structured-metadata handler: the common
/// fields plus this handler's extension fields, a safety label and a
/// comma-separated tag string.
#[derive(Clone, Debug)]
pub struct DeviantArtOEmbed {
    pub basic: OEmbed,
    pub safety: String,
    pub tags: String,
}

/// The title-cased form of a string.
pub uninterp spec fn title_case_of(s: Seq<char>) -> Seq<char>;

/// Relies on heck::ToTitleCase for str: the title-cased form is computed
/// from the characters alone.
#[verifier::external_body]
fn title_case(s: &str) -> (r: String)
    ensures
        r@ == title_case_of(s@),
{
    heck::ToTitleCase::to_title_case(s)
}

/// Index of the first comma, or the length if none occurs.
pub open spec fn comma_idx(s: Seq<char>) -> int
    decreases s.len(),
{
    if s.len() == 0 {
        0
    } else if s[0] == ',' {
        0
    } else {
        1 + comma_idx(s.drop_first())
    }
}

proof fn lemma_comma_idx_at(s: Seq<char>, i: int)
    requires
        0 <= i <= s.len(),
        forall|j: int| 0 <= j < i ==> s[j] != ',',
        i == s.len() || s[i] == ',',
    ensures
        comma_idx(s) == i,
    decreases i,
{
    if i > 0 {
        let t = s.drop_first();
        assert(forall|j: int| 0 <= j < i - 1 ==> t[j] != ',');
        lemma_comma_idx_at(t, i - 1);
    }
}

proof fn lemma_comma_idx_bounds(s: Seq<char>)
    ensures
        0 <= comma_idx(s) <= s.len(),
    decreases s.len(),
{
    if s.len() > 0 && s[0] != ',' {
        lemma_comma_idx_bounds(s.drop_first());
    }
}

/// The comma-separated pieces of a tag string; a trailing empty piece is
/// dropped, as a terminator-style split has it.
pub open spec fn split_commas(s: Seq<char>) -> Seq<Seq<char>>
    decreases s.len(),
    via split_commas_decreases
{
    if s.len() == 0 {
        Seq::<Seq<char>>::empty()
    } else {
        let i = comma_idx(s);
        if i >= s.len() {
            seq![s]
        } else {
            seq![s.subrange(0, i)] + split_commas(s.subrange(i + 1, s.len() as int))
        }
    }
}

#[via_fn]
proof fn split_commas_decreases(s: Seq<char>) {
    lemma_comma_idx_bounds(s);
}

/// The tag-list entries of the description: the first 16 comma-separated
/// pieces, each trimmed and title-cased; an input of more than 16 pieces
/// gains a final title-cased "more" sentinel.
pub open spec fn tag_items(tags: Seq<char>) -> Seq<Seq<char>> {
    let parts = split_commas(tags);
    let kept = if parts.len() > 16 {
        parts.subrange(0, 16) + seq!["more"@]
    } else {
        parts
    };
    kept.map_values(|t: Seq<char>| title_case_of(text::trim_ws_spec(t)))
}

/// Tag-list truncation: an input of at most 16 pieces is kept whole, each
/// piece trimmed and title-cased in order; an input of more than 16 pieces
/// keeps exactly the first 16 and gains a title-cased "more" sentinel as
/// the final entry.
pub proof fn lemma_tag_truncation(tags: Seq<char>)
    ensures
        split_commas(tags).len() <= 16 ==> tag_items(tags).len() == split_commas(tags).len(),
        split_commas(tags).len() > 16 ==> tag_items(tags).len() == 17 && tag_items(tags)[16]
            == title_case_of(text::trim_ws_spec("more"@)),
        forall|i: int|
            0 <= i < 16 && i < split_commas(tags).len() ==> tag_items(tags)[i] == title_case_of(
                text::trim_ws_spec(split_commas(tags)[i]),
            ),
{
    let parts = split_commas(tags);
    if parts.len() > 16 {
        let kept = parts.subrange(0, 16) + seq!["more"@];
        assert(kept.len() == 17);
        assert(kept[16] == "more"@);
        assert(forall|i: int| 0 <= i < 16 ==> kept[i] == parts[i]);
    }
}

/// A human-readable list: the items joined by a comma and a space.
pub open spec fn join_list(items: Seq<Seq<char>>) -> Seq<char>
    decreases items.len(),
{
    if items.len() == 0 {
        Seq::<char>::empty()
    } else if items.len() == 1 {
        items[0]
    } else {
        items[0] + ", "@ + join_list(items.drop_first())
    }
}

proof fn lemma_join_push(items: Seq<Seq<char>>, x: Seq<char>)
    ensures
        join_list(items.push(x)) == if items.len() == 0 {
            x
        } else {
            join_list(items) + ", "@ + x
        },
    decreases items.len(),
{
    if items.len() == 0 {
        assert(items.push(x)[0] == x);
        assert(items.push(x).len() == 1);
    } else {
        lemma_join_push(items.drop_first(), x);
        assert(items.push(x).drop_first() =~= items.drop_first().push(x));
        assert(items.push(x)[0] == items[0]);
        if items.len() == 1 {
            assert(join_list(items) == items[0]);
        } else {
            assert((items[0] + ", "@ + (join_list(items.drop_first()) + ", "@ + x)) =~= (items[0]
                + ", "@ + join_list(items.drop_first()) + ", "@ + x));
        }
    }
}

/// Splits a tag string at commas, dropping a trailing empty piece.
fn split_commas_exec(s: &str) -> (r: Vec<String>)
    ensures
        classify::string_views(r@) == split_commas(s@),
{
    let n = s.unicode_len();
    let mut acc: Vec<String> = Vec::new();
    let mut pos: usize = 0;
    proof {
        assert(classify::string_views(acc@) =~= Seq::<Seq<char>>::empty());
        assert(s@.subrange(0, n as int) =~= s@);
    }
    while pos < n
        invariant
            pos <= n,
            n == s@.len(),
            classify::string_views(acc@) + split_commas(s@.subrange(pos as int, n as int))
                =~= split_commas(s@),
        decreases n - pos,
    {
        let ghost rem = s@.subrange(pos as int, n as int);
        let mut k: usize = pos;
        while k < n && s.get_char(k) != ','
            invariant
                pos <= k <= n,
                n == s@.len(),
                forall|j: int| pos <= j < k ==> s@[j] != ',',
            decreases n - k,
        {
            k += 1;
        }
        proof {
            assert(forall|j: int| 0 <= j < k - pos ==> rem[j] != ',');
            if k < n {
                assert(rem[k - pos] == ',');
            }
            lemma_comma_idx_at(rem, k - pos);
        }
        let piece = s.substring_char(pos, k).to_owned();
        let ghost prev = acc@;
        acc.push(piece);
        let ghost x = rem.subrange(0, (k - pos) as int);
        proof {
            assert(piece@ =~= x);
            assert(classify::string_views(acc@) =~~= classify::string_views(prev) + seq![x]);
        }
        if k >= n {
            proof {
                assert(rem =~= x);
                assert(split_commas(rem) == seq![rem]);
            }
            return acc;
        }
        proof {
            let tail = rem.subrange(k - pos + 1, rem.len() as int);
            assert(tail =~= s@.subrange(k + 1, n as int));
            assert(split_commas(rem) == seq![x] + split_commas(tail));
            assert((classify::string_views(prev) + seq![x]) + split_commas(tail)
                =~= classify::string_views(prev) + (seq![x] + split_commas(tail)));
        }
        pos = k + 1;
    }
    proof {
        assert(s@.subrange(n as int, n as int) =~= Seq::<char>::empty());
        assert(classify::string_views(acc@) + split_commas(Seq::<char>::empty())
            =~= classify::string_views(acc@));
    }
    acc
}

/// Builds the description entries from the tag string: split at commas,
/// the first 16 kept, a "more" sentinel appended when more existed, each
/// trimmed and title-cased.
fn build_tag_items(tags: &str) -> (r: Vec<String>)
    ensures
        classify::string_views(r@) == tag_items(tags@),
{
    let parts = split_commas_exec(tags);
    let total = parts.len();
    let limit: usize = if total > 16 {
        16
    } else {
        total
    };
    let mut out: Vec<String> = Vec::new();
    let ghost kept = if classify::string_views(parts@).len() > 16 {
        classify::string_views(parts@).subrange(0, 16) + seq!["more"@]
    } else {
        classify::string_views(parts@)
    };
    let mut i: usize = 0;
    while i < limit
        invariant
            i <= limit,
            limit == if total > 16 { 16int } else { total as int },
            total == parts@.len(),
            classify::string_views(parts@).len() == total,
            kept == (if classify::string_views(parts@).len() > 16 {
                classify::string_views(parts@).subrange(0, 16) + seq!["more"@]
            } else {
                classify::string_views(parts@)
            }),
            out@.len() == i,
            forall|j: int| 0 <= j < i ==> (#[trigger] out@[j])@ == title_case_of(
                text::trim_ws_spec(kept[j]),
            ),
        decreases limit - i,
    {
        proof {
            assert(classify::string_views(parts@)[i as int] == parts@[i as int]@);
            assert(kept[i as int] == classify::string_views(parts@)[i as int]);
        }
        let t = title_case(text::trim_ws(parts[i].as_str()));
        out.push(t);
        i += 1;
    }
    if total > 16 {
        proof {
            assert(kept[16] == "more"@);
        }
        let t = title_case(text::trim_ws("more"));
        out.push(t);
    }
    proof {
        assert(classify::string_views(out@) =~= kept.map_values(
            |t: Seq<char>| title_case_of(text::trim_ws_spec(t)),
        ));
    }
    out
}

/// Joins the entries with a comma and a space.
fn join_items(items: &Vec<String>) -> (r: String)
    ensures
        r@ == join_list(classify::string_views(items@)),
{
    let ghost views = classify::string_views(items@);
    let n = items.len();
    let mut acc = String::new();
    let mut i: usize = 0;
    while i < n
        invariant
            i <= n,
            n == items@.len(),
            views == classify::string_views(items@),
            acc@ == join_list(views.subrange(0, i as int)),
        decreases n - i,
    {
        proof {
            assert(views.subrange(0, i + 1) =~= views.subrange(0, i as int).push(
                views[i as int],
            ));
            lemma_join_push(views.subrange(0, i as int), views[i as int]);
            assert(views[i as int] == items@[i as int]@);
        }
        if i > 0 {
            acc.append(", ");
        }
        acc.append(items[i].as_str());
        i += 1;
    }
    proof {
        assert(views.subrange(0, n as int) =~= views);
    }
    acc
}

/// The structured-metadata site handler: it understands gallery URLs of
/// the art-community domain and of its two shortener hosts, and
/// normalizes the upstream oEmbed record.
#[derive(Clone, Copy, Debug)]
pub struct DeviantArtExtractor;

/// A path that actually names something: not empty and not the bare root.
pub open spec fn nonempty_path(p: Seq<char>) -> bool {
    p.len() > 0 && p != "/"@
}

/// The art-community domain or a subdomain of it: the host equals the
/// domain or ends with a dot followed by it. An unrelated domain that
/// merely shares the suffix string does not qualify.
pub open spec fn da_domain(host: Seq<char>) -> bool {
    host == "deviantart.com"@ || text::ends_with_spec(host, ".deviantart.com"@)
}

/// Which URLs this handler claims: the art-community domain or one of its
/// subdomains with a gallery path, or one of the shortener hosts with a
/// non-empty path.
pub open spec fn da_matches_spec(u: UrlParts) -> bool {
    ||| (da_domain(u.host@) && text::contains_spec(u.path@, "/art/"@))
    ||| ((u.host@ == "sta.sh"@ || u.host@ == "fav.me"@) && nonempty_path(u.path@))
}

pub open spec fn opt_view(o: Option<String>) -> Option<Seq<char>> {
    match o {
        Some(s) => Some(s@),
        None => None,
    }
}

/// Whether the upstream record carries full-size media: a photo response
/// with its media URL present. The other media kinds arrive only as
/// inline HTML, which is never forwarded.
pub open spec fn photo_media(o: OEmbed) -> bool {
    (o.media_type matches Some(t) && t@ == "photo"@) && o.url is Some
}

/// Exactly what the normalized record of this handler holds, field by
/// field, for a given upstream response and canonical URL.
pub open spec fn da_extract_ok(o: DeviantArtOEmbed, u: UrlParts, e: EmbedV1) -> bool {
    &&& e.flags == (EmbedFlags { adult: o.safety@ == "adult"@, graphic: false })
    &&& (if o.tags@.len() > 0 {
        e.description matches Some(d) && d@ == join_list(tag_items(o.tags@))
    } else {
        e.description is None
    })
    &&& opt_view(e.title) == opt_view(o.basic.title)
    &&& (match o.basic.author_name {
        Some(n) => e.author matches Some(a) && a.name@ == n@ && opt_view(a.url) == opt_view(
            o.basic.author_url,
        ) && a.icon is None,
        None => e.author is None,
    })
    &&& opt_view(e.provider.name) == opt_view(o.basic.provider_name)
    &&& opt_view(e.provider.url) == opt_view(o.basic.provider_url)
    &&& (e.provider.icon matches Some(m) && m.url@
        == "https://st.deviantart.net/eclipse/icons/da_favicon_v2.ico"@ && m.description is None)
    &&& e.obj is None
    &&& (match o.basic.thumbnail_url {
        Some(t) => if photo_media(o.basic) {
            e.thumb is None
        } else {
            e.thumb matches Some(m) && m.url@ == t@ && m.description is None
        },
        None => e.thumb is None,
    })
    &&& (if photo_media(o.basic) {
        e.imgs@.len() == 1 && (o.basic.url matches Some(u) && e.imgs@[0].url@ == u@)
            && e.imgs@[0].description is None
    } else {
        e.imgs@.len() == 0
    })
    &&& e.video is None
    &&& e.audio is None
    &&& e.color == Some(0x05cc47u32)
    &&& (e.url matches Some(s) && s@ == u.canonical_spec())
}

impl DeviantArtExtractor {
    /// This handler needs no configuration and is always enabled.
    pub fn create(&self, _config: &Config) -> (r: Result<Option<DeviantArtExtractor>, ConfigError>)
        ensures
            r matches Ok(h) && h is Some,
    {
        Ok(Some(DeviantArtExtractor))
    }

    /// The match predicate: pure and side-effect-free.
    pub fn matches(&self, url: &UrlParts) -> (r: bool)
        ensures
            r == da_matches_spec(*url),
    {
        let on_domain = text::str_eq(url.host.as_str(), "deviantart.com") || text::ends_with(
            url.host.as_str(),
            ".deviantart.com",
        );
        if on_domain && text::contains_sub(url.path.as_str(), "/art/") {
            return true;
        }
        let shortener = text::str_eq(url.host.as_str(), "sta.sh") || text::str_eq(
            url.host.as_str(),
            "fav.me",
        );
        shortener && url.path.as_str().unicode_len() > 0 && !text::str_eq(url.path.as_str(), "/")
    }

    /// The upstream-API request URL for a canonical gallery URL.
    pub fn oembed_request_url(canonical: &str) -> (r: String)
        ensures
            r@ == "https://backend.deviantart.com/oembed?url="@ + canonical@,
    {
        String::from_str("https://backend.deviantart.com/oembed?url=").concat(canonical)
    }

    /// Normalizes a decoded upstream response into the canonical record
    /// and resolves the expiry: the upstream cache hint if present, else
    /// the fixed default. The explicit safety label sets the ADULT flag;
    /// the tag string becomes the description; any inline HTML embed is
    /// force-disabled.
    pub fn extract(&self, oembed: &DeviantArtOEmbed, url: &UrlParts) -> (r: (EmbedV1, u64))
        requires
            url.wf(),
        ensures
            da_extract_ok(*oembed, *url, r.0),
            r.1 == (match oembed.basic.cache_age {
                Some(age) => age,
                None => model::DEFAULT_EXPIRE_SECS,
            }),
    {
        let mut embed = EmbedV1::empty();

        if text::str_eq(oembed.safety.as_str(), "adult") {
            embed.flags.set_adult();
        }

        if oembed.tags.as_str().unicode_len() > 0 {
            let items = build_tag_items(oembed.tags.as_str());
            embed.description = Some(join_items(&items));
        }

        // the shared oEmbed field mapping
        embed.title = match &oembed.basic.title {
            Some(t) => Some(t.clone()),
            None => None,
        };
        embed.author = match &oembed.basic.author_name {
            Some(n) => Some(
                EmbedAuthor {
                    name: n.clone(),
                    url: match &oembed.basic.author_url {
                        Some(u) => Some(u.clone()),
                        None => None,
                    },
                    icon: None,
                },
            ),
            None => None,
        };
        embed.provider.name = match &oembed.basic.provider_name {
            Some(n) => Some(n.clone()),
            None => None,
        };
        embed.provider.url = match &oembed.basic.provider_url {
            Some(u) => Some(u.clone()),
            None => None,
        };
        embed.thumb = match &oembed.basic.thumbnail_url {
            Some(t) => Some(EmbedMedia::with_url(t.clone())),
            None => None,
        };
        // the media type decides what the media URL is: a photo response
        // carries the full-size image there; video and rich responses
        // arrive only as inline HTML, which is force-disabled below
        let is_photo = match &oembed.basic.media_type {
            Some(t) => text::str_eq(t.as_str(), "photo"),
            None => false,
        };
        if is_photo {
            match &oembed.basic.url {
                Some(u) => {
                    embed.imgs.push(EmbedMedia::with_url(u.clone()));
                },
                None => {},
            }
        }
        let max_age = oembed.basic.cache_age;

        // never forward an inline HTML embed
        embed.obj = None;

        // the fixed provider icon of this handler
        embed.provider.icon = Some(
            EmbedMedia::with_url(
                "https://st.deviantart.net/eclipse/icons/da_favicon_v2.ico".to_owned(),
            ),
        );

        // a thumbnail beside a full-size media item is redundant
        if embed.has_fullsize_media() {
            embed.thumb = None;
        }

        embed.color = Some(0x05cc47);
        embed.url = Some(url.canonical_url());

        proof {
            crate::url::lemma_canonical_spec_clean(*url);
        }
        model::finalize_embed(embed, max_age)
    }
}

} // verus!
