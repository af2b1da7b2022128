use vstd::prelude::*;

verus! {

/// Content-sensitivity flags. Within one request these are monotonic:
/// every step of the pipeline may set a flag, none may clear one.
#[derive(Clone, Copy, PartialEq, Eq, Structural, Debug)]
pub struct EmbedFlags {
    pub adult: bool,
    pub graphic: bool,
}

/// `b` keeps every flag that `a` has set.
pub open spec fn flags_leq(a: EmbedFlags, b: EmbedFlags) -> bool {
    &&& (a.adult ==> b.adult)
    &&& (a.graphic ==> b.graphic)
}

impl EmbedFlags {
    pub fn none() -> (r: EmbedFlags)
        ensures
            r == (EmbedFlags { adult: false, graphic: false }),
    {
        EmbedFlags { adult: false, graphic: false }
    }

    pub fn set_adult(&mut self)
        ensures
            *final(self) == (EmbedFlags { adult: true, graphic: old(self).graphic }),
            flags_leq(*old(self), *final(self)),
    {
        self.adult = true;
    }

    pub fn set_graphic(&mut self)
        ensures
            *final(self) == (EmbedFlags { adult: old(self).adult, graphic: true }),
            flags_leq(*old(self), *final(self)),
    {
        self.graphic = true;
    }
}

/// Flag growth is transitive: a pipeline of monotonic steps is monotonic.
pub proof fn lemma_flags_leq_trans(a: EmbedFlags, b: EmbedFlags, c: EmbedFlags)
    requires
        flags_leq(a, b),
        flags_leq(b, c),
    ensures
        flags_leq(a, c),
{
}

/// A media reference: a url plus optional descriptive alt text.
#[derive(Clone, Debug)]
pub struct EmbedMedia {
    pub url: String,
    pub description: Option<String>,
}

impl EmbedMedia {
    pub fn with_url(url: String) -> (r: EmbedMedia)
        ensures
            r.url == url,
            r.description is None,
    {
        EmbedMedia { url, description: None }
    }
}

#[derive(Clone, Debug)]
pub struct EmbedAuthor {
    pub name: String,
    pub url: Option<String>,
    pub icon: Option<EmbedMedia>,
}

impl EmbedAuthor {
    pub fn empty() -> (r: EmbedAuthor)
        ensures
            r.name@ == Seq::<char>::empty(),
            r.url is None,
            r.icon is None,
    {
        EmbedAuthor { name: String::new(), url: None, icon: None }
    }
}

#[derive(Clone, Debug)]
pub struct EmbedProvider {
    pub name: Option<String>,
    pub url: Option<String>,
    pub icon: Option<EmbedMedia>,
}

impl EmbedProvider {
    pub fn empty() -> (r: EmbedProvider)
        ensures
            r.name is None,
            r.url is None,
            r.icon is None,
    {
        EmbedProvider { name: None, url: None, icon: None }
    }
}

/// The canonical preview record produced for a matched URL.
#[derive(Debug)]
pub struct EmbedV1 {
    pub title: Option<String>,
    pub description: Option<String>,
    pub author: Option<EmbedAuthor>,
    pub provider: EmbedProvider,
    /// Inline HTML supplied upstream; never forwarded, handlers force it off.
    pub obj: Option<String>,
    pub thumb: Option<EmbedMedia>,
    pub imgs: Vec<EmbedMedia>,
    pub video: Option<EmbedMedia>,
    pub audio: Option<EmbedMedia>,
    pub color: Option<u32>,
    pub url: Option<String>,
    pub flags: EmbedFlags,
}

impl EmbedV1 {
    pub fn empty() -> (r: EmbedV1)
        ensures
            r.title is None,
            r.description is None,
            r.author is None,
            r.provider.name is None,
            r.provider.url is None,
            r.provider.icon is None,
            r.obj is None,
            r.thumb is None,
            r.imgs@ =~= Seq::<EmbedMedia>::empty(),
            r.video is None,
            r.audio is None,
            r.color is None,
            r.url is None,
            r.flags == (EmbedFlags { adult: false, graphic: false }),
    {
        EmbedV1 {
            title: None,
            description: None,
            author: None,
            provider: EmbedProvider::empty(),
            obj: None,
            thumb: None,
            imgs: Vec::new(),
            video: None,
            audio: None,
            color: None,
            url: None,
            flags: EmbedFlags { adult: false, graphic: false },
        }
    }

    /// Whether a full-size media item is already present, which makes a
    /// separate thumbnail redundant.
    pub open spec fn has_fullsize_media_spec(&self) -> bool {
        self.imgs@.len() > 0 || self.video is Some || self.audio is Some
    }

    pub fn has_fullsize_media(&self) -> (r: bool)
        ensures
            r == self.has_fullsize_media_spec(),
    {
        self.imgs.len() > 0 || self.video.is_some() || self.audio.is_some()
    }
}

/// Default seconds-to-live for a produced preview: four hours.
pub const DEFAULT_EXPIRE_SECS: u64 = 14400;

/// Largest displayable RGB color value.
pub const MAX_COLOR: u32 = 0xffffff;

/// Applies the handler-agnostic invariants before a result is returned:
/// the URL, if set, is forced into its canonical form (query and fragment
/// stripped), the color is clamped to the displayable RGB range, and the
/// expiry is the handler-supplied value, else the fixed default. Flags,
/// media and text fields pass through unaltered.
pub fn finalize_embed(embed: EmbedV1, max_age: Option<u64>) -> (r: (EmbedV1, u64))
    ensures
        r.1 == (match max_age {
            Some(age) => age,
            None => DEFAULT_EXPIRE_SECS,
        }),
        r.0.color == (match embed.color {
            Some(c) => Some(if c > MAX_COLOR { MAX_COLOR } else { c }),
            None => None::<u32>,
        }),
        (match embed.url {
            Some(u) => r.0.url matches Some(c) && c@ == crate::url::canonical_form(u@),
            None => r.0.url is None,
        }),
        r.0.title == embed.title,
        r.0.description == embed.description,
        r.0.author == embed.author,
        r.0.provider == embed.provider,
        r.0.obj == embed.obj,
        r.0.thumb == embed.thumb,
        r.0.imgs == embed.imgs,
        r.0.video == embed.video,
        r.0.audio == embed.audio,
        r.0.flags == embed.flags,
{
    let expire: u64 = match max_age {
        Some(age) => age,
        None => DEFAULT_EXPIRE_SECS,
    };
    let mut out = embed;
    out.color = match out.color {
        Some(c) => Some(if c > MAX_COLOR { MAX_COLOR } else { c }),
        None => None,
    };
    out.url = match out.url {
        Some(u) => Some(crate::url::canonicalize(u.as_str())),
        None => None,
    };
    (out, expire)
}

} // verus!
