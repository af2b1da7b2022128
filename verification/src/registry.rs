use vstd::prelude::*;
use crate::config::Config;
use crate::config::ConfigError;
use crate::config::section_lookup;
use crate::deviantart;
use crate::deviantart::DeviantArtExtractor;
use crate::furaffinity;
use crate::furaffinity::FurAffinityExtractor;
use crate::furaffinity::FurAffinityExtractorFactory;
use crate::url::UrlParts;

verus! {

/// One registered site handler.
pub enum Handler {
    DeviantArt(DeviantArtExtractor),
    FurAffinity(FurAffinityExtractor),
}

impl Handler {
    /// Which URLs the handler claims; pure and side-effect-free.
    pub open spec fn matches_spec(&self, u: UrlParts) -> bool {
        match self {
            Handler::DeviantArt(_) => deviantart::da_matches_spec(u),
            Handler::FurAffinity(_) => furaffinity::fa_matches_spec(u),
        }
    }

    pub fn matches(&self, url: &UrlParts) -> (r: bool)
        ensures
            r == self.matches_spec(*url),
    {
        match self {
            Handler::DeviantArt(h) => h.matches(url),
            Handler::FurAffinity(h) => h.matches(url),
        }
    }
}

/// Whether `i` is the index of the first handler whose match predicate
/// fires for the URL.
pub open spec fn first_match(handlers: Seq<Handler>, u: UrlParts, i: int) -> bool {
    &&& 0 <= i < handlers.len()
    &&& handlers[i].matches_spec(u)
    &&& forall|j: int| 0 <= j < i ==> !(#[trigger] handlers[j]).matches_spec(u)
}

/// An ordered list of site handlers, constructed once at startup and
/// immutable afterward; registration order is a design-visible priority.
pub struct Registry {
    pub handlers: Vec<Handler>,
}

impl Registry {
    pub fn new(handlers: Vec<Handler>) -> (r: Registry)
        ensures
            r.handlers == handlers,
    {
        Registry { handlers }
    }

    /// Builds the registry from validated configuration: the
    /// structured-metadata handler is always enabled, the scrape handler
    /// only when its configuration section is present; an invalid section
    /// is a hard startup failure.
    pub fn from_config(config: &Config) -> (r: Result<Registry, ConfigError>)
        ensures
            match r {
                Ok(reg) => {
                    &&& reg.handlers@.len() >= 1
                    &&& reg.handlers@[0] is DeviantArt
                    &&& (section_lookup(config.extractors@, "furaffinity"@) is None
                        ==> reg.handlers@.len() == 1)
                    &&& (section_lookup(config.extractors@, "furaffinity"@) is Some
                        ==> reg.handlers@.len() == 2 && (reg.handlers@[1] matches
                    Handler::FurAffinity(f) && furaffinity::fa_create_ok(*config, Ok(Some(f)))))
                },
                Err(e) => furaffinity::fa_create_ok(*config, Err(e)),
            },
    {
        let mut handlers: Vec<Handler> = Vec::new();
        let da_factory = DeviantArtExtractor;
        match da_factory.create(config) {
            Ok(Some(h)) => {
                handlers.push(Handler::DeviantArt(h));
            },
            _ => {
                proof {
                    assert(false);
                }
            },
        }
        let fa_factory = FurAffinityExtractorFactory;
        match fa_factory.create(config) {
            Ok(Some(h)) => {
                handlers.push(Handler::FurAffinity(h));
            },
            Ok(None) => {},
            Err(e) => {
                return Err(e);
            },
        }
        Ok(Registry { handlers })
    }

    /// Selects the first handler, in registration order, whose match
    /// predicate fires; no handler matching is a normal, reportable
    /// outcome, not a defect.
    pub fn find_handler(&self, url: &UrlParts) -> (r: Option<usize>)
        ensures
            match r {
                Some(i) => first_match(self.handlers@, *url, i as int),
                None => forall|j: int|
                    0 <= j < self.handlers@.len() ==> !(#[trigger] self.handlers@[j]).matches_spec(
                        *url,
                    ),
            },
    {
        let n = self.handlers.len();
        let mut i: usize = 0;
        while i < n
            invariant
                i <= n,
                n == self.handlers@.len(),
                forall|j: int|
                    0 <= j < i ==> !(#[trigger] self.handlers@[j]).matches_spec(*url),
            decreases n - i,
        {
            if self.handlers[i].matches(url) {
                return Some(i);
            }
            i += 1;
        }
        None
    }
}

/// At most one index is the first match for a URL: dispatch is
/// deterministic, and with the same registration order it is stable
/// across runs.
pub proof fn lemma_first_match_unique(handlers: Seq<Handler>, u: UrlParts, i1: int, i2: int)
    requires
        first_match(handlers, u, i1),
        first_match(handlers, u, i2),
    ensures
        i1 == i2,
{
    if i1 < i2 {
        assert(!handlers[i1].matches_spec(u));
    }
    if i2 < i1 {
        assert(!handlers[i2].matches_spec(u));
    }
}

} // verus!
