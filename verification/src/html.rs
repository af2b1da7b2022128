use vstd::prelude::*;
use vstd::string::StrSliceExecFns;
use vstd::string::StringExecFns;
use ego_tree::iter::Edge;
use scraper::Node;
use crate::classify;
use crate::text;

verus! {

/// One event of a depth-first, document-order walk over a parsed HTML
/// tree: an element opening (with the attributes and classes the pipeline
/// reads), a text node, an element closing, or any other node kind.
pub enum RawNode {
    Open {
        name: String,
        src: Option<String>,
        alt: Option<String>,
        href: Option<String>,
        classes: Vec<String>,
    },
    Text { content: String },
    Close,
    Other,
}

pub open spec fn open_name(n: RawNode) -> Seq<char> {
    match n {
        RawNode::Open { name, .. } => name@,
        _ => Seq::<char>::empty(),
    }
}

pub open spec fn open_src(n: RawNode) -> Option<Seq<char>> {
    match n {
        RawNode::Open { src: Some(s), .. } => Some(s@),
        _ => None,
    }
}

pub open spec fn open_alt(n: RawNode) -> Option<Seq<char>> {
    match n {
        RawNode::Open { alt: Some(s), .. } => Some(s@),
        _ => None,
    }
}

pub open spec fn open_href(n: RawNode) -> Option<Seq<char>> {
    match n {
        RawNode::Open { href: Some(s), .. } => Some(s@),
        _ => None,
    }
}

pub open spec fn open_classes(n: RawNode) -> Seq<String> {
    match n {
        RawNode::Open { classes, .. } => classes@,
        _ => Seq::<String>::empty(),
    }
}

pub open spec fn text_content(n: RawNode) -> Seq<char> {
    match n {
        RawNode::Text { content } => content@,
        _ => Seq::<char>::empty(),
    }
}

/// Whether the class list holds `class`, exactly as written (selector match).
pub open spec fn class_listed(classes: Seq<String>, class: Seq<char>) -> bool {
    exists|i: int| 0 <= i < classes.len() && (#[trigger] classes[i])@ == class
}

/// Whether the class list holds `class`, ignoring ascii case.
pub open spec fn has_class_ci(classes: Seq<String>, class: Seq<char>) -> bool {
    exists|i: int| 0 <= i < classes.len() && classify::ci_eq((#[trigger] classes[i])@, class)
}

/// The node-event sequence that parsing an HTML document yields. The
/// depth-first walk emits two edges per node, in document order: an
/// element's edges become an opening and a closing event; a text node's
/// opening edge becomes a text event; every remaining edge (a text node's
/// closing edge, both edges of comments, doctypes and the like) becomes
/// an event of no interest.
pub uninterp spec fn events_of(html: Seq<char>) -> Seq<RawNode>;

/// Relies on scraper::Html::parse_document (and the document-order
/// traversal of the ego-tree it builds): parsing is pure, so the event
/// sequence depends on the input text alone.
#[verifier::external_body]
fn parse_document_nodes(html: &str) -> (r: Vec<RawNode>)
    ensures
        r@ == events_of(html@),
{
    let doc = scraper::Html::parse_document(html);
    doc.root_element().traverse().map(|e| match e {
        Edge::Open(n) => match n.value() {
            Node::Element(el) => {
                let at = |k| el.attr(k).map(str::to_string);
                RawNode::Open { name: el.name().to_string(), src: at("src"), alt: at("alt"),
                    href: at("href"), classes: el.classes().map(str::to_string).collect() }
            },
            Node::Text(t) => RawNode::Text { content: (&**t).to_string() },
            _ => RawNode::Other,
        },
        Edge::Close(n) => match n.value() { Node::Element(_) => RawNode::Close, _ => RawNode::Other },
    }).collect()
}

/// Parses an HTML document into its node-event sequence.
pub fn parse_document_events(html: &str) -> (r: Vec<RawNode>)
    ensures
        r@ == events_of(html@),
{
    parse_document_nodes(html)
}

/// Index of the closing event that ends the subtree which `depth` open
/// elements enclose at position `j`; the sequence length if the events
/// run out first.
pub open spec fn close_of(nodes: Seq<RawNode>, j: int, depth: int) -> int
    decreases nodes.len() - j,
{
    if j < 0 || j >= nodes.len() {
        nodes.len() as int
    } else if nodes[j] is Open {
        close_of(nodes, j + 1, depth + 1)
    } else if nodes[j] is Close {
        if depth <= 1 {
            j
        } else {
            close_of(nodes, j + 1, depth - 1)
        }
    } else {
        close_of(nodes, j + 1, depth)
    }
}

/// The closing event of the element that opens at `i`.
pub open spec fn elem_close(nodes: Seq<RawNode>, i: int) -> int {
    close_of(nodes, i + 1, 1)
}

pub proof fn lemma_close_of_bounds(nodes: Seq<RawNode>, j: int, depth: int)
    requires
        0 <= j <= nodes.len(),
    ensures
        j <= close_of(nodes, j, depth) <= nodes.len(),
    decreases nodes.len() - j,
{
    if j < nodes.len() {
        if nodes[j] is Open {
            lemma_close_of_bounds(nodes, j + 1, depth + 1);
        } else if nodes[j] is Close {
            if depth > 1 {
                lemma_close_of_bounds(nodes, j + 1, depth - 1);
            }
        } else {
            lemma_close_of_bounds(nodes, j + 1, depth);
        }
    }
}

/// Finds the closing event of the element opening at `i`.
pub fn find_elem_close(nodes: &Vec<RawNode>, i: usize) -> (r: usize)
    requires
        i < nodes@.len(),
    ensures
        r == elem_close(nodes@, i as int),
        i < r <= nodes@.len(),
{
    let n = nodes.len();
    let mut j: usize = i + 1;
    let mut depth: usize = 1;
    loop
        invariant_except_break
            i + 1 <= j <= n,
            1 <= depth <= j,
            n == nodes@.len(),
            close_of(nodes@, j as int, depth as int) == elem_close(nodes@, i as int),
        ensures
            j == elem_close(nodes@, i as int),
            i < j <= n,
        decreases n - j,
    {
        if j >= n {
            break;
        }
        match &nodes[j] {
            RawNode::Open { .. } => {
                depth = depth + 1;
            },
            RawNode::Close => {
                if depth <= 1 {
                    break;
                }
                depth = depth - 1;
            },
            _ => {},
        }
        j = j + 1;
    }
    proof {
        lemma_close_of_bounds(nodes@, i + 1, 1);
    }
    j
}

/// Whether the element opening at this event has the given name and lists
/// the given class: how a `name.class` selector picks an element.
pub open spec fn elem_matches(n: RawNode, name: Seq<char>, class: Seq<char>) -> bool {
    n is Open && open_name(n) == name && class_listed(open_classes(n), class)
}

/// The first event at or after `from` that opens a `name.class` element.
pub open spec fn find_elem_spec(nodes: Seq<RawNode>, from: int, name: Seq<char>, class: Seq<char>) -> Option<int>
    decreases nodes.len() - from,
{
    if from < 0 || from >= nodes.len() {
        None
    } else if elem_matches(nodes[from], name, class) {
        Some(from)
    } else {
        find_elem_spec(nodes, from + 1, name, class)
    }
}

fn class_list_has(classes: &Vec<String>, class: &str) -> (r: bool)
    ensures
        r == class_listed(classes@, class@),
{
    let n = classes.len();
    let mut i: usize = 0;
    while i < n
        invariant
            i <= n,
            n == classes@.len(),
            forall|j: int| 0 <= j < i ==> (#[trigger] classes@[j])@ != class@,
        decreases n - i,
    {
        if text::str_eq(classes[i].as_str(), class) {
            return true;
        }
        i += 1;
    }
    false
}

fn class_list_has_ci(classes: &Vec<String>, class: &str) -> (r: bool)
    ensures
        r == has_class_ci(classes@, class@),
{
    let n = classes.len();
    let mut i: usize = 0;
    while i < n
        invariant
            i <= n,
            n == classes@.len(),
            forall|j: int| 0 <= j < i ==> !classify::ci_eq((#[trigger] classes@[j])@, class@),
        decreases n - i,
    {
        if classify::ci_eq_str(classes[i].as_str(), class) {
            return true;
        }
        i += 1;
    }
    false
}

fn elem_matches_exec(n: &RawNode, name: &str, class: &str) -> (r: bool)
    ensures
        r == elem_matches(*n, name@, class@),
{
    match n {
        RawNode::Open { name: nm, classes, .. } => {
            proof {
                assert(open_name(*n) == nm@);
                assert(open_classes(*n) == classes@);
            }
            text::str_eq(nm.as_str(), name) && class_list_has(classes, class)
        },
        _ => false,
    }
}

/// Finds the first `name.class` element of the document, in document
/// order, starting at `from`.
pub fn find_elem(nodes: &Vec<RawNode>, from: usize, name: &str, class: &str) -> (r: Option<usize>)
    ensures
        match r {
            Some(i) => from <= i < nodes@.len() && Some(i as int) == find_elem_spec(
                nodes@,
                from as int,
                name@,
                class@,
            ),
            None => find_elem_spec(nodes@, from as int, name@, class@) is None,
        },
{
    let n = nodes.len();
    let mut i: usize = from;
    while i < n
        invariant
            from <= i,
            n == nodes@.len(),
            find_elem_spec(nodes@, i as int, name@, class@) == find_elem_spec(
                nodes@,
                from as int,
                name@,
                class@,
            ),
        decreases n - i,
    {
        if elem_matches_exec(&nodes[i], name, class) {
            return Some(i);
        }
        i += 1;
    }
    None
}

/// The concatenation of every text node's content in `[j, end)`.
pub open spec fn text_in(nodes: Seq<RawNode>, j: int, end: int) -> Seq<char>
    decreases end - j,
{
    if j < 0 || j >= end || j >= nodes.len() {
        Seq::<char>::empty()
    } else {
        (if nodes[j] is Text {
            text_content(nodes[j])
        } else {
            Seq::<char>::empty()
        }) + text_in(nodes, j + 1, end)
    }
}

/// Accumulates, unaltered and in document order, all text within the
/// event range `[from, end)`.
pub fn accumulate_text(nodes: &Vec<RawNode>, from: usize, end: usize) -> (r: String)
    requires
        end <= nodes@.len(),
    ensures
        r@ == text_in(nodes@, from as int, end as int),
{
    let mut acc = String::new();
    let mut j: usize = from;
    while j < end
        invariant
            from <= j,
            end <= nodes@.len(),
            acc@ + text_in(nodes@, j as int, end as int) == text_in(
                nodes@,
                from as int,
                end as int,
            ),
        decreases end - j,
    {
        match &nodes[j] {
            RawNode::Text { content } => {
                acc.append(content.as_str());
            },
            _ => {},
        }
        j += 1;
    }
    proof {
        assert(acc@ + text_in(nodes@, j as int, end as int) =~= acc@);
    }
    acc
}

/// The first text node's content in `[j, end)`, if any.
pub open spec fn first_text_in(nodes: Seq<RawNode>, j: int, end: int) -> Option<Seq<char>>
    decreases end - j,
{
    if j < 0 || j >= end || j >= nodes.len() {
        None
    } else if nodes[j] is Text {
        Some(text_content(nodes[j]))
    } else {
        first_text_in(nodes, j + 1, end)
    }
}

/// The redundant-caption pattern: the node right after the image element
/// is a text node whose trimmed content equals the image's alt text
/// exactly. Only the immediate next sibling is inspected.
pub open spec fn dup_caption(nodes: Seq<RawNode>, j: int, alt: Seq<char>) -> bool {
    let c = elem_close(nodes, j);
    c + 1 < nodes.len() && nodes[c + 1] is Text && text::trim_ws_spec(text_content(nodes[c + 1]))
        == alt
}

/// What one event adds to the aggregated description: a text node its
/// content with line breaks stripped from both ends and leading whitespace
/// removed; a line-break element a single newline, unless the text already
/// ends with a blank line; an image its alt text, unless the alt text is
/// a redundant caption or absent; anything else nothing.
pub open spec fn desc_step(nodes: Seq<RawNode>, j: int, acc: Seq<char>) -> Seq<char> {
    let n = nodes[j];
    if n is Text {
        acc + text::trim_start_ws_spec(text::trim_nl_spec(text_content(n)))
    } else if n is Open {
        if open_name(n) == "br"@ {
            if !text::ends_with_spec(acc, "\n\n"@) {
                acc + "\n"@
            } else {
                acc
            }
        } else if open_name(n) == "img"@ {
            match open_alt(n) {
                Some(alt) => if dup_caption(nodes, j, alt) {
                    acc
                } else {
                    acc + alt
                },
                None => acc,
            }
        } else {
            acc
        }
    } else {
        acc
    }
}

/// The aggregated description text of the event range `[j, end)`.
pub open spec fn desc_walk(nodes: Seq<RawNode>, j: int, end: int, acc: Seq<char>) -> Seq<char>
    decreases end - j,
{
    if j < 0 || j >= end || j >= nodes.len() {
        acc
    } else {
        desc_walk(nodes, j + 1, end, desc_step(nodes, j, acc))
    }
}

/// A line-break element never makes the text end in two blank lines: if
/// the aggregate ends with three newlines after a line-break step, it
/// already did before.
pub proof fn lemma_br_collapses(nodes: Seq<RawNode>, j: int, acc: Seq<char>)
    requires
        0 <= j < nodes.len(),
        nodes[j] is Open,
        open_name(nodes[j]) == "br"@,
        text::ends_with_spec(desc_step(nodes, j, acc), "\n\n\n"@),
    ensures
        text::ends_with_spec(acc, "\n\n\n"@),
{
    reveal_strlit("\n");
    reveal_strlit("\n\n");
    reveal_strlit("\n\n\n");
    let r = desc_step(nodes, j, acc);
    if !text::ends_with_spec(acc, "\n\n"@) {
        assert(r == acc + "\n"@);
        assert(r.len() == acc.len() + 1);
        assert(r.len() >= 3);
        assert(acc.len() >= 2);
        let t3 = r.subrange(r.len() - 3, r.len() as int);
        assert(t3 == "\n\n\n"@);
        assert(r[r.len() - 3] == t3[0]);
        assert(r[r.len() - 2] == t3[1]);
        assert(acc[acc.len() - 2] == r[r.len() - 3]);
        assert(acc[acc.len() - 1] == r[r.len() - 2]);
        assert(acc.subrange(acc.len() - 2, acc.len() as int) =~= "\n\n"@);
        assert(false);
    } else {
        assert(r == acc);
    }
}

/// Two consecutive line-break elements add at most one newline between
/// them: the second step never changes a text that the first step just
/// ended with a blank line.
pub proof fn lemma_double_br(nodes: Seq<RawNode>, j: int, k: int, acc: Seq<char>)
    requires
        0 <= j < nodes.len(),
        0 <= k < nodes.len(),
        nodes[j] is Open,
        nodes[k] is Open,
        open_name(nodes[j]) == "br"@,
        open_name(nodes[k]) == "br"@,
        text::ends_with_spec(acc, "\n"@),
    ensures
        desc_step(nodes, k, desc_step(nodes, j, acc)) == desc_step(nodes, j, acc),
{
    reveal_strlit("\n");
    reveal_strlit("\n\n");
    let r = desc_step(nodes, j, acc);
    if !text::ends_with_spec(acc, "\n\n"@) {
        assert(r == acc + "\n"@);
        assert(acc.len() >= 1);
        let t1 = acc.subrange(acc.len() - 1, acc.len() as int);
        assert(t1 == "\n"@);
        assert(acc[acc.len() - 1] == t1[0]);
        assert(acc[acc.len() - 1] == '\n');
        assert(r[r.len() - 2] == acc[acc.len() - 1]);
        assert(r[r.len() - 1] == "\n"@[0]);
        assert(r.subrange(r.len() - 2, r.len() as int) =~= "\n\n"@);
        assert(text::ends_with_spec(r, "\n\n"@));
    } else {
        assert(r == acc);
    }
}

/// Walks the description subtree in document order and accumulates its
/// text: text nodes stripped of surrounding line breaks and leading
/// whitespace, a collapsed newline for each line-break element, and image
/// alt texts with redundant captions dropped.
pub fn aggregate_description(nodes: &Vec<RawNode>, from: usize, end: usize) -> (r: String)
    requires
        end <= nodes@.len(),
    ensures
        r@ == desc_walk(nodes@, from as int, end as int, Seq::<char>::empty()),
{
    let n = nodes.len();
    let mut acc = String::new();
    let mut j: usize = from;
    while j < end
        invariant
            from <= j,
            end <= n == nodes@.len(),
            desc_walk(nodes@, j as int, end as int, acc@) == desc_walk(
                nodes@,
                from as int,
                end as int,
                Seq::<char>::empty(),
            ),
        decreases end - j,
    {
        let ghost prev = acc@;
        match &nodes[j] {
            RawNode::Text { content } => {
                let piece = text::trim_start_ws(text::trim_nl(content.as_str()));
                acc.append(piece);
            },
            RawNode::Open { name, alt, .. } => {
                proof {
                    assert(open_name(nodes@[j as int]) == name@);
                }
                if text::str_eq(name.as_str(), "br") {
                    if !text::ends_with(acc.as_str(), "\n\n") {
                        acc.append("\n");
                    }
                } else if text::str_eq(name.as_str(), "img") {
                    match alt {
                        Some(alt_text) => {
                            proof {
                                assert(open_alt(nodes@[j as int]) == Some(alt_text@));
                            }
                            let c = find_elem_close(nodes, j);
                            let mut dup = false;
                            if c < n - 1 {
                                match &nodes[c + 1] {
                                    RawNode::Text { content } => {
                                        if text::str_eq(
                                            text::trim_ws(content.as_str()),
                                            alt_text.as_str(),
                                        ) {
                                            dup = true;
                                        }
                                    },
                                    _ => {},
                                }
                            }
                            proof {
                                assert(dup == dup_caption(nodes@, j as int, alt_text@));
                            }
                            if !dup {
                                acc.append(alt_text.as_str());
                            }
                        },
                        None => {},
                    }
                }
            },
            _ => {},
        }
        proof {
            assert(acc@ == desc_step(nodes@, j as int, prev));
        }
        j += 1;
    }
    acc
}

/// Alt-text de-duplication: an image whose alt text the immediately
/// following text node repeats (after trimming) contributes nothing to
/// the description; the text node alone carries the caption, so the alt
/// text appears exactly once.
pub proof fn lemma_alt_text_dedup(nodes: Seq<RawNode>, j: int, alt: Seq<char>, acc: Seq<char>)
    requires
        0 <= j < nodes.len(),
        nodes[j] is Open,
        open_name(nodes[j]) == "img"@,
        open_alt(nodes[j]) == Some(alt),
        dup_caption(nodes, j, alt),
    ensures
        desc_step(nodes, j, acc) == acc,
{
    reveal_strlit("img");
    reveal_strlit("br");
    assert("img"@.len() == 3);
    assert("br"@.len() == 2);
    assert(open_name(nodes[j]) != "br"@);
}

/// Names of the element kinds the media scan reacts to: the recognized
/// media kinds and the unsupported embed object that aborts the scan.
pub open spec fn media_name(s: Seq<char>) -> bool {
    s == "img"@ || s == "audio"@ || s == "vid"@ || s == "object"@
}

/// The first media-relevant element opening in `[j, end)`.
pub open spec fn find_media_idx(nodes: Seq<RawNode>, j: int, end: int) -> Option<int>
    decreases end - j,
{
    if j < 0 || j >= end || j >= nodes.len() {
        None
    } else if nodes[j] is Open && media_name(open_name(nodes[j])) {
        Some(j)
    } else {
        find_media_idx(nodes, j + 1, end)
    }
}

#[derive(Clone, Copy, PartialEq, Eq, Structural, Debug)]
pub enum MediaKind {
    Image,
    Video,
    Audio,
}

/// What the media scan of a submission area yields: the kind, fixed-up
/// source URL and alt text of the first recognized media element in the
/// subtree of the element at `area`. Nothing is yielded when no such
/// element occurs, when an unsupported embed object comes first, or when
/// the element found has no source URL.
pub open spec fn detect_media_spec(nodes: Seq<RawNode>, area: int) -> Option<
    (MediaKind, Seq<char>, Option<Seq<char>>),
> {
    let end = elem_close(nodes, area);
    match find_media_idx(nodes, area + 1, end) {
        None => None,
        Some(k) => {
            let n = nodes[k];
            if open_name(n) == "object"@ {
                None
            } else {
                match open_src(n) {
                    None => None,
                    Some(src) => {
                        let kind = if open_name(n) == "img"@ {
                            MediaKind::Image
                        } else if open_name(n) == "audio"@ {
                            MediaKind::Audio
                        } else {
                            MediaKind::Video
                        };
                        Some((kind, crate::url::fix_relative_spec(src), open_alt(n)))
                    },
                }
            }
        },
    }
}

pub open spec fn opt_str_view(o: Option<String>) -> Option<Seq<char>> {
    match o {
        Some(s) => Some(s@),
        None => None,
    }
}

/// Scans the subtree of the element at `area` for its primary media: the
/// first recognized media element decides kind, source and alt text for
/// the whole submission; an unsupported embed object coming first aborts
/// the scan.
pub fn detect_media(nodes: &Vec<RawNode>, area: usize) -> (r: Option<
    (MediaKind, String, Option<String>),
>)
    requires
        area < nodes@.len(),
    ensures
        match r {
            Some(m) => detect_media_spec(nodes@, area as int) == Some(
                (m.0, m.1@, opt_str_view(m.2)),
            ),
            None => detect_media_spec(nodes@, area as int) is None,
        },
{
    let end = find_elem_close(nodes, area);
    let mut j: usize = area + 1;
    while j < end
        invariant
            area + 1 <= j,
            end == elem_close(nodes@, area as int),
            end <= nodes@.len(),
            find_media_idx(nodes@, j as int, end as int) == find_media_idx(
                nodes@,
                area + 1,
                end as int,
            ),
        decreases end - j,
    {
        match &nodes[j] {
            RawNode::Open { name, src, alt, .. } => {
                proof {
                    assert(open_name(nodes@[j as int]) == name@);
                }
                let is_img = text::str_eq(name.as_str(), "img");
                let is_audio = text::str_eq(name.as_str(), "audio");
                let is_vid = text::str_eq(name.as_str(), "vid");
                let is_object = text::str_eq(name.as_str(), "object");
                if is_img || is_audio || is_vid || is_object {
                    if is_object {
                        return None;
                    }
                    match src {
                        Some(s) => {
                            let kind = if is_img {
                                MediaKind::Image
                            } else if is_audio {
                                MediaKind::Audio
                            } else {
                                MediaKind::Video
                            };
                            let fixed = crate::url::fix_relative_scheme(s.as_str());
                            let alt_out = match alt {
                                Some(a) => Some(a.clone()),
                                None => None,
                            };
                            proof {
                                assert(open_src(nodes@[j as int]) == Some(s@));
                            }
                            return Some((kind, fixed, alt_out));
                        },
                        None => {
                            proof {
                                assert(open_src(nodes@[j as int]) is None);
                            }
                            return None;
                        },
                    }
                }
            },
            _ => {},
        }
        j += 1;
    }
    None
}

/// Whether the element links to a user profile.
pub open spec fn author_href(n: RawNode) -> bool {
    match open_href(n) {
        Some(h) => text::starts_with_spec(h, "/user/"@),
        None => false,
    }
}

/// The first sibling element, walking events from `j` at relative depth
/// `d`, whose link target begins with the user-profile prefix. Only
/// elements at the starting level count as siblings; the search ends when
/// the enclosing element closes.
pub open spec fn find_author_idx(nodes: Seq<RawNode>, j: int, d: int) -> Option<int>
    decreases nodes.len() - j,
{
    if j < 0 || j >= nodes.len() {
        None
    } else if nodes[j] is Close {
        if d == 0 {
            None
        } else {
            find_author_idx(nodes, j + 1, d - 1)
        }
    } else if nodes[j] is Open {
        if d == 0 && author_href(nodes[j]) {
            Some(j)
        } else {
            find_author_idx(nodes, j + 1, d + 1)
        }
    } else {
        find_author_idx(nodes, j + 1, d)
    }
}

/// Scans the siblings following the event at `from` for the first
/// link-like element whose target path begins with `/user/`.
pub fn find_author(nodes: &Vec<RawNode>, from: usize) -> (r: Option<usize>)
    ensures
        match r {
            Some(i) => from <= i < nodes@.len() && find_author_idx(nodes@, from as int, 0) == Some(
                i as int,
            ),
            None => find_author_idx(nodes@, from as int, 0) is None,
        },
{
    let n = nodes.len();
    let mut j: usize = from;
    let mut d: usize = 0;
    while j < n
        invariant
            from <= j,
            n == nodes@.len(),
            d <= j,
            find_author_idx(nodes@, j as int, d as int) == find_author_idx(
                nodes@,
                from as int,
                0,
            ),
        decreases n - j,
    {
        match &nodes[j] {
            RawNode::Close => {
                if d == 0 {
                    return None;
                }
                d = d - 1;
            },
            RawNode::Open { href, .. } => {
                let mut hit = false;
                if d == 0 {
                    match href {
                        Some(h) => {
                            if text::starts_with(h.as_str(), "/user/") {
                                hit = true;
                            }
                        },
                        None => {},
                    }
                }
                proof {
                    assert(hit == (d == 0 && author_href(nodes@[j as int])));
                }
                if hit {
                    return Some(j);
                }
                d = d + 1;
            },
            _ => {},
        }
        j += 1;
    }
    None
}

/// A found element lies in the searched range and matches the selector.
pub proof fn lemma_find_elem_props(nodes: Seq<RawNode>, from: int, name: Seq<char>, class: Seq<char>)
    ensures
        match find_elem_spec(nodes, from, name, class) {
            Some(i) => from <= i < nodes.len() && elem_matches(nodes[i], name, class),
            None => true,
        },
    decreases nodes.len() - from,
{
    if 0 <= from < nodes.len() && !elem_matches(nodes[from], name, class) {
        lemma_find_elem_props(nodes, from + 1, name, class);
    }
}

/// A found author link is an element with a user-profile link target.
pub proof fn lemma_find_author_props(nodes: Seq<RawNode>, j: int, d: int)
    ensures
        match find_author_idx(nodes, j, d) {
            Some(k) => j <= k < nodes.len() && nodes[k] is Open && author_href(nodes[k]),
            None => true,
        },
    decreases nodes.len() - j,
{
    if 0 <= j < nodes.len() {
        if nodes[j] is Close {
            if d != 0 {
                lemma_find_author_props(nodes, j + 1, d - 1);
            }
        } else if nodes[j] is Open {
            if !(d == 0 && author_href(nodes[j])) {
                lemma_find_author_props(nodes, j + 1, d + 1);
            }
        } else {
            lemma_find_author_props(nodes, j + 1, d);
        }
    }
}

/// Whether the element opening at `i` lists `class`, ignoring ascii case.
pub fn elem_has_class_ci(nodes: &Vec<RawNode>, i: usize, class: &str) -> (r: bool)
    requires
        i < nodes@.len(),
    ensures
        r == has_class_ci(open_classes(nodes@[i as int]), class@),
{
    match &nodes[i] {
        RawNode::Open { classes, .. } => {
            proof {
                assert(open_classes(nodes@[i as int]) == classes@);
            }
            class_list_has_ci(classes, class)
        },
        _ => {
            proof {
                assert(open_classes(nodes@[i as int]) =~= Seq::<String>::empty());
            }
            false
        },
    }
}

/// The content tags of the page: for each link element that is a direct
/// child of the tag container, the first text of its subtree, in document
/// order. `d` is the relative depth of the walk.
pub open spec fn collect_tags_spec(nodes: Seq<RawNode>, j: int, end: int, d: int) -> Seq<
    Seq<char>,
>
    decreases end - j,
{
    if j < 0 || j >= end || j >= nodes.len() {
        Seq::<Seq<char>>::empty()
    } else if nodes[j] is Open {
        let rest = collect_tags_spec(nodes, j + 1, end, d + 1);
        if d == 0 && open_name(nodes[j]) == "a"@ {
            match first_text_in(nodes, j + 1, elem_close(nodes, j)) {
                Some(t) => seq![t] + rest,
                None => rest,
            }
        } else {
            rest
        }
    } else if nodes[j] is Close {
        collect_tags_spec(nodes, j + 1, end, d - 1)
    } else {
        collect_tags_spec(nodes, j + 1, end, d)
    }
}

/// Collects the text of every tag link that is a direct child of the
/// container element whose subtree is `[from, end)`.
pub fn collect_tags(nodes: &Vec<RawNode>, from: usize, end: usize) -> (r: Vec<String>)
    requires
        end <= nodes@.len(),
    ensures
        classify::string_views(r@) == collect_tags_spec(nodes@, from as int, end as int, 0),
{
    let mut acc: Vec<String> = Vec::new();
    let mut j: usize = from;
    let mut d: i128 = 0;
    proof {
        assert(classify::string_views(acc@) =~= Seq::<Seq<char>>::empty());
    }
    while j < end
        invariant
            from <= j,
            end <= nodes@.len(),
            -(j as int) <= d as int <= j as int,
            classify::string_views(acc@) + collect_tags_spec(nodes@, j as int, end as int, d as int)
                == collect_tags_spec(nodes@, from as int, end as int, 0),
        decreases end - j,
    {
        let ghost prev = acc@;
        match &nodes[j] {
            RawNode::Open { name, .. } => {
                proof {
                    assert(open_name(nodes@[j as int]) == name@);
                }
                if d == 0 && text::str_eq(name.as_str(), "a") {
                    let c = find_elem_close(nodes, j);
                    match first_text_exec(nodes, j + 1, c) {
                        Some(t) => {
                            acc.push(t);
                            proof {
                                assert(classify::string_views(acc@) =~= classify::string_views(
                                    prev,
                                ) + seq![acc@[acc@.len() - 1]@]);
                            }
                        },
                        None => {},
                    }
                }
                d = d + 1;
            },
            RawNode::Close => {
                d = d - 1;
            },
            _ => {},
        }
        proof {
            assert(classify::string_views(acc@) + collect_tags_spec(
                nodes@,
                j + 1,
                end as int,
                d as int,
            ) =~= collect_tags_spec(nodes@, from as int, end as int, 0));
        }
        j += 1;
    }
    acc
}

/// The content tags of the whole page: those of every tag container at or
/// after `from`, in document order.
pub open spec fn all_tags_spec(nodes: Seq<RawNode>, from: int) -> Seq<Seq<char>>
    decreases nodes.len() - from,
    via all_tags_decreases
{
    if from < 0 {
        Seq::<Seq<char>>::empty()
    } else {
        match find_elem_spec(nodes, from, "span"@, "tags"@) {
            None => Seq::<Seq<char>>::empty(),
            Some(i) => collect_tags_spec(nodes, i + 1, elem_close(nodes, i), 0) + all_tags_spec(
                nodes,
                i + 1,
            ),
        }
    }
}

#[via_fn]
proof fn all_tags_decreases(nodes: Seq<RawNode>, from: int) {
    lemma_find_elem_props(nodes, from, "span"@, "tags"@);
}

/// Collects the content tags of every tag container on the page, in
/// document order.
pub fn collect_all_tags(nodes: &Vec<RawNode>) -> (r: Vec<String>)
    ensures
        classify::string_views(r@) == all_tags_spec(nodes@, 0),
{
    let n = nodes.len();
    let mut acc: Vec<String> = Vec::new();
    let mut pos: usize = 0;
    proof {
        assert(classify::string_views(acc@) + all_tags_spec(nodes@, 0)
            =~= all_tags_spec(nodes@, 0));
    }
    loop
        invariant_except_break
            pos <= n,
            n == nodes@.len(),
            classify::string_views(acc@) + all_tags_spec(nodes@, pos as int) == all_tags_spec(
                nodes@,
                0,
            ),
        ensures
            classify::string_views(acc@) == all_tags_spec(nodes@, 0),
        decreases n - pos,
    {
        match find_elem(nodes, pos, "span", "tags") {
            None => {
                proof {
                    assert(classify::string_views(acc@) + all_tags_spec(nodes@, pos as int)
                        =~= classify::string_views(acc@));
                }
                break;
            },
            Some(i) => {
                let end = find_elem_close(nodes, i);
                let mut part = collect_tags(nodes, i + 1, end);
                let ghost prev = acc@;
                let ghost part_view = part@;
                acc.append(&mut part);
                proof {
                    assert(acc@ == prev + part_view);
                    assert(classify::string_views(prev + part_view) =~= classify::string_views(
                        prev,
                    ) + classify::string_views(part_view));
                    assert((classify::string_views(prev) + classify::string_views(part_view))
                        + all_tags_spec(nodes@, i + 1) =~= classify::string_views(prev) + (
                    classify::string_views(part_view) + all_tags_spec(nodes@, i + 1)));
                }
                pos = i + 1;
            },
        }
    }
    acc
}

fn first_text_exec(nodes: &Vec<RawNode>, from: usize, end: usize) -> (r: Option<String>)
    requires
        end <= nodes@.len(),
    ensures
        match r {
            Some(s) => first_text_in(nodes@, from as int, end as int) == Some(s@),
            None => first_text_in(nodes@, from as int, end as int) is None,
        },
{
    let mut j: usize = from;
    while j < end
        invariant
            from <= j,
            end <= nodes@.len(),
            first_text_in(nodes@, j as int, end as int) == first_text_in(
                nodes@,
                from as int,
                end as int,
            ),
        decreases end - j,
    {
        match &nodes[j] {
            RawNode::Text { content } => {
                return Some(content.clone());
            },
            _ => {},
        }
        j += 1;
    }
    None
}

} // verus!
