use vstd::prelude::*;

use crate::calendar::{
    date_parsed, lemma_midnight_in_range, midnight_timestamp, midnight_utc_of, parse_date,
    valid_ymd,
};
use crate::domain::{dedup_by_url, first_by_url, views, NewsItem, NewsItemView};
use crate::markup::{
    attr_at, class_count, find_all_with_class, find_with_class, node_attr, node_text, opt_text,
    parse_document, text_at, trim_text, trimmed_of, MarkupNode,
};

verus! {

/// The listing page that the news are read from; links on it are resolved against it.
pub const NEWS_URL: &'static str = "https://editorial.rottentomatoes.com/news";

/// How a publication date is written on the page, e.g. "March 4, 2024".
pub const DATE_FORMAT: &'static str = "%B %d, %Y";

pub const ARTICLE_CLASS: &'static str = "articleLink";

pub const CAPTION_CLASS: &'static str = "bannerCaption";

pub const BODY_CLASS: &'static str = "panel-body";

pub const TITLE_CLASS: &'static str = "title";

pub const DATE_CLASS: &'static str = "publication-date";

pub const LINK_ATTR: &'static str = "href";

/// The kind of a news item, after the first segment of its url path.
#[derive(Clone, Copy, Debug, PartialEq, Eq, Structural)]
pub enum NewsItemKind {
    Article,
    Guide,
    Gallery,
}

/// The path of a link once resolved against the page's url.
#[derive(Debug)]
pub enum UrlPath {
    /// The link is no url, even relative to the page.
    Unparsable,
    /// The url has no hierarchical path (as in `mailto:`).
    NoSegments,
    /// The first segment of the url's path.
    FirstSegment(String),
}

pub open spec fn path_view(p: UrlPath) -> Option<Option<Seq<char>>> {
    match p {
        UrlPath::Unparsable => None,
        UrlPath::NoSegments => Some(None),
        UrlPath::FirstSegment(s) => Some(Some(s@)),
    }
}

/// What the `url` crate makes of `href` joined to `base`: `None` where either does not
/// parse, `Some(None)` where the result has no path segments, else its first segment.
pub uninterp spec fn resolved_path_head(base: Seq<char>, href: Seq<char>) -> Option<
    Option<Seq<char>>,
>;

/// Relies on `url::Url::parse`, `Url::join` and `Url::path_segments`: resolves `href`
/// against `base` and reads the first segment of the resulting path.
#[verifier::external_body]
fn resolve_path_head(base: &str, href: &str) -> (r: UrlPath)
    ensures
        path_view(r) == resolved_path_head(base@, href@),
{
    let joined = match url::Url::parse(base) {
        Ok(b) => b.join(href),
        Err(e) => Err(e),
    };
    match joined {
        Err(_) => UrlPath::Unparsable,
        Ok(u) => match u.path_segments() {
            Some(mut segments) => match segments.next() {
                Some(s) => UrlPath::FirstSegment(s.to_string()),
                None => UrlPath::NoSegments,
            },
            None => UrlPath::NoSegments,
        },
    }
}

/// Why a url gives no kind.
#[derive(Debug)]
pub enum KindError {
    /// The url does not parse.
    UnparsableUrl(String),
    /// The url has no path segments.
    NoPathSegment(String),
    /// The first path segment names no kind.
    UnknownSegment(String),
}

pub enum KindErrorView {
    UnparsableUrl(Seq<char>),
    NoPathSegment(Seq<char>),
    UnknownSegment(Seq<char>),
}

impl View for KindError {
    type V = KindErrorView;

    open spec fn view(&self) -> KindErrorView {
        match self {
            KindError::UnparsableUrl(u) => KindErrorView::UnparsableUrl(u@),
            KindError::NoPathSegment(u) => KindErrorView::NoPathSegment(u@),
            KindError::UnknownSegment(s) => KindErrorView::UnknownSegment(s@),
        }
    }
}

pub open spec fn kind_result_view(r: Result<NewsItemKind, KindError>) -> Result<
    NewsItemKind,
    KindErrorView,
> {
    match r {
        Ok(k) => Ok(k),
        Err(e) => Err(e@),
    }
}

/// The kind that a first path segment names, by exact match.
pub open spec fn segment_kind(seg: Seq<char>) -> Option<NewsItemKind> {
    if seg == "article"@ {
        Some(NewsItemKind::Article)
    } else if seg == "guide"@ {
        Some(NewsItemKind::Guide)
    } else if seg == "gallery"@ {
        Some(NewsItemKind::Gallery)
    } else {
        None
    }
}

/// The kind of `url`, given the head of its resolved path.
pub open spec fn classify(url: Seq<char>, head: Option<Option<Seq<char>>>) -> Result<
    NewsItemKind,
    KindErrorView,
> {
    match head {
        None => Err(KindErrorView::UnparsableUrl(url)),
        Some(None) => Err(KindErrorView::NoPathSegment(url)),
        Some(Some(seg)) => match segment_kind(seg) {
            Some(k) => Ok(k),
            None => Err(KindErrorView::UnknownSegment(seg)),
        },
    }
}

/// The kind of a link on the news page.
pub open spec fn kind_of_url(url: Seq<char>) -> Result<NewsItemKind, KindErrorView> {
    classify(url, resolved_path_head(NEWS_URL@, url))
}

fn same_text(s: &String, lit: &str) -> (r: bool)
    ensures
        r == (s@ == lit@),
{
    *s == lit.to_owned()
}

impl NewsItemKind {
    /// The kind named by the first path segment `head` of `url`.
    pub fn from_path_head(url: &str, head: UrlPath) -> (r: Result<NewsItemKind, KindError>)
        ensures
            kind_result_view(r) == classify(url@, path_view(head)),
    {
        match head {
            UrlPath::Unparsable => Err(KindError::UnparsableUrl(url.to_owned())),
            UrlPath::NoSegments => Err(KindError::NoPathSegment(url.to_owned())),
            UrlPath::FirstSegment(seg) => {
                if same_text(&seg, "article") {
                    Ok(NewsItemKind::Article)
                } else if same_text(&seg, "guide") {
                    Ok(NewsItemKind::Guide)
                } else if same_text(&seg, "gallery") {
                    Ok(NewsItemKind::Gallery)
                } else {
                    Err(KindError::UnknownSegment(seg))
                }
            },
        }
    }

    /// The kind of a link on the news page: `url` is resolved against the page,
    /// and the first segment of its path must be "article", "guide" or "gallery".
    pub fn try_from_url(url: &str) -> (r: Result<NewsItemKind, KindError>)
        ensures
            kind_result_view(r) == kind_of_url(url@),
            r is Ok ==> (resolved_path_head(NEWS_URL@, url@) matches Some(Some(seg)) && (seg
                == "article"@ || seg == "guide"@ || seg == "gallery"@)),
    {
        let head = resolve_path_head(NEWS_URL, url);
        NewsItemKind::from_path_head(url, head)
    }
}

/// The raw pieces read from one article block of the page; each may be missing.
#[derive(Debug)]
pub struct RawCandidate {
    /// The text of the block's title, untrimmed.
    pub title: Option<String>,
    /// The text of the block's publication date.
    pub date_text: Option<String>,
    /// The block's link.
    pub href: Option<String>,
}

pub struct RawCandidateView {
    pub title: Option<Seq<char>>,
    pub date_text: Option<Seq<char>>,
    pub href: Option<Seq<char>>,
}

impl View for RawCandidate {
    type V = RawCandidateView;

    open spec fn view(&self) -> RawCandidateView {
        RawCandidateView {
            title: opt_text(self.title),
            date_text: opt_text(self.date_text),
            href: opt_text(self.href),
        }
    }
}

pub open spec fn candidate_views(s: Seq<RawCandidate>) -> Seq<RawCandidateView> {
    s.map_values(|c: RawCandidate| c@)
}

/// The text of the first node of class `class` that the query from the node at
/// `at` finds, if there is one.
pub open spec fn leaf_text(html: Seq<char>, at: Seq<(Seq<char>, int)>, class: Seq<char>) -> Option<
    Seq<char>,
> {
    if class_count(html, at, class) > 0 {
        Some(text_at(html, at.push((class, 0))))
    } else {
        None
    }
}

/// The pieces of the article block of `html` at `at`: the title and date texts
/// under its caption and body, and its link.
pub open spec fn block_from(html: Seq<char>, at: Seq<(Seq<char>, int)>) -> RawCandidateView {
    let caption = at.push((CAPTION_CLASS@, 0));
    let body = caption.push((BODY_CLASS@, 0));
    let has_body = class_count(html, at, CAPTION_CLASS@) > 0 && class_count(
        html,
        caption,
        BODY_CLASS@,
    ) > 0;
    RawCandidateView {
        title: if has_body {
            leaf_text(html, body, TITLE_CLASS@)
        } else {
            None
        },
        date_text: if has_body {
            leaf_text(html, body, DATE_CLASS@)
        } else {
            None
        },
        href: attr_at(html, at, LINK_ATTR@),
    }
}

/// The article blocks of `html`, in document order.
pub open spec fn blocks_of(html: Seq<char>) -> Seq<RawCandidateView> {
    Seq::new(
        class_count(html, Seq::empty(), ARTICLE_CLASS@),
        |i: int| block_from(html, Seq::empty().push((ARTICLE_CLASS@, i))),
    )
}

/// What could be recovered of a block that gave no news item.
#[derive(Debug)]
pub struct PartialItem {
    pub title: Option<String>,
    pub date: Option<i64>,
    pub url: Option<String>,
    pub kind: Option<NewsItemKind>,
}

pub struct PartialItemView {
    pub title: Option<Seq<char>>,
    pub date: Option<i64>,
    pub url: Option<Seq<char>>,
    pub kind: Option<NewsItemKind>,
}

impl View for PartialItem {
    type V = PartialItemView;

    open spec fn view(&self) -> PartialItemView {
        PartialItemView {
            title: opt_text(self.title),
            date: self.date,
            url: opt_text(self.url),
            kind: self.kind,
        }
    }
}

/// The title of a block: its text trimmed, where that is not empty.
pub open spec fn title_of(c: RawCandidateView) -> Option<Seq<char>> {
    match c.title {
        Some(t) => if trimmed_of(t).len() > 0 {
            Some(trimmed_of(t))
        } else {
            None
        },
        None => None,
    }
}

/// The publication time of a block: midnight UTC of the day its date text spells.
pub open spec fn date_of(c: RawCandidateView) -> Option<i64> {
    match c.date_text {
        Some(t) => match date_parsed(t, DATE_FORMAT@) {
            Some((y, m, d)) => if valid_ymd(y, m, d) {
                Some(midnight_utc_of(y, m, d) as i64)
            } else {
                None
            },
            None => None,
        },
        None => None,
    }
}

/// The kind of a block, after its link.
pub open spec fn kind_of(c: RawCandidateView) -> Option<NewsItemKind> {
    match c.href {
        Some(u) => match kind_of_url(u) {
            Ok(k) => Some(k),
            Err(_) => None,
        },
        None => None,
    }
}

/// The news item that a block gives, where every piece of it is there.
pub open spec fn record_of(c: RawCandidateView) -> Option<NewsItemView<NewsItemKind>> {
    match (title_of(c), date_of(c), c.href, kind_of(c)) {
        (Some(title), Some(date), Some(url), Some(kind)) => Some(
            NewsItemView { title, date, url, kind },
        ),
        _ => None,
    }
}

pub open spec fn partial_of(c: RawCandidateView) -> PartialItemView {
    PartialItemView { title: title_of(c), date: date_of(c), url: c.href, kind: kind_of(c) }
}

/// The news items that the blocks `cs` give, in order.
pub open spec fn records_of(cs: Seq<RawCandidateView>) -> Seq<NewsItemView<NewsItemKind>>
    decreases cs.len(),
{
    if cs.len() == 0 {
        Seq::empty()
    } else {
        let rest = records_of(cs.drop_last());
        match record_of(cs.last()) {
            Some(v) => rest.push(v),
            None => rest,
        }
    }
}

/// What is recovered of the blocks of `cs` that give no news item, in order.
pub open spec fn dropped_of(cs: Seq<RawCandidateView>) -> Seq<PartialItemView>
    decreases cs.len(),
{
    if cs.len() == 0 {
        Seq::empty()
    } else {
        let rest = dropped_of(cs.drop_last());
        match record_of(cs.last()) {
            Some(_) => rest,
            None => rest.push(partial_of(cs.last())),
        }
    }
}

pub open spec fn partial_views(s: Seq<PartialItem>) -> Seq<PartialItemView> {
    s.map_values(|p: PartialItem| p@)
}

/// A block that lacks any piece gives no news item: taking it out of the
/// blocks changes none of the news items that they give.
pub proof fn lemma_incomplete_candidate_excluded(cs: Seq<RawCandidateView>, i: int)
    requires
        0 <= i < cs.len(),
        cs[i].title is None || cs[i].date_text is None || cs[i].href is None,
    ensures
        records_of(cs) == records_of(cs.remove(i)),
    decreases cs.len(),
{
    let p = cs.drop_last();
    if i == cs.len() - 1 {
        assert(cs.remove(i) =~= p);
    } else {
        lemma_incomplete_candidate_excluded(p, i);
        let q = cs.remove(i);
        assert(q.drop_last() =~= p.remove(i));
        assert(q.last() == cs.last());
    }
}

/// A news item that a block gives has a non-empty title, a date at midnight UTC
/// of some day, the block's own link as url, and the kind of that url.
pub proof fn lemma_record_well_formed(c: RawCandidateView)
    ensures
        record_of(c) matches Some(v) ==> {
            &&& v.title.len() > 0
            &&& v.date % 86400 == 0
            &&& c.href == Some(v.url)
            &&& kind_of_url(v.url) == Ok::<NewsItemKind, KindErrorView>(v.kind)
        },
{
    if let Some(t) = c.date_text {
        if let Some((y, m, d)) = date_parsed(t, DATE_FORMAT@) {
            if valid_ymd(y, m, d) {
                lemma_midnight_in_range(y, m, d);
            }
        }
    }
}

/// The outcome of reading a page: the news items, and what was recovered of
/// the blocks that gave none.
pub struct Extraction {
    pub items: Vec<NewsItem<NewsItemKind>>,
    pub dropped: Vec<PartialItem>,
}

fn copy_text(s: &Option<String>) -> (r: Option<String>)
    ensures
        opt_text(r) == opt_text(*s),
{
    match s {
        Some(t) => Some(t.clone()),
        None => None,
    }
}

/// The news item that one block gives, or what could be recovered of it.
pub fn build_item(c: &RawCandidate) -> (r: Result<NewsItem<NewsItemKind>, PartialItem>)
    ensures
        match r {
            Ok(item) => record_of(c@) == Some(item@) && trimmed_of(item.title@) == item.title@,
            Err(p) => record_of(c@) is None && p@ == partial_of(c@),
        },
{
    let title = match &c.title {
        Some(t) => {
            let trimmed = trim_text(t.as_str());
            if trimmed.as_str().is_empty() {
                None
            } else {
                Some(trimmed)
            }
        },
        None => None,
    };
    let date = match &c.date_text {
        Some(t) => match parse_date(t.as_str(), DATE_FORMAT) {
            Some(d) => Some(midnight_timestamp(d)),
            None => None,
        },
        None => None,
    };
    let kind = match &c.href {
        Some(u) => match NewsItemKind::try_from_url(u.as_str()) {
            Ok(k) => Some(k),
            Err(_) => None,
        },
        None => None,
    };
    let url = copy_text(&c.href);
    match (title, date, url, kind) {
        (Some(title), Some(date), Some(url), Some(kind)) => Ok(NewsItem { title, date, url, kind }),
        (title, date, url, kind) => Err(PartialItem { title, date, url, kind }),
    }
}

/// The news items that the blocks give, in order, and what was recovered of
/// the others.
pub fn extract_items(cs: &Vec<RawCandidate>) -> (r: Extraction)
    ensures
        views(r.items@) == records_of(candidate_views(cs@)),
        partial_views(r.dropped@) == dropped_of(candidate_views(cs@)),
{
    let ghost all = candidate_views(cs@);
    let mut items: Vec<NewsItem<NewsItemKind>> = Vec::new();
    let mut dropped: Vec<PartialItem> = Vec::new();
    let mut i: usize = 0;
    while i < cs.len()
        invariant
            i <= cs.len(),
            all == candidate_views(cs@),
            views(items@) == records_of(all.take(i as int)),
            partial_views(dropped@) == dropped_of(all.take(i as int)),
        decreases cs.len() - i,
    {
        let ghost before_items = views(items@);
        let ghost before_dropped = partial_views(dropped@);
        proof {
            let next = all.take(i + 1);
            assert(next.drop_last() =~= all.take(i as int));
            assert(next.last() == cs@[i as int]@);
        }
        match build_item(&cs[i]) {
            Ok(item) => {
                items.push(item);
                assert(views(items@) =~= before_items.push(items@.last()@));
            },
            Err(p) => {
                dropped.push(p);
                assert(partial_views(dropped@) =~= before_dropped.push(dropped@.last()@));
            },
        }
        i += 1;
    }
    assert(all.take(cs.len() as int) =~= all);
    Extraction { items, dropped }
}

/// The news items that the blocks give, without repeated urls: the first
/// item of each url stays, in order; and what was recovered of the blocks
/// that gave none.
pub fn news_from_candidates(cs: &Vec<RawCandidate>) -> (r: Extraction)
    ensures
        views(r.items@) == first_by_url(records_of(candidate_views(cs@))),
        partial_views(r.dropped@) == dropped_of(candidate_views(cs@)),
{
    let extracted = extract_items(cs);
    let Extraction { items, dropped } = extracted;
    Extraction { items: dedup_by_url(items), dropped }
}

fn find_text(node: &MarkupNode, class: &str) -> (r: Option<String>)
    ensures
        opt_text(r) == leaf_text(node.html(), node.path(), class@),
{
    match find_with_class(node, class) {
        Some(leaf) => Some(node_text(&leaf)),
        None => None,
    }
}

/// Reads the pieces of one article block of the page: the title and date texts
/// along its caption and body, and its own link.
pub fn read_candidate(node: &MarkupNode) -> (r: RawCandidate)
    ensures
        r@ == block_from(node.html(), node.path()),
{
    let body = match find_with_class(node, CAPTION_CLASS) {
        Some(caption) => find_with_class(&caption, BODY_CLASS),
        None => None,
    };
    let title = match &body {
        Some(b) => find_text(b, TITLE_CLASS),
        None => None,
    };
    let date_text = match &body {
        Some(b) => find_text(b, DATE_CLASS),
        None => None,
    };
    RawCandidate { title, date_text, href: node_attr(node, LINK_ATTR) }
}

/// The article blocks of a page, in document order.
pub fn candidates_in(html: &str) -> (r: Vec<RawCandidate>)
    ensures
        candidate_views(r@) == blocks_of(html@),
{
    let document = parse_document(html);
    let nodes = find_all_with_class(&document, ARTICLE_CLASS);
    let ghost blocks = blocks_of(html@);
    let mut out: Vec<RawCandidate> = Vec::new();
    let mut i: usize = 0;
    while i < nodes.len()
        invariant
            i <= nodes.len(),
            nodes@.len() == blocks.len(),
            blocks == blocks_of(html@),
            document.html() == html@,
            document.path() == Seq::<(Seq<char>, int)>::empty(),
            forall|k: int|
                #![trigger nodes@[k]]
                0 <= k < nodes@.len() ==> nodes@[k].html() == html@ && nodes@[k].path()
                    == Seq::<(Seq<char>, int)>::empty().push((ARTICLE_CLASS@, k)),
            candidate_views(out@) == blocks.take(i as int),
        decreases nodes.len() - i,
    {
        let c = read_candidate(&nodes[i]);
        let ghost before = candidate_views(out@);
        out.push(c);
        proof {
            assert(nodes@[i as int].html() == html@);
            assert(c@ == blocks[i as int]);
            assert(candidate_views(out@) =~= before.push(c@));
            assert(candidate_views(out@) =~= blocks.take(i + 1));
        }
        i += 1;
    }
    assert(blocks.take(nodes.len() as int) =~= blocks);
    out
}

/// The news items of a page, without repeated urls, and what was recovered
/// of the blocks that gave none. Reading never fails: a page without article
/// blocks gives nothing.
pub fn news_from_markup(html: &str) -> (r: Extraction)
    ensures
        views(r.items@) == first_by_url(records_of(blocks_of(html@))),
        partial_views(r.dropped@) == dropped_of(blocks_of(html@)),
{
    let cs = candidates_in(html);
    news_from_candidates(&cs)
}

} // verus!
