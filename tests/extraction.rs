use moviegram::domain::{dedup_by_url, NewsItem};
use moviegram::rotten_tomatoes::{
    build_item, candidates_in, extract_items, news_from_candidates, news_from_markup, KindError,
    NewsItemKind, RawCandidate, UrlPath,
};

fn block(href: Option<&str>, title: Option<&str>, date: Option<&str>) -> String {
    let href = match href {
        Some(h) => format!(" href=\"{}\"", h),
        None => String::new(),
    };
    let title = match title {
        Some(t) => format!("<p class=\"title\">{}</p>", t),
        None => String::new(),
    };
    let date = match date {
        Some(d) => format!("<p class=\"publication-date\">{}</p>", d),
        None => String::new(),
    };
    format!(
        "<a class=\"articleLink\"{}><div class=\"bannerCaption\"><div class=\"panel-body\">{}{}</div></div></a>",
        href, title, date
    )
}

fn page(blocks: &[String]) -> String {
    format!("<!doctype html><html><body><div class=\"list\">{}</div></body></html>", blocks.join(""))
}

fn candidate(title: Option<&str>, date: Option<&str>, href: Option<&str>) -> RawCandidate {
    RawCandidate {
        title: title.map(|s| s.to_string()),
        date_text: date.map(|s| s.to_string()),
        href: href.map(|s| s.to_string()),
    }
}

fn item(title: &str, url: &str) -> NewsItem<NewsItemKind> {
    NewsItem { title: title.to_string(), date: 0, url: url.to_string(), kind: NewsItemKind::Article }
}

#[test]
fn classifies_relative_article_url() {
    assert!(matches!(NewsItemKind::try_from_url("/article/foo"), Ok(NewsItemKind::Article)));
}

#[test]
fn classifies_guide_and_gallery() {
    assert!(matches!(NewsItemKind::try_from_url("/guide/best-movies"), Ok(NewsItemKind::Guide)));
    assert!(matches!(
        NewsItemKind::try_from_url("https://editorial.rottentomatoes.com/gallery/posters/"),
        Ok(NewsItemKind::Gallery)
    ));
}

#[test]
fn unknown_segment_is_rejected() {
    match NewsItemKind::try_from_url("/video/clip") {
        Err(KindError::UnknownSegment(s)) => assert_eq!(s, "video"),
        _ => panic!("expected an unknown segment"),
    }
    assert!(NewsItemKind::try_from_url("/Article/foo").is_err());
    assert!(NewsItemKind::try_from_url("/articles/foo").is_err());
}

#[test]
fn url_without_path_segments_is_rejected() {
    match NewsItemKind::try_from_url("mailto:someone@example.com") {
        Err(KindError::NoPathSegment(u)) => assert_eq!(u, "mailto:someone@example.com"),
        _ => panic!("expected no path segment"),
    }
}

#[test]
fn unparsable_url_is_rejected() {
    match NewsItemKind::try_from_url("http://[::1") {
        Err(KindError::UnparsableUrl(u)) => assert_eq!(u, "http://[::1"),
        _ => panic!("expected an unparsable url"),
    }
}

#[test]
fn path_head_maps_exactly() {
    assert!(matches!(
        NewsItemKind::from_path_head("x", UrlPath::FirstSegment("gallery".to_string())),
        Ok(NewsItemKind::Gallery)
    ));
    assert!(matches!(
        NewsItemKind::from_path_head("x", UrlPath::FirstSegment("".to_string())),
        Err(KindError::UnknownSegment(_))
    ));
    assert!(matches!(
        NewsItemKind::from_path_head("x", UrlPath::NoSegments),
        Err(KindError::NoPathSegment(_))
    ));
    assert!(matches!(
        NewsItemKind::from_path_head("x", UrlPath::Unparsable),
        Err(KindError::UnparsableUrl(_))
    ));
}

#[test]
fn date_becomes_utc_midnight() {
    let c = candidate(Some("Foo"), Some("March 4, 2024"), Some("/article/foo"));
    match build_item(&c) {
        Ok(i) => assert_eq!(i.date, 1709510400),
        Err(_) => panic!("expected an item"),
    }
}

#[test]
fn epoch_day_is_zero() {
    let c = candidate(Some("Foo"), Some("January 1, 1970"), Some("/article/foo"));
    assert_eq!(build_item(&c).ok().unwrap().date, 0);
}

#[test]
fn title_is_trimmed_and_fields_kept() {
    let c = candidate(Some("  Big News \n"), Some("December 31, 1999"), Some("/guide/x"));
    let i = build_item(&c).ok().unwrap();
    assert_eq!(i.title, "Big News");
    assert_eq!(i.url, "/guide/x");
    assert_eq!(i.date, 946598400);
    assert!(matches!(i.kind, NewsItemKind::Guide));
}

#[test]
fn blank_title_is_dropped() {
    let c = candidate(Some("   "), Some("March 4, 2024"), Some("/article/foo"));
    assert!(build_item(&c).is_err());
}

#[test]
fn missing_title_is_dropped_with_partial_data() {
    let c = candidate(None, Some("March 4, 2024"), Some("/article/foo"));
    match build_item(&c) {
        Err(p) => {
            assert!(p.title.is_none());
            assert_eq!(p.date, Some(1709510400));
            assert_eq!(p.url.as_deref(), Some("/article/foo"));
            assert!(matches!(p.kind, Some(NewsItemKind::Article)));
        }
        Ok(_) => panic!("expected a drop"),
    }
}

#[test]
fn missing_date_or_url_is_dropped() {
    assert!(build_item(&candidate(Some("Foo"), None, Some("/article/foo"))).is_err());
    assert!(build_item(&candidate(Some("Foo"), Some("March 4, 2024"), None)).is_err());
}

#[test]
fn bad_date_text_is_dropped() {
    let c = candidate(Some("Foo"), Some("2024-03-04"), Some("/article/foo"));
    match build_item(&c) {
        Err(p) => assert!(p.date.is_none()),
        Ok(_) => panic!("expected a drop"),
    }
    assert!(build_item(&candidate(Some("Foo"), Some("February 30, 2024"), Some("/article/foo"))).is_err());
}

#[test]
fn unknown_kind_is_dropped() {
    let c = candidate(Some("Foo"), Some("March 4, 2024"), Some("/video/foo"));
    match build_item(&c) {
        Err(p) => {
            assert!(p.kind.is_none());
            assert_eq!(p.title.as_deref(), Some("Foo"));
        }
        Ok(_) => panic!("expected a drop"),
    }
}

#[test]
fn extraction_keeps_order_and_reports_drops() {
    let cs = vec![
        candidate(Some("A"), Some("March 4, 2024"), Some("/article/a")),
        candidate(None, Some("March 4, 2024"), Some("/article/b")),
        candidate(Some("C"), Some("March 5, 2024"), Some("/gallery/c")),
    ];
    let r = extract_items(&cs);
    assert_eq!(r.items.len(), 2);
    assert_eq!(r.items[0].title, "A");
    assert_eq!(r.items[1].title, "C");
    assert_eq!(r.dropped.len(), 1);
    assert_eq!(r.dropped[0].url.as_deref(), Some("/article/b"));
}

#[test]
fn dedup_keeps_first_occurrence_in_order() {
    let r = dedup_by_url(vec![item("a", "/1"), item("b", "/2"), item("c", "/1"), item("d", "/3"), item("e", "/2")]);
    let titles: Vec<&str> = r.iter().map(|i| i.title.as_str()).collect();
    assert_eq!(titles, vec!["a", "b", "d"]);
}

#[test]
fn dedup_is_idempotent() {
    let once = dedup_by_url(vec![item("a", "/1"), item("b", "/1"), item("c", "/2")]);
    let once_titles: Vec<String> = once.iter().map(|i| i.title.clone()).collect();
    let twice = dedup_by_url(once);
    let twice_titles: Vec<String> = twice.iter().map(|i| i.title.clone()).collect();
    assert_eq!(once_titles, twice_titles);
}

#[test]
fn dedup_of_empty_is_empty() {
    assert!(dedup_by_url(Vec::<NewsItem<NewsItemKind>>::new()).is_empty());
}

#[test]
fn candidates_after_dedup() {
    let cs = vec![
        candidate(Some("First"), Some("March 4, 2024"), Some("/article/foo")),
        candidate(Some("Second"), Some("March 5, 2024"), Some("/article/foo")),
    ];
    let r = news_from_candidates(&cs);
    assert_eq!(r.items.len(), 1);
    assert_eq!(r.items[0].title, "First");
}

#[test]
fn markup_blocks_are_read() {
    let html = page(&[block(Some("/article/foo"), Some(" Foo "), Some("March 4, 2024"))]);
    let cs = candidates_in(&html);
    assert_eq!(cs.len(), 1);
    assert_eq!(cs[0].title.as_deref(), Some(" Foo "));
    assert_eq!(cs[0].date_text.as_deref(), Some("March 4, 2024"));
    assert_eq!(cs[0].href.as_deref(), Some("/article/foo"));
}

#[test]
fn duplicate_urls_in_markup_give_one_item() {
    let b = block(Some("/article/foo"), Some("Foo"), Some("March 4, 2024"));
    let html = page(&[b.clone(), b]);
    let r = news_from_markup(&html);
    assert_eq!(r.items.len(), 1);
    assert_eq!(r.items[0].url, "/article/foo");
    assert_eq!(r.items[0].title, "Foo");
    assert_eq!(r.items[0].date, 1709510400);
    assert!(matches!(r.items[0].kind, NewsItemKind::Article));
}

#[test]
fn block_without_title_gives_nothing_and_a_drop() {
    let html = page(&[block(Some("/article/foo"), None, Some("March 4, 2024"))]);
    let r = news_from_markup(&html);
    assert!(r.items.is_empty());
    assert_eq!(r.dropped.len(), 1);
    assert_eq!(r.dropped[0].date, Some(1709510400));
}

#[test]
fn block_without_link_gives_nothing() {
    let html = page(&[block(None, Some("Foo"), Some("March 4, 2024"))]);
    let r = news_from_markup(&html);
    assert!(r.items.is_empty());
    assert_eq!(r.dropped.len(), 1);
}

#[test]
fn empty_markup_gives_nothing() {
    let r = news_from_markup("");
    assert!(r.items.is_empty());
    assert!(r.dropped.is_empty());
    let r = news_from_markup("<<<not html>>>");
    assert!(r.items.is_empty());
}

#[test]
fn markup_order_is_kept() {
    let html = page(&[
        block(Some("/gallery/g"), Some("G"), Some("January 2, 2023")),
        block(Some("/video/v"), Some("V"), Some("January 2, 2023")),
        block(Some("/guide/x"), Some("X"), Some("January 3, 2023")),
    ]);
    let r = news_from_markup(&html);
    assert_eq!(r.items.len(), 2);
    assert_eq!(r.items[0].title, "G");
    assert_eq!(r.items[1].title, "X");
    assert_eq!(r.dropped.len(), 1);
}

#[test]
fn absolute_link_block_without_title_reports_partial_data() {
    let html = "<a class='articleLink' href='https://editorial.rottentomatoes.com/article/foo/'><div class='bannerCaption'><div class='panel-body'><p class='publication-date'>March 4, 2024</p></div></div></a>";
    let r = news_from_markup(html);
    assert!(r.items.is_empty());
    assert_eq!(r.dropped.len(), 1);
    let p = &r.dropped[0];
    assert!(p.title.is_none());
    assert_eq!(p.date, Some(1709510400));
    assert_eq!(p.url.as_deref(), Some("https://editorial.rottentomatoes.com/article/foo/"));
    assert!(matches!(p.kind, Some(NewsItemKind::Article)));
}
