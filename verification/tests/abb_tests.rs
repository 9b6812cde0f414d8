use audiobooker::abb::{encode_abb_query, origin_of, origin_or_mirror, rss_is_search_feed};
use audiobooker::abb_parse::{
    capture_file_size, capture_labeled, cut_description, detect_has_more, effective_page,
    extract_info_hash, feed_has_more, latest_needs_fallback, listing_has_more, parse_details,
    parse_listing, parse_rss_feed, requested_page, search_query, BrowseQuery, details_page_parts,
    listing_posts,
};
use audiobooker::cache::{normalize_listing_url, page_cache_key, ttl_for};
use audiobooker::error::AppError;

#[test]
fn encodes_like_wordpress() {
    assert_eq!(
        encode_abb_query("sunrise on the reaping"),
        "sunrise+on+the+reaping"
    );
    // Mixed case must lower — ABB redirects capitalized s= to homepage.
    assert_eq!(
        encode_abb_query("Sunrise on the Reaping"),
        "sunrise+on+the+reaping"
    );
    assert_eq!(
        encode_abb_query("Sunrise on the Reaping:"),
        "sunrise+on+the+reaping%3A"
    );
}

#[test]
fn parses_rss_search_items() {
    let xml = r#"<?xml version="1.0"?>
        <rss><channel>
          <atom:link href="http://audiobookbay.lu/?s=sunrise+on+the+reaping&amp;feed=rss2" rel="self"/>
          <item>
            <title>Sunrise on the Reaping: A Hunger Games Novel - Suzanne Collins</title>
            <link>https://audiobookbay.lu/abss/example/</link>
            <description><![CDATA[Written by Suzanne Collins Format: M4B Bitrate: 128 Kbps<br /><img src="https://example.com/c.jpg" />]]></description>
            <media:thumbnail url="https://example.com/c.jpg"/>
            <pubDate>Tue, 18 Mar 2025 08:23:10 +0000</pubDate>
            <category><![CDATA[English]]></category>
            <category><![CDATA[Fantasy]]></category>
          </item>
        </channel></rss>"#;
    assert!(rss_is_search_feed(xml, "sunrise+on+the+reaping"));
    let results = parse_rss_feed(xml, "https://audiobookbay.lu");
    assert_eq!(results.len(), 1);
    assert!(results[0].title.contains("Sunrise"));
    assert_eq!(results[0].format.as_deref(), Some("M4B"));
    assert_eq!(
        results[0].cover_url.as_deref(),
        Some("https://example.com/c.jpg")
    );
}

#[test]
fn rejects_homepage_rss_as_search() {
    let xml = r#"<?xml version="1.0"?><rss><channel>
          <atom:link href="http://audiobookbay.lu/feed" rel="self"/>
          <item><title>Final Strike</title><link>https://audiobookbay.lu/abss/x/</link></item>
        </channel></rss>"#;
    assert!(!rss_is_search_feed(xml, "sunrise+on+the+reaping"));
}

#[test]
fn rss_item_fields_in_full() {
    let xml = r#"<rss><channel><item>
        <title>Sunrise on the Reaping: A Hunger Games Novel - Suzanne Collins</title>
        <link>/abss/example/</link>
        <description><![CDATA[Written by Suzanne Collins Format: M4B Bitrate: 128 Kbps<br />]]></description>
        <pubDate>Tue, 18 Mar 2025 08:23:10 +0000</pubDate>
        <category><![CDATA[English]]></category>
        <category><![CDATA[Fantasy]]></category>
      </item></channel></rss>"#;
    let results = parse_rss_feed(xml, "https://audiobookbay.lu");
    assert_eq!(results.len(), 1);
    let r = &results[0];
    assert_eq!(r.title, "Sunrise on the Reaping: A Hunger Games Novel");
    assert_eq!(r.url, "https://audiobookbay.lu/abss/example/");
    assert_eq!(r.author.as_deref(), Some("Suzanne Collins Format: M4B Bitrate: 128 Kbps"));
    assert_eq!(r.language.as_deref(), Some("English"));
    assert_eq!(r.category.as_deref(), Some("Fantasy"));
    assert_eq!(r.posted.as_deref(), Some("18 Mar 2025"));
    assert_eq!(r.bitrate.as_deref(), Some("128 Kbps"));
    assert_eq!(r.info.as_deref(), Some("M4B \u{b7} 128 Kbps \u{b7} Posted 18 Mar 2025"));
    assert_eq!(r.cover_url, None);
    assert_eq!(r.size, None);
}

#[test]
fn rss_skips_feed_links_and_untitled_items() {
    let xml = r#"<item><title>A</title><link>https://audiobookbay.lu/feed/</link></item>
        <item><title></title><link>https://audiobookbay.lu/abss/x/</link></item>
        <item><title>B</title><link>https://audiobookbay.lu/member/y/</link></item>"#;
    assert!(parse_rss_feed(xml, "https://audiobookbay.lu").is_empty());
}

#[test]
fn labeled_capture_is_cleaned() {
    assert_eq!(
        capture_labeled("Language: English &amp; French<br/>", r"(?is)Language:\s*([^<\n]+)"),
        Some("English & French".to_string())
    );
    assert_eq!(capture_labeled("nothing here", r"(?is)Language:\s*([^<\n]+)"), None);
    assert_eq!(
        capture_file_size("File Size: <span>698.91</span> MBs"),
        Some("698.91 MBs".to_string())
    );
}

#[test]
fn next_page_detection() {
    assert!(detect_has_more(r#"<a href="/page/3/">3</a>"#, 1));
    assert!(!detect_has_more(r#"<a href="/page/1/">1</a>"#, 1));
    assert!(detect_has_more(r#"<a href="/x/page/2/">next</a>"#, 1));
    assert!(!detect_has_more("no pages", 4));
}

#[test]
fn page_rules() {
    assert_eq!(effective_page(0), 1);
    assert_eq!(effective_page(7), 7);
    assert!(feed_has_more(9));
    assert!(!feed_has_more(8));
    assert!(listing_has_more(true, 1));
    assert!(!listing_has_more(true, 0));
    assert!(latest_needs_fallback(0, 1));
    assert!(!latest_needs_fallback(0, 2));
    assert_eq!(requested_page(None), 1);
    assert_eq!(search_query("  dune "), Ok("dune".to_string()));
    assert_eq!(
        search_query("   "),
        Err(AppError::BadRequest("Search query required".to_string()))
    );
    let q = BrowseQuery { page: None, category: Some("  bestsellers ".into()) };
    assert_eq!(q.category_slug().as_deref(), Some("bestsellers"));
    let q = BrowseQuery { page: None, category: Some("  ".into()) };
    assert_eq!(q.category_slug(), None);
}

#[test]
fn cache_keys_and_lifetimes() {
    assert_eq!(page_cache_key("search", "dune", 2), "search|dune|2");
    assert_eq!(
        normalize_listing_url("  https://audiobookbay.lu/abss/x/?a=1#top "),
        "https://audiobookbay.lu/abss/x"
    );
    assert_eq!(normalize_listing_url("https://x/y#a?b"), "https://x/y");
    assert_eq!(ttl_for("latest", 1), 1200);
    assert_eq!(ttl_for("latest", 2), 7200);
    assert_eq!(ttl_for("category", 1), 3600);
    assert_eq!(ttl_for("search", 1), 7200);
    assert_eq!(ttl_for("other", 1), 7200);
}

#[test]
fn parses_search_card_fields() {
    let html = r#"
        <div id="content">
          <h1 class="archiveTitle"><strong>Sunrise</strong></h1>
          <div class="post">
            <div class="postTitle"><h2><a href="/abss/example/">Sunrise on the Reaping: A Hunger Games Novel - Suzanne Collins</a></h2></div>
            <div class="postInfo">Category: Fantasy<br />Language: English</div>
            <div class="postContent">
              <img src="https://example.com/cover.jpg" />
              <p>Posted: 18 Mar 2025<br />Format: <span>M4B</span> / Bitrate: <span>128 Kbps</span><br />File Size: <span>698.91</span> MBs</p>
            </div>
          </div>
        </div>
        "#;
    let results = parse_listing(html, "https://audiobookbay.lu");
    assert_eq!(results.len(), 1);
    assert_eq!(
        results[0].title,
        "Sunrise on the Reaping: A Hunger Games Novel"
    );
    assert_eq!(results[0].author.as_deref(), Some("Suzanne Collins"));
    assert_eq!(results[0].format.as_deref(), Some("M4B"));
    assert!(results[0].size.as_deref().unwrap_or("").contains("698.91"));
}

#[test]
fn listing_ignores_sidebar_and_member_links() {
    let html = r#"
        <div id="sidebar"><div class="post"><div class="postTitle"><h2><a href="/abss/side/">Side</a></h2></div></div></div>
        <div id="content">
          <div class="post"><div class="postTitle"><h2><a href="/member/x/">Member</a></h2></div></div>
          <div class="post"><div class="postTitle"><h2><a href="/abss/main/">Main Book</a></h2></div>
            <div class="postInfo">Shelved</div></div>
        </div>"#;
    let results = parse_listing(html, "https://audiobookbay.lu");
    assert_eq!(results.len(), 1);
    assert_eq!(results[0].title, "Main Book");
    assert_eq!(results[0].url, "https://audiobookbay.lu/abss/main/");
    assert_eq!(results[0].info.as_deref(), Some("Shelved"));
    assert_eq!(results[0].cover_url, None);
}

#[test]
fn details_page_fields() {
    let html = r#"<html><body>
        <div class="postTitle"><h1>The Book - Jane Doe</h1></div>
        <div class="postContent"><img data-src="/img/c.jpg"/>
          <p>Read by John Roe</p>
          <table><tr><td>Info Hash:</td><td>ABCDEF0123456789ABCDEF0123456789ABCDEF01</td></tr>
          <tr><td>File Size:</td><td>1.5 GBs</td></tr></table>
        </div></body></html>"#;
    let d = parse_details(html, "https://audiobookbay.lu/abss/b/", "https://audiobookbay.lu").unwrap();
    assert_eq!(d.title, "The Book");
    assert_eq!(d.author.as_deref(), Some("Jane Doe"));
    assert_eq!(d.narrator.as_deref(), Some("John Roe"));
    assert_eq!(d.info_hash.as_deref(), Some("abcdef0123456789abcdef0123456789abcdef01"));
    assert_eq!(
        d.magnet_uri.as_deref(),
        Some("magnet:?xt=urn:btih:abcdef0123456789abcdef0123456789abcdef01")
    );
    assert_eq!(d.cover_url.as_deref(), Some("https://audiobookbay.lu/img/c.jpg"));
    assert_eq!(d.size.as_deref(), Some("1.5 GBs"));
    assert_eq!(d.url, "https://audiobookbay.lu/abss/b/");
}

#[test]
fn info_hash_from_a_line() {
    assert_eq!(
        extract_info_hash("Title\nInfohash: 0123456789abcdef0123456789abcdef01234567 end\n"),
        Some("0123456789abcdef0123456789abcdef01234567".to_string())
    );
    assert_eq!(extract_info_hash("no hash here"), None);
}

#[test]
fn long_descriptions_are_cut() {
    let s: Vec<char> = std::iter::repeat('a').take(1300).collect();
    let cut = cut_description(&s);
    assert_eq!(cut.len(), 1198);
    assert_eq!(cut[1197], '\u{2026}');
    let short: Vec<char> = "short".chars().collect();
    assert_eq!(cut_description(&short), short);
    let wide: Vec<char> = std::iter::repeat('\u{e9}').take(700).collect();
    let cut = cut_description(&wide);
    assert_eq!(cut.len(), 599);
}

#[test]
fn page_parts_are_read_from_the_first_matches() {
    let listing = r#"<div id="content">
        <div class="post"><div class="postTitle"><h2><a href="/abss/one/">One</a><a href="/abss/x/">X</a></h2></div>
          <div class="postContent"><img src="/a.jpg" data-src="/b.jpg"/></div>
          <div class="postInfo">First info</div></div>
        <div class="post"><p>No title</p></div>
      </div>"#;
    let posts = listing_posts(listing);
    assert_eq!(posts.len(), 2);
    assert_eq!(posts[0].link_text.as_deref(), Some("One"));
    assert_eq!(posts[0].href.as_deref(), Some("/abss/one/"));
    assert_eq!(posts[0].img_src.as_deref(), Some("/a.jpg"));
    assert_eq!(posts[0].img_data_src.as_deref(), Some("/b.jpg"));
    assert_eq!(posts[0].info_text.as_deref(), Some("First info"));
    assert_eq!(posts[1].link_text, None);
    assert_eq!(posts[1].img_src, None);
    assert!(posts[1].html.contains("No title"));
    assert!(listing_posts("<div class=\"post\"></div>").is_empty());

    let details = r#"<html><body><h1>Heading</h1>
        <a href="magnet:?xt=urn:btih:00">m</a><a href="magnet:?xt=urn:btih:11">n</a>
        <div class="postContent">Body text</div></body></html>"#;
    let page = details_page_parts(details);
    assert_eq!(page.title_text.as_deref(), Some("Heading"));
    assert_eq!(page.magnet_href.as_deref(), Some("magnet:?xt=urn:btih:00"));
    assert_eq!(page.img_src, None);
    assert_eq!(page.img_data_src, None);
    assert_eq!(page.content_text.as_deref(), Some("Body text"));
    assert!(page.body_text.contains("Heading") && page.body_text.contains("Body text"));
}

#[test]
fn page_cache_keys_are_distinct() {
    assert_eq!(page_cache_key("search", "sunrise", 2), "search|sunrise|2");
    assert_ne!(page_cache_key("search", "sunrise", 2), page_cache_key("search", "sunrise", 12));
    assert_ne!(page_cache_key("search", "sunrise", 1), page_cache_key("latest", "sunrise", 1));
    assert_ne!(page_cache_key("search", "sun", 21), page_cache_key("search", "sun2", 1));
    // with a `|` inside a part, two keys can meet
    assert_eq!(page_cache_key("a", "b|c", 1), page_cache_key("a|b", "c", 1));
}

#[test]
fn origins_of_addresses() {
    assert_eq!(origin_of("https://audiobookbay.is/abss/x/?a=1").as_deref(), Some("https://audiobookbay.is"));
    assert_eq!(origin_of("http://Example.COM:8080/p").as_deref(), Some("http://example.com"));
    assert_eq!(origin_of("not a url"), None);
    assert_eq!(origin_of("mailto:me@example.com"), None);
    assert_eq!(origin_or_mirror("/relative/only"), "https://audiobookbay.lu");
}
