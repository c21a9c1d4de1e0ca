use jetson_discord_bot::web_search::{
    bing_result_url, extract_links, extract_urls, html_to_text, parse_bing_search_results,
    percent_encode, prompt_requests_web,
};

#[test]
fn prompt_requests_web_detects_korean_markers() {
    assert!(prompt_requests_web("오늘 뉴스 검색해줘"));
    assert!(prompt_requests_web("인터넷에서 최신 자료 찾아봐"));
    assert!(!prompt_requests_web("이 첨부 문서 요약해줘"));
    assert!(!prompt_requests_web("이 파일 확인해줘"));
}

#[test]
fn percent_encode_encodes_spaces_and_unicode() {
    assert_eq!(percent_encode("a b"), "a+b");
    assert_eq!(percent_encode("코미"), "%EC%BD%94%EB%AF%B8");
}

#[test]
fn extract_urls_detects_http_links() {
    assert_eq!(
        extract_urls("봐줘 https://example.com/test."),
        vec!["https://example.com/test"]
    );
}

#[test]
fn html_to_text_strips_tags_and_scripts() {
    assert_eq!(
        html_to_text("<p>Hello&nbsp;<b>world</b></p><script>bad()</script>"),
        "Hello world"
    );
}

#[test]
fn extract_links_resolves_same_page_links() {
    let links = extract_links(
        "https://example.com/docs/index.html",
        r#"<a href="/detail">A</a><a href="more.html#top">B</a>"#,
    );

    assert_eq!(
        links,
        vec![
            "https://example.com/detail".to_string(),
            "https://example.com/docs/more.html".to_string()
        ]
    );
}

#[test]
fn bing_result_url_extracts_destination() {
    assert_eq!(
        bing_result_url("https://www.bing.com/ck/a?u=a1aHR0cHM6Ly9leGFtcGxlLmNvbS9kb2M")
            .as_deref(),
        Some("https://example.com/doc")
    );
}

#[test]
fn parse_bing_search_results_reads_title_snippet_and_url() {
    let html = r#"
        <li class="b_algo">
          <h2><a href="https://example.com/doc">Example title</a></h2>
          <div class="b_caption"><p>Useful <b>summary</b>.</p></div>
        </li>
    "#;
    let results = parse_bing_search_results(html, 5);

    assert_eq!(results.len(), 1);
    assert_eq!(results[0].url, "https://example.com/doc");
    assert_eq!(results[0].text, "Example title: Useful summary.");
}

use jetson_discord_bot::config::Config;
use jetson_discord_bot::web_search::{
    bing_results, bing_route, decode_basic_entities, element_text, format_web_context,
    join_sections, read_attr_value, resolve_url, results_section, same_origin, search_results,
    split_url, strip_between, strip_fragment, trim_chars, web_destination, BingBlock, BingRoute,
    DuckDuckGoResponse, DuckDuckGoTopic, FetchedPage, LinkContext, SearchResult, UrlParts,
    WebSearch,
};

fn result(text: &str, url: &str) -> SearchResult {
    SearchResult { text: text.to_string(), url: url.to_string() }
}

#[test]
fn web_context_lists_results() {
    let results = vec![result("first", "https://a.example"), result("second", "https://b.example")];
    assert_eq!(
        format_web_context("q", &results),
        "Web reference results for query: q\n1. first\n   URL: https://a.example\n2. second\n   URL: https://b.example\nUse these references only if relevant. Cite URLs when using web facts."
    );
    assert_eq!(results_section("q", &[]), None);
    assert!(results_section("q", &results).unwrap().starts_with("Web reference results"));
    assert_eq!(trim_chars("abcdef", 3), "abc...");
    assert_eq!(trim_chars("abc", 3), "abc");
}

#[test]
fn entities_and_markup() {
    assert_eq!(decode_basic_entities("&amp;lt; &quot;x&#39;"), "< \"x'");
    assert_eq!(
        strip_between("a<SCRIPT>x</script>b<script>y", "<script", "</script>"),
        "ab"
    );
    assert_eq!(strip_between("a]b]c", "", "]"), "");
    assert_eq!(strip_between("abc", "<x", ""), "abc");
    assert_eq!(
        jetson_discord_bot::web_search::html_to_text("<style>p{}</style><p>A &amp; B</p>"),
        "A & B"
    );
    assert_eq!(percent_encode("a-b_c.d~e/"), "a-b_c.d~e%2F");
    assert_eq!(element_text("  Useful \n <b>summary</b> "), "Useful <b>summary</b>");
}

#[test]
fn urls_are_resolved_against_the_page() {
    let base = "https://a.com/x/y.html";
    assert_eq!(resolve_url(base, "z.html").as_deref(), Some("https://a.com/x/z.html"));
    assert_eq!(resolve_url(base, "//cdn.com/a#b").as_deref(), Some("https://cdn.com/a"));
    assert_eq!(resolve_url(base, " https://b.com/p#f ").as_deref(), Some("https://b.com/p"));
    assert_eq!(resolve_url(base, "#top"), None);
    assert_eq!(resolve_url(base, "mailto:me@a.com"), None);
    assert_eq!(resolve_url("not a url", "z.html"), None);
    assert_eq!(
        split_url("https://a.com"),
        Some(("https".to_string(), "a.com".to_string(), "/".to_string()))
    );
    assert!(same_origin("https://a.com/x", "https://a.com/y?z"));
    assert!(!same_origin("http://a.com/x", "https://a.com/x"));
    assert_eq!(strip_fragment("https://a.com/p#frag#2"), "https://a.com/p");
}

#[test]
fn attribute_values_are_read_with_their_length() {
    let quoted: Vec<char> = "  'abc' rest".chars().collect();
    let (v, n) = read_attr_value(&quoted).unwrap();
    assert_eq!(v.iter().collect::<String>(), "abc");
    assert_eq!(n, 7);
    let bare: Vec<char> = "abc>def".chars().collect();
    let (v, n) = read_attr_value(&bare).unwrap();
    assert_eq!(v.iter().collect::<String>(), "abc");
    assert_eq!(n, 3);
    assert!(read_attr_value(&"\"open".chars().collect::<Vec<_>>()).is_none());
    assert!(read_attr_value(&[]).is_none());
}

#[test]
fn links_are_distinct_and_skip_assets() {
    let links = extract_links(
        "https://a.com/",
        "<a href=/p>1</a><a href='/p'>2</a><img href=\"/i.png\"><a HREF=/q?x=1>3</a>",
    );
    assert_eq!(links, vec!["https://a.com/p".to_string(), "https://a.com/q?x=1".to_string()]);
}

fn parts(serialization: &str, scheme: &str, domain: Option<&str>, pairs: &[(&str, &str)]) -> UrlParts {
    UrlParts {
        serialization: serialization.to_string(),
        scheme: scheme.to_string(),
        domain: domain.map(str::to_string),
        query_pairs: pairs.iter().map(|(k, v)| (k.to_string(), v.to_string())).collect(),
    }
}

#[test]
fn bing_links_are_routed() {
    let direct = parts("https://e.com/", "https", Some("e.com"), &[]);
    assert!(matches!(bing_route(&direct), BingRoute::Direct(s) if s == "https://e.com/"));
    let redirect = parts("x", "https", Some("www.bing.com"), &[("p", "1"), ("u", "a1QUJD"), ("u", "x")]);
    assert!(matches!(bing_route(&redirect), BingRoute::Encoded(e) if e == "QUJD"));
    let plain = parts("x", "https", Some("bing.com"), &[("u", "QUJD")]);
    assert!(matches!(bing_route(&plain), BingRoute::Encoded(e) if e == "QUJD"));
    let missing = parts("x", "https", Some("bing.com"), &[("q", "1")]);
    assert!(matches!(bing_route(&missing), BingRoute::Refused));
    let ftp = parts("ftp://f.com/", "ftp", Some("f.com"), &[]);
    assert!(matches!(bing_route(&ftp), BingRoute::Refused));
    assert_eq!(web_destination(&ftp), None);
    assert_eq!(web_destination(&direct).as_deref(), Some("https://e.com/"));
}

#[test]
fn bing_result_urls_are_parsed_and_decoded() {
    assert_eq!(
        bing_result_url("https://www.bing.com/ck/a?u=aHR0cHM6Ly9leGFtcGxlLmNvbS9wYWdlP3E9MQ&p=1").as_deref(),
        Some("https://example.com/page?q=1")
    );
    assert_eq!(bing_result_url("https://www.bing.com/ck/a?u=a1ZnRwOi8veC5jb20v"), None);
    assert_eq!(bing_result_url("https://www.bing.com/ck/a?u=%%%"), None);
    assert_eq!(bing_result_url("ftp://x.com/"), None);
    assert_eq!(bing_result_url("not a url"), None);
    assert_eq!(bing_result_url("HTTPS://Example.com").as_deref(), Some("https://example.com/"));
}

fn block(href: Option<&str>, title: &str, snippet: Option<&str>) -> BingBlock {
    BingBlock {
        title: Some((href.map(str::to_string), title.to_string())),
        snippet: snippet.map(str::to_string),
    }
}

#[test]
fn bing_blocks_become_results() {
    let blocks = vec![
        BingBlock { title: None, snippet: Some("s".to_string()) },
        block(None, "t", None),
        block(Some("https://a.com/"), "  ", Some(" only snippet ")),
        block(Some("https://b.com/"), " ", None),
        block(Some("https://c.com/"), "Title", None),
        block(Some("https://d.com/"), "T", Some("S")),
    ];
    let all = bing_results(&blocks, 10);
    assert_eq!(all.len(), 3);
    assert_eq!((all[0].text.as_str(), all[0].url.as_str()), ("only snippet", "https://a.com/"));
    assert_eq!(all[1].text, "Title");
    assert_eq!(all[2].text, "T: S");
    assert_eq!(bing_results(&blocks, 2).len(), 2);
    assert!(parse_bing_search_results("<p>nothing</p>", 5).is_empty());
}

fn topic(text: &str, url: &str, topics: Vec<DuckDuckGoTopic>) -> DuckDuckGoTopic {
    DuckDuckGoTopic { text: text.to_string(), first_url: url.to_string(), topics }
}

#[test]
fn instant_answers_become_results() {
    let response = DuckDuckGoResponse {
        heading: "Rust".to_string(),
        abstract_text: "A language".to_string(),
        abstract_url: "https://r.example".to_string(),
        results: vec![topic("R1", "https://1.example", vec![])],
        related_topics: vec![topic(
            "",
            "",
            vec![topic("nested", "https://n.example", vec![]), topic("skipped", " ", vec![])],
        )],
    };
    let results = search_results(response, 3);
    let texts: Vec<&str> = results.iter().map(|r| r.text.as_str()).collect();
    assert_eq!(texts, vec!["Rust: A language", "R1", "nested"]);
    let short = search_results(
        DuckDuckGoResponse {
            heading: " ".to_string(),
            abstract_text: "Body".to_string(),
            abstract_url: "https://u.example".to_string(),
            results: vec![topic("R1", "https://1.example", vec![])],
            related_topics: vec![],
        },
        1,
    );
    assert_eq!(short.len(), 1);
    assert_eq!(short[0].text, "Body");
}

fn web(pairs: &[(&str, &str)]) -> WebSearch {
    let mut env = vec![("DISCORD_TOKEN".to_string(), "t".to_string())];
    env.extend(pairs.iter().map(|(k, v)| (k.to_string(), v.to_string())));
    WebSearch::new(&Config::from_env(&env, &None).unwrap())
}

#[test]
fn web_context_is_gathered_only_on_intent_or_links() {
    let w = web(&[("WEB_SEARCH_ENABLED", "1")]);
    assert!(w.plan_context("이 첨부 문서 요약해줘").is_none());
    let p = w.plan_context("오늘 뉴스 검색해줘").unwrap();
    assert!(p.search && p.urls.is_empty());
    let p = w.plan_context("봐줘 https://example.com/a").unwrap();
    assert!(!p.search);
    assert_eq!(p.urls, vec!["https://example.com/a".to_string()]);
    assert!(w.has_links("봐줘 https://example.com/a"));
    assert!(web(&[]).plan_context("오늘 뉴스 검색해줘").is_none());
    let always = web(&[("WEB_SEARCH_ENABLED", "1"), ("WEB_SEARCH_ALWAYS", "1")]);
    assert!(always.plan_context("안녕").unwrap().search);
    assert_eq!(join_sections(&vec![]), None);
    assert_eq!(
        join_sections(&vec!["a".to_string(), "b".to_string()]).as_deref(),
        Some("a\n\nb")
    );
}

#[test]
fn fetched_pages_and_their_excerpts() {
    let w = web(&[("WEB_SEARCH_ENABLED", "1"), ("WEB_CRAWL_LINKS", "1"), ("WEB_FETCH_BODY_BYTES", "60")]);
    let page = w.page_from_body(
        "https://a.com/docs/",
        b"<p>Hi</p><a href=\"/d1\">x</a><a href=\"https://b.com/\">y</a><a href=\"/d2\">z</a>",
    );
    assert_eq!(page.text, "Hi x y");
    assert_eq!(page.links, vec!["https://a.com/d1".to_string(), "https://b.com/".to_string()]);
    assert_eq!(
        w.urls_to_fetch(&vec!["1".to_string(), "2".to_string(), "3".to_string(), "4".to_string()]).len(),
        3
    );

    let mut ctx = LinkContext::new();
    ctx.add_page("https://a.com/docs/", &FetchedPage::empty("https://a.com/none"), 10);
    assert!(ctx.context.is_empty());
    let full = FetchedPage {
        url: "https://a.com/docs/".to_string(),
        text: "abcdef".to_string(),
        links: vec![
            "https://a.com/docs/".to_string(),
            "https://b.com/x".to_string(),
            "https://a.com/d1".to_string(),
            "https://a.com/d1".to_string(),
            "https://a.com/d2".to_string(),
        ],
    };
    ctx.add_page("https://a.com/docs", &full, 3);
    let details = ctx.detail_urls(&full, 1);
    assert_eq!(details, vec!["https://a.com/d1".to_string()]);
    ctx.add_detail(
        &FetchedPage { url: "https://a.com/d1".to_string(), text: "detail".to_string(), links: vec![] },
        2,
    );
    assert_eq!(
        ctx.finish(),
        "Linked page excerpts:\n- URL: https://a.com/docs\n  Excerpt: abc...\n- Detail URL: https://a.com/d1\n  Excerpt: de..."
    );
}

#[test]
fn query_encoding_uses_only_safe_characters() {
    let encoded = percent_encode("a b/?&=#코미~\n");
    assert_eq!(encoded, "a+b%2F%3F%26%3D%23%EC%BD%94%EB%AF%B8~%0A");
    assert!(encoded
        .chars()
        .all(|c| c.is_ascii_alphanumeric() || "-_.~+%".contains(c)));
}

#[test]
fn extracted_urls_are_web_links() {
    let urls = extract_urls("(https://a.com/x), ftp://b.com <http://c.com> www.d.com");
    assert_eq!(urls, vec!["https://a.com/x".to_string(), "http://c.com".to_string()]);
}

use jetson_discord_bot::web_search::{after_bing, after_instant_answer, web_context, SearchStep};

#[test]
fn searches_fall_back_and_failures_are_dropped() {
    let found = Ok(vec![result("t", "https://u.example")]);
    assert!(matches!(after_bing("q", &found), SearchStep::Section(s) if s.starts_with("Web reference results for query: q\n1. t")));
    assert!(matches!(after_bing("q", &Ok(vec![])), SearchStep::TryInstantAnswer));
    assert!(matches!(after_bing("q", &Err("down".to_string())), SearchStep::TryInstantAnswer));
    assert_eq!(after_instant_answer("q", &Ok(vec![])), Ok(None));
    assert_eq!(after_instant_answer("q", &Err("bad".to_string())), Err("bad".to_string()));
    assert_eq!(
        web_context(Some(Err("bad".to_string())), Some(Ok("links".to_string()))).as_deref(),
        Some("links")
    );
    assert_eq!(
        web_context(Some(Ok(Some("search".to_string()))), Some(Err("x".to_string()))).as_deref(),
        Some("search")
    );
    assert_eq!(
        web_context(Some(Ok(Some("s".to_string()))), Some(Ok("l".to_string()))).as_deref(),
        Some("s\n\nl")
    );
    assert_eq!(web_context(Some(Ok(None)), Some(Ok(String::new()))), None);
    assert_eq!(web_context(None, None), None);
}
