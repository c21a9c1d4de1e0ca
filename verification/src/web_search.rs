//! Web context for prompts: search intent, links in prompts, and the text and
//! links of fetched pages.

use vstd::prelude::*;
use vstd::utf8::{decode_utf8, valid_utf8};
use vstd::string::StringSliceAdditionalSpecFns;
use base64::Engine as _;
use scraper::Selector;

use crate::text::{
    append_str, char_in, chars_of, contains, contains_any, contains_any_exec, contains_exec,
    ends_with, ends_with_exec, eq_chars, extend, find_first, find_last, first_index,
    is_ws, is_ws_char, join, join_exec, last_index, lower, lower_chars, matches_at,
    matches_at_exec, replace_all, replace_all_exec, slice_vec, split, split_exec, squash_ws,
    squash_ws_exec, starts_with, starts_with_exec, strip_set, strip_set_exec, string_of,
    take_chars, take_chars_exec, trim, trim_seq, trim_start, words, words_exec, decimal,
    decimal_exec, lacks, lemma_first_index_extend, lemma_first_index_props, lemma_skip_take_add, lemma_lower_idempotent,
    lemma_split_first_piece_extend, lemma_split_first_piece_whole, lemma_split_lacks,
    lemma_split_from_nonempty,
};

verus! {

/// Words that ask for a web search.
pub open spec fn web_markers() -> Seq<Seq<char>> {
    seq![
        "search"@,
        "web"@,
        "internet"@,
        "latest"@,
        "recent"@,
        "today"@,
        "news"@,
        "price"@,
        "weather"@,
        "source"@,
        "reference"@,
        "link"@,
        "url"@,
        "site"@,
        "page"@,
        "verify"@,
        "look up"@,
        "lookup"@,
        "검색"@,
        "인터넷"@,
        "웹"@,
        "찾아봐"@,
        "알아봐"@,
        "검증"@,
        "최신"@,
        "최근"@,
        "오늘"@,
        "뉴스"@,
        "가격"@,
        "날씨"@,
        "출처"@,
        "참조"@,
        "자료"@,
        "링크"@,
        "사이트"@,
        "페이지"@,
    ]
}

/// `web_markers` as vectors of characters.
pub fn web_markers_exec() -> (r: Vec<Vec<char>>)
    ensures
        r.deep_view() == web_markers(),
{
    let mut r: Vec<Vec<char>> = Vec::new();
    let w = chars_of("search");
    assert(w.deep_view() =~= w@);
    r.push(w);
    let w = chars_of("web");
    assert(w.deep_view() =~= w@);
    r.push(w);
    let w = chars_of("internet");
    assert(w.deep_view() =~= w@);
    r.push(w);
    let w = chars_of("latest");
    assert(w.deep_view() =~= w@);
    r.push(w);
    let w = chars_of("recent");
    assert(w.deep_view() =~= w@);
    r.push(w);
    let w = chars_of("today");
    assert(w.deep_view() =~= w@);
    r.push(w);
    let w = chars_of("news");
    assert(w.deep_view() =~= w@);
    r.push(w);
    let w = chars_of("price");
    assert(w.deep_view() =~= w@);
    r.push(w);
    let w = chars_of("weather");
    assert(w.deep_view() =~= w@);
    r.push(w);
    let w = chars_of("source");
    assert(w.deep_view() =~= w@);
    r.push(w);
    let w = chars_of("reference");
    assert(w.deep_view() =~= w@);
    r.push(w);
    let w = chars_of("link");
    assert(w.deep_view() =~= w@);
    r.push(w);
    let w = chars_of("url");
    assert(w.deep_view() =~= w@);
    r.push(w);
    let w = chars_of("site");
    assert(w.deep_view() =~= w@);
    r.push(w);
    let w = chars_of("page");
    assert(w.deep_view() =~= w@);
    r.push(w);
    let w = chars_of("verify");
    assert(w.deep_view() =~= w@);
    r.push(w);
    let w = chars_of("look up");
    assert(w.deep_view() =~= w@);
    r.push(w);
    let w = chars_of("lookup");
    assert(w.deep_view() =~= w@);
    r.push(w);
    let w = chars_of("검색");
    assert(w.deep_view() =~= w@);
    r.push(w);
    let w = chars_of("인터넷");
    assert(w.deep_view() =~= w@);
    r.push(w);
    let w = chars_of("웹");
    assert(w.deep_view() =~= w@);
    r.push(w);
    let w = chars_of("찾아봐");
    assert(w.deep_view() =~= w@);
    r.push(w);
    let w = chars_of("알아봐");
    assert(w.deep_view() =~= w@);
    r.push(w);
    let w = chars_of("검증");
    assert(w.deep_view() =~= w@);
    r.push(w);
    let w = chars_of("최신");
    assert(w.deep_view() =~= w@);
    r.push(w);
    let w = chars_of("최근");
    assert(w.deep_view() =~= w@);
    r.push(w);
    let w = chars_of("오늘");
    assert(w.deep_view() =~= w@);
    r.push(w);
    let w = chars_of("뉴스");
    assert(w.deep_view() =~= w@);
    r.push(w);
    let w = chars_of("가격");
    assert(w.deep_view() =~= w@);
    r.push(w);
    let w = chars_of("날씨");
    assert(w.deep_view() =~= w@);
    r.push(w);
    let w = chars_of("출처");
    assert(w.deep_view() =~= w@);
    r.push(w);
    let w = chars_of("참조");
    assert(w.deep_view() =~= w@);
    r.push(w);
    let w = chars_of("자료");
    assert(w.deep_view() =~= w@);
    r.push(w);
    let w = chars_of("링크");
    assert(w.deep_view() =~= w@);
    r.push(w);
    let w = chars_of("사이트");
    assert(w.deep_view() =~= w@);
    r.push(w);
    let w = chars_of("페이지");
    assert(w.deep_view() =~= w@);
    r.push(w);
    assert(r.deep_view() =~= web_markers());
    r
}

/// Whether a prompt asks for a web search.
pub open spec fn spec_prompt_requests_web(prompt: Seq<char>) -> bool {
    contains_any(lower(prompt), web_markers())
}

/// Whether a prompt asks for a web search.
pub fn prompt_requests_web(prompt: &str) -> (r: bool)
    ensures
        r == spec_prompt_requests_web(prompt@),
{
    contains_any_exec(&lower_chars(&chars_of(prompt)), &web_markers_exec())
}

/// Whether a prompt asks for a web search does not depend on ASCII case: a
/// prompt and its lower-case form get the same answer, and a prompt asks for a
/// search exactly when its lower-case form holds one of the markers.
pub proof fn lemma_web_request_ignores_case(prompt: Seq<char>)
    ensures
        spec_prompt_requests_web(prompt) == spec_prompt_requests_web(lower(prompt)),
        spec_prompt_requests_web(prompt) <==> exists|k: int|
            0 <= k < web_markers().len() && contains(lower(prompt), #[trigger] web_markers()[k]),
{
    lemma_lower_idempotent(prompt);
}

/// The punctuation stripped from both ends of a word before it is read as a
/// link.
pub open spec fn url_punct() -> Seq<char> {
    seq!['<', '>', '(', ')', '[', ']', '"', '\'', ',', '.']
}

/// A web link.
pub open spec fn is_http_url(u: Seq<char>) -> bool {
    starts_with(u, "http://"@) || starts_with(u, "https://"@)
}

/// The links among the words, stripped of surrounding punctuation.
pub open spec fn urls_in(ws: Seq<Seq<char>>) -> Seq<Seq<char>>
    decreases ws.len(),
{
    if ws.len() == 0 {
        seq![]
    } else {
        let rest = urls_in(ws.drop_last());
        let u = strip_set(ws.last(), url_punct());
        if is_http_url(u) {
            rest.push(u)
        } else {
            rest
        }
    }
}

/// The web links that a prompt contains, in order.
pub open spec fn spec_extract_urls(prompt: Seq<char>) -> Seq<Seq<char>> {
    urls_in(words(prompt))
}

/// Every link found in a prompt is a web link.
pub proof fn lemma_extracted_urls_are_web_links(ws: Seq<Seq<char>>)
    ensures
        forall|k: int| 0 <= k < urls_in(ws).len() ==> is_http_url(#[trigger] urls_in(ws)[k]),
    decreases ws.len(),
{
    if ws.len() > 0 {
        lemma_extracted_urls_are_web_links(ws.drop_last());
        let rest = urls_in(ws.drop_last());
        let u = strip_set(ws.last(), url_punct());
        if is_http_url(u) {
            assert forall|k: int| 0 <= k < rest.push(u).len() implies is_http_url(#[trigger] rest.push(u)[k]) by {
                if k < rest.len() {
                    assert(rest.push(u)[k] == rest[k]);
                }
            }
        }
    }
}

/// The web links that a prompt contains, in order.
pub fn extract_urls(prompt: &str) -> (r: Vec<String>)
    ensures
        r.deep_view() == spec_extract_urls(prompt@),
{
    let ws = words_exec(&chars_of(prompt));
    let ghost dv = ws.deep_view();
    let punct = vec!['<', '>', '(', ')', '[', ']', '"', '\'', ',', '.'];
    assert(punct@ =~= url_punct());
    let http = chars_of("http://");
    let https = chars_of("https://");
    let mut out: Vec<String> = Vec::new();
    let mut i: usize = 0;
    while i < ws.len()
        invariant
            dv == ws.deep_view(),
            dv.len() == ws@.len(),
            punct@ == url_punct(),
            http@ == "http://"@,
            https@ == "https://"@,
            i <= ws@.len(),
            out.deep_view() == urls_in(dv.take(i as int)),
        decreases ws@.len() - i,
    {
        assert(dv.take(i + 1).drop_last() =~= dv.take(i as int));
        assert(dv.take(i + 1).last() == ws@[i as int]@);
        let u = strip_set_exec(&ws[i], &punct);
        if starts_with_exec(&u, &http) || starts_with_exec(&u, &https) {
            let ghost before = out.deep_view();
            out.push(string_of(&u));
            assert(out.deep_view() =~= before.push(u@));
        }
        i = i + 1;
    }
    assert(dv.take(ws@.len() as int) =~= dv);
    out
}

/// `value` cut to `max` characters, with `...` after a cut.
pub open spec fn spec_trim_chars(value: Seq<char>, max: nat) -> Seq<char> {
    if value.len() <= max {
        value
    } else {
        value.take(max as int) + "..."@
    }
}

/// Cuts `value` to `max_chars` characters, marking a cut with `...`.
pub fn trim_chars(value: &str, max_chars: usize) -> (r: String)
    ensures
        r@ == spec_trim_chars(value@, max_chars as nat),
{
    let v = chars_of(value);
    if v.len() <= max_chars {
        return value.to_owned();
    }
    let mut out = slice_vec(&v, 0, max_chars);
    append_str(&mut out, "...");
    string_of(&out)
}

/// A search result: a text and the address it came from.
#[derive(Clone, Debug)]
pub struct SearchResult {
    pub text: String,
    pub url: String,
}

/// The results by their views.
pub open spec fn results_view(rs: Seq<SearchResult>) -> Seq<(Seq<char>, Seq<char>)> {
    rs.map_values(|r: SearchResult| (r.text@, r.url@))
}

/// The numbered entries of the results, from number `n + 1` on.
pub open spec fn result_entries(rs: Seq<(Seq<char>, Seq<char>)>) -> Seq<char>
    decreases rs.len(),
{
    if rs.len() == 0 {
        seq![]
    } else {
        let last = rs.last();
        result_entries(rs.drop_last()) + decimal(rs.len()) + ". "@ + spec_trim_chars(last.0, 400)
            + "\n   URL: "@ + last.1 + "\n"@
    }
}

/// The search results as a numbered list under the query, with a note on how
/// to use them.
pub open spec fn spec_format_web_context(query: Seq<char>, rs: Seq<(Seq<char>, Seq<char>)>) -> Seq<char> {
    "Web reference results for query: "@ + query + "\n"@ + result_entries(rs)
        + "Use these references only if relevant. Cite URLs when using web facts."@
}

/// Lists the search results under the query.
pub fn format_web_context(query: &str, results: &[SearchResult]) -> (r: String)
    ensures
        r@ == spec_format_web_context(query@, results_view(results@)),
{
    let ghost rv = results_view(results@);
    let mut entries: Vec<char> = Vec::new();
    let mut i: usize = 0;
    while i < results.len()
        invariant
            rv == results_view(results@),
            rv.len() == results@.len(),
            i <= results@.len(),
            entries@ == result_entries(rv.take(i as int)),
        decreases results@.len() - i,
    {
        assert(rv.take(i + 1).drop_last() =~= rv.take(i as int));
        assert(rv.take(i + 1).last() == (results@[i as int].text@, results@[i as int].url@));
        let r = &results[i];
        extend(&mut entries, &decimal_exec((i + 1) as u64));
        append_str(&mut entries, ". ");
        append_str(&mut entries, trim_chars(r.text.as_str(), 400).as_str());
        append_str(&mut entries, "\n   URL: ");
        append_str(&mut entries, r.url.as_str());
        append_str(&mut entries, "\n");
        i = i + 1;
    }
    assert(rv.take(results@.len() as int) =~= rv);
    let mut out = chars_of("Web reference results for query: ");
    append_str(&mut out, query);
    append_str(&mut out, "\n");
    extend(&mut out, &entries);
    append_str(&mut out, "Use these references only if relevant. Cite URLs when using web facts.");
    string_of(&out)
}

/// A byte that is written as itself in a query.
pub open spec fn unreserved(b: u8) -> bool {
    (65 <= b <= 90) || (97 <= b <= 122) || (48 <= b <= 57) || b == 45 || b == 95 || b == 46 || b
        == 126
}

/// The upper-case hexadecimal digit of `d < 16`.
pub open spec fn hex_digit(d: nat) -> char {
    if d < 10 {
        ((d + 48) as u8) as char
    } else {
        ((d + 55) as u8) as char
    }
}

/// The query form of one byte.
pub open spec fn encode_byte(b: u8) -> Seq<char> {
    if unreserved(b) {
        seq![b as char]
    } else if b == 32 {
        seq!['+']
    } else {
        seq!['%', hex_digit((b / 16) as nat), hex_digit((b % 16) as nat)]
    }
}

/// The query form of bytes.
pub open spec fn encode_bytes(bs: Seq<u8>) -> Seq<char>
    decreases bs.len(),
{
    if bs.len() == 0 {
        seq![]
    } else {
        encode_bytes(bs.drop_last()) + encode_byte(bs.last())
    }
}

/// Computes `hex_digit`.
fn hex_digit_exec(d: u8) -> (c: char)
    requires
        d < 16,
    ensures
        c == hex_digit(d as nat),
{
    if d < 10 {
        (d + 48) as char
    } else {
        (d + 55) as char
    }
}

/// A character that may stand in a URL query as it is: an ASCII letter or
/// digit, `-`, `_`, `.`, `~`, `+` or `%`.
pub open spec fn query_safe(c: char) -> bool {
    ('A' <= c && c <= 'Z') || ('a' <= c && c <= 'z') || ('0' <= c && c <= '9') || c == '-' || c
        == '_' || c == '.' || c == '~' || c == '+' || c == '%'
}

/// A query-encoded text holds only characters that may stand in a URL query.
pub proof fn lemma_percent_encoding_is_query_safe(bs: Seq<u8>)
    ensures
        forall|i: int| 0 <= i < encode_bytes(bs).len() ==> query_safe(#[trigger] encode_bytes(bs)[i]),
    decreases bs.len(),
{
    if bs.len() > 0 {
        lemma_percent_encoding_is_query_safe(bs.drop_last());
        let a = encode_bytes(bs.drop_last());
        let b = bs.last();
        let e = encode_byte(b);
        assert forall|i: int| 0 <= i < e.len() implies query_safe(#[trigger] e[i]) by {
            if unreserved(b) {
                assert(e[i] == b as char);
            } else if b == 32 {
            } else {
                let hi = (b / 16) as nat;
                let lo = (b % 16) as nat;
                assert(hi < 16 && lo < 16);
                assert(e == seq!['%', hex_digit(hi), hex_digit(lo)]);
                assert(query_safe(hex_digit(hi)));
                assert(query_safe(hex_digit(lo)));
            }
        }
        assert forall|i: int| 0 <= i < (a + e).len() implies query_safe(#[trigger] (a + e)[i]) by {
            if i < a.len() {
                assert((a + e)[i] == a[i]);
            } else {
                assert((a + e)[i] == e[i - a.len()]);
            }
        }
    }
}

/// The text as it stands in a URL query: the bytes of its UTF-8 encoding, each
/// unreserved byte as itself, a space as `+`, any other byte as `%XX`.
pub fn percent_encode(value: &str) -> (r: String)
    ensures
        r@ == encode_bytes(value.spec_bytes()),
{
    let bytes = value.as_bytes();
    let mut out: Vec<char> = Vec::new();
    let mut i: usize = 0;
    while i < bytes.len()
        invariant
            i <= bytes@.len(),
            out@ == encode_bytes(bytes@.take(i as int)),
        decreases bytes@.len() - i,
    {
        let b = bytes[i];
        assert(bytes@.take(i + 1).drop_last() =~= bytes@.take(i as int));
        if (65 <= b && b <= 90) || (97 <= b && b <= 122) || (48 <= b && b <= 57) || b == 45 || b
            == 95 || b == 46 || b == 126 {
            out.push(b as char);
        } else if b == 32 {
            out.push('+');
        } else {
            out.push('%');
            out.push(hex_digit_exec(b / 16));
            out.push(hex_digit_exec(b % 16));
        }
        assert(out@ =~= encode_bytes(bytes@.take(i + 1)));
        i = i + 1;
    }
    assert(bytes@.take(bytes@.len() as int) =~= bytes@);
    string_of(&out)
}

/// The text with the common HTML entities decoded, one after another.
pub open spec fn spec_decode_basic_entities(value: Seq<char>) -> Seq<char> {
    let a = replace_all(value, "&nbsp;"@, " "@);
    let b = replace_all(a, "&amp;"@, "&"@);
    let c = replace_all(b, "&lt;"@, "<"@);
    let d = replace_all(c, "&gt;"@, ">"@);
    let e = replace_all(d, "&quot;"@, "\""@);
    replace_all(e, "&#39;"@, "'"@)
}

/// Decodes the common HTML entities.
pub fn decode_basic_entities(value: &str) -> (r: String)
    ensures
        r@ == spec_decode_basic_entities(value@),
{
    let f0 = chars_of("&nbsp;");
    let f1 = chars_of("&amp;");
    let f2 = chars_of("&lt;");
    let f3 = chars_of("&gt;");
    let f4 = chars_of("&quot;");
    let f5 = chars_of("&#39;");
    proof {
        reveal_strlit("&nbsp;");
        reveal_strlit("&amp;");
        reveal_strlit("&lt;");
        reveal_strlit("&gt;");
        reveal_strlit("&quot;");
        reveal_strlit("&#39;");
    }
    let a = replace_all_exec(&chars_of(value), &f0, &chars_of(" "));
    let b = replace_all_exec(&a, &f1, &chars_of("&"));
    let c = replace_all_exec(&b, &f2, &chars_of("<"));
    let d = replace_all_exec(&c, &f3, &chars_of(">"));
    let e = replace_all_exec(&d, &f4, &chars_of("\""));
    string_of(&replace_all_exec(&e, &f5, &chars_of("'")))
}

/// `out` followed by `rest` with every span from `start` (found ignoring ASCII
/// case) through the next `end` removed; an unterminated span drops the rest.
pub open spec fn strip_spans(out: Seq<char>, rest: Seq<char>, start: Seq<char>, end: Seq<char>) -> Seq<char>
    decreases rest.len(),
{
    if !contains(lower(rest), start) {
        out + rest
    } else {
        let s = first_index(lower(rest), start);
        let after = rest.skip(s);
        if !contains(lower(after), end) {
            out + rest.take(s)
        } else {
            let e = first_index(lower(after), end);
            if 0 <= s <= rest.len() && 0 <= e && e + end.len() <= after.len() && s + e + end.len()
                > 0 {
                strip_spans(out + rest.take(s), after.skip(e + end.len()), start, end)
            } else {
                out + rest
            }
        }
    }
}

/// Removes each span from `start_marker` (in lower case, found ignoring ASCII
/// case) through the next `end_marker`. An empty end marker never ends a span,
/// so it is only allowed where the start marker does not occur.
#[verifier::rlimit(40)]
pub fn strip_between(value: &str, start_marker: &str, end_marker: &str) -> (r: String)
    requires
        end_marker@.len() > 0 || !contains(lower(value@), start_marker@),
    ensures
        r@ == strip_spans(seq![], value@, start_marker@, end_marker@),
{
    let sm = chars_of(start_marker);
    let em = chars_of(end_marker);
    let mut out: Vec<char> = Vec::new();
    let mut rest = chars_of(value);
    loop
        invariant
            sm@ == start_marker@,
            em@ == end_marker@,
            em@.len() > 0 || !contains(lower(rest@), sm@),
            strip_spans(seq![], value@, sm@, em@) == strip_spans(out@, rest@, sm@, em@),
        decreases rest@.len(),
    {
        let lr = lower_chars(&rest);
        let s = match find_first(&lr, &sm) {
            Some(s) => s,
            None => {
                extend(&mut out, &rest);
                return string_of(&out);
            },
        };
        let n = rest.len();
        let after = slice_vec(&rest, s, n);
        assert(after@ =~= rest@.skip(s as int));
        let la = lower_chars(&after);
        let head = slice_vec(&rest, 0, s);
        assert(head@ =~= rest@.take(s as int));
        match find_first(&la, &em) {
            None => {
                extend(&mut out, &head);
                return string_of(&out);
            },
            Some(e) => {
                let an = after.len();
                assert(la@.len() == after@.len());
                let next = slice_vec(&after, e + em.len(), an);
                assert(next@ =~= after@.skip(e + em@.len()));
                let ghost old_out = out@;
                let ghost old_rest = rest@;
                assert(strip_spans(old_out, old_rest, sm@, em@) == strip_spans(
                    old_out + head@,
                    next@,
                    sm@,
                    em@,
                ));
                extend(&mut out, &head);
                rest = next;
            },
        }
    }
}

/// The text outside tags: each tag becomes a space.
pub open spec fn untagged(out: Seq<char>, in_tag: bool, rest: Seq<char>) -> Seq<char>
    decreases rest.len(),
{
    if rest.len() == 0 {
        out
    } else {
        let c = rest[0];
        if c == '<' {
            untagged(out.push(' '), true, rest.skip(1))
        } else if c == '>' {
            untagged(out, false, rest.skip(1))
        } else if !in_tag {
            untagged(out.push(c), in_tag, rest.skip(1))
        } else {
            untagged(out, in_tag, rest.skip(1))
        }
    }
}

/// The readable text of an HTML page: scripts and styles removed, tags
/// replaced by spaces, basic entities decoded, whitespace collapsed.
pub open spec fn spec_html_to_text(html: Seq<char>) -> Seq<char> {
    let a = strip_spans(seq![], html, "<script"@, "</script>"@);
    let b = strip_spans(seq![], a, "<style"@, "</style>"@);
    squash_ws(spec_decode_basic_entities(untagged(seq![], false, b)))
}

/// The readable text of an HTML page.
pub fn html_to_text(html: &str) -> (r: String)
    ensures
        r@ == spec_html_to_text(html@),
{
    proof {
        reveal_strlit("<script");
        reveal_strlit("<style");
        reveal_strlit("</script>");
        reveal_strlit("</style>");
    }
    let a = strip_between(html, "<script", "</script>");
    let b = strip_between(a.as_str(), "<style", "</style>");
    let cs = chars_of(b.as_str());
    let mut text: Vec<char> = Vec::new();
    let mut in_tag = false;
    let mut i: usize = 0;
    assert(cs@.skip(0) =~= cs@);
    while i < cs.len()
        invariant
            i <= cs@.len(),
            untagged(seq![], false, cs@) == untagged(text@, in_tag, cs@.skip(i as int)),
        decreases cs@.len() - i,
    {
        let c = cs[i];
        assert(cs@.skip(i as int)[0] == c);
        assert(cs@.skip(i as int).skip(1) =~= cs@.skip(i + 1));
        if c == '<' {
            in_tag = true;
            text.push(' ');
        } else if c == '>' {
            in_tag = false;
        } else if !in_tag {
            text.push(c);
        }
        i = i + 1;
    }
    assert(cs@.skip(i as int) =~= Seq::<char>::empty());
    let decoded = decode_basic_entities(string_of(&text).as_str());
    string_of(&squash_ws_exec(&chars_of(decoded.as_str())))
}


/// A URL's scheme, host and path (`/` when it has none), split at the first
/// `://` and the first `/` after it.
pub open spec fn spec_split_url(u: Seq<char>) -> Option<(Seq<char>, Seq<char>, Seq<char>)> {
    if !contains(u, "://"@) {
        None
    } else {
        let i = first_index(u, "://"@);
        let rest = u.skip(i + 3);
        let slash = if contains(rest, "/"@) {
            first_index(rest, "/"@)
        } else {
            rest.len() as int
        };
        Some(
            (
                u.take(i),
                rest.take(slash),
                if slash < rest.len() {
                    rest.skip(slash)
                } else {
                    "/"@
                },
            ),
        )
    }
}

/// A URL's scheme, host and path.
pub fn split_url(url: &str) -> (r: Option<(String, String, String)>)
    ensures
        match r {
            Some((a, b, c)) => spec_split_url(url@) == Some((a@, b@, c@)),
            None => spec_split_url(url@) is None,
        },
{
    let u = chars_of(url);
    let sep = chars_of("://");
    proof {
        reveal_strlit("://");
        reveal(spec_split_url);
    }
    let i = match find_first(&u, &sep) {
        Some(i) => i,
        None => return None,
    };
    let n = u.len();
    let rest = slice_vec(&u, i + 3, n);
    assert(rest@ =~= u@.skip(i + 3));
    let scheme = slice_vec(&u, 0, i);
    assert(scheme@ =~= u@.take(i as int));
    let slash_pat = chars_of("/");
    let slash = match find_first(&rest, &slash_pat) {
        Some(k) => k,
        None => rest.len(),
    };
    let host = slice_vec(&rest, 0, slash);
    assert(host@ =~= rest@.take(slash as int));
    let path = if slash < rest.len() {
        let rn = rest.len();
        let p = slice_vec(&rest, slash, rn);
        assert(p@ =~= rest@.skip(slash as int));
        string_of(&p)
    } else {
        "/".to_owned()
    };
    Some((string_of(&scheme), string_of(&host), path))
}

/// A URL without its fragment.
pub open spec fn spec_strip_fragment(u: Seq<char>) -> Seq<char> {
    split(u, '#')[0]
}

/// A URL without its fragment.
pub fn strip_fragment(url: &str) -> (r: String)
    ensures
        r@ == spec_strip_fragment(url@),
{
    let pieces = split_exec(&chars_of(url), '#');
    assert(pieces.deep_view()[0] == pieces@[0]@);
    string_of(&pieces[0])
}

/// Two URLs with the same scheme and host.
#[verifier::opaque]
pub open spec fn spec_same_origin(left: Seq<char>, right: Seq<char>) -> bool {
    match (spec_split_url(left), spec_split_url(right)) {
        (Some((ls, lh, _)), Some((rs, rh, _))) => ls == rs && lh == rh,
        _ => false,
    }
}

/// Whether two URLs have the same scheme and host.
pub fn same_origin(left: &str, right: &str) -> (r: bool)
    ensures
        r == spec_same_origin(left@, right@),
{
    reveal(spec_same_origin);
    match (split_url(left), split_url(right)) {
        (Some((ls, lh, _)), Some((rs, rh, _))) => eq_chars(&chars_of(ls.as_str()), &chars_of(rs.as_str()))
            && eq_chars(&chars_of(lh.as_str()), &chars_of(rh.as_str())),
        _ => false,
    }
}

/// The file endings of links that are not followed.
pub open spec fn blocked_extensions() -> Seq<Seq<char>> {
    seq![
        ".jpg"@,
        ".jpeg"@,
        ".png"@,
        ".gif"@,
        ".webp"@,
        ".svg"@,
        ".css"@,
        ".js"@,
        ".zip"@,
        ".tar"@,
        ".gz"@,
        ".mp4"@,
        ".mp3"@,
        ".wav"@,
        ".avi"@,
        ".mov"@,
        ".pdf"@,
    ]
}

/// `blocked_extensions` as vectors of characters.
pub fn blocked_extensions_exec() -> (r: Vec<Vec<char>>)
    ensures
        r.deep_view() == blocked_extensions(),
{
    let mut r: Vec<Vec<char>> = Vec::new();
    let w = chars_of(".jpg");
    assert(w.deep_view() =~= w@);
    r.push(w);
    let w = chars_of(".jpeg");
    assert(w.deep_view() =~= w@);
    r.push(w);
    let w = chars_of(".png");
    assert(w.deep_view() =~= w@);
    r.push(w);
    let w = chars_of(".gif");
    assert(w.deep_view() =~= w@);
    r.push(w);
    let w = chars_of(".webp");
    assert(w.deep_view() =~= w@);
    r.push(w);
    let w = chars_of(".svg");
    assert(w.deep_view() =~= w@);
    r.push(w);
    let w = chars_of(".css");
    assert(w.deep_view() =~= w@);
    r.push(w);
    let w = chars_of(".js");
    assert(w.deep_view() =~= w@);
    r.push(w);
    let w = chars_of(".zip");
    assert(w.deep_view() =~= w@);
    r.push(w);
    let w = chars_of(".tar");
    assert(w.deep_view() =~= w@);
    r.push(w);
    let w = chars_of(".gz");
    assert(w.deep_view() =~= w@);
    r.push(w);
    let w = chars_of(".mp4");
    assert(w.deep_view() =~= w@);
    r.push(w);
    let w = chars_of(".mp3");
    assert(w.deep_view() =~= w@);
    r.push(w);
    let w = chars_of(".wav");
    assert(w.deep_view() =~= w@);
    r.push(w);
    let w = chars_of(".avi");
    assert(w.deep_view() =~= w@);
    r.push(w);
    let w = chars_of(".mov");
    assert(w.deep_view() =~= w@);
    r.push(w);
    let w = chars_of(".pdf");
    assert(w.deep_view() =~= w@);
    r.push(w);
    assert(r.deep_view() =~= blocked_extensions());
    r
}

/// A link that probably leads to a page: its path, before any query and in
/// ASCII lower case, ends in none of the blocked file endings.
pub open spec fn spec_is_probably_html_link(u: Seq<char>) -> bool {
    let path = match spec_split_url(u) {
        Some((_, _, p)) => p,
        None => u,
    };
    let p = lower(split(path, '?')[0]);
    forall|i: int| 0 <= i < blocked_extensions().len() ==> !ends_with(p, #[trigger] blocked_extensions()[i])
}

/// The parts of a link with a `/` after its first `://`.
#[verifier::spinoff_prover]
proof fn lemma_split_url_parts(u: Seq<char>)
    requires
        contains(u, "://"@),
        contains(u.skip(first_index(u, "://"@) + 3), "/"@),
    ensures
        spec_split_url(u) == Some(
            (
                u.take(first_index(u, "://"@)),
                u.skip(first_index(u, "://"@) + 3).take(first_index(u.skip(first_index(u, "://"@) + 3), "/"@)),
                u.skip(first_index(u, "://"@) + 3).skip(first_index(u.skip(first_index(u, "://"@) + 3), "/"@)),
            ),
        ),
        first_index(u.skip(first_index(u, "://"@) + 3), "/"@) < u.skip(first_index(u, "://"@) + 3).len(),
        first_index(u, "://"@) + 3 <= u.len(),
{
    reveal(spec_split_url);
    reveal_strlit("://");
    reveal_strlit("/");
    lemma_first_index_props(u, "://"@);
    lemma_first_index_props(u.skip(first_index(u, "://"@) + 3), "/"@);
}

/// A link that is its scheme, `://`, host and path put together has a `/`
/// after its `://`.
#[verifier::spinoff_prover]
proof fn lemma_split_url_has_slash(u: Seq<char>, scheme: Seq<char>, host: Seq<char>, path: Seq<char>)
    requires
        spec_split_url(u) == Some((scheme, host, path)),
        u == scheme + "://"@ + host + path,
    ensures
        contains(u, "://"@),
        contains(u.skip(first_index(u, "://"@) + 3), "/"@),
{
    let sep = "://"@;
    assert(sep.len() == 3) by {
        reveal_strlit("://");
    }
    assert("/"@.len() == 1) by {
        reveal_strlit("/");
    }
    reveal(spec_split_url);
    lemma_first_index_extend(u, seq![], sep);
    let i = first_index(u, sep);
    let rest = u.skip(i + 3);
    if !contains(rest, "/"@) {
        assert(spec_split_url(u) == Some((u.take(i), rest, "/"@)));
        assert(scheme.len() == i);
        assert(host.len() == rest.len());
        assert(path.len() == 1);
        assert(u.len() == scheme.len() + 3 + host.len() + path.len());
        assert(false);
    }
}

/// Text added to a link with a path of its own goes to the end of the path.
#[verifier::spinoff_prover]
#[verifier::rlimit(40)]
proof fn lemma_split_url_extend(
    u: Seq<char>,
    t: Seq<char>,
    scheme: Seq<char>,
    host: Seq<char>,
    path: Seq<char>,
)
    requires
        spec_split_url(u) == Some((scheme, host, path)),
        contains(u, "://"@),
        contains(u.skip(first_index(u, "://"@) + 3), "/"@),
    ensures
        spec_split_url(u + t) == Some((scheme, host, path + t)),
{
    let sep = "://"@;
    assert(sep.len() == 3) by {
        reveal_strlit("://");
    }
    let u2 = u + t;
    lemma_first_index_extend(u, t, sep);
    let i = first_index(u, sep);
    assert(first_index(u2, sep) == i && contains(u2, sep) && i + 3 <= u.len());
    let rest = u.skip(i + 3);
    let rest2 = u2.skip(i + 3);
    lemma_skip_take_add(u, t, i + 3);
    assert(rest2 == rest + t);
    lemma_first_index_extend(rest, t, "/"@);
    let slash = first_index(rest, "/"@);
    assert(first_index(rest2, "/"@) == slash && contains(rest2, "/"@));
    lemma_split_url_parts(u);
    lemma_split_url_parts(u2);
    lemma_skip_take_add(rest, t, slash);
    lemma_skip_take_add(u, t, i);
}

/// A query string does not change whether a link leads to a page: for a link
/// `u` with a path of its own, `u` and `u?q` get the same answer, whatever `q`.
#[verifier::rlimit(80)]
#[verifier::spinoff_prover]
pub proof fn lemma_query_keeps_html_verdict(
    u: Seq<char>,
    q: Seq<char>,
    scheme: Seq<char>,
    host: Seq<char>,
    path: Seq<char>,
)
    requires
        spec_split_url(u) == Some((scheme, host, path)),
        u == scheme + "://"@ + host + path,
    ensures
        spec_is_probably_html_link(u + seq!['?'] + q) == spec_is_probably_html_link(u),
{
    let t = seq!['?'] + q;
    assert(u + seq!['?'] + q =~= u + t);
    assert(path + seq!['?'] + q =~= path + t);
    lemma_split_url_has_slash(u, scheme, host, path);
    lemma_split_url_extend(u, t, scheme, host, path);
    lemma_split_first_piece_extend(seq![], path, q, '?');
}

/// A link whose path ends in a blocked file ending (in any ASCII case) does
/// not lead to a page, with or without a query string.
pub proof fn lemma_blocked_ending_is_not_html(
    u: Seq<char>,
    q: Seq<char>,
    scheme: Seq<char>,
    host: Seq<char>,
    path: Seq<char>,
    k: int,
)
    requires
        spec_split_url(u) == Some((scheme, host, path)),
        u == scheme + "://"@ + host + path,
        lacks(path, '?'),
        0 <= k < blocked_extensions().len(),
        ends_with(lower(path), blocked_extensions()[k]),
    ensures
        !spec_is_probably_html_link(u),
        !spec_is_probably_html_link(u + seq!['?'] + q),
{
    lemma_split_first_piece_whole(seq![], path, '?');
    assert(seq![] + path =~= path);
    lemma_query_keeps_html_verdict(u, q, scheme, host, path);
}

/// Every blocked file ending begins with a `.`.
proof fn lemma_blocked_extensions_start_with_dot()
    ensures
        forall|i: int|
            0 <= i < blocked_extensions().len() ==> (#[trigger] blocked_extensions()[i]).len() > 0
                && blocked_extensions()[i][0] == '.',
{
    reveal_strlit(".jpg");
    reveal_strlit(".jpeg");
    reveal_strlit(".png");
    reveal_strlit(".gif");
    reveal_strlit(".webp");
    reveal_strlit(".svg");
    reveal_strlit(".css");
    reveal_strlit(".js");
    reveal_strlit(".zip");
    reveal_strlit(".tar");
    reveal_strlit(".gz");
    reveal_strlit(".mp4");
    reveal_strlit(".mp3");
    reveal_strlit(".wav");
    reveal_strlit(".avi");
    reveal_strlit(".mov");
    reveal_strlit(".pdf");
}

/// Text free of `.` ends in nothing that begins with a `.`.
proof fn lemma_dotless_ends_with_no_dot(p: Seq<char>, e: Seq<char>)
    requires
        lacks(p, '.'),
        e.len() > 0,
        e[0] == '.',
    ensures
        !ends_with(p, e),
{
    if ends_with(p, e) {
        assert(p.subrange(p.len() - e.len(), p.len() as int)[0] == p[p.len() - e.len()]);
    }
}

/// A link whose path holds no `.` leads to a page.
#[verifier::spinoff_prover]
pub proof fn lemma_dotless_path_is_html(u: Seq<char>, scheme: Seq<char>, host: Seq<char>, path: Seq<char>)
    requires
        spec_split_url(u) == Some((scheme, host, path)),
        lacks(path, '.'),
    ensures
        spec_is_probably_html_link(u),
{
    lemma_split_lacks(seq![], path, '?', '.');
    lemma_split_from_nonempty(seq![], path, '?');
    let first = split(path, '?')[0];
    assert(lacks(first, '.'));
    let p = lower(first);
    assert forall|i: int| 0 <= i < p.len() implies p[i] != '.' by {
        assert(first[i] != '.');
    }
    lemma_blocked_extensions_start_with_dot();
    assert forall|i: int| 0 <= i < blocked_extensions().len() implies !ends_with(
        p,
        #[trigger] blocked_extensions()[i],
    ) by {
        lemma_dotless_ends_with_no_dot(p, blocked_extensions()[i]);
    }
}

/// Whether a link probably leads to a page.
pub fn is_probably_html_link(url: &str) -> (r: bool)
    ensures
        r == spec_is_probably_html_link(url@),
{
    let path = match split_url(url) {
        Some((_, _, p)) => chars_of(p.as_str()),
        None => chars_of(url),
    };
    let pieces = split_exec(&path, '?');
    assert(pieces.deep_view()[0] == pieces@[0]@);
    let p = lower_chars(&pieces[0]);
    !ends_with_any(&p, &blocked_extensions_exec())
}

/// Whether `s` ends with one of `ws`.
fn ends_with_any(s: &[char], ws: &Vec<Vec<char>>) -> (r: bool)
    ensures
        r == exists|j: int| 0 <= j < ws@.len() && ends_with(s@, #[trigger] ws.deep_view()[j]),
{
    let mut i: usize = 0;
    while i < ws.len()
        invariant
            i <= ws@.len(),
            forall|j: int| 0 <= j < i ==> !ends_with(s@, #[trigger] ws.deep_view()[j]),
        decreases ws@.len() - i,
    {
        assert(ws.deep_view()[i as int] == ws@[i as int]@);
        if ends_with_exec(s, &ws[i]) {
            return true;
        }
        i = i + 1;
    }
    false
}

/// The absolute URL that a link on a page at `base` leads to, without its
/// fragment; none for empty, in-page, `mailto:`, `tel:` and `javascript:`
/// links, or when the base is no URL.
pub open spec fn spec_resolve_url(base: Seq<char>, href: Seq<char>) -> Option<Seq<char>> {
    let h = trim(href);
    if h.len() == 0 || starts_with(h, "#"@) || starts_with(h, "mailto:"@) || starts_with(h, "tel:"@)
        || starts_with(h, "javascript:"@) {
        None
    } else if starts_with(h, "http://"@) || starts_with(h, "https://"@) {
        Some(spec_strip_fragment(h))
    } else {
        match spec_split_url(base) {
            None => None,
            Some((scheme, host, path)) => if starts_with(h, "//"@) {
                Some(scheme + ":"@ + spec_strip_fragment(h))
            } else if starts_with(h, "/"@) {
                Some(spec_strip_fragment(scheme + "://"@ + host + h))
            } else {
                let dir = if contains(path, "/"@) {
                    path.take(last_index(path, "/"@))
                } else {
                    seq![]
                };
                Some(spec_strip_fragment(scheme + "://"@ + host + dir + "/"@ + h))
            },
        }
    }
}

/// The absolute URL that a link on a page at `base_url` leads to.
pub fn resolve_url(base_url: &str, href: &str) -> (r: Option<String>)
    ensures
        match r {
            Some(u) => spec_resolve_url(base_url@, href@) == Some(u@),
            None => spec_resolve_url(base_url@, href@) is None,
        },
{
    let h = trim_seq(&chars_of(href));
    if h.len() == 0 || starts_with_exec(&h, &chars_of("#")) || starts_with_exec(&h, &chars_of("mailto:"))
        || starts_with_exec(&h, &chars_of("tel:")) || starts_with_exec(&h, &chars_of("javascript:")) {
        return None;
    }
    let hs = string_of(&h);
    if starts_with_exec(&h, &chars_of("http://")) || starts_with_exec(&h, &chars_of("https://")) {
        return Some(strip_fragment(hs.as_str()));
    }
    let (scheme, host, path) = match split_url(base_url) {
        Some(parts) => parts,
        None => return None,
    };
    if starts_with_exec(&h, &chars_of("//")) {
        let mut out = chars_of(scheme.as_str());
        append_str(&mut out, ":");
        append_str(&mut out, strip_fragment(hs.as_str()).as_str());
        return Some(string_of(&out));
    }
    if starts_with_exec(&h, &chars_of("/")) {
        let mut out = chars_of(scheme.as_str());
        append_str(&mut out, "://");
        append_str(&mut out, host.as_str());
        extend(&mut out, &h);
        return Some(strip_fragment(string_of(&out).as_str()));
    }
    let pc = chars_of(path.as_str());
    let dir = match find_last(&pc, &chars_of("/")) {
        Some(k) => slice_vec(&pc, 0, k),
        None => Vec::new(),
    };
    assert(dir@ =~= (if contains(path@, "/"@) {
        path@.take(last_index(path@, "/"@))
    } else {
        seq![]
    }));
    let mut out = chars_of(scheme.as_str());
    append_str(&mut out, "://");
    append_str(&mut out, host.as_str());
    extend(&mut out, &dir);
    append_str(&mut out, "/");
    extend(&mut out, &h);
    Some(strip_fragment(string_of(&out).as_str()))
}

/// How many characters of an unquoted attribute value there are: up to
/// whitespace or `>`.
pub open spec fn unquoted_len(t: Seq<char>) -> nat
    decreases t.len(),
{
    if t.len() == 0 || is_ws(t[0]) || t[0] == '>' {
        0
    } else {
        1 + unquoted_len(t.skip(1))
    }
}

/// An attribute value at the start of `t`, which follows `skipped` whitespace
/// characters, and how many characters it takes up with them.
pub open spec fn read_attr_from(t: Seq<char>, skipped: nat) -> Option<(Seq<char>, nat)> {
    if t.len() == 0 {
        None
    } else if t[0] == '"' || t[0] == '\'' {
        let rest = t.skip(1);
        if !contains(rest, seq![t[0]]) {
            None
        } else {
            let end = first_index(rest, seq![t[0]]);
            Some((rest.take(end), (skipped + 1 + end + 1) as nat))
        }
    } else {
        let end = unquoted_len(t);
        Some((t.take(end as int), skipped + end))
    }
}

/// An attribute value at the start of `v` (after whitespace), quoted or not,
/// and how many characters of `v` it takes up.
pub open spec fn spec_read_attr_value(v: Seq<char>) -> Option<(Seq<char>, nat)> {
    read_attr_from(trim_start(v), (v.len() - trim_start(v).len()) as nat)
}

/// Computes `unquoted_len`.
fn unquoted_len_exec(t: &[char]) -> (i: usize)
    ensures
        i as nat == unquoted_len(t@),
        i <= t@.len(),
{
    let mut i: usize = 0;
    assert(t@.skip(0) =~= t@);
    while i < t.len() && !(is_ws_char(t[i]) || t[i] == '>')
        invariant
            i <= t@.len(),
            unquoted_len(t@) == i + unquoted_len(t@.skip(i as int)),
        decreases t@.len() - i,
    {
        assert(t@.skip(i as int).skip(1) =~= t@.skip(i + 1));
        i = i + 1;
    }
    i
}

/// Reads a quoted attribute value from `t`, the rest of `value` after `skipped`
/// whitespace characters.
#[verifier::rlimit(40)]
fn quoted_value(t: &[char], skipped: usize) -> (r: Option<(Vec<char>, usize)>)
    requires
        t@.len() > 0,
        t@[0] == '"' || t@[0] == '\'',
        skipped + t@.len() <= usize::MAX,
    ensures
        match r {
            Some((a, n)) => read_attr_from(t@, skipped as nat) == Some((a@, n as nat)) && n <= skipped
                + t@.len(),
            None => read_attr_from(t@, skipped as nat) is None,
        },
{
    let tn = t.len();
    let rest = slice_vec(t, 1, tn);
    assert(rest@ =~= t@.skip(1));
    let qv = vec![t[0]];
    assert(qv@ =~= seq![t@[0]]);
    match find_first(&rest, &qv) {
        None => None,
        Some(end) => {
            let a = slice_vec(&rest, 0, end);
            assert(a@ =~= rest@.take(end as int));
            Some((a, skipped + 1 + end + 1))
        },
    }
}

/// Reads an attribute value at the start of `value`, quoted or not; the count
/// is in characters.
pub fn read_attr_value(value: &[char]) -> (r: Option<(Vec<char>, usize)>)
    ensures
        match r {
            Some((a, n)) => spec_read_attr_value(value@) == Some((a@, n as nat)) && n <= value@.len(),
            None => spec_read_attr_value(value@) is None,
        },
{
    let skipped = crate::text::leading_ws(value);
    let n = value.len();
    let t = slice_vec(value, skipped, n);
    assert(t@ =~= value@.skip(skipped as int));
    assert(t@ == trim_start(value@));
    assert(skipped == value@.len() - t@.len());
    if t.len() == 0 {
        return None;
    }
    let q = t[0];
    if q == '"' || q == '\'' {
        quoted_value(&t, skipped)
    } else {
        let i = unquoted_len_exec(&t);
        Some((slice_vec(&t, 0, i), skipped + i))
    }
}

/// Where the value of the next `href=` (found ignoring ASCII case) at or after
/// position `off` starts.
#[verifier::opaque]
pub open spec fn next_href(html: Seq<char>, off: int) -> Option<int> {
    if 0 <= off <= html.len() && contains(lower(html.skip(off)), "href="@) {
        Some(off + first_index(lower(html.skip(off)), "href="@) + 5)
    } else {
        None
    }
}

/// A link, added to `acc` when it resolves, probably leads to a page and is new.
pub open spec fn add_link(acc: Seq<Seq<char>>, base: Seq<char>, v: Seq<char>) -> Seq<Seq<char>> {
    match spec_resolve_url(base, v) {
        Some(u) => if spec_is_probably_html_link(u) && !acc.contains(u) {
            acc.push(u)
        } else {
            acc
        },
        None => acc,
    }
}

/// The links of a page from position `off` on, added to `acc` when they
/// probably lead to pages and are new.
pub open spec fn scan_links(html: Seq<char>, base: Seq<char>, off: int, acc: Seq<Seq<char>>) -> Seq<Seq<char>>
    decreases html.len() - off,
{
    match next_href(html, off) {
        None => acc,
        Some(hs) => if hs <= off || hs > html.len() {
            acc
        } else {
            match spec_read_attr_value(html.skip(hs)) {
                None => scan_links(html, base, hs, acc),
                Some((v, n)) => if hs + n > html.len() {
                    acc
                } else {
                    scan_links(html, base, hs + n, add_link(acc, base, v))
                },
            }
        },
    }
}

/// Adding a link keeps a list of distinct links distinct.
proof fn lemma_add_link_distinct(acc: Seq<Seq<char>>, base: Seq<char>, v: Seq<char>)
    requires
        acc.no_duplicates(),
    ensures
        add_link(acc, base, v).no_duplicates(),
{
    match spec_resolve_url(base, v) {
        Some(u) => if spec_is_probably_html_link(u) && !acc.contains(u) {
            let r = acc.push(u);
            assert forall|i: int, j: int| 0 <= i < r.len() && 0 <= j < r.len() && i != j implies r[i] != r[j] by {
                if i == acc.len() {
                    assert(r[j] == acc[j]);
                } else if j == acc.len() {
                    assert(r[i] == acc[i]);
                } else {
                    assert(r[i] == acc[i] && r[j] == acc[j]);
                }
            }
        },
        None => {},
    }
}

/// Scanning a page keeps a list of distinct links distinct.
proof fn lemma_scan_links_distinct(html: Seq<char>, base: Seq<char>, off: int, acc: Seq<Seq<char>>)
    requires
        acc.no_duplicates(),
    ensures
        scan_links(html, base, off, acc).no_duplicates(),
    decreases html.len() - off,
{
    match next_href(html, off) {
        None => {},
        Some(hs) => if hs <= off || hs > html.len() {
        } else {
            match spec_read_attr_value(html.skip(hs)) {
                None => lemma_scan_links_distinct(html, base, hs, acc),
                Some((v, n)) => if hs + n > html.len() {
                } else {
                    lemma_add_link_distinct(acc, base, v);
                    lemma_scan_links_distinct(html, base, hs + n, add_link(acc, base, v));
                },
            }
        },
    }
}

/// The links read from a page are distinct.
pub proof fn lemma_extract_links_distinct(base: Seq<char>, html: Seq<char>)
    ensures
        scan_links(html, base, 0, seq![]).no_duplicates(),
{
    lemma_scan_links_distinct(html, base, 0, seq![]);
}

/// Whether a list of strings holds one with this view.
fn has_string(v: &Vec<String>, s: &[char]) -> (r: bool)
    ensures
        r == v.deep_view().contains(s@),
{
    let mut i: usize = 0;
    while i < v.len()
        invariant
            i <= v@.len(),
            forall|j: int| 0 <= j < i ==> v.deep_view()[j] != s@,
        decreases v@.len() - i,
    {
        assert(v.deep_view()[i as int] == v@[i as int]@);
        if eq_chars(&chars_of(v[i].as_str()), s) {
            return true;
        }
        i = i + 1;
    }
    false
}

/// The distinct links of an HTML page that probably lead to pages, resolved
/// against the page's URL, in order.
#[verifier::rlimit(60)]
pub fn extract_links(base_url: &str, html: &str) -> (r: Vec<String>)
    ensures
        r.deep_view() == scan_links(html@, base_url@, 0, seq![]),
{
    let h = chars_of(html);
    let pat = chars_of("href=");
    proof {
        reveal_strlit("href=");
    }
    let mut links: Vec<String> = Vec::new();
    let mut offset: usize = 0;
    assert(links.deep_view() =~= Seq::<Seq<char>>::empty());
    loop
        invariant
            h@ == html@,
            pat@ == "href="@,
            pat@.len() == 5,
            offset <= h@.len(),
            scan_links(html@, base_url@, 0, seq![]) == scan_links(
                html@,
                base_url@,
                offset as int,
                links.deep_view(),
            ),
        decreases h@.len() - offset,
    {
        let n = h.len();
        let tail = slice_vec(&h, offset, n);
        assert(tail@ =~= h@.skip(offset as int));
        let lt = lower_chars(&tail);
        assert(lt@.len() == tail@.len());
        let p = match find_first(&lt, &pat) {
            Some(p) => p,
            None => {
                proof {
                    reveal(next_href);
                }
                return links;
            },
        };
        let href_start = offset + p + 5;
        proof {
            reveal(next_href);
            assert(next_href(html@, offset as int) == Some(href_start as int));
        }
        let rest = slice_vec(&h, href_start, n);
        assert(rest@ =~= h@.skip(href_start as int));
        match read_attr_value(&rest) {
            None => {
                offset = href_start;
            },
            Some((value, consumed)) => {
                let vs = string_of(&value);
                let ghost before = links.deep_view();
                match resolve_url(base_url, vs.as_str()) {
                    Some(u) => {
                        let uc = chars_of(u.as_str());
                        if is_probably_html_link(u.as_str()) && !has_string(&links, &uc) {
                            links.push(u);
                            assert(links.deep_view() =~= before.push(uc@));
                        }
                    },
                    None => {},
                }
                assert(links.deep_view() == add_link(before, base_url@, value@));
                offset = href_start + consumed;
            },
        }
    }
}



/// A fetched page: its final address, its readable text and, when crawling,
/// its links.
#[derive(Clone, Debug)]
pub struct FetchedPage {
    pub url: String,
    pub text: String,
    pub links: Vec<String>,
}

impl FetchedPage {
    /// A page with no text and no links.
    pub fn empty(url: &str) -> (r: FetchedPage)
        ensures
            r.url@ == url@,
            r.text@.len() == 0,
            r.links@.len() == 0,
    {
        FetchedPage { url: url.to_owned(), text: String::new(), links: Vec::new() }
    }
}

/// A content type that may hold readable text: none given, `text/...`, or
/// one naming HTML, JSON or XML (ignoring ASCII case).
pub open spec fn spec_readable_content_type(ct: Seq<char>) -> bool {
    let l = lower(ct);
    l.len() == 0 || starts_with(l, "text/"@) || contains(l, "html"@) || contains(l, "json"@)
        || contains(l, "xml"@)
}

/// Whether a linked page's content type may hold readable text.
pub fn readable_content_type(content_type: &str) -> (r: bool)
    ensures
        r == spec_readable_content_type(content_type@),
{
    let l = lower_chars(&chars_of(content_type));
    l.len() == 0 || starts_with_exec(&l, &chars_of("text/")) || contains_exec(&l, &chars_of("html"))
        || contains_exec(&l, &chars_of("json")) || contains_exec(&l, &chars_of("xml"))
}

/// The settings of web search and page fetching.
#[derive(Clone, Copy, Debug)]
pub struct WebSearch {
    pub enabled: bool,
    pub always: bool,
    pub max_results: usize,
    pub fetch_links: bool,
    pub fetch_max_urls: usize,
    pub fetch_chars: usize,
    pub fetch_body_bytes: usize,
    pub crawl_links: bool,
    pub crawl_max_pages: usize,
    pub crawl_chars: usize,
}

/// What to gather for a prompt's web context.
#[derive(Clone, Debug)]
pub struct ContextPlan {
    /// Run a web search for the prompt.
    pub search: bool,
    /// The links of the prompt.
    pub urls: Vec<String>,
    /// Fetch the linked pages.
    pub fetch_links: bool,
}

/// The sections of a web context joined by blank lines; none when there are
/// none.
pub open spec fn spec_join_sections(sections: Seq<Seq<char>>) -> Option<Seq<char>> {
    if sections.len() == 0 {
        None
    } else {
        Some(join(sections, "\n\n"@))
    }
}

/// Joins the sections of a web context.
pub fn join_sections(sections: &Vec<String>) -> (r: Option<String>)
    ensures
        match r {
            Some(c) => spec_join_sections(sections.deep_view()) == Some(c@),
            None => spec_join_sections(sections.deep_view()) is None,
        },
{
    if sections.len() == 0 {
        return None;
    }
    Some(string_of(&crate::bot::join_strings(sections, "\n\n")))
}

/// The first `n` bytes.
fn prefix_bytes(body: &[u8], n: usize) -> (r: Vec<u8>)
    requires
        n <= body@.len(),
    ensures
        r@ == body@.take(n as int),
{
    let mut kept: Vec<u8> = Vec::new();
    let mut i: usize = 0;
    while i < n
        invariant
            n <= body@.len(),
            i <= n,
            kept@ == body@.take(i as int),
        decreases n - i,
    {
        kept.push(body[i]);
        assert(kept@ =~= body@.take(i + 1));
        i = i + 1;
    }
    kept
}

impl WebSearch {
    /// The web settings of the configuration.
    pub fn new(config: &crate::config::Config) -> (r: WebSearch)
        ensures
            r.enabled == config.web_search_enabled,
            r.always == config.web_search_always,
            r.max_results == config.web_search_results,
            r.fetch_links == config.web_fetch_links,
            r.fetch_max_urls == config.web_fetch_max_urls,
            r.fetch_chars == config.web_fetch_chars,
            r.fetch_body_bytes == config.web_fetch_body_bytes,
            r.crawl_links == config.web_crawl_links,
            r.crawl_max_pages == config.web_crawl_max_pages,
            r.crawl_chars == config.web_crawl_chars,
    {
        WebSearch {
            enabled: config.web_search_enabled,
            always: config.web_search_always,
            max_results: config.web_search_results,
            fetch_links: config.web_fetch_links,
            fetch_max_urls: config.web_fetch_max_urls,
            fetch_chars: config.web_fetch_chars,
            fetch_body_bytes: config.web_fetch_body_bytes,
            crawl_links: config.web_crawl_links,
            crawl_max_pages: config.web_crawl_max_pages,
            crawl_chars: config.web_crawl_chars,
        }
    }

    /// Whether a prompt contains a web link.
    pub fn has_links(&self, prompt: &str) -> (r: bool)
        ensures
            r == (spec_extract_urls(prompt@).len() > 0),
    {
        extract_urls(prompt).len() > 0
    }

    /// Whether a prompt is searched for: always, or when it asks.
    pub open spec fn spec_should_search(&self, prompt: Seq<char>) -> bool {
        self.always || spec_prompt_requests_web(prompt)
    }

    /// Whether a prompt is searched for.
    pub fn should_search(&self, prompt: &str) -> (r: bool)
        ensures
            r == self.spec_should_search(prompt@),
    {
        self.always || prompt_requests_web(prompt)
    }

    /// What to gather for a prompt's web context; none when web search is
    /// disabled, or the prompt neither asks for a search nor holds a link. A
    /// search runs only for a prompt without links.
    pub fn plan_context(&self, prompt: &str) -> (r: Option<ContextPlan>)
        ensures
            match r {
                None => !self.enabled || (!self.spec_should_search(prompt@) && spec_extract_urls(
                    prompt@,
                ).len() == 0),
                Some(p) => self.enabled && (self.spec_should_search(prompt@) || spec_extract_urls(
                    prompt@,
                ).len() > 0) && p.urls.deep_view() == spec_extract_urls(prompt@) && p.search == (
                spec_extract_urls(prompt@).len() == 0 && self.spec_should_search(prompt@))
                    && p.fetch_links == self.fetch_links,
            },
    {
        if !self.enabled {
            return None;
        }
        let urls = extract_urls(prompt);
        let search_wanted = self.should_search(prompt);
        if !search_wanted && urls.len() == 0 {
            return None;
        }
        let search = urls.len() == 0 && search_wanted;
        Some(ContextPlan { search, urls, fetch_links: self.fetch_links })
    }

    /// The page made of a fetched body: at most `fetch_body_bytes` of it are
    /// read; its links are kept when crawling.
    pub fn page_from_body(&self, final_url: &str, body: &[u8]) -> (r: FetchedPage)
        ensures
            ({
                let kept = if body@.len() <= self.fetch_body_bytes {
                    body@
                } else {
                    body@.take(self.fetch_body_bytes as int)
                };
                let text = crate::attachments::lossy_utf8(kept);
                &&& r.url@ == final_url@
                &&& r.text@ == spec_html_to_text(text)
                &&& r.links.deep_view() == (if self.crawl_links {
                    scan_links(text, final_url@, 0, seq![])
                } else {
                    seq![]
                })
            }),
    {
        let n = if body.len() <= self.fetch_body_bytes {
            body.len()
        } else {
            self.fetch_body_bytes
        };
        let kept = prefix_bytes(body, n);
        assert(kept@ =~= (if body@.len() <= self.fetch_body_bytes {
            body@
        } else {
            body@.take(self.fetch_body_bytes as int)
        }));
        let text = crate::attachments::decode_lossy(&kept);
        let links = if self.crawl_links {
            extract_links(final_url, text.as_str())
        } else {
            let v: Vec<String> = Vec::new();
            assert(v.deep_view() =~= Seq::<Seq<char>>::empty());
            v
        };
        FetchedPage { url: final_url.to_owned(), text: html_to_text(text.as_str()), links }
    }

    /// The linked pages to fetch: the first `fetch_max_urls` links.
    pub fn urls_to_fetch(&self, urls: &Vec<String>) -> (r: Vec<String>)
        ensures
            r.deep_view() == (if urls@.len() <= self.fetch_max_urls {
                urls.deep_view()
            } else {
                urls.deep_view().take(self.fetch_max_urls as int)
            }),
    {
        let n = if urls.len() <= self.fetch_max_urls {
            urls.len()
        } else {
            self.fetch_max_urls
        };
        let mut out: Vec<String> = Vec::new();
        let mut i: usize = 0;
        while i < n
            invariant
                n <= urls@.len(),
                i <= n,
                out.deep_view() == urls.deep_view().take(i as int),
            decreases n - i,
        {
            let ghost before = out.deep_view();
            out.push(urls[i].clone());
            assert(out.deep_view() =~= before.push(urls@[i as int]@));
            assert(out.deep_view() =~= urls.deep_view().take(i + 1));
            i = i + 1;
        }
        assert(out.deep_view() =~= (if urls@.len() <= self.fetch_max_urls {
            urls.deep_view()
        } else {
            urls.deep_view().take(self.fetch_max_urls as int)
        }));
        out
    }
}

/// The excerpts of linked pages gathered so far, and the addresses seen.
#[derive(Clone, Debug)]
pub struct LinkContext {
    pub context: Vec<char>,
    pub seen: Vec<String>,
}

/// `seen` with `u` added when it is new.
pub open spec fn insert_seen(seen: Seq<Seq<char>>, u: Seq<char>) -> Seq<Seq<char>> {
    if seen.contains(u) {
        seen
    } else {
        seen.push(u)
    }
}

/// The entry of a linked page.
pub open spec fn page_entry(url: Seq<char>, text: Seq<char>, max: nat) -> Seq<char> {
    "- URL: "@ + url + "\n  Excerpt: "@ + spec_trim_chars(text, max) + "\n"@
}

/// The entry of a page reached from a linked page.
pub open spec fn detail_entry(url: Seq<char>, text: Seq<char>, max: nat) -> Seq<char> {
    "- Detail URL: "@ + url + "\n  Excerpt: "@ + spec_trim_chars(text, max) + "\n"@
}

/// The links of a page to crawl: those with the page's origin, new to `seen`
/// (and recorded in it), at most `max`.
pub open spec fn pick_details(page_url: Seq<char>, links: Seq<Seq<char>>, max: nat, seen: Seq<Seq<char>>, picked: Seq<Seq<char>>) -> (Seq<Seq<char>>, Seq<Seq<char>>)
    decreases links.len(),
{
    if links.len() == 0 {
        (picked, seen)
    } else {
        match pick_step(page_url, links[0], max, seen, picked) {
            None => (picked, seen),
            Some((s, p)) => pick_details(page_url, links.skip(1), max, s, p),
        }
    }
}

/// One link considered for crawling: skipped when it leaves the page's origin
/// or was seen; picking stops (`None`) at a same-origin link once `max` are
/// picked; else it is picked and seen.
pub open spec fn pick_step(page_url: Seq<char>, link: Seq<char>, max: nat, seen: Seq<Seq<char>>, picked: Seq<Seq<char>>) -> Option<(Seq<Seq<char>>, Seq<Seq<char>>)> {
    if !spec_same_origin(page_url, link) {
        Some((seen, picked))
    } else if picked.len() >= max {
        None
    } else if seen.contains(link) {
        Some((seen, picked))
    } else {
        Some((seen.push(link), picked.push(link)))
    }
}

/// Crawling a page picks at most `max` links, each with the page's origin and
/// none already seen.
pub proof fn lemma_pick_details_bounded(
    page_url: Seq<char>,
    links: Seq<Seq<char>>,
    max: nat,
    seen: Seq<Seq<char>>,
    picked: Seq<Seq<char>>,
)
    requires
        picked.len() <= max,
    ensures
        ({
            let (p, s) = pick_details(page_url, links, max, seen, picked);
            &&& picked.len() <= p.len() <= max
            &&& p.subrange(0, picked.len() as int) == picked
            &&& forall|k: int|
                picked.len() <= k < p.len() ==> spec_same_origin(page_url, #[trigger] p[k])
                    && !seen.contains(p[k])
        }),
    decreases links.len(),
{
    if links.len() > 0 {
        match pick_step(page_url, links[0], max, seen, picked) {
            None => {
                assert(picked.subrange(0, picked.len() as int) =~= picked);
            },
            Some((s1, p1)) => {
                lemma_pick_details_bounded(page_url, links.skip(1), max, s1, p1);
                let (p, s) = pick_details(page_url, links.skip(1), max, s1, p1);
                assert(p.subrange(0, p1.len() as int) == p1);
                if p1.len() > picked.len() {
                    assert(p1 == picked.push(links[0]));
                    assert(s1 == seen.push(links[0]));
                    assert(p.subrange(0, picked.len() as int) =~= p1.subrange(0, picked.len() as int));
                    assert(p1.subrange(0, picked.len() as int) =~= picked);
                    assert(p[picked.len() as int] == p1[picked.len() as int]);
                    assert forall|k: int| picked.len() <= k < p.len() implies spec_same_origin(
                        page_url,
                        #[trigger] p[k],
                    ) && !seen.contains(p[k]) by {
                        if k == picked.len() {
                            assert(p[k] == links[0]);
                        } else {
                            assert(!s1.contains(p[k]));
                            if seen.contains(p[k]) {
                                let j = choose|j: int| 0 <= j < seen.len() && seen[j] == p[k];
                                assert(s1[j] == p[k]);
                            }
                        }
                    }
                } else {
                    assert(p1 == picked);
                    assert(s1 == seen);
                }
            },
        }
    } else {
        assert(picked.subrange(0, picked.len() as int) =~= picked);
    }
}

/// Considers one link for crawling; `false` when picking stops.
fn pick_step_exec(page_url: &str, link: &String, max: usize, seen: &mut Vec<String>, picked: &mut Vec<String>) -> (go: bool)
    ensures
        go ==> pick_step(page_url@, link@, max as nat, old(seen).deep_view(), old(picked).deep_view())
            == Some((final(seen).deep_view(), final(picked).deep_view())),
        !go ==> pick_step(page_url@, link@, max as nat, old(seen).deep_view(), old(picked).deep_view()) is None
            && *final(seen) == *old(seen) && *final(picked) == *old(picked),
{
    if !same_origin(page_url, link.as_str()) {
        return true;
    }
    if picked.len() >= max {
        return false;
    }
    let lc = chars_of(link.as_str());
    if !has_string(seen, &lc) {
        let ghost sb = seen.deep_view();
        let ghost pb = picked.deep_view();
        seen.push(link.clone());
        picked.push(link.clone());
        assert(seen.deep_view() =~= sb.push(lc@));
        assert(picked.deep_view() =~= pb.push(lc@));
    }
    true
}

/// Adds `u` to `seen` when it is new.
fn insert_seen_exec(seen: &mut Vec<String>, u: &str)
    ensures
        final(seen).deep_view() == insert_seen(old(seen).deep_view(), u@),
{
    let mut i: usize = 0;
    while i < seen.len()
        invariant
            i <= seen@.len(),
            forall|j: int| 0 <= j < i ==> seen.deep_view()[j] != u@,
        decreases seen@.len() - i,
    {
        assert(seen.deep_view()[i as int] == seen@[i as int]@);
        if eq_chars(&chars_of(seen[i].as_str()), &chars_of(u)) {
            assert(seen.deep_view().contains(u@));
            return;
        }
        i = i + 1;
    }
    let ghost before = seen.deep_view();
    seen.push(u.to_owned());
    assert(seen.deep_view() =~= before.push(u@));
}

impl LinkContext {
    /// Nothing gathered yet.
    pub fn new() -> (r: LinkContext)
        ensures
            r.context@.len() == 0,
            r.seen@.len() == 0,
    {
        LinkContext { context: Vec::new(), seen: Vec::new() }
    }

    /// Adds a linked page fetched from `url`: a page without text is skipped;
    /// otherwise its final address is seen, a heading precedes the first entry,
    /// and its entry quotes at most `max_chars` characters of its text.
    pub fn add_page(&mut self, url: &str, page: &FetchedPage, max_chars: usize)
        ensures
            page.text@.len() == 0 ==> *final(self) == *old(self),
            page.text@.len() > 0 ==> final(self).seen.deep_view() == insert_seen(
                old(self).seen.deep_view(),
                page.url@,
            ) && final(self).context@ == old(self).context@ + (if old(self).context@.len() == 0 {
                "Linked page excerpts:\n"@
            } else {
                seq![]
            }) + page_entry(url@, page.text@, max_chars as nat),
    {
        if chars_of(page.text.as_str()).len() == 0 {
            return;
        }
        insert_seen_exec(&mut self.seen, page.url.as_str());
        if self.context.len() == 0 {
            append_str(&mut self.context, "Linked page excerpts:\n");
        }
        append_str(&mut self.context, "- URL: ");
        append_str(&mut self.context, url);
        append_str(&mut self.context, "\n  Excerpt: ");
        append_str(&mut self.context, trim_chars(page.text.as_str(), max_chars).as_str());
        append_str(&mut self.context, "\n");
    }

    /// The links of a page to crawl, recorded as seen: those with the page's
    /// origin that are new, at most `max_pages`.
    #[verifier::rlimit(40)]
    pub fn detail_urls(&mut self, page: &FetchedPage, max_pages: usize) -> (r: Vec<String>)
        ensures
            (r.deep_view(), final(self).seen.deep_view()) == pick_details(
                page.url@,
                page.links.deep_view(),
                max_pages as nat,
                old(self).seen.deep_view(),
                seq![],
            ),
            final(self).context == old(self).context,
    {
        let ghost links = page.links.deep_view();
        let ghost goal = pick_details(page.url@, links, max_pages as nat, old(self).seen.deep_view(), seq![]);
        let mut picked: Vec<String> = Vec::new();
        let mut i: usize = 0;
        let mut done = false;
        assert(links.skip(0) =~= links);
        assert(picked.deep_view() =~= Seq::<Seq<char>>::empty());
        while i < page.links.len() && !done
            invariant
                links == page.links.deep_view(),
                links.len() == page.links@.len(),
                i <= page.links@.len(),
                self.context == old(self).context,
                goal == pick_details(page.url@, links, max_pages as nat, old(self).seen.deep_view(), seq![]),
                done ==> goal == (picked.deep_view(), self.seen.deep_view()),
                !done ==> goal == pick_details(
                    page.url@,
                    links.skip(i as int),
                    max_pages as nat,
                    self.seen.deep_view(),
                    picked.deep_view(),
                ),
            decreases page.links@.len() - i,
        {
            let ghost rest = links.skip(i as int);
            assert(rest[0] == page.links@[i as int]@);
            assert(rest.skip(1) =~= links.skip(i + 1));
            let go = pick_step_exec(page.url.as_str(), &page.links[i], max_pages, &mut self.seen, &mut picked);
            i = i + 1;
            done = !go;
        }
        if !done {
            assert(links.skip(i as int) =~= Seq::<Seq<char>>::empty());
        }
        picked
    }

    /// Adds a page reached from a linked page: skipped without text; otherwise
    /// its final address is seen and its entry quotes at most `max_chars`
    /// characters.
    pub fn add_detail(&mut self, page: &FetchedPage, max_chars: usize)
        ensures
            page.text@.len() == 0 ==> *final(self) == *old(self),
            page.text@.len() > 0 ==> final(self).seen.deep_view() == insert_seen(
                old(self).seen.deep_view(),
                page.url@,
            ) && final(self).context@ == old(self).context@ + detail_entry(
                page.url@,
                page.text@,
                max_chars as nat,
            ),
    {
        if chars_of(page.text.as_str()).len() == 0 {
            return;
        }
        insert_seen_exec(&mut self.seen, page.url.as_str());
        append_str(&mut self.context, "- Detail URL: ");
        append_str(&mut self.context, page.url.as_str());
        append_str(&mut self.context, "\n  Excerpt: ");
        append_str(&mut self.context, trim_chars(page.text.as_str(), max_chars).as_str());
        append_str(&mut self.context, "\n");
    }

    /// The gathered excerpts, trimmed.
    pub fn finish(&self) -> (r: String)
        ensures
            r@ == trim(self.context@),
    {
        string_of(&trim_seq(&self.context))
    }
}


/// A topic of an instant-answer response, with its subtopics.
#[derive(Debug)]
pub struct DuckDuckGoTopic {
    pub text: String,
    pub first_url: String,
    pub topics: Vec<DuckDuckGoTopic>,
}

/// An instant-answer response.
#[derive(Debug)]
pub struct DuckDuckGoResponse {
    pub heading: String,
    pub abstract_text: String,
    pub abstract_url: String,
    pub results: Vec<DuckDuckGoTopic>,
    pub related_topics: Vec<DuckDuckGoTopic>,
}

/// The results found among topics and their subtopics, depth first, added to
/// `acc` until it holds `max`.
pub open spec fn collect_list(ts: Seq<DuckDuckGoTopic>, max: nat, acc: Seq<(Seq<char>, Seq<char>)>) -> Seq<(Seq<char>, Seq<char>)>
    decreases ts,
{
    if ts.len() == 0 || acc.len() >= max {
        acc
    } else {
        let t = ts[0];
        let acc1 = if trim(t.text@).len() > 0 && trim(t.first_url@).len() > 0 {
            acc.push((t.text@, t.first_url@))
        } else {
            acc
        };
        let acc2 = collect_list(t.topics@, max, acc1);
        collect_list(ts.skip(1), max, acc2)
    }
}

/// Adds the results found among topics and their subtopics, depth first,
/// until there are `max_results`.
pub fn collect_topics(topics: &[DuckDuckGoTopic], max_results: usize, results: &mut Vec<SearchResult>)
    ensures
        results_view(final(results)@) == collect_list(topics@, max_results as nat, results_view(old(results)@)),
    decreases topics@,
{
    let ghost start = results_view(results@);
    let mut i: usize = 0;
    assert(topics@.skip(0) =~= topics@);
    while i < topics.len()
        invariant
            i <= topics@.len(),
            start == results_view(old(results)@),
            collect_list(topics@, max_results as nat, start) == collect_list(
                topics@.skip(i as int),
                max_results as nat,
                results_view(results@),
            ),
        decreases topics@.len() - i,
    {
        let ghost rest = topics@.skip(i as int);
        assert(rest[0] == topics@[i as int]);
        assert(rest.skip(1) =~= topics@.skip(i + 1));
        if results.len() >= max_results {
            return;
        }
        let t = &topics[i];
        if trim_seq(&chars_of(t.text.as_str())).len() > 0 && trim_seq(&chars_of(t.first_url.as_str())).len()
            > 0 {
            let ghost before = results@;
            results.push(SearchResult { text: t.text.clone(), url: t.first_url.clone() });
            assert(results_view(results@) =~= results_view(before).push((t.text@, t.first_url@)));
        }
        assert(decreases_to!(topics@ => topics@[i as int]));
        collect_topics(t.topics.as_slice(), max_results, results);
        i = i + 1;
    }
    assert(topics@.skip(i as int) =~= Seq::<DuckDuckGoTopic>::empty());
}

/// The results of an instant-answer response: the abstract (under its heading)
/// when it has text and an address, then the topics' results, at most `max` in
/// all.
pub open spec fn spec_search_results(r: DuckDuckGoResponse, max: nat) -> Seq<(Seq<char>, Seq<char>)> {
    let first: Seq<(Seq<char>, Seq<char>)> = if trim(r.abstract_text@).len() > 0 && trim(
        r.abstract_url@,
    ).len() > 0 {
        seq![
            (
                if trim(r.heading@).len() == 0 {
                    r.abstract_text@
                } else {
                    r.heading@ + ": "@ + r.abstract_text@
                },
                r.abstract_url@,
            ),
        ]
    } else {
        seq![]
    };
    let all = collect_list(r.related_topics@, max, collect_list(r.results@, max, first));
    if all.len() <= max {
        all
    } else {
        all.take(max as int)
    }
}

/// The results of an instant-answer response.
pub fn search_results(search: DuckDuckGoResponse, max_results: usize) -> (r: Vec<SearchResult>)
    ensures
        results_view(r@) == spec_search_results(search, max_results as nat),
{
    let mut results: Vec<SearchResult> = Vec::new();
    if trim_seq(&chars_of(search.abstract_text.as_str())).len() > 0 && trim_seq(
        &chars_of(search.abstract_url.as_str()),
    ).len() > 0 {
        let text = if trim_seq(&chars_of(search.heading.as_str())).len() == 0 {
            search.abstract_text.clone()
        } else {
            let mut t = chars_of(search.heading.as_str());
            append_str(&mut t, ": ");
            append_str(&mut t, search.abstract_text.as_str());
            string_of(&t)
        };
        let ghost tv = text@;
        results.push(SearchResult { text, url: search.abstract_url.clone() });
        assert(results_view(results@) =~= seq![(tv, search.abstract_url@)]);
    } else {
        assert(results_view(results@) =~= Seq::<(Seq<char>, Seq<char>)>::empty());
    }
    let ghost first = results_view(results@);
    collect_topics(search.results.as_slice(), max_results, &mut results);
    collect_topics(search.related_topics.as_slice(), max_results, &mut results);
    let ghost all = results_view(results@);
    results.truncate(max_results);
    assert(results_view(results@) =~= (if all.len() <= max_results {
        all
    } else {
        all.take(max_results as int)
    }));
    results
}

/// A Bing result block: its title link (address and raw text) and its
/// snippet's raw text.
#[derive(Clone, Debug)]
pub struct BingBlock {
    pub title: Option<(Option<String>, String)>,
    pub snippet: Option<String>,
}

/// A Bing result block by its view.
pub open spec fn block_view(b: BingBlock) -> (Option<(Option<Seq<char>>, Seq<char>)>, Option<Seq<char>>) {
    (
        match b.title {
            Some((h, t)) => Some(
                (
                    match h {
                        Some(x) => Some(x@),
                        None => None,
                    },
                    t@,
                ),
            ),
            None => None,
        },
        match b.snippet {
            Some(x) => Some(x@),
            None => None,
        },
    )
}

/// The blocks that `scraper` selects from a page: for each element matching
/// `item`, the first element inside it matching `title` (the value of its
/// attribute `attr` and its text) and the first matching `snippet` (its text);
/// empty when a selector does not parse.
pub uninterp spec fn bing_blocks(
    html: Seq<char>,
    item: Seq<char>,
    title: Seq<char>,
    attr: Seq<char>,
    snippet: Seq<char>,
) -> Seq<(Option<(Option<Seq<char>>, Seq<char>)>, Option<Seq<char>>)>;

/// Parses `html` with `scraper::Html::parse_document`, compiles the selectors
/// with `scraper::Selector::parse`, and for each element that `item` selects
/// reads the first `title` match (its `attr` attribute and its text) and the
/// first `snippet` match (its text). The contract names the result
/// (`bing_blocks`) and states nothing of how HTML is parsed or selectors match.
#[verifier::external_body]
fn select_blocks(html: &str, item: &str, title: &str, attr: &str, snippet: &str) -> (r: Vec<BingBlock>)
    ensures
        r@.map_values(|b: BingBlock| block_view(b)) == bing_blocks(html@, item@, title@, attr@, snippet@),
{
    let (Ok(item), Ok(title), Ok(snippet)) = (Selector::parse(item), Selector::parse(title), Selector::parse(snippet)) else {
        return Vec::new();
    };
    let mut out = Vec::new();
    for r in scraper::Html::parse_document(html).select(&item) {
        let (t, s) = (r.select(&title).next(), r.select(&snippet).next());
        let title = t.map(|t| (t.attr(attr).map(str::to_owned), t.text().collect()));
        out.push(BingBlock { title, snippet: s.map(|s| s.text().collect()) });
    }
    out
}

/// The parts of a parsed URL that the library reads.
#[derive(Clone, Debug)]
pub struct UrlParts {
    pub serialization: String,
    pub scheme: String,
    pub domain: Option<String>,
    pub query_pairs: Vec<(String, String)>,
}

/// An optional string by its view.
pub open spec fn opt_chars(o: Option<String>) -> Option<Seq<char>> {
    match o {
        Some(s) => Some(s@),
        None => None,
    }
}

/// A URL's parts by their views.
pub open spec fn url_view(u: UrlParts) -> (Seq<char>, Seq<char>, Option<Seq<char>>, Seq<(Seq<char>, Seq<char>)>) {
    (
        u.serialization@,
        u.scheme@,
        opt_chars(u.domain),
        u.query_pairs@.map_values(|p: (String, String)| (p.0@, p.1@)),
    )
}

/// What `url::Url::parse` makes of a string: `None` where it refuses it, else
/// the URL's serialization, scheme, domain and decoded query pairs.
pub uninterp spec fn url_parse(s: Seq<char>) -> Option<
    (Seq<char>, Seq<char>, Option<Seq<char>>, Seq<(Seq<char>, Seq<char>)>),
>;

/// Parses a URL with `url::Url::parse` and reads its serialization
/// (`to_string`), `scheme`, `domain` and decoded `query_pairs`. The contract
/// names the result (`url_parse`) and states nothing of how URLs are parsed or
/// normalised.
#[verifier::external_body]
fn parse_url(s: &str) -> (r: Option<UrlParts>)
    ensures
        match r {
            Some(u) => url_parse(s@) == Some(url_view(u)),
            None => url_parse(s@) is None,
        },
{
    url::Url::parse(s).ok().map(|u| UrlParts {
        serialization: u.to_string(),
        scheme: u.scheme().to_string(),
        domain: u.domain().map(str::to_owned),
        query_pairs: u.query_pairs().map(|(k, v)| (k.into_owned(), v.into_owned())).collect(),
    })
}

/// What `URL_SAFE_NO_PAD.decode` of the `base64` crate gives for a string: the
/// bytes, or `None` where it refuses the input.
pub uninterp spec fn base64_url_decode(s: Seq<char>) -> Option<Seq<u8>>;

/// Decodes with `base64::engine::general_purpose::URL_SAFE_NO_PAD.decode`. The
/// contract names the result (`base64_url_decode`) and states nothing of the
/// decoding itself.
#[verifier::external_body]
fn decode_base64_url(s: &str) -> (r: Option<Vec<u8>>)
    ensures
        match r {
            Some(b) => base64_url_decode(s@) == Some(b@),
            None => base64_url_decode(s@) is None,
        },
{
    base64::engine::general_purpose::URL_SAFE_NO_PAD.decode(s).ok()
}

/// Converts bytes with `String::from_utf8`: the contract states that it
/// succeeds exactly on valid UTF-8 and then holds the decoded text.
#[verifier::external_body]
fn utf8_string(bytes: Vec<u8>) -> (r: Option<String>)
    ensures
        r is Some <==> valid_utf8(bytes@),
        r is Some ==> r->0@ == decode_utf8(bytes@),
{
    String::from_utf8(bytes).ok()
}

/// The value of the first pair whose key is `key`.
pub open spec fn first_pair_value(pairs: Seq<(Seq<char>, Seq<char>)>, key: Seq<char>) -> Option<Seq<char>>
    decreases pairs.len(),
{
    if pairs.len() == 0 {
        None
    } else if pairs[0].0 == key {
        Some(pairs[0].1)
    } else {
        first_pair_value(pairs.skip(1), key)
    }
}

/// Computes `first_pair_value`.
fn first_pair_value_exec(pairs: &Vec<(String, String)>, key: &[char]) -> (r: Option<String>)
    ensures
        opt_chars(r) == first_pair_value(pairs@.map_values(|p: (String, String)| (p.0@, p.1@)), key@),
{
    let ghost all = pairs@.map_values(|p: (String, String)| (p.0@, p.1@));
    let mut i: usize = 0;
    assert(all.skip(0) =~= all);
    while i < pairs.len()
        invariant
            i <= pairs@.len(),
            all == pairs@.map_values(|p: (String, String)| (p.0@, p.1@)),
            first_pair_value(all, key@) == first_pair_value(all.skip(i as int), key@),
        decreases pairs@.len() - i,
    {
        let ghost rest = all.skip(i as int);
        assert(rest[0] == all[i as int]);
        assert(rest.skip(1) =~= all.skip(i + 1));
        if eq_chars(&chars_of(pairs[i].0.as_str()), key) {
            return Some(pairs[i].1.clone());
        }
        i = i + 1;
    }
    None
}

/// Whether a scheme is `http` or `https`.
pub open spec fn is_web_scheme(s: Seq<char>) -> bool {
    s == "http"@ || s == "https"@
}

fn is_web_scheme_exec(s: &str) -> (b: bool)
    ensures
        b == is_web_scheme(s@),
{
    let c = chars_of(s);
    let http = chars_of("http");
    let https = chars_of("https");
    eq_chars(&c, &http) || eq_chars(&c, &https)
}

/// Where a link of a Bing result page leads: for a link on a `bing.com` domain,
/// `Some((true, e))` with `e` the value of its first `u` query pair without a
/// leading `a1` (none without such a pair); for another link with a web
/// scheme, `Some((false, s))` with `s` its serialization; else none.
pub open spec fn spec_bing_route(u: (Seq<char>, Seq<char>, Option<Seq<char>>, Seq<(Seq<char>, Seq<char>)>)) -> Option<(bool, Seq<char>)> {
    if u.2 is Some && ends_with(u.2->0, "bing.com"@) {
        match first_pair_value(u.3, "u"@) {
            Some(e) => Some((true, if starts_with(e, "a1"@) { e.skip(2) } else { e })),
            None => None,
        }
    } else if is_web_scheme(u.1) {
        Some((false, u.0))
    } else {
        None
    }
}

/// How a parsed link of a Bing result page is followed.
#[derive(Clone, Debug)]
pub enum BingRoute {
    /// A Bing redirect: the encoded destination.
    Encoded(String),
    /// A direct web address.
    Direct(String),
    /// Nothing to follow.
    Refused,
}

/// A route by its view.
pub open spec fn route_view(r: BingRoute) -> Option<(bool, Seq<char>)> {
    match r {
        BingRoute::Encoded(e) => Some((true, e@)),
        BingRoute::Direct(s) => Some((false, s@)),
        BingRoute::Refused => None,
    }
}

/// Decides how a parsed link of a Bing result page is followed.
pub fn bing_route(parsed: &UrlParts) -> (r: BingRoute)
    ensures
        route_view(r) == spec_bing_route(url_view(*parsed)),
{
    let on_bing = match &parsed.domain {
        Some(d) => ends_with_exec(&chars_of(d.as_str()), &chars_of("bing.com")),
        None => false,
    };
    if on_bing {
        match first_pair_value_exec(&parsed.query_pairs, &chars_of("u")) {
            Some(e) => {
                let ec = chars_of(e.as_str());
                let a1 = chars_of("a1");
                proof {
                    reveal_strlit("a1");
                }
                if starts_with_exec(&ec, &a1) {
                    BingRoute::Encoded(string_of(&slice_vec(&ec, 2, ec.len())))
                } else {
                    BingRoute::Encoded(e)
                }
            },
            None => BingRoute::Refused,
        }
    } else if is_web_scheme_exec(parsed.scheme.as_str()) {
        BingRoute::Direct(parsed.serialization.clone())
    } else {
        BingRoute::Refused
    }
}

/// The serialization of a parsed destination with a web scheme.
pub open spec fn spec_web_destination(u: (Seq<char>, Seq<char>, Option<Seq<char>>, Seq<(Seq<char>, Seq<char>)>)) -> Option<Seq<char>> {
    if is_web_scheme(u.1) {
        Some(u.0)
    } else {
        None
    }
}

/// The address of a parsed destination, when it has a web scheme.
pub fn web_destination(dest: &UrlParts) -> (r: Option<String>)
    ensures
        opt_chars(r) == spec_web_destination(url_view(*dest)),
{
    if is_web_scheme_exec(dest.scheme.as_str()) {
        Some(dest.serialization.clone())
    } else {
        None
    }
}

/// The address a link of a Bing result page leads to: a direct web address as
/// the URL parser writes it, or the web address that a Bing redirect encodes
/// (URL-safe base64 of UTF-8 text after an optional `a1`).
pub open spec fn spec_bing_result_url(href: Seq<char>) -> Option<Seq<char>> {
    match url_parse(href) {
        None => None,
        Some(u) => match spec_bing_route(u) {
            None => None,
            Some((false, s)) => Some(s),
            Some((true, e)) => match base64_url_decode(e) {
                None => None,
                Some(bytes) => if valid_utf8(bytes) {
                    match url_parse(decode_utf8(bytes)) {
                        Some(d) => spec_web_destination(d),
                        None => None,
                    }
                } else {
                    None
                },
            },
        },
    }
}

/// The address a link of a Bing result page leads to.
pub fn bing_result_url(href: &str) -> (r: Option<String>)
    ensures
        opt_chars(r) == spec_bing_result_url(href@),
{
    let parsed = match parse_url(href) {
        Some(p) => p,
        None => return None,
    };
    match bing_route(&parsed) {
        BingRoute::Refused => None,
        BingRoute::Direct(s) => Some(s),
        BingRoute::Encoded(e) => {
            let bytes = match decode_base64_url(e.as_str()) {
                Some(b) => b,
                None => return None,
            };
            let text = match utf8_string(bytes) {
                Some(t) => t,
                None => return None,
            };
            match parse_url(text.as_str()) {
                Some(d) => web_destination(&d),
                None => None,
            }
        },
    }
}

/// The words of an element's text, separated by single spaces.
pub fn element_text(raw: &str) -> (r: String)
    ensures
        r@ == squash_ws(raw@),
{
    string_of(&squash_ws_exec(&chars_of(raw)))
}

/// The result that a Bing block gives: none without a title link or a
/// followable address, or when title and snippet are both empty; else the
/// title and snippet words (joined by `": "` when both are there) and the
/// address.
pub open spec fn block_entry(b: (Option<(Option<Seq<char>>, Seq<char>)>, Option<Seq<char>>)) -> Option<(Seq<char>, Seq<char>)> {
    match b.0 {
        None => None,
        Some((href, raw_title)) => match href {
            None => None,
            Some(h) => match spec_bing_result_url(h) {
                None => None,
                Some(url) => {
                    let t = squash_ws(raw_title);
                    let sn = match b.1 {
                        Some(x) => squash_ws(x),
                        None => seq![],
                    };
                    if t.len() > 0 && sn.len() > 0 {
                        Some((t + ": "@ + sn, url))
                    } else if t.len() > 0 {
                        Some((t, url))
                    } else if sn.len() > 0 {
                        Some((sn, url))
                    } else {
                        None
                    }
                },
            },
        },
    }
}

/// The results of Bing blocks, added to `acc` in order until it holds `max`.
pub open spec fn bing_results_from(
    blocks: Seq<(Option<(Option<Seq<char>>, Seq<char>)>, Option<Seq<char>>)>,
    max: nat,
    acc: Seq<(Seq<char>, Seq<char>)>,
) -> Seq<(Seq<char>, Seq<char>)>
    decreases blocks.len(),
{
    if blocks.len() == 0 || acc.len() >= max {
        acc
    } else {
        let acc1 = match block_entry(blocks[0]) {
            Some(e) => acc.push(e),
            None => acc,
        };
        bing_results_from(blocks.skip(1), max, acc1)
    }
}

/// The result of one Bing block.
fn block_result(b: &BingBlock) -> (r: Option<SearchResult>)
    ensures
        match r {
            Some(x) => block_entry(block_view(*b)) == Some((x.text@, x.url@)),
            None => block_entry(block_view(*b)) is None,
        },
{
    let (href, raw_title) = match &b.title {
        Some(t) => t,
        None => return None,
    };
    let href = match href {
        Some(h) => h,
        None => return None,
    };
    let url = match bing_result_url(href.as_str()) {
        Some(u) => u,
        None => return None,
    };
    let t = element_text(raw_title.as_str());
    let sn = match &b.snippet {
        Some(x) => element_text(x.as_str()),
        None => String::new(),
    };
    let tl = chars_of(t.as_str()).len();
    let sl = chars_of(sn.as_str()).len();
    if tl > 0 && sl > 0 {
        let mut c = chars_of(t.as_str());
        append_str(&mut c, ": ");
        append_str(&mut c, sn.as_str());
        Some(SearchResult { text: string_of(&c), url })
    } else if tl > 0 {
        Some(SearchResult { text: t, url })
    } else if sl > 0 {
        Some(SearchResult { text: sn, url })
    } else {
        None
    }
}

/// The results of Bing blocks, at most `max_results`.
pub fn bing_results(blocks: &Vec<BingBlock>, max_results: usize) -> (r: Vec<SearchResult>)
    ensures
        results_view(r@) == bing_results_from(
            blocks@.map_values(|b: BingBlock| block_view(b)),
            max_results as nat,
            seq![],
        ),
{
    let ghost all = blocks@.map_values(|b: BingBlock| block_view(b));
    let mut results: Vec<SearchResult> = Vec::new();
    let mut i: usize = 0;
    assert(all.skip(0) =~= all);
    assert(results_view(results@) =~= Seq::<(Seq<char>, Seq<char>)>::empty());
    while i < blocks.len()
        invariant
            i <= blocks@.len(),
            all == blocks@.map_values(|b: BingBlock| block_view(b)),
            bing_results_from(all, max_results as nat, seq![]) == bing_results_from(
                all.skip(i as int),
                max_results as nat,
                results_view(results@),
            ),
        decreases blocks@.len() - i,
    {
        let ghost rest = all.skip(i as int);
        assert(rest[0] == block_view(blocks@[i as int]));
        assert(rest.skip(1) =~= all.skip(i + 1));
        if results.len() >= max_results {
            return results;
        }
        match block_result(&blocks[i]) {
            Some(x) => {
                let ghost before = results_view(results@);
                let ghost e = (x.text@, x.url@);
                results.push(x);
                assert(results_view(results@) =~= before.push(e));
            },
            None => {},
        }
        i = i + 1;
    }
    assert(all.skip(i as int) =~= Seq::<(Option<(Option<Seq<char>>, Seq<char>)>, Option<Seq<char>>)>::empty());
    results
}

/// The results that a Bing result page lists: its `li.b_algo` blocks, with the
/// `href` and text of their first `h2 a` and the text of their first
/// `.b_caption p`.
pub open spec fn spec_parse_bing_search_results(html: Seq<char>, max: nat) -> Seq<(Seq<char>, Seq<char>)> {
    bing_results_from(bing_blocks(html, "li.b_algo"@, "h2 a"@, "href"@, ".b_caption p"@), max, seq![])
}

/// The results that a Bing result page lists, at most `max_results`.
pub fn parse_bing_search_results(html: &str, max_results: usize) -> (r: Vec<SearchResult>)
    ensures
        results_view(r@) == spec_parse_bing_search_results(html@, max_results as nat),
{
    let blocks = select_blocks(html, "li.b_algo", "h2 a", "href", ".b_caption p");
    bing_results(&blocks, max_results)
}

/// The search section of a prompt's context: the results listed under the
/// query, none without results.
pub fn results_section(query: &str, results: &[SearchResult]) -> (r: Option<String>)
    ensures
        match r {
            Some(x) => results@.len() > 0 && x@ == spec_format_web_context(query@, results_view(results@)),
            None => results@.len() == 0,
        },
{
    if results.len() == 0 {
        None
    } else {
        Some(format_web_context(query, results))
    }
}

/// What follows the Bing search of a prompt.
#[derive(Clone, Debug)]
pub enum SearchStep {
    /// Bing found results: this is the search section.
    Section(String),
    /// Bing failed or found nothing: ask the instant-answer API.
    TryInstantAnswer,
}

/// Decides what follows the Bing search of `query`: its results listed under
/// the query when it found some; otherwise the instant-answer API is asked.
pub fn after_bing(query: &str, outcome: &Result<Vec<SearchResult>, String>) -> (r: SearchStep)
    ensures
        match outcome {
            Ok(rs) => if rs@.len() > 0 {
                r matches SearchStep::Section(x) && x@ == spec_format_web_context(query@, results_view(rs@))
            } else {
                r is TryInstantAnswer
            },
            Err(_) => r is TryInstantAnswer,
        },
{
    match outcome {
        Ok(rs) => match results_section(query, rs.as_slice()) {
            Some(x) => SearchStep::Section(x),
            None => SearchStep::TryInstantAnswer,
        },
        Err(_) => SearchStep::TryInstantAnswer,
    }
}

/// The search section after the instant-answer API: its results listed under
/// the query, none when it found nothing, its error when it failed.
pub fn after_instant_answer(query: &str, outcome: &Result<Vec<SearchResult>, String>) -> (r: Result<
    Option<String>,
    String,
>)
    ensures
        match outcome {
            Ok(rs) => match r {
                Ok(Some(x)) => rs@.len() > 0 && x@ == spec_format_web_context(query@, results_view(rs@)),
                Ok(None) => rs@.len() == 0,
                Err(_) => false,
            },
            Err(e) => r matches Err(f) && f@ == e@,
        },
{
    match outcome {
        Ok(rs) => Ok(results_section(query, rs.as_slice())),
        Err(e) => Err(e.clone()),
    }
}

/// The sections that a web context keeps of its two parts: the search section
/// when the search ran and gave one, and the linked-page excerpts when they
/// were gathered and are not empty. A failed part is left out; the other still
/// counts.
pub open spec fn kept_sections(
    search: Option<Result<Option<Seq<char>>, Seq<char>>>,
    links: Option<Result<Seq<char>, Seq<char>>>,
) -> Seq<Seq<char>> {
    let first: Seq<Seq<char>> = match search {
        Some(Ok(Some(x))) => seq![x],
        _ => seq![],
    };
    match links {
        Some(Ok(l)) => if l.len() > 0 {
            first.push(l)
        } else {
            first
        },
        _ => first,
    }
}

/// A failed search or page fetch only drops its own part: the web context is
/// then what it would be had that part not run.
pub proof fn lemma_failures_drop_only_their_part(
    search: Option<Result<Option<Seq<char>>, Seq<char>>>,
    links: Option<Result<Seq<char>, Seq<char>>>,
    e: Seq<char>,
)
    ensures
        kept_sections(Some(Err(e)), links) == kept_sections(None, links),
        kept_sections(search, Some(Err(e))) == kept_sections(search, None),
{
}

/// A search outcome by its view.
pub open spec fn search_outcome_view(o: Option<Result<Option<String>, String>>) -> Option<
    Result<Option<Seq<char>>, Seq<char>>,
> {
    match o {
        Some(Ok(Some(x))) => Some(Ok(Some(x@))),
        Some(Ok(None)) => Some(Ok(None)),
        Some(Err(e)) => Some(Err(e@)),
        None => None,
    }
}

/// A link outcome by its view.
pub open spec fn link_outcome_view(o: Option<Result<String, String>>) -> Option<Result<Seq<char>, Seq<char>>> {
    match o {
        Some(Ok(x)) => Some(Ok(x@)),
        Some(Err(e)) => Some(Err(e@)),
        None => None,
    }
}

/// The web context of a prompt from the outcomes of its search and its linked
/// pages (`None` for a part that did not run): the kept sections joined by
/// blank lines, none when nothing is kept. Failures do not stop the context.
pub fn web_context(
    search: Option<Result<Option<String>, String>>,
    links: Option<Result<String, String>>,
) -> (r: Option<String>)
    ensures
        match r {
            Some(x) => spec_join_sections(kept_sections(search_outcome_view(search), link_outcome_view(links)))
                == Some(x@),
            None => spec_join_sections(kept_sections(search_outcome_view(search), link_outcome_view(links)))
                is None,
        },
{
    let mut sections: Vec<String> = Vec::new();
    match search {
        Some(Ok(Some(x))) => sections.push(x),
        _ => {},
    }
    let ghost first = sections.deep_view();
    match links {
        Some(Ok(l)) => if chars_of(l.as_str()).len() > 0 {
            sections.push(l);
            assert(sections.deep_view() =~= first.push(l@));
        },
        _ => {},
    }
    assert(sections.deep_view() =~= kept_sections(search_outcome_view(search), link_outcome_view(links)));
    join_sections(&sections)
}

} // verus!
