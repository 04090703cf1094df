//! The web as tools: fetching a page as text, and searching.
use vstd::prelude::*;
use vstd::string::*;
use vstd::utf8::encode_utf8;

use crate::json::{Json, Tree, object};
use crate::markup::{Markup, cut, links_in, looked_for};
use crate::pattern::{
    capture_groups, compile, link_groups, regex_groups, regex_replaced, regex_source, replace_all,
};
use crate::text::{concat2, replace, replaced, trim, trimmed, truncate, truncated};
use crate::tool::call::{CallView, ToolCallContext};
use crate::tool::description::{DescriptionView, ToolDescription};
use crate::tool::error::{ErrorView, ToolError, failed};
use crate::tool::registry::Tool;
use crate::tool::stream::result_view;
use crate::tools::files::plan_view;
use crate::tools::schema::{word_trees, word_views, words};

verus! {

// ---------- addresses ----------

/// Whether a byte stands for itself in a query.
pub open spec fn unreserved(b: u8) -> bool {
    48 <= b <= 57 || 65 <= b <= 90 || 97 <= b <= 122 || b == 45 || b == 95 || b == 46 || b == 126
}

/// A hexadecimal digit, in upper case.
pub open spec fn hex_digit(d: u8) -> char {
    if d < 10 {
        (48 + d) as char
    } else {
        (55 + d) as char
    }
}

/// One byte in a query: itself, or a percent sign and two digits.
pub open spec fn encoded_byte(b: u8) -> Seq<char> {
    if unreserved(b) {
        seq![b as char]
    } else {
        seq!['%', hex_digit(b / 16), hex_digit(b % 16)]
    }
}

/// Bytes in a query.
pub open spec fn encoded(bytes: Seq<u8>) -> Seq<char>
    decreases bytes.len(),
{
    if bytes.len() == 0 {
        Seq::empty()
    } else {
        encoded(bytes.drop_last()) + encoded_byte(bytes.last())
    }
}

fn hex(d: u8) -> (c: char)
    requires
        d < 16,
    ensures
        c == hex_digit(d),
{
    if d < 10 {
        (48 + d) as char
    } else {
        (55 + d) as char
    }
}

/// A text in a query: the bytes of its UTF-8 form.
pub fn url_encode(s: &str) -> (out: String)
    ensures
        out@ == encoded(encode_utf8(s@)),
{
    let bytes = s.as_bytes();
    let ghost all = encode_utf8(s@);
    let mut out = String::new();
    let mut i: usize = 0;
    assert(out@ =~= encoded(all.take(0)));
    while i < bytes.len()
        invariant
            i <= bytes@.len(),
            all == bytes@,
            out@ == encoded(all.take(i as int)),
        decreases bytes@.len() - i,
    {
        proof {
            assert(all.take(i + 1).drop_last() =~= all.take(i as int));
            assert(all.take(i + 1).last() == all[i as int]);
        }
        let ghost before = out@;
        let b = bytes[i];
        if (48 <= b && b <= 57) || (65 <= b && b <= 90) || (97 <= b && b <= 122) || b == 45 || b
            == 95 || b == 46 || b == 126 {
            out.push(b as char);
            assert(out@ =~= before + encoded_byte(b));
        } else {
            out.push('%');
            out.push(hex(b / 16));
            out.push(hex(b % 16));
            assert(out@ =~= before + encoded_byte(b));
        }
        i = i + 1;
    }
    assert(all.take(i as int) =~= all);
    out
}

/// The value of a hexadecimal digit.
pub open spec fn hex_value(c: char) -> int {
    if c as int <= 57 {
        c as int - 48
    } else {
        c as int - 55
    }
}

/// The bytes that a text in a query stands for.
pub open spec fn decoded(s: Seq<char>) -> Seq<u8>
    decreases s.len(),
{
    if s.len() == 0 {
        Seq::empty()
    } else if s.len() >= 3 && s[s.len() - 3] == '%' {
        decoded(s.take(s.len() - 3)).push(
            (16 * hex_value(s[s.len() - 2]) + hex_value(s[s.len() - 1])) as u8,
        )
    } else {
        decoded(s.drop_last()).push(s.last() as u8)
    }
}

proof fn lemma_hex(d: u8)
    requires
        d < 16,
    ensures
        hex_value(hex_digit(d)) == d,
        hex_digit(d) != '%',
{
}

/// Whether a percent sign stands at most where its two digits follow.
pub open spec fn closed_query(s: Seq<char>) -> bool {
    &&& s.len() >= 1 ==> s[s.len() - 1] != '%'
    &&& s.len() >= 2 ==> s[s.len() - 2] != '%'
}

/// Nothing is lost in a query: the bytes can be read back from it.
pub proof fn lemma_query_reads_back(bytes: Seq<u8>)
    ensures
        decoded(encoded(bytes)) == bytes,
        closed_query(encoded(bytes)),
    decreases bytes.len(),
{
    if bytes.len() > 0 {
        let front = bytes.drop_last();
        let b = bytes.last();
        lemma_query_reads_back(front);
        let e = encoded(front);
        let s = encoded(bytes);
        let n = s.len() as int;
        if unreserved(b) {
            assert(s =~= e.push(b as char));
            assert(s.drop_last() =~= e);
            if n >= 3 {
                assert(s[n - 3] == e[e.len() - 2]);
            }
            if n >= 2 {
                assert(s[n - 2] == e[e.len() - 1]);
            }
        } else {
            lemma_hex(b / 16);
            lemma_hex(b % 16);
            assert(s[n - 3] == '%' && s[n - 2] == hex_digit(b / 16) && s[n - 1] == hex_digit(
                b % 16,
            ));
            assert(s.take(n - 3) =~= e);
            assert(16 * (b / 16) + b % 16 == b);
        }
        assert(front.push(b) =~= bytes);
    } else {
        assert(bytes =~= Seq::empty());
    }
}

// ---------- pages ----------

/// The regular expressions with which pages are read.
#[derive(Debug)]
pub struct WebPatterns {
    script: regex::Regex,
    style: regex::Regex,
    noscript: regex::Regex,
    comment: regex::Regex,
    tag: regex::Regex,
    blank: regex::Regex,
    link: regex::Regex,
}

/// The texts of the regular expressions with which pages are read.
#[verifier::ext_equal]
pub struct PatternsView {
    pub script: Seq<char>,
    pub style: Seq<char>,
    pub noscript: Seq<char>,
    pub comment: Seq<char>,
    pub tag: Seq<char>,
    pub blank: Seq<char>,
    pub link: Seq<char>,
}

impl View for WebPatterns {
    type V = PatternsView;

    closed spec fn view(&self) -> PatternsView {
        PatternsView {
            script: regex_source(self.script),
            style: regex_source(self.style),
            noscript: regex_source(self.noscript),
            comment: regex_source(self.comment),
            tag: regex_source(self.tag),
            blank: regex_source(self.blank),
            link: regex_source(self.link),
        }
    }
}

/// What each of the regular expressions is.
pub open spec fn page_patterns() -> PatternsView {
    PatternsView {
        script: "(?is)<script[^>]*>.*?</script>"@,
        style: "(?is)<style[^>]*>.*?</style>"@,
        noscript: "(?is)<noscript[^>]*>.*?</noscript>"@,
        comment: "(?s)<!--.*?-->"@,
        tag: "(?s)<[^>]+>"@,
        blank: "[ \\t]+"@,
        link: "class=\"result__a\"[^>]*href=\"([^\"]+)\"[^>]*>(.*?)</a>"@,
    }
}

/// Whether a message says why one of the regular expressions cannot be made.
pub closed spec fn refused(m: String) -> bool {
    exists|source: &str|
        page_patterns().holds(source@) && #[trigger] call_ensures(
            compile,
            (source,),
            Err::<regex::Regex, String>(m),
        )
}

impl PatternsView {
    /// Whether a text is one of the regular expressions.
    pub open spec fn holds(self, source: Seq<char>) -> bool {
        ||| source == self.script
        ||| source == self.style
        ||| source == self.noscript
        ||| source == self.comment
        ||| source == self.tag
        ||| source == self.blank
        ||| source == self.link
    }
}

impl WebPatterns {
    /// Each is what its name says.
    #[verifier::type_invariant]
    spec fn exact(self) -> bool {
        self@ == page_patterns()
    }

    /// Makes the regular expressions. That they can be made is for the `regex` crate to say.
    pub fn compile() -> (r: Result<WebPatterns, String>)
        ensures
            match r {
                Ok(p) => p@ == page_patterns(),
                Err(m) => refused(m),
            },
    {
        let script = match compile("(?is)<script[^>]*>.*?</script>") {
            Ok(re) => re,
            Err(e) => return Err(e),
        };
        let style = match compile("(?is)<style[^>]*>.*?</style>") {
            Ok(re) => re,
            Err(e) => return Err(e),
        };
        let noscript = match compile("(?is)<noscript[^>]*>.*?</noscript>") {
            Ok(re) => re,
            Err(e) => return Err(e),
        };
        let comment = match compile("(?s)<!--.*?-->") {
            Ok(re) => re,
            Err(e) => return Err(e),
        };
        let tag = match compile("(?s)<[^>]+>") {
            Ok(re) => re,
            Err(e) => return Err(e),
        };
        let blank = match compile("[ \\t]+") {
            Ok(re) => re,
            Err(e) => return Err(e),
        };
        let link = match compile("class=\"result__a\"[^>]*href=\"([^\"]+)\"[^>]*>(.*?)</a>") {
            Ok(re) => re,
            Err(e) => return Err(e),
        };
        Ok(WebPatterns { script, style, noscript, comment, tag, blank, link })
    }
}

/// A text with the named characters of HTML written out.
pub open spec fn entities_decoded(s: Seq<char>) -> Seq<char> {
    replaced(
        replaced(
            replaced(
                replaced(
                    replaced(replaced(replaced(s, "&nbsp;"@, " "@), "&amp;"@, "&"@), "&lt;"@, "<"@),
                    "&gt;"@,
                    ">"@,
                ),
                "&quot;"@,
                "\""@,
            ),
            "&#39;"@,
            "'"@,
        ),
        "&apos;"@,
        "'"@,
    )
}

/// The text of a page: without scripts, styles, comments and tags, with the named characters
/// written out and blanks taken together.
pub open spec fn page_text(html: Seq<char>) -> Seq<char> {
    let bare = regex_replaced(
        "(?s)<[^>]+>"@,
        regex_replaced(
            "(?s)<!--.*?-->"@,
            regex_replaced(
                "(?is)<noscript[^>]*>.*?</noscript>"@,
                regex_replaced(
                    "(?is)<style[^>]*>.*?</style>"@,
                    regex_replaced("(?is)<script[^>]*>.*?</script>"@, html, " "@),
                    " "@,
                ),
                " "@,
            ),
            ""@,
        ),
        " "@,
    );
    regex_replaced("[ \\t]+"@, trimmed(entities_decoded(bare)), " "@)
}

/// The text of a page, by what is looked for on it: blocks of scripts and styles, comments and tags
/// are taken out, the named characters are written out, and blanks are taken together.
pub open spec fn shown_text(html: Seq<char>) -> Seq<char> {
    let a = cut(Markup::Block("script"@), html, " "@);
    let b = cut(Markup::Block("style"@), a, " "@);
    let c = cut(Markup::Block("noscript"@), b, " "@);
    let d = cut(Markup::Comment, c, ""@);
    let e = cut(Markup::Tag, d, " "@);
    cut(Markup::Blank, trimmed(entities_decoded(e)), " "@)
}

/// Writes out the named characters of HTML.
pub fn decode_entities(s: &str) -> (r: String)
    ensures
        r@ == entities_decoded(s@),
{
    proof {
        reveal_strlit("&nbsp;");
        reveal_strlit("&amp;");
        reveal_strlit("&lt;");
        reveal_strlit("&gt;");
        reveal_strlit("&quot;");
        reveal_strlit("&#39;");
        reveal_strlit("&apos;");
    }
    let t0 = replace(s, "&nbsp;", " ");
    let t1 = replace(t0.as_str(), "&amp;", "&");
    let t2 = replace(t1.as_str(), "&lt;", "<");
    let t3 = replace(t2.as_str(), "&gt;", ">");
    let t4 = replace(t3.as_str(), "&quot;", "\"");
    let t5 = replace(t4.as_str(), "&#39;", "'");
    let t6 = replace(t5.as_str(), "&apos;", "'");
    t6
}

proof fn lemma_page_patterns()
    ensures
        looked_for(page_patterns().script) == Some(Markup::Block("script"@)),
        looked_for(page_patterns().style) == Some(Markup::Block("style"@)),
        looked_for(page_patterns().noscript) == Some(Markup::Block("noscript"@)),
        looked_for(page_patterns().comment) == Some(Markup::Comment),
        looked_for(page_patterns().tag) == Some(Markup::Tag),
        looked_for(page_patterns().blank) == Some(Markup::Blank),
        !" "@.contains('$'),
        !""@.contains('$'),
{
    reveal_strlit("(?is)<script[^>]*>.*?</script>");
    reveal_strlit("(?is)<style[^>]*>.*?</style>");
    reveal_strlit("(?is)<noscript[^>]*>.*?</noscript>");
    reveal_strlit("(?s)<!--.*?-->");
    reveal_strlit("(?s)<[^>]+>");
    reveal_strlit("[ \\t]+");
    reveal_strlit(" ");
    reveal_strlit("");
    assert("(?is)<script[^>]*>.*?</script>"@.len() == 30);
    assert("(?is)<style[^>]*>.*?</style>"@.len() == 28);
    assert("(?is)<noscript[^>]*>.*?</noscript>"@.len() == 34);
    assert("(?s)<!--.*?-->"@.len() == 14);
    assert("(?s)<[^>]+>"@.len() == 11);
    assert("[ \\t]+"@.len() == 6);
}

impl WebPatterns {
    /// The text of a page.
    pub fn html_to_text(&self, html: &str) -> (r: String)
        ensures
            r@ == page_text(html@),
            r@ == shown_text(html@),
    {
        proof {
            use_type_invariant(self);
            lemma_page_patterns();
        }
        let a = replace_all(&self.script, html, " ");
        let b = replace_all(&self.style, a.as_str(), " ");
        let c = replace_all(&self.noscript, b.as_str(), " ");
        let d = replace_all(&self.comment, c.as_str(), "");
        let e = replace_all(&self.tag, d.as_str(), " ");
        let f = decode_entities(e.as_str());
        let g = trim(f.as_str());
        replace_all(&self.blank, g.as_str(), " ")
    }
}

/// What a group of a match holds; the empty text where it holds nothing.
pub open spec fn group_text(groups: Seq<Option<Seq<char>>>, i: int) -> Seq<char> {
    if 0 <= i < groups.len() {
        match groups[i] {
            Some(s) => s,
            None => Seq::empty(),
        }
    } else {
        Seq::empty()
    }
}

/// The links that matches stand for: the first group and the second of each.
pub open spec fn matched_links(matches: Seq<Seq<Option<Seq<char>>>>) -> Seq<
    (Seq<char>, Seq<char>),
> {
    Seq::new(matches.len(), |i: int| (group_text(matches[i], 1), group_text(matches[i], 2)))
}

/// The links on a page of results: the address, and what is shown of it.
pub open spec fn result_links(html: Seq<char>) -> Seq<(Seq<char>, Seq<char>)> {
    matched_links(
        regex_groups("class=\"result__a\"[^>]*href=\"([^\"]+)\"[^>]*>(.*?)</a>"@, html),
    )
}

/// The links on a page of results, by what is looked for on it.
pub open spec fn shown_links(html: Seq<char>) -> Seq<(Seq<char>, Seq<char>)> {
    let found = links_in(html);
    Seq::new(found.len(), |i: int| (found[i].url, found[i].title))
}

fn group(groups: &Vec<Option<String>>, i: usize) -> (r: String)
    ensures
        r@ == group_text(groups.deep_view(), i as int),
{
    let ghost all = groups.deep_view();
    if i < groups.len() {
        assert(all[i as int] == groups@[i as int].deep_view());
        match &groups[i] {
            Some(s) => s.clone(),
            None => String::new(),
        }
    } else {
        String::new()
    }
}

/// The links that matches stand for.
pub fn links_of(matches: &Vec<Vec<Option<String>>>) -> (links: Vec<(String, String)>)
    ensures
        links.deep_view() == matched_links(matches.deep_view()),
{
    let ghost all = matches.deep_view();
    let mut links: Vec<(String, String)> = Vec::new();
    let mut i: usize = 0;
    while i < matches.len()
        invariant
            i <= matches@.len(),
            all == matches.deep_view(),
            links@.len() == i,
            forall|k: int|
                0 <= k < i ==> (#[trigger] links@[k]).deep_view() == (
                    group_text(all[k], 1),
                    group_text(all[k], 2),
                ),
        decreases matches@.len() - i,
    {
        assert(all[i as int] == matches@[i as int].deep_view());
        let link = (group(&matches[i], 1), group(&matches[i], 2));
        links.push(link);
        i = i + 1;
    }
    assert(links.deep_view() =~= matched_links(all));
    links
}

/// One result of a search.
pub open spec fn result_tree(link: (Seq<char>, Seq<char>)) -> Tree {
    object().with("title"@, Tree::Text(entities_decoded(page_text(link.1)))).with(
        "url"@,
        Tree::Text(link.0),
    )
}

/// The results among links: the first eight.
pub open spec fn results_tree(links: Seq<(Seq<char>, Seq<char>)>) -> Tree {
    let n = if links.len() > 8 {
        8
    } else {
        links.len()
    };
    Tree::Array(Seq::new(n, |i: int| result_tree(links[i])))
}

impl WebPatterns {
    /// The results among links.
    pub fn results(&self, links: &Vec<(String, String)>) -> (r: Json)
        ensures
            r@ == results_tree(links.deep_view()),
            r@ matches Tree::Array(list) && forall|i: int|
                0 <= i < list.len() ==> (#[trigger] list[i]).text_at("title"@) == Some(
                    entities_decoded(shown_text(links@[i].1@)),
                ),
    {
        proof {
            reveal_strlit("title");
            reveal_strlit("url");
            assert("title"@.len() != "url"@.len());
        }
        let mut out: Vec<Json> = Vec::new();
        let mut i: usize = 0;
        while i < links.len() && i < 8
            invariant
                i <= links@.len(),
                i <= 8,
                out@.len() == i,
                forall|k: int|
                    0 <= k < i ==> (#[trigger] out@[k])@ == result_tree(links@[k].deep_view()),
                forall|k: int|
                    0 <= k < i ==> (#[trigger] out@[k])@.text_at("title"@) == Some(
                        entities_decoded(shown_text(links@[k].1@)),
                    ),
                "title"@ != "url"@,
            decreases links@.len() - i,
        {
            let page = self.html_to_text(links[i].1.as_str());
            let title = decode_entities(page.as_str());
            let item = Json::object().with("title", Json::Text(title)).with(
                "url",
                Json::text(links[i].0.as_str()),
            );
            out.push(item);
            i = i + 1;
        }
        let ghost list = out.deep_view();
        assert(list =~= results_tree(links.deep_view())->Array_0);
        assert forall|k: int| 0 <= k < list.len() implies (#[trigger] list[k]).text_at("title"@)
            == Some(entities_decoded(shown_text(links@[k].1@))) by {
            assert(list[k] == out@[k]@);
        }
        Json::array(out)
    }

    /// The results on a page of a search engine.
    pub fn parse_ddg_results(&self, html: &str) -> (r: Json)
        ensures
            r@ == results_tree(result_links(html@)),
            r@ == results_tree(shown_links(html@)),
    {
        proof {
            use_type_invariant(self);
            let found = links_in(html@);
            assert(matched_links(link_groups(found)) =~= shown_links(html@));
        }
        let links = links_of(&capture_groups(&self.link, html));
        self.results(&links)
    }
}

/// Fetches an address and gives its text.
#[derive(Debug, Clone, Copy, PartialEq, Eq, Structural)]
pub struct WebFetchTool;

impl Tool for WebFetchTool {
    open spec fn named(&self) -> Seq<char> {
        "web_fetch"@
    }

    open spec fn described(&self) -> DescriptionView {
        DescriptionView {
            name: "web_fetch"@,
            description: "Fetch a URL and return its text content (HTML is stripped)."@,
            parameters: object().with("type"@, Tree::Text("object"@)).with(
                "properties"@,
                object().with(
                    "url"@,
                    object().with("type"@, Tree::Text("string"@)).with(
                        "description"@,
                        Tree::Text("the URL to fetch"@),
                    ),
                ),
            ).with("required"@, Tree::Array(word_trees(seq!["url"@]))),
        }
    }

    open spec fn listed(&self, ctx: CallView) -> bool {
        true
    }

    fn id(&self) -> (r: String) {
        "web_fetch".to_owned()
    }

    fn description(&self) -> (r: ToolDescription) {
        let list1: Vec<&'static str> = vec!["url"];
        assert(word_views(list1@) =~= seq!["url"@]);
        let parameters = Json::object().with("type", Json::text("object")).with(
            "properties",
            Json::object().with(
                "url",
                Json::object().with("type", Json::text("string")).with(
                    "description",
                    Json::text("the URL to fetch"),
                ),
            ),
        ).with("required", words(list1));
        ToolDescription::new(
            "web_fetch",
            "Fetch a URL and return its text content (HTML is stripped).",
            parameters,
        )
    }

    fn should_list(&self, ctx: &ToolCallContext) -> (r: bool) {
        true
    }
}

/// The address that is to be fetched, or why none is.
pub open spec fn fetch_plan(args: Tree) -> Result<Seq<char>, ErrorView> {
    match args.text_at("url"@) {
        Some(url) => Ok(url),
        None => Err(failed("缺少 url 参数"@)),
    }
}

/// What the tool gives, from the status and the body of the answer.
pub open spec fn fetch_result(url: Seq<char>, success: bool, status: Seq<char>, body: Seq<char>) -> Result<
    Tree,
    ErrorView,
> {
    if success {
        Ok(
            object().with("url"@, Tree::Text(url)).with(
                "text"@,
                Tree::Text(truncated(page_text(body), 8000)),
            ),
        )
    } else {
        Err(failed("HTTP "@ + status))
    }
}

impl WebFetchTool {
    /// Decides what is to be fetched.
    pub fn plan(&self, args: &Json) -> (r: Result<String, ToolError>)
        ensures
            plan_view(r) == fetch_plan(args@),
    {
        match args.str_at("url") {
            Some(url) => Ok(url.to_owned()),
            None => Err(ToolError::execution("缺少 url 参数")),
        }
    }

    /// What the tool gives, from the status and the body of the answer.
    pub fn finish(
        &self,
        patterns: &WebPatterns,
        url: &str,
        success: bool,
        status: &str,
        body: &str,
    ) -> (r: Result<Json, ToolError>)
        ensures
            result_view(r) == fetch_result(url@, success, status@, body@),
            r matches Ok(j) ==> j@.at("text"@) == Some(Tree::Text(truncated(shown_text(body@), 8000))),
    {
        if success {
            let text = patterns.html_to_text(body);
            let shown = truncate(text.as_str(), 8000);
            Ok(Json::object().with("url", Json::text(url)).with("text", Json::Text(shown)))
        } else {
            let message = concat2("HTTP ", status);
            Err(ToolError::execution(message.as_str()))
        }
    }

    /// What is said where the address could not be fetched.
    pub fn fetch_failed(&self, error: &str) -> (r: ToolError)
        ensures
            r@ == failed("抓取失败："@ + error@),
    {
        let message = concat2("抓取失败：", error);
        ToolError::execution(message.as_str())
    }
}

/// Searches the web.
#[derive(Debug, Clone, Copy, PartialEq, Eq, Structural)]
pub struct WebSearchTool;

impl Tool for WebSearchTool {
    open spec fn named(&self) -> Seq<char> {
        "web_search"@
    }

    open spec fn described(&self) -> DescriptionView {
        DescriptionView {
            name: "web_search"@,
            description: "Search the web and return the top results (title, URL, snippet)."@,
            parameters: object().with("type"@, Tree::Text("object"@)).with(
                "properties"@,
                object().with(
                    "query"@,
                    object().with("type"@, Tree::Text("string"@)).with(
                        "description"@,
                        Tree::Text("the search query"@),
                    ),
                ),
            ).with("required"@, Tree::Array(word_trees(seq!["query"@]))),
        }
    }

    open spec fn listed(&self, ctx: CallView) -> bool {
        true
    }

    fn id(&self) -> (r: String) {
        "web_search".to_owned()
    }

    fn description(&self) -> (r: ToolDescription) {
        let list1: Vec<&'static str> = vec!["query"];
        assert(word_views(list1@) =~= seq!["query"@]);
        let parameters = Json::object().with("type", Json::text("object")).with(
            "properties",
            Json::object().with(
                "query",
                Json::object().with("type", Json::text("string")).with(
                    "description",
                    Json::text("the search query"),
                ),
            ),
        ).with("required", words(list1));
        ToolDescription::new(
            "web_search",
            "Search the web and return the top results (title, URL, snippet).",
            parameters,
        )
    }

    fn should_list(&self, ctx: &ToolCallContext) -> (r: bool) {
        true
    }
}

/// The address of a search.
pub open spec fn search_url(query: Seq<char>) -> Seq<char> {
    "https://html.duckduckgo.com/html/?q="@ + encoded(encode_utf8(query))
}

/// What the tool gives, from the page of results.
pub open spec fn search_result(query: Seq<char>, body: Seq<char>) -> Tree {
    object().with("query"@, Tree::Text(query)).with("results"@, results_tree(result_links(body)))
}

impl WebSearchTool {
    /// Decides what is to be searched for, and where: the query and the address.
    pub fn plan(&self, args: &Json) -> (r: Result<(String, String), ToolError>)
        ensures
            match args@.text_at("query"@) {
                Some(query) => r matches Ok(x) && x.0@ == query && x.1@ == search_url(query),
                None => r matches Err(e) && e@ == failed("缺少 query 参数"@),
            },
    {
        match args.str_at("query") {
            Some(query) => {
                let q = url_encode(query);
                Ok(
                    (
                        query.to_owned(),
                        concat2("https://html.duckduckgo.com/html/?q=", q.as_str()),
                    ),
                )
            },
            None => Err(ToolError::execution("缺少 query 参数")),
        }
    }

    /// What the tool gives, from the page of results.
    pub fn finish(&self, patterns: &WebPatterns, query: &str, body: &str) -> (r: Json)
        ensures
            r@ == search_result(query@, body@),
            r@.at("results"@) == Some(results_tree(shown_links(body@))),
    {
        let results = patterns.parse_ddg_results(body);
        Json::object().with("query", Json::text(query)).with("results", results)
    }

    /// What is said where the search could not be made.
    pub fn search_failed(&self, error: &str) -> (r: ToolError)
        ensures
            r@ == failed("搜索失败："@ + error@),
    {
        let message = concat2("搜索失败：", error);
        ToolError::execution(message.as_str())
    }
}

/// What the tools call themselves where they ask for pages.
pub fn user_agent() -> (r: &'static str)
    ensures
        r@ == "Mozilla/5.0 (compatible; rh-harness/0.1)"@,
{
    "Mozilla/5.0 (compatible; rh-harness/0.1)"
}

} // verus!
