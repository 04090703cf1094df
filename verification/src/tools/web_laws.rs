//! What the web tools ask for and what they give of an answer.
use vstd::prelude::*;
use vstd::string::*;
use vstd::utf8::encode_utf8;

use crate::json::Tree;
use crate::text::truncated;
use crate::text_laws::lemma_cut_texts;
use crate::tool::error::ErrorView;
use crate::tools::web::{
    decoded, encoded, entities_decoded, fetch_plan, fetch_result, lemma_query_reads_back,
    matched_links, page_text, results_tree, search_result, search_url, unreserved,
};

verus! {

/// What is searched for can be read back from the address of the search.
pub proof fn lemma_search_address(query: Seq<char>)
    ensures
        ({
            let url = search_url(query);
            let front = "https://html.duckduckgo.com/html/?q="@;
            &&& url.len() >= front.len()
            &&& url.take(front.len() as int) == front
            &&& decoded(url.skip(front.len() as int)) == encode_utf8(query)
        }),
{
    let url = search_url(query);
    let front = "https://html.duckduckgo.com/html/?q="@;
    assert(url.take(front.len() as int) =~= front);
    assert(url.skip(front.len() as int) =~= encoded(encode_utf8(query)));
    lemma_query_reads_back(encode_utf8(query));
}

/// Bytes are written in an address one behind the other: one that stands for itself as it is, and any
/// other as a percent sign and two digits.
pub proof fn lemma_bytes_in_addresses(a: Seq<u8>, b: Seq<u8>, one: u8)
    ensures
        encoded(a + b) == encoded(a) + encoded(b),
        unreserved(one) ==> encoded(seq![one]) == seq![one as char],
        !unreserved(one) ==> encoded(seq![one]).len() == 3 && encoded(seq![one])[0] == '%',
        encoded(seq![32u8]) == seq!['%', '2', '0'],
        encoded(seq![97u8]) == seq!['a'],
    decreases b.len(),
{
    assert(seq![one].drop_last() =~= Seq::empty());
    assert(seq![one].last() == one);
    assert(encoded(Seq::empty()) =~= Seq::empty());
    assert(encoded(seq![one]) =~= crate::tools::web::encoded_byte(one));
    assert(seq![32u8].drop_last() =~= Seq::empty());
    assert(seq![32u8].last() == 32);
    assert(encoded(seq![32u8]) =~= seq!['%', '2', '0']);
    assert(seq![97u8].drop_last() =~= Seq::empty());
    assert(seq![97u8].last() == 97);
    assert(encoded(seq![97u8]) =~= seq!['a']);
    if b.len() == 0 {
        assert(a + b =~= a);
        assert(encoded(a) + encoded(b) =~= encoded(a));
    } else {
        lemma_bytes_in_addresses(a, b.drop_last(), one);
        assert((a + b).drop_last() =~= a + b.drop_last());
        assert((a + b).last() == b.last());
        assert(encoded(a + b) =~= encoded(a) + encoded(b));
    }
}

/// The results of a search are the first links, at most eight, each with its own address and with what
/// is shown of it as text.
pub proof fn lemma_results_of_links(links: Seq<(Seq<char>, Seq<char>)>)
    ensures
        results_tree(links) matches Tree::Array(list) && list.len() <= 8 && (links.len() <= 8
            ==> list.len() == links.len()) && (links.len() > 8 ==> list.len() == 8) && (forall|i: int|
            0 <= i < list.len() ==> (#[trigger] list[i]).text_at("url"@) == Some(links[i].0)
                && list[i].text_at("title"@) == Some(entities_decoded(page_text(links[i].1)))),
{
    reveal_strlit("url");
    reveal_strlit("title");
    assert("url"@.len() != "title"@.len());
    let list = results_tree(links)->Array_0;
    assert forall|i: int| 0 <= i < list.len() implies (#[trigger] list[i]).text_at("url"@) == Some(
        links[i].0,
    ) && list[i].text_at("title"@) == Some(entities_decoded(page_text(links[i].1))) by {
        assert(list[i] == crate::tools::web::result_tree(links[i]));
    }
}

/// The links that matches stand for have the first group as their address and the second as what is
/// shown, one link for each match and in order.
pub proof fn lemma_links_of_matches(matches: Seq<Seq<Option<Seq<char>>>>, i: int)
    requires
        0 <= i < matches.len(),
        matches[i].len() >= 3,
    ensures
        matched_links(matches).len() == matches.len(),
        matches[i][1] matches Some(url) ==> matched_links(matches)[i].0 == url,
        matches[i][2] matches Some(title) ==> matched_links(matches)[i].1 == title,
        matches[i][1] is None ==> matched_links(matches)[i].0.len() == 0,
{
}

/// What the tools give tells what was asked for. A page is given as text, cut behind its first
/// characters where it is long; a status that is no success is an error that tells it.
pub proof fn lemma_web_results(url: Seq<char>, status: Seq<char>, body: Seq<char>, query: Seq<char>)
    ensures
        fetch_result(url, true, status, body) matches Ok(t) && t.text_at("url"@) == Some(url) && (
        t.text_at("text"@) matches Some(s) && s.len() <= 8001 && (page_text(body).len() <= 8000
            ==> s == page_text(body)) && (page_text(body).len() > 8000 ==> s.drop_last()
            == page_text(body).take(8000))),
        fetch_result(url, false, status, body) matches Err(e) && crate::text::holds(
            e.message,
            status,
        ),
        search_result(query, body).text_at("query"@) == Some(query),
        search_result(query, body).at("results"@) matches Some(Tree::Array(_)),
{
    reveal_strlit("url");
    reveal_strlit("text");
    reveal_strlit("query");
    reveal_strlit("results");
    assert("url"@.len() != "text"@.len() && "query"@.len() != "results"@.len());
    lemma_cut_texts(page_text(body), 8000);
    if page_text(body).len() > 8000 {
        assert(truncated(page_text(body), 8000).drop_last() =~= page_text(body).take(8000));
    }
    let none: Seq<char> = Seq::empty();
    crate::text_laws::lemma_part_is_held("HTTP "@, status, none);
    assert("HTTP "@ + status + none =~= "HTTP "@ + status);
}

/// A page is asked for at the address that is given, and without one nothing is asked for.
pub proof fn lemma_address_is_kept(args: Tree, url: Seq<char>)
    ensures
        args.at("url"@) == Some(Tree::Text(url)) ==> fetch_plan(args) == Ok::<Seq<char>, ErrorView>(
            url,
        ),
        !(args.at("url"@) matches Some(Tree::Text(_))) ==> fetch_plan(args) is Err,
{
}

} // verus!
