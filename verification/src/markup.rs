//! What the regular expressions for web pages match, and what is left of a text without it.
use vstd::prelude::*;
use vstd::string::*;

use crate::text::{begins, find, occurs_at, span};

verus! {

/// What is looked for on a page.
pub enum Markup {
    /// A block of the given name, with all that it holds, in letters of any case.
    Block(Seq<char>),
    /// A comment.
    Comment,
    /// A tag.
    Tag,
    /// Blanks and tabs, as many as stand side by side.
    Blank,
}

/// What a regular expression looks for, where it is one of those for pages.
pub open spec fn looked_for(source: Seq<char>) -> Option<Markup> {
    if source == "(?is)<script[^>]*>.*?</script>"@ {
        Some(Markup::Block("script"@))
    } else if source == "(?is)<style[^>]*>.*?</style>"@ {
        Some(Markup::Block("style"@))
    } else if source == "(?is)<noscript[^>]*>.*?</noscript>"@ {
        Some(Markup::Block("noscript"@))
    } else if source == "(?s)<!--.*?-->"@ {
        Some(Markup::Comment)
    } else if source == "(?s)<[^>]+>"@ {
        Some(Markup::Tag)
    } else if source == "[ \\t]+"@ {
        Some(Markup::Blank)
    } else {
        None
    }
}

/// Whether a character is the given one, where the case of letters does not count. The long s is an
/// s, and the sign for kelvin a k.
pub open spec fn alike(c: char, w: char) -> bool {
    ||| c == w
    ||| 'a' <= w <= 'z' && c as int == w as int - 32
    ||| w == 's' && c == '\u{17f}'
    ||| w == 'k' && c == '\u{212a}'
}

/// Whether a word of small letters and signs stands in a text at a position, in letters of any case.
pub open spec fn word_at(s: Seq<char>, word: Seq<char>, i: int) -> bool {
    &&& 0 <= i
    &&& i + word.len() <= s.len()
    &&& forall|j: int| 0 <= j < word.len() ==> alike(#[trigger] s[i + j], word[j])
}

/// The first position from `i` on where a word stands in a text, in letters of any case.
pub open spec fn find_word(s: Seq<char>, word: Seq<char>, i: int) -> Option<int>
    decreases s.len() - i + 1,
{
    if i < 0 || i + word.len() > s.len() {
        None
    } else if word_at(s, word, i) {
        Some(i)
    } else {
        find_word(s, word, i + 1)
    }
}

/// Whether a character is a blank or a tab.
pub open spec fn blank(c: char) -> bool {
    c == ' ' || c == '\t'
}

/// How many blanks and tabs a text begins with.
pub open spec fn blanks(s: Seq<char>) -> nat
    decreases s.len(),
{
    if s.len() > 0 && blank(s[0]) {
        1 + blanks(s.drop_first())
    } else {
        0
    }
}

/// The length of what is looked for at the beginning of a text, where it stands there. A block goes
/// from the opening tag to the first closing tag behind it, a comment to its first end, a tag to the
/// first closing bracket, where anything stands before it.
pub open spec fn length_at(m: Markup, s: Seq<char>) -> Option<int> {
    match m {
        Markup::Block(name) => if word_at(s, "<"@ + name, 0) {
            match find(s, ">"@, 1 + name.len() as int) {
                Some(b) => match find_word(s, "</"@ + name + ">"@, b + 1) {
                    Some(c) => Some(c + name.len() + 3),
                    None => None,
                },
                None => None,
            }
        } else {
            None
        },
        Markup::Comment => if begins(s, "<!--"@) {
            match find(s, "-->"@, 4) {
                Some(c) => Some(c + 3),
                None => None,
            }
        } else {
            None
        },
        Markup::Tag => if s.len() >= 2 && s[0] == '<' && s[1] != '>' {
            match find(s, ">"@, 2) {
                Some(b) => Some(b + 1),
                None => None,
            }
        } else {
            None
        },
        Markup::Blank => if blanks(s) > 0 {
            Some(blanks(s) as int)
        } else {
            None
        },
    }
}

/// A text with everything that is looked for replaced, from left to right.
pub open spec fn cut(m: Markup, s: Seq<char>, with: Seq<char>) -> Seq<char>
    decreases s.len(),
{
    if s.len() == 0 {
        s
    } else {
        match length_at(m, s) {
            Some(n) => if 0 < n <= s.len() {
                with + cut(m, s.skip(n), with)
            } else {
                s
            },
            None => seq![s[0]] + cut(m, s.drop_first(), with),
        }
    }
}

// ---------- the links on a page of results ----------

/// A link on a page of results.
#[verifier::ext_equal]
pub struct Link {
    /// All of it.
    pub whole: Seq<char>,
    /// The address.
    pub url: Seq<char>,
    /// What is shown of it.
    pub title: Seq<char>,
}

/// The mark of a link on a page of results.
pub open spec fn link_mark() -> Seq<char> {
    "class=\"result__a\""@
}

/// The link at the beginning of a text, where its address is given by an attribute at position `k`:
/// the address goes to the next quotation mark, the tag to the next closing bracket, and what is
/// shown to the first closing tag, on one line.
pub open spec fn link_with(s: Seq<char>, k: int) -> Option<Link> {
    if !occurs_at(s, "href=\""@, k) {
        None
    } else {
        match find(s, "\""@, k + 6) {
            Some(q) => if q == k + 6 {
                None
            } else {
                match find(s, ">"@, q + 1) {
                    Some(e) => match find(s, "</a>"@, e + 1) {
                        Some(c) => if s.subrange(e + 1, c).contains('\n') {
                            None
                        } else {
                            Some(
                                Link {
                                    whole: s.take(c + 4),
                                    url: s.subrange(k + 6, q),
                                    title: s.subrange(e + 1, c),
                                },
                            )
                        },
                        None => None,
                    },
                    None => None,
                }
            },
            None => None,
        }
    }
}

/// The link at the beginning of a text whose address is given last, at position `k` or before it.
pub open spec fn link_back(s: Seq<char>, k: int) -> Option<Link>
    decreases k + 1,
{
    if k < link_mark().len() || k < 0 {
        None
    } else {
        match link_with(s, k) {
            Some(l) => Some(l),
            None => link_back(s, k - 1),
        }
    }
}

/// The link at the beginning of a text, where one stands there. The attribute with its address
/// stands in the same tag as the mark.
pub open spec fn link_at(s: Seq<char>) -> Option<Link> {
    if begins(s, link_mark()) {
        let n = link_mark().len() as int;
        link_back(s, n + span(s.skip(n), '>'))
    } else {
        None
    }
}

/// The links in a text, from left to right.
pub open spec fn links_in(s: Seq<char>) -> Seq<Link>
    decreases s.len(),
{
    if s.len() == 0 {
        Seq::empty()
    } else {
        match link_at(s) {
            Some(l) => if 0 < l.whole.len() <= s.len() {
                seq![l] + links_in(s.skip(l.whole.len() as int))
            } else {
                Seq::empty()
            },
            None => links_in(s.drop_first()),
        }
    }
}

/// What is in front of the first place where something is looked for stays.
pub proof fn lemma_cut_keeps(m: Markup, x: Seq<char>, y: Seq<char>, with: Seq<char>)
    requires
        forall|i: int| 0 <= i < x.len() ==> length_at(m, #[trigger] (x + y).skip(i)) is None,
    ensures
        cut(m, x + y, with) == x + cut(m, y, with),
    decreases x.len(),
{
    let s = x + y;
    if x.len() == 0 {
        assert(s =~= y);
        assert(x + cut(m, y, with) =~= cut(m, y, with));
    } else {
        let rest = x.drop_first();
        assert(s.skip(0) =~= s);
        assert(length_at(m, s) is None);
        assert(s.drop_first() =~= rest + y);
        assert forall|i: int| 0 <= i < rest.len() implies length_at(
            m,
            #[trigger] (rest + y).skip(i),
        ) is None by {
            assert((rest + y).skip(i) =~= s.skip(i + 1));
        }
        lemma_cut_keeps(m, rest, y, with);
        assert(s[0] == x[0]);
        assert(seq![x[0]] + (rest + cut(m, y, with)) =~= x + cut(m, y, with));
    }
}

/// What is looked for is replaced where it stands, and what is behind it is gone on with.
pub proof fn lemma_cut_replaces(m: Markup, x: Seq<char>, y: Seq<char>, with: Seq<char>)
    requires
        x.len() > 0,
        length_at(m, x + y) == Some(x.len() as int),
    ensures
        cut(m, x + y, with) == with + cut(m, y, with),
{
    assert((x + y).skip(x.len() as int) =~= y);
}

/// The first place where a word stands is what is found.
pub proof fn lemma_first_word(s: Seq<char>, word: Seq<char>, i: int, k: int)
    requires
        0 <= i <= k,
        word_at(s, word, k),
        forall|j: int| i <= j < k ==> !#[trigger] word_at(s, word, j),
    ensures
        find_word(s, word, i) == Some(k),
    decreases k - i,
{
    if i < k {
        assert(!word_at(s, word, i));
        lemma_first_word(s, word, i + 1, k);
    }
}

} // verus!
