//! What is shown of a page: its words, and nothing of its scripts, styles, comments and tags.
use vstd::prelude::*;
use vstd::string::*;

use crate::markup::{
    Link, Markup, alike, blank, blanks, cut, lemma_cut_keeps, lemma_cut_replaces, lemma_first_word,
    length_at, link_at, link_back, link_mark, link_with, links_in, word_at,
};
use crate::text::{
    begins, holds, lemma_span, occurs_at, replaced, span, trimmed, trimmed_end, trimmed_start,
    whitespace,
};
use crate::text_laws::{
    lemma_first_is_found, lemma_held_behind, lemma_held_in_front, lemma_nothing_replaced,
    lemma_replaced_in_place,
};
use crate::tools::web::{entities_decoded, shown_text};

verus! {

/// A piece of a page.
pub enum Piece {
    /// Text between the tags.
    Words(Seq<char>),
    /// A block whose content is not shown: the name and how it is written in its two tags, what
    /// follows the name in the opening tag, and what the block holds.
    Block {
        name: Seq<char>,
        open: Seq<char>,
        attributes: Seq<char>,
        body: Seq<char>,
        close: Seq<char>,
    },
    /// A comment.
    Comment(Seq<char>),
    /// A tag, without its brackets.
    Tag(Seq<char>),
}

/// Whether a text is a word, in letters of any case.
pub open spec fn spells(s: Seq<char>, word: Seq<char>) -> bool {
    s.len() == word.len() && word_at(s, word, 0)
}

/// The number of the step in which blocks of a name are taken out, from none: scripts first, then
/// styles, then what is for pages without scripts.
pub open spec fn block_step(name: Seq<char>) -> Option<int> {
    if name == "script"@ {
        Some(0)
    } else if name == "style"@ {
        Some(1)
    } else if name == "noscript"@ {
        Some(2)
    } else {
        None
    }
}

/// Whether a text begins with the name of a block, in letters of any case.
pub open spec fn names_block(s: Seq<char>) -> bool {
    word_at(s, "script"@, 0) || word_at(s, "style"@, 0) || word_at(s, "noscript"@, 0)
}

/// Whether a piece is what it is said to be. The body of a script may hold anything but a closing
/// tag for a script; that of a style no bracket.
pub open spec fn proper(p: Piece) -> bool {
    match p {
        Piece::Words(t) => !t.contains('<'),
        Piece::Block { name, open, attributes, body, close } => {
            &&& block_step(name) is Some
            &&& spells(open, name)
            &&& spells(close, name)
            &&& !attributes.contains('>')
            &&& forall|i: int| !#[trigger] word_at(body, "</"@ + name + ">"@, i)
            &&& name != "script"@ ==> !attributes.contains('<') && !body.contains('<')
        },
        Piece::Comment(body) => {
            &&& !body.contains('<')
            &&& forall|i: int|
                0 <= i < body.len() ==> !#[trigger] occurs_at(body + "-->"@, "-->"@, i)
        },
        Piece::Tag(inner) => {
            &&& inner.len() > 0
            &&& !inner.contains('<')
            &&& !inner.contains('>')
            &&& !names_block(inner)
            &&& !begins(inner, "!--"@)
        },
    }
}

/// How a piece is written on a page.
pub open spec fn written(p: Piece) -> Seq<char> {
    match p {
        Piece::Words(t) => t,
        Piece::Block { name, open, attributes, body, close } => "<"@ + open + attributes + ">"@
            + body + "</"@ + close + ">"@,
        Piece::Comment(body) => "<!--"@ + body + "-->"@,
        Piece::Tag(inner) => "<"@ + inner + ">"@,
    }
}

/// What is left of a piece after the first steps: a block becomes a blank, a comment nothing, and a
/// tag a blank.
pub open spec fn left(p: Piece, steps: int) -> Seq<char> {
    match p {
        Piece::Block { name, .. } => if block_step(name)->0 < steps {
            " "@
        } else {
            written(p)
        },
        Piece::Comment(_) => if 3 < steps {
            Seq::empty()
        } else {
            written(p)
        },
        Piece::Tag(_) => if 4 < steps {
            " "@
        } else {
            written(p)
        },
        _ => written(p),
    }
}

/// What is left of a page after the first steps.
pub open spec fn page(pieces: Seq<Piece>, steps: int) -> Seq<char>
    decreases pieces.len(),
{
    if pieces.len() == 0 {
        Seq::empty()
    } else {
        left(pieces[0], steps) + page(pieces.drop_first(), steps)
    }
}

/// What is looked for in a step.
pub open spec fn sought(step: int) -> Markup {
    if step == 0 {
        Markup::Block("script"@)
    } else if step == 1 {
        Markup::Block("style"@)
    } else if step == 2 {
        Markup::Block("noscript"@)
    } else if step == 3 {
        Markup::Comment
    } else {
        Markup::Tag
    }
}

/// What takes the place of what is looked for in a step.
pub open spec fn filling(step: int) -> Seq<char> {
    if step == 3 {
        ""@
    } else {
        " "@
    }
}

proof fn lemma_words()
    ensures
        "<"@ =~= seq!['<'],
        "</"@ =~= seq!['<', '/'],
        ">"@ =~= seq!['>'],
        "<!--"@ =~= seq!['<', '!', '-', '-'],
        "!--"@ =~= seq!['!', '-', '-'],
        "-->"@ =~= seq!['-', '-', '>'],
        "script"@ =~= seq!['s', 'c', 'r', 'i', 'p', 't'],
        "style"@ =~= seq!['s', 't', 'y', 'l', 'e'],
        "noscript"@ =~= seq!['n', 'o', 's', 'c', 'r', 'i', 'p', 't'],
        " "@ =~= seq![' '],
        ""@ =~= Seq::empty(),
{
    reveal_strlit("<");
    reveal_strlit("</");
    reveal_strlit(">");
    reveal_strlit("<!--");
    reveal_strlit("!--");
    reveal_strlit("-->");
    reveal_strlit("script");
    reveal_strlit("style");
    reveal_strlit("noscript");
    reveal_strlit(" ");
    reveal_strlit("");
}

/// Nothing but a bracket begins what is looked for.
proof fn lemma_begins_with_bracket(step: int, s: Seq<char>)
    requires
        0 <= step < 5,
        s.len() > 0,
        s[0] != '<',
    ensures
        length_at(sought(step), s) is None,
{
    lemma_words();
    if step < 3 {
        let name = sought(step)->Block_0;
        let word = "<"@ + name;
        if word_at(s, word, 0) {
            assert(alike(s[0int + 0], word[0]));
        }
    } else if step == 3 {
        if begins(s, "<!--"@) {
            assert(s.take(4)[0] == '<');
        }
    }
}

proof fn lemma_no_bracket_stays(step: int, x: Seq<char>, y: Seq<char>, with: Seq<char>)
    requires
        0 <= step < 5,
        !x.contains('<'),
    ensures
        cut(sought(step), x + y, with) == x + cut(sought(step), y, with),
{
    assert forall|i: int| 0 <= i < x.len() implies length_at(
        sought(step),
        #[trigger] (x + y).skip(i),
    ) is None by {
        assert((x + y).skip(i)[0] == x[i]);
        assert(x.contains(x[i]));
        lemma_begins_with_bracket(step, (x + y).skip(i));
    }
    lemma_cut_keeps(sought(step), x, y, with);
}

/// The second character decides whether a block may begin.
proof fn lemma_other_letter(name: Seq<char>, s: Seq<char>)
    requires
        s.len() < 2 || name.len() == 0 || !alike(s[1], name[0]) || (name.len() > 1 && (s.len() < 3
            || !alike(s[2], name[1]))),
        name.len() > 0,
    ensures
        length_at(Markup::Block(name), s) is None,
{
    lemma_words();
    let word = "<"@ + name;
    if word_at(s, word, 0) {
        assert(alike(s[0int + 1], word[1]));
        if name.len() > 1 {
            assert(alike(s[0int + 2], word[2]));
        }
    }
}

/// Brackets of which none begins what is looked for stay.
proof fn lemma_stays(
    step: int,
    x: Seq<char>,
    y: Seq<char>,
    with: Seq<char>,
    a: int,
    b: int,
)
    requires
        0 <= step < 5,
        forall|i: int| 0 <= i < x.len() && x[i] == '<' ==> i == a || i == b,
        0 <= a < x.len(),
        0 <= b < x.len(),
        length_at(sought(step), (x + y).skip(a)) is None,
        length_at(sought(step), (x + y).skip(b)) is None,
    ensures
        cut(sought(step), x + y, with) == x + cut(sought(step), y, with),
{
    assert forall|i: int| 0 <= i < x.len() implies length_at(
        sought(step),
        #[trigger] (x + y).skip(i),
    ) is None by {
        if x[i] != '<' {
            assert((x + y).skip(i)[0] == x[i]);
            lemma_begins_with_bracket(step, (x + y).skip(i));
        }
    }
    lemma_cut_keeps(sought(step), x, y, with);
}

proof fn lemma_block_is_found(p: Piece, y: Seq<char>)
    requires
        proper(p),
        p is Block,
    ensures
        length_at(Markup::Block(p->name), written(p) + y) == Some(written(p).len() as int),
{
    lemma_words();
    match p {
        Piece::Block { name, open, attributes, body, close } => {
            let s = written(p) + y;
            let n = name.len() as int;
            let at = 1 + n + attributes.len();
            let end = at + 1 + body.len();
            assert(name.len() == 6 || name.len() == 5 || name.len() == 8);
            let word = "<"@ + name;
            assert forall|j: int| 0 <= j < word.len() implies alike(#[trigger] s[0 + j], word[j]) by {
                if j > 0 {
                    assert(alike(open[0 + (j - 1)], name[j - 1]));
                    assert(s[j] == open[j - 1]);
                }
            }
            assert(word_at(s, word, 0));
            assert(s[at] == '>');
            assert(s.subrange(at, at + 1) =~= ">"@);
            assert forall|j: int| 1 + n <= j < at implies !#[trigger] occurs_at(s, ">"@, j) by {
                if occurs_at(s, ">"@, j) {
                    assert(s.subrange(j, j + 1)[0] == '>');
                    assert(s[j] == attributes[j - 1 - n]);
                    assert(attributes.contains(attributes[j - 1 - n]));
                }
            }
            lemma_first_is_found(s, ">"@, 1 + n, at);
            let ending = "</"@ + name + ">"@;
            assert forall|j: int| 0 <= j < ending.len() implies alike(
                #[trigger] s[end + j],
                ending[j],
            ) by {
                if 2 <= j < 2 + n {
                    assert(alike(close[0 + (j - 2)], name[j - 2]));
                    assert(s[end + j] == close[j - 2]);
                } else if j < 2 {
                    assert(s[end + j] == "</"@[j]);
                } else {
                    assert(s[end + j] == '>');
                }
            }
            assert(word_at(s, ending, end));
            assert forall|j: int| at + 1 <= j < end implies !#[trigger] word_at(s, ending, j) by {
                if word_at(s, ending, j) {
                    let k = j - at - 1;
                    assert(!word_at(body, ending, k));
                    if j + ending.len() <= end {
                        assert forall|m: int| 0 <= m < ending.len() implies alike(
                            #[trigger] body[k + m],
                            ending[m],
                        ) by {
                            assert(s[j + m] == body[k + m]);
                        }
                        assert(word_at(body, ending, k));
                    } else {
                        let m = end - j;
                        assert(s[j + m] == '<');
                        assert(alike(s[j + m], ending[m]));
                        assert(0 < m < ending.len());
                        assert(!alike('<', ending[m]));
                    }
                }
            }
            lemma_first_word(s, ending, at + 1, end);
            assert(written(p).len() == end + 3 + n);
        },
        _ => {},
    }
}

proof fn lemma_block_stays(p: Piece, step: int, y: Seq<char>, with: Seq<char>)
    requires
        proper(p),
        p is Block,
        0 <= step < block_step(p->name)->0,
    ensures
        cut(sought(step), written(p) + y, with) == written(p) + cut(sought(step), y, with),
{
    lemma_words();
    match p {
        Piece::Block { name, open, attributes, body, close } => {
            let x = written(p);
            let n = name.len() as int;
            let end = 2 + n + attributes.len() + body.len();
            assert(name == "style"@ || name == "noscript"@);
            assert(x[0] == '<');
            assert(alike(open[0int + 0], name[0]));
            assert(alike(open[0int + 1], name[1]));
            assert(x[1] == open[0]);
            assert(x[2] == open[1]);
            assert(x[end] == '<' && x[end + 1] == '/');
            let s = x + y;
            assert(s.skip(0) =~= s);
            assert(s[1] == x[1] && s[2] == x[2]);
            lemma_other_letter(sought(step)->Block_0, s);
            assert(s.skip(end)[1] == '/');
            lemma_other_letter(sought(step)->Block_0, s.skip(end));
            assert forall|i: int| 0 <= i < x.len() && x[i] == '<' implies i == 0 || i == end by {
                if 1 <= i < 1 + n {
                    assert(x[i] == open[i - 1]);
                    assert(alike(open[0 + (i - 1)], name[i - 1]));
                } else if 1 + n <= i < 1 + n + attributes.len() {
                    assert(attributes.contains(attributes[i - 1 - n]));
                } else if 2 + n + attributes.len() <= i < end {
                    assert(body.contains(body[i - 2 - n - attributes.len()]));
                } else if end + 2 <= i < end + 2 + n {
                    assert(x[i] == close[i - end - 2]);
                    assert(alike(close[0 + (i - end - 2)], name[i - end - 2]));
                }
            }
            lemma_stays(step, x, y, with, 0, end);
        },
        _ => {},
    }
}

proof fn lemma_comment_stays(body: Seq<char>, step: int, y: Seq<char>, with: Seq<char>)
    requires
        !body.contains('<'),
        0 <= step < 3,
    ensures
        cut(sought(step), written(Piece::Comment(body)) + y, with) == written(Piece::Comment(body))
            + cut(sought(step), y, with),
{
    lemma_words();
    let x = written(Piece::Comment(body));
    let s = x + y;
    assert(s.skip(0) =~= s);
    assert(x[0] == '<' && x[1] == '!');
    assert(s[1] == '!');
    assert forall|i: int| 0 <= i < x.len() && x[i] == '<' implies i == 0 by {
        if 4 <= i < 4 + body.len() {
            assert(x[i] == body[i - 4]);
            assert(body.contains(body[i - 4]));
        }
    }
    lemma_other_letter(sought(step)->Block_0, s);
    lemma_stays(step, x, y, with, 0, 0);
}

proof fn lemma_comment_is_found(body: Seq<char>, y: Seq<char>)
    requires
        proper(Piece::Comment(body)),
    ensures
        length_at(Markup::Comment, written(Piece::Comment(body)) + y) == Some(
            written(Piece::Comment(body)).len() as int,
        ),
{
    lemma_words();
    let mark = "-->"@;
    let x = written(Piece::Comment(body));
    let s = x + y;
    let t = body + mark;
    let end = 4 + body.len() as int;
    assert(s.take(4) =~= "<!--"@);
    assert(s.subrange(end, end + 3) =~= mark);
    assert forall|j: int| 4 <= j < end implies !#[trigger] occurs_at(s, mark, j) by {
        let k = j - 4;
        assert(!occurs_at(t, mark, k));
        assert(t.subrange(k, k + 3) =~= s.subrange(j, j + 3));
    }
    lemma_first_is_found(s, mark, 4, end);
}

proof fn lemma_tag_is_no_block(inner: Seq<char>, name: Seq<char>, y: Seq<char>)
    requires
        proper(Piece::Tag(inner)),
        block_step(name) is Some,
    ensures
        length_at(Markup::Block(name), written(Piece::Tag(inner)) + y) is None,
{
    lemma_words();
    let s = written(Piece::Tag(inner)) + y;
    let word = "<"@ + name;
    if word_at(s, word, 0) {
        if inner.len() >= name.len() {
            assert forall|j: int| 0 <= j < name.len() implies alike(
                #[trigger] inner[0 + j],
                name[j],
            ) by {
                assert(alike(s[0 + (j + 1)], word[j + 1]));
                assert(s[j + 1] == inner[j]);
            }
            assert(word_at(inner, name, 0));
        } else {
            let m = inner.len() as int;
            assert(alike(s[0 + (m + 1)], word[m + 1]));
            assert(s[m + 1] == '>');
            assert(word[m + 1] == name[m]);
        }
    }
}

proof fn lemma_tag(inner: Seq<char>, step: int, y: Seq<char>, with: Seq<char>)
    requires
        proper(Piece::Tag(inner)),
        0 <= step <= 4,
    ensures
        step < 4 ==> cut(sought(step), written(Piece::Tag(inner)) + y, with) == written(
            Piece::Tag(inner),
        ) + cut(sought(step), y, with),
        step == 4 ==> length_at(Markup::Tag, written(Piece::Tag(inner)) + y) == Some(
            written(Piece::Tag(inner)).len() as int,
        ),
{
    lemma_words();
    let x = written(Piece::Tag(inner));
    let s = x + y;
    let end = 1 + inner.len() as int;
    assert(s.skip(0) =~= s);
    assert(x[0] == '<' && s[1] == inner[0]);
    assert(inner.contains(inner[0]));
    if step < 4 {
        assert forall|i: int| 0 <= i < x.len() && x[i] == '<' implies i == 0 by {
            if 1 <= i < end {
                assert(x[i] == inner[i - 1]);
                assert(inner.contains(inner[i - 1]));
            }
        }
        if step < 3 {
            lemma_tag_is_no_block(inner, sought(step)->Block_0, y);
        } else if begins(s, "<!--"@) {
            let t = s.take(4);
            assert(t[1] == '!' && t[2] == '-' && t[3] == '-');
            assert(s[1] == '!' && s[2] == '-' && s[3] == '-');
            assert(s[end] == '>');
            assert(inner.len() >= 3);
            assert(inner.take(3) =~= "!--"@);
        }
        lemma_stays(step, x, y, with, 0, 0);
    } else {
        assert(s.subrange(end, end + 1) =~= ">"@);
        assert forall|j: int| 2 <= j < end implies !#[trigger] occurs_at(s, ">"@, j) by {
            if occurs_at(s, ">"@, j) {
                assert(s.subrange(j, j + 1)[0] == '>');
                assert(s[j] == inner[j - 1]);
                assert(inner.contains(inner[j - 1]));
            }
        }
        lemma_first_is_found(s, ">"@, 2, end);
    }
}

proof fn lemma_piece(p: Piece, step: int, y: Seq<char>)
    requires
        proper(p),
        0 <= step < 5,
    ensures
        cut(sought(step), left(p, step) + y, filling(step)) == left(p, step + 1) + cut(
            sought(step),
            y,
            filling(step),
        ),
{
    lemma_words();
    let x = left(p, step);
    match p {
        Piece::Words(t) => {
            lemma_no_bracket_stays(step, t, y, filling(step));
        },
        Piece::Block { name, .. } => {
            let own = block_step(name)->0;
            if own < step {
                lemma_no_bracket_stays(step, x, y, filling(step));
            } else if own == step {
                lemma_block_is_found(p, y);
                lemma_cut_replaces(sought(step), x, y, filling(step));
            } else {
                lemma_block_stays(p, step, y, filling(step));
            }
        },
        Piece::Comment(body) => {
            if step == 4 {
                assert(x + y =~= y);
                assert(left(p, 5) + cut(sought(4), y, filling(4)) =~= cut(sought(4), y, filling(4)));
            } else if step == 3 {
                lemma_comment_is_found(body, y);
                lemma_cut_replaces(sought(step), x, y, filling(step));
                assert(filling(3) =~= left(p, 4));
            } else {
                lemma_comment_stays(body, step, y, filling(step));
            }
        },
        Piece::Tag(inner) => {
            lemma_tag(inner, step, y, filling(step));
            if step == 4 {
                lemma_cut_replaces(sought(step), x, y, filling(step));
            }
        },
    }
}

/// Whether all pieces are what they are said to be.
pub open spec fn all_proper(pieces: Seq<Piece>) -> bool {
    forall|i: int| 0 <= i < pieces.len() ==> proper(#[trigger] pieces[i])
}

proof fn lemma_step(pieces: Seq<Piece>, step: int)
    requires
        all_proper(pieces),
        0 <= step < 5,
    ensures
        cut(sought(step), page(pieces, step), filling(step)) == page(pieces, step + 1),
    decreases pieces.len(),
{
    if pieces.len() > 0 {
        let rest = pieces.drop_first();
        assert forall|i: int| 0 <= i < rest.len() implies proper(#[trigger] rest[i]) by {
            assert(rest[i] == pieces[i + 1]);
        }
        lemma_step(rest, step);
        lemma_piece(pieces[0], step, page(rest, step));
    }
}

/// Whether the texts among pieces hold no character that is written by its name.
pub open spec fn all_literal(pieces: Seq<Piece>) -> bool {
    forall|i: int|
        0 <= i < pieces.len() ==> ((#[trigger] pieces[i]) matches Piece::Words(t) ==> !t.contains(
            '&',
        ))
}

proof fn lemma_literal(pieces: Seq<Piece>)
    requires
        all_proper(pieces),
        all_literal(pieces),
    ensures
        !page(pieces, 5).contains('&'),
    decreases pieces.len(),
{
    lemma_words();
    if pieces.len() > 0 {
        let rest = pieces.drop_first();
        assert forall|i: int| 0 <= i < rest.len() implies ((#[trigger] rest[i]) matches Piece::Words(
            t,
        ) ==> !t.contains('&')) by {
            assert(rest[i] == pieces[i + 1]);
        }
        assert forall|i: int| 0 <= i < rest.len() implies proper(#[trigger] rest[i]) by {
            assert(rest[i] == pieces[i + 1]);
        }
        lemma_literal(rest);
        assert(proper(pieces[0]));
        let x = left(pieces[0], 5);
        let s = page(pieces, 5);
        if s.contains('&') {
            let k = choose|k: int| 0 <= k < s.len() && s[k] == '&';
            if k < x.len() {
                assert(x.contains(x[k]));
            } else {
                assert(page(rest, 5).contains(page(rest, 5)[k - x.len()]));
            }
        }
    }
}

/// What is left of a page of such pieces: the texts between the tags as they are, a blank for each
/// block and each tag, nothing for a comment, and then the blanks taken together.
pub proof fn lemma_page_is_shown(pieces: Seq<Piece>)
    requires
        all_proper(pieces),
        all_literal(pieces),
    ensures
        shown_text(page(pieces, 0)) == cut(Markup::Blank, trimmed(page(pieces, 5)), " "@),
{
    lemma_step(pieces, 0);
    lemma_step(pieces, 1);
    lemma_step(pieces, 2);
    lemma_step(pieces, 3);
    lemma_step(pieces, 4);
    lemma_literal(pieces);
    lemma_nothing_named(page(pieces, 5));
}

proof fn lemma_not_held(s: Seq<char>, name: Seq<char>, r: Seq<char>)
    requires
        !s.contains('&'),
        name.len() > 0,
        name[0] == '&',
    ensures
        replaced(s, name, r) == s,
{
    assert forall|i: int| !occurs_at(s, name, i) by {
        if occurs_at(s, name, i) {
            assert(s.subrange(i, i + name.len())[0] == '&');
            assert(s.contains(s[i]));
        }
    }
    lemma_nothing_replaced(s, name, r);
}

proof fn lemma_names()
    ensures
        "&nbsp;"@ =~= seq!['&', 'n', 'b', 's', 'p', ';'],
        "&amp;"@ =~= seq!['&', 'a', 'm', 'p', ';'],
        "&lt;"@ =~= seq!['&', 'l', 't', ';'],
        "&gt;"@ =~= seq!['&', 'g', 't', ';'],
        "&quot;"@ =~= seq!['&', 'q', 'u', 'o', 't', ';'],
        "&#39;"@ =~= seq!['&', '#', '3', '9', ';'],
        "&apos;"@ =~= seq!['&', 'a', 'p', 'o', 's', ';'],
{
    reveal_strlit("&nbsp;");
    reveal_strlit("&amp;");
    reveal_strlit("&lt;");
    reveal_strlit("&gt;");
    reveal_strlit("&quot;");
    reveal_strlit("&#39;");
    reveal_strlit("&apos;");
}

/// A text without characters that are written by their names stays as it is.
pub proof fn lemma_nothing_named(s: Seq<char>)
    requires
        !s.contains('&'),
    ensures
        entities_decoded(s) == s,
{
    lemma_names();
    lemma_not_held(s, "&nbsp;"@, " "@);
    lemma_not_held(s, "&amp;"@, "&"@);
    lemma_not_held(s, "&lt;"@, "<"@);
    lemma_not_held(s, "&gt;"@, ">"@);
    lemma_not_held(s, "&quot;"@, "\""@);
    lemma_not_held(s, "&#39;"@, "'"@);
    lemma_not_held(s, "&apos;"@, "'"@);
}

// ---------- words ----------

/// Whether a text is a word: it is not empty, and nothing in it is white space.
pub open spec fn is_word(w: Seq<char>) -> bool {
    &&& w.len() > 0
    &&& forall|i: int| 0 <= i < w.len() ==> !whitespace(#[trigger] w[i])
}

proof fn lemma_word_at_end(s: Seq<char>, w: Seq<char>, k: int)
    requires
        is_word(w),
        occurs_at(s, w, k),
    ensures
        occurs_at(trimmed_end(s), w, k),
    decreases s.len(),
{
    if whitespace(s.last()) {
        let front = s.drop_last();
        assert(s.subrange(k, k + w.len())[w.len() - 1] == s[k + w.len() - 1]);
        assert(!whitespace(w[w.len() - 1]));
        assert(k + w.len() <= front.len());
        assert(front.subrange(k, k + w.len()) =~= s.subrange(k, k + w.len()));
        lemma_word_at_end(front, w, k);
    }
}

proof fn lemma_word_at_start(s: Seq<char>, w: Seq<char>, k: int)
    requires
        is_word(w),
        occurs_at(s, w, k),
    ensures
        holds(trimmed_start(s), w),
    decreases s.len(),
{
    if whitespace(s[0]) {
        let rest = s.drop_first();
        assert(s.subrange(k, k + w.len())[0] == s[k]);
        assert(!whitespace(w[0]));
        assert(rest.subrange(k - 1, k - 1 + w.len()) =~= s.subrange(k, k + w.len()));
        lemma_word_at_start(rest, w, k - 1);
    }
}

proof fn lemma_blanks(s: Seq<char>)
    ensures
        blanks(s) <= s.len(),
        forall|j: int| 0 <= j < blanks(s) ==> blank(#[trigger] s[j]),
    decreases s.len(),
{
    if s.len() > 0 && blank(s[0]) {
        let rest = s.drop_first();
        lemma_blanks(rest);
        assert forall|j: int| 0 <= j < blanks(s) implies blank(#[trigger] s[j]) by {
            if j > 0 {
                assert(rest[j - 1] == s[j]);
            }
        }
    }
}

proof fn lemma_begun_word(s: Seq<char>, w: Seq<char>, with: Seq<char>)
    requires
        begins(s, w),
        forall|i: int| 0 <= i < w.len() ==> !whitespace(#[trigger] w[i]),
    ensures
        begins(cut(Markup::Blank, s, with), w),
    decreases w.len(),
{
    let t = cut(Markup::Blank, s, with);
    if w.len() == 0 {
        assert(t.take(0) =~= w);
    } else {
        let rest = s.drop_first();
        let u = w.drop_first();
        assert(s.take(w.len() as int)[0] == s[0]);
        assert(!whitespace(w[0]));
        assert(!blank(s[0]));
        assert(rest.take(u.len() as int) =~= s.take(w.len() as int).drop_first());
        assert forall|i: int| 0 <= i < u.len() implies !whitespace(#[trigger] u[i]) by {
            assert(u[i] == w[i + 1]);
        }
        lemma_begun_word(rest, u, with);
        let v = cut(Markup::Blank, rest, with);
        assert(t == seq![s[0]] + v);
        assert(t.take(w.len() as int) =~= seq![w[0]] + v.take(u.len() as int));
        assert(w =~= seq![w[0]] + u);
    }
}

proof fn lemma_word_among_blanks(s: Seq<char>, w: Seq<char>, k: int, with: Seq<char>)
    requires
        is_word(w),
        occurs_at(s, w, k),
    ensures
        holds(cut(Markup::Blank, s, with), w),
    decreases s.len(),
{
    let t = cut(Markup::Blank, s, with);
    if k == 0 {
        assert(s.take(w.len() as int) =~= s.subrange(0, w.len() as int));
        lemma_begun_word(s, w, with);
        assert(t.subrange(0, w.len() as int) =~= t.take(w.len() as int));
        assert(occurs_at(t, w, 0));
    } else {
        lemma_blanks(s);
        let n = blanks(s) as int;
        if n > 0 {
            assert(s.subrange(k, k + w.len())[0] == s[k]);
            assert(!whitespace(w[0]));
            if k < n {
                assert(blank(s[k]));
            }
            let rest = s.skip(n);
            assert(rest.subrange(k - n, k - n + w.len()) =~= s.subrange(k, k + w.len()));
            lemma_word_among_blanks(rest, w, k - n, with);
            lemma_held_behind(with, cut(Markup::Blank, rest, with), w);
        } else {
            let rest = s.drop_first();
            assert(rest.subrange(k - 1, k - 1 + w.len()) =~= s.subrange(k, k + w.len()));
            lemma_word_among_blanks(rest, w, k - 1, with);
            lemma_held_behind(seq![s[0]], cut(Markup::Blank, rest, with), w);
        }
    }
}

proof fn lemma_word_on_page(pieces: Seq<Piece>, i: int, w: Seq<char>)
    requires
        0 <= i < pieces.len(),
        pieces[i] matches Piece::Words(t) && holds(t, w),
    ensures
        holds(page(pieces, 5), w),
    decreases pieces.len(),
{
    let rest = pieces.drop_first();
    if i == 0 {
        lemma_held_in_front(left(pieces[0], 5), page(rest, 5), w);
    } else {
        assert(rest[i - 1] == pieces[i]);
        lemma_word_on_page(rest, i - 1, w);
        lemma_held_behind(left(pieces[0], 5), page(rest, 5), w);
    }
}

/// Every word of every text between the tags of a page is shown, whatever scripts, styles, comments
/// and tags stand in front of it and behind it.
pub proof fn lemma_every_word_is_shown(pieces: Seq<Piece>, i: int, w: Seq<char>)
    requires
        all_proper(pieces),
        all_literal(pieces),
        0 <= i < pieces.len(),
        pieces[i] matches Piece::Words(t) && holds(t, w),
        is_word(w),
    ensures
        holds(shown_text(page(pieces, 0)), w),
{
    lemma_page_is_shown(pieces);
    lemma_word_on_page(pieces, i, w);
    let s = page(pieces, 5);
    let k = choose|k: int| occurs_at(s, w, k);
    lemma_word_at_start(s, w, k);
    let t = trimmed_start(s);
    let m = choose|m: int| occurs_at(t, w, m);
    lemma_word_at_end(t, w, m);
    lemma_word_among_blanks(trimmed(s), w, m, " "@);
}

/// A script, from its opening tag to its closing tag.
pub open spec fn script_text(body: Seq<char>) -> Seq<char> {
    "<script>"@ + body + "</script>"@
}

/// A script ends at its first closing tag: what stands between two scripts is shown, word by word,
/// whatever the scripts hold.
pub proof fn lemma_script_ends_at_its_first_closing_tag(
    pre: Seq<char>,
    first: Seq<char>,
    between: Seq<char>,
    second: Seq<char>,
    post: Seq<char>,
    w: Seq<char>,
)
    requires
        !pre.contains('<') && !pre.contains('&'),
        !between.contains('<') && !between.contains('&'),
        !post.contains('<') && !post.contains('&'),
        forall|i: int| !#[trigger] word_at(first, "</script>"@, i),
        forall|i: int| !#[trigger] word_at(second, "</script>"@, i),
        is_word(w),
        holds(between, w),
    ensures
        holds(
            shown_text(pre + script_text(first) + between + script_text(second) + post),
            w,
        ),
{
    lemma_words();
    reveal_strlit("<script>");
    reveal_strlit("</script>");
    assert("</script>"@ =~= "</"@ + "script"@ + ">"@);
    let a = lemma_plain_script(first);
    let b = lemma_plain_script(second);
    let pieces = seq![Piece::Words(pre), a, Piece::Words(between), b, Piece::Words(post)];
    let whole = pre + script_text(first) + between + script_text(second) + post;
    let p4 = pieces.drop_first().drop_first().drop_first().drop_first();
    assert(p4.drop_first() =~= Seq::empty());
    reveal_with_fuel(page, 6);
    assert(page(pieces, 0) =~= whole);
    assert forall|i: int| 0 <= i < pieces.len() implies proper(#[trigger] pieces[i]) by {}
    assert(pieces[2] == Piece::Words(between));
    lemma_every_word_is_shown(pieces, 2, w);
}

proof fn lemma_plain_script(body: Seq<char>) -> (p: Piece)
    requires
        forall|i: int| !#[trigger] word_at(body, "</"@ + "script"@ + ">"@, i),
    ensures
        proper(p),
        p is Block,
        p->name == "script"@,
        left(p, 0) == script_text(body),
{
    lemma_words();
    reveal_strlit("<script>");
    reveal_strlit("</script>");
    let name = "script"@;
    let none: Seq<char> = Seq::empty();
    let p = Piece::Block { name, open: name, attributes: none, body, close: name };
    assert(written(p) =~= script_text(body));
    p
}

// ---------- named characters and blanks ----------

proof fn lemma_named(a: Seq<char>, name: Seq<char>, b: Seq<char>, r: Seq<char>)
    requires
        !a.contains('&'),
        !b.contains('&'),
        name.len() > 0,
        name[0] == '&',
    ensures
        replaced(a + name + b, name, r) == a + r + b,
{
    let s = a + name + b;
    assert forall|j: int| 0 <= j < a.len() implies !#[trigger] occurs_at(s, name, j) by {
        if occurs_at(s, name, j) {
            assert(s.subrange(j, j + name.len())[0] == '&');
            assert(a.contains(a[j]));
        }
    }
    lemma_replaced_in_place(a, name, b, r);
    lemma_not_held(b, name, r);
}

proof fn lemma_other_name(a: Seq<char>, name: Seq<char>, b: Seq<char>, other: Seq<char>, r: Seq<char>)
    requires
        !a.contains('&'),
        !b.contains('&'),
        name.len() > 2,
        name[0] == '&',
        forall|i: int| 0 < i < name.len() ==> name[i] != '&',
        other.len() > 2,
        other[0] == '&',
        name.len() >= 3 && (name[1] != other[1] || name[2] != other[2]),
    ensures
        replaced(a + name + b, other, r) == a + name + b,
{
    let s = a + name + b;
    let n = a.len() as int;
    assert forall|i: int| !occurs_at(s, other, i) by {
        if occurs_at(s, other, i) {
            let part = s.subrange(i, i + other.len());
            assert(part[0] == s[i] && part[1] == s[i + 1] && part[2] == s[i + 2]);
            if i < n {
                assert(a.contains(a[i]));
            } else if i == n {
                assert(s[i + 1] == name[1] && s[i + 2] == name[2]);
            } else if i < n + name.len() {
                assert(s[i] == name[i - n]);
            } else {
                assert(b.contains(b[i - n - name.len()]));
            }
        }
    }
    lemma_nothing_replaced(s, other, r);
}

proof fn lemma_no_ampersand(a: Seq<char>, r: Seq<char>, b: Seq<char>)
    requires
        !a.contains('&'),
        !b.contains('&'),
        !r.contains('&'),
    ensures
        !(a + r + b).contains('&'),
{
    let s = a + r + b;
    if s.contains('&') {
        let k = choose|k: int| 0 <= k < s.len() && s[k] == '&';
        if k < a.len() {
            assert(a.contains(a[k]));
        } else if k < a.len() + r.len() {
            assert(r.contains(r[k - a.len()]));
        } else {
            assert(b.contains(b[k - a.len() - r.len()]));
        }
    }
}

/// Each character that is written by its name is written out where it stands, and what is around it
/// stays.
#[verifier::rlimit(40)]
pub proof fn lemma_named_characters(a: Seq<char>, b: Seq<char>)
    requires
        !a.contains('&'),
        !b.contains('&'),
    ensures
        entities_decoded(a + "&nbsp;"@ + b) == a + seq![' '] + b,
        entities_decoded(a + "&lt;"@ + b) == a + seq!['<'] + b,
        entities_decoded(a + "&gt;"@ + b) == a + seq!['>'] + b,
        entities_decoded(a + "&quot;"@ + b) == a + seq!['"'] + b,
        entities_decoded(a + "&#39;"@ + b) == a + seq!['\''] + b,
        entities_decoded(a + "&apos;"@ + b) == a + seq!['\''] + b,
{
    lemma_names();
    lemma_signs();
    lemma_one_named(a, "&nbsp;"@, b, " "@, 0);
    lemma_one_named(a, "&lt;"@, b, "<"@, 2);
    lemma_one_named(a, "&gt;"@, b, ">"@, 3);
    lemma_one_named(a, "&quot;"@, b, "\""@, 4);
    lemma_one_named(a, "&#39;"@, b, "'"@, 5);
    lemma_one_named(a, "&apos;"@, b, "'"@, 6);
}

proof fn lemma_signs()
    ensures
        " "@ =~= seq![' '],
        "&"@ =~= seq!['&'],
        "<"@ =~= seq!['<'],
        ">"@ =~= seq!['>'],
        "\""@ =~= seq!['"'],
        "'"@ =~= seq!['\''],
{
    reveal_strlit(" ");
    reveal_strlit("&");
    reveal_strlit("<");
    reveal_strlit(">");
    reveal_strlit("\"");
    reveal_strlit("'");
}

spec fn name_of(i: int) -> Seq<char> {
    if i == 0 {
        "&nbsp;"@
    } else if i == 1 {
        "&amp;"@
    } else if i == 2 {
        "&lt;"@
    } else if i == 3 {
        "&gt;"@
    } else if i == 4 {
        "&quot;"@
    } else if i == 5 {
        "&#39;"@
    } else {
        "&apos;"@
    }
}

spec fn sign_of(i: int) -> Seq<char> {
    if i == 0 {
        " "@
    } else if i == 1 {
        "&"@
    } else if i == 2 {
        "<"@
    } else if i == 3 {
        ">"@
    } else if i == 4 {
        "\""@
    } else {
        "'"@
    }
}

proof fn lemma_one_step(a: Seq<char>, b: Seq<char>, n: int, i: int)
    requires
        !a.contains('&'),
        !b.contains('&'),
        0 <= n < 7,
        n != 1,
        0 <= i < 7,
    ensures
        i < n ==> replaced(a + name_of(n) + b, name_of(i), sign_of(i)) == a + name_of(n) + b,
        i == n ==> replaced(a + name_of(n) + b, name_of(i), sign_of(i)) == a + sign_of(n) + b,
        i > n ==> replaced(a + sign_of(n) + b, name_of(i), sign_of(i)) == a + sign_of(n) + b,
{
    lemma_names();
    lemma_signs();
    if i < n {
        lemma_other_name(a, name_of(n), b, name_of(i), sign_of(i));
    } else if i == n {
        lemma_named(a, name_of(n), b, sign_of(n));
    } else {
        lemma_no_ampersand(a, sign_of(n), b);
        lemma_not_held(a + sign_of(n) + b, name_of(i), sign_of(i));
    }
}

proof fn lemma_one_named(a: Seq<char>, name: Seq<char>, b: Seq<char>, sign: Seq<char>, n: int)
    requires
        !a.contains('&'),
        !b.contains('&'),
        0 <= n < 7,
        n != 1,
        name == name_of(n),
        sign == sign_of(n),
    ensures
        entities_decoded(a + name + b) == a + sign + b,
{
    lemma_one_step(a, b, n, 0);
    lemma_one_step(a, b, n, 1);
    lemma_one_step(a, b, n, 2);
    lemma_one_step(a, b, n, 3);
    lemma_one_step(a, b, n, 4);
    lemma_one_step(a, b, n, 5);
    lemma_one_step(a, b, n, 6);
}

/// Blanks and tabs that stand side by side become one blank: no tab is left, and no two blanks stand
/// side by side. A text without them stays as it is.
pub proof fn lemma_blanks_are_single(s: Seq<char>)
    ensures
        ({
            let t = cut(Markup::Blank, s, " "@);
            &&& forall|i: int| 0 <= i < t.len() ==> #[trigger] t[i] != '\t'
            &&& forall|i: int| 0 <= i < t.len() - 1 && #[trigger] t[i] == ' ' ==> t[i + 1] != ' '
            &&& t.len() > 0 && t[0] == ' ' ==> blank(s[0])
            &&& !s.contains(' ') && !s.contains('\t') ==> t == s
        }),
    decreases s.len(),
{
    reveal_strlit(" ");
    assert(" "@ =~= seq![' ']);
    let t = cut(Markup::Blank, s, " "@);
    if s.len() > 0 {
        lemma_blanks(s);
        assert(s.contains(s[0]));
        let n = blanks(s) as int;
        if n > 0 {
            let rest = s.skip(n);
            lemma_blanks_are_single(rest);
            lemma_blanks_end(s);
            let u = cut(Markup::Blank, rest, " "@);
            assert(t == seq![' '] + u);
            assert forall|i: int| 0 <= i < t.len() implies #[trigger] t[i] != '\t' by {
                if i > 0 {
                    assert(t[i] == u[i - 1]);
                }
            }
            assert forall|i: int| 0 <= i < t.len() - 1 && #[trigger] t[i] == ' ' implies t[i + 1]
                != ' ' by {
                assert(t[i + 1] == u[i]);
                if i > 0 {
                    assert(t[i] == u[i - 1]);
                    assert(u[i - 1] == ' ' ==> u[i - 1 + 1] != ' ');
                }
            }
        } else {
            let rest = s.drop_first();
            lemma_blanks_are_single(rest);
            let u = cut(Markup::Blank, rest, " "@);
            assert(t == seq![s[0]] + u);
            assert forall|i: int| 0 <= i < t.len() implies #[trigger] t[i] != '\t' by {
                if i > 0 {
                    assert(t[i] == u[i - 1]);
                }
            }
            assert forall|i: int| 0 <= i < t.len() - 1 && #[trigger] t[i] == ' ' implies t[i + 1]
                != ' ' by {
                assert(t[i + 1] == u[i]);
                if i > 0 {
                    assert(t[i] == u[i - 1]);
                    assert(u[i - 1] == ' ' ==> u[i - 1 + 1] != ' ');
                }
            }
            if !s.contains(' ') && !s.contains('\t') {
                assert(!rest.contains(' ') && !rest.contains('\t')) by {
                    if rest.contains(' ') {
                        let k = choose|k: int| 0 <= k < rest.len() && rest[k] == ' ';
                        assert(s[k + 1] == ' ');
                    }
                    if rest.contains('\t') {
                        let k = choose|k: int| 0 <= k < rest.len() && rest[k] == '\t';
                        assert(s[k + 1] == '\t');
                    }
                }
                assert(t =~= s);
            }
        }
    }
}

proof fn lemma_blanks_end(s: Seq<char>)
    ensures
        blanks(s) <= s.len(),
        blanks(s) < s.len() ==> !blank(s[blanks(s) as int]),
    decreases s.len(),
{
    if s.len() > 0 && blank(s[0]) {
        lemma_blanks_end(s.drop_first());
    }
}

// ---------- results of a search ----------

/// A link as a page of results writes it.
pub open spec fn link_text(url: Seq<char>, title: Seq<char>) -> Seq<char> {
    "class=\"result__a\" href=\""@ + url + "\">"@ + title + "</a>"@
}

/// A link ends at its first closing tag: the first link of a page is found with its own address and
/// what is shown of it, and the links behind it are those of the rest, on the same line or not.
#[verifier::rlimit(40)]
pub proof fn lemma_links_are_found_one_by_one(
    pre: Seq<char>,
    url: Seq<char>,
    title: Seq<char>,
    rest: Seq<char>,
)
    requires
        url.len() > 0,
        !url.contains('"'),
        !holds(url, "href="@),
        !title.contains('\n'),
        !holds(title, "</a>"@),
        forall|i: int|
            0 <= i < pre.len() ==> !#[trigger] occurs_at(
                pre + link_text(url, title) + rest,
                link_mark(),
                i,
            ),
    ensures
        links_in(pre + link_text(url, title) + rest) == seq![
            Link { whole: link_text(url, title), url, title },
        ] + links_in(rest),
    decreases pre.len(),
{
    let l = link_text(url, title);
    let s = pre + l + rest;
    if pre.len() == 0 {
        assert(s =~= l + rest);
        lemma_link_at_front(url, title, rest);
        assert(s.skip(l.len() as int) =~= rest);
    } else {
        let front = pre.drop_first();
        let t = front + l + rest;
        assert(s.drop_first() =~= t);
        assert(!occurs_at(s, link_mark(), 0));
        if begins(s, link_mark()) {
            assert(s.subrange(0, link_mark().len() as int) =~= s.take(link_mark().len() as int));
        }
        assert forall|i: int| 0 <= i < front.len() implies !#[trigger] occurs_at(
            t,
            link_mark(),
            i,
        ) by {
            assert(!occurs_at(s, link_mark(), i + 1));
            if occurs_at(t, link_mark(), i) {
                assert(s.subrange(i + 1, i + 1 + link_mark().len()) =~= t.subrange(
                    i,
                    i + link_mark().len(),
                ));
            }
        }
        lemma_links_are_found_one_by_one(front, url, title, rest);
    }
}

/// Whether a text begins with a link: where its parts stand.
spec fn laid_out(s: Seq<char>, url: Seq<char>, title: Seq<char>) -> bool {
    let q = 24 + url.len() as int;
    let c = q + 2 + title.len();
    &&& s.len() >= c + 4
    &&& s.take(17) == link_mark()
    &&& s[17] == ' '
    &&& s[18] == 'h' && s[19] == 'r' && s[20] == 'e' && s[21] == 'f' && s[22] == '=' && s[23] == '"'
    &&& s.subrange(24, q) == url
    &&& s[q] == '"'
    &&& s[q + 1] == '>'
    &&& s.subrange(q + 2, c) == title
    &&& s.subrange(c, c + 4) == "</a>"@
}

proof fn lemma_laid_out(url: Seq<char>, title: Seq<char>, rest: Seq<char>)
    ensures
        laid_out(link_text(url, title) + rest, url, title),
        link_text(url, title).len() == 30 + url.len() + title.len(),
{
    lemma_link_words();
    let l = link_text(url, title);
    let s = l + rest;
    let q = 24 + url.len() as int;
    let c = q + 2 + title.len();
    assert(s.take(17) =~= link_mark());
    assert(s.subrange(24, q) =~= url);
    assert(s.subrange(q + 2, c) =~= title);
    assert(s.subrange(c, c + 4) =~= "</a>"@);
}

proof fn lemma_link_is_read(s: Seq<char>, url: Seq<char>, title: Seq<char>)
    requires
        laid_out(s, url, title),
        url.len() > 0,
        !url.contains('"'),
        !title.contains('\n'),
        !holds(title, "</a>"@),
    ensures
        link_with(s, 18) == Some(
            Link { whole: s.take((30 + url.len() + title.len()) as int), url, title },
        ),
{
    lemma_link_words();
    let q = 24 + url.len() as int;
    let e = q + 1;
    let c = e + 1 + title.len();
    assert(s.subrange(18, 24) =~= "href=\""@);
    assert(s.subrange(q, q + 1) =~= "\""@);
    assert forall|j: int| 24 <= j < q implies !#[trigger] occurs_at(s, "\""@, j) by {
        if occurs_at(s, "\""@, j) {
            assert(s.subrange(j, j + 1)[0] == '"');
            assert(s.subrange(24, q)[j - 24] == s[j]);
            assert(url.contains(url[j - 24]));
        }
    }
    lemma_first_is_found(s, "\""@, 24, q);
    assert(s.subrange(e, e + 1) =~= ">"@);
    lemma_first_is_found(s, ">"@, q + 1, e);
    lemma_title_ends(s, title, e + 1);
    lemma_first_is_found(s, "</a>"@, e + 1, c);
}

proof fn lemma_one_address(s: Seq<char>, url: Seq<char>, title: Seq<char>, k: int)
    requires
        laid_out(s, url, title),
        !url.contains('"'),
        !holds(url, "href="@),
        18 < k <= 25 + url.len(),
    ensures
        link_with(s, k) is None,
{
    lemma_link_words();
    let u = url.len() as int;
    let q = 24 + u;
    if occurs_at(s, "href=\""@, k) {
        let part = s.subrange(k, k + 6);
        assert(part[0] == s[k] && part[1] == s[k + 1] && part[2] == s[k + 2] && part[3] == s[k + 3]
            && part[4] == s[k + 4] && part[5] == s[k + 5]);
        if k >= 24 && k + 5 == q {
            let tail = s.subrange(24, q);
            assert(tail[u - 5] == s[k] && tail[u - 4] == s[k + 1] && tail[u - 3] == s[k + 2]
                && tail[u - 2] == s[k + 3] && tail[u - 1] == s[k + 4]);
            assert(url.subrange(u - 5, u) =~= "href="@);
            assert(occurs_at(url, "href="@, u - 5));
        } else if 24 <= k + 5 < q {
            assert(s.subrange(24, q)[k + 5 - 24] == s[k + 5]);
            assert(url.contains(url[k + 5 - 24]));
        } else if k < 24 {
            assert(s[k] != 'h');
        } else {
            assert(k <= q ==> s[q] == '"' && s[q] == part[q - k]);
        }
    }
}

proof fn lemma_link_at_front(url: Seq<char>, title: Seq<char>, rest: Seq<char>)
    requires
        url.len() > 0,
        !url.contains('"'),
        !holds(url, "href="@),
        !title.contains('\n'),
        !holds(title, "</a>"@),
    ensures
        link_at(link_text(url, title) + rest) == Some(
            Link { whole: link_text(url, title), url, title },
        ),
{
    lemma_link_words();
    lemma_laid_out(url, title, rest);
    let l = link_text(url, title);
    let s = l + rest;
    lemma_link_is_read(s, url, title);
    assert(s.take(l.len() as int) =~= l);
    let e = 25 + url.len() as int;
    let behind = s.skip(17);
    let top = 17 + span(behind, '>') as int;
    lemma_span(behind, '>');
    assert(behind[e - 17] == '>');
    assert(behind[0] == s[17] && behind[1] == s[18]);
    assert(18 <= top <= e);
    assert forall|k: int| 18 < k <= top implies link_with(s, k) is None by {
        lemma_one_address(s, url, title, k);
    }
    lemma_back_to(s, top, 18);
}

proof fn lemma_title_ends(s: Seq<char>, title: Seq<char>, from: int)
    requires
        0 <= from,
        from + title.len() + 4 <= s.len(),
        s.subrange(from, from + title.len()) == title,
        s.subrange(from + title.len(), from + title.len() + 4) == "</a>"@,
        !holds(title, "</a>"@),
    ensures
        forall|j: int|
            from <= j < from + title.len() ==> !#[trigger] occurs_at(s, "</a>"@, j),
{
    lemma_link_words();
    let c = from + title.len();
    assert forall|j: int| from <= j < c implies !#[trigger] occurs_at(s, "</a>"@, j) by {
        if occurs_at(s, "</a>"@, j) {
            let k = j - from;
            if j + 4 <= c {
                let part = s.subrange(from, c);
                assert(part.subrange(k, k + 4) =~= s.subrange(j, j + 4));
                assert(occurs_at(title, "</a>"@, k));
            } else {
                let m = c - j;
                assert(s.subrange(j, j + 4)[m] == s[c]);
                assert(s.subrange(c, c + 4)[0] == s[c]);
            }
        }
    }
}

proof fn lemma_back_to(s: Seq<char>, top: int, k: int)
    requires
        link_mark().len() <= k <= top,
        link_with(s, k) is Some,
        forall|j: int| k < j <= top ==> link_with(s, j) is None,
    ensures
        link_back(s, top) == link_with(s, k),
    decreases top - k,
{
    if k < top {
        assert(link_with(s, top) is None);
        lemma_back_to(s, top - 1, k);
    }
}

proof fn lemma_link_words()
    ensures
        link_mark().len() == 17,
        "class=\"result__a\" href=\""@ =~= link_mark() + seq![' ', 'h', 'r', 'e', 'f', '=', '"'],
        "href=\""@ =~= seq!['h', 'r', 'e', 'f', '=', '"'],
        "href="@ =~= seq!['h', 'r', 'e', 'f', '='],
        "\""@ =~= seq!['"'],
        ">"@ =~= seq!['>'],
        "\">"@ =~= seq!['"', '>'],
        "</a>"@ =~= seq!['<', '/', 'a', '>'],
{
    reveal_strlit("class=\"result__a\"");
    reveal_strlit("class=\"result__a\" href=\"");
    reveal_strlit("href=\"");
    reveal_strlit("href=");
    reveal_strlit("\"");
    reveal_strlit(">");
    reveal_strlit("\">");
    reveal_strlit("</a>");
}

/// A page without the mark of links has none.
pub proof fn lemma_no_links(s: Seq<char>)
    requires
        !holds(s, link_mark()),
    ensures
        links_in(s).len() == 0,
    decreases s.len(),
{
    if s.len() > 0 {
        let rest = s.drop_first();
        let mark = link_mark();
        assert(!occurs_at(s, mark, 0));
        if begins(s, mark) {
            assert(s.subrange(0, mark.len() as int) =~= s.take(mark.len() as int));
        }
        assert forall|i: int| !occurs_at(rest, mark, i) by {
            assert(!occurs_at(s, mark, i + 1));
            if occurs_at(rest, mark, i) {
                assert(s.subrange(i + 1, i + 1 + mark.len()) =~= rest.subrange(i, i + mark.len()));
            }
        }
        lemma_no_links(rest);
    }
}

} // verus!
