//! Argument templates: the placeholders `#TITLE` and `#LINK` in a command's
//! arguments stand for an item's title and link.

use vstd::prelude::*;
use crate::feed::{FeedItem, ItemView};
use crate::text::{chars_of, is_substring, lacks, lemma_occurs_at_skip, matches_at, occurs_at};

verus! {

/// The characters of the placeholder `#TITLE`.
pub open spec fn title_placeholder() -> Seq<char> {
    seq!['#', 'T', 'I', 'T', 'L', 'E']
}

/// The characters of the placeholder `#LINK`.
pub open spec fn link_placeholder() -> Seq<char> {
    seq!['#', 'L', 'I', 'N', 'K']
}

/// The argument that `template` stands for, read once from left to right:
/// where `#TITLE` stands, `title` is put; where `#LINK` stands, `link` is
/// put; every other character is copied. What was put in is not read again,
/// and there is no escape.
pub open spec fn render(template: Seq<char>, title: Seq<char>, link: Seq<char>) -> Seq<char>
    decreases template.len(),
{
    if template.len() == 0 {
        template
    } else if occurs_at(template, title_placeholder(), 0) {
        title + render(template.skip(title_placeholder().len() as int), title, link)
    } else if occurs_at(template, link_placeholder(), 0) {
        link + render(template.skip(link_placeholder().len() as int), title, link)
    } else {
        seq![template[0]] + render(template.skip(1), title, link)
    }
}

/// The text of an optional field; an absent field reads as the empty text.
pub open spec fn text_or_empty(field: Option<Seq<char>>) -> Seq<char> {
    match field {
        Some(t) => t,
        None => Seq::empty(),
    }
}

/// The argument list for one item: each template rendered with the item's
/// title and link, in order; no templates, no arguments.
pub open spec fn rendered_args(templates: Option<Seq<Seq<char>>>, item: ItemView) -> Seq<
    Seq<char>,
> {
    match templates {
        None => Seq::empty(),
        Some(ts) => ts.map_values(
            |t: Seq<char>| render(t, text_or_empty(item.title), text_or_empty(item.link)),
        ),
    }
}

/// A part of a template: text that stands for itself, or a placeholder.
pub enum Piece {
    Text(Seq<char>),
    Title,
    Link,
}

/// `s` has no `#` in it.
pub open spec fn plain(s: Seq<char>) -> bool {
    lacks(s, '#')
}

/// Every text among `pieces` is plain.
pub open spec fn plain_texts(pieces: Seq<Piece>) -> bool {
    forall|i: int|
        0 <= i < pieces.len() ==> (#[trigger] pieces[i] matches Piece::Text(t) ==> plain(t))
}

/// The template that `pieces` spell, one after the other.
pub open spec fn template_of(pieces: Seq<Piece>) -> Seq<char>
    decreases pieces.len(),
{
    if pieces.len() == 0 {
        Seq::empty()
    } else {
        (match pieces[0] {
            Piece::Text(t) => t,
            Piece::Title => title_placeholder(),
            Piece::Link => link_placeholder(),
        }) + template_of(pieces.skip(1))
    }
}

/// `pieces` with `title` and `link` in the placeholders' places.
pub open spec fn filled_in(pieces: Seq<Piece>, title: Seq<char>, link: Seq<char>) -> Seq<char>
    decreases pieces.len(),
{
    if pieces.len() == 0 {
        Seq::empty()
    } else {
        (match pieces[0] {
            Piece::Text(t) => t,
            Piece::Title => title,
            Piece::Link => link,
        }) + filled_in(pieces.skip(1), title, link)
    }
}

/// Rendering depends on the three texts alone: the same template, title and
/// link give the same argument, however often it is asked for.
pub proof fn lemma_render_depends_on_texts_alone(
    template1: Seq<char>,
    title1: Seq<char>,
    link1: Seq<char>,
    template2: Seq<char>,
    title2: Seq<char>,
    link2: Seq<char>,
)
    requires
        template1 =~= template2,
        title1 =~= title2,
        link1 =~= link2,
    ensures
        render(template1, title1, link1) == render(template2, title2, link2),
{
}

/// Where a template begins with `#TITLE`, its rendering begins with the
/// title as it is, whatever the title holds, and goes on with the rendering
/// of the rest.
pub proof fn lemma_render_at_title(rest: Seq<char>, title: Seq<char>, link: Seq<char>)
    ensures
        render(title_placeholder() + rest, title, link) == title + render(rest, title, link),
{
    let whole = title_placeholder() + rest;
    assert(whole.subrange(0, title_placeholder().len() as int) =~= title_placeholder());
    assert(whole.skip(title_placeholder().len() as int) =~= rest);
}

/// Where a template begins with `#LINK`, its rendering begins with the link
/// as it is, whatever the link holds, and goes on with the rendering of the
/// rest.
pub proof fn lemma_render_at_link(rest: Seq<char>, title: Seq<char>, link: Seq<char>)
    ensures
        render(link_placeholder() + rest, title, link) == link + render(rest, title, link),
{
    let whole = link_placeholder() + rest;
    if occurs_at(whole, title_placeholder(), 0) {
        assert(whole.subrange(0, title_placeholder().len() as int)[1] == 'L');
        assert(title_placeholder()[1] == 'T');
    }
    assert(whole.subrange(0, link_placeholder().len() as int) =~= link_placeholder());
    assert(whole.skip(link_placeholder().len() as int) =~= rest);
}

/// Text without `#` at the front of a template is copied, and the rest is
/// rendered as if it stood alone.
pub proof fn lemma_render_after_plain(
    prefix: Seq<char>,
    rest: Seq<char>,
    title: Seq<char>,
    link: Seq<char>,
)
    requires
        plain(prefix),
    ensures
        render(prefix + rest, title, link) == prefix + render(rest, title, link),
    decreases prefix.len(),
{
    let whole = prefix + rest;
    if prefix.len() == 0 {
        assert(whole =~= rest);
        assert(prefix + render(rest, title, link) =~= render(rest, title, link));
    } else {
        assert(whole[0] == prefix[0]);
        if occurs_at(whole, title_placeholder(), 0) {
            assert(whole.subrange(0, title_placeholder().len() as int)[0] == '#');
        }
        if occurs_at(whole, link_placeholder(), 0) {
            assert(whole.subrange(0, link_placeholder().len() as int)[0] == '#');
        }
        let shorter = prefix.skip(1);
        assert(whole.skip(1) =~= shorter + rest);
        lemma_render_after_plain(shorter, rest, title, link);
        assert(seq![whole[0]] + (shorter + render(rest, title, link)) =~= prefix + render(
            rest,
            title,
            link,
        ));
    }
}

/// A template in which neither placeholder occurs is its own rendering.
pub proof fn lemma_render_without_placeholder(
    template: Seq<char>,
    title: Seq<char>,
    link: Seq<char>,
)
    requires
        !is_substring(title_placeholder(), template),
        !is_substring(link_placeholder(), template),
    ensures
        render(template, title, link) == template,
    decreases template.len(),
{
    if template.len() > 0 {
        assert(!occurs_at(template, title_placeholder(), 0));
        assert(!occurs_at(template, link_placeholder(), 0));
        let rest = template.skip(1);
        assert forall|i: int| !occurs_at(rest, title_placeholder(), i) by {
            if 0 <= i {
                lemma_occurs_at_skip(template, title_placeholder(), 1, i);
                assert(!occurs_at(template, title_placeholder(), 1 + i));
            }
        }
        assert forall|i: int| !occurs_at(rest, link_placeholder(), i) by {
            if 0 <= i {
                lemma_occurs_at_skip(template, link_placeholder(), 1, i);
                assert(!occurs_at(template, link_placeholder(), 1 + i));
            }
        }
        lemma_render_without_placeholder(rest, title, link);
        assert(seq![template[0]] + rest =~= template);
    }
}

/// What is left of pieces with plain texts, once the first is taken away,
/// has plain texts.
pub proof fn lemma_plain_texts_skip(pieces: Seq<Piece>)
    requires
        plain_texts(pieces),
        pieces.len() > 0,
    ensures
        plain_texts(pieces.skip(1)),
{
    let rest = pieces.skip(1);
    assert forall|i: int| 0 <= i < rest.len() implies (#[trigger] rest[i] matches Piece::Text(
        t,
    ) ==> plain(t)) by {
        assert(rest[i] == pieces[i + 1]);
    }
}

/// Every placeholder is replaced and nothing else is altered: for a template
/// spelled by texts without `#` and placeholders, the rendering is the same
/// texts with the title and the link, whatever they hold, in the
/// placeholders' places.
pub proof fn lemma_render_fills_in(pieces: Seq<Piece>, title: Seq<char>, link: Seq<char>)
    requires
        plain_texts(pieces),
    ensures
        render(template_of(pieces), title, link) == filled_in(pieces, title, link),
    decreases pieces.len(),
{
    if pieces.len() > 0 {
        let rest = template_of(pieces.skip(1));
        lemma_plain_texts_skip(pieces);
        lemma_render_fills_in(pieces.skip(1), title, link);
        match pieces[0] {
            Piece::Text(t) => {
                lemma_render_after_plain(t, rest, title, link);
            },
            Piece::Title => {
                lemma_render_at_title(rest, title, link);
            },
            Piece::Link => {
                lemma_render_at_link(rest, title, link);
            },
        }
    }
}

/// With plain texts, a plain title and a plain link, what was filled in is
/// plain.
pub proof fn lemma_filled_in_is_plain(pieces: Seq<Piece>, title: Seq<char>, link: Seq<char>)
    requires
        plain_texts(pieces),
        plain(title),
        plain(link),
    ensures
        plain(filled_in(pieces, title, link)),
    decreases pieces.len(),
{
    if pieces.len() > 0 {
        lemma_plain_texts_skip(pieces);
        lemma_filled_in_is_plain(pieces.skip(1), title, link);
    }
}

/// Rendering what was rendered changes nothing more, for a template spelled
/// by plain texts and placeholders and a title and link without `#`.
pub proof fn lemma_render_twice(pieces: Seq<Piece>, title: Seq<char>, link: Seq<char>)
    requires
        plain_texts(pieces),
        plain(title),
        plain(link),
    ensures
        render(render(template_of(pieces), title, link), title, link) == render(
            template_of(pieces),
            title,
            link,
        ),
{
    let once = filled_in(pieces, title, link);
    lemma_render_fills_in(pieces, title, link);
    lemma_filled_in_is_plain(pieces, title, link);
    let nothing = Seq::<char>::empty();
    assert(once + nothing =~= once);
    lemma_render_after_plain(once, nothing, title, link);
}

/// Renders one argument template with the given title and link, in one pass
/// over the template.
pub fn render_arg(template: &str, title: &str, link: &str) -> (arg: String)
    ensures
        arg@ == render(template@, title@, link@),
{
    let text = chars_of(template);
    let title_mark = chars_of("#TITLE");
    let link_mark = chars_of("#LINK");
    proof {
        reveal_strlit("#TITLE");
        reveal_strlit("#LINK");
        assert(title_mark@ =~= title_placeholder());
        assert(link_mark@ =~= link_placeholder());
    }
    let n: usize = text.len();
    let mut arg = String::new();
    let mut start: usize = 0;
    let mut i: usize = 0;
    proof {
        assert(template@.skip(0) =~= template@);
        assert(arg@ + template@.subrange(0, 0) + template@ =~= template@);
    }
    while i < n
        invariant
            start <= i <= n,
            n == text.len(),
            text@ == template@,
            title_mark@ == title_placeholder(),
            link_mark@ == link_placeholder(),
            render(template@, title@, link@) == arg@ + template@.subrange(start as int, i as int)
                + render(template@.skip(i as int), title@, link@),
        decreases n - i,
    {
        let ghost rest = template@.skip(i as int);
        let ghost copied = template@.subrange(start as int, i as int);
        proof {
            lemma_occurs_at_skip(template@, title_placeholder(), i as int, 0);
            lemma_occurs_at_skip(template@, link_placeholder(), i as int, 0);
        }
        if matches_at(&text, &title_mark, i) {
            arg.append(template.substring_char(start, i));
            arg.append(title);
            i += title_mark.len();
            start = i;
            proof {
                assert(rest.skip(title_placeholder().len() as int) =~= template@.skip(i as int));
                assert(arg@ + template@.subrange(i as int, i as int) =~= arg@);
            }
        } else if matches_at(&text, &link_mark, i) {
            arg.append(template.substring_char(start, i));
            arg.append(link);
            i += link_mark.len();
            start = i;
            proof {
                assert(rest.skip(link_placeholder().len() as int) =~= template@.skip(i as int));
                assert(arg@ + template@.subrange(i as int, i as int) =~= arg@);
            }
        } else {
            proof {
                assert(rest.skip(1) =~= template@.skip(i + 1));
                assert(copied + seq![rest[0]] =~= template@.subrange(start as int, i + 1));
                assert(arg@ + copied + (seq![rest[0]] + render(rest.skip(1), title@, link@))
                    =~= arg@ + (copied + seq![rest[0]]) + render(rest.skip(1), title@, link@));
            }
            i += 1;
        }
    }
    proof {
        assert(template@.skip(n as int) =~= Seq::<char>::empty());
        assert(arg@ + template@.subrange(start as int, n as int) + Seq::<char>::empty() =~= arg@
            + template@.subrange(start as int, n as int));
    }
    arg.append(template.substring_char(start, n));
    arg
}

/// The text of an optional field, empty where the field is absent.
pub fn field_text(field: &Option<String>) -> (text: &str)
    ensures
        text@ == text_or_empty(field.deep_view()),
{
    match field {
        Some(t) => t.as_str(),
        None => {
            proof {
                reveal_strlit("");
            }
            assert(""@ =~= Seq::<char>::empty());
            ""
        },
    }
}

/// Builds the argument list of the command for `item`.
pub fn build_args(templates: &Option<Vec<String>>, item: &FeedItem) -> (args: Vec<String>)
    ensures
        args.deep_view() == rendered_args(templates.deep_view(), item@),
{
    let mut args: Vec<String> = Vec::new();
    match templates {
        None => {
            assert(args.deep_view() =~= Seq::<Seq<char>>::empty());
        },
        Some(ts) => {
            let title = field_text(&item.title);
            let link = field_text(&item.link);
            let mut k: usize = 0;
            while k < ts.len()
                invariant
                    k <= ts.len(),
                    args@.len() == k,
                    forall|j: int|
                        0 <= j < k ==> (#[trigger] args@[j])@ == render(ts@[j]@, title@, link@),
                decreases ts.len() - k,
            {
                args.push(render_arg(ts[k].as_str(), title, link));
                k += 1;
            }
            assert(args.deep_view() =~= rendered_args(templates.deep_view(), item@));
        },
    }
    args
}

} // verus!
