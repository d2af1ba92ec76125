//! Plain text and images out of the rich text of a message.

use crate::text::{char_is_whitespace, is_whitespace};
use pulldown_cmark::{Event, Tag, TagEnd};
use vstd::prelude::*;
use vstd::string::*;

verus! {

/// What the client reads of one step of a parsed text.
#[derive(Debug)]
pub enum MarkdownEvent {
    /// An image starts; the text is its address.
    ImageStart(String),
    ImageEnd,
    ParagraphEnd,
    HeadingEnd,
    ItemEnd,
    BlockQuoteEnd,
    Text(String),
    /// Code within a line.
    Code(String),
    /// Anything else.
    Other,
}

/// A step of a parsed text, as plain values.
pub enum MarkdownEventView {
    ImageStart(Seq<char>),
    ImageEnd,
    ParagraphEnd,
    HeadingEnd,
    ItemEnd,
    BlockQuoteEnd,
    Text(Seq<char>),
    Code(Seq<char>),
    Other,
}

impl View for MarkdownEvent {
    type V = MarkdownEventView;

    open spec fn view(&self) -> MarkdownEventView {
        match self {
            MarkdownEvent::ImageStart(u) => MarkdownEventView::ImageStart(u@),
            MarkdownEvent::ImageEnd => MarkdownEventView::ImageEnd,
            MarkdownEvent::ParagraphEnd => MarkdownEventView::ParagraphEnd,
            MarkdownEvent::HeadingEnd => MarkdownEventView::HeadingEnd,
            MarkdownEvent::ItemEnd => MarkdownEventView::ItemEnd,
            MarkdownEvent::BlockQuoteEnd => MarkdownEventView::BlockQuoteEnd,
            MarkdownEvent::Text(t) => MarkdownEventView::Text(t@),
            MarkdownEvent::Code(c) => MarkdownEventView::Code(c@),
            MarkdownEvent::Other => MarkdownEventView::Other,
        }
    }
}

/// The views of a list of steps.
pub open spec fn event_views(s: Seq<MarkdownEvent>) -> Seq<MarkdownEventView> {
    Seq::new(s.len(), |i: int| s[i]@)
}

/// The steps in which `pulldown_cmark` reads a text as Markdown, without
/// any of its extensions.
pub uninterp spec fn markdown_events(text: Seq<char>) -> Seq<MarkdownEventView>;

/// Runs `pulldown_cmark::Parser::new` over `text` and hands out its
/// events one for one: the start of an image with its destination, the
/// ends of images, paragraphs, headings, items and block quotes, text and
/// inline code with what they hold, and every other event as `Other`. The
/// result is a function of the text alone.
#[verifier::external_body]
pub(crate) fn parse_markdown(text: &str) -> (r: Vec<MarkdownEvent>)
    ensures
        event_views(r@) == markdown_events(text@),
{
    pulldown_cmark::Parser::new(text).map(|event| match event {
        Event::Start(Tag::Image { dest_url, .. }) => MarkdownEvent::ImageStart(dest_url.to_string()),
        Event::End(TagEnd::Image) => MarkdownEvent::ImageEnd,
        Event::End(TagEnd::Paragraph) => MarkdownEvent::ParagraphEnd,
        Event::End(TagEnd::Heading(_)) => MarkdownEvent::HeadingEnd,
        Event::End(TagEnd::Item) => MarkdownEvent::ItemEnd,
        Event::End(TagEnd::BlockQuote(_)) => MarkdownEvent::BlockQuoteEnd,
        Event::Text(t) => MarkdownEvent::Text(t.to_string()),
        Event::Code(c) => MarkdownEvent::Code(c.to_string()),
        _ => MarkdownEvent::Other,
    }).collect()
}

/// Where the white space that starts at `from` ends.
pub open spec fn word_start(s: Seq<char>, from: int) -> int
    decreases s.len() - from,
{
    if from < 0 || from >= s.len() || !is_whitespace(s[from]) {
        from
    } else {
        word_start(s, from + 1)
    }
}

/// Where the word that starts at `from` ends.
pub open spec fn word_end(s: Seq<char>, from: int) -> int
    decreases s.len() - from,
{
    if from < 0 || from >= s.len() || is_whitespace(s[from]) {
        from
    } else {
        word_end(s, from + 1)
    }
}

/// Two texts with a space between them, and one of them alone where the
/// other is empty.
pub open spec fn glue(a: Seq<char>, b: Seq<char>) -> Seq<char> {
    if a.len() == 0 {
        b
    } else if b.len() == 0 {
        a
    } else {
        a + seq![' '] + b
    }
}

/// The words of `s` from `from` on, with one space between every two of
/// them: white space at the ends is gone, and every other run of white
/// space is one space.
pub open spec fn collapsed_from(s: Seq<char>, from: int) -> Seq<char>
    decreases s.len() - from,
{
    if from < 0 || from > s.len() {
        Seq::empty()
    } else {
        let a = word_start(s, from);
        let b = word_end(s, a);
        if a < from || a >= s.len() || b <= a || b > s.len() {
            Seq::empty()
        } else {
            glue(s.subrange(a, b), collapsed_from(s, b))
        }
    }
}

/// The words of `s` with one space between every two of them.
pub open spec fn collapsed(s: Seq<char>) -> Seq<char> {
    collapsed_from(s, 0)
}

/// A word ends after its start, within the text.
pub proof fn lemma_word_end(s: Seq<char>, from: int)
    requires
        0 <= from <= s.len(),
    ensures
        from <= word_end(s, from) <= s.len(),
        from < s.len() && !is_whitespace(s[from]) ==> from < word_end(s, from),
    decreases s.len() - from,
{
    if from < s.len() && !is_whitespace(s[from]) {
        lemma_word_end(s, from + 1);
    }
}

/// The words of `s` with one space between every two of them.
pub fn collapse_whitespace(s: &str) -> (r: String)
    ensures
        r@ == collapsed(s@),
{
    let n: usize = s.unicode_len();
    let mut out = String::new();
    let mut any = false;
    let mut pos: usize = 0;
    let mut done = false;
    while !done
        invariant
            n == s@.len(),
            pos <= n,
            any == (out@.len() > 0),
            !done ==> collapsed(s@) == glue(out@, collapsed_from(s@, pos as int)),
            done ==> collapsed(s@) == out@,
        decreases n - pos, if done { 0int } else { 1int },
    {
        let mut a: usize = pos;
        while a < n && char_is_whitespace(s.get_char(a))
            invariant
                pos <= a <= n,
                n == s@.len(),
                word_start(s@, pos as int) == word_start(s@, a as int),
            decreases n - a,
        {
            a = a + 1;
        }
        if a >= n {
            done = true;
        } else {
            let mut b: usize = a;
            while b < n && !char_is_whitespace(s.get_char(b))
                invariant
                    a <= b <= n,
                    n == s@.len(),
                    word_end(s@, a as int) == word_end(s@, b as int),
                decreases n - b,
            {
                b = b + 1;
            }
            proof {
                lemma_word_end(s@, a as int);
                reveal_strlit(" ");
                assert(" "@ =~= seq![' ']);
            }
            let word = s.substring_char(a, b);
            let ghost before = out@;
            let ghost rest = collapsed_from(s@, b as int);
            if any {
                out.append(" ");
            }
            out.append(word);
            any = true;
            proof {
                assert(out@ =~= glue(before, word@));
                assert(glue(before, glue(word@, rest)) =~= glue(glue(before, word@), rest));
            }
            pos = b;
        }
    }
    out
}

/// A text with a space at its end, unless it is empty or ends in one.
pub open spec fn spaced(text: Seq<char>) -> Seq<char> {
    if text.len() > 0 && text.last() != ' ' {
        text.push(' ')
    } else {
        text
    }
}

/// The text gathered so far and whether the steps are inside an image,
/// after one more step. Inside an image everything is passed over up to
/// the image's end. Outside, text and inline code are added after a space;
/// the end of a paragraph, a heading, an item or a block quote adds a
/// space; nothing else adds anything.
pub open spec fn plain_step(state: (Seq<char>, bool), event: MarkdownEventView) -> (
    Seq<char>,
    bool,
) {
    if state.1 {
        (state.0, !(event is ImageEnd))
    } else {
        match event {
            MarkdownEventView::ImageStart(_) => (state.0, true),
            MarkdownEventView::Text(t) => (spaced(state.0) + t, false),
            MarkdownEventView::Code(c) => (spaced(state.0) + c, false),
            MarkdownEventView::ParagraphEnd => (spaced(state.0), false),
            MarkdownEventView::HeadingEnd => (spaced(state.0), false),
            MarkdownEventView::ItemEnd => (spaced(state.0), false),
            MarkdownEventView::BlockQuoteEnd => (spaced(state.0), false),
            _ => state,
        }
    }
}

/// The text gathered from the first `n` steps.
pub open spec fn plain_text(events: Seq<MarkdownEventView>, n: nat) -> (Seq<char>, bool)
    decreases n,
{
    if n == 0 {
        (Seq::empty(), false)
    } else {
        plain_step(plain_text(events, (n - 1) as nat), events[n - 1])
    }
}

/// What a desktop notification shows of parsed rich text: its text and
/// inline code, without images and their descriptions, as words with one
/// space between every two.
pub open spec fn sanitized_events(events: Seq<MarkdownEventView>) -> Seq<char> {
    collapsed(plain_text(events, events.len()).0)
}

/// What a desktop notification shows of a rich text.
pub open spec fn sanitized(text: Seq<char>) -> Seq<char> {
    sanitized_events(markdown_events(text))
}

/// The address of the first image of parsed rich text that has one that
/// is not empty.
pub open spec fn first_image(events: Seq<MarkdownEventView>) -> Option<Seq<char>>
    decreases events.len(),
{
    if events.len() == 0 {
        None
    } else {
        match events.first() {
            MarkdownEventView::ImageStart(url) => if url.len() > 0 {
                Some(url)
            } else {
                first_image(events.drop_first())
            },
            _ => first_image(events.drop_first()),
        }
    }
}

/// Adds a space to a text that is not empty and does not end in one.
fn add_space(out: &mut String, ends_in_space: bool, any: bool)
    requires
        any == (old(out)@.len() > 0),
        any ==> ends_in_space == (old(out)@.last() == ' '),
    ensures
        final(out)@ == spaced(old(out)@),
        any ==> final(out)@.len() > 0 && final(out)@.last() == ' ',
        !any ==> final(out)@.len() == 0,
{
    if any && !ends_in_space {
        proof {
            reveal_strlit(" ");
            assert(" "@ =~= seq![' ']);
        }
        out.append(" ");
        assert(out@ =~= old(out)@.push(' '));
    }
}

/// What a desktop notification shows of parsed rich text.
pub fn plain_text_of_events(events: &Vec<MarkdownEvent>) -> (r: String)
    ensures
        r@ == sanitized_events(event_views(events@)),
{
    let ghost all = event_views(events@);
    let mut out = String::new();
    let mut any = false;
    let mut ends_in_space = false;
    let mut in_image = false;
    let mut i: usize = 0;
    while i < events.len()
        invariant
            i <= events.len(),
            all == event_views(events@),
            (out@, in_image) == plain_text(all, i as nat),
            any == (out@.len() > 0),
            any ==> ends_in_space == (out@.last() == ' '),
        decreases events.len() - i,
    {
        let event = &events[i];
        assert(all[i as int] == event@);
        if in_image {
            match event {
                MarkdownEvent::ImageEnd => {
                    in_image = false;
                },
                _ => {},
            }
        } else {
            match event {
                MarkdownEvent::ImageStart(_) => {
                    in_image = true;
                },
                MarkdownEvent::Text(t) => {
                    add_space(&mut out, ends_in_space, any);
                    let ghost before = out@;
                    out.append(t.as_str());
                    let n: usize = t.as_str().unicode_len();
                    if n > 0 {
                        any = true;
                        ends_in_space = t.as_str().get_char(n - 1) == ' ';
                        assert(out@.last() == t@[n - 1]);
                    } else {
                        assert(out@ =~= before);
                        ends_in_space = any;
                    }
                },
                MarkdownEvent::Code(c) => {
                    add_space(&mut out, ends_in_space, any);
                    let ghost before = out@;
                    out.append(c.as_str());
                    let n: usize = c.as_str().unicode_len();
                    if n > 0 {
                        any = true;
                        ends_in_space = c.as_str().get_char(n - 1) == ' ';
                        assert(out@.last() == c@[n - 1]);
                    } else {
                        assert(out@ =~= before);
                        ends_in_space = any;
                    }
                },
                MarkdownEvent::ParagraphEnd => {
                    add_space(&mut out, ends_in_space, any);
                    ends_in_space = any;
                },
                MarkdownEvent::HeadingEnd => {
                    add_space(&mut out, ends_in_space, any);
                    ends_in_space = any;
                },
                MarkdownEvent::ItemEnd => {
                    add_space(&mut out, ends_in_space, any);
                    ends_in_space = any;
                },
                MarkdownEvent::BlockQuoteEnd => {
                    add_space(&mut out, ends_in_space, any);
                    ends_in_space = any;
                },
                _ => {},
            }
        }
        i = i + 1;
    }
    collapse_whitespace(out.as_str())
}

/// What a desktop notification shows of a rich text: its plain text,
/// without images and their descriptions.
pub fn sanitize_for_notification(text: &str) -> (r: String)
    ensures
        r@ == sanitized(text@),
{
    let events = parse_markdown(text);
    plain_text_of_events(&events)
}

/// The address of the first image of parsed rich text.
pub fn first_image_of_events(events: &Vec<MarkdownEvent>) -> (r: Option<String>)
    ensures
        crate::text::opt_view(r) == first_image(event_views(events@)),
{
    let ghost all = event_views(events@);
    let mut i: usize = 0;
    assert(all.subrange(0, all.len() as int) =~= all);
    while i < events.len()
        invariant
            i <= events.len(),
            all == event_views(events@),
            first_image(all) == first_image(all.subrange(i as int, all.len() as int)),
        decreases events.len() - i,
    {
        let event = &events[i];
        proof {
            let rest = all.subrange(i as int, all.len() as int);
            assert(rest.first() == event@);
            assert(rest.drop_first() =~= all.subrange(i + 1, all.len() as int));
        }
        match event {
            MarkdownEvent::ImageStart(url) => {
                if url.as_str().unicode_len() > 0 {
                    return Some(url.clone());
                }
            },
            _ => {},
        }
        i = i + 1;
    }
    None
}

} // verus!
