//! Which image a notification shows, and under which name it is kept.

use crate::models::notification::{attachment_views, Attachment, AttachmentView};
use crate::services::markdown::{
    first_image, first_image_of_events, markdown_events, parse_markdown,
};
use crate::text::{concat3, hex, hex_string, opt_view, starts_with, str_starts_with, views};
use vstd::prelude::*;
use vstd::string::*;

verus! {

/// How an image lies.
#[derive(Debug, Clone, Copy, PartialEq, Eq, Structural)]
pub enum ImageOrientation {
    /// At least as wide as high: shown above the text.
    Landscape,
    /// Higher than wide: shown within the text.
    Portrait,
}

/// An image that is kept in a file.
#[derive(Debug)]
pub struct CachedImage {
    /// Where the file is.
    pub path: String,
    pub orientation: ImageOrientation,
}

/// The largest image, in bytes, that is kept.
pub const MAX_IMAGE_BYTES: usize = 10485760;

/// How an image of a width and a height lies.
pub fn orientation_of(width: u32, height: u32) -> (r: ImageOrientation)
    ensures
        r == if height > width {
            ImageOrientation::Portrait
        } else {
            ImageOrientation::Landscape
        },
{
    if height > width {
        ImageOrientation::Portrait
    } else {
        ImageOrientation::Landscape
    }
}

/// Where `c` stands last in `s`, and -1 where it does not stand in it.
pub open spec fn last_index_of(s: Seq<char>, c: char) -> int
    decreases s.len(),
{
    if s.len() == 0 {
        -1
    } else if s.last() == c {
        s.len() - 1
    } else {
        last_index_of(s.drop_last(), c)
    }
}

/// What follows the last `c` in `s`: all of `s` where `c` is not in it.
pub open spec fn after_last(s: Seq<char>, c: char) -> Seq<char> {
    s.subrange(last_index_of(s, c) + 1, s.len() as int)
}

/// The number of a character, with the capital letters of ASCII taken for
/// their small letters.
pub open spec fn lower_code(c: char) -> int {
    if 'A' <= c <= 'Z' {
        c as u32 + 32
    } else {
        c as u32 as int
    }
}

/// Whether two texts are the same but for the case of letters of ASCII.
pub open spec fn same_ignoring_case(a: Seq<char>, b: Seq<char>) -> bool {
    a.len() == b.len() && forall|i: int|
        0 <= i < a.len() ==> lower_code(#[trigger] a[i]) == lower_code(b[i])
}

/// Whether a file of images may end in `ext`.
pub open spec fn is_image_extension(ext: Seq<char>) -> bool {
    same_ignoring_case(ext, "jpg"@) || same_ignoring_case(ext, "jpeg"@) || same_ignoring_case(
        ext,
        "png"@,
    ) || same_ignoring_case(ext, "gif"@) || same_ignoring_case(ext, "webp"@)
        || same_ignoring_case(ext, "bmp"@)
}

/// The ending of the file that keeps the image of an address: what
/// follows the last dot of what follows the last slash, where files of
/// images may end in it, and `png` otherwise.
pub open spec fn cache_extension(url: Seq<char>) -> Seq<char> {
    let ext = after_last(after_last(url, '/'), '.');
    if is_image_extension(ext) {
        ext
    } else {
        "png"@
    }
}

/// What follows the last `c` in `s`.
pub fn str_after_last<'a>(s: &'a str, c: char) -> (r: &'a str)
    ensures
        r@ == after_last(s@, c),
{
    let n: usize = s.unicode_len();
    let mut i: usize = n;
    assert(s@.subrange(0, n as int) =~= s@);
    while i > 0 && s.get_char(i - 1) != c
        invariant
            i <= n,
            n == s@.len(),
            last_index_of(s@, c) == last_index_of(s@.subrange(0, i as int), c),
        decreases i,
    {
        assert(s@.subrange(0, i as int).drop_last() =~= s@.subrange(0, i - 1));
        i = i - 1;
    }
    proof {
        if i > 0 {
            assert(s@.subrange(0, i as int).last() == c);
        }
    }
    s.substring_char(i, n)
}

/// Whether `a` is `word` but for the case of letters of ASCII.
pub fn eq_ignoring_case(a: &str, word: &str) -> (r: bool)
    ensures
        r == same_ignoring_case(a@, word@),
{
    let n: usize = a.unicode_len();
    if n != word.unicode_len() {
        return false;
    }
    let mut i: usize = 0;
    while i < n
        invariant
            i <= n,
            n == a@.len(),
            n == word@.len(),
            forall|j: int| 0 <= j < i ==> lower_code(#[trigger] a@[j]) == lower_code(word@[j]),
        decreases n - i,
    {
        let x = a.get_char(i);
        let y = word.get_char(i);
        let lx: u32 = if 'A' <= x && x <= 'Z' {
            x as u32 + 32
        } else {
            x as u32
        };
        let ly: u32 = if 'A' <= y && y <= 'Z' {
            y as u32 + 32
        } else {
            y as u32
        };
        if lx != ly {
            assert(lower_code(a@[i as int]) != lower_code(word@[i as int]));
            return false;
        }
        i = i + 1;
    }
    true
}

/// The ending of the file that keeps the image of an address.
pub fn extension_for(url: &str) -> (r: &str)
    ensures
        r@ == cache_extension(url@),
{
    let ext = str_after_last(str_after_last(url, '/'), '.');
    if eq_ignoring_case(ext, "jpg") || eq_ignoring_case(ext, "jpeg") || eq_ignoring_case(
        ext,
        "png",
    ) || eq_ignoring_case(ext, "gif") || eq_ignoring_case(ext, "webp") || eq_ignoring_case(
        ext,
        "bmp",
    ) {
        ext
    } else {
        "png"
    }
}

/// The hash of a text, from `std::hash::BuildHasher::hash_one` with the
/// default hasher of std in its initial state. Std does not say which
/// function that is, so nothing is claimed of the number.
#[verifier::external_body]
pub(crate) fn hash_of(text: &str) -> u64 {
    std::hash::BuildHasher::hash_one(
        &std::hash::BuildHasherDefault::<std::collections::hash_map::DefaultHasher>::default(),
        text,
    )
}

/// The name of the file that keeps an image, made of a hash and the
/// address of the image: the hash in base 16, a dot, and the ending that
/// goes with the address.
pub fn cache_filename_for(hash: u64, url: &str) -> (r: String)
    ensures
        r@ == hex(hash as nat) + "."@ + cache_extension(url@),
{
    let name = hex_string(hash);
    concat3(name.as_str(), ".", extension_for(url))
}

/// The name of the file that keeps the image of an address.
pub fn get_cache_filename(url: &str) -> (r: String)
    ensures
        exists|hash: u64| r@ == hex(hash as nat) + "."@ + #[trigger] cache_extension(url@),
        r@.len() >= 2,
{
    let hash = hash_of(url);
    let r = cache_filename_for(hash, url);
    proof {
        reveal_strlit(".");
        assert(r@ == hex(hash as nat) + "."@ + cache_extension(url@));
    }
    r
}

/// The address of the first image in a rich text.
pub open spec fn first_image_of_text(text: Seq<char>) -> Option<Seq<char>> {
    first_image(markdown_events(text))
}

/// The address of the first image in a rich text.
pub fn extract_first_image_from_markdown(text: &str) -> (r: Option<String>)
    ensures
        opt_view(r) == first_image_of_text(text@),
{
    let events = parse_markdown(text);
    first_image_of_events(&events)
}

/// The address of the first attached file that is an image: one whose
/// type starts with `image/`.
pub open spec fn first_image_attachment(attachments: Seq<AttachmentView>) -> Option<Seq<char>>
    decreases attachments.len(),
{
    if attachments.len() == 0 {
        None
    } else if starts_with(attachments.first().attachment_type, "image/"@) {
        Some(attachments.first().url)
    } else {
        first_image_attachment(attachments.drop_first())
    }
}

/// The addresses to try for the image of a notification, in their order:
/// the first attached image, then the image that `in_message` found in
/// the message.
pub open spec fn candidates(attachments: Seq<AttachmentView>, in_message: Option<Seq<char>>) -> Seq<
    Seq<char>,
> {
    let first = match first_image_attachment(attachments) {
        Some(u) => seq![u],
        None => Seq::empty(),
    };
    match in_message {
        Some(u) => first.push(u),
        None => first,
    }
}

/// The address of the first attached file that is an image.
pub fn find_image_attachment(attachments: &Vec<Attachment>) -> (r: Option<String>)
    ensures
        opt_view(r) == first_image_attachment(attachment_views(attachments@)),
{
    let ghost all = attachment_views(attachments@);
    let mut i: usize = 0;
    assert(all.subrange(0, all.len() as int) =~= all);
    while i < attachments.len()
        invariant
            i <= attachments.len(),
            all == attachment_views(attachments@),
            first_image_attachment(all) == first_image_attachment(
                all.subrange(i as int, all.len() as int),
            ),
        decreases attachments.len() - i,
    {
        let a = &attachments[i];
        proof {
            let rest = all.subrange(i as int, all.len() as int);
            assert(rest.first() == a@);
            assert(rest.drop_first() =~= all.subrange(i + 1, all.len() as int));
        }
        if str_starts_with(a.attachment_type.as_str(), "image/") {
            return Some(a.url.clone());
        }
        i = i + 1;
    }
    None
}

/// The addresses to try for the image of a notification, in their order:
/// the first attached image, then the first image of the message.
pub fn image_candidates(attachments: &Vec<Attachment>, message: &str) -> (r: Vec<String>)
    ensures
        views(r@) == candidates(attachment_views(attachments@), first_image_of_text(message@)),
{
    let mut out: Vec<String> = Vec::new();
    match find_image_attachment(attachments) {
        Some(u) => {
            out.push(u);
        },
        None => {},
    }
    match extract_first_image_from_markdown(message) {
        Some(u) => {
            out.push(u);
        },
        None => {},
    }
    assert(views(out@) =~= candidates(
        attachment_views(attachments@),
        first_image_of_text(message@),
    ));
    out
}

/// Whether what came back for an address is kept as an image: where a
/// type is stated it must start with `image/`, and the size must not be
/// over the limit.
pub fn accepts_image(content_type: Option<&str>, size: usize) -> (r: bool)
    ensures
        r == ((match content_type {
            Some(t) => starts_with(t@, "image/"@),
            None => true,
        }) && size <= MAX_IMAGE_BYTES),
{
    let typed = match content_type {
        Some(t) => str_starts_with(t, "image/"),
        None => true,
    };
    typed && size <= MAX_IMAGE_BYTES
}

/// Whether a kept image of an age is to be removed: once it is older than
/// the age allowed.
pub fn is_expired(age_secs: u64, max_age_secs: u64) -> (r: bool)
    ensures
        r == (age_secs > max_age_secs),
{
    age_secs > max_age_secs
}

} // verus!
