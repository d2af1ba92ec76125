//! Server addresses, compared without regard to slashes at their end.

use crate::text::{
    concat3, owned, str_eq, trim_end, trim_end_matches, trim_start, trim_start_matches,
};
use vstd::prelude::*;

verus! {

/// The form in which an address identifies a server: `url` without the
/// slashes at its end.
pub open spec fn normalized(url: Seq<char>) -> Seq<char> {
    trim_end(url, '/')
}

/// Whether two addresses name the same server.
pub open spec fn same_url(a: Seq<char>, b: Seq<char>) -> bool {
    normalized(a) == normalized(b)
}

/// A normalized address ends in no slash.
pub proof fn lemma_normalized_has_no_trailing_slash(url: Seq<char>)
    ensures
        normalized(url).len() > 0 ==> normalized(url).last() != '/',
        normalized(url).len() <= url.len(),
        normalized(url) == url.subrange(0, normalized(url).len() as int),
    decreases url.len(),
{
    if url.len() > 0 && url.last() == '/' {
        lemma_normalized_has_no_trailing_slash(url.drop_last());
        assert(url.drop_last().subrange(0, normalized(url).len() as int) == url.subrange(
            0,
            normalized(url).len() as int,
        ));
    } else {
        assert(url.subrange(0, url.len() as int) == url);
    }
}

/// Normalizing twice changes nothing more.
pub proof fn lemma_normalized_idempotent(url: Seq<char>)
    ensures
        normalized(normalized(url)) == normalized(url),
{
    lemma_normalized_has_no_trailing_slash(url);
}

/// An address and the same address with one more slash at its end name the
/// same server.
pub proof fn law_trailing_slash_ignored(url: Seq<char>)
    ensures
        normalized(url.push('/')) == normalized(url),
        same_url(url, url.push('/')),
        same_url(url.push('/'), url),
{
    assert(url.push('/').drop_last() == url);
}

/// Naming the same server is an equivalence, and every address names the
/// server that its normalized form names.
pub proof fn law_same_url_is_equivalence(a: Seq<char>, b: Seq<char>, c: Seq<char>)
    ensures
        same_url(a, a),
        same_url(a, b) == same_url(b, a),
        same_url(a, b) && same_url(b, c) ==> same_url(a, c),
        same_url(a, normalized(a)),
{
    lemma_normalized_idempotent(a);
}

/// The address without the slashes at its end.
pub fn normalize_url(url: &str) -> (r: &str)
    ensures
        r@ == normalized(url@),
{
    trim_end_matches(url, '/')
}

/// Whether two addresses name the same server.
pub fn urls_match(url1: &str, url2: &str) -> (r: bool)
    ensures
        r == same_url(url1@, url2@),
{
    str_eq(normalize_url(url1), normalize_url(url2))
}

/// A server address kept in normalized form.
#[derive(Debug, PartialEq, Eq, Hash)]
pub struct ServerUrl(String);

impl Clone for ServerUrl {
    fn clone(&self) -> (r: ServerUrl)
        ensures
            r@ == self@,
    {
        proof {
            use_type_invariant(self);
        }
        ServerUrl(self.0.clone())
    }
}

impl View for ServerUrl {
    type V = Seq<char>;

    closed spec fn view(&self) -> Seq<char> {
        self.0@
    }
}

impl ServerUrl {
    #[verifier::type_invariant]
    closed spec fn is_normalized(self) -> bool {
        normalized(self.0@) == self.0@
    }

    /// The normalized form of `url`.
    pub fn new(url: &str) -> (r: ServerUrl)
        ensures
            r@ == normalized(url@),
    {
        proof {
            lemma_normalized_idempotent(url@);
        }
        ServerUrl(owned(normalize_url(url)))
    }

    /// The address, which ends in no slash.
    pub fn as_str(&self) -> (r: &str)
        ensures
            r@ == self@,
            normalized(self@) == self@,
    {
        proof {
            use_type_invariant(self);
        }
        self.0.as_str()
    }

    /// Whether `other` names this server.
    pub fn matches(&self, other: &str) -> (r: bool)
        ensures
            r == same_url(self@, other@),
    {
        proof {
            use_type_invariant(self);
        }
        str_eq(self.0.as_str(), normalize_url(other))
    }

    /// The address of `path` on this server: the server's address, one
    /// slash, and `path` without the slashes at its start.
    pub fn join(&self, path: &str) -> (r: String)
        ensures
            r@ == self@ + seq!['/'] + trim_start(path@, '/'),
    {
        proof {
            reveal_strlit("/");
            assert("/"@ =~= seq!['/']);
        }
        concat3(self.0.as_str(), "/", trim_start_matches(path, '/'))
    }
}

} // verus!
