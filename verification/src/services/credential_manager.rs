//! The passwords that the client holds in memory, so that the system's
//! secret store is not asked at every connection.

use crate::error::AppError;
use crate::models::server_url::{normalize_url, normalized};
use crate::text::{concat3, opt_view, owned, str_eq};
use vstd::prelude::*;

verus! {

/// The name under which the client's passwords are kept in the system's
/// secret store.
pub const SERVICE_NAME: &'static str = "ntfier";

/// A password held in memory.
#[derive(Debug)]
pub struct CredentialEntry {
    pub username: String,
    pub server_url: String,
    pub password: String,
}

/// The passwords held in memory, by user name and server address.
#[derive(Debug)]
pub struct CredentialCache {
    entries: Vec<CredentialEntry>,
}

/// The map that a list of entries stands for: a later entry of a user on
/// a server counts, an earlier one does not.
pub open spec fn credentials_map(entries: Seq<CredentialEntry>) -> Map<
    (Seq<char>, Seq<char>),
    Seq<char>,
>
    decreases entries.len(),
{
    if entries.len() == 0 {
        Map::empty()
    } else {
        credentials_map(entries.drop_last()).insert(
            (entries.last().username@, entries.last().server_url@),
            entries.last().password@,
        )
    }
}

/// The entries of every user and server but one.
pub open spec fn other_credential(username: Seq<char>, server_url: Seq<char>) -> spec_fn(
    CredentialEntry,
) -> bool {
    |e: CredentialEntry| !(e.username@ == username && e.server_url@ == server_url)
}

/// Leaving the entries of one user on one server out of a list of entries
/// removes them from the map.
proof fn lemma_credentials_without(
    entries: Seq<CredentialEntry>,
    username: Seq<char>,
    server_url: Seq<char>,
)
    ensures
        credentials_map(entries.filter(other_credential(username, server_url)))
            == credentials_map(entries).remove((username, server_url)),
    decreases entries.len(),
{
    reveal(Seq::filter);
    let keep = other_credential(username, server_url);
    if entries.len() == 0 {
        assert(credentials_map(entries).remove((username, server_url)) =~= Map::empty());
    } else {
        lemma_credentials_without(entries.drop_last(), username, server_url);
        let rest = entries.drop_last().filter(keep);
        if keep(entries.last()) {
            assert(rest.push(entries.last()).drop_last() =~= rest);
        }
        assert(credentials_map(entries.filter(keep)) =~= credentials_map(entries).remove(
            (username, server_url),
        ));
    }
}

impl View for CredentialCache {
    type V = Map<(Seq<char>, Seq<char>), Seq<char>>;

    closed spec fn view(&self) -> Map<(Seq<char>, Seq<char>), Seq<char>> {
        credentials_map(self.entries@)
    }
}

/// The key under which the secret store keeps the password of a user on a
/// server: the user name, an underscore, and the server's normalized
/// address.
pub open spec fn keyring_key_of(username: Seq<char>, server_url: Seq<char>) -> Seq<char> {
    username + "_"@ + normalized(server_url)
}

/// The key under which the passwords in memory are found: the user name
/// and the server's normalized address, so that every address that names
/// the server finds the password.
pub open spec fn cache_key(username: Seq<char>, server_url: Seq<char>) -> (Seq<char>, Seq<char>) {
    (username, normalized(server_url))
}

/// The key under which the secret store keeps the password of a user on a
/// server.
pub fn keyring_key(username: &str, server_url: &str) -> (r: String)
    ensures
        r@ == keyring_key_of(username@, server_url@),
{
    concat3(username, "_", normalize_url(server_url))
}

impl CredentialCache {
    /// No passwords.
    pub fn new() -> (r: CredentialCache)
        ensures
            r@ == Map::<(Seq<char>, Seq<char>), Seq<char>>::empty(),
    {
        CredentialCache { entries: Vec::new() }
    }

    /// Forgets the password of a user on a server.
    fn forget(&mut self, username: &str, server_url: &str)
        ensures
            final(self)@ == old(self)@.remove((username@, server_url@)),
    {
        let ghost before = self.entries@;
        let ghost keep = other_credential(username@, server_url@);
        let mut out: Vec<CredentialEntry> = Vec::new();
        let mut i: usize = 0;
        assert(before.subrange(0, 0) =~= Seq::empty());
        assert(Seq::<CredentialEntry>::empty().filter(keep) =~= Seq::empty()) by {
            reveal(Seq::filter);
        }
        while i < self.entries.len()
            invariant
                i <= self.entries.len(),
                self.entries@ == before,
                keep == other_credential(username@, server_url@),
                credentials_map(out@) == credentials_map(
                    before.subrange(0, i as int).filter(keep),
                ),
            decreases self.entries.len() - i,
        {
            let entry = &self.entries[i];
            let hit = str_eq(entry.username.as_str(), username) && str_eq(
                entry.server_url.as_str(),
                server_url,
            );
            proof {
                broadcast use Seq::lemma_filter_push;

                assert(before.subrange(0, i + 1) =~= before.subrange(0, i as int).push(*entry));
                assert(keep(*entry) == !hit);
            }
            if !hit {
                let ghost prev = out@;
                out.push(
                    CredentialEntry {
                        username: entry.username.clone(),
                        server_url: entry.server_url.clone(),
                        password: entry.password.clone(),
                    },
                );
                proof {
                    let kept = before.subrange(0, i as int).filter(keep);
                    assert(out@.drop_last() =~= prev);
                    assert(kept.push(*entry).drop_last() =~= kept);
                }
            }
            i = i + 1;
        }
        proof {
            assert(before.subrange(0, i as int) =~= before);
            lemma_credentials_without(before, username@, server_url@);
        }
        self.entries = out;
    }

    /// The password of a user on a server, where it is held.
    fn lookup(&self, username: &str, server_url: &str) -> (r: Option<String>)
        ensures
            opt_view(r) == if self@.contains_key((username@, server_url@)) {
                Some(self@[(username@, server_url@)])
            } else {
                None
            },
    {
        let ghost key = (username@, server_url@);
        let mut i: usize = self.entries.len();
        assert(self.entries@.subrange(0, i as int) =~= self.entries@);
        while i > 0
            invariant
                i <= self.entries.len(),
                key == (username@, server_url@),
                credentials_map(self.entries@).contains_key(key) == credentials_map(
                    self.entries@.subrange(0, i as int),
                ).contains_key(key),
                credentials_map(self.entries@).contains_key(key) ==> credentials_map(
                    self.entries@,
                )[key] == credentials_map(self.entries@.subrange(0, i as int))[key],
            decreases i,
        {
            let ghost prefix = self.entries@.subrange(0, i as int);
            assert(prefix.drop_last() =~= self.entries@.subrange(0, i - 1));
            assert(prefix.last() == self.entries@[i - 1]);
            let entry = &self.entries[i - 1];
            if str_eq(entry.username.as_str(), username) && str_eq(
                entry.server_url.as_str(),
                server_url,
            ) {
                return Some(entry.password.clone());
            }
            i = i - 1;
        }
        None
    }
}

/// Holds the password of a user on a server in memory, in place of the
/// one that was held. It is called once the secret store has taken the
/// password, and when the secret store has handed one out.
pub fn store_password(
    cache: &mut CredentialCache,
    username: &str,
    server_url: &str,
    password: &str,
) -> (r: Result<(), AppError>)
    ensures
        r is Ok,
        final(cache)@ == old(cache)@.insert(cache_key(username@, server_url@), password@),
{
    let address = normalize_url(server_url);
    cache.forget(username, address);
    let ghost middle = cache.entries@;
    cache.entries.push(
        CredentialEntry {
            username: owned(username),
            server_url: owned(address),
            password: owned(password),
        },
    );
    proof {
        assert(cache.entries@.drop_last() =~= middle);
        assert(cache@ =~= old(cache)@.insert(cache_key(username@, server_url@), password@));
    }
    Ok(())
}

/// The password of a user on a server that is held in memory. Where none
/// is held, the secret store is to be asked.
pub fn get_password(cache: &CredentialCache, username: &str, server_url: &str) -> (r: Result<
    Option<String>,
    AppError,
>)
    ensures
        r is Ok,
        opt_view(r->Ok_0) == if cache@.contains_key(cache_key(username@, server_url@)) {
            Some(cache@[cache_key(username@, server_url@)])
        } else {
            None
        },
{
    Ok(cache.lookup(username, normalize_url(server_url)))
}

/// Forgets the password of a user on a server. It is called before the
/// secret store is told to delete the password.
pub fn delete_password(cache: &mut CredentialCache, username: &str, server_url: &str) -> (r: Result<
    (),
    AppError,
>)
    ensures
        r is Ok,
        final(cache)@ == old(cache)@.remove(cache_key(username@, server_url@)),
{
    cache.forget(username, normalize_url(server_url));
    Ok(())
}

/// Forgets every password.
pub fn clear_cache(cache: &mut CredentialCache) -> (r: Result<(), AppError>)
    ensures
        r is Ok,
        final(cache)@ == Map::<(Seq<char>, Seq<char>), Seq<char>>::empty(),
{
    cache.entries = Vec::new();
    Ok(())
}

} // verus!
