//! The vault's naming and choices: keychain keys, SVN hosts and accounts.
//!
//! Service `svnpush`; SVN passwords under `svn:<host>:<username>`, AI keys
//! under `ai:<provider-id>`. The keychain itself is reached through a
//! [`CredentialStore`].

use vstd::prelude::*;

use crate::secret::Secret;
use crate::strings::{find, find_chars, from_chars, lower, slice_chars, split_char, split_on, to_chars, to_lower};

verus! {

broadcast use vstd::string::group_string_axioms;

/// The keychain service name.
pub const SERVICE: &'static str = "svnpush";

/// A vault failure.
pub enum VaultError {
    /// No usable keychain on this system.
    Unavailable { detail: String },
    /// The keychain refused or failed an operation.
    Backend { action: String, detail: String },
}

impl VaultError {
    /// The stable error code.
    pub fn code(&self) -> (c: &'static str)
        ensures
            self is Unavailable ==> c@ == "VAULT_UNAVAILABLE"@,
            self is Backend ==> c@ == "VAULT_BACKEND"@,
    {
        match self {
            VaultError::Unavailable { .. } => "VAULT_UNAVAILABLE",
            VaultError::Backend { .. } => "VAULT_BACKEND",
        }
    }

    /// What to do about it.
    pub fn fix(&self) -> (f: String)
        ensures
            self is Unavailable ==> f@ == "Install and unlock a Secret Service keyring (for example GNOME Keyring or KWallet). SVNpush never stores secrets in a file, so publishing and AI stay unavailable until a keychain works."@,
            self is Backend ==> f@ == "Unlock your keychain and try again."@,
    {
        match self {
            VaultError::Unavailable { .. } => "Install and unlock a Secret Service keyring (for example GNOME Keyring or KWallet). SVNpush never stores secrets in a file, so publishing and AI stay unavailable until a keychain works.".to_owned(),
            VaultError::Backend { .. } => "Unlock your keychain and try again.".to_owned(),
        }
    }

    /// What went wrong, in one sentence.
    pub fn message(&self) -> (m: String)
        ensures
            self matches VaultError::Unavailable { detail } ==> m@ == "the operating system keychain is not available: "@ + detail@,
            self matches VaultError::Backend { action, detail } ==> m@ == "the keychain could not "@ + action@ + " the secret: "@ + detail@,
    {
        match self {
            VaultError::Unavailable { detail } => {
                let mut m = "the operating system keychain is not available: ".to_owned();
                m.append(detail.as_str());
                m
            },
            VaultError::Backend { action, detail } => {
                let mut m = "the keychain could not ".to_owned();
                m.append(action.as_str());
                m.append(" the secret: ");
                m.append(detail.as_str());
                m
            },
        }
    }
}

/// Reads and writes secrets by key.
pub trait CredentialStore {
    /// The secret under `key`, or `None` when there is none.
    fn get(&self, key: &str) -> Result<Option<Secret>, VaultError>;

    /// Stores `secret` under `key`, replacing any previous value.
    fn set(&self, key: &str, secret: &Secret) -> Result<(), VaultError>;

    /// Removes the secret under `key`; a missing entry is not an error.
    fn delete(&self, key: &str) -> Result<(), VaultError>;
}

/// The keychain key for an SVN password.
pub open spec fn svn_key_spec(host: Seq<char>, username: Seq<char>) -> Seq<char> {
    "svn:"@ + host + ":"@ + username
}

/// The keychain key for an SVN password.
pub fn svn_key(host: &str, username: &str) -> (k: String)
    ensures
        k@ == svn_key_spec(host@, username@),
{
    let mut k = "svn:".to_owned();
    k.append(host);
    k.append(":");
    k.append(username);
    k
}

/// The keychain key for an AI provider's API key.
pub fn ai_key(provider_id: &str) -> (k: String)
    ensures
        k@ == "ai:"@ + provider_id@,
{
    let mut k = "ai:".to_owned();
    k.append(provider_id);
    k
}

/// The host part of an SVN URL, lowercased; the scheme (such as `file`) when
/// the URL names no host.
pub open spec fn svn_host_spec(url: Seq<char>) -> Seq<char> {
    let (scheme, rest) = match find(url, "://"@) {
        Some(i) => (url.take(i), url.skip(i + 3)),
        None => (Seq::empty(), url),
    };
    let host = split_char(rest, '/')[0];
    if host.len() == 0 {
        scheme
    } else {
        lower(host)
    }
}

/// The host part of an SVN URL: `plugins.svn.wordpress.org`, or `file` for local repositories.
pub fn svn_host(url: &str) -> (h: String)
    ensures
        h@ == svn_host_spec(url@),
{
    let chars = to_chars(url);
    let sep = to_chars("://");
    proof {
        reveal_strlit("://");
    }
    let n = chars.len();
    let (scheme, rest) = match find_chars(chars.as_slice(), sep.as_slice()) {
        Some(i) => {
            assert(i + 3 <= n);
            let a = slice_chars(chars.as_slice(), 0, i);
            let b = slice_chars(chars.as_slice(), i + 3, n);
            proof {
                assert(a@ =~= url@.take(i as int));
                assert(b@ =~= url@.skip(i + 3));
            }
            (a, b)
        },
        None => {
            let b = slice_chars(chars.as_slice(), 0, n);
            proof {
                assert(b@ =~= url@);
            }
            (Vec::new(), b)
        },
    };
    let pieces = split_on(rest.as_slice(), '/');
    proof {
        crate::strings::lemma_split_char_len(rest@, '/');
    }
    if pieces[0].len() == 0 {
        from_chars(scheme.as_slice())
    } else {
        from_chars(to_lower(pieces[0].as_slice()).as_slice())
    }
}

/// An SVN account known to the vault. The password is in the keychain.
pub struct SvnAccount {
    /// Server host, for example `plugins.svn.wordpress.org`.
    pub host: String,
    /// Username.
    pub username: String,
}

impl SvnAccount {
    /// This account's keychain key.
    pub fn key(&self) -> (k: String)
        ensures
            k@ == svn_key_spec(self.host@, self.username@),
    {
        svn_key(self.host.as_str(), self.username.as_str())
    }
}

/// How many of `accounts` are on `host`.
pub open spec fn count_on_host(accounts: Seq<SvnAccount>, host: Seq<char>) -> nat
    decreases accounts.len(),
{
    if accounts.len() == 0 {
        0
    } else {
        count_on_host(accounts.drop_last(), host) + if accounts.last().host@ == host {
            1nat
        } else {
            0nat
        }
    }
}

/// The index of the first account on `host` named `username`.
pub open spec fn chosen_index(accounts: Seq<SvnAccount>, host: Seq<char>, username: Seq<char>) -> Option<int>
    decreases accounts.len(),
{
    if accounts.len() == 0 {
        None
    } else if accounts[0].host@ == host && accounts[0].username@ == username {
        Some(0)
    } else {
        match chosen_index(accounts.skip(1), host, username) {
            Some(k) => Some(k + 1),
            None => None,
        }
    }
}

/// The account a project uses on `host`: the index of the chosen username's
/// account there, or of the only account there when none is chosen.
pub open spec fn resolve_spec(accounts: Seq<SvnAccount>, host: Seq<char>, chosen: Option<Seq<char>>) -> Option<int> {
    match chosen {
        Some(u) => chosen_index(accounts, host, u),
        None => if count_on_host(accounts, host) == 1 {
            Some(choose|i: int| 0 <= i < accounts.len() && accounts[i].host@ == host)
        } else {
            None
        },
    }
}

proof fn lemma_count_prefix(accounts: Seq<SvnAccount>, host: Seq<char>, i: int)
    requires
        0 <= i < accounts.len(),
    ensures
        count_on_host(accounts.take(i + 1), host) == count_on_host(accounts.take(i), host) + if accounts[i].host@ == host {
            1nat
        } else {
            0nat
        },
{
    assert(accounts.take(i + 1).drop_last() =~= accounts.take(i));
}

proof fn lemma_count_one(accounts: Seq<SvnAccount>, host: Seq<char>, k: int)
    requires
        0 <= k < accounts.len(),
        accounts[k].host@ == host,
        forall|j: int| 0 <= j < accounts.len() && j != k ==> (#[trigger] accounts[j]).host@ != host,
    ensures
        count_on_host(accounts, host) == 1,
        forall|j: int| 0 <= j < accounts.len() && (#[trigger] accounts[j]).host@ == host ==> j == k,
    decreases accounts.len(),
{
    if accounts.len() > 0 {
        let d = accounts.drop_last();
        if k == accounts.len() - 1 {
            lemma_count_zero(d, host);
        } else {
            assert forall|j: int| 0 <= j < d.len() && j != k implies (#[trigger] d[j]).host@ != host by {
                assert(d[j] == accounts[j]);
            }
            lemma_count_one(d, host, k);
        }
    }
}

proof fn lemma_count_zero(accounts: Seq<SvnAccount>, host: Seq<char>)
    requires
        forall|j: int| 0 <= j < accounts.len() ==> (#[trigger] accounts[j]).host@ != host,
    ensures
        count_on_host(accounts, host) == 0,
    decreases accounts.len(),
{
    if accounts.len() > 0 {
        let d = accounts.drop_last();
        assert forall|j: int| 0 <= j < d.len() implies (#[trigger] d[j]).host@ != host by {
            assert(d[j] == accounts[j]);
        }
        lemma_count_zero(d, host);
    }
}

proof fn lemma_chosen_at(accounts: Seq<SvnAccount>, host: Seq<char>, username: Seq<char>, k: int)
    requires
        0 <= k < accounts.len(),
        accounts[k].host@ == host && accounts[k].username@ == username,
        forall|j: int| 0 <= j < k ==> !((#[trigger] accounts[j]).host@ == host && accounts[j].username@ == username),
    ensures
        chosen_index(accounts, host, username) == Some(k),
    decreases k,
{
    if k > 0 {
        assert forall|j: int| 0 <= j < k - 1 implies !((#[trigger] accounts.skip(1)[j]).host@ == host
            && accounts.skip(1)[j].username@ == username) by {
            assert(accounts.skip(1)[j] == accounts[j + 1]);
        }
        lemma_chosen_at(accounts.skip(1), host, username, k - 1);
    }
}

proof fn lemma_chosen_none(accounts: Seq<SvnAccount>, host: Seq<char>, username: Seq<char>)
    requires
        forall|j: int| 0 <= j < accounts.len() ==> !((#[trigger] accounts[j]).host@ == host && accounts[j].username@ == username),
    ensures
        chosen_index(accounts, host, username) is None,
    decreases accounts.len(),
{
    if accounts.len() > 0 {
        assert forall|j: int| 0 <= j < accounts.len() - 1 implies !((#[trigger] accounts.skip(1)[j]).host@ == host
            && accounts.skip(1)[j].username@ == username) by {
            assert(accounts.skip(1)[j] == accounts[j + 1]);
        }
        lemma_chosen_none(accounts.skip(1), host, username);
    }
}

/// The account a project uses on `host`: the chosen username, or the only account for that host.
pub fn resolve_account<'a>(accounts: &'a [SvnAccount], host: &str, chosen: Option<&str>) -> (r: Option<&'a SvnAccount>)
    ensures
        match resolve_spec(accounts@, host@, match chosen {
            Some(c) => Some(c@),
            None => None,
        }) {
            Some(k) => r matches Some(a) && *a == accounts@[k],
            None => r is None,
        },
{
    let wanted = host.to_owned();
    match chosen {
        Some(u) => {
            let name = u.to_owned();
            let mut i: usize = 0;
            while i < accounts.len()
                invariant
                    i <= accounts@.len(),
                    wanted@ == host@,
                    name@ == u@,
                    chosen == Some(u),
                    forall|j: int| 0 <= j < i ==> !((#[trigger] accounts@[j]).host@ == host@ && accounts@[j].username@ == u@),
                decreases accounts@.len() - i,
            {
                if accounts[i].host == wanted && accounts[i].username == name {
                    proof {
                        lemma_chosen_at(accounts@, host@, u@, i as int);
                    }
                    return Some(&accounts[i]);
                }
                i = i + 1;
            }
            proof {
                lemma_chosen_none(accounts@, host@, u@);
            }
            None
        },
        None => {
            let mut count: usize = 0;
            let mut found: usize = 0;
            let mut i: usize = 0;
            while i < accounts.len()
                invariant
                    i <= accounts@.len(),
                    wanted@ == host@,
                    count == count_on_host(accounts@.take(i as int), host@),
                    count <= i,
                    count >= 1 ==> found < i && accounts@[found as int].host@ == host@,
                    count == 1 ==> forall|j: int| 0 <= j < i && j != found ==> (#[trigger] accounts@[j]).host@ != host@,
                    count == 0 ==> forall|j: int| 0 <= j < i ==> (#[trigger] accounts@[j]).host@ != host@,
                decreases accounts@.len() - i,
            {
                proof {
                    lemma_count_prefix(accounts@, host@, i as int);
                }
                if accounts[i].host == wanted {
                    if count == 0 {
                        found = i;
                    }
                    count = count + 1;
                }
                i = i + 1;
            }
            proof {
                assert(accounts@.take(accounts@.len() as int) =~= accounts@);
            }
            if count == 1 {
                proof {
                    lemma_count_one(accounts@, host@, found as int);
                    let k = choose|k: int| 0 <= k < accounts@.len() && accounts@[k].host@ == host@;
                    assert(k == found);
                }
                Some(&accounts[found])
            } else {
                None
            }
        },
    }
}

proof fn lemma_chosen_index_names_the_account(accounts: Seq<SvnAccount>, host: Seq<char>, username: Seq<char>)
    ensures
        chosen_index(accounts, host, username) matches Some(k) ==> 0 <= k < accounts.len() && accounts[k].host@
            == host && accounts[k].username@ == username,
        (exists|j: int| 0 <= j < accounts.len() && (#[trigger] accounts[j]).host@ == host && accounts[j].username@
            == username) ==> chosen_index(accounts, host, username) is Some,
    decreases accounts.len(),
{
    if accounts.len() > 0 {
        lemma_chosen_index_names_the_account(accounts.skip(1), host, username);
        if exists|j: int| 0 <= j < accounts.len() && (#[trigger] accounts[j]).host@ == host && accounts[j].username@
            == username {
            let j = choose|j: int| 0 <= j < accounts.len() && (#[trigger] accounts[j]).host@ == host
                && accounts[j].username@ == username;
            if j > 0 {
                assert(accounts.skip(1)[j - 1] == accounts[j]);
            }
        }
    }
}

proof fn lemma_count_on_host_some(accounts: Seq<SvnAccount>, host: Seq<char>)
    ensures
        count_on_host(accounts, host) > 0 ==> exists|i: int| 0 <= i < accounts.len() && (#[trigger] accounts[i]).host@
            == host,
    decreases accounts.len(),
{
    if accounts.len() > 0 {
        lemma_count_on_host_some(accounts.drop_last(), host);
        if count_on_host(accounts.drop_last(), host) > 0 {
            let i = choose|i: int| 0 <= i < accounts.drop_last().len() && (#[trigger] accounts.drop_last()[i]).host@
                == host;
            assert(accounts[i] == accounts.drop_last()[i]);
        } else if accounts.last().host@ == host {
            assert(accounts[accounts.len() - 1].host@ == host);
        }
    }
}

/// The account a project uses on a host is always one of the vault's
/// accounts on that host: the chosen username's, which is found whenever
/// the vault has it, or, with none chosen, the only account on the host.
pub proof fn lemma_resolved_account_is_on_the_host(accounts: Seq<SvnAccount>, host: Seq<char>, chosen: Option<Seq<char>>)
    ensures
        resolve_spec(accounts, host, chosen) matches Some(k) ==> 0 <= k < accounts.len() && accounts[k].host@ == host
            && (chosen matches Some(u) ==> accounts[k].username@ == u),
        match chosen {
            Some(u) => (exists|j: int| 0 <= j < accounts.len() && (#[trigger] accounts[j]).host@ == host
                && accounts[j].username@ == u) ==> resolve_spec(accounts, host, chosen) is Some,
            None => (resolve_spec(accounts, host, chosen) is Some <==> count_on_host(accounts, host) == 1),
        },
{
    match chosen {
        Some(u) => lemma_chosen_index_names_the_account(accounts, host, u),
        None => lemma_count_on_host_some(accounts, host),
    }
}

} // verus!
