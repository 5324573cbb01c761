//! Relay configuration and the authentication-mode selector.
//!
//! The configuration is held as plain values; reading and writing the
//! configuration file is the surrounding application's business. Relay
//! entries are kept as a key-value list whose keys are unique.

use vstd::prelude::*;

verus! {

/// Per-relay settings.
#[derive(Debug, Clone, Copy, PartialEq, Eq, Structural)]
pub struct RelayConfig {
    /// Read from this relay.
    pub read: bool,
    /// Write to this relay.
    pub write: bool,
    /// This relay supports NIP-50 search.
    pub search: bool,
}

impl Default for RelayConfig {
    /// A relay is read from and written to by default, and not searched.
    fn default() -> (r: Self)
        ensures
            r == (RelayConfig { read: true, write: true, search: false }),
    {
        RelayConfig { read: true, write: true, search: false }
    }
}

/// How the process authenticates for signed operations.
#[derive(Debug, Clone, Copy, PartialEq, Eq, Structural)]
pub enum AuthMode {
    /// A local secret key.
    Local,
    /// A remote signer paired over NIP-46, client-issued mode.
    Nip46,
    /// A remote signer reached through a pre-shared `bunker://` URI.
    Bunker,
}

impl Default for AuthMode {
    /// The default mode is the local key.
    fn default() -> (r: Self)
        ensures
            r == AuthMode::Local,
    {
        AuthMode::Local
    }
}

/// The process configuration.
#[derive(Debug, Clone)]
pub struct Config {
    /// Relay settings, keyed by relay URL; keys are unique.
    pub relays: Vec<(String, RelayConfig)>,
    /// The secret key, in nsec or hex form, if one is configured.
    pub privatekey: Option<String>,
    /// A Nostr Wallet Connect URI, if one is configured.
    pub nwc_uri: Option<String>,
    /// The configured authentication mode, if set explicitly.
    pub auth_mode: Option<AuthMode>,
    /// A `bunker://` URI for the bunker mode.
    pub bunker_uri: Option<String>,
    /// Relays used for the NIP-46 pairing channel.
    pub nip46_relays: Option<Vec<String>>,
    /// Permissions requested over NIP-46, as a comma-separated list.
    pub nip46_perms: Option<String>,
}

/// The URLs of the relays marked for reading, in order.
pub open spec fn read_keys(rs: Seq<(String, RelayConfig)>) -> Seq<Seq<char>>
    decreases rs.len(),
{
    if rs.len() == 0 {
        Seq::empty()
    } else {
        let rest = read_keys(rs.drop_last());
        if rs.last().1.read {
            rest.push(rs.last().0@)
        } else {
            rest
        }
    }
}

/// The URLs of the relays marked for writing, in order.
pub open spec fn write_keys(rs: Seq<(String, RelayConfig)>) -> Seq<Seq<char>>
    decreases rs.len(),
{
    if rs.len() == 0 {
        Seq::empty()
    } else {
        let rest = write_keys(rs.drop_last());
        if rs.last().1.write {
            rest.push(rs.last().0@)
        } else {
            rest
        }
    }
}

/// The URLs of the relays marked for search, in order.
pub open spec fn search_keys(rs: Seq<(String, RelayConfig)>) -> Seq<Seq<char>>
    decreases rs.len(),
{
    if rs.len() == 0 {
        Seq::empty()
    } else {
        let rest = search_keys(rs.drop_last());
        if rs.last().1.search {
            rest.push(rs.last().0@)
        } else {
            rest
        }
    }
}

/// The authentication mode that takes effect: the configured one, else
/// bunker when a `bunker://` URI is present, else local.
pub open spec fn spec_effective_auth_mode(c: Config) -> AuthMode {
    match c.auth_mode {
        Some(m) => m,
        None => if c.bunker_uri is Some {
            AuthMode::Bunker
        } else {
            AuthMode::Local
        },
    }
}

impl Config {
    /// The relay keys are pairwise distinct.
    pub open spec fn wf(self) -> bool {
        forall|i: int, j: int|
            0 <= i < j < self.relays@.len() ==> #[trigger] self.relays@[i].0@ != #[trigger] self
                .relays@[j].0@
    }

    /// The URLs of the relays enabled for reading, in configuration order.
    pub fn read_relays(&self) -> (r: Vec<String>)
        ensures
            r@.map_values(|t: String| t@) == read_keys(self.relays@),
    {
        let mut out: Vec<String> = Vec::new();
        let mut i: usize = 0;
        while i < self.relays.len()
            invariant
                i <= self.relays@.len(),
                out@.map_values(|t: String| t@) == read_keys(self.relays@.take(i as int)),
            decreases self.relays@.len() - i,
        {
            if self.relays[i].1.read {
                let url = self.relays[i].0.clone();
                out.push(url);
            }
            proof {
                assert(self.relays@.take(i + 1).drop_last() =~= self.relays@.take(i as int));
                assert(self.relays@.take(i + 1).last() == self.relays@[i as int]);
                assert(out@.map_values(|t: String| t@) =~= read_keys(self.relays@.take(i + 1)));
            }
            i = i + 1;
        }
        proof {
            assert(self.relays@.take(i as int) =~= self.relays@);
        }
        out
    }

    /// The URLs of the relays enabled for writing, in configuration order.
    pub fn write_relays(&self) -> (r: Vec<String>)
        ensures
            r@.map_values(|t: String| t@) == write_keys(self.relays@),
    {
        let mut out: Vec<String> = Vec::new();
        let mut i: usize = 0;
        while i < self.relays.len()
            invariant
                i <= self.relays@.len(),
                out@.map_values(|t: String| t@) == write_keys(self.relays@.take(i as int)),
            decreases self.relays@.len() - i,
        {
            if self.relays[i].1.write {
                let url = self.relays[i].0.clone();
                out.push(url);
            }
            proof {
                assert(self.relays@.take(i + 1).drop_last() =~= self.relays@.take(i as int));
                assert(self.relays@.take(i + 1).last() == self.relays@[i as int]);
                assert(out@.map_values(|t: String| t@) =~= write_keys(self.relays@.take(i + 1)));
            }
            i = i + 1;
        }
        proof {
            assert(self.relays@.take(i as int) =~= self.relays@);
        }
        out
    }

    /// The URLs of the relays enabled for search, in configuration order.
    pub fn search_relays(&self) -> (r: Vec<String>)
        ensures
            r@.map_values(|t: String| t@) == search_keys(self.relays@),
    {
        let mut out: Vec<String> = Vec::new();
        let mut i: usize = 0;
        while i < self.relays.len()
            invariant
                i <= self.relays@.len(),
                out@.map_values(|t: String| t@) == search_keys(self.relays@.take(i as int)),
            decreases self.relays@.len() - i,
        {
            if self.relays[i].1.search {
                let url = self.relays[i].0.clone();
                out.push(url);
            }
            proof {
                assert(self.relays@.take(i + 1).drop_last() =~= self.relays@.take(i as int));
                assert(self.relays@.take(i + 1).last() == self.relays@[i as int]);
                assert(out@.map_values(|t: String| t@) =~= search_keys(self.relays@.take(i + 1)));
            }
            i = i + 1;
        }
        proof {
            assert(self.relays@.take(i as int) =~= self.relays@);
        }
        out
    }

    /// The authentication mode that takes effect.
    pub fn effective_auth_mode(&self) -> (r: AuthMode)
        ensures
            r == spec_effective_auth_mode(*self),
    {
        match self.auth_mode {
            Some(m) => m,
            None => if self.bunker_uri.is_some() {
                AuthMode::Bunker
            } else {
                AuthMode::Local
            },
        }
    }
}

impl Default for Config {
    /// The default relay set: five public relays, two of them searchable,
    /// one of them read-only; no key, no wallet, no NIP-46 settings.
    fn default() -> (r: Self)
        ensures
            r.relays@.len() == 5,
            r.relays@[0].0@ == "wss://relay.damus.io"@,
            r.relays@[0].1 == (RelayConfig { read: true, write: true, search: false }),
            r.relays@[1].0@ == "wss://nos.lol"@,
            r.relays@[1].1 == (RelayConfig { read: true, write: true, search: false }),
            r.relays@[2].0@ == "wss://relay.nostr.band"@,
            r.relays@[2].1 == (RelayConfig { read: true, write: true, search: true }),
            r.relays@[3].0@ == "wss://nostr.wine"@,
            r.relays@[3].1 == (RelayConfig { read: true, write: false, search: true }),
            r.relays@[4].0@ == "wss://relay.snort.social"@,
            r.relays@[4].1 == (RelayConfig { read: true, write: true, search: false }),
            r.privatekey is None,
            r.nwc_uri is None,
            r.auth_mode is None,
            r.bunker_uri is None,
            r.nip46_relays is None,
            r.nip46_perms is None,
            r.wf(),
    {
        let mut relays: Vec<(String, RelayConfig)> = Vec::new();
        relays.push(
            (
                String::from_str("wss://relay.damus.io"),
                RelayConfig { read: true, write: true, search: false },
            ),
        );
        relays.push(
            (
                String::from_str("wss://nos.lol"),
                RelayConfig { read: true, write: true, search: false },
            ),
        );
        relays.push(
            (
                String::from_str("wss://relay.nostr.band"),
                RelayConfig { read: true, write: true, search: true },
            ),
        );
        relays.push(
            (
                String::from_str("wss://nostr.wine"),
                RelayConfig { read: true, write: false, search: true },
            ),
        );
        relays.push(
            (
                String::from_str("wss://relay.snort.social"),
                RelayConfig { read: true, write: true, search: false },
            ),
        );
        let r = Config {
            relays,
            privatekey: None,
            nwc_uri: None,
            auth_mode: None,
            bunker_uri: None,
            nip46_relays: None,
            nip46_perms: None,
        };
        proof {
            reveal_strlit("wss://relay.damus.io");
            reveal_strlit("wss://nos.lol");
            reveal_strlit("wss://relay.nostr.band");
            reveal_strlit("wss://nostr.wine");
            reveal_strlit("wss://relay.snort.social");
            assert(r.wf()) by {
                assert(r.relays@[0].0@.len() == 20);
                assert(r.relays@[1].0@.len() == 13);
                assert(r.relays@[2].0@.len() == 22);
                assert(r.relays@[3].0@.len() == 16);
                assert(r.relays@[4].0@.len() == 24);
            }
        }
        r
    }
}

} // verus!
