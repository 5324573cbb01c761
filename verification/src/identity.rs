//! The identity gate: the single source of truth for whether the process can
//! currently sign, and as whom.
//!
//! The identity gate holds four pieces of state that must always change together: the
//! write flag, the active identity, the signer handle and the source. A
//! remote pairing is an overlay over any local-key configuration present at
//! start: deactivating it falls back to the local key instead of clearing
//! write access.

use vstd::prelude::*;
use nostr_sdk::prelude::FromBech32;
use crate::textutil::{spec_trim, trim_spaces};

verus! {

/// An opaque public-key-like value identifying who signs, independent of
/// where the signing capability lives. Held in hex form.
#[derive(Debug, Clone)]
pub struct Identity {
    /// The public key, hex-encoded.
    pub hex: String,
}

impl Identity {
    /// An identical copy, with the contents pinned down.
    pub fn duplicate(&self) -> (r: Identity)
        ensures
            r.hex@ == self.hex@,
    {
        Identity { hex: self.hex.clone() }
    }
}

/// A ticket referring to a live signer connection owned by the runtime. The
/// gate holds at most one, and hands it out to nobody: a superseded handle
/// is dropped, never reused.
#[derive(Debug, Clone, Copy, PartialEq, Eq, Structural)]
pub struct SignerHandle {
    /// The runtime's ticket for the connection.
    pub id: u64,
}

/// Where the active signing capability lives.
#[derive(Debug, Clone, Copy, PartialEq, Eq, Structural)]
pub enum IdentitySource {
    /// No signing capability.
    Absent,
    /// A local key held by the process.
    Local,
    /// A remote signer reached over the pairing channel.
    Remote,
}

/// The error returned to write-gated operations while no signing capability
/// is active.
#[derive(Debug, Clone, Copy, PartialEq, Eq, Structural)]
pub struct NoWriteAccess;

/// The process's authentication state. All four fields change together,
/// and the type invariant ties them: write access exactly when an identity
/// is bound, and a remote source always carries a signer handle.
pub struct IdentityGate {
    write_enabled: bool,
    active_identity: Option<Identity>,
    signer_handle: Option<SignerHandle>,
    source: IdentitySource,
    local_identity: Option<Identity>,
}

impl IdentityGate {
    /// Whether a write-gated operation would be allowed now.
    pub closed spec fn spec_write_enabled(self) -> bool {
        self.write_enabled
    }

    /// The hex form of the active identity, if one is bound.
    pub closed spec fn spec_identity(self) -> Option<Seq<char>> {
        match self.active_identity {
            Some(id) => Some(id.hex@),
            None => None,
        }
    }

    /// The signer handle, if a remote signer is active.
    pub closed spec fn spec_handle(self) -> Option<SignerHandle> {
        self.signer_handle
    }

    /// Where the active signing capability lives.
    pub closed spec fn spec_source(self) -> IdentitySource {
        self.source
    }

    /// The hex form of the local identity configured at start, if any.
    pub closed spec fn spec_local(self) -> Option<Seq<char>> {
        match self.local_identity {
            Some(id) => Some(id.hex@),
            None => None,
        }
    }

    /// The four fields agree with one another.
    #[verifier::type_invariant]
    closed spec fn inv(self) -> bool {
        &&& self.write_enabled <==> self.active_identity is Some
        &&& self.source is Remote ==> self.signer_handle is Some
        &&& self.source is Absent ==> self.active_identity is None
        &&& !(self.source is Remote) ==> self.signer_handle is None
        &&& self.source is Local ==> {
            &&& self.local_identity is Some
            &&& self.active_identity is Some
            &&& self.active_identity->0.hex@ == self.local_identity->0.hex@
        }
    }

    /// A fresh gate: bound to the local key when one is configured, else
    /// without write access.
    pub fn new(local: Option<Identity>) -> (r: IdentityGate)
        ensures
            r.spec_local() == match local {
                Some(id) => Some::<Seq<char>>(id.hex@),
                None => None::<Seq<char>>,
            },
            r.spec_identity() == r.spec_local(),
            r.spec_write_enabled() <==> local is Some,
            r.spec_handle() is None,
            r.spec_source() == if local is Some {
                IdentitySource::Local
            } else {
                IdentitySource::Absent
            },
    {
        match local {
            Some(id) => IdentityGate {
                write_enabled: true,
                active_identity: Some(id.duplicate()),
                signer_handle: None,
                source: IdentitySource::Local,
                local_identity: Some(id),
            },
            None => IdentityGate {
                write_enabled: false,
                active_identity: None,
                signer_handle: None,
                source: IdentitySource::Absent,
                local_identity: None,
            },
        }
    }

    /// Atomically binds a remote identity and its signer handle, replacing
    /// whatever was active. All four fields change together.
    pub fn activate(&mut self, identity: Identity, handle: SignerHandle)
        ensures
            final(self).spec_write_enabled(),
            final(self).spec_identity() == Some(identity.hex@),
            final(self).spec_handle() == Some(handle),
            final(self).spec_source() is Remote,
            final(self).spec_local() == old(self).spec_local(),
    {
        proof {
            use_type_invariant(&*self);
        }
        let local = match &self.local_identity {
            Some(id) => Some(id.duplicate()),
            None => None,
        };
        *self = IdentityGate {
            write_enabled: true,
            active_identity: Some(identity),
            signer_handle: Some(handle),
            source: IdentitySource::Remote,
            local_identity: local,
        };
    }

    /// Atomically clears the remote binding, falling back to the local key
    /// configured at start, if any: remote pairing is an overlay, and ending
    /// it must not destroy a local key's write access.
    pub fn deactivate(&mut self)
        ensures
            final(self).spec_local() == old(self).spec_local(),
            final(self).spec_handle() is None,
            old(self).spec_local() is Some ==> {
                &&& final(self).spec_write_enabled()
                &&& final(self).spec_identity() == old(self).spec_local()
                &&& final(self).spec_source() is Local
            },
            old(self).spec_local() is None ==> {
                &&& !final(self).spec_write_enabled()
                &&& final(self).spec_identity() is None
                &&& final(self).spec_source() is Absent
            },
    {
        proof {
            use_type_invariant(&*self);
        }
        match &self.local_identity {
            Some(id) => {
                let restored = id.duplicate();
                let kept = id.duplicate();
                *self = IdentityGate {
                    write_enabled: true,
                    active_identity: Some(restored),
                    signer_handle: None,
                    source: IdentitySource::Local,
                    local_identity: Some(kept),
                };
            },
            None => {
                *self = IdentityGate {
                    write_enabled: false,
                    active_identity: None,
                    signer_handle: None,
                    source: IdentitySource::Absent,
                    local_identity: None,
                };
            },
        }
    }

    /// The identity gate every write-gated operation passes first: cheap, no I/O.
    pub fn require_write_access(&self) -> (r: Result<(), NoWriteAccess>)
        ensures
            r is Ok <==> self.spec_write_enabled(),
    {
        if self.write_enabled {
            Ok(())
        } else {
            Err(NoWriteAccess)
        }
    }

    /// The identity currently bound, if any; used to scope reads to the
    /// caller's own data. In every reachable gate it is present exactly
    /// while write access is granted: no sequence of `activate` and
    /// `deactivate` calls can break that tie.
    pub fn current_identity(&self) -> (r: Option<Identity>)
        ensures
            match r {
                Some(id) => self.spec_identity() == Some(id.hex@),
                None => self.spec_identity() is None,
            },
            r is Some <==> self.spec_identity() is Some,
            r is Some <==> self.spec_write_enabled(),
    {
        proof {
            use_type_invariant(self);
        }
        match &self.active_identity {
            Some(id) => Some(id.duplicate()),
            None => None,
        }
    }

    /// Whether write access is granted, as a plain flag; true exactly while
    /// an identity is bound.
    pub fn has_write_access(&self) -> (r: bool)
        ensures
            r == self.spec_write_enabled(),
            r == (self.spec_identity() is Some),
    {
        proof {
            use_type_invariant(self);
        }
        self.write_enabled
    }

    /// Where the active signing capability lives.
    pub fn source(&self) -> (r: IdentitySource)
        ensures
            r == self.spec_source(),
    {
        self.source
    }

    /// Whether a remote signer is the active source.
    pub fn remote_active(&self) -> (r: bool)
        ensures
            r == (self.spec_source() is Remote),
    {
        matches!(self.source, IdentitySource::Remote)
    }
}


/// The public key belonging to an nsec-encoded secret key, hex form, or
/// nothing when the text is no valid nsec. The key derivation is not
/// written out; the result is only named.
pub uninterp spec fn nsec_pubkey(s: Seq<char>) -> Option<Seq<char>>;

/// Relies on `nostr_sdk::prelude::SecretKey::from_bech32`, `Keys::new` and
/// `PublicKey::to_hex`: decodes an nsec secret key and derives its public
/// key, a function of the text alone.
#[verifier::external_body]
fn pubkey_from_nsec(s: &str) -> (r: Option<String>)
    ensures
        nsec_pubkey(s@) == match r {
            Some(p) => Some(p@),
            None => None::<Seq<char>>,
        },
{
    match nostr_sdk::prelude::SecretKey::from_bech32(s) {
        Ok(sk) => Some(nostr_sdk::prelude::Keys::new(sk).public_key().to_hex()),
        Err(_) => None,
    }
}

/// The public key belonging to a hex-encoded secret key, hex form, or
/// nothing when the text is no valid key. Only named, as above.
pub uninterp spec fn hex_key_pubkey(s: Seq<char>) -> Option<Seq<char>>;

/// Relies on `nostr_sdk::prelude::SecretKey::from_hex`, `Keys::new` and
/// `PublicKey::to_hex`: decodes a hex secret key and derives its public
/// key, a function of the text alone.
#[verifier::external_body]
fn pubkey_from_hex_key(s: &str) -> (r: Option<String>)
    ensures
        hex_key_pubkey(s@) == match r {
            Some(p) => Some(p@),
            None => None::<Seq<char>>,
        },
{
    match nostr_sdk::prelude::SecretKey::from_hex(s) {
        Ok(sk) => Some(nostr_sdk::prelude::Keys::new(sk).public_key().to_hex()),
        Err(_) => None,
    }
}

/// `nsec` stands in front of the trimmed text.
pub open spec fn is_nsec_form(t: Seq<char>) -> bool {
    t.len() >= 4 && t[0] == 'n' && t[1] == 's' && t[2] == 'e' && t[3] == 'c'
}

/// The identity a configured secret key binds: the text is trimmed, read
/// as nsec when it carries that prefix and as hex otherwise, and the
/// derived public key becomes the local identity. Nothing for an
/// unreadable key.
pub open spec fn spec_local_identity(s: Seq<char>) -> Option<Seq<char>> {
    let t = spec_trim(s);
    if is_nsec_form(t) {
        nsec_pubkey(t)
    } else {
        hex_key_pubkey(t)
    }
}

/// Reads a configured secret key — nsec or hex, white space tolerated —
/// and hands back the identity it binds, for the identity gate's local
/// fallback.
pub fn local_identity_for(secret: &str) -> (r: Option<Identity>)
    ensures
        match r {
            Some(id) => spec_local_identity(secret@) == Some(id.hex@),
            None => spec_local_identity(secret@) is None,
        },
{
    let t = trim_spaces(secret);
    let cs = crate::textutil::chars_of(t.as_str());
    let nsec = cs.len() >= 4 && cs[0] == 'n' && cs[1] == 's' && cs[2] == 'e' && cs[3] == 'c';
    proof {
        assert(nsec == is_nsec_form(t@));
    }
    let derived = if nsec {
        pubkey_from_nsec(t.as_str())
    } else {
        pubkey_from_hex_key(t.as_str())
    };
    match derived {
        Some(hex) => Some(Identity { hex }),
        None => None,
    }
}

} // verus!
