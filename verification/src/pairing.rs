//! The remote-signer pairing subsystem: the pairing state machine, the
//! controller the request router calls, and the cooperative monitor step
//! that hot-swaps the identity gate when a pairing attempt completes.
//!
//! Everything that must wait — the confirmation handshake, the probe of a
//! pre-shared URI, the sleeps between polls — is the runtime's business:
//! the runtime reports what it observed as a [`MonitorEvent`] or a probe
//! outcome, and the verified step functions decide every transition. A
//! monotonic attempt token guards against stale completions: a step carrying
//! an outdated token changes nothing.

use vstd::prelude::*;
use vstd::utf8::encode_utf8;
use crate::identity::{Identity, IdentityGate, SignerHandle, IdentitySource};
use crate::uri::{build_connect_uri, spec_connect_uri};
use crate::qr::{generate_qr_base64, qr_modules, qr_size, qr_pixels, png_of};
use crate::encoding::base64_of;

verus! {

/// The pairing window: an attempt that is not confirmed within this many
/// seconds fails.
pub const DEFAULT_PAIRING_TIMEOUT_SECS: u64 = 120;

/// The monitor's sleep between polls, in seconds.
pub const DEFAULT_POLL_INTERVAL_SECS: u64 = 2;

/// Whether the relay-URL parser accepts `s`: a function of the string
/// alone, left unwritten here.
pub uninterp spec fn relay_url_ok(s: Seq<char>) -> bool;

/// Relies on `nostr_sdk::prelude::RelayUrl::parse` (the `nostr` crate's
/// `RelayUrl`): accepts exactly the well-formed `ws`/`wss` relay URLs, a
/// function of the input string alone.
#[verifier::external_body]
fn parse_relay_url(s: &str) -> (r: Result<(), String>)
    ensures
        r is Ok <==> relay_url_ok(s@),
{
    match nostr_sdk::prelude::RelayUrl::parse(s) {
        Ok(_) => Ok(()),
        Err(e) => Err(e.to_string()),
    }
}

/// Whether the connection-URI parser accepts `s`: a function of the string
/// alone, left unwritten here.
pub uninterp spec fn connect_uri_ok(s: Seq<char>) -> bool;

/// Relies on `nostr_sdk::prelude::NostrConnectURI::parse` (the `nostr`
/// crate's NIP-46 URI parser): accepts exactly the well-formed
/// `bunker://` and `nostrconnect://` URIs, a function of the input string
/// alone.
#[verifier::external_body]
fn parse_connect_uri(s: &str) -> (r: Result<(), String>)
    ensures
        r is Ok <==> connect_uri_ok(s@),
{
    match nostr_sdk::prelude::NostrConnectURI::parse(s) {
        Ok(_) => Ok(()),
        Err(e) => Err(e.to_string()),
    }
}

/// The pairing state machine: exactly one variant holds at a time.
#[derive(Debug)]
pub enum PairingState {
    /// Initial and post-teardown state; no identity bound by this attempt.
    Disconnected,
    /// The bootstrap artifact was issued; waiting for the remote signer.
    /// Only the generate-and-wait mode reaches this state.
    AwaitingConfirmation {
        /// The `nostrconnect://` URI handed out of band.
        bootstrap_uri: String,
        /// The QR rendering of the URI, a base64 PNG.
        visual_encoding: String,
    },
    /// A remote signer confirmed and bound an identity. Terminal for the
    /// attempt.
    Connected {
        /// The identity the remote signer signs for.
        identity: Identity,
    },
    /// The attempt failed. Terminal; only a fresh attempt leaves it.
    Failed {
        /// What went wrong.
        message: String,
    },
}

/// The bare tag of a [`PairingState`].
#[derive(Debug, Clone, Copy, PartialEq, Eq, Structural)]
pub enum PairingPhase {
    Disconnected,
    AwaitingConfirmation,
    Connected,
    Failed,
}

/// The tag of a pairing state.
pub open spec fn phase_of(s: PairingState) -> PairingPhase {
    match s {
        PairingState::Disconnected => PairingPhase::Disconnected,
        PairingState::AwaitingConfirmation { .. } => PairingPhase::AwaitingConfirmation,
        PairingState::Connected { .. } => PairingPhase::Connected,
        PairingState::Failed { .. } => PairingPhase::Failed,
    }
}

/// One pairing attempt: its state machine, the handle of the channel opened
/// for it, and its timeout.
#[derive(Debug)]
pub struct PairingSession {
    /// Where the attempt stands.
    pub state: PairingState,
    /// The runtime's ticket for the pairing channel, held until the identity gate
    /// takes it over or the attempt ends.
    pub channel_handle: Option<SignerHandle>,
    /// The attempt window in seconds.
    pub timeout_secs: u64,
}

/// What `begin_pairing` hands back in generate mode.
#[derive(Debug)]
pub struct BootstrapInfo {
    /// The `nostrconnect://` URI to hand to the remote signer out of band.
    pub bootstrap_uri: String,
    /// The QR rendering of the URI, a base64 PNG.
    pub visual_encoding: String,
    /// The token of this attempt; the monitor must carry it.
    pub attempt_token: u64,
}

/// A synchronous pairing failure.
#[derive(Debug)]
pub enum PairingError {
    /// A malformed relay list or connection URI, or data no code fits;
    /// never retried automatically.
    Config {
        /// What was malformed.
        message: String,
    },
    /// The direct-mode probe failed; the session moves to `Failed`.
    Handshake {
        /// What the probe reported.
        message: String,
    },
}

/// What the runtime observed while waiting on a generate-mode attempt.
#[derive(Debug)]
pub enum MonitorEvent {
    /// Nothing yet; keep polling.
    StillWaiting,
    /// The remote signer confirmed and disclosed the identity it signs for.
    Confirmed {
        /// The confirmed identity.
        identity: Identity,
    },
    /// The wait failed outright.
    HandshakeFailed {
        /// What the wait reported.
        message: String,
    },
    /// The attempt window closed without a confirmation.
    TimedOut,
}

/// What the monitor loop should do after a step.
#[derive(Debug, Clone, Copy, PartialEq, Eq, Structural)]
pub enum MonitorAction {
    /// Sleep one interval and poll again.
    KeepPolling,
    /// The attempt reached a terminal state, or this monitor is stale:
    /// exit without further effect.
    Stop,
}

/// A point-in-time snapshot merging the session's state with the identity gate's.
#[derive(Debug)]
pub struct StatusPayload {
    /// The session's phase.
    pub pairing_state: PairingPhase,
    /// The bootstrap URI, while one is being waited on.
    pub bootstrap_uri: Option<String>,
    /// The hex identity bound in the identity gate, if any.
    pub identity: Option<String>,
    /// Whether a remote signer is the active signing source.
    pub signer_active: bool,
}

/// The relays used for the pairing channel when the caller names none.
pub open spec fn default_pairing_relays() -> Seq<Seq<char>> {
    seq!["wss://relay.nsec.app"@, "wss://relay.damus.io"@]
}

/// The relay set an attempt will use: the caller's, or the defaults.
pub open spec fn chosen_relays(relays: Seq<Seq<char>>) -> Seq<Seq<char>> {
    if relays.len() == 0 {
        default_pairing_relays()
    } else {
        relays
    }
}

/// The façade the request router calls. It owns the identity gate, at most
/// one pairing session, and the attempt token that orders attempts.
pub struct PairingController {
    /// The process's authentication state.
    pub gate: IdentityGate,
    /// The current (or last) pairing attempt.
    pub session: PairingSession,
    /// Monotonic counter identifying the live attempt; raised by every
    /// `begin_*` call and by `end_pairing`, so stale monitors can never
    /// touch current state.
    pub attempt_token: u64,
}

impl PairingController {
    /// A fresh controller: disconnected, with the identity gate bound to the local
    /// key when one is configured.
    pub fn new(local: Option<Identity>) -> (r: PairingController)
        ensures
            r.session.state is Disconnected,
            r.session.channel_handle is None,
            r.attempt_token == 0,
            r.gate.spec_local() == match local {
                Some(id) => Some::<Seq<char>>(id.hex@),
                None => None::<Seq<char>>,
            },
            r.gate.spec_identity() == r.gate.spec_local(),
            r.gate.spec_write_enabled() <==> local is Some,
            r.gate.spec_source() == if local is Some {
                IdentitySource::Local
            } else {
                IdentitySource::Absent
            },
    {
        PairingController {
            gate: IdentityGate::new(local),
            session: PairingSession {
                state: PairingState::Disconnected,
                channel_handle: None,
                timeout_secs: DEFAULT_PAIRING_TIMEOUT_SECS,
            },
            attempt_token: 0,
        }
    }

    /// Starts a generate-mode attempt: validates the relay set (the
    /// defaults stand in for an empty one), builds the bootstrap URI around
    /// the channel public key the runtime generated — with the application
    /// metadata and the fresh connection secret the remote side requires —
    /// renders its QR code, and moves to `AwaitingConfirmation`. `handle` is
    /// the runtime's ticket for the channel it opened for this attempt. The
    /// attempt token is raised first, so any previous monitor goes stale.
    /// Succeeds whenever every relay of the chosen set parses and the URI
    /// fits a QR code.
    pub fn begin_generate(
        &mut self,
        app_pubkey: &str,
        relays: &Vec<String>,
        metadata: &str,
        secret: &str,
        perms: Option<&str>,
        handle: SignerHandle,
    ) -> (r: Result<BootstrapInfo, PairingError>)
        requires
            old(self).attempt_token < u64::MAX,
        ensures
            final(self).attempt_token == old(self).attempt_token + 1,
            final(self).gate == old(self).gate,
            ({
                let rs = chosen_relays(relays@.map_values(|t: String| t@));
                let uri = spec_connect_uri(
                    app_pubkey@,
                    rs,
                    metadata@,
                    secret@,
                    match perms {
                        Some(p) => Some(p@),
                        None => None,
                    },
                );
                &&& (exists|i: int| 0 <= i < rs.len() && !relay_url_ok(rs[i])) ==> (r is Err
                    && r->Err_0 is Config)
                &&& ((forall|i: int| 0 <= i < rs.len() ==> relay_url_ok(#[trigger] rs[i]))
                    && qr_modules(encode_utf8(uri)) is Some) ==> r is Ok
                &&& r matches Ok(b) ==> {
                    &&& forall|i: int| 0 <= i < rs.len() ==> relay_url_ok(#[trigger] rs[i])
                    &&& qr_modules(encode_utf8(uri)) is Some
                    &&& b.bootstrap_uri@ == uri
                    &&& b.visual_encoding@ == ({
                        let m = qr_modules(encode_utf8(uri))->Some_0;
                        base64_of(png_of(qr_size(m.0), qr_pixels(m.1, m.0)))
                    })
                    &&& b.visual_encoding@.len() > 0
                    &&& b.attempt_token == final(self).attempt_token
                    &&& final(self).session.state matches PairingState::AwaitingConfirmation {
                        bootstrap_uri,
                        visual_encoding,
                    } && bootstrap_uri@ == b.bootstrap_uri@ && visual_encoding@
                        == b.visual_encoding@
                    &&& final(self).session.channel_handle == Some(handle)
                }
                &&& r is Err ==> {
                    &&& r->Err_0 is Config
                    &&& final(self).session.state is Disconnected
                    &&& final(self).session.channel_handle is None
                }
            }),
    {
        self.attempt_token = self.attempt_token + 1;
        let mut rl: Vec<String> = Vec::new();
        if relays.len() == 0 {
            rl.push(String::from_str("wss://relay.nsec.app"));
            rl.push(String::from_str("wss://relay.damus.io"));
        } else {
            let mut i: usize = 0;
            while i < relays.len()
                invariant
                    i <= relays@.len(),
                    rl@.map_values(|t: String| t@) == relays@.map_values(|t: String| t@).take(
                        i as int,
                    ),
                decreases relays@.len() - i,
            {
                let ghost old_rl = rl@;
                let item = relays[i].clone();
                rl.push(item);
                proof {
                    let f = |t: String| t@;
                    assert(rl@ == old_rl.push(rl@.last()));
                    assert(rl@.last()@ == relays@[i as int]@);
                    assert(old_rl.map_values(f) == relays@.map_values(f).take(i as int));
                    assert(rl@.map_values(f) =~= old_rl.map_values(f).push(rl@.last()@));
                    assert(relays@.map_values(f)[i as int] == relays@[i as int]@);
                    assert(relays@.map_values(f).take(i + 1) =~= relays@.map_values(f).take(
                        i as int,
                    ).push(relays@.map_values(f)[i as int]));
                    assert(rl@.map_values(f) == relays@.map_values(f).take(i + 1));
                }
                i = i + 1;
            }
            proof {
                assert(relays@.map_values(|t: String| t@).take(relays@.len() as int)
                    =~= relays@.map_values(|t: String| t@));
            }
        }
        let ghost rs = chosen_relays(relays@.map_values(|t: String| t@));
        proof {
            assert(rl@.map_values(|t: String| t@) =~= rs);
        }
        // validate the relay set
        let mut i: usize = 0;
        while i < rl.len()
            invariant
                i <= rl@.len(),
                rl@.map_values(|t: String| t@) == rs,
                rs == chosen_relays(relays@.map_values(|t: String| t@)),
                self.attempt_token == old(self).attempt_token + 1,
                self.gate == old(self).gate,
                forall|j: int| 0 <= j < i ==> relay_url_ok(#[trigger] rs[j]),
            decreases rl@.len() - i,
        {
            match parse_relay_url(rl[i].as_str()) {
                Ok(()) => {},
                Err(m) => {
                    self.session = PairingSession {
                        state: PairingState::Disconnected,
                        channel_handle: None,
                        timeout_secs: DEFAULT_PAIRING_TIMEOUT_SECS,
                    };
                    proof {
                        assert(rs[i as int] == rl@[i as int]@);
                        assert(!relay_url_ok(rs[i as int]));
                    }
                    return Err(PairingError::Config { message: m });
                },
            }
            proof {
                assert(rs[i as int] == rl@[i as int]@);
            }
            i = i + 1;
        }
        let uri = build_connect_uri(app_pubkey, &rl, metadata, secret, perms);
        match generate_qr_base64(uri.as_str()) {
            Ok(qr) => {
                let uri_out = uri.clone();
                let qr_out = qr.clone();
                self.session = PairingSession {
                    state: PairingState::AwaitingConfirmation {
                        bootstrap_uri: uri,
                        visual_encoding: qr,
                    },
                    channel_handle: Some(handle),
                    timeout_secs: DEFAULT_PAIRING_TIMEOUT_SECS,
                };
                Ok(
                    BootstrapInfo {
                        bootstrap_uri: uri_out,
                        visual_encoding: qr_out,
                        attempt_token: self.attempt_token,
                    },
                )
            },
            Err(m) => {
                self.session = PairingSession {
                    state: PairingState::Disconnected,
                    channel_handle: None,
                    timeout_secs: DEFAULT_PAIRING_TIMEOUT_SECS,
                };
                Err(PairingError::Config { message: m })
            },
        }
    }

    /// Starts a direct-mode attempt: validates the pre-shared connection
    /// URI and raises the attempt token. The runtime then performs the
    /// probe and reports its outcome to [`Self::finish_direct`]; no monitor
    /// and no waiting state are involved.
    pub fn begin_direct_start(&mut self, connection_uri: &str) -> (r: Result<u64, PairingError>)
        requires
            old(self).attempt_token < u64::MAX,
        ensures
            final(self).attempt_token == old(self).attempt_token + 1,
            final(self).gate == old(self).gate,
            final(self).session.state is Disconnected,
            final(self).session.channel_handle is None,
            r matches Ok(t) ==> t == final(self).attempt_token,
            r is Ok <==> connect_uri_ok(connection_uri@),
            r is Err ==> r->Err_0 is Config,
    {
        self.attempt_token = self.attempt_token + 1;
        self.session = PairingSession {
            state: PairingState::Disconnected,
            channel_handle: None,
            timeout_secs: DEFAULT_PAIRING_TIMEOUT_SECS,
        };
        match parse_connect_uri(connection_uri) {
            Ok(()) => Ok(self.attempt_token),
            Err(m) => Err(PairingError::Config { message: m }),
        }
    }

    /// Applies the outcome of a direct-mode probe. On success the identity
    /// is bound synchronously: session `Connected`, gate hot-swapped to the
    /// probed signer under `handle`. On failure the session moves to
    /// `Failed` and the identity gate keeps its previous state, whatever it was. A
    /// stale token changes nothing.
    pub fn finish_direct(
        &mut self,
        token: u64,
        outcome: Result<Identity, String>,
        handle: SignerHandle,
    ) -> (r: Result<Identity, PairingError>)
        ensures
            token != old(self).attempt_token ==> (*final(self) == *old(self) && r is Err
                && r->Err_0 is Handshake),
            final(self).attempt_token == old(self).attempt_token,
            token == old(self).attempt_token ==> match outcome {
                Ok(id) => {
                    &&& final(self).session.state matches PairingState::Connected { identity }
                        && identity.hex@ == id.hex@
                    &&& final(self).session.channel_handle is None
                    &&& final(self).gate.spec_identity() == Some(id.hex@)
                    &&& final(self).gate.spec_handle() == Some(handle)
                    &&& final(self).gate.spec_source() is Remote
                    &&& final(self).gate.spec_write_enabled()
                    &&& final(self).gate.spec_local() == old(self).gate.spec_local()
                    &&& r matches Ok(out) && out.hex@ == id.hex@
                },
                Err(m) => {
                    &&& final(self).session.state matches PairingState::Failed { message }
                        && message@ == m@
                    &&& final(self).session.channel_handle is None
                    &&& final(self).gate == old(self).gate
                    &&& r matches Err(e) && e matches PairingError::Handshake { message }
                        && message@ == m@
                },
            },
    {
        if token != self.attempt_token {
            return Err(
                PairingError::Handshake { message: String::from_str("attempt superseded") },
            );
        }
        match outcome {
            Ok(id) => {
                let bound = id.duplicate();
                let returned = id.duplicate();
                self.gate.activate(id, handle);
                self.session = PairingSession {
                    state: PairingState::Connected { identity: bound },
                    channel_handle: None,
                    timeout_secs: DEFAULT_PAIRING_TIMEOUT_SECS,
                };
                Ok(returned)
            },
            Err(m) => {
                let reported = m.clone();
                self.session = PairingSession {
                    state: PairingState::Failed { message: m },
                    channel_handle: None,
                    timeout_secs: DEFAULT_PAIRING_TIMEOUT_SECS,
                };
                Err(PairingError::Handshake { message: reported })
            },
        }
    }

    /// One step of the activation monitor spawned for a generate-mode
    /// attempt. The monitor captured `token` at spawn time; a step whose
    /// token no longer matches — a later attempt began, or the attempt was
    /// ended — changes nothing and stops the loop, so a stale monitor can
    /// never call `activate`. While the token matches and the session is
    /// waiting, a confirmation binds the identity and hands the session's
    /// channel handle to the identity gate; a failure or the closing of the attempt
    /// window moves the session to `Failed` and leaves the identity gate alone.
    pub fn monitor_tick(&mut self, token: u64, event: MonitorEvent) -> (r: MonitorAction)
        ensures
            token != old(self).attempt_token ==> (*final(self) == *old(self) && r
                is Stop),
            final(self).attempt_token == old(self).attempt_token,
            (token == old(self).attempt_token && !(old(
                self,
            ).session.state is AwaitingConfirmation)) ==> (*final(self) == *old(self) && r
                is Stop),
            (token == old(self).attempt_token && old(
                self,
            ).session.state is AwaitingConfirmation) ==> match event {
                MonitorEvent::StillWaiting => *final(self) == *old(self) && r is KeepPolling,
                MonitorEvent::Confirmed { identity: id } => match old(
                    self,
                ).session.channel_handle {
                    Some(h) => {
                        &&& final(self).session.state matches PairingState::Connected {
                            identity,
                        } && identity.hex@ == id.hex@
                        &&& final(self).session.channel_handle is None
                        &&& final(self).gate.spec_identity() == Some(id.hex@)
                        &&& final(self).gate.spec_handle() == Some(h)
                        &&& final(self).gate.spec_source() is Remote
                        &&& final(self).gate.spec_write_enabled()
                        &&& final(self).gate.spec_local() == old(self).gate.spec_local()
                        &&& r is Stop
                    },
                    None => *final(self) == *old(self) && r is Stop,
                },
                MonitorEvent::HandshakeFailed { message: m } => {
                    &&& final(self).session.state matches PairingState::Failed { message }
                        && message@ == m@
                    &&& final(self).session.channel_handle is None
                    &&& final(self).gate == old(self).gate
                    &&& r is Stop
                },
                MonitorEvent::TimedOut => {
                    &&& final(self).session.state matches PairingState::Failed { message }
                        && message@ == "pairing timed out"@
                    &&& final(self).session.channel_handle is None
                    &&& final(self).gate == old(self).gate
                    &&& r is Stop
                },
            },
    {
        if token != self.attempt_token {
            return MonitorAction::Stop;
        }
        let waiting = matches!(self.session.state, PairingState::AwaitingConfirmation { .. });
        if !waiting {
            return MonitorAction::Stop;
        }
        match event {
            MonitorEvent::StillWaiting => MonitorAction::KeepPolling,
            MonitorEvent::Confirmed { identity } => {
                match self.session.channel_handle {
                    Some(h) => {
                        let bound = identity.duplicate();
                        self.gate.activate(identity, h);
                        self.session = PairingSession {
                            state: PairingState::Connected { identity: bound },
                            channel_handle: None,
                            timeout_secs: DEFAULT_PAIRING_TIMEOUT_SECS,
                        };
                        MonitorAction::Stop
                    },
                    None => MonitorAction::Stop,
                }
            },
            MonitorEvent::HandshakeFailed { message } => {
                self.session = PairingSession {
                    state: PairingState::Failed { message },
                    channel_handle: None,
                    timeout_secs: DEFAULT_PAIRING_TIMEOUT_SECS,
                };
                MonitorAction::Stop
            },
            MonitorEvent::TimedOut => {
                self.session = PairingSession {
                    state: PairingState::Failed {
                        message: String::from_str("pairing timed out"),
                    },
                    channel_handle: None,
                    timeout_secs: DEFAULT_PAIRING_TIMEOUT_SECS,
                };
                MonitorAction::Stop
            },
        }
    }

    /// Tears the attempt down and reverts the identity gate: always succeeds, and
    /// calling it with nothing active is a no-op beyond raising the token.
    /// The session returns to `Disconnected`; the identity gate falls back to the
    /// local key configured at start, or to no write access. The token is
    /// raised so a monitor of the ended attempt goes stale.
    pub fn end_pairing(&mut self)
        ensures
            final(self).session.state is Disconnected,
            final(self).session.channel_handle is None,
            final(self).attempt_token == if old(self).attempt_token < u64::MAX {
                old(self).attempt_token + 1
            } else {
                old(self).attempt_token as int
            },
            final(self).gate.spec_local() == old(self).gate.spec_local(),
            final(self).gate.spec_handle() is None,
            old(self).gate.spec_local() is Some ==> {
                &&& final(self).gate.spec_write_enabled()
                &&& final(self).gate.spec_identity() == old(self).gate.spec_local()
                &&& final(self).gate.spec_source() is Local
            },
            old(self).gate.spec_local() is None ==> {
                &&& !final(self).gate.spec_write_enabled()
                &&& final(self).gate.spec_identity() is None
                &&& final(self).gate.spec_source() is Absent
            },
    {
        if self.attempt_token < u64::MAX {
            self.attempt_token = self.attempt_token + 1;
        }
        self.session = PairingSession {
            state: PairingState::Disconnected,
            channel_handle: None,
            timeout_secs: DEFAULT_PAIRING_TIMEOUT_SECS,
        };
        self.gate.deactivate();
    }

    /// A non-blocking snapshot merging the session's phase with the identity gate's
    /// identity and source, so a caller can tell "pairing in progress" from
    /// "paired but not yet hot-swapped" from "fully active".
    pub fn status(&self) -> (r: StatusPayload)
        ensures
            r.pairing_state == phase_of(self.session.state),
            match r.bootstrap_uri {
                Some(u) => self.session.state matches PairingState::AwaitingConfirmation {
                    bootstrap_uri,
                    ..
                } && bootstrap_uri@ == u@,
                None => !(self.session.state is AwaitingConfirmation),
            },
            match r.identity {
                Some(h) => self.gate.spec_identity() == Some(h@),
                None => self.gate.spec_identity() is None,
            },
            r.signer_active == (self.gate.spec_source() is Remote),
    {
        let pairing_state = match &self.session.state {
            PairingState::Disconnected => PairingPhase::Disconnected,
            PairingState::AwaitingConfirmation { .. } => PairingPhase::AwaitingConfirmation,
            PairingState::Connected { .. } => PairingPhase::Connected,
            PairingState::Failed { .. } => PairingPhase::Failed,
        };
        let bootstrap_uri = match &self.session.state {
            PairingState::AwaitingConfirmation { bootstrap_uri, .. } => Some(
                bootstrap_uri.clone(),
            ),
            _ => None,
        };
        let identity = match self.gate.current_identity() {
            Some(id) => Some(id.hex),
            None => None,
        };
        StatusPayload {
            pairing_state,
            bootstrap_uri,
            identity,
            signer_active: self.gate.remote_active(),
        }
    }
}

/// The ceiling of `t / i`: the quotient, rounded up.
pub open spec fn spec_ceil_div(t: int, i: int) -> int {
    t / i + if t % i == 0 {
        0int
    } else {
        1int
    }
}

/// How many polls a monitor makes before giving up: the attempt window
/// divided by the poll interval, rounded up, so the two clocks cannot
/// drift apart.
pub fn monitor_cap(timeout_secs: u64, interval_secs: u64) -> (r: u64)
    requires
        interval_secs >= 1,
    ensures
        r == spec_ceil_div(timeout_secs as int, interval_secs as int),
{
    let q = timeout_secs / interval_secs;
    let m = timeout_secs % interval_secs;
    if m == 0 {
        q
    } else {
        proof {
            vstd::arithmetic::div_mod::lemma_fundamental_div_mod(
                timeout_secs as int,
                interval_secs as int,
            );
            assert(q < u64::MAX) by (nonlinear_arith)
                requires
                    timeout_secs as int == (interval_secs as int) * (q as int) + (m as int),
                    1 <= (m as int),
                    (m as int) < (interval_secs as int),
                    q >= 0,
                    timeout_secs <= u64::MAX,
            ;
        }
        q + 1
    }
}

} // verus!
