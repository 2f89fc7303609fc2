//! The server's session slot and what `start` hands back to its caller.
use vstd::prelude::*;
use crate::error::ServerError;
use crate::qr::{qr_data_uri, qr_uri_of};
use crate::text::{chars_of, concat_chars, string_from_chars};

verus! {

/// The slot of the one running server: empty while idle, holding the
/// cancellation handle of the session while running.
pub struct ServerManager<H> {
    shutdown_tx: Option<H>,
}

impl<H> View for ServerManager<H> {
    type V = Option<H>;

    closed spec fn view(&self) -> Option<H> {
        self.shutdown_tx
    }
}

/// The slot after `start` with `handle`, and the outcome.
pub open spec fn start_step<H>(slot: Option<H>, handle: H) -> (Option<H>, Result<(), ServerError>) {
    match slot {
        Some(_) => (slot, Err(ServerError::AlreadyRunning)),
        None => (Some(handle), Ok(())),
    }
}

/// The slot after `stop`, and the handle to fire, if any.
pub open spec fn stop_step<H>(slot: Option<H>) -> (Option<H>, Option<H>) {
    (None, slot)
}

impl<H> ServerManager<H> {
    /// An idle slot.
    pub fn new() -> (r: Self)
        ensures
            r@ is None,
    {
        ServerManager { shutdown_tx: None }
    }

    /// Whether a session holds the slot.
    pub fn is_running(&self) -> (r: bool)
        ensures
            r == self@ is Some,
    {
        self.shutdown_tx.is_some()
    }

    /// Fails with `AlreadyRunning` unless the slot is idle.
    pub fn check_idle(&self) -> (r: Result<(), ServerError>)
        ensures
            self@ is None ==> r is Ok,
            self@ is Some ==> r == Err::<(), ServerError>(ServerError::AlreadyRunning),
    {
        if self.shutdown_tx.is_some() {
            Err(ServerError::AlreadyRunning)
        } else {
            Ok(())
        }
    }

    /// Takes the slot for a new session with the cancellation `handle`; a
    /// running session is kept and the call fails with `AlreadyRunning`.
    pub fn start(&mut self, handle: H) -> (r: Result<(), ServerError>)
        ensures
            (final(self)@, r) == start_step(old(self)@, handle),
    {
        if self.shutdown_tx.is_some() {
            return Err(ServerError::AlreadyRunning);
        }
        self.shutdown_tx = Some(handle);
        Ok(())
    }

    /// Takes the slot for a new session once its listener is bound: `bound`
    /// holds the session's cancellation handle, or nothing when binding
    /// failed, which fails with `Bind` and leaves the slot idle.
    pub fn start_bound(&mut self, bound: Option<H>) -> (r: Result<(), ServerError>)
        ensures
            bound matches Some(h) ==> (final(self)@, r) == start_step(old(self)@, h),
            bound is None && old(self)@ is Some ==> final(self)@ == old(self)@ && r == Err::<(), ServerError>(
                ServerError::AlreadyRunning,
            ),
            bound is None && old(self)@ is None ==> final(self)@ is None && r == Err::<(), ServerError>(
                ServerError::Bind,
            ),
    {
        match bound {
            Some(h) => self.start(h),
            None => if self.shutdown_tx.is_some() {
                Err(ServerError::AlreadyRunning)
            } else {
                Err(ServerError::Bind)
            },
        }
    }

    /// Empties the slot and hands back the session's cancellation handle, to
    /// be fired once; on an idle slot it does nothing and returns `None`.
    pub fn stop(&mut self) -> (r: Option<H>)
        ensures
            (final(self)@, r) == stop_step(old(self)@),
    {
        self.shutdown_tx.take()
    }
}

/// A second `start` without a `stop` in between fails with `AlreadyRunning`
/// and leaves the first session in the slot.
pub proof fn lemma_second_start_refused<H>(h1: H, h2: H)
    ensures
        start_step(None, h1) == (Some(h1), Ok::<(), ServerError>(())),
        start_step(start_step(None, h1).0, h2) == (Some(h1), Err::<(), ServerError>(
            ServerError::AlreadyRunning,
        )),
{
}

/// `stop` on an idle slot has no effect, and a second `stop` after a session
/// fires nothing: a session's handle is handed out once.
pub proof fn lemma_stop_idempotent<H>(slot: Option<H>)
    ensures
        stop_step::<H>(None) == (None::<H>, None::<H>),
        stop_step(stop_step(slot).0) == (None::<H>, None::<H>),
        stop_step(slot).1 == slot,
{
}

/// What `start` reports: the address to reach, the port, and the QR image of
/// the URL as a PNG data URI.
pub struct ServerInfo {
    pub ip: String,
    pub port: u16,
    pub qr_code: String,
}

/// The decimal digits of `n`, without leading zeros.
pub open spec fn decimal(n: nat) -> Seq<char>
    decreases n,
{
    let d = seq!['0', '1', '2', '3', '4', '5', '6', '7', '8', '9'][(n % 10) as int];
    if n < 10 {
        seq![d]
    } else {
        decimal(n / 10).push(d)
    }
}

/// The URL of the server at `ip` and `port`.
pub open spec fn server_url_of(ip: Seq<char>, port: nat) -> Seq<char> {
    seq!['h', 't', 't', 'p', ':', '/', '/'] + ip + seq![':'] + decimal(port)
}

fn push_decimal(n: u16, out: &mut Vec<char>)
    ensures
        final(out)@ == old(out)@ + decimal(n as nat),
    decreases n,
{
    if n >= 10 {
        push_decimal(n / 10, out);
    }
    let digits = ['0', '1', '2', '3', '4', '5', '6', '7', '8', '9'];
    assert(digits@ =~= seq!['0', '1', '2', '3', '4', '5', '6', '7', '8', '9']);
    out.push(digits[(n % 10) as usize]);
    assert(final(out)@ =~= old(out)@ + decimal(n as nat));
}

/// `http://<ip>:<port>`, with the port in decimal.
pub fn server_url(ip: &str, port: u16) -> (r: String)
    ensures
        r@ == server_url_of(ip@, port as nat),
{
    let head = vec!['h', 't', 't', 'p', ':', '/', '/'];
    let mut cs = concat_chars(&head, &chars_of(ip));
    cs.push(':');
    push_decimal(port, &mut cs);
    assert(cs@ =~= server_url_of(ip@, port as nat));
    string_from_chars(&cs)
}

/// What `start` reports for a server at the local address `ip` and `port`:
/// the URL `http://<ip>:<port>` is encoded as a QR data URI. Without an
/// address (`None`: it could not be found) it fails with `AddressResolution`.
pub fn server_info(ip: Option<String>, port: u16) -> (r: Result<ServerInfo, ServerError>)
    ensures
        ip is None ==> r == Err::<ServerInfo, ServerError>(ServerError::AddressResolution),
        ip matches Some(a) ==> match qr_uri_of(server_url_of(a@, port as nat)) {
            None => r == Err::<ServerInfo, ServerError>(ServerError::Encoding),
            Some(q) => r matches Ok(info) && info.ip@ == a@ && info.port == port && info.qr_code@ == q,
        },
{
    let ip = match ip {
        None => { return Err(ServerError::AddressResolution); },
        Some(a) => a,
    };
    let url = server_url(ip.as_str(), port);
    match qr_data_uri(url.as_str()) {
        Err(e) => Err(e),
        Ok(qr_code) => Ok(ServerInfo { ip, port, qr_code }),
    }
}

} // verus!
