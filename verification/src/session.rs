//! The session state machine.
//!
//! A process holds at most one logical FTP session: none, a plaintext
//! one, or a TLS-upgraded one. The functions here are the decision side
//! of every session verb: they check the state, compute exactly what
//! the transport driver must do, map the driver's outcome to the
//! library's errors, and keep the one-session invariant. The driver
//! performs the network work and owns the actual streams; it never
//! decides.

use vstd::prelude::*;
use vstd::string::StringExecFns;

use crate::errors::FtpError;
use crate::errors::is_auth_error;
use crate::errors::is_connection_error;
use crate::errors::is_op_error;
use crate::errors::is_tls_error;
use crate::text::dec_seq;
use crate::text::u64_to_dec;

verus! {

/// Which transport carries the session.
#[derive(Debug, Clone, Copy, PartialEq, Eq, Structural)]
pub enum Channel {
    Plain,
    Secure,
}

#[derive(Debug, Clone, Copy, PartialEq, Eq, Structural)]
enum SessionState {
    Disconnected,
    ConnectedPlain,
    ConnectedSecure,
}

/// The connection request handed in by a caller.
#[derive(Debug, Clone)]
pub struct FtpConfigPayload {
    pub host: String,
    pub port: u16,
    pub username: String,
    pub password: Option<String>,
    pub secure: bool,
}

/// The session: created disconnected, populated by a successful
/// connect, cleared by disconnect. At any time exactly one of
/// disconnected, plain, secure holds — the state is one value.
pub struct Session {
    state: SessionState,
}

impl Session {
    pub closed spec fn is_disconnected(&self) -> bool {
        self.state == SessionState::Disconnected
    }

    pub closed spec fn has_plain(&self) -> bool {
        self.state == SessionState::ConnectedPlain
    }

    pub closed spec fn has_secure(&self) -> bool {
        self.state == SessionState::ConnectedSecure
    }

    pub open spec fn is_connected(&self) -> bool {
        self.has_plain() || self.has_secure()
    }

    pub fn new() -> (s: Session)
        ensures
            s.is_disconnected(),
    {
        Session { state: SessionState::Disconnected }
    }

    /// The channel of the active session, or `NotConnected` when there
    /// is none. Every verb that needs a session goes through this
    /// check.
    pub fn active_channel(&self) -> (r: Result<Channel, FtpError>)
        ensures
            self.is_disconnected() <==> r == Result::<Channel, FtpError>::Err(
                FtpError::NotConnected,
            ),
            self.has_plain() <==> r == Result::<Channel, FtpError>::Ok(Channel::Plain),
            self.has_secure() <==> r == Result::<Channel, FtpError>::Ok(Channel::Secure),
    {
        match self.state {
            SessionState::Disconnected => Err(FtpError::NotConnected),
            SessionState::ConnectedPlain => Ok(Channel::Plain),
            SessionState::ConnectedSecure => Ok(Channel::Secure),
        }
    }

    /// Decide a connect request. A session may only be opened from the
    /// disconnected state: connecting while connected is rejected, so
    /// the one-session invariant can never be broken by a second
    /// connect. On success the plan carries exactly what the driver
    /// must dial.
    pub fn connect_prepare(&self, config: &FtpConfigPayload) -> (r: Result<ConnectPlan, FtpError>)
        ensures
            r is Ok <==> self.is_disconnected(),
            r matches Ok(plan) ==> {
                &&& plan.host_port@ == config.host@ + seq![':'] + dec_seq(config.port as nat)
                &&& plan.use_tls == config.secure
                &&& plan.username@ == config.username@
                &&& (match config.password {
                    Some(p) => plan.password@ == p@,
                    None => plan.password@ == Seq::<char>::empty(),
                })
            },
            r matches Err(e) ==> is_op_error(e, "Already connected"@),
    {
        if let SessionState::Disconnected = self.state {
            let mut host_port = config.host.clone();
            proof {
                reveal_strlit(":");
            }
            host_port.append(":");
            let port_str = u64_to_dec(config.port as u64);
            host_port.append(port_str.as_str());
            proof {
                assert(host_port@ =~= config.host@ + seq![':'] + dec_seq(config.port as nat));
            }
            let password = match &config.password {
                Some(p) => p.clone(),
                None => String::new(),
            };
            Ok(
                ConnectPlan {
                    host_port,
                    use_tls: config.secure,
                    username: config.username.clone(),
                    password,
                },
            )
        } else {
            Err(FtpError::OperationError(String::from_str("Already connected")))
        }
    }

    /// Record the outcome of a connect attempt. Success from the
    /// disconnected state populates the session on the requested
    /// channel; every failure leaves it disconnected, as a distinct
    /// error naming the failed stage.
    pub fn connect_apply(&mut self, config: &FtpConfigPayload, outcome: ConnectOutcome) -> (r:
        Result<String, FtpError>)
        ensures
            !old(self).is_disconnected() ==> {
                &&& *final(self) == *old(self)
                &&& (r matches Err(e) && is_op_error(e, "Already connected"@))
            },
            old(self).is_disconnected() ==> (match outcome {
                ConnectOutcome::Success => {
                    &&& (config.secure ==> final(self).has_secure() && (r matches Ok(m)
                        && m@ == "Securely connected to "@ + config.host@))
                    &&& (!config.secure ==> final(self).has_plain() && (r matches Ok(m)
                        && m@ == "Connected to "@ + config.host@))
                },
                ConnectOutcome::TransportFailed(raw) => {
                    &&& final(self).is_disconnected()
                    &&& (r matches Err(e) && is_connection_error(
                        e,
                        "Connection failed: "@ + raw@,
                    ))
                },
                ConnectOutcome::TlsFailed(raw) => {
                    &&& final(self).is_disconnected()
                    &&& (r matches Err(e) && is_tls_error(e, "TLS upgrade failed: "@ + raw@))
                },
                ConnectOutcome::AuthFailed(raw) => {
                    &&& final(self).is_disconnected()
                    &&& (config.secure ==> (r matches Err(e) && is_auth_error(
                        e,
                        "Secure Login failed: "@ + raw@,
                    )))
                    &&& (!config.secure ==> (r matches Err(e) && is_auth_error(
                        e,
                        "Login failed: "@ + raw@,
                    )))
                },
            }),
    {
        if !matches!(self.state, SessionState::Disconnected) {
            return Err(FtpError::OperationError(String::from_str("Already connected")));
        }
        match outcome {
            ConnectOutcome::Success => {
                if config.secure {
                    self.state = SessionState::ConnectedSecure;
                    Ok(prefixed("Securely connected to ", config.host.as_str()))
                } else {
                    self.state = SessionState::ConnectedPlain;
                    Ok(prefixed("Connected to ", config.host.as_str()))
                }
            },
            ConnectOutcome::TransportFailed(raw) => Err(
                FtpError::ConnectionError(prefixed("Connection failed: ", raw.as_str())),
            ),
            ConnectOutcome::TlsFailed(raw) => Err(
                FtpError::TlsError(prefixed("TLS upgrade failed: ", raw.as_str())),
            ),
            ConnectOutcome::AuthFailed(raw) => {
                if config.secure {
                    Err(FtpError::AuthError(prefixed("Secure Login failed: ", raw.as_str())))
                } else {
                    Err(FtpError::AuthError(prefixed("Login failed: ", raw.as_str())))
                }
            },
        }
    }

    /// Decide a disconnect. From a connected state the session is
    /// cleared and the driver is told (by the `Ok`) to send the
    /// best-effort termination; from the disconnected state the call
    /// fails with `NotConnected`. A second disconnect in a row
    /// therefore always fails with `NotConnected`.
    pub fn disconnect(&mut self) -> (r: Result<String, FtpError>)
        ensures
            final(self).is_disconnected(),
            old(self).has_secure() ==> (r matches Ok(m) && m@ == "Disconnected secure session"@),
            old(self).has_plain() ==> (r matches Ok(m) && m@ == "Disconnected plain session"@),
            old(self).is_disconnected() ==> r == Result::<String, FtpError>::Err(
                FtpError::NotConnected,
            ),
    {
        let r = match self.state {
            SessionState::Disconnected => Err(FtpError::NotConnected),
            SessionState::ConnectedPlain => Ok(
                String::from_str("Disconnected plain session"),
            ),
            SessionState::ConnectedSecure => Ok(
                String::from_str("Disconnected secure session"),
            ),
        };
        self.state = SessionState::Disconnected;
        r
    }
}

impl Default for Session {
    /// A fresh, disconnected session.
    fn default() -> (s: Session)
        ensures
            s.is_disconnected(),
    {
        Session::new()
    }
}

/// Exactly what the driver must dial for a connect: host and port
/// joined for the transport, the channel kind, and the credentials
/// (an absent password is sent as the empty string).
pub struct ConnectPlan {
    pub host_port: String,
    pub use_tls: bool,
    pub username: String,
    pub password: String,
}

/// What came of the driver's connect attempt, by failed stage.
#[derive(Debug)]
pub enum ConnectOutcome {
    Success,
    TransportFailed(String),
    TlsFailed(String),
    AuthFailed(String),
}

/// A prefix joined to a detail message.
pub fn prefixed(prefix: &str, rest: &str) -> (r: String)
    ensures
        r@ == prefix@ + rest@,
{
    let mut s = prefix.to_owned();
    s.append(rest);
    s
}

/// A plain and a secure session never exist at once: the session state
/// is a single value, and the two connected states are distinct.
pub proof fn lemma_one_session(s: Session)
    ensures
        !(s.has_plain() && s.has_secure()),
{
}

} // verus!
