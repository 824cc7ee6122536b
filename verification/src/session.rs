//! The gateway session core: per-connection login handling and order
//! relay. The session decides; the surrounding process does the socket
//! work, writing `out_buffer` to the client and `response_buffer` to the
//! matching engine.

use crate::instrument::Instrument;
use crate::oep::decoder::Decoder;
use crate::oep::header::{OepHeader, OEP_VERSION};
use crate::oep::login::LOGIN_SIZE;
use crate::oep::oep_message::MsgType;
use crate::oep::MessageTypes;
use vstd::prelude::*;

verus! {

/// The credential and instrument store behind the gateway; consulted once
/// per login. What a login attempt answers is a function of the store's
/// state alone, named by `login_result`.
pub trait GenericDB: Sized {
    /// The participant a login with these credentials resolves to, if the
    /// store accepts them.
    spec fn login_result(&self, username: Seq<u8>, password: Seq<u8>, session_id: u32) -> Option<
        u64,
    >;

    fn connect(&mut self, addr: &str, port: u16, username: &str, password: &str, dbname: &str)
        -> Result<(), DbError>;

    fn disconnect(&mut self);

    /// Checks a login: the user name as its raw bytes, the password as
    /// its 64-byte digest.
    fn check_login(&mut self, username: &[u8], password: &[u8; 64], session_id: u32) -> (r: Result<
        u64,
        DbError,
    >)
        ensures
            (match old(self).login_result(username@, password@, session_id) {
                Some(p) => r == Ok::<u64, DbError>(p),
                None => r is Err,
            }),
            final(self).login_result(username@, password@, session_id) == old(self).login_result(
                username@,
                password@,
                session_id,
            ),
    ;

    /// The instrument catalog the store holds, for the clearing side.
    fn get_instruments(&mut self) -> Vec<Instrument>;
}

/// A database operation failed; the login it served is rejected.
#[derive(Debug, Copy, Clone, PartialEq, Eq, Structural)]
pub struct DbError;

/// A credential store that accepts every login as participant 111; used
/// by the session tests.
pub struct MockDB {
    pub connected: bool,
}

impl MockDB {
    pub fn new() -> (r: MockDB)
        ensures
            !r.connected,
    {
        MockDB { connected: false }
    }
}

impl GenericDB for MockDB {
    open spec fn login_result(&self, username: Seq<u8>, password: Seq<u8>, session_id: u32) -> Option<
        u64,
    > {
        Some(111u64)
    }

    fn connect(
        &mut self,
        addr: &str,
        port: u16,
        username: &str,
        password: &str,
        dbname: &str,
    ) -> Result<(), DbError> {
        self.connected = true;
        Ok(())
    }

    fn disconnect(&mut self) {
        self.connected = false;
    }

    fn check_login(&mut self, username: &[u8], password: &[u8; 64], session_id: u32) -> (r: Result<
        u64,
        DbError,
    >) {
        Ok(111)
    }

    fn get_instruments(&mut self) -> Vec<Instrument> {
        Vec::new()
    }
}

/// Why a received message closed or rejected a session.
#[derive(Debug, Copy, Clone, PartialEq, Eq, Structural)]
pub enum SessionError {
    /// an order message from the wrong participant, or before login
    InvalidParticipant,
    /// a second login on an authenticated session
    AlreadyLoggedIn,
    /// the credential store rejected the login
    LoginRejected,
    /// a message kind that clients never send
    UnexpectedMessage,
}

/// A gateway-side client record: the authenticated identity, the bytes
/// received so far, the bytes to relay to the matching engine, and the
/// bytes to write back to the client (buffered while corked, so a
/// multi-part message reaches the wire as one write).
#[derive(Debug)]
pub struct ConnectedSession {
    /// 0 until the session has authenticated
    pub session_id: u32,
    /// 0 until the session has authenticated
    pub participant: u64,
    pub recv_buffer: Vec<u8>,
    /// bytes to relay to the matching engine; the caller sends and clears
    pub response_buffer: Vec<u8>,
    pub is_corked: bool,
    pub cork_buf: Vec<u8>,
    /// bytes to write back to the client; the caller writes and drains
    pub out_buffer: Vec<u8>,
}

impl ConnectedSession {
    pub fn new() -> (r: ConnectedSession)
        ensures
            r.session_id == 0,
            r.participant == 0,
            r.recv_buffer@ == Seq::<u8>::empty(),
            r.response_buffer@ == Seq::<u8>::empty(),
            !r.is_corked,
            r.cork_buf@ == Seq::<u8>::empty(),
            r.out_buffer@ == Seq::<u8>::empty(),
    {
        ConnectedSession {
            session_id: 0,
            participant: 0,
            recv_buffer: Vec::new(),
            response_buffer: Vec::new(),
            is_corked: false,
            cork_buf: Vec::new(),
            out_buffer: Vec::new(),
        }
    }

    /// Queues bytes for the client: straight to the outgoing buffer, or
    /// to the cork buffer while corked.
    pub fn send(&mut self, buf: &[u8]) -> (r: Result<usize, crate::disseminator::SendError>)
        ensures
            r == Ok::<usize, crate::disseminator::SendError>(buf@.len() as usize),
            old(self).is_corked ==> *final(self) == (ConnectedSession {
                cork_buf: final(self).cork_buf,
                ..*old(self)
            }) && final(self).cork_buf@ == old(self).cork_buf@ + buf@,
            !old(self).is_corked ==> *final(self) == (ConnectedSession {
                out_buffer: final(self).out_buffer,
                ..*old(self)
            }) && final(self).out_buffer@ == old(self).out_buffer@ + buf@,
    {
        if !self.is_corked {
            self.out_buffer.extend_from_slice(buf);
        } else {
            self.cork_buf.extend_from_slice(buf);
        }
        Ok(buf.len())
    }

    /// Starts buffering outgoing bytes.
    pub fn cork(&mut self)
        ensures
            *final(self) == (ConnectedSession { is_corked: true, ..*old(self) }),
    {
        self.is_corked = true;
    }

    /// Flushes everything buffered while corked as one write, and stops
    /// buffering. Returns how many bytes went out.
    pub fn uncork(&mut self) -> (r: Result<usize, crate::disseminator::SendError>)
        ensures
            r == Ok::<usize, crate::disseminator::SendError>(old(self).cork_buf@.len() as usize),
            final(self).out_buffer@ == old(self).out_buffer@ + old(self).cork_buf@,
            final(self).cork_buf@ == Seq::<u8>::empty(),
            !final(self).is_corked,
            *final(self) == (ConnectedSession {
                out_buffer: final(self).out_buffer,
                cork_buf: final(self).cork_buf,
                is_corked: false,
                ..*old(self)
            }),
    {
        let mut sent: usize = 0;
        if self.cork_buf.len() > 0 {
            sent = self.cork_buf.len();
            let mut drained: Vec<u8> = Vec::new();
            std::mem::swap(&mut drained, &mut self.cork_buf);
            self.out_buffer.extend_from_slice(drained.as_slice());
        }
        self.is_corked = false;
        proof {
            assert(self.out_buffer@ =~= old(self).out_buffer@ + old(self).cork_buf@);
            assert(self.cork_buf@ =~= Seq::<u8>::empty());
        }
        Ok(sent)
    }
}

/// The user-name bytes of a login field: everything up to the padding,
/// with every zero byte dropped.
pub open spec fn filter_nonzero(s: Seq<u8>) -> Seq<u8> {
    s.filter(|b: u8| b != 0)
}

/// The local header the gateway stamps onto a message relayed to the
/// matching engine.
pub open spec fn relay_header(kind: u8) -> Seq<u8> {
    seq![kind, 0u8, 0u8, 0u8]
}

/// Handles one message on a session.
///
/// A login on a fresh session is checked against the store: on success
/// the session takes the message's identity and echoes the login (header
/// and payload, corked into one write) back to the client. An order
/// message from the authenticated participant is stamped with its local
/// header and queued in `response_buffer` for the matching engine — the
/// caller sends that buffer and clears it. Anything else rejects or
/// closes the session.
///
/// Returns the session's participant after the message.
#[must_use]
pub fn receive_and_prepare_relay_message<DB: GenericDB>(
    db: &mut DB,
    session: &mut ConnectedSession,
    message: &MessageTypes,
) -> (r: Result<u64, SessionError>)
    ensures
        (match message {
            MessageTypes::Login(msg) => {
                if old(session).participant != 0 {
                    r == Err::<u64, SessionError>(SessionError::AlreadyLoggedIn) && *final(session)
                        == *old(session)
                } else {
                    let answer = old(db).login_result(
                        filter_nonzero(msg.user@),
                        msg.password@,
                        msg.session_id,
                    );
                    match answer {
                        Some(p) => {
                            &&& r == Ok::<u64, SessionError>(p)
                            &&& final(session).participant == p
                            &&& final(session).session_id == msg.session_id
                            &&& final(session).out_buffer@ == old(session).out_buffer@ + old(
                                session,
                            ).cork_buf@ + (OepHeader {
                                oep_version: OEP_VERSION,
                                msg_type: 4,
                                msg_len: LOGIN_SIZE as u32,
                            }).spec_encode() + msg.spec_encode()
                            &&& final(session).response_buffer@ == old(session).response_buffer@
                            &&& final(session).recv_buffer@ == old(session).recv_buffer@
                            &&& !final(session).is_corked
                            &&& final(session).cork_buf@ == Seq::<u8>::empty()
                        },
                        None => {
                            &&& r == Err::<u64, SessionError>(SessionError::LoginRejected)
                            &&& *final(session) == (ConnectedSession {
                                session_id: msg.session_id,
                                ..*old(session)
                            })
                        },
                    }
                }
            },
            MessageTypes::NewOrder(m) => {
                if m.participant != old(session).participant || old(session).participant == 0 {
                    r == Err::<u64, SessionError>(SessionError::InvalidParticipant) && *final(session) == *old(session)
                } else {
                    &&& r == Ok::<u64, SessionError>(old(session).participant)
                    &&& *final(session) == (ConnectedSession {
                        response_buffer: final(session).response_buffer,
                        ..*old(session)
                    })
                    &&& final(session).response_buffer@ == old(session).response_buffer@
                        + relay_header(0) + m.spec_encode()
                }
            },
            MessageTypes::Modify(m) => {
                if m.participant != old(session).participant || old(session).participant == 0 {
                    r == Err::<u64, SessionError>(SessionError::InvalidParticipant) && *final(session) == *old(session)
                } else {
                    &&& r == Ok::<u64, SessionError>(old(session).participant)
                    &&& *final(session) == (ConnectedSession {
                        response_buffer: final(session).response_buffer,
                        ..*old(session)
                    })
                    &&& final(session).response_buffer@ == old(session).response_buffer@
                        + relay_header(1) + m.spec_encode()
                }
            },
            MessageTypes::Cancel(m) => {
                if m.participant != old(session).participant || old(session).participant == 0 {
                    r == Err::<u64, SessionError>(SessionError::InvalidParticipant) && *final(session) == *old(session)
                } else {
                    &&& r == Ok::<u64, SessionError>(old(session).participant)
                    &&& *final(session) == (ConnectedSession {
                        response_buffer: final(session).response_buffer,
                        ..*old(session)
                    })
                    &&& final(session).response_buffer@ == old(session).response_buffer@
                        + relay_header(2) + m.spec_encode()
                }
            },
            MessageTypes::ExecutionReport(_) => r == Err::<u64, SessionError>(
                SessionError::UnexpectedMessage,
            ) && *final(session) == *old(session),
            MessageTypes::Trade(_) => r == Err::<u64, SessionError>(
                SessionError::UnexpectedMessage,
            ) && *final(session) == *old(session),
        }),
{
    broadcast use Seq::lemma_filter_push;

    match message {
        MessageTypes::Login(msg) => {
            if session.participant == 0 {
                session.session_id = msg.session_id;
                // the user field is zero-padded; the name is what is left
                // once the zero bytes are dropped
                let mut username: Vec<u8> = Vec::new();
                let mut i: usize = 0;
                while i < 64
                    invariant
                        i <= 64,
                        username@ == msg.user@.subrange(0, i as int).filter(|b: u8| b != 0),
                    decreases 64 - i,
                {
                    let ghost prefix = msg.user@.subrange(0, i as int);
                    let b = msg.user[i];
                    proof {
                        assert(msg.user@.subrange(0, i + 1) =~= prefix.push(b));
                        prefix.lemma_filter_push(b, |x: u8| x != 0);
                    }
                    if b != 0 {
                        username.push(b);
                    }
                    i += 1;
                }
                proof {
                    assert(msg.user@.subrange(0, 64) =~= msg.user@);
                }
                let answer = db.check_login(username.as_slice(), &msg.password, msg.session_id);
                match answer {
                    Ok(p) => {
                        session.participant = p;
                    },
                    Err(_) => {
                        return Err(SessionError::LoginRejected);
                    },
                }
                // echo the login back, header and payload corked into a
                // single write
                session.cork();
                let header = OepHeader::new(OEP_VERSION, MsgType::Login.into(), LOGIN_SIZE as u32);
                let hb = header.encode();
                let _ = session.send(hb.as_slice());
                let mb = msg.encode();
                let _ = session.send(mb.as_slice());
                let _ = session.uncork();
                proof {
                    assert(session.out_buffer@ =~= old(session).out_buffer@ + old(
                        session,
                    ).cork_buf@ + (OepHeader {
                        oep_version: OEP_VERSION,
                        msg_type: 4,
                        msg_len: LOGIN_SIZE as u32,
                    }).spec_encode() + msg.spec_encode());
                }
                Ok(session.participant)
            } else {
                Err(SessionError::AlreadyLoggedIn)
            }
        },
        MessageTypes::NewOrder(m) => {
            if m.participant != session.participant || session.participant == 0 {
                return Err(SessionError::InvalidParticipant);
            }
            let mut header: Vec<u8> = Vec::new();
            header.push(0);
            header.push(0);
            header.push(0);
            header.push(0);
            session.response_buffer.extend_from_slice(header.as_slice());
            let enc = m.encode();
            session.response_buffer.extend_from_slice(enc.as_slice());
            proof {
                assert(session.response_buffer@ =~= old(session).response_buffer@ + relay_header(0)
                    + m.spec_encode());
            }
            Ok(session.participant)
        },
        MessageTypes::Modify(m) => {
            if m.participant != session.participant || session.participant == 0 {
                return Err(SessionError::InvalidParticipant);
            }
            let mut header: Vec<u8> = Vec::new();
            header.push(1);
            header.push(0);
            header.push(0);
            header.push(0);
            session.response_buffer.extend_from_slice(header.as_slice());
            let enc = m.encode();
            session.response_buffer.extend_from_slice(enc.as_slice());
            proof {
                assert(session.response_buffer@ =~= old(session).response_buffer@ + relay_header(1)
                    + m.spec_encode());
            }
            Ok(session.participant)
        },
        MessageTypes::Cancel(m) => {
            if m.participant != session.participant || session.participant == 0 {
                return Err(SessionError::InvalidParticipant);
            }
            let mut header: Vec<u8> = Vec::new();
            header.push(2);
            header.push(0);
            header.push(0);
            header.push(0);
            session.response_buffer.extend_from_slice(header.as_slice());
            let enc = m.encode();
            session.response_buffer.extend_from_slice(enc.as_slice());
            proof {
                assert(session.response_buffer@ =~= old(session).response_buffer@ + relay_header(2)
                    + m.spec_encode());
            }
            Ok(session.participant)
        },
        MessageTypes::ExecutionReport(_) => Err(SessionError::UnexpectedMessage),
        MessageTypes::Trade(_) => Err(SessionError::UnexpectedMessage),
    }
}

/// Whether the gateway keeps the connection that sent this message: the
/// message must name this gateway, an authenticated session may only
/// speak under its own session id, and a fresh session may only log in.
pub open spec fn spec_message_admissible(
    message: MessageTypes,
    gateway_id: u8,
    participant: u64,
    session_id: u32,
) -> bool {
    match message {
        MessageTypes::Login(m) => m.gateway_id == gateway_id && (session_id == 0 || m.session_id
            == session_id),
        MessageTypes::NewOrder(m) => m.gateway_id == gateway_id && (session_id == 0 || m.session_id
            == session_id) && participant != 0 && session_id != 0,
        MessageTypes::Modify(m) => m.gateway_id == gateway_id && (session_id == 0 || m.session_id
            == session_id) && participant != 0 && session_id != 0,
        MessageTypes::Cancel(m) => m.gateway_id == gateway_id && (session_id == 0 || m.session_id
            == session_id) && participant != 0 && session_id != 0,
        MessageTypes::ExecutionReport(m) => m.gateway_id == gateway_id && (session_id == 0
            || m.session_id == session_id) && participant != 0 && session_id != 0,
        MessageTypes::Trade(_) => false,
    }
}

/// The gateway's per-message admission check, run before a message is
/// handed to the session; a failing message closes the connection.
pub fn message_admissible(
    message: &MessageTypes,
    gateway_id: u8,
    participant: u64,
    session_id: u32,
) -> (r: bool)
    ensures
        r == spec_message_admissible(*message, gateway_id, participant, session_id),
{
    match message {
        MessageTypes::Trade(_) => false,
        MessageTypes::Login(m) => m.gateway_id == gateway_id && (session_id == 0 || m.session_id
            == session_id),
        MessageTypes::NewOrder(m) => m.gateway_id == gateway_id && (session_id == 0 || m.session_id
            == session_id) && participant != 0 && session_id != 0,
        MessageTypes::Modify(m) => m.gateway_id == gateway_id && (session_id == 0 || m.session_id
            == session_id) && participant != 0 && session_id != 0,
        MessageTypes::Cancel(m) => m.gateway_id == gateway_id && (session_id == 0 || m.session_id
            == session_id) && participant != 0 && session_id != 0,
        MessageTypes::ExecutionReport(m) => m.gateway_id == gateway_id && (session_id == 0
            || m.session_id == session_id) && participant != 0 && session_id != 0,
    }
}

} // verus!
