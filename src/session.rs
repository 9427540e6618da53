//! The interactive session: who is signed in, and what each input line asks for.
use vstd::prelude::*;
use veilid_core::{KeyPair, RecordKey, VeilidAPIError};
use crate::command::{
    arity, index_of, parse_command, split_fields, verb_of, Command, CommandError, Verb,
};
use crate::protocol::{Exchange, Operation, Phase};

verus! {

/// veilid-core's signing key pair, carried through as an opaque value.
#[verifier::external_type_specification]
#[verifier::external_body]
pub struct ExKeyPair(KeyPair);

/// veilid-core's record key, carried through as an opaque value.
#[verifier::external_type_specification]
#[verifier::external_body]
pub struct ExRecordKey(RecordKey);

/// veilid-core's error type, as the key decoders return it.
#[verifier::external_type_specification]
#[verifier::external_body]
pub struct ExVeilidAPIError(VeilidAPIError);

/// Whether veilid-core reads `s` as a key pair token.
pub uninterp spec fn keypair_token_ok(s: Seq<char>) -> bool;

/// Whether veilid-core reads `s` as a record key.
pub uninterp spec fn record_key_ok(s: Seq<char>) -> bool;

/// Relies on veilid-core's `FromStr` for `KeyPair`: it decodes an optional
/// `KIND:` prefix and a base64url `<public>:<secret>` pair, and whether it
/// succeeds depends on the text alone.
#[verifier::external_body]
fn decode_keypair(token: &str) -> (r: Result<KeyPair, VeilidAPIError>)
    ensures
        r is Ok <==> keypair_token_ok(token@),
{
    token.parse::<KeyPair>()
}

/// Relies on veilid-core's `FromStr` for `RecordKey`: it decodes an optional
/// `KIND:` prefix and a base64url key, and whether it succeeds depends on the
/// text alone.
#[verifier::external_body]
fn decode_record_key(text: &str) -> (r: Result<RecordKey, VeilidAPIError>)
    ensures
        r is Ok <==> record_key_ok(text@),
{
    text.parse::<RecordKey>()
}

/// Relies on veilid-core's `Crypto::generate_keypair` for the VLD0 kind: a
/// fresh random key pair. Nothing is stated of its value.
#[verifier::external_body]
fn generate_keypair() -> (r: Result<KeyPair, VeilidAPIError>) {
    veilid_core::Crypto::generate_keypair(veilid_core::CRYPTO_KIND_VLD0)
}

/// Why a line was refused.
#[derive(Debug, Clone, Copy, PartialEq, Eq)]
pub enum SessionError {
    /// A known verb with the wrong number of arguments, or a bad position.
    ArgumentError,
    /// The first field is no verb.
    InvalidCommand,
    /// A key pair token or a record key that does not decode.
    DecodeError,
    /// No key pair could be generated.
    KeygenError,
}

/// The session's state: the identity that writes, if one was adopted.
pub struct Session {
    pub identity: Option<KeyPair>,
}

/// What the caller is to do for one input line.
pub enum Step {
    /// A fresh key pair was generated and adopted as the session's identity.
    SignedUp,
    /// The token was adopted as the session's identity.
    LoggedIn,
    /// Run the command on the record named by `key` (none for a new record).
    Run { key: Option<RecordKey>, exchange: Exchange },
    /// The line was refused; the session goes on.
    Report(SessionError),
    /// The session ends, on `exit` or because a login failed.
    Quit(Option<SessionError>),
}

/// `r` runs a fresh exchange for `op` against the record `key`.
pub open spec fn runs(r: Step, keyed: bool, op: spec_fn(Operation) -> bool) -> bool {
    r matches Step::Run { key, exchange } && (key is Some) == keyed && op(exchange.op)
        && exchange.wf() && exchange.phase == Phase::Idle && !exchange.open
        && exchange.result is None
}

impl Session {
    /// A session with no identity.
    pub fn new() -> (r: Session)
        ensures
            r.identity is None,
    {
        Session { identity: None }
    }

    /// Adopts a freshly generated key pair, in place of any earlier identity.
    pub fn signup(&mut self, fresh: KeyPair)
        ensures
            final(self).identity == Some(fresh),
    {
        self.identity = Some(fresh);
    }

    /// Adopts the key pair that `token` encodes; a token that does not decode
    /// leaves the identity as it was.
    pub fn login(&mut self, token: &str) -> (r: Result<(), SessionError>)
        ensures
            r is Ok <==> keypair_token_ok(token@),
            r is Ok ==> final(self).identity is Some,
            r is Err ==> r == Err::<(), SessionError>(SessionError::DecodeError),
            r is Err ==> final(self).identity == old(self).identity,
    {
        match decode_keypair(token) {
            Ok(k) => {
                self.identity = Some(k);
                Ok(())
            },
            Err(_) => Err(SessionError::DecodeError),
        }
    }

    /// Decides what one input line asks for. A refused line lets the session
    /// go on, except a failed `login`, which ends it; `exit` ends it too.
    pub fn dispatch(&mut self, line: &str) -> (r: Step)
        ensures
            ({
                let f = split_fields(line@);
                if f.len() == 0 {
                    r == Step::Report(SessionError::InvalidCommand)
                } else {
                match verb_of(f[0]) {
                    None => r == Step::Report(SessionError::InvalidCommand),
                    Some(v) => if f.len() != arity(v) + 1 {
                        if v == Verb::Login {
                            r == Step::Quit(Some(SessionError::ArgumentError))
                        } else {
                            r == Step::Report(SessionError::ArgumentError)
                        }
                    } else {
                        match v {
                            Verb::Signup => {
                                let after = final(self).identity;
                                (r == Step::SignedUp && after is Some) || (r == Step::Report(
                                    SessionError::KeygenError,
                                ) && after == old(self).identity)
                            },
                            Verb::Exit => r == Step::Quit(None),
                            Verb::Login => if keypair_token_ok(f[1]) {
                                r == Step::LoggedIn && final(self).identity is Some
                            } else {
                                r == Step::Quit(Some(SessionError::DecodeError))
                            },
                            Verb::Create => runs(
                                r,
                                false,
                                |op: Operation| op matches Operation::Create(t) && t@ == f[1],
                            ),
                            Verb::Get => if record_key_ok(f[1]) {
                                runs(r, true, |op: Operation| op == Operation::Read)
                            } else {
                                r == Step::Report(SessionError::DecodeError)
                            },
                            Verb::Append => if record_key_ok(f[1]) {
                                runs(
                                    r,
                                    true,
                                    |op: Operation| op matches Operation::Append(t) && t@ == f[2],
                                )
                            } else {
                                r == Step::Report(SessionError::DecodeError)
                            },
                            Verb::Del => match index_of(f[2]) {
                                None => r == Step::Report(SessionError::ArgumentError),
                                Some(n) => if record_key_ok(f[1]) {
                                    runs(
                                        r,
                                        true,
                                        |op: Operation| op == Operation::RemoveAt(n as usize),
                                    )
                                } else {
                                    r == Step::Report(SessionError::DecodeError)
                                },
                            },
                        }
                    },
                }
                }
            }),
            !(r is LoggedIn || r is SignedUp) ==> final(self).identity == old(self).identity,
    {
        let cmd = match parse_command(line) {
            Ok(c) => c,
            Err(CommandError::InvalidCommand) => return Step::Report(SessionError::InvalidCommand),
            Err(CommandError::ArgumentError) => {
                let f = crate::command::get_args_multi(line);
                proof {
                    assert(f@.map_values(|s: String| s@)[0] == f@[0]@);
                }
                return match crate::command::verb(f[0].as_str()) {
                    Some(Verb::Login) => Step::Quit(Some(SessionError::ArgumentError)),
                    _ => Step::Report(SessionError::ArgumentError),
                };
            },
        };
        match cmd {
            Command::Signup => match generate_keypair() {
                Ok(k) => {
                    self.signup(k);
                    Step::SignedUp
                },
                Err(_) => Step::Report(SessionError::KeygenError),
            },
            Command::Exit => Step::Quit(None),
            Command::Login(token) => match self.login(token.as_str()) {
                Ok(()) => Step::LoggedIn,
                Err(e) => Step::Quit(Some(e)),
            },
            Command::Create(title) => Step::Run {
                key: None,
                exchange: Exchange::new(Operation::Create(title)),
            },
            Command::Get(k) => match decode_record_key(k.as_str()) {
                Ok(key) => Step::Run { key: Some(key), exchange: Exchange::new(Operation::Read) },
                Err(_) => Step::Report(SessionError::DecodeError),
            },
            Command::Append(k, text) => match decode_record_key(k.as_str()) {
                Ok(key) => Step::Run {
                    key: Some(key),
                    exchange: Exchange::new(Operation::Append(text)),
                },
                Err(_) => Step::Report(SessionError::DecodeError),
            },
            Command::Del(k, index) => match decode_record_key(k.as_str()) {
                Ok(key) => Step::Run {
                    key: Some(key),
                    exchange: Exchange::new(Operation::RemoveAt(index)),
                },
                Err(_) => Step::Report(SessionError::DecodeError),
            },
        }
    }
}

} // verus!
