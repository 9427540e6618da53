//! One list command against one record, as a state machine.
//!
//! The caller performs each action on the network and hands back what came
//! of it as the next event. A record that was opened is always closed before
//! the machine finishes, whatever failed on the way.
use vstd::prelude::*;
use vstd::utf8::encode_utf8;
use crate::codec::{
    decode, encode, encodable, format_error_of, lemma_decode_encode, parse_todo, todo_bytes,
    FormatError,
};
use crate::todo::{Todo, TodoModel, MAX_ITEMS};

verus! {

/// How many times an open, a read or a write that failed on the network is
/// tried again. A failed create is not: the network may have allocated the
/// record already, and a second try would leave one behind.
pub const MAX_RETRIES: u64 = 3;

/// The wait before the first retry; each further retry waits twice as long.
pub const BASE_DELAY_MS: u64 = 200;

/// The wait before retry number `attempt + 1`.
pub open spec fn backoff_ms(attempt: u64) -> u64
    recommends
        attempt < MAX_RETRIES,
{
    (BASE_DELAY_MS << attempt) as u64
}

/// What a list command does to its record.
#[derive(Debug, PartialEq, Eq)]
pub enum Operation {
    /// Allocate a new record holding an empty list with this title.
    Create(String),
    /// Add this text as the last entry.
    Append(String),
    /// Remove the entry at this 1-based position.
    RemoveAt(usize),
    /// Fetch the list.
    Read,
}

/// A failure that the network reports for one call.
#[derive(Debug, Clone, Copy, PartialEq, Eq, Structural)]
pub enum Fault {
    /// The call did not go through.
    Network,
    /// The writer is not the record's owner.
    Permission,
    /// No such record.
    NotFound,
}

/// Why a list command failed.
#[derive(Debug, Clone, Copy, PartialEq, Eq)]
pub enum EngineError {
    NetworkError,
    PermissionError,
    NotFoundError,
    FormatError(FormatError),
    IndexError,
    Full,
}

pub open spec fn fault_error(f: Fault) -> EngineError {
    match f {
        Fault::Network => EngineError::NetworkError,
        Fault::Permission => EngineError::PermissionError,
        Fault::NotFound => EngineError::NotFoundError,
    }
}

/// What the network answered to the last action.
#[derive(Debug, PartialEq, Eq)]
pub enum Event {
    /// Nothing yet: the command begins.
    Start,
    /// The new record exists and is open.
    Created,
    CreateFailed(Fault),
    Opened,
    OpenFailed(Fault),
    /// The value of the list's subkey, `None` where it was never written.
    Value(Option<Vec<u8>>),
    GetFailed(Fault),
    Written,
    WriteFailed(Fault),
    Closed,
}

/// What the caller is to do next.
#[derive(Debug, PartialEq, Eq)]
pub enum Action {
    /// Allocate a record owned by the session's identity.
    CreateRecord,
    /// Open the record, after waiting `delay_ms`; with the session's identity
    /// as writer where `writer` holds.
    OpenRecord { writer: bool, delay_ms: u64 },
    /// Read the list's subkey, after waiting `delay_ms`.
    GetValue { delay_ms: u64 },
    /// Write `payload` to the list's subkey, after waiting `delay_ms`.
    SetValue { payload: Vec<u8>, delay_ms: u64 },
    /// Close the record.
    CloseRecord,
    /// The command is over; its result is in `result`.
    Finish,
    /// The event did not fit the command's state and was ignored.
    Ignore,
}

/// Where a command stands.
#[derive(Debug, Clone, Copy, PartialEq, Eq)]
pub enum Phase {
    Idle,
    Creating,
    Opening,
    Reading,
    Writing,
    Closing,
    Done,
}

/// What a command that succeeded gives back.
#[derive(Debug, PartialEq, Eq)]
pub enum Outcome {
    Created,
    Appended,
    Removed,
    /// The list as it was read.
    Read(Todo),
}

/// One command against one record.
pub struct Exchange {
    pub op: Operation,
    pub phase: Phase,
    /// The record is open and must still be closed.
    pub open: bool,
    /// Retries spent on the current read or write.
    pub retries: u64,
    /// The payload being written.
    pub pending: Vec<u8>,
    /// What the command has come to, once it is decided.
    pub result: Option<Result<Outcome, EngineError>>,
}

/// The list `m` with `text` added at the end.
pub open spec fn appended(m: TodoModel, text: Seq<char>) -> TodoModel {
    TodoModel { title: m.title, content: m.content.push(text) }
}

/// The list `m` without the entry at the 1-based position `index`.
pub open spec fn removed(m: TodoModel, index: nat) -> TodoModel {
    TodoModel { title: m.title, content: m.content.remove(index - 1) }
}

/// `r` writes `bytes` to the list's subkey after waiting `delay`.
pub open spec fn sets(r: Action, bytes: Seq<u8>, delay: u64) -> bool {
    r matches Action::SetValue { payload, delay_ms } && payload@ == bytes && delay_ms == delay
}

/// `t` closes the record with the error `e`.
pub open spec fn closes_with(t: Exchange, r: Action, e: EngineError) -> bool {
    &&& r == Action::CloseRecord
    &&& t.phase == Phase::Closing
    &&& t.open
    &&& t.result == Some(Err::<Outcome, EngineError>(e))
}

/// `t` finishes with the error `e`, nothing having been opened.
pub open spec fn finishes_with(t: Exchange, r: Action, e: EngineError) -> bool {
    &&& r == Action::Finish
    &&& t.phase == Phase::Done
    &&& !t.open
    &&& t.result == Some(Err::<Outcome, EngineError>(e))
}

/// The protocol: from `s`, on the event `ev`, the machine moves to `t` and asks for `r`.
pub open spec fn steps_to(s: Exchange, ev: Event, t: Exchange, r: Action) -> bool {
    t.op == s.op && match (s.phase, ev) {
        (Phase::Idle, Event::Start) => {
            &&& t.result is None
            &&& !t.open
            &&& match s.op {
                Operation::Create(_) => r == Action::CreateRecord && t.phase == Phase::Creating,
                _ => r == (Action::OpenRecord { writer: !(s.op is Read), delay_ms: 0 })
                    && t.phase == Phase::Opening && t.retries == 0,
            }
        },
        (Phase::Creating, Event::Created) => {
            &&& t.open
            &&& t.phase == Phase::Writing
            &&& t.result is None
            &&& s.op matches Operation::Create(title) && sets(
                r,
                todo_bytes(TodoModel { title: title@, content: Seq::empty() }),
                0,
            )
            &&& t.pending@ == todo_bytes(TodoModel { title: s.op->Create_0@, content: Seq::empty() })
        },
        (Phase::Creating, Event::CreateFailed(f)) => finishes_with(t, r, fault_error(f)),
        (Phase::Opening, Event::Opened) => {
            &&& t.open
            &&& t.phase == Phase::Reading
            &&& t.retries == 0
            &&& t.result is None
            &&& r == Action::GetValue { delay_ms: 0 }
        },
        (Phase::Opening, Event::OpenFailed(f)) => if f == Fault::Network && s.retries
            < MAX_RETRIES {
            &&& r == (Action::OpenRecord {
                writer: !(s.op is Read),
                delay_ms: backoff_ms(s.retries),
            })
            &&& t.retries == s.retries + 1
            &&& t.phase == Phase::Opening
            &&& !t.open
            &&& t.result is None
        } else {
            finishes_with(t, r, fault_error(f))
        },
        (Phase::Reading, Event::Value(None)) => closes_with(t, r, EngineError::NotFoundError),
        (Phase::Reading, Event::Value(Some(b))) => match parse_todo(b@) {
            None => closes_with(t, r, EngineError::FormatError(format_error_of(b@))),
            Some(m) => match s.op {
                Operation::Read => {
                    &&& r == Action::CloseRecord
                    &&& t.phase == Phase::Closing
                    &&& t.open
                    &&& t.result matches Some(Ok(Outcome::Read(l))) && l@ == m
                },
                Operation::Append(text) => if m.content.len() < MAX_ITEMS {
                    &&& sets(r, todo_bytes(appended(m, text@)), 0)
                    &&& t.pending@ == todo_bytes(appended(m, text@))
                    &&& t.phase == Phase::Writing
                    &&& t.open
                    &&& t.retries == 0
                    &&& t.result is None
                } else {
                    closes_with(t, r, EngineError::Full)
                },
                Operation::RemoveAt(i) => if 1 <= i <= m.content.len() {
                    &&& sets(r, todo_bytes(removed(m, i as nat)), 0)
                    &&& t.pending@ == todo_bytes(removed(m, i as nat))
                    &&& t.phase == Phase::Writing
                    &&& t.open
                    &&& t.retries == 0
                    &&& t.result is None
                } else {
                    closes_with(t, r, EngineError::IndexError)
                },
                Operation::Create(_) => false,
            },
        },
        (Phase::Reading, Event::GetFailed(f)) => if f == Fault::Network && s.retries
            < MAX_RETRIES {
            &&& r == Action::GetValue { delay_ms: backoff_ms(s.retries) }
            &&& t.retries == s.retries + 1
            &&& t.phase == Phase::Reading
            &&& t.open
            &&& t.result is None
        } else {
            closes_with(t, r, fault_error(f))
        },
        (Phase::Writing, Event::Written) => {
            &&& r == Action::CloseRecord
            &&& t.phase == Phase::Closing
            &&& t.open
            &&& t.result == Some(
                Ok::<Outcome, EngineError>(
                    match s.op {
                        Operation::Create(_) => Outcome::Created,
                        Operation::Append(_) => Outcome::Appended,
                        _ => Outcome::Removed,
                    },
                ),
            )
        },
        (Phase::Writing, Event::WriteFailed(f)) => if f == Fault::Network && s.retries
            < MAX_RETRIES {
            &&& sets(r, s.pending@, backoff_ms(s.retries))
            &&& t.pending@ == s.pending@
            &&& t.retries == s.retries + 1
            &&& t.phase == Phase::Writing
            &&& t.open
            &&& t.result is None
        } else {
            closes_with(t, r, fault_error(f))
        },
        (Phase::Closing, Event::Closed) => {
            &&& r == Action::Finish
            &&& t.phase == Phase::Done
            &&& !t.open
            &&& t.result == s.result
        },
        _ => r == Action::Ignore && t == s,
    }
}

proof fn lemma_append_writes(m: TodoModel, a: Exchange, read: Event, a2: Exchange, w: Action)
    requires
        parse_todo(todo_bytes(m)) == Some(m),
        m.content.len() < MAX_ITEMS,
        a.phase == Phase::Reading,
        a.op is Append,
        read matches Event::Value(Some(v)) && v@ == todo_bytes(m),
        steps_to(a, read, a2, w),
    ensures
        sets(w, todo_bytes(appended(m, a.op->Append_0@)), 0),
{
}

/// Last write wins. Two appends, one adding `x` and one adding `y`, that both
/// read the same stored list `m` before either writes, each write that list
/// with their own entry added. Whichever write lands last is what the record
/// then holds: `m` with `y` added, where the second lands last, and the entry
/// `x` is lost unless `m` already held it or it equals `y`.
pub proof fn lemma_last_write_wins(
    m: TodoModel,
    a: Exchange,
    read_a: Event,
    a2: Exchange,
    write_a: Action,
    b: Exchange,
    read_b: Event,
    b2: Exchange,
    write_b: Action,
)
    requires
        m.wf(),
        encodable(m),
        m.content.len() < MAX_ITEMS,
        a.phase == Phase::Reading,
        b.phase == Phase::Reading,
        a.op is Append,
        b.op is Append,
        encode_utf8(a.op->Append_0@).len() <= u64::MAX,
        encode_utf8(b.op->Append_0@).len() <= u64::MAX,
        read_a matches Event::Value(Some(v)) && v@ == todo_bytes(m),
        read_b matches Event::Value(Some(v)) && v@ == todo_bytes(m),
        steps_to(a, read_a, a2, write_a),
        steps_to(b, read_b, b2, write_b),
    ensures
        ({
            let x = a.op->Append_0@;
            let y = b.op->Append_0@;
            &&& sets(write_a, todo_bytes(appended(m, x)), 0)
            &&& sets(write_b, todo_bytes(appended(m, y)), 0)
            &&& parse_todo(todo_bytes(appended(m, y))) == Some(appended(m, y))
            &&& (!m.content.contains(x) && x != y ==> !appended(m, y).content.contains(x))
        }),
{
    lemma_decode_encode(m);
    lemma_append_writes(m, a, read_a, a2, write_a);
    lemma_append_writes(m, b, read_b, b2, write_b);
    let x = a.op->Append_0@;
    let y = b.op->Append_0@;
    let my = appended(m, y);
    assert forall|i: int| 0 <= i < my.content.len() implies encode_utf8(
        #[trigger] my.content[i],
    ).len() <= u64::MAX by {
        if i < m.content.len() {
            assert(my.content[i] == m.content[i]);
        }
    }
    lemma_decode_encode(my);
    if !m.content.contains(x) && x != y {
        if my.content.contains(x) {
            let k = choose|k: int| 0 <= k < my.content.len() && my.content[k] == x;
            if k < m.content.len() {
                assert(m.content[k] == x);
            }
        }
    }
}

/// A write that the network refuses for the writer's identity ends the
/// command with a permission error: the machine asks for no further write,
/// closes the record, and once it is closed finishes with that error.
pub proof fn lemma_refused_write_closes(
    s: Exchange,
    t: Exchange,
    r: Action,
    t2: Exchange,
    r2: Action,
)
    requires
        s.wf(),
        s.phase == Phase::Writing,
        steps_to(s, Event::WriteFailed(Fault::Permission), t, r),
        steps_to(t, Event::Closed, t2, r2),
    ensures
        r == Action::CloseRecord,
        t.result == Some(Err::<Outcome, EngineError>(EngineError::PermissionError)),
        r2 == Action::Finish,
        !t2.open,
        t2.result == t.result,
{
}

impl Exchange {
    /// The machine's own invariant.
    pub open spec fn wf(&self) -> bool {
        &&& self.retries <= MAX_RETRIES
        &&& (self.phase == Phase::Idle || self.phase == Phase::Creating
            || self.phase == Phase::Opening || self.phase == Phase::Done) ==> !self.open
        &&& (self.phase == Phase::Reading || self.phase == Phase::Writing
            || self.phase == Phase::Closing) ==> self.open
        &&& (self.phase == Phase::Closing || self.phase == Phase::Done) ==> self.result is Some
        &&& (self.phase == Phase::Idle || self.phase == Phase::Creating || self.phase == Phase::Opening
            || self.phase == Phase::Reading || self.phase == Phase::Writing) ==> self.result is None
        &&& self.op is Create ==> self.phase != Phase::Opening && self.phase != Phase::Reading
        &&& !(self.op is Create) ==> self.phase != Phase::Creating
    }

    /// A command that has not started.
    pub fn new(op: Operation) -> (r: Exchange)
        ensures
            r.wf(),
            r.op == op,
            r.phase == Phase::Idle,
            !r.open,
            r.result is None,
    {
        Exchange {
            op,
            phase: Phase::Idle,
            open: false,
            retries: 0,
            pending: Vec::new(),
            result: None,
        }
    }

    fn fail_open(&mut self, e: EngineError) -> (r: Action)
        requires
            old(self).open,
        ensures
            r == Action::CloseRecord,
            final(self).phase == Phase::Closing,
            final(self).open,
            final(self).result == Some(Err::<Outcome, EngineError>(e)),
            final(self).op == old(self).op,
            final(self).retries == old(self).retries,
    {
        self.phase = Phase::Closing;
        self.result = Some(Err(e));
        Action::CloseRecord
    }

    /// Takes the network's answer to the last action and decides the next one.
    /// The record is closed before the machine finishes on every path, and a
    /// write carries exactly the list that was read, changed as the command says.
    pub fn step(&mut self, ev: Event) -> (r: Action)
        requires
            old(self).wf(),
        ensures
            final(self).wf(),
            steps_to(*old(self), ev, *final(self), r),
            r == Action::Finish ==> !final(self).open,
            old(self).open && !final(self).open ==> r == Action::Finish,
    {
        match (self.phase, ev) {
            (Phase::Idle, Event::Start) => {
                match self.op {
                    Operation::Create(_) => {
                        self.phase = Phase::Creating;
                        Action::CreateRecord
                    },
                    Operation::Read => {
                        self.phase = Phase::Opening;
                        self.retries = 0;
                        Action::OpenRecord { writer: false, delay_ms: 0 }
                    },
                    _ => {
                        self.phase = Phase::Opening;
                        self.retries = 0;
                        Action::OpenRecord { writer: true, delay_ms: 0 }
                    },
                }
            },
            (Phase::Creating, Event::Created) => {
                self.open = true;
                let title = match &self.op {
                    Operation::Create(title) => title.clone(),
                    _ => String::new(),
                };
                let t = Todo::new(title);
                self.start_write(&t)
            },
            (Phase::Creating, Event::CreateFailed(f)) => {
                self.phase = Phase::Done;
                self.result = Some(Err(Self::fault(f)));
                Action::Finish
            },
            (Phase::Opening, Event::Opened) => {
                self.open = true;
                self.phase = Phase::Reading;
                self.retries = 0;
                Action::GetValue { delay_ms: 0 }
            },
            (Phase::Opening, Event::OpenFailed(f)) => {
                if f == Fault::Network && self.retries < MAX_RETRIES {
                    let delay = BASE_DELAY_MS << self.retries;
                    self.retries = self.retries + 1;
                    let writer = match self.op {
                        Operation::Read => false,
                        _ => true,
                    };
                    return Action::OpenRecord { writer, delay_ms: delay };
                }
                self.phase = Phase::Done;
                self.result = Some(Err(Self::fault(f)));
                Action::Finish
            },
            (Phase::Reading, Event::Value(None)) => self.fail_open(EngineError::NotFoundError),
            (Phase::Reading, Event::Value(Some(b))) => {
                let mut t = match decode(b.as_slice()) {
                    Ok(t) => t,
                    Err(e) => return self.fail_open(EngineError::FormatError(e)),
                };
                match &self.op {
                    Operation::Read => {
                        self.phase = Phase::Closing;
                        self.result = Some(Ok(Outcome::Read(t)));
                        Action::CloseRecord
                    },
                    Operation::Append(text) => {
                        let text = text.clone();
                        match t.append(text) {
                            Ok(()) => self.start_write(&t),
                            Err(_) => self.fail_open(EngineError::Full),
                        }
                    },
                    Operation::RemoveAt(i) => {
                        let i = *i;
                        match t.remove_at(i) {
                            Ok(_) => self.start_write(&t),
                            Err(_) => self.fail_open(EngineError::IndexError),
                        }
                    },
                    Operation::Create(_) => Action::Ignore,
                }
            },
            (Phase::Reading, Event::GetFailed(f)) => {
                if f == Fault::Network && self.retries < MAX_RETRIES {
                    let delay = BASE_DELAY_MS << self.retries;
                    self.retries = self.retries + 1;
                    Action::GetValue { delay_ms: delay }
                } else {
                    self.fail_open(Self::fault(f))
                }
            },
            (Phase::Writing, Event::Written) => {
                let outcome = match self.op {
                    Operation::Create(_) => Outcome::Created,
                    Operation::Append(_) => Outcome::Appended,
                    _ => Outcome::Removed,
                };
                self.phase = Phase::Closing;
                self.result = Some(Ok(outcome));
                Action::CloseRecord
            },
            (Phase::Writing, Event::WriteFailed(f)) => {
                if f == Fault::Network && self.retries < MAX_RETRIES {
                    let delay = BASE_DELAY_MS << self.retries;
                    self.retries = self.retries + 1;
                    Action::SetValue { payload: self.pending.clone(), delay_ms: delay }
                } else {
                    self.fail_open(Self::fault(f))
                }
            },
            (Phase::Closing, Event::Closed) => {
                self.open = false;
                self.phase = Phase::Done;
                Action::Finish
            },
            _ => Action::Ignore,
        }
    }

    fn fault(f: Fault) -> (r: EngineError)
        ensures
            r == fault_error(f),
    {
        match f {
            Fault::Network => EngineError::NetworkError,
            Fault::Permission => EngineError::PermissionError,
            Fault::NotFound => EngineError::NotFoundError,
        }
    }

    fn start_write(&mut self, t: &Todo) -> (r: Action)
        requires
            old(self).open,
            t.wf(),
        ensures
            sets(r, todo_bytes(t@), 0),
            final(self).pending@ == todo_bytes(t@),
            final(self).phase == Phase::Writing,
            final(self).open,
            final(self).retries == 0,
            final(self).result == old(self).result,
            final(self).op == old(self).op,
    {
        let payload = encode(t);
        self.pending = payload.clone();
        self.phase = Phase::Writing;
        self.retries = 0;
        Action::SetValue { payload, delay_ms: 0 }
    }
}

} // verus!
