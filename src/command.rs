use vstd::prelude::*;
use crate::store::{KeyValue, ReadEntry, latest_value, fetch_value};

verus! {

/// What a client asks of a node.
#[derive(Clone, Copy, Debug, PartialEq, Eq, Structural)]
pub enum Operation {
    Get,
    Put,
    Snapshot,
}

/// A client command. For `Get` and `Snapshot` the value is unused; for
/// `Snapshot` the key is unused too.
#[derive(Debug)]
pub struct Command {
    pub operation: Operation,
    pub key: String,
    pub value: u64,
}

/// The call into the replicated-log engine that a command needs.
#[derive(Debug)]
pub enum EngineCall {
    /// Read every entry of the log.
    ReadAll,
    /// Append an entry.
    Append(KeyValue),
    /// Compact the log, with the engine's default parameters.
    Snapshot,
}

/// What the engine answered to the call of a command.
#[derive(Debug)]
pub enum Outcome {
    /// The entries read, newest last, if the engine had any to give.
    Read(Option<Vec<ReadEntry>>),
    /// Whether the append succeeded.
    Appended(bool),
    /// Whether the snapshot succeeded.
    Snapshotted(bool),
}

/// The single textual outcome of a command.
#[derive(Clone, Copy, Debug, PartialEq, Eq, Structural)]
pub enum Reply {
    Value(u64),
    NoValue,
    PutDone,
    PutFailed,
    SnapshotDone,
    SnapshotFailed,
}

/// A command reading the value of `key`.
pub fn get(key: String) -> (r: Command)
    ensures
        r.operation == Operation::Get,
        r.key@ == key@,
        r.value == 0,
{
    Command { operation: Operation::Get, key, value: 0 }
}

/// A command setting `key` to `value`.
pub fn put(key: String, value: u64) -> (r: Command)
    ensures
        r.operation == Operation::Put,
        r.key@ == key@,
        r.value == value,
{
    Command { operation: Operation::Put, key, value }
}

/// A command asking for a snapshot; its key and value are placeholders.
pub fn snap() -> (r: Command)
    ensures
        r.operation == Operation::Snapshot,
        r.key@ == "_"@,
        r.value == 0,
{
    Command { operation: Operation::Snapshot, key: String::from_str("_"), value: 0 }
}

/// `call` is the engine call that `cmd` needs.
pub open spec fn call_matches(cmd: Command, call: EngineCall) -> bool {
    match cmd.operation {
        Operation::Get => call is ReadAll,
        Operation::Put => call is Append && call->Append_0.key@ == cmd.key@
            && call->Append_0.value == cmd.value,
        Operation::Snapshot => call is Snapshot,
    }
}

/// The engine call that a command needs.
pub fn plan(cmd: Command) -> (r: EngineCall)
    ensures
        call_matches(cmd, r),
{
    match cmd.operation {
        Operation::Get => EngineCall::ReadAll,
        Operation::Put => EngineCall::Append(KeyValue { key: cmd.key, value: cmd.value }),
        Operation::Snapshot => EngineCall::Snapshot,
    }
}

/// The reply owed for `outcome`, where `key` is the command's key.
pub open spec fn owed_reply(key: Seq<char>, outcome: Outcome) -> Reply {
    match outcome {
        Outcome::Read(None) => Reply::NoValue,
        Outcome::Read(Some(entries)) => match latest_value(entries@, key) {
            Some(v) => Reply::Value(v),
            None => Reply::NoValue,
        },
        Outcome::Appended(ok) => if ok {
            Reply::PutDone
        } else {
            Reply::PutFailed
        },
        Outcome::Snapshotted(ok) => if ok {
            Reply::SnapshotDone
        } else {
            Reply::SnapshotFailed
        },
    }
}

/// The reply to a command whose key is `key` and whose engine call came back
/// with `outcome`.
pub fn reply_for(key: &String, outcome: &Outcome) -> (r: Reply)
    ensures
        r == owed_reply(key@, *outcome),
{
    match outcome {
        Outcome::Read(None) => Reply::NoValue,
        Outcome::Read(Some(entries)) => match fetch_value(key, entries) {
            Some(v) => Reply::Value(v),
            None => Reply::NoValue,
        },
        Outcome::Appended(ok) => if *ok {
            Reply::PutDone
        } else {
            Reply::PutFailed
        },
        Outcome::Snapshotted(ok) => if *ok {
            Reply::SnapshotDone
        } else {
            Reply::SnapshotFailed
        },
    }
}

/// The decimal digit for `d`, which is below ten.
pub open spec fn digit_char(d: nat) -> char {
    if d == 0 {
        '0'
    } else if d == 1 {
        '1'
    } else if d == 2 {
        '2'
    } else if d == 3 {
        '3'
    } else if d == 4 {
        '4'
    } else if d == 5 {
        '5'
    } else if d == 6 {
        '6'
    } else if d == 7 {
        '7'
    } else if d == 8 {
        '8'
    } else {
        '9'
    }
}

/// The decimal notation of `n`, without leading zeros.
pub open spec fn decimal(n: nat) -> Seq<char>
    decreases n,
{
    if n < 10 {
        seq![digit_char(n)]
    } else {
        decimal(n / 10).push(digit_char(n % 10))
    }
}

/// The text sent to the client for a reply.
pub open spec fn reply_text(r: Reply) -> Seq<char> {
    match r {
        Reply::Value(v) => "This value is : "@ + decimal(v as nat),
        Reply::NoValue => "No value about the key"@,
        Reply::PutDone => "Successfully to put value"@,
        Reply::PutFailed => "Failed to put value"@,
        Reply::SnapshotDone => "Successfully to make a snapshot"@,
        Reply::SnapshotFailed => "Failed to make a snapshot"@,
    }
}

fn digit_str(d: u64) -> (r: &'static str)
    requires
        d < 10,
    ensures
        r@ == seq![digit_char(d as nat)],
{
    proof {
        reveal_strlit("0");
        reveal_strlit("1");
        reveal_strlit("2");
        reveal_strlit("3");
        reveal_strlit("4");
        reveal_strlit("5");
        reveal_strlit("6");
        reveal_strlit("7");
        reveal_strlit("8");
        reveal_strlit("9");
    }
    if d == 0 {
        "0"
    } else if d == 1 {
        "1"
    } else if d == 2 {
        "2"
    } else if d == 3 {
        "3"
    } else if d == 4 {
        "4"
    } else if d == 5 {
        "5"
    } else if d == 6 {
        "6"
    } else if d == 7 {
        "7"
    } else if d == 8 {
        "8"
    } else {
        "9"
    }
}

/// Appends the decimal notation of `n` to `s`.
pub fn push_decimal(s: &mut String, n: u64)
    ensures
        final(s)@ == old(s)@ + decimal(n as nat),
    decreases n,
{
    if n >= 10 {
        push_decimal(s, n / 10);
    }
    s.append(digit_str(n % 10));
    proof {
        if n >= 10 {
            assert(old(s)@ + decimal((n / 10) as nat) + seq![digit_char((n % 10) as nat)]
                == old(s)@ + decimal(n as nat));
        } else {
            assert(decimal(n as nat) == seq![digit_char(n as nat)]);
        }
    }
}

impl Reply {
    /// The text sent to the client for this reply.
    pub fn text(&self) -> (r: String)
        ensures
            r@ == reply_text(*self),
    {
        match self {
            Reply::Value(v) => {
                let mut s = String::from_str("This value is : ");
                push_decimal(&mut s, *v);
                s
            },
            Reply::NoValue => String::from_str("No value about the key"),
            Reply::PutDone => String::from_str("Successfully to put value"),
            Reply::PutFailed => String::from_str("Failed to put value"),
            Reply::SnapshotDone => String::from_str("Successfully to make a snapshot"),
            Reply::SnapshotFailed => String::from_str("Failed to make a snapshot"),
        }
    }
}

} // verus!
