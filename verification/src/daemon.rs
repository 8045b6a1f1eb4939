//! The files that keep one HTTP server per port: the PID file's contents
//! and the names of the PID and lock files.

use vstd::prelude::*;
use crate::number::all_digits;
use crate::number::decimal;
use crate::number::decimal_string;
use crate::number::parse_unsigned;
use crate::number::parse_unsigned_spec;
use crate::text::concat3;
use crate::text::lines;
use crate::text::lines_spec;
use crate::text::views;

verus! {

/// What a PID file says.
#[derive(Debug, Clone, Copy, PartialEq, Eq, Structural)]
pub enum PidFileRead {
    /// Fewer than two lines: the file is stale and is removed.
    TooShort,
    /// The first line is not a process id.
    InvalidPid,
    /// The second line is not a port.
    InvalidPort,
    /// The server's process id and port.
    Record { pid: u32, port: u16 },
}

/// The contents of the PID file of process `pid` serving `port`.
pub open spec fn pid_file_spec(pid: nat, port: nat) -> Seq<char> {
    decimal(pid) + seq!['\n'] + decimal(port) + seq!['\n']
}

/// What the PID file `content` says: its first line read as a process id
/// and its second as a port.
pub open spec fn read_pid_file_spec(content: Seq<char>) -> PidFileRead {
    let ls = lines_spec(content);
    if ls.len() < 2 {
        PidFileRead::TooShort
    } else {
        match parse_unsigned_spec(ls[0], u32::MAX as nat) {
            None => PidFileRead::InvalidPid,
            Some(pid) => match parse_unsigned_spec(ls[1], u16::MAX as nat) {
                None => PidFileRead::InvalidPort,
                Some(port) => PidFileRead::Record { pid: pid as u32, port: port as u16 },
            },
        }
    }
}

/// The contents of the PID file of process `pid` serving `port`: both in
/// decimal, each on a line of its own.
pub fn pid_file_content(pid: u32, port: u16) -> (r: String)
    ensures
        r@ == pid_file_spec(pid as nat, port as nat),
{
    proof {
        reveal_strlit("\n");
        assert("\n"@ =~= seq!['\n']);
    }
    let p = decimal_string(pid as u64);
    let q = decimal_string(port as u64);
    let a = concat3(p.as_str(), "\n", q.as_str());
    let mut r = a;
    r.append("\n");
    r
}

/// Reads a PID file.
pub fn read_pid_file(content: &str) -> (r: PidFileRead)
    ensures
        r == read_pid_file_spec(content@),
{
    let ls = lines(content);
    if ls.len() < 2 {
        return PidFileRead::TooShort;
    }
    proof {
        assert(views(ls@)[0] == ls@[0]@);
        assert(views(ls@)[1] == ls@[1]@);
    }
    match parse_unsigned(ls[0].as_str(), 4294967295) {
        None => PidFileRead::InvalidPid,
        Some(pid) => match parse_unsigned(ls[1].as_str(), 65535) {
            None => PidFileRead::InvalidPort,
            Some(port) => PidFileRead::Record { pid: pid as u32, port: port as u16 },
        },
    }
}

/// What the PID file tells of a server on a port, once it has been read and,
/// for a record, its process looked up.
#[derive(Debug, Clone, Copy, PartialEq, Eq, Structural)]
pub enum InstanceCheck {
    /// The file is stale (too short, or its process is gone): it is removed,
    /// and no server holds the port.
    Stale,
    /// A server runs, on another port.
    OtherPort,
    /// A server runs on the port: process `pid`.
    SamePort { pid: u32 },
    /// The first line is not a process id.
    InvalidPid,
    /// The second line is not a port.
    InvalidPort,
}

/// What the PID file `read` tells of a server on `port`, where `running`
/// says whether the process that it records is still alive.
pub open spec fn instance_check_spec(read: PidFileRead, running: bool, port: u16) -> InstanceCheck {
    match read {
        PidFileRead::TooShort => InstanceCheck::Stale,
        PidFileRead::InvalidPid => InstanceCheck::InvalidPid,
        PidFileRead::InvalidPort => InstanceCheck::InvalidPort,
        PidFileRead::Record { pid, port: p } => if !running {
            InstanceCheck::Stale
        } else if p == port {
            InstanceCheck::SamePort { pid }
        } else {
            InstanceCheck::OtherPort
        },
    }
}

/// What the PID file `read` tells of a server on `port`, where `running`
/// says whether the process that it records is still alive.
pub fn check_instance(read: PidFileRead, running: bool, port: u16) -> (r: InstanceCheck)
    ensures
        r == instance_check_spec(read, running, port),
{
    match read {
        PidFileRead::TooShort => InstanceCheck::Stale,
        PidFileRead::InvalidPid => InstanceCheck::InvalidPid,
        PidFileRead::InvalidPort => InstanceCheck::InvalidPort,
        PidFileRead::Record { pid, port: p } => {
            if !running {
                InstanceCheck::Stale
            } else if p == port {
                InstanceCheck::SamePort { pid }
            } else {
                InstanceCheck::OtherPort
            }
        },
    }
}

/// The PID file of the server.
pub fn pid_file_name() -> (r: String)
    ensures
        r@ == "server.pid"@,
{
    "server.pid".to_owned()
}

/// The lock file of the server on `port`.
pub fn lock_file_name(port: u16) -> (r: String)
    ensures
        r@ == "server-"@ + decimal(port as nat) + ".lock"@,
{
    let n = decimal_string(port as u64);
    concat3("server-", n.as_str(), ".lock")
}

/// Whether `s` holds no line break characters.
pub open spec fn no_line_breaks(s: Seq<char>) -> bool {
    forall|i: int| 0 <= i < s.len() ==> s[i] != '\n' && s[i] != '\r'
}

proof fn lemma_decimal_no_newline(n: nat)
    ensures
        no_line_breaks(decimal(n)),
{
    crate::number::lemma_decimal_digits_pub(n);
    assert forall|i: int| 0 <= i < decimal(n).len() implies decimal(n)[i] != '\n' && decimal(n)[i]
        != '\r' by {
        assert(crate::number::is_digit(decimal(n)[i]));
    }
}

/// A PID file written for a process and a port reads back as that process
/// and port.
pub proof fn lemma_pid_file_roundtrip(pid: u32, port: u16)
    ensures
        read_pid_file_spec(pid_file_spec(pid as nat, port as nat)) == (PidFileRead::Record { pid, port }),
{
    let d1 = decimal(pid as nat);
    let d2 = decimal(port as nat);
    let nl = '\n';
    lemma_decimal_no_newline(pid as nat);
    lemma_decimal_no_newline(port as nat);
    let c = pid_file_spec(pid as nat, port as nat);
    assert(c =~= d1.push(nl) + d2.push(nl));
    crate::text::lemma_split_concat(d1, d2.push(nl), nl);
    assert(d2.push(nl) =~= d2.push(nl) + Seq::<char>::empty());
    crate::text::lemma_split_concat(d2, Seq::<char>::empty(), nl);
    crate::text::lemma_split_no_sep(d1, nl);
    crate::text::lemma_split_no_sep(d2, nl);
    crate::text::lemma_split_no_sep(Seq::<char>::empty(), nl);
    let parts = crate::text::split_spec(c, nl);
    assert(parts =~= seq![d1, d2, Seq::<char>::empty()]);
    crate::number::lemma_decimal_digits_pub(pid as nat);
    crate::number::lemma_decimal_digits_pub(port as nat);
    assert(crate::text::strip_cr(d1) == d1);
    assert(crate::text::strip_cr(d2) == d2);
    assert(lines_spec(c) =~= seq![d1, d2]);
    crate::number::lemma_parse_decimal_roundtrip(pid as nat, u32::MAX as nat);
    crate::number::lemma_parse_decimal_roundtrip(port as nat, u16::MAX as nat);
}

/// The PID file that a server with process `pid` wrote for port `p`, while
/// that process runs, tells a server on port `q` that its port is taken
/// exactly when `q` is `p`; it is never taken for stale.
pub proof fn lemma_written_pid_file_check(pid: u32, p: u16, q: u16)
    ensures
        instance_check_spec(read_pid_file_spec(pid_file_spec(pid as nat, p as nat)), true, q) == (if p
            == q {
            InstanceCheck::SamePort { pid }
        } else {
            InstanceCheck::OtherPort
        }),
{
    lemma_pid_file_roundtrip(pid, p);
}

} // verus!
