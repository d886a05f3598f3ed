//! Decisions around the raw sockets that carry messages between the database and
//! the WebSocket relay: how a `send`/`recv` return value is read, what a relay step
//! forwards, and the texts that announce descriptors.
use vstd::prelude::*;
use vstd::string::StringExecFns;
use vstd::utf8::{decode_utf8, valid_utf8};
use crate::text::{decimal, push_decimal, push_signed_decimal, signed_decimal, utf8_string, decimal_value, signed_value, lemma_signed_decimal_roundtrip};
use vstd::utf8::encode_utf8;

verus! {

/// How a `send` or `recv` call on a socket ended.
#[derive(Debug, PartialEq, Eq, Structural)]
pub enum IoOutcome {
    /// This many bytes were moved.
    Done(usize),
    /// The call failed; the reason is in the OS error number.
    OsError,
    /// `recv` met the end of the stream before any byte.
    UnexpectedEof,
    /// `send` moved no byte of a non-empty buffer.
    WriteZero,
}

/// Reads the return value `r` of `recv` on a buffer of `buf_len` bytes: -1 is an OS
/// error, 0 is the end of the stream unless the buffer was empty, anything else is a
/// byte count.
pub fn recv_outcome(r: isize, buf_len: usize) -> (res: IoOutcome)
    ensures
        r == -1 ==> res == IoOutcome::OsError,
        r == 0 && buf_len == 0 ==> res == IoOutcome::Done(0),
        r == 0 && buf_len != 0 ==> res == IoOutcome::UnexpectedEof,
        r != -1 && r != 0 ==> res == IoOutcome::Done(r as usize),
{
    if r == -1 {
        IoOutcome::OsError
    } else if r == 0 {
        if buf_len == 0 {
            IoOutcome::Done(0)
        } else {
            IoOutcome::UnexpectedEof
        }
    } else {
        IoOutcome::Done(r as usize)
    }
}

/// Reads the return value `r` of `send` on a buffer of `buf_len` bytes: -1 is an OS
/// error, 0 is a failed write unless the buffer was empty, anything else is a byte
/// count.
pub fn send_outcome(r: isize, buf_len: usize) -> (res: IoOutcome)
    ensures
        r == -1 ==> res == IoOutcome::OsError,
        r == 0 && buf_len == 0 ==> res == IoOutcome::Done(0),
        r == 0 && buf_len != 0 ==> res == IoOutcome::WriteZero,
        r != -1 && r != 0 ==> res == IoOutcome::Done(r as usize),
{
    if r == -1 {
        IoOutcome::OsError
    } else if r == 0 {
        if buf_len == 0 {
            IoOutcome::Done(0)
        } else {
            IoOutcome::WriteZero
        }
    } else {
        IoOutcome::Done(r as usize)
    }
}

/// The size of the buffer that each relay step receives into.
pub const RELAY_CHUNK: usize = 1024;

/// What the relay does after one `recv`.
#[derive(Debug, PartialEq, Eq)]
pub enum RelayStep {
    /// The socket is closed or failed: stop relaying.
    Stop,
    /// Send this text as a WebSocket text message.
    Forward(String),
}

/// The text a relay step forwards from the received bytes: their UTF-8 text, or the
/// empty text when they are not UTF-8.
pub open spec fn relayed_text(bytes: Seq<u8>) -> Seq<char> {
    if valid_utf8(bytes) { decode_utf8(bytes) } else { Seq::empty() }
}

/// The relayed text is exactly the received bytes: encoded back as UTF-8 it gives
/// them all, none dropped or added; bytes that are no UTF-8 are relayed as the empty
/// text.
pub proof fn lemma_relayed_text_is_exact(bytes: Seq<u8>)
    ensures
        valid_utf8(bytes) ==> encode_utf8(relayed_text(bytes)) == bytes,
        !valid_utf8(bytes) ==> relayed_text(bytes).len() == 0,
{
    if valid_utf8(bytes) {
        vstd::utf8::decode_utf8_encode_utf8(bytes);
    }
}

/// Decides one relay step from the outcome of a `recv` into `buf`: stop on an error
/// or when nothing came, else forward the first `n` received bytes as text.
pub fn relay_step(outcome: IoOutcome, buf: Vec<u8>) -> (step: RelayStep)
    ensures
        (match outcome {
            IoOutcome::Done(n) => if n == 0 {
                step is Stop
            } else {
                step matches RelayStep::Forward(t) && t@ == relayed_text(
                    buf@.take(if n < buf@.len() { n as int } else { buf@.len() as int }))
            },
            _ => step is Stop,
        }),
        (match (outcome, step) {
            (IoOutcome::Done(n), RelayStep::Forward(t)) => {
                let received = buf@.take(if n < buf@.len() { n as int } else { buf@.len() as int });
                &&& valid_utf8(received) ==> encode_utf8(t@) == received
                &&& !valid_utf8(received) ==> t@.len() == 0
            },
            _ => true,
        }),
{
    match outcome {
        IoOutcome::Done(n) => {
            if n == 0 {
                RelayStep::Stop
            } else {
                let mut received = buf;
                let ghost before = received@;
                received.truncate(n);
                proof {
                    assert(received@ =~= before.take(if n < before.len() { n as int } else { before.len() as int }));
                }
                proof { lemma_relayed_text_is_exact(received@); }
                match utf8_string(received.as_slice()) {
                    Some(t) => RelayStep::Forward(t),
                    None => RelayStep::Forward(String::new()),
                }
            }
        },
        _ => RelayStep::Stop,
    }
}

/// Whether a WebSocket message's data is passed on to the socket: only when it is
/// UTF-8 text.
pub fn forwards_message(data: &[u8]) -> (forward: bool)
    ensures
        forward == valid_utf8(data@),
{
    utf8_string(data).is_some()
}

/// The announcement of descriptor `fd` for call `id`: the id, a comma, and the
/// descriptor in decimal.
pub open spec fn announcement(id: Seq<char>, fd: nat) -> Seq<char> {
    id + seq![','] + decimal(fd)
}

/// The announcements of descriptors 3 up to (not including) `max_fd`, in order.
pub fn fd_announcements(id: &str, max_fd: i32) -> (res: Vec<String>)
    ensures
        res@.len() == (if max_fd > 3 { max_fd - 3 } else { 0 }),
        forall|k: int| 0 <= k < res@.len() ==> #[trigger] res@[k]@ == announcement(id@, (3 + k) as nat),
{
    let mut res: Vec<String> = Vec::new();
    let mut fd: i32 = 3;
    while fd < max_fd
        invariant
            3 <= fd,
            fd <= max_fd || max_fd <= 3,
            max_fd <= 3 ==> fd == 3,
            res@.len() == fd - 3,
            forall|k: int| 0 <= k < res@.len() ==> #[trigger] res@[k]@ == announcement(id@, (3 + k) as nat),
        decreases max_fd - fd,
    {
        let mut info = String::from_str(id);
        proof { reveal_strlit(","); }
        info.append(",");
        push_decimal(&mut info, fd as u64);
        res.push(info);
        fd = fd + 1;
    }
    res
}

/// Splitting an announcement after the id gives back the id and the descriptor.
pub proof fn lemma_announcement_reads_back(id: Seq<char>, fd: nat)
    ensures
        announcement(id, fd).take(id.len() as int) == id,
        announcement(id, fd)[id.len() as int] == ',',
        decimal_value(announcement(id, fd).skip(id.len() as int + 1)) == Some(fd),
{
    crate::text::lemma_decimal_roundtrip(fd);
    let a = announcement(id, fd);
    assert(a.take(id.len() as int) =~= id);
    assert(a.skip(id.len() as int + 1) =~= decimal(fd));
}

/// The reply to setting up the WebSocket relay on two descriptors.
pub open spec fn ws_setup_text(java2db_fd: i64, db2java_fd: i64) -> Seq<char> {
    "setup ws fd info="@ + signed_decimal(java2db_fd as int) + seq![','] + signed_decimal(db2java_fd as int)
}

/// The setup reply is the fixed prefix, then the java2db descriptor, a comma, then
/// the db2java descriptor: splitting at the only comma after the prefix reads back
/// both descriptors in argument order.
pub proof fn lemma_ws_setup_reads_back(java2db_fd: i64, db2java_fd: i64)
    ensures
        ({
            let t = ws_setup_text(java2db_fd, db2java_fd);
            let p = "setup ws fd info="@;
            let k = (p.len() + signed_decimal(java2db_fd as int).len()) as int;
            &&& t.take(p.len() as int) == p
            &&& p.len() < k < t.len()
            &&& t[k] == ','
            &&& signed_value(t.subrange(p.len() as int, k)) == Some(java2db_fd as int)
            &&& signed_value(t.skip(k + 1)) == Some(db2java_fd as int)
            &&& forall|i: int| p.len() <= i < t.len() && i != k ==> #[trigger] t[i] != ','
        }),
{
    lemma_signed_decimal_roundtrip(java2db_fd as int);
    lemma_signed_decimal_roundtrip(db2java_fd as int);
    let t = ws_setup_text(java2db_fd, db2java_fd);
    let p = "setup ws fd info="@;
    let a = signed_decimal(java2db_fd as int);
    let b = signed_decimal(db2java_fd as int);
    let k = (p.len() + a.len()) as int;
    assert(t.take(p.len() as int) =~= p);
    assert(t.subrange(p.len() as int, k) =~= a);
    assert(t.skip(k + 1) =~= b);
    assert forall|i: int| p.len() <= i < t.len() && i != k implies #[trigger] t[i] != ',' by {
        if i < k {
            assert(t[i] == a[i - p.len()]);
        } else {
            assert(t[i] == b[i - k - 1]);
        }
    }
}

/// The reply to setting up the WebSocket relay: both descriptors in decimal.
pub fn ws_setup_info(java2db_fd: i64, db2java_fd: i64) -> (info: String)
    ensures
        info@ == ws_setup_text(java2db_fd, db2java_fd),
{
    let mut info = String::from_str("setup ws fd info=");
    push_signed_decimal(&mut info, java2db_fd);
    proof { reveal_strlit(","); }
    info.append(",");
    push_signed_decimal(&mut info, db2java_fd);
    info
}

/// The text of the `i`-th greeting that the WebSocket echo demo sends.
pub fn greeting(i: u64) -> (text: String)
    ensures
        text@ == "Hello, World! #"@ + decimal(i as nat),
{
    let mut text = String::from_str("Hello, World! #");
    push_decimal(&mut text, i);
    text
}

} // verus!
