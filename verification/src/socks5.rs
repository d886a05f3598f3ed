//! The SOCKS5 handshake of the small proxy: checking the greeting, the fixed
//! answers, reading the requested address and port, and the reply that echoes them.
use vstd::prelude::*;
use vstd::string::StringExecFns;
use crate::text::{decimal, push_decimal};

verus! {

/// The protocol version byte.
pub const VERSION: u8 = 0x05;
/// The "no authentication" method.
pub const NOAUTH: u8 = 0x00;
/// The CONNECT command.
pub const CONNECT: u8 = 0x01;
/// The IPv4 address type.
pub const IP: u8 = 0x01;
/// The "succeeded" reply code.
pub const OK: u8 = 0x00;
/// The length of an IPv4 address.
pub const IPSIZE: usize = 4;
/// The size of the relay buffer.
pub const BUFSIZE: usize = 65536;

/// What a handshake fails with.
#[derive(Debug, PartialEq, Eq, Structural)]
pub enum Socks5Error {
    /// The greeting announced another protocol version.
    InvalidVersion,
}

/// Checks the two-byte greeting: its first byte must be the protocol version.
pub fn check_invitation(init: [u8; 2]) -> (res: Result<(), Socks5Error>)
    ensures
        res is Ok <==> init[0] == VERSION,
        res matches Err(e) ==> e == Socks5Error::InvalidVersion,
{
    if init[0] != VERSION {
        Err(Socks5Error::InvalidVersion)
    } else {
        Ok(())
    }
}

/// The answer to the greeting: version, and no authentication.
pub fn auth_answer() -> (answer: [u8; 2])
    ensures
        answer@ == seq![VERSION, NOAUTH],
{
    let answer = [VERSION, NOAUTH];
    assert(answer@ =~= seq![VERSION, NOAUTH]);
    answer
}

/// The command of a four-byte request header: its last byte.
pub fn command_of(command: [u8; 4]) -> (cmd: u8)
    ensures
        cmd == command[3],
{
    command[3]
}

/// Whether a command asks for a connection to be made.
pub fn is_connect(cmd: u8) -> (connect: bool)
    ensures
        connect == (cmd == CONNECT),
{
    cmd == CONNECT
}

/// The port that two bytes denote, most significant first.
pub open spec fn be_port(hi: u8, lo: u8) -> int {
    hi as int * 256 + lo as int
}

/// Reads a port from two bytes, most significant first.
pub fn read_port(port: [u8; 2]) -> (p: u16)
    ensures
        p as int == be_port(port[0], port[1]),
{
    let hi = port[0] as u16;
    let lo = port[1] as u16;
    hi * 256 + lo
}

/// The reply to a CONNECT request: version, success, a reserved zero, the IPv4 type,
/// the address and the port (most significant byte first).
pub open spec fn response_bytes(ip: Seq<u8>, port: u16) -> Seq<u8> {
    seq![VERSION, OK, 0u8, IP, ip[0], ip[1], ip[2], ip[3], (port / 256) as u8, (port % 256) as u8]
}

/// Builds the reply to a CONNECT request for `ip` and `port`.
pub fn ip_response(ip: [u8; 4], port: u16) -> (response: [u8; 10])
    ensures
        response@ == response_bytes(ip@, port),
{
    let hi = (port >> 8) as u8;
    let lo = (port & 0xFF) as u8;
    assert(hi == (port / 256) as u8 && lo == (port % 256) as u8) by (bit_vector)
        requires
            hi == (port >> 8) as u8,
            lo == (port & 0xFF) as u8;
    let response = [VERSION, OK, 0, IP, ip[0], ip[1], ip[2], ip[3], hi, lo];
    assert(response@ =~= response_bytes(ip@, port));
    response
}

/// The port in a reply reads back as the port it was built for, and the address is
/// echoed as given.
pub proof fn lemma_response_echoes_request(ip: Seq<u8>, port: u16)
    requires
        ip.len() == 4,
    ensures
        be_port(response_bytes(ip, port)[8], response_bytes(ip, port)[9]) == port as int,
        response_bytes(ip, port).subrange(4, 8) == ip,
{
    let r = response_bytes(ip, port);
    assert(r.subrange(4, 8) =~= ip);
    assert(((port / 256) as u8) as int * 256 + ((port % 256) as u8) as int == port as int) by (nonlinear_arith);
}

/// Every CONNECT reply is ten bytes and begins with version 5, reply code 0
/// (succeeded), a reserved zero and address type 1 (IPv4), whatever the address and
/// port.
pub proof fn lemma_reply_header(ip: Seq<u8>, port: u16)
    requires
        ip.len() == 4,
    ensures
        response_bytes(ip, port).len() == 10,
        response_bytes(ip, port).take(4) == seq![5u8, 0u8, 0u8, 1u8],
{
    assert(response_bytes(ip, port).take(4) =~= seq![5u8, 0u8, 0u8, 1u8]);
}

/// The dotted text of an IPv4 address.
pub open spec fn ipv4_text(ip: Seq<u8>) -> Seq<char> {
    decimal(ip[0] as nat) + seq!['.'] + decimal(ip[1] as nat) + seq!['.']
        + decimal(ip[2] as nat) + seq!['.'] + decimal(ip[3] as nat)
}

/// Writes an IPv4 address in dotted decimal.
pub fn ipv4_address(ip: [u8; 4]) -> (text: String)
    ensures
        text@ == ipv4_text(ip@),
{
    proof { reveal_strlit("."); }
    let mut text = String::new();
    push_decimal(&mut text, ip[0] as u64);
    text.append(".");
    push_decimal(&mut text, ip[1] as u64);
    text.append(".");
    push_decimal(&mut text, ip[2] as u64);
    text.append(".");
    push_decimal(&mut text, ip[3] as u64);
    assert(text@ =~= ipv4_text(ip@));
    text
}

/// Where filling a buffer of `len` bytes stands after one read.
#[derive(Debug, PartialEq, Eq, Structural)]
pub enum FillStep {
    /// Filling is over: this many bytes were read in all.
    Finished(usize),
    /// Keep reading; this many bytes are in so far.
    Continue(usize),
}

/// Decides the next step of filling a buffer of `len` bytes of which `filled` are
/// in, after a read that returned `nread` bytes: a read of nothing ends the filling
/// early, a full buffer ends it, anything else asks for more.
pub fn fill_step(filled: usize, len: usize, nread: usize) -> (step: FillStep)
    requires
        filled < len,
        nread <= len - filled,
    ensures
        nread == 0 ==> step == FillStep::Finished(filled),
        nread > 0 && filled + nread == len ==> step == FillStep::Finished(len),
        nread > 0 && filled + nread < len ==> step == FillStep::Continue((filled + nread) as usize),
{
    if nread == 0 {
        FillStep::Finished(filled)
    } else if filled + nread == len {
        FillStep::Finished(len)
    } else {
        FillStep::Continue(filled + nread)
    }
}

/// The number of bytes to pass on after a read from the client: the count when the
/// read brought something, else `None` to stop piping.
pub fn pipe_chunk(read: Option<usize>) -> (chunk: Option<usize>)
    ensures
        chunk == (match read {
            Some(n) => if n > 0 { Some(n) } else { None },
            None => None,
        }),
{
    match read {
        Some(n) => if n > 0 { Some(n) } else { None },
        None => None,
    }
}

} // verus!
