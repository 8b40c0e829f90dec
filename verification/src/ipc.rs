//! Local transports between processes: frames, and what a transport does next.

use vstd::prelude::*;
use vstd::slice::slice_subrange;

use crate::message::copy_bytes;
use crate::numbers::{decimal, decimal_text};
use crate::text::{join2, join3};
use crate::wire::{be_bytes, be_value, byte_power, law_be_bytes_read_back, push_be, read_be};

verus! {

/// The largest frame that is read.
pub const MAX_FRAME_BYTES: usize = 104_857_600;

/// A frame on the wire: the length of the data in four bytes, most significant
/// first, and the data.
pub open spec fn frame(data: Seq<u8>) -> Seq<u8> {
    be_bytes(data.len(), 4) + data
}

/// Puts data into a frame.
pub fn encode_frame(data: &[u8]) -> (out: Vec<u8>)
    ensures
        out@ == frame(data@),
{
    let mut out: Vec<u8> = Vec::new();
    push_be(&mut out, data.len() as u128, 4);
    let mut copy = copy_bytes(data);
    out.append(&mut copy);
    assert(out@ =~= frame(data@));
    out
}

/// Why a frame is not read.
pub open spec fn too_large(len: nat) -> Seq<char> {
    "Frame too large: "@ + decimal(len) + " bytes"@
}

/// The length of the data of a frame, from the four bytes in front of it.
pub fn frame_length(header: &[u8]) -> (res: Result<usize, String>)
    requires
        header@.len() == 4,
    ensures
        match res {
            Ok(n) => n as nat == be_value(header@) && n <= MAX_FRAME_BYTES,
            Err(e) => be_value(header@) > MAX_FRAME_BYTES && e@ == too_large(be_value(header@)),
        },
{
    let n: u128 = read_be(header);
    if n > MAX_FRAME_BYTES as u128 {
        let number = decimal_text(n);
        return Err(join3("Frame too large: ", number.as_str(), " bytes"));
    }
    Ok(n as usize)
}

/// What the bytes that came so far hold.
#[derive(Debug)]
pub enum FrameRead {
    /// So many bytes more are needed.
    More(usize),
    /// A whole frame, and how many bytes it took.
    Frame { data: Vec<u8>, used: usize },
    Refused(String),
}

/// Reads the first frame of the bytes that came so far.
pub fn decode_frame(buffer: &[u8]) -> (res: FrameRead)
    ensures
        if buffer@.len() < 4 {
            res matches FrameRead::More(n) && n == 4 - buffer@.len()
        } else {
            let len = be_value(buffer@.take(4));
            if len > MAX_FRAME_BYTES {
                res matches FrameRead::Refused(e) && e@ == too_large(len)
            } else if buffer@.len() < 4 + len {
                res matches FrameRead::More(n) && n == 4 + len - buffer@.len()
            } else {
                res matches FrameRead::Frame { data, used } && used == 4 + len && data@
                    == buffer@.subrange(4, 4 + len as int)
            }
        },
{
    if buffer.len() < 4 {
        return FrameRead::More(4 - buffer.len());
    }
    let header = slice_subrange(buffer, 0, 4);
    assert(header@ =~= buffer@.take(4));
    match frame_length(header) {
        Err(e) => FrameRead::Refused(e),
        Ok(n) => {
            if buffer.len() - 4 < n {
                return FrameRead::More(n - (buffer.len() - 4));
            }
            let data = copy_bytes(slice_subrange(buffer, 4, 4 + n));
            FrameRead::Frame { data, used: 4 + n }
        },
    }
}

/// Data of up to the largest size reads back from its frame, whatever follows the
/// frame.
pub proof fn law_frame_reads_back(data: Seq<u8>, rest: Seq<u8>)
    requires
        data.len() <= MAX_FRAME_BYTES,
    ensures
        frame(data).len() == 4 + data.len(),
        be_value((frame(data) + rest).take(4)) == data.len(),
        (frame(data) + rest).subrange(4, 4 + data.len() as int) == data,
        (frame(data) + rest).skip(4 + data.len() as int) == rest,
{
    law_be_bytes_read_back(data.len(), 4);
    assert(byte_power(4) == 0x1_0000_0000) by {
        reveal_with_fuel(byte_power, 5);
    }
    let head = be_bytes(data.len(), 4);
    assert((frame(data) + rest).take(4) =~= head);
    assert((frame(data) + rest).subrange(4, 4 + data.len() as int) =~= data);
    assert((frame(data) + rest).skip(4 + data.len() as int) =~= rest);
}

/// How reading or writing a local connection failed.
#[derive(Debug, Clone, Copy, PartialEq, Eq, Structural)]
pub enum IoKind {
    UnexpectedEof,
    BrokenPipe,
    ConnectionReset,
    ConnectionAborted,
    NotConnected,
    /// Any other failure.
    Other,
}

/// Whether a failure means that the peer went away.
pub fn is_disconnected(kind: IoKind) -> (res: bool)
    ensures
        res == (kind != IoKind::Other),
{
    match kind {
        IoKind::Other => false,
        _ => true,
    }
}

/// What receiving does next.
#[derive(Debug)]
pub enum RecvStep {
    /// Wait for a peer to connect.
    Accept,
    /// Read a frame from the peer.
    Read,
    Fail(String),
}

/// What reading a frame came to.
#[derive(Debug)]
pub enum ReadEvent {
    Data(Vec<u8>),
    Failed { kind: IoKind, message: String },
}

/// What comes of a read.
#[derive(Debug)]
pub enum ReadNext {
    /// A batch, in its encoded form.
    Deliver(Vec<u8>),
    /// Look for what to do next.
    Again,
    Fail(String),
}

/// A transport over a Unix domain socket.
#[derive(Debug)]
pub struct UnixIpcTransport {
    pub socket_path: String,
    pub capacity: usize,
    /// Whether it listens for peers.
    pub listening: bool,
    /// Whether it has a peer.
    pub connected: bool,
    pub closed: bool,
}

impl UnixIpcTransport {
    /// The consuming side, before its first peer.
    pub fn new_server(socket_path: &str, capacity: usize) -> (t: Self)
        ensures
            t.socket_path@ == socket_path@,
            t.capacity == capacity,
            t.listening,
            !t.connected,
            !t.closed,
    {
        UnixIpcTransport {
            socket_path: socket_path.to_owned(),
            capacity,
            listening: true,
            connected: false,
            closed: false,
        }
    }

    /// The publishing side, connected to its peer.
    pub fn new_client(socket_path: &str, capacity: usize) -> (t: Self)
        ensures
            t.socket_path@ == socket_path@,
            t.capacity == capacity,
            !t.listening,
            t.connected,
            !t.closed,
    {
        UnixIpcTransport {
            socket_path: socket_path.to_owned(),
            capacity,
            listening: false,
            connected: true,
            closed: false,
        }
    }

    /// Whether a batch can be sent now.
    pub fn check_send(&self) -> (res: Result<(), String>)
        ensures
            match res {
                Ok(_) => !self.closed && self.connected,
                Err(e) => if self.closed {
                    e@ == "Unix IPC transport is closed"@
                } else {
                    !self.connected && e@ == "Unix IPC transport not in client mode"@
                },
            },
    {
        if self.closed {
            return Err("Unix IPC transport is closed".to_owned());
        }
        if !self.connected {
            return Err("Unix IPC transport not in client mode".to_owned());
        }
        Ok(())
    }

    /// The frame for an encoded batch, where it can be sent now.
    pub fn send_batch(&self, data: &[u8]) -> (res: Result<Vec<u8>, String>)
        ensures
            match res {
                Ok(out) => !self.closed && self.connected && out@ == frame(data@),
                Err(e) => if self.closed {
                    e@ == "Unix IPC transport is closed"@
                } else {
                    !self.connected && e@ == "Unix IPC transport not in client mode"@
                },
            },
    {
        self.check_send()?;
        Ok(encode_frame(data))
    }

    /// What receiving does next.
    pub fn recv_step(&self) -> (step: RecvStep)
        ensures
            if self.closed {
                step matches RecvStep::Fail(e) && e@ == "Unix IPC transport is closed"@
            } else if self.connected {
                step is Read
            } else if self.listening {
                step is Accept
            } else {
                step matches RecvStep::Fail(e) && e@ == "Unix IPC transport not in server mode"@
            },
    {
        if self.closed {
            RecvStep::Fail("Unix IPC transport is closed".to_owned())
        } else if self.connected {
            RecvStep::Read
        } else if self.listening {
            RecvStep::Accept
        } else {
            RecvStep::Fail("Unix IPC transport not in server mode".to_owned())
        }
    }

    /// A peer connected.
    pub fn on_accept(&mut self)
        ensures
            final(self).connected,
            final(self).socket_path == old(self).socket_path,
            final(self).capacity == old(self).capacity,
            final(self).listening == old(self).listening,
            final(self).closed == old(self).closed,
    {
        self.connected = true;
    }

    /// Takes what a read came to. A peer that went away is replaced by the next one.
    pub fn on_read(&mut self, event: ReadEvent) -> (next: ReadNext)
        ensures
            final(self).socket_path == old(self).socket_path,
            final(self).capacity == old(self).capacity,
            final(self).listening == old(self).listening,
            final(self).closed == old(self).closed,
            match event {
                ReadEvent::Data(d) => next == ReadNext::Deliver(d) && final(self).connected
                    == old(self).connected,
                ReadEvent::Failed { kind, message } => if kind != IoKind::Other {
                    next is Again && !final(self).connected
                } else {
                    next == ReadNext::Fail(message) && final(self).connected
                        == old(self).connected
                },
            },
    {
        match event {
            ReadEvent::Data(d) => ReadNext::Deliver(d),
            ReadEvent::Failed { kind, message } => {
                if is_disconnected(kind) {
                    self.connected = false;
                    ReadNext::Again
                } else {
                    ReadNext::Fail(message)
                }
            },
        }
    }

    /// What can be received without waiting: nothing is ever known to be ready.
    pub fn try_recv_batch(&self) -> (res: Option<Vec<u8>>)
        ensures
            res is None,
    {
        None
    }

    /// How many messages are queued. Nothing is buffered.
    pub fn len(&self) -> (n: usize)
        ensures
            n == 0,
    {
        0
    }

    /// The capacity that was asked for.
    pub fn capacity(&self) -> (n: Option<usize>)
        ensures
            n == Some(self.capacity),
    {
        Some(self.capacity)
    }

    /// Whether the transport was closed.
    pub fn is_closed(&self) -> (res: bool)
        ensures
            res == self.closed,
    {
        self.closed
    }

    /// Closes the transport.
    pub fn close(&mut self)
        ensures
            final(self).closed,
            final(self).socket_path == old(self).socket_path,
            final(self).capacity == old(self).capacity,
            final(self).listening == old(self).listening,
            final(self).connected == old(self).connected,
    {
        self.closed = true;
    }

    /// The socket file that goes away with the transport: only that of the side that
    /// listens.
    pub fn file_to_remove(&self) -> (path: Option<&str>)
        ensures
            match path {
                Some(p) => self.listening && p@ == self.socket_path@,
                None => !self.listening,
            },
    {
        if self.listening {
            Some(self.socket_path.as_str())
        } else {
            None
        }
    }
}

/// A transport over a Windows named pipe.
#[derive(Debug)]
pub struct WindowsIpcTransport {
    pub pipe_name: String,
    pub capacity: usize,
    /// Whether it is the consuming side.
    pub serving: bool,
    /// Whether it has a peer.
    pub connected: bool,
    pub closed: bool,
}

/// The path of a named pipe.
pub open spec fn pipe_path(name: Seq<char>) -> Seq<char> {
    "\\\\.\\pipe\\"@ + name
}

impl WindowsIpcTransport {
    /// The consuming side, before its peer.
    pub fn new_server(pipe_name: &str, capacity: usize) -> (t: Self)
        ensures
            t.pipe_name@ == pipe_path(pipe_name@),
            t.capacity == capacity,
            t.serving,
            !t.connected,
            !t.closed,
    {
        WindowsIpcTransport {
            pipe_name: join2("\\\\.\\pipe\\", pipe_name),
            capacity,
            serving: true,
            connected: false,
            closed: false,
        }
    }

    /// The publishing side, connected to its peer.
    pub fn new_client(pipe_name: &str, capacity: usize) -> (t: Self)
        ensures
            t.pipe_name@ == pipe_path(pipe_name@),
            t.capacity == capacity,
            !t.serving,
            t.connected,
            !t.closed,
    {
        WindowsIpcTransport {
            pipe_name: join2("\\\\.\\pipe\\", pipe_name),
            capacity,
            serving: false,
            connected: true,
            closed: false,
        }
    }

    /// The frame for an encoded batch. Only the publishing side sends.
    pub fn send_batch(&self, data: &[u8]) -> (res: Result<Vec<u8>, String>)
        ensures
            match res {
                Ok(out) => !self.closed && !self.serving && out@ == frame(data@),
                Err(e) => if self.closed {
                    e@ == "Windows Named Pipe transport is closed"@
                } else {
                    self.serving && e@ == "Windows Named Pipe transport not in client mode"@
                },
            },
    {
        if self.closed {
            return Err("Windows Named Pipe transport is closed".to_owned());
        }
        if self.serving {
            return Err("Windows Named Pipe transport not in client mode".to_owned());
        }
        Ok(encode_frame(data))
    }

    /// What receiving does next. Only the consuming side receives, once it has a
    /// peer.
    pub fn recv_step(&self) -> (step: RecvStep)
        ensures
            if self.closed {
                step matches RecvStep::Fail(e) && e@ == "Windows Named Pipe transport is closed"@
            } else if !self.serving {
                step matches RecvStep::Fail(e) && e@
                    == "Windows Named Pipe transport not in server mode"@
            } else if self.connected {
                step is Read
            } else {
                step is Accept
            },
    {
        if self.closed {
            RecvStep::Fail("Windows Named Pipe transport is closed".to_owned())
        } else if !self.serving {
            RecvStep::Fail("Windows Named Pipe transport not in server mode".to_owned())
        } else if self.connected {
            RecvStep::Read
        } else {
            RecvStep::Accept
        }
    }

    /// What waiting for a peer does: nothing where there is one, and only the
    /// consuming side waits.
    pub fn wait_for_connection(&self) -> (res: Result<bool, String>)
        ensures
            match res {
                Ok(waits) => waits == !self.connected && (waits ==> self.serving),
                Err(e) => !self.connected && !self.serving && e@
                    == "Windows Named Pipe transport not in server mode"@,
            },
    {
        if self.connected {
            return Ok(false);
        }
        if !self.serving {
            return Err("Windows Named Pipe transport not in server mode".to_owned());
        }
        Ok(true)
    }

    /// A peer connected.
    pub fn on_connect(&mut self)
        ensures
            final(self).connected,
            final(self).pipe_name == old(self).pipe_name,
            final(self).capacity == old(self).capacity,
            final(self).serving == old(self).serving,
            final(self).closed == old(self).closed,
    {
        self.connected = true;
    }

    /// What can be received without waiting: nothing is ever known to be ready.
    pub fn try_recv_batch(&self) -> (res: Option<Vec<u8>>)
        ensures
            res is None,
    {
        None
    }

    /// How many messages are queued. Nothing is buffered.
    pub fn len(&self) -> (n: usize)
        ensures
            n == 0,
    {
        0
    }

    /// The capacity that was asked for.
    pub fn capacity(&self) -> (n: Option<usize>)
        ensures
            n == Some(self.capacity),
    {
        Some(self.capacity)
    }

    /// Whether the transport was closed.
    pub fn is_closed(&self) -> (res: bool)
        ensures
            res == self.closed,
    {
        self.closed
    }

    /// Closes the transport.
    pub fn close(&mut self)
        ensures
            final(self).closed,
            final(self).pipe_name == old(self).pipe_name,
            final(self).capacity == old(self).capacity,
            final(self).serving == old(self).serving,
            final(self).connected == old(self).connected,
    {
        self.closed = true;
    }
}

} // verus!
