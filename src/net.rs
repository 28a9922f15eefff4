//! The decisions of the socket primitives over the host's non-blocking network stack, and
//! the reference-counted socket handles.
//!
//! Each primitive is issued once and then polled: the caller pumps the stack, queries the
//! operation's status code, and hands the code to the functions here, which say whether
//! the operation is still running, done, or failed.
use vstd::prelude::*;
use crate::lwip_error::{code_of, error_of, LwipError};

verus! {

/// The state of a polled operation.
#[derive(Debug, PartialEq, Eq, Structural)]
pub enum PollStatus<T> {
    /// Still running: re-arm the wake handle and yield.
    Pending,
    /// Done, with its result.
    Ready(T),
    /// Failed for good.
    Failed(LwipError),
}

/// The outcome of an issue call, whose status code is zero on success.
pub fn issue_result(code: i32) -> (r: Result<(), LwipError>)
    ensures
        code == 0 ==> r is Ok,
        code != 0 ==> r == Err::<(), LwipError>(error_of(code)),
{
    if code == 0 {
        Ok(())
    } else {
        Err(LwipError::from_code(code))
    }
}

/// The outcome of a call that returns a new socket id, or a negative status code.
pub fn socket_result(code: i32) -> (r: Result<i32, LwipError>)
    ensures
        code >= 0 ==> r == Ok::<i32, LwipError>(code),
        code < 0 ==> r == Err::<i32, LwipError>(error_of(code)),
{
    if code < 0 {
        Err(LwipError::from_code(code))
    } else {
        Ok(code)
    }
}

/// A read's status: a byte count, or a status code. Zero bytes reads as "would block":
/// the stack reports no end of stream.
pub fn read_status(code: i32) -> (r: PollStatus<usize>)
    ensures
        (code == code_of(LwipError::WouldBlock) || code == 0) ==> r == PollStatus::<usize>::Pending,
        code > 0 ==> r == PollStatus::Ready(code as usize),
        (code < 0 && code != code_of(LwipError::WouldBlock)) ==> r == PollStatus::<usize>::Failed(
            error_of(code),
        ),
{
    if code == LwipError::WouldBlock.to_code() || code == 0 {
        PollStatus::Pending
    } else if code > 0 {
        PollStatus::Ready(code as usize)
    } else {
        PollStatus::Failed(LwipError::from_code(code))
    }
}

/// The status of an operation that completes with nothing: connecting, or having all
/// writes acknowledged.
pub fn completion_status(code: i32) -> (r: PollStatus<()>)
    ensures
        code == code_of(LwipError::WouldBlock) ==> r == PollStatus::<()>::Pending,
        code == 0 ==> r == PollStatus::Ready(()),
        (code != 0 && code != code_of(LwipError::WouldBlock)) ==> r == PollStatus::<()>::Failed(
            error_of(code),
        ),
{
    if code == LwipError::WouldBlock.to_code() {
        PollStatus::Pending
    } else if code == 0 {
        PollStatus::Ready(())
    } else {
        PollStatus::Failed(LwipError::from_code(code))
    }
}

/// An accept's status: the accepted socket's id, or a status code.
pub fn accept_status(code: i32) -> (r: PollStatus<i32>)
    ensures
        code == code_of(LwipError::WouldBlock) ==> r == PollStatus::<i32>::Pending,
        code >= 0 ==> r == PollStatus::Ready(code),
        (code < 0 && code != code_of(LwipError::WouldBlock)) ==> r == PollStatus::<i32>::Failed(
            error_of(code),
        ),
{
    if code == LwipError::WouldBlock.to_code() {
        PollStatus::Pending
    } else if code < 0 {
        PollStatus::Failed(LwipError::from_code(code))
    } else {
        PollStatus::Ready(code)
    }
}

/// The status of a DNS lookup: ready when the code reads `NoError`, running while it reads
/// `InProgress`.
pub fn dns_status(code: i32) -> (r: PollStatus<()>)
    ensures
        error_of(code) == LwipError::NoError ==> r == PollStatus::Ready(()),
        error_of(code) == LwipError::InProgress ==> r == PollStatus::<()>::Pending,
        (error_of(code) != LwipError::NoError && error_of(code) != LwipError::InProgress) ==> r
            == PollStatus::<()>::Failed(error_of(code)),
{
    match LwipError::from_code(code) {
        LwipError::NoError => PollStatus::Ready(()),
        LwipError::InProgress => PollStatus::Pending,
        e => PollStatus::Failed(e),
    }
}

/// The four octets of an IPv4 address in the stack's encoding: the first octet in the
/// lowest byte.
pub open spec fn octets_of(v: u32) -> Seq<u8> {
    seq![
        (v % 256) as u8,
        (v / 256 % 256) as u8,
        (v / 65536 % 256) as u8,
        (v / 16777216) as u8,
    ]
}

/// The octets of an address that a lookup returned.
pub fn ipv4_octets(v: u32) -> (r: [u8; 4])
    ensures
        r@ == octets_of(v),
{
    let r = [(v % 256) as u8, (v / 256 % 256) as u8, (v / 65536 % 256) as u8, (v / 16777216) as u8];
    assert(r@ =~= octets_of(v));
    r
}

/// An entry of the socket table: the stack's socket id and how many handles share it.
pub struct SocketInner {
    pub socket: i32,
    pub refs: usize,
}

/// The live sockets, by slot. A slot is live from `insert` until its last handle is
/// released.
pub struct SocketTable {
    entries: Vec<Option<SocketInner>>,
}

/// A slot's entry as a value: socket id and handle count.
pub open spec fn entry_view(e: Option<SocketInner>) -> Option<(i32, nat)> {
    match e {
        Some(s) => Some((s.socket, s.refs as nat)),
        None => None,
    }
}

/// Releasing one handle of a live slot: the count drops, and at zero the slot dies and
/// its socket is to be freed.
pub open spec fn release_spec(v: Seq<Option<(i32, nat)>>, slot: int) -> (Option<i32>, Seq<
    Option<(i32, nat)>,
>) {
    let (socket, refs) = v[slot]->Some_0;
    if refs <= 1 {
        (Some(socket), v.update(slot, None))
    } else {
        (None, v.update(slot, Some((socket, (refs - 1) as nat))))
    }
}

/// How many of `n` successive releases of a slot ask for its socket to be freed.
pub open spec fn frees_after(v: Seq<Option<(i32, nat)>>, slot: int, n: nat) -> nat
    decreases n,
{
    if n == 0 {
        0
    } else {
        let (f, w) = release_spec(v, slot);
        (if f is Some {
            1nat
        } else {
            0nat
        }) + if w[slot] is Some {
            frees_after(w, slot, (n - 1) as nat)
        } else {
            0nat
        }
    }
}

impl View for SocketTable {
    type V = Seq<Option<(i32, nat)>>;

    closed spec fn view(&self) -> Seq<Option<(i32, nat)>> {
        self.entries@.map_values(|e: Option<SocketInner>| entry_view(e))
    }
}

/// A live slot has at least one handle.
pub open spec fn table_wf(v: Seq<Option<(i32, nat)>>) -> bool {
    forall|i: int| 0 <= i < v.len() && (#[trigger] v[i]) is Some ==> v[i]->Some_0.1 >= 1
}

impl SocketTable {
    /// An empty table.
    pub fn new() -> (r: Self)
        ensures
            r@ == Seq::<Option<(i32, nat)>>::empty(),
    {
        let r = SocketTable { entries: Vec::new() };
        assert(r@ =~= Seq::<Option<(i32, nat)>>::empty());
        r
    }

    /// Adds socket `socket` with one handle; returns its slot.
    pub fn insert(&mut self, socket: i32) -> (slot: usize)
        requires
            table_wf(old(self)@),
        ensures
            table_wf(final(self)@),
            slot == old(self)@.len(),
            final(self)@ == old(self)@.push(Some((socket, 1nat))),
    {
        let slot = self.entries.len();
        self.entries.push(Some(SocketInner { socket, refs: 1 }));
        assert(final(self)@ =~= old(self)@.push(Some((socket, 1nat))));
        slot
    }

    /// Whether `slot` is live.
    pub fn is_live(&self, slot: usize) -> (r: bool)
        ensures
            r == (slot < self@.len() && self@[slot as int] is Some),
    {
        slot < self.entries.len() && self.entries[slot].is_some()
    }

    /// The number of handles of a live slot.
    pub fn handle_count(&self, slot: usize) -> (r: usize)
        requires
            slot < self@.len(),
            self@[slot as int] is Some,
        ensures
            r == self@[slot as int]->Some_0.1,
    {
        match &self.entries[slot] {
            Some(e) => e.refs,
            None => {
                proof {
                    assert(entry_view(self.entries@[slot as int]) is Some);
                }
                0
            },
        }
    }

    /// The socket id in a live slot.
    pub fn socket_of(&self, slot: usize) -> (r: i32)
        requires
            slot < self@.len(),
            self@[slot as int] is Some,
        ensures
            r == self@[slot as int]->Some_0.0,
    {
        match &self.entries[slot] {
            Some(e) => e.socket,
            None => {
                proof {
                    assert(entry_view(self.entries@[slot as int]) is Some);
                }
                0
            },
        }
    }

    /// Adds a handle to a live slot.
    pub fn acquire(&mut self, slot: usize)
        requires
            table_wf(old(self)@),
            slot < old(self)@.len(),
            old(self)@[slot as int] is Some,
            old(self)@[slot as int]->Some_0.1 < usize::MAX,
        ensures
            table_wf(final(self)@),
            final(self)@ == old(self)@.update(
                slot as int,
                Some((old(self)@[slot as int]->Some_0.0, old(self)@[slot as int]->Some_0.1 + 1)),
            ),
    {
        let (socket, refs) = match &self.entries[slot] {
            Some(e) => (e.socket, e.refs),
            None => {
                proof {
                    assert(entry_view(self.entries@[slot as int]) is Some);
                }
                (0, 0)
            },
        };
        assert(entry_view(self.entries@[slot as int]) == Some((socket, refs as nat)));
        self.entries.set(slot, Some(SocketInner { socket, refs: refs + 1 }));
        assert(final(self)@ =~= old(self)@.update(slot as int, Some((socket, (refs + 1) as nat))));
    }

    /// Drops a handle of a live slot. Returns the socket to free exactly when that was its
    /// last handle; the slot is then dead.
    pub fn release(&mut self, slot: usize) -> (r: Option<i32>)
        requires
            table_wf(old(self)@),
            slot < old(self)@.len(),
            old(self)@[slot as int] is Some,
        ensures
            table_wf(final(self)@),
            (r, final(self)@) == release_spec(old(self)@, slot as int),
    {
        let (socket, refs) = match &self.entries[slot] {
            Some(e) => (e.socket, e.refs),
            None => {
                proof {
                    assert(entry_view(self.entries@[slot as int]) is Some);
                }
                (0, 1)
            },
        };
        assert(entry_view(self.entries@[slot as int]) == Some((socket, refs as nat)));
        if refs <= 1 {
            self.entries.set(slot, None);
            assert(final(self)@ =~= old(self)@.update(slot as int, None));
            Some(socket)
        } else {
            self.entries.set(slot, Some(SocketInner { socket, refs: refs - 1 }));
            assert(final(self)@ =~= old(self)@.update(slot as int, Some((socket, (refs - 1) as nat))));
            None
        }
    }
}

/// Releasing every handle of a live slot, one after another, asks exactly once for its
/// socket to be freed: never zero times, never twice.
pub proof fn lemma_release_frees_once(v: Seq<Option<(i32, nat)>>, slot: int)
    requires
        table_wf(v),
        0 <= slot < v.len(),
        v[slot] is Some,
    ensures
        frees_after(v, slot, v[slot]->Some_0.1) == 1,
    decreases v[slot]->Some_0.1,
{
    let n = v[slot]->Some_0.1;
    let (f, w) = release_spec(v, slot);
    if n > 1 {
        assert(table_wf(w));
        lemma_release_frees_once(w, slot);
        assert(w[slot]->Some_0.1 == n - 1);
    }
}

/// A handle on a shared socket: a slot of the socket table.
#[derive(Debug, Clone, Copy, PartialEq, Eq, Structural)]
pub struct Socket {
    pub slot: usize,
}

/// A connected TCP stream.
#[derive(Debug, Clone, Copy, PartialEq, Eq, Structural)]
pub struct TcpStream {
    pub socket: Socket,
}

/// A listening TCP socket.
#[derive(Debug, Clone, Copy, PartialEq, Eq, Structural)]
pub struct TcpListener {
    pub socket: Socket,
}

/// A TCP socket not yet connected or listening.
#[derive(Debug, Clone, Copy, PartialEq, Eq, Structural)]
pub struct TcpSocket {
    pub socket: Socket,
}

/// A UDP socket.
#[derive(Debug, Clone, Copy, PartialEq, Eq, Structural)]
pub struct UdpSocket {
    pub socket: Socket,
}

/// The backlog that listening sockets are given.
pub const LISTEN_BACKLOG: u32 = 8;

} // verus!
