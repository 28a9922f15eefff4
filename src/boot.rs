//! Staging of boot images into host memory and the command that starts the loaded OS.
use vstd::prelude::*;
use crate::hex::{hex_digits, push_hex};
use crate::lwip_error::LwipError;
use crate::text::str_eq;
use crate::utils::{int_literal, parse_int, ParseIntError};

verus! {

/// A component of the boot image.
#[derive(Debug, Clone, Copy, PartialEq, Eq, Structural)]
pub enum PayloadType {
    Kernel,
    Devicetree,
    Ramdisk,
}

/// The environment key that holds a component's load address.
pub open spec fn env_key(t: PayloadType) -> Seq<char> {
    match t {
        PayloadType::Kernel => "kernel_addr_r"@,
        PayloadType::Devicetree => "fdt_addr_r"@,
        PayloadType::Ramdisk => "ramdisk_addr_r"@,
    }
}

impl PayloadType {
    /// The environment key of this component.
    pub fn as_str(&self) -> (r: &'static str)
        ensures
            r@ == env_key(*self),
    {
        match self {
            PayloadType::Kernel => "kernel_addr_r",
            PayloadType::Devicetree => "fdt_addr_r",
            PayloadType::Ramdisk => "ramdisk_addr_r",
        }
    }

    /// The component whose environment key is `s`.
    pub fn from_str(s: &str) -> (r: Result<PayloadType, LwipError>)
        ensures
            match r {
                Ok(t) => env_key(t) == s@,
                Err(e) => e == LwipError::IllegalArgument && forall|t: PayloadType|
                    env_key(t) != s@,
            },
    {
        if str_eq(s, "kernel_addr_r") {
            Ok(PayloadType::Kernel)
        } else if str_eq(s, "fdt_addr_r") {
            Ok(PayloadType::Devicetree)
        } else if str_eq(s, "ramdisk_addr_r") {
            Ok(PayloadType::Ramdisk)
        } else {
            assert forall|t: PayloadType| env_key(t) != s@ by {
                match t {
                    PayloadType::Kernel => {},
                    PayloadType::Devicetree => {},
                    PayloadType::Ramdisk => {},
                }
            }
            Err(LwipError::IllegalArgument)
        }
    }
}

/// Where a component goes in memory, how much of it has been written, and its declared
/// total length.
#[derive(Debug, Clone, Copy, PartialEq, Eq, Structural)]
pub struct Payload {
    pub payload_type: PayloadType,
    pub address: u64,
    pub offset: u64,
    pub length: u64,
}

/// Why staging or booting did not go ahead.
#[derive(Debug, Clone, Copy, PartialEq, Eq, Structural)]
pub enum BootError {
    /// The environment holds no load address for the component.
    AddressUnavailable,
    /// The environment's load address is not an integer literal.
    InvalidAddress(ParseIntError),
    /// The bytes would run past the component's declared length, or past the address space.
    OutOfBounds,
    NoKernel,
    NoRamdisk,
    NoDevicetree,
    /// The host could not copy the bytes to their address.
    Copy(LwipError),
}

impl BootError {
    /// The message of this error.
    pub fn to_string(&self) -> (r: String)
        ensures
            r@ == boot_error_message(*self),
    {
        let text: &str = match self {
            BootError::AddressUnavailable => "No load address set for payload",
            BootError::InvalidAddress(_) => "Invalid load address for payload",
            BootError::OutOfBounds => "Payload bytes exceed the declared length",
            BootError::NoKernel => "No kernel payload set",
            BootError::NoRamdisk => "No ramdisk payload set",
            BootError::NoDevicetree => "No devicetree payload set",
            BootError::Copy(_) => "Buffer error",
        };
        text.to_owned()
    }
}

pub open spec fn boot_error_message(e: BootError) -> Seq<char> {
    match e {
        BootError::AddressUnavailable => "No load address set for payload"@,
        BootError::InvalidAddress(_) => "Invalid load address for payload"@,
        BootError::OutOfBounds => "Payload bytes exceed the declared length"@,
        BootError::NoKernel => "No kernel payload set"@,
        BootError::NoRamdisk => "No ramdisk payload set"@,
        BootError::NoDevicetree => "No devicetree payload set"@,
        BootError::Copy(_) => "Buffer error"@,
    }
}

/// The characters of an optional text.
pub open spec fn opt_text(s: Option<&str>) -> Option<Seq<char>> {
    match s {
        Some(t) => Some(t@),
        None => None,
    }
}

/// The load address that an optional environment value gives, if it is a literal that
/// fits in 64 bits.
pub open spec fn address_of(env: Option<Seq<char>>) -> Option<u64> {
    match env {
        Some(s) => match int_literal(s) {
            Some(v) => if v <= u64::MAX {
                Some(v as u64)
            } else {
                None
            },
            None => None,
        },
        None => None,
    }
}

/// The descriptor that bytes of kind `t` are written through: the one there is, or a new
/// one at the environment's address with the declared `size`.
pub open spec fn stage_base(
    current: Option<Payload>,
    t: PayloadType,
    size: u64,
    env: Option<Seq<char>>,
) -> Option<Payload> {
    match current {
        Some(p) => Some(p),
        None => match address_of(env) {
            Some(a) => Some(Payload { payload_type: t, address: a, offset: 0, length: size }),
            None => None,
        },
    }
}

/// A write of `n` bytes through `p` stays within its declared length and the address space.
pub open spec fn fits(p: Payload, n: u64) -> bool {
    p.offset + n <= p.length && p.address + p.offset <= u64::MAX
}

/// The devicetree address that booting uses: the staged one, else the fallback.
pub open spec fn fdt_choice(current: Option<Payload>, fallback: Option<Seq<char>>) -> Option<u64> {
    match current {
        Some(p) => Some(p.address),
        None => address_of(fallback),
    }
}

/// The command line that starts the loaded kernel.
pub open spec fn boot_command(kernel: u64, ramdisk: u64, ramdisk_len: u64, fdt: u64) -> Seq<char> {
    "booti "@ + hex_digits(kernel as nat) + " "@ + hex_digits(ramdisk as nat) + ":"@
        + hex_digits(ramdisk_len as nat) + " "@ + hex_digits(fdt as nat)
}

pub open spec fn unique_kinds(ps: Seq<Payload>) -> bool {
    forall|i: int, j: int|
        0 <= i < ps.len() && 0 <= j < ps.len() && i != j ==> ps[i].payload_type
            != ps[j].payload_type
}

pub open spec fn find(ps: Seq<Payload>, t: PayloadType) -> Option<Payload> {
    if exists|i: int| 0 <= i < ps.len() && ps[i].payload_type == t {
        Some(ps[choose|i: int| 0 <= i < ps.len() && ps[i].payload_type == t])
    } else {
        None
    }
}

proof fn lemma_find_at(ps: Seq<Payload>, i: int)
    requires
        unique_kinds(ps),
        0 <= i < ps.len(),
    ensures
        find(ps, ps[i].payload_type) == Some(ps[i]),
{
    let t = ps[i].payload_type;
    assert(exists|k: int| 0 <= k < ps.len() && ps[k].payload_type == t);
    let j = choose|k: int| 0 <= k < ps.len() && ps[k].payload_type == t;
    assert(j == i);
}

proof fn lemma_find_same(a: Seq<Payload>, b: Seq<Payload>, t: PayloadType)
    requires
        unique_kinds(a),
        unique_kinds(b),
        forall|i: int| 0 <= i < a.len() && a[i].payload_type == t ==> exists|j: int|
            0 <= j < b.len() && b[j] == a[i],
        forall|j: int| 0 <= j < b.len() && b[j].payload_type == t ==> exists|i: int|
            0 <= i < a.len() && a[i] == b[j],
    ensures
        find(a, t) == find(b, t),
{
    if exists|i: int| 0 <= i < a.len() && a[i].payload_type == t {
        let i = choose|i: int| 0 <= i < a.len() && a[i].payload_type == t;
        let j = choose|j: int| 0 <= j < b.len() && b[j] == a[i];
        lemma_find_at(a, i);
        lemma_find_at(b, j);
    } else if exists|j: int| 0 <= j < b.len() && b[j].payload_type == t {
        let j = choose|j: int| 0 <= j < b.len() && b[j].payload_type == t;
        let i = choose|i: int| 0 <= i < a.len() && a[i] == b[j];
        assert(a[i].payload_type == t);
    }
}

/// The staged components, at most one of each kind.
pub struct BootController {
    payloads: Vec<Payload>,
}

impl BootController {
    /// The descriptor of kind `t`, if one has been made.
    pub closed spec fn slot(&self, t: PayloadType) -> Option<Payload> {
        find(self.payloads@, t)
    }

    pub closed spec fn wf(&self) -> bool {
        unique_kinds(self.payloads@)
    }

    /// A controller with nothing staged.
    pub fn new() -> (r: Self)
        ensures
            r.wf(),
            forall|t: PayloadType| r.slot(t) is None,
    {
        BootController { payloads: Vec::new() }
    }

    fn position(&self, t: PayloadType) -> (r: Option<usize>)
        requires
            self.wf(),
        ensures
            match r {
                Some(i) => i < self.payloads@.len() && self.payloads@[i as int].payload_type == t
                    && self.slot(t) == Some(self.payloads@[i as int]),
                None => self.slot(t) is None && forall|i: int|
                    0 <= i < self.payloads@.len() ==> self.payloads@[i].payload_type != t,
            },
    {
        let mut i: usize = 0;
        while i < self.payloads.len()
            invariant
                i <= self.payloads@.len(),
                unique_kinds(self.payloads@),
                forall|k: int| 0 <= k < i ==> self.payloads@[k].payload_type != t,
            decreases self.payloads@.len() - i,
        {
            if self.payloads[i].payload_type == t {
                proof {
                    lemma_find_at(self.payloads@, i as int);
                }
                return Some(i);
            }
            i = i + 1;
        }
        None
    }

    /// The descriptor of kind `payload_type`, if one has been made.
    pub fn get_payload(&self, payload_type: &PayloadType) -> (r: Option<&Payload>)
        requires
            self.wf(),
        ensures
            match r {
                Some(p) => self.slot(*payload_type) == Some(*p),
                None => self.slot(*payload_type) is None,
            },
    {
        match self.position(*payload_type) {
            Some(i) => Some(&self.payloads[i]),
            None => None,
        }
    }

    /// Forgets the descriptor of kind `payload_type`.
    pub fn remove_payload(&mut self, payload_type: &PayloadType)
        requires
            old(self).wf(),
        ensures
            final(self).wf(),
            final(self).slot(*payload_type) is None,
            forall|u: PayloadType| u != *payload_type ==> final(self).slot(u) == old(self).slot(u),
    {
        let t = *payload_type;
        match self.position(t) {
            Some(i) => {
                let ghost a = self.payloads@;
                self.payloads.remove(i);
                let ghost b = self.payloads@;
                assert(unique_kinds(b)) by {
                    assert forall|x: int, y: int|
                        0 <= x < b.len() && 0 <= y < b.len() && x != y implies b[x].payload_type
                        != b[y].payload_type by {
                        let xa = if x < i {
                            x
                        } else {
                            x + 1
                        };
                        let ya = if y < i {
                            y
                        } else {
                            y + 1
                        };
                        assert(b[x] == a[xa] && b[y] == a[ya]);
                    }
                }
                assert forall|u: PayloadType| u != t implies find(b, u) == find(a, u) by {
                    assert forall|k: int| 0 <= k < a.len() && a[k].payload_type == u implies exists|
                        j: int,
                    | 0 <= j < b.len() && b[j] == a[k] by {
                        let j = if k < i {
                            k
                        } else {
                            k - 1
                        };
                        assert(b[j] == a[k]);
                    }
                    assert forall|j: int| 0 <= j < b.len() && b[j].payload_type == u implies exists|
                        k: int,
                    | 0 <= k < a.len() && a[k] == b[j] by {
                        let k = if j < i {
                            j
                        } else {
                            j + 1
                        };
                        assert(a[k] == b[j]);
                    }
                    lemma_find_same(a, b, u);
                }
                assert forall|j: int| 0 <= j < b.len() implies b[j].payload_type != t by {
                    let k = if j < i {
                        j
                    } else {
                        j + 1
                    };
                    assert(b[j] == a[k]);
                }
            },
            None => {},
        }
    }

    /// Replaces `t`'s descriptor by `p`, or adds `p` where there is none.
    fn put(&mut self, t: PayloadType, p: Payload)
        requires
            old(self).wf(),
            p.payload_type == t,
        ensures
            final(self).wf(),
            final(self).slot(t) == Some(p),
            forall|u: PayloadType| u != t ==> final(self).slot(u) == old(self).slot(u),
    {
        let ghost a = self.payloads@;
        match self.position(t) {
            Some(i) => {
                self.payloads.set(i, p);
                let ghost b = self.payloads@;
                assert(b =~= a.update(i as int, p));
                proof {
                    lemma_find_at(b, i as int);
                }
                assert forall|u: PayloadType| u != t implies find(b, u) == find(a, u) by {
                    assert forall|k: int| 0 <= k < a.len() && a[k].payload_type == u implies exists|
                        j: int,
                    | 0 <= j < b.len() && b[j] == a[k] by {
                        assert(b[k] == a[k]);
                    }
                    assert forall|j: int| 0 <= j < b.len() && b[j].payload_type == u implies exists|
                        k: int,
                    | 0 <= k < a.len() && a[k] == b[j] by {
                        assert(a[j] == b[j]);
                    }
                    lemma_find_same(a, b, u);
                }
            },
            None => {
                self.payloads.push(p);
                let ghost b = self.payloads@;
                assert(b =~= a.push(p));
                proof {
                    lemma_find_at(b, a.len() as int);
                }
                assert forall|u: PayloadType| u != t implies find(b, u) == find(a, u) by {
                    assert forall|k: int| 0 <= k < a.len() && a[k].payload_type == u implies exists|
                        j: int,
                    | 0 <= j < b.len() && b[j] == a[k] by {
                        assert(b[k] == a[k]);
                    }
                    assert forall|j: int| 0 <= j < b.len() && b[j].payload_type == u implies exists|
                        k: int,
                    | 0 <= k < a.len() && a[k] == b[j] by {
                        assert(a[j] == b[j]);
                    }
                    lemma_find_same(a, b, u);
                }
            },
        }
    }

    /// Sets the load address of kind `payload_type`, making a descriptor with nothing
    /// written and no declared length where there is none.
    pub fn set_payload_address(&mut self, payload_type: PayloadType, address: u64)
        requires
            old(self).wf(),
        ensures
            final(self).wf(),
            final(self).slot(payload_type) == Some(
                match old(self).slot(payload_type) {
                    Some(p) => Payload { address, ..p },
                    None => Payload { payload_type, address, offset: 0, length: 0 },
                },
            ),
            forall|u: PayloadType| u != payload_type ==> final(self).slot(u) == old(self).slot(u),
    {
        let p = match self.get_payload(&payload_type) {
            Some(cur) => Payload { address, ..*cur },
            None => Payload { payload_type, address, offset: 0, length: 0 },
        };
        self.put(payload_type, p);
    }
    /// Finds where `chunk_len` more bytes of kind `payload_type` are to be copied, checking
    /// that they fit. The first bytes of a kind make its descriptor, at the address that
    /// `env_address` (the environment's value for the kind's key, if it has one) gives,
    /// with the declared length `payload_size`. The offset moves only when the copy is
    /// recorded by `put_payload_bytes`.
    pub fn payload_target(
        &mut self,
        payload_type: PayloadType,
        payload_size: u64,
        chunk_len: u64,
        env_address: Option<&str>,
    ) -> (r: Result<u64, BootError>)
        requires
            old(self).wf(),
        ensures
            final(self).wf(),
            forall|u: PayloadType| u != payload_type ==> final(self).slot(u) == old(self).slot(u),
            match stage_base(old(self).slot(payload_type), payload_type, payload_size, opt_text(env_address)) {
                None => final(self).slot(payload_type) is None && (env_address is None ==> r
                    == Err::<u64, BootError>(BootError::AddressUnavailable)) && (env_address is Some
                    ==> r matches Err(BootError::InvalidAddress(_))),
                Some(p) => if fits(p, chunk_len) {
                    r == Ok::<u64, BootError>((p.address + p.offset) as u64) && final(self).slot(
                        payload_type,
                    ) == Some(p)
                } else {
                    r == Err::<u64, BootError>(BootError::OutOfBounds) && final(self).slot(
                        payload_type,
                    ) == Some(p)
                },
            },
    {
        let base = match self.get_payload(&payload_type) {
            Some(p) => *p,
            None => {
                let text = match env_address {
                    Some(s) => s,
                    None => {
                        return Err(BootError::AddressUnavailable);
                    },
                };
                let address = match parse_int(text) {
                    Ok(a) => a,
                    Err(e) => {
                        return Err(BootError::InvalidAddress(e));
                    },
                };
                let p = Payload { payload_type, address, offset: 0, length: payload_size };
                self.put(payload_type, p);
                p
            },
        };
        if base.offset > base.length || chunk_len > base.length - base.offset {
            return Err(BootError::OutOfBounds);
        }
        let dest = match base.address.checked_add(base.offset) {
            Some(d) => d,
            None => {
                return Err(BootError::OutOfBounds);
            },
        };
        Ok(dest)
    }

    /// Records the host's copy of `chunk_len` bytes of kind `payload_type` to the address
    /// that `payload_target` gave: on success (`copy_status` not negative) the offset moves
    /// past them; a failed copy leaves everything as it was and is a `Buffer` error.
    pub fn put_payload_bytes(&mut self, payload_type: PayloadType, chunk_len: u64, copy_status: i32) -> (r:
        Result<(), BootError>)
        requires
            old(self).wf(),
        ensures
            final(self).wf(),
            forall|u: PayloadType| u != payload_type ==> final(self).slot(u) == old(self).slot(u),
            match old(self).slot(payload_type) {
                None => r == Err::<(), BootError>(BootError::OutOfBounds) && final(self).slot(
                    payload_type,
                ) is None,
                Some(p) => if !fits(p, chunk_len) {
                    r == Err::<(), BootError>(BootError::OutOfBounds) && final(self).slot(payload_type)
                        == Some(p)
                } else if copy_status < 0 {
                    r == Err::<(), BootError>(BootError::Copy(LwipError::Buffer)) && final(self).slot(payload_type) == Some(p)
                } else {
                    r is Ok && final(self).slot(payload_type) == Some(
                        Payload { offset: (p.offset + chunk_len) as u64, ..p },
                    )
                },
            },
    {
        let base = match self.get_payload(&payload_type) {
            Some(p) => *p,
            None => {
                return Err(BootError::OutOfBounds);
            },
        };
        if base.offset > base.length || chunk_len > base.length - base.offset || base.address.checked_add(
            base.offset,
        ).is_none() {
            return Err(BootError::OutOfBounds);
        }
        if copy_status < 0 {
            return Err(BootError::Copy(LwipError::Buffer));
        }
        self.put(payload_type, Payload { offset: base.offset + chunk_len, ..base });
        Ok(())
    }

    /// Checks that a kernel, a ramdisk and a devicetree are in place and returns the
    /// command line that starts them. A devicetree that was not staged is taken from
    /// `fdt_address`, the environment's fallback address, if it has one.
    pub fn boot(&mut self, fdt_address: Option<&str>) -> (r: Result<String, BootError>)
        requires
            old(self).wf(),
        ensures
            final(self).wf(),
            forall|u: PayloadType| u != PayloadType::Devicetree ==> final(self).slot(u) == old(
                self,
            ).slot(u),
            old(self).slot(PayloadType::Kernel) is None ==> r == Err::<String, BootError>(
                BootError::NoKernel,
            ) && final(self).slot(PayloadType::Devicetree) == old(self).slot(
                PayloadType::Devicetree,
            ),
            old(self).slot(PayloadType::Kernel) is Some && old(self).slot(PayloadType::Ramdisk) is None
                ==> r == Err::<String, BootError>(BootError::NoRamdisk) && final(self).slot(
                PayloadType::Devicetree,
            ) == old(self).slot(PayloadType::Devicetree),
            old(self).slot(PayloadType::Kernel) is Some && old(self).slot(PayloadType::Ramdisk) is Some
                ==> match fdt_choice(old(self).slot(PayloadType::Devicetree), opt_text(fdt_address)) {
                None => r == Err::<String, BootError>(BootError::NoDevicetree) && final(self).slot(
                    PayloadType::Devicetree,
                ) == old(self).slot(PayloadType::Devicetree),
                Some(d) => {
                    let k = old(self).slot(PayloadType::Kernel)->Some_0;
                    let rd = old(self).slot(PayloadType::Ramdisk)->Some_0;
                    &&& r is Ok
                    &&& r->Ok_0@ == boot_command(k.address, rd.address, rd.length, d)
                    &&& final(self).slot(PayloadType::Devicetree) == Some(
                        match old(self).slot(PayloadType::Devicetree) {
                            Some(p) => p,
                            None => Payload {
                                payload_type: PayloadType::Devicetree,
                                address: d,
                                offset: 0,
                                length: 0,
                            },
                        },
                    )
                },
            },
    {
        let kernel = match self.get_payload(&PayloadType::Kernel) {
            Some(p) => *p,
            None => {
                return Err(BootError::NoKernel);
            },
        };
        let ramdisk = match self.get_payload(&PayloadType::Ramdisk) {
            Some(p) => *p,
            None => {
                return Err(BootError::NoRamdisk);
            },
        };
        let fdt = match self.get_payload(&PayloadType::Devicetree) {
            Some(p) => p.address,
            None => {
                let text = match fdt_address {
                    Some(s) => s,
                    None => {
                        return Err(BootError::NoDevicetree);
                    },
                };
                let address = match parse_int(text) {
                    Ok(a) => a,
                    Err(_) => {
                        return Err(BootError::NoDevicetree);
                    },
                };
                self.set_payload_address(PayloadType::Devicetree, address);
                address
            },
        };
        let mut cmd = "booti ".to_owned();
        push_hex(&mut cmd, kernel.address);
        cmd.append(" ");
        push_hex(&mut cmd, ramdisk.address);
        cmd.append(":");
        push_hex(&mut cmd, ramdisk.length);
        cmd.append(" ");
        push_hex(&mut cmd, fdt);
        assert(cmd@ =~= boot_command(kernel.address, ramdisk.address, ramdisk.length, fdt));
        Ok(cmd)
    }
}

} // verus!
