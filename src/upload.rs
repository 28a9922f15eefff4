//! A boot upload: the request body, a flat map from environment keys to image bytes,
//! decoded piece by piece and staged through the boot controller.
use vstd::prelude::*;
use crate::boot::{env_key, fits, opt_text, stage_base, BootController, BootError, Payload, PayloadType};
use crate::buffer::{bytes_contents, bytes_len};
use crate::msgpack::{decode_state, needs_input, observations, tagged, MessagePackByteStream};
use crate::msgpack_error::MessagePackError;

verus! {

/// The environment's load address for each component, where it has one.
pub struct LoadAddresses {
    pub kernel: Option<String>,
    pub devicetree: Option<String>,
    pub ramdisk: Option<String>,
}

impl LoadAddresses {
    /// The characters of the load address of kind `t`.
    pub open spec fn text_of(&self, t: PayloadType) -> Option<Seq<char>> {
        match t {
            PayloadType::Kernel => match self.kernel {
                Some(s) => Some(s@),
                None => None,
            },
            PayloadType::Devicetree => match self.devicetree {
                Some(s) => Some(s@),
                None => None,
            },
            PayloadType::Ramdisk => match self.ramdisk {
                Some(s) => Some(s@),
                None => None,
            },
        }
    }

    /// The load address of kind `t`.
    pub fn get(&self, t: PayloadType) -> (r: Option<&str>)
        ensures
            opt_text(r) == self.text_of(t),
    {
        let s = match t {
            PayloadType::Kernel => &self.kernel,
            PayloadType::Devicetree => &self.devicetree,
            PayloadType::Ramdisk => &self.ramdisk,
        };
        match s {
            Some(v) => Some(v.as_str()),
            None => None,
        }
    }
}

/// What one step of an upload produced.
#[derive(Debug)]
pub enum UploadEvent {
    /// Copy `data` to `address`, then record the copy with the controller's
    /// `put_payload_bytes`: it belongs to component `payload_type`, whose declared length
    /// is `length`.
    Copy { payload_type: PayloadType, length: u64, address: u64, data: bytes::Bytes },
    /// A piece of a value whose key names no component; it is skipped.
    UnknownKey { key: String, length: u64, data: bytes::Bytes },
    /// A piece of a component that could not be staged.
    Staging { payload_type: PayloadType, length: u64, error: BootError },
    /// The body is not a flat map of the accepted form; the upload stops here.
    Decode(MessagePackError),
}

/// An upload in progress.
pub struct BootUpload {
    pub decoder: MessagePackByteStream,
}

impl BootUpload {
    pub fn new() -> (r: Self)
        ensures
            r.decoder.wf(),
            r.decoder.consumed() == Seq::<u8>::empty(),
            r.decoder.pending() == Seq::<u8>::empty(),
    {
        BootUpload { decoder: MessagePackByteStream::new() }
    }

    /// Buffers the next piece of the body.
    pub fn feed(&mut self, item: bytes::Bytes)
        requires
            old(self).decoder.wf(),
        ensures
            final(self).decoder.wf(),
            final(self).decoder.consumed() == old(self).decoder.consumed(),
            final(self).decoder.pending() == old(self).decoder.pending() + bytes_contents(item),
    {
        self.decoder.extend_buffer(item);
    }

    /// Decodes the next piece and stages it. `None` means that more of the body is needed,
    /// or that the map is over or broken.
    pub fn next_event(&mut self, controller: &mut BootController, addresses: &LoadAddresses) -> (r:
        Option<UploadEvent>)
        requires
            old(self).decoder.wf(),
            old(controller).wf(),
        ensures
            final(self).decoder.wf(),
            final(controller).wf(),
            final(self).decoder.consumed() + final(self).decoder.pending() == old(self).decoder.consumed() + old(self).decoder.pending(),
            match r {
                None => observations(final(self).decoder.consumed()) == observations(
                    old(self).decoder.consumed(),
                ) && needs_input(
                    decode_state(final(self).decoder.consumed()),
                    final(self).decoder.pending(),
                ) && forall|u: PayloadType| final(controller).slot(u) == old(controller).slot(u),
                Some(UploadEvent::Decode(_)) => decode_state(
                    final(self).decoder.consumed(),
                ) is Failed && forall|u: PayloadType|
                    final(controller).slot(u) == old(controller).slot(u),
                Some(UploadEvent::UnknownKey { key, length, data }) => {
                    &&& forall|t: PayloadType| env_key(t) != key@
                    &&& observations(final(self).decoder.consumed()) == observations(
                        old(self).decoder.consumed(),
                    ) + tagged(key@, length as nat, bytes_contents(data))
                    &&& forall|u: PayloadType| final(controller).slot(u) == old(controller).slot(u)
                },
                Some(UploadEvent::Copy { payload_type, length, address, data }) => {
                    let n = bytes_contents(data).len() as u64;
                    &&& observations(final(self).decoder.consumed()) == observations(
                        old(self).decoder.consumed(),
                    ) + tagged(env_key(payload_type), length as nat, bytes_contents(data))
                    &&& forall|u: PayloadType|
                        u != payload_type ==> final(controller).slot(u) == old(controller).slot(u)
                    &&& match stage_base(
                        old(controller).slot(payload_type),
                        payload_type,
                        length,
                        addresses.text_of(payload_type),
                    ) {
                        Some(p) => fits(p, n) && address == p.address + p.offset && final(controller).slot(payload_type) == Some(p),
                        None => false,
                    }
                },
                Some(UploadEvent::Staging { payload_type, length, error }) => {
                    &&& observations(final(self).decoder.consumed()).len() > observations(
                        old(self).decoder.consumed(),
                    ).len()
                    &&& forall|u: PayloadType|
                        u != payload_type ==> final(controller).slot(u) == old(controller).slot(u)
                    &&& match stage_base(
                        old(controller).slot(payload_type),
                        payload_type,
                        length,
                        addresses.text_of(payload_type),
                    ) {
                        Some(p) => error == BootError::OutOfBounds && final(controller).slot(
                            payload_type,
                        ) == Some(p),
                        None => final(controller).slot(payload_type) is None,
                    }
                },
            },
    {
        match self.decoder.process_bytes() {
            None => None,
            Some(Err(e)) => Some(UploadEvent::Decode(e)),
            Some(Ok(piece)) => {
                let n = bytes_len(&piece.data) as u64;
                match PayloadType::from_str(piece.key.as_str()) {
                    Err(_) => Some(
                        UploadEvent::UnknownKey { key: piece.key, length: piece.length, data: piece.data },
                    ),
                    Ok(t) => match controller.payload_target(t, piece.length, n, addresses.get(t)) {
                        Ok(address) => Some(
                            UploadEvent::Copy {
                                payload_type: t,
                                length: piece.length,
                                address,
                                data: piece.data,
                            },
                        ),
                        Err(error) => Some(
                            UploadEvent::Staging { payload_type: t, length: piece.length, error },
                        ),
                    },
                }
            },
        }
    }
}

/// A chain-load upload: the image is copied piece by piece into a buffer of the
/// announced size.
pub struct ChainUpload {
    size: u64,
    offset: u64,
}

impl ChainUpload {
    /// The announced size.
    pub closed spec fn total(&self) -> u64 {
        self.size
    }

    /// The bytes placed so far.
    pub closed spec fn placed(&self) -> u64 {
        self.offset
    }

    /// An upload of an image of `size` bytes, nothing placed yet.
    pub fn new(size: u64) -> (r: Self)
        ensures
            r.total() == size,
            r.placed() == 0,
    {
        ChainUpload { size, offset: 0 }
    }

    /// Where in the buffer the next `len` bytes go, if they fit in the announced size.
    pub fn place(&mut self, len: u64) -> (r: Option<u64>)
        requires
            old(self).placed() <= old(self).total(),
        ensures
            final(self).total() == old(self).total(),
            final(self).placed() <= final(self).total(),
            old(self).placed() + len <= old(self).total() ==> r == Some(old(self).placed())
                && final(self).placed() == old(self).placed() + len,
            old(self).placed() + len > old(self).total() ==> r is None && final(self).placed() == old(self).placed(),
    {
        if len > self.size - self.offset {
            return None;
        }
        let at = self.offset;
        self.offset = self.offset + len;
        Some(at)
    }
}

} // verus!
