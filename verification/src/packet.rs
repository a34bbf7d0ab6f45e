use crate::error::Error;
use vstd::prelude::*;
use vstd::std_specs::cmp::PartialEqSpec;

verus! {

/// The fixed first byte of every packet.
pub const SYNC_BYTE: u8 = 0x47;

/// Bytes of the fixed header.
pub const HEADER_SIZE: usize = 4;

/// Bytes of one whole packet.
pub const PACKET_SIZE: usize = 188;

/// Bytes of the payload region following the header.
pub const PAYLOAD_SIZE: usize = PACKET_SIZE - HEADER_SIZE;

/// Largest packet identifier (13 bits).
pub const PID_MAX: u16 = 8191;

/// The fixed header of one packet.
pub type Header = [u8; 4];

/// The payload region of one packet.
pub type Payload = [u8; 184];

/// One whole packet as a flat byte buffer.
pub type PacketBuffer = [u8; 188];

/// One fixed-size 188-byte transport packet: a 4-byte header and a
/// 184-byte payload region, kept verbatim so that re-serialization is
/// an identity on unexamined bytes.
#[derive(Clone, Debug)]
pub struct Packet {
    pub header: Header,
    pub payload: Payload,
}

impl View for Packet {
    type V = Seq<u8>;

    /// A packet viewed as its flat 188-byte sequence: header then payload.
    open spec fn view(&self) -> Seq<u8> {
        self.header@ + self.payload@
    }
}

/// Whether the transport-error flag (bit 7 of header byte 1) is set.
pub open spec fn spec_transport_error(s: Seq<u8>) -> bool
    recommends
        s.len() == 188,
{
    s[1] & 0x80 != 0
}

/// Whether the payload-unit-start flag (bit 6 of header byte 1) is set.
pub open spec fn spec_payload_unit_start(s: Seq<u8>) -> bool
    recommends
        s.len() == 188,
{
    s[1] & 0x40 != 0
}

/// Whether the transport-priority flag (bit 5 of header byte 1) is set.
pub open spec fn spec_transport_priority(s: Seq<u8>) -> bool
    recommends
        s.len() == 188,
{
    s[1] & 0x20 != 0
}

/// The 13-bit packet identifier, from bits of header bytes 1 and 2.
pub open spec fn spec_pid(s: Seq<u8>) -> u16
    recommends
        s.len() == 188,
{
    (((s[1] & 0x1f) as u16) << 8u16) | (s[2] as u16)
}

/// The 2-bit scrambling control, the top bits of header byte 3.
pub open spec fn spec_scrambling_control(s: Seq<u8>) -> u8
    recommends
        s.len() == 188,
{
    (s[3] >> 6) & 0x03
}

/// Whether the header declares an adaptation field before the payload.
pub open spec fn spec_has_adaptation_field(s: Seq<u8>) -> bool
    recommends
        s.len() == 188,
{
    s[3] & 0x20 != 0
}

/// Whether the header declares payload data.
pub open spec fn spec_has_payload(s: Seq<u8>) -> bool
    recommends
        s.len() == 188,
{
    s[3] & 0x10 != 0
}

/// The 4-bit continuity counter, the low bits of header byte 3.
pub open spec fn spec_continuity_counter(s: Seq<u8>) -> u8
    recommends
        s.len() == 188,
{
    s[3] & 0x0f
}

/// The adaptation-field length byte: the first payload byte, meaningful
/// only when an adaptation field is declared.
pub open spec fn spec_adaptation_field_length(s: Seq<u8>) -> u8
    recommends
        s.len() == 188,
{
    s[4]
}

/// Where the embedded sub-packet starts inside the payload: right after
/// the adaptation field when one is declared, else at the first byte.
pub open spec fn spec_pes_start(s: Seq<u8>) -> int
    recommends
        s.len() == 188,
{
    if spec_has_adaptation_field(s) {
        s[4] + 1
    } else {
        0
    }
}

impl Packet {
    /// The canonical null (stuffing) packet: identifier 8191, all header
    /// flags clear, payload all `0xff`.
    pub fn null() -> (r: Self)
        ensures
            r@.len() == 188,
            r@[0] == 0x47u8,
            r@[1] == 0x1fu8,
            r@[2] == 0xffu8,
            r@[3] == 0x00u8,
            forall|i: int| 4 <= i < 188 ==> r@[i] == 0xffu8,
    {
        let r = Packet { header: [SYNC_BYTE, 0x1f, 0xff, 0x00], payload: [0xff; 184] };
        proof {
            assert forall|i: int| 4 <= i < 188 implies r@[i] == 0xffu8 by {
                assert(r@[i] == r.payload@[i - 4]);
            }
        }
        r
    }

    /// Decode one packet from a flat 188-byte buffer. Succeeds exactly
    /// when the first byte is the sync byte, and then retains every byte
    /// of the buffer, so that re-serialization is an identity.
    pub fn from_bytes(buf: &PacketBuffer) -> (r: Result<Packet, Error>)
        ensures
            buf@[0] == SYNC_BYTE ==> (r matches Ok(p) && p@ == buf@),
            buf@[0] != SYNC_BYTE ==> r == Err::<Packet, Error>(Error::BadSyncByte),
    {
        if buf[0] != SYNC_BYTE {
            return Err(Error::BadSyncByte);
        }
        let mut header: Header = [0u8; 4];
        let mut payload: Payload = [0u8; 184];
        header[0] = buf[0];
        header[1] = buf[1];
        header[2] = buf[2];
        header[3] = buf[3];
        let mut i: usize = 0;
        while i < PAYLOAD_SIZE
            invariant
                i <= 184,
                header@.len() == 4,
                payload@.len() == 184,
                forall|j: int| 0 <= j < 4 ==> header@[j] == buf@[j],
                forall|j: int| 0 <= j < i ==> payload@[j] == buf@[4 + j],
            decreases 184 - i,
        {
            payload[i] = buf[HEADER_SIZE + i];
            i = i + 1;
        }
        let p = Packet { header, payload };
        proof {
            assert forall|j: int| 0 <= j < 188 implies p@[j] == buf@[j] by {
                if j < 4 {
                    assert(p@[j] == p.header@[j]);
                } else {
                    assert(p@[j] == p.payload@[j - 4]);
                }
            }
            assert(p@ =~= buf@);
        }
        Ok(p)
    }

    /// Serialize the packet back to its flat 188-byte buffer: the header
    /// then the payload region, byte for byte.
    pub fn to_bytes(&self) -> (r: PacketBuffer)
        ensures
            r@ == self@,
    {
        let mut buf: PacketBuffer = [0u8; 188];
        let mut i: usize = 0;
        while i < PACKET_SIZE
            invariant
                i <= 188,
                buf@.len() == 188,
                forall|j: int| 0 <= j < i ==> buf@[j] == self@[j],
            decreases 188 - i,
        {
            buf[i] = self.index(i);
            i = i + 1;
        }
        proof {
            assert(buf@ =~= self@);
        }
        buf
    }

    /// The byte at flat position `i` of the packet, header then payload.
    pub fn index(&self, i: usize) -> (r: u8)
        requires
            i < 188,
        ensures
            r == self@[i as int],
    {
        if i < HEADER_SIZE {
            proof {
                assert(self@[i as int] == self.header@[i as int]);
            }
            self.header[i]
        } else {
            proof {
                assert(self@[i as int] == self.payload@[i - 4]);
            }
            self.payload[i - HEADER_SIZE]
        }
    }

    /// The byte at flat position `i`, or `OutOfRange` past the fixed
    /// packet size: the checked form of positional access.
    pub fn get(&self, i: usize) -> (r: Result<u8, Error>)
        ensures
            i < 188 ==> r == Ok::<u8, Error>(self@[i as int]),
            i >= 188 ==> r == Err::<u8, Error>(Error::OutOfRange),
    {
        if i < PACKET_SIZE {
            Ok(self.index(i))
        } else {
            Err(Error::OutOfRange)
        }
    }

    /// The packet identifier routing this packet to a logical stream.
    pub fn pid(&self) -> (r: u16)
        ensures
            r == spec_pid(self@),
            r <= PID_MAX,
    {
        let r = (((self.header[1] & 0x1f) as u16) << 8u16) | (self.header[2] as u16);
        proof {
            let b1 = self.header@[1];
            let b2 = self.header@[2];
            assert(self@[1] == b1 && self@[2] == b2);
            assert((((b1 & 0x1f) as u16) << 8u16 | (b2 as u16)) <= 8191) by (bit_vector);
        }
        r
    }

    /// Whether the transport-error flag is set.
    pub fn transport_error(&self) -> (r: bool)
        ensures
            r == spec_transport_error(self@),
    {
        proof {
            assert(self@[1] == self.header@[1]);
        }
        self.header[1] & 0x80 != 0
    }

    /// Whether this packet starts a payload unit.
    pub fn has_payload_unit_start_indicator(&self) -> (r: bool)
        ensures
            r == spec_payload_unit_start(self@),
    {
        proof {
            assert(self@[1] == self.header@[1]);
        }
        self.header[1] & 0x40 != 0
    }

    /// Whether the transport-priority flag is set.
    pub fn transport_priority(&self) -> (r: bool)
        ensures
            r == spec_transport_priority(self@),
    {
        proof {
            assert(self@[1] == self.header@[1]);
        }
        self.header[1] & 0x20 != 0
    }

    /// The 2-bit scrambling control.
    pub fn scrambling_control(&self) -> (r: u8)
        ensures
            r == spec_scrambling_control(self@),
            r <= 3,
    {
        proof {
            assert(self@[3] == self.header@[3]);
            let b = self.header@[3];
            assert((b >> 6) & 0x03 <= 3) by (bit_vector);
        }
        (self.header[3] >> 6) & 0x03
    }

    /// Whether the header declares an adaptation field.
    pub fn has_adaptation_field(&self) -> (r: bool)
        ensures
            r == spec_has_adaptation_field(self@),
    {
        proof {
            assert(self@[3] == self.header@[3]);
        }
        self.header[3] & 0x20 != 0
    }

    /// Whether the header declares payload data.
    pub fn has_payload(&self) -> (r: bool)
        ensures
            r == spec_has_payload(self@),
    {
        proof {
            assert(self@[3] == self.header@[3]);
        }
        self.header[3] & 0x10 != 0
    }

    /// The 4-bit continuity counter.
    pub fn continuity_counter(&self) -> (r: u8)
        ensures
            r == spec_continuity_counter(self@),
            r <= 15,
    {
        proof {
            assert(self@[3] == self.header@[3]);
            let b = self.header@[3];
            assert(b & 0x0f <= 15) by (bit_vector);
        }
        self.header[3] & 0x0f
    }

    /// The adaptation-field length byte, the first payload byte.
    pub fn adaptation_field_length(&self) -> (r: u8)
        ensures
            r == spec_adaptation_field_length(self@),
    {
        proof {
            assert(self@[4] == self.payload@[0]);
        }
        self.payload[0]
    }

    /// Where the embedded sub-packet starts inside the payload.
    pub fn pes_start(&self) -> (r: usize)
        ensures
            r == spec_pes_start(self@),
            r <= 256,
    {
        proof {
            assert(self@[4] == self.payload@[0]);
        }
        if self.has_adaptation_field() {
            self.payload[0] as usize + 1
        } else {
            0
        }
    }
}

/// The 33-bit clock-reference base packed across flat bytes 6..=10:
/// four whole bytes, then the top bit of the fifth.
pub open spec fn pcr_base_of_bytes(b6: u8, b7: u8, b8: u8, b9: u8, b10: u8) -> u64 {
    ((b6 as u64) << 25u64) | ((b7 as u64) << 17u64) | ((b8 as u64) << 9u64) | ((b9 as u64)
        << 1u64) | (((b10 & 0x80) as u64) >> 7u64)
}

/// The 9-bit clock-reference extension packed in flat bytes 10 and 11:
/// the bottom bit of the fifth byte, then the whole sixth byte.
pub open spec fn pcr_ext_of_bytes(b10: u8, b11: u8) -> u64 {
    (((b10 & 0x01) as u64) << 8u64) | (b11 as u64)
}

/// Whether the packet declares a clock reference: an adaptation field
/// with a non-zero length whose flag byte has bit 4 set.
pub open spec fn spec_has_pcr(s: Seq<u8>) -> bool
    recommends
        s.len() == 188,
{
    spec_has_adaptation_field(s) && s[4] != 0 && (s[5] & 0x10) != 0
}

/// The clock-reference value: the 33-bit base times the fixed scale
/// factor 300, plus the 9-bit extension.
pub open spec fn spec_pcr(s: Seq<u8>) -> int
    recommends
        s.len() == 188,
{
    pcr_base_of_bytes(s[6], s[7], s[8], s[9], s[10]) * 300 + pcr_ext_of_bytes(s[10], s[11])
}

/// Byte 6 of a packet carrying clock-reference base `base`.
pub open spec fn pcr_byte6(base: u64) -> u8 {
    ((base >> 25u64) & 0xff) as u8
}

/// Byte 7 of a packet carrying clock-reference base `base`.
pub open spec fn pcr_byte7(base: u64) -> u8 {
    ((base >> 17u64) & 0xff) as u8
}

/// Byte 8 of a packet carrying clock-reference base `base`.
pub open spec fn pcr_byte8(base: u64) -> u8 {
    ((base >> 9u64) & 0xff) as u8
}

/// Byte 9 of a packet carrying clock-reference base `base`.
pub open spec fn pcr_byte9(base: u64) -> u8 {
    ((base >> 1u64) & 0xff) as u8
}

/// Byte 10: the base's lowest bit, six reserved bits set to one, and
/// the extension's ninth bit.
pub open spec fn pcr_byte10(base: u64, ext: u64) -> u8 {
    (0x7eu8 | (((ext & 0x100) >> 8u64) as u8)) | (((base & 0x01) << 7u64) as u8)
}

/// Byte 11: the extension's low eight bits.
pub open spec fn pcr_byte11(ext: u64) -> u8 {
    (ext & 0xff) as u8
}

/// The byte sequence after writing clock-reference value `pcr`: flat
/// bytes 6..=11 re-packed from the value's base and extension, every
/// other byte unchanged.
pub open spec fn spec_write_pcr(s: Seq<u8>, pcr: u64) -> Seq<u8>
    recommends
        s.len() == 188,
{
    let base = pcr / 300u64;
    let ext = pcr % 300u64;
    s.update(11, pcr_byte11(ext)).update(10, pcr_byte10(base, ext)).update(
        9,
        pcr_byte9(base),
    ).update(8, pcr_byte8(base)).update(7, pcr_byte7(base)).update(6, pcr_byte6(base))
}

/// Whether the packet carries a decode timestamp: it starts a payload
/// unit with payload data, at least 19 payload bytes remain past the
/// sub-packet start, those bytes begin with the start-code prefix
/// 00 00 01, the stream identifier marks an audio or video stream, and
/// the flag byte at offset 7 of the sub-packet has its top bit clear.
pub open spec fn spec_has_dts(s: Seq<u8>) -> bool
    recommends
        s.len() == 188,
{
    let ps = spec_pes_start(s);
    &&& spec_payload_unit_start(s)
    &&& spec_has_payload(s)
    &&& ps <= 165
    &&& s[4 + ps] == 0
    &&& s[5 + ps] == 0
    &&& s[6 + ps] == 1
    &&& ((s[7 + ps] & 0xe0) == 0xc0 || (s[7 + ps] & 0xf0) == 0xe0)
    &&& s[11 + ps] & 0x80 == 0
}

/// Where the 33-bit timestamp starts inside the payload: offset 9 of
/// the sub-packet when the flag's high bit is clear, else offset 14
/// (past the presentation timestamp, which this codec does not expose).
pub open spec fn spec_dts_index(s: Seq<u8>) -> int
    recommends
        s.len() == 188,
{
    if s[11 + spec_pes_start(s)] & 0x80 == 0 {
        spec_pes_start(s) + 9
    } else {
        spec_pes_start(s) + 14
    }
}

/// The 33-bit timestamp packed across five payload bytes starting at
/// payload offset `i`: three data bits of the first byte, a whole byte,
/// seven bits and a marker, a whole byte, seven bits and a marker.
pub open spec fn spec_dts_raw(s: Seq<u8>, i: int) -> u64
    recommends
        s.len() == 188,
        0 <= i && i + 4 < 184,
{
    (((s[4 + i] & 0x0e) as u64) << 29u64) | ((s[5 + i] as u64) << 22u64) | (((s[6 + i] & 0xfe)
        as u64) << 14u64) | ((s[7 + i] as u64) << 7u64) | (((s[8 + i] & 0xfe) as u64) >> 1u64)
}

/// The decode-timestamp value: the 33-bit field scaled by 300.
pub open spec fn spec_dts(s: Seq<u8>) -> int
    recommends
        s.len() == 188,
{
    spec_dts_raw(s, spec_dts_index(s)) * 300
}

impl Packet {
    /// Whether the packet declares a clock reference.
    pub fn has_pcr(&self) -> (r: bool)
        ensures
            r == spec_has_pcr(self@),
    {
        proof {
            assert(self@[4] == self.payload@[0] && self@[5] == self.payload@[1]);
        }
        self.has_adaptation_field() && self.payload[0] != 0 && self.payload[1] & 0x10 != 0
    }

    /// Read the clock reference, or 0 when none is declared — a sentinel,
    /// not a valid clock value; callers check `has_pcr` first.
    pub fn read_pcr(&self) -> (r: u64)
        ensures
            spec_has_pcr(self@) ==> r == spec_pcr(self@),
            !spec_has_pcr(self@) ==> r == 0,
    {
        if !self.has_pcr() {
            return 0;
        }
        proof {
            assert(forall|k: int| 0 <= k < 184 ==> self@[4 + k] == self.payload@[k]);
        }
        let b6 = self.payload[2];
        let b7 = self.payload[3];
        let b8 = self.payload[4];
        let b9 = self.payload[5];
        let b10 = self.payload[6];
        let b11 = self.payload[7];
        let base: u64 = ((b6 as u64) << 25u64) | ((b7 as u64) << 17u64) | ((b8 as u64) << 9u64) | (
        (b9 as u64) << 1u64) | (((b10 & 0x80) as u64) >> 7u64);
        let ext: u64 = (((b10 & 0x01) as u64) << 8u64) | (b11 as u64);
        proof {
            assert(pcr_base_of_bytes(b6, b7, b8, b9, b10) < 0x200000000u64 && pcr_ext_of_bytes(
                b10,
                b11,
            ) < 0x200u64) by (bit_vector);
        }
        base * 300 + ext
    }

    /// Write a clock reference into a packet that declares one, packing
    /// the value's base and extension into flat bytes 6..=11; refuses,
    /// changing nothing, when the packet declares none, so a write never
    /// fabricates a field the packet did not declare.
    pub fn write_pcr(&mut self, pcr: u64) -> (r: bool)
        ensures
            r == spec_has_pcr(old(self)@),
            !spec_has_pcr(old(self)@) ==> *final(self) == *old(self),
            spec_has_pcr(old(self)@) ==> final(self)@ == spec_write_pcr(old(self)@, pcr),
    {
        if !self.has_pcr() {
            return false;
        }
        let base: u64 = pcr / 300;
        let ext: u64 = pcr % 300;
        self.payload[7] = (ext & 0xff) as u8;
        self.payload[6] = 0x7e;
        self.payload[6] = self.payload[6] | (((ext & 0x100) >> 8u64) as u8);
        self.payload[6] = self.payload[6] | (((base & 0x01) << 7u64) as u8);
        self.payload[5] = ((base >> 1u64) & 0xff) as u8;
        self.payload[4] = ((base >> 9u64) & 0xff) as u8;
        self.payload[3] = ((base >> 17u64) & 0xff) as u8;
        self.payload[2] = ((base >> 25u64) & 0xff) as u8;
        proof {
            assert(self@ =~= spec_write_pcr(old(self)@, pcr));
        }
        true
    }

    /// Set the discontinuity-indicator bit in the adaptation field's
    /// flag byte, when an adaptation field with a non-zero length is
    /// present; a refused no-op otherwise.
    pub fn set_discontinuity(&mut self) -> (r: bool)
        ensures
            r == (spec_has_adaptation_field(old(self)@) && spec_adaptation_field_length(
                old(self)@,
            ) != 0),
            !r ==> *final(self) == *old(self),
            r ==> final(self)@ == old(self)@.update(5, old(self)@[5] | 0x80),
    {
        proof {
            assert(self@[4] == self.payload@[0]);
        }
        if self.has_adaptation_field() && self.payload[0] != 0 {
            self.payload[1] = self.payload[1] | 0x80;
            proof {
                assert(self@ =~= old(self)@.update(5, old(self)@[5] | 0x80));
            }
            true
        } else {
            false
        }
    }

    /// Whether the packet carries a decode timestamp.
    pub fn has_dts(&self) -> (r: bool)
        ensures
            r == spec_has_dts(self@),
    {
        if !self.has_payload_unit_start_indicator() || !self.has_payload() {
            return false;
        }
        let ps = self.pes_start();
        if ps > PAYLOAD_SIZE - 19 {
            return false;
        }
        proof {
            assert(forall|k: int| 0 <= k < 184 ==> self@[4 + k] == self.payload@[k]);
        }
        if self.payload[ps] != 0 || self.payload[ps + 1] != 0 || self.payload[ps + 2] != 1 {
            return false;
        }
        let stream_id = self.payload[ps + 3];
        if (stream_id & 0xe0) != 0xc0 && (stream_id & 0xf0) != 0xe0 {
            return false;
        }
        self.payload[ps + 7] & 0x80 == 0
    }

    /// Read the decode timestamp, or 0 when none is carried — a sentinel,
    /// not a valid timestamp; callers check `has_dts` first.
    pub fn read_dts(&self) -> (r: u64)
        ensures
            spec_has_dts(self@) ==> r == spec_dts(self@),
            !spec_has_dts(self@) ==> r == 0,
    {
        if !self.has_dts() {
            return 0;
        }
        let ps = self.pes_start();
        proof {
            assert(forall|k: int| 0 <= k < 184 ==> self@[4 + k] == self.payload@[k]);
        }
        let dts_index: usize = if self.payload[ps + 7] & 0x80 == 0 {
            ps + 9
        } else {
            ps + 14
        };
        let b0 = self.payload[dts_index];
        let b1 = self.payload[dts_index + 1];
        let b2 = self.payload[dts_index + 2];
        let b3 = self.payload[dts_index + 3];
        let b4 = self.payload[dts_index + 4];
        let dts: u64 = (((b0 & 0x0e) as u64) << 29u64) | ((b1 as u64) << 22u64) | (((b2 & 0xfe)
            as u64) << 14u64) | ((b3 as u64) << 7u64) | (((b4 & 0xfe) as u64) >> 1u64);
        proof {
            assert(((((b0 & 0x0e) as u64) << 29u64) | ((b1 as u64) << 22u64) | (((b2 & 0xfe)
                as u64) << 14u64) | ((b3 as u64) << 7u64) | (((b4 & 0xfe) as u64) >> 1u64))
                < 0x200000000u64) by (bit_vector);
        }
        dts * 300
    }
}

impl PartialEq for Packet {
    /// Packets are equal exactly when every one of their 188 bytes is.
    fn eq(&self, other: &Packet) -> (r: bool) {
        let mut i: usize = 0;
        while i < PACKET_SIZE
            invariant
                i <= 188,
                forall|j: int| 0 <= j < i ==> self@[j] == other@[j],
            decreases 188 - i,
        {
            if self.index(i) != other.index(i) {
                return false;
            }
            i = i + 1;
        }
        proof {
            assert(self@ =~= other@);
        }
        true
    }
}

impl vstd::std_specs::cmp::PartialEqSpecImpl for Packet {
    open spec fn obeys_eq_spec() -> bool {
        true
    }

    open spec fn eq_spec(&self, other: &Packet) -> bool {
        self@ == other@
    }
}

impl Eq for Packet {

}

impl Default for Packet {
    /// The default packet is the canonical null packet.
    fn default() -> (r: Packet)
        ensures
            r@.len() == 188,
            r@[0] == 0x47u8,
            r@[1] == 0x1fu8,
            r@[2] == 0xffu8,
            r@[3] == 0x00u8,
            forall|i: int| 4 <= i < 188 ==> r@[i] == 0xffu8,
    {
        Packet::null()
    }
}

/// Law: round trip. Decoding a sync-correct 188-byte buffer and
/// re-serializing gives back the buffer: `from_bytes` makes the decoded
/// packet's view the buffer itself, and `to_bytes` returns the view.
pub proof fn lemma_round_trip(buf: Seq<u8>, p: Packet, out: Seq<u8>)
    requires
        buf.len() == 188,
        buf[0] == SYNC_BYTE,
        p@ == buf,
        out == p@,
    ensures
        out == buf,
{
}

/// Law: parsing is idempotent. Packet equality is byte-sequence
/// equality, so two packets decoded from the same buffer are equal.
pub proof fn lemma_parse_idempotent(p1: Packet, p2: Packet, buf: Seq<u8>)
    requires
        p1@ == buf,
        p2@ == buf,
    ensures
        p1.eq_spec(&p2),
{
}

/// Law: clock-reference round trip. For every value representable in
/// the 33-bit base and 9-bit extension encoding (scale 300), writing it
/// into a packet that declares a clock reference keeps the declaration,
/// leaves every byte outside the clock-reference field unchanged, and
/// reading it back returns the value.
pub proof fn lemma_pcr_round_trip(s: Seq<u8>, pcr: u64)
    requires
        s.len() == 188,
        spec_has_pcr(s),
        pcr < 0x200000000u64 * 300,
    ensures
        spec_has_pcr(spec_write_pcr(s, pcr)),
        spec_pcr(spec_write_pcr(s, pcr)) == pcr,
        forall|i: int| (0 <= i < 6 || 12 <= i < 188) ==> spec_write_pcr(s, pcr)[i] == s[i],
{
    let base = pcr / 300u64;
    let ext = pcr % 300u64;
    vstd::arithmetic::div_mod::lemma_fundamental_div_mod(pcr as int, 300);
    vstd::arithmetic::div_mod::lemma_mod_division_less_than_divisor(pcr as int, 300);
    assert(base < 0x200000000u64) by (nonlinear_arith)
        requires
            pcr < 0x200000000u64 * 300,
            pcr as int == 300 * (base as int) + (ext as int),
            0 <= ext < 300,
    ;
    assert(pcr_base_of_bytes(
        pcr_byte6(base),
        pcr_byte7(base),
        pcr_byte8(base),
        pcr_byte9(base),
        pcr_byte10(base, ext),
    ) == base) by (bit_vector)
        requires
            base < 0x200000000u64,
    ;
    assert(pcr_ext_of_bytes(pcr_byte10(base, ext), pcr_byte11(ext)) == ext) by (bit_vector)
        requires
            ext < 300u64,
    ;
}

impl From<(Header, Payload)> for Packet {
    /// Assemble a packet from its header and payload parts, verbatim.
    fn from(data: (Header, Payload)) -> (r: Packet) {
        Packet { header: data.0, payload: data.1 }
    }
}

impl vstd::std_specs::convert::FromSpecImpl<(Header, Payload)> for Packet {
    open spec fn obeys_from_spec() -> bool {
        true
    }

    open spec fn from_spec(v: (Header, Payload)) -> Packet {
        Packet { header: v.0, payload: v.1 }
    }
}

} // verus!
