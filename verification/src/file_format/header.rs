//! The module file's header: song-wide settings, channel defaults, the
//! orderlist, and the offset tables for instruments, samples and patterns.

use vstd::prelude::*;

use crate::file_format::err::{LoadDefect, LoadErr};
use crate::note_event::Pan;
use crate::song::PatternOrder;

verus! {

/// Size of the fixed part of the header.
pub const BASE_SIZE: usize = 192;

/// An offset into the module file, known to point past the fixed header.
#[derive(Debug, Clone, Copy, PartialEq, Eq, Structural)]
pub struct InFilePtr(pub u32);

/// The 16-bit little-endian word at `i`.
pub open spec fn le16(b: Seq<u8>, i: int) -> u16 {
    (b[i] as int + b[i + 1] as int * 256) as u16
}

/// The 32-bit little-endian word at `i`.
pub open spec fn le32(b: Seq<u8>, i: int) -> u32 {
    (b[i] as int + b[i + 1] as int * 0x100 + b[i + 2] as int * 0x10000 + b[i + 3] as int
        * 0x1000000) as u32
}

/// How many bytes stand before the first zero byte.
pub open spec fn nul_prefix_len(s: Seq<u8>) -> int
    decreases s.len(),
{
    if s.len() == 0 {
        0
    } else if s[0] == 0 {
        0
    } else {
        1 + nul_prefix_len(s.subrange(1, s.len() as int))
    }
}

/// Whether a byte sequence is valid UTF-8, as std's decoder judges it.
pub uninterp spec fn is_utf8(s: Seq<u8>) -> bool;

/// Relies on std's `str::from_utf8`: it accepts exactly the valid UTF-8
/// byte sequences, a property of the bytes alone.
#[verifier::external_body]
pub fn check_utf8(v: &[u8]) -> (r: bool)
    ensures
        r == is_utf8(v@),
{
    std::str::from_utf8(v).is_ok()
}

/// The bytes of `b` from `lo` up to `hi`, cut at the first zero byte.
pub open spec fn nul_span_of(b: Seq<u8>, lo: int, hi: int) -> Seq<u8> {
    let window = b.subrange(lo, hi);
    window.take(nul_prefix_len(window))
}

/// The song name's bytes: what stands before the first zero byte in the
/// header's name field.
pub open spec fn name_span(b: Seq<u8>) -> Seq<u8> {
    nul_span_of(b, 0x04, 0x1E)
}

/// Copy the bytes from `lo` up to `hi`.
pub fn read_bytes(buf: &[u8], lo: usize, hi: usize) -> (r: Vec<u8>)
    requires
        lo <= hi <= buf@.len(),
    ensures
        r@ == buf@.subrange(lo as int, hi as int),
{
    let mut out: Vec<u8> = Vec::new();
    let mut i: usize = lo;
    while i < hi
        invariant
            lo <= i <= hi <= buf@.len(),
            out@ == buf@.subrange(lo as int, i as int),
        decreases hi - i,
    {
        out.push(buf[i]);
        proof {
            assert(out@ =~= buf@.subrange(lo as int, i + 1));
        }
        i += 1;
    }
    out
}

/// Read a name field: the bytes up to the first zero byte, emptied with a
/// defect report when they are not valid UTF-8.
pub fn read_nul_utf8(buf: &[u8], lo: usize, hi: usize, defects: &mut Vec<LoadDefect>) -> (r: Vec<
    u8,
>)
    requires
        lo <= hi <= buf@.len(),
    ensures
        old(defects)@.is_prefix_of(final(defects)@),
        is_utf8(nul_span_of(buf@, lo as int, hi as int)) ==> r@ == nul_span_of(
            buf@,
            lo as int,
            hi as int,
        ),
        !is_utf8(nul_span_of(buf@, lo as int, hi as int)) ==> r@.len() == 0,
{
    let mut name: Vec<u8> = Vec::new();
    let mut i: usize = lo;
    while i < hi && buf[i] != 0
        invariant
            lo <= i <= hi <= buf@.len(),
            name@ == buf@.subrange(lo as int, i as int),
            forall|k: int| lo <= k < i ==> buf@[k] != 0u8,
        decreases hi - i,
    {
        name.push(buf[i]);
        proof {
            assert(name@ =~= buf@.subrange(lo as int, i + 1));
        }
        i += 1;
    }
    proof {
        lemma_nul_prefix(buf@.subrange(lo as int, hi as int), i - lo);
        assert(buf@.subrange(lo as int, hi as int).take(i - lo) =~= buf@.subrange(
            lo as int,
            i as int,
        ));
    }
    if check_utf8(name.as_slice()) {
        name
    } else {
        defects.push(LoadDefect::InvalidText);
        Vec::new()
    }
}

/// Read one byte that must stay at or below `max`; larger bytes are
/// replaced with `fallback` and reported.
pub fn byte_clamped(buf: &[u8], i: usize, max: u8, fallback: u8, defects: &mut Vec<LoadDefect>)
    -> (r: u8)
    requires
        i < buf@.len(),
    ensures
        old(defects)@.is_prefix_of(final(defects)@),
        r == (if buf@[i as int] <= max {
            buf@[i as int]
        } else {
            fallback
        }),
{
    if buf[i] <= max {
        buf[i]
    } else {
        defects.push(LoadDefect::OutOfBoundsValue);
        fallback
    }
}

/// The file starts with the header's magic bytes.
pub open spec fn magic_ok(b: Seq<u8>) -> bool {
    b[0] == 0x49u8 && b[1] == 0x4Du8 && b[2] == 0x50u8 && b[3] == 0x4Du8
}

/// Bytes the whole header needs: the fixed part, one byte per orderlist
/// entry and four per table offset.
pub open spec fn header_total_len(b: Seq<u8>) -> int {
    192 + le16(b, 0x20) + 4 * le16(b, 0x22) + 4 * le16(b, 0x24) + 4 * le16(b, 0x26)
}

/// A channel volume byte, clamped to 64.
pub open spec fn clamped_vol(v: u8) -> u8 {
    if v <= 64 {
        v
    } else {
        64
    }
}

/// A global or mix volume byte: out-of-range bytes fall back to 64.
pub open spec fn vol_up_to_128(v: u8) -> u8 {
    if v <= 128 {
        v
    } else {
        64
    }
}

/// A channel pan byte; out-of-range bytes fall back to centre.
pub open spec fn pan_of_byte(v: u8) -> Pan {
    match Pan::spec_from_byte(v) {
        Ok(p) => p,
        Err(_) => Pan::Value(32),
    }
}

/// An orderlist byte; bytes with no meaning read as `SkipOrder`.
pub open spec fn order_of_byte(v: u8) -> PatternOrder {
    match PatternOrder::spec_from_byte(v) {
        Ok(o) => o,
        Err(_) => PatternOrder::SkipOrder,
    }
}

/// An instrument or sample table offset: anything inside the fixed header
/// is discarded.
pub open spec fn table_offset_of(v: u32) -> Option<InFilePtr> {
    if v <= 192 {
        None
    } else {
        Some(InFilePtr(v))
    }
}

/// A pattern table offset: zero stands for an empty pattern.
pub open spec fn pattern_offset_of(v: u32) -> Option<InFilePtr> {
    if v == 0 || v <= 192 {
        None
    } else {
        Some(InFilePtr(v))
    }
}

/// Everything the fixed header and its four tables carry.
#[derive(Debug)]
pub struct ImpulseHeader {
    /// Song name bytes, up to the first zero byte; empty if not UTF-8.
    pub song_name: Vec<u8>,
    pub philight: u16,
    pub created_with: u16,
    pub compatible_with: u16,
    pub flags: u16,
    pub special: u16,
    pub global_volume: u8,
    pub mix_volume: u8,
    pub initial_speed: u8,
    pub initial_tempo: u8,
    pub pan_separation: u8,
    pub pitch_wheel_depth: u8,
    pub message_length: u16,
    pub message_offset: u32,
    pub channel_pan: Vec<Pan>,
    pub channel_volume: Vec<u8>,
    pub orders: Vec<PatternOrder>,
    pub instr_offsets: Vec<Option<InFilePtr>>,
    pub sample_offsets: Vec<Option<InFilePtr>>,
    pub pattern_offsets: Vec<Option<InFilePtr>>,
}

impl ImpulseHeader {
    /// Decode the header from the start of the file's bytes. Out-of-range
    /// values are repaired and reported in `defects`; a missing magic or a
    /// buffer shorter than the four tables need fails the load.
    pub fn load(buf: &[u8], defects: &mut Vec<LoadDefect>) -> (r: Result<ImpulseHeader, LoadErr>)
        ensures
            old(defects)@.is_prefix_of(final(defects)@),
            buf@.len() < 192 ==> r == Err::<ImpulseHeader, LoadErr>(LoadErr::BufferTooShort),
            buf@.len() >= 192 && !magic_ok(buf@) ==> r == Err::<ImpulseHeader, LoadErr>(
                LoadErr::Invalid,
            ),
            buf@.len() >= 192 && magic_ok(buf@) && buf@.len() < header_total_len(buf@) ==> r
                == Err::<ImpulseHeader, LoadErr>(LoadErr::BufferTooShort),
            buf@.len() >= 192 && magic_ok(buf@) && buf@.len() >= header_total_len(buf@) ==> (
            r matches Ok(h) && {
                let b = buf@;
                let order_num = le16(b, 0x20) as int;
                let instr_num = le16(b, 0x22) as int;
                let sample_num = le16(b, 0x24) as int;
                let orders_end = 192 + order_num;
                let instr_end = orders_end + 4 * instr_num;
                let sample_end = instr_end + 4 * sample_num;
                &&& (is_utf8(name_span(b)) ==> h.song_name@ == name_span(b))
                &&& (!is_utf8(name_span(b)) ==> h.song_name@.len() == 0)
                &&& h.philight == le16(b, 0x1E)
                &&& h.created_with == le16(b, 0x28)
                &&& h.compatible_with == le16(b, 0x2A)
                &&& h.flags == le16(b, 0x2C)
                &&& h.special == le16(b, 0x2E)
                &&& h.global_volume == vol_up_to_128(b[0x30])
                &&& h.mix_volume == vol_up_to_128(b[0x31])
                &&& h.initial_speed == b[0x32]
                &&& h.initial_tempo == b[0x33]
                &&& h.pan_separation == b[0x34]
                &&& h.pitch_wheel_depth == b[0x35]
                &&& h.message_length == le16(b, 0x36)
                &&& h.message_offset == le32(b, 0x38)
                &&& h.channel_pan@.len() == 64
                &&& forall|i: int|
                    0 <= i < 64 ==> #[trigger] h.channel_pan@[i] == pan_of_byte(b[0x40 + i])
                &&& h.channel_volume@.len() == 64
                &&& forall|i: int|
                    0 <= i < 64 ==> #[trigger] h.channel_volume@[i] == clamped_vol(b[0x80 + i])
                &&& h.orders@.len() == order_num
                &&& forall|i: int|
                    0 <= i < order_num ==> #[trigger] h.orders@[i] == order_of_byte(b[192 + i])
                &&& h.instr_offsets@.len() == instr_num
                &&& forall|i: int|
                    0 <= i < instr_num ==> #[trigger] h.instr_offsets@[i] == table_offset_of(
                        le32(b, orders_end + 4 * i),
                    )
                &&& h.sample_offsets@.len() == sample_num
                &&& forall|i: int|
                    0 <= i < sample_num ==> #[trigger] h.sample_offsets@[i] == table_offset_of(
                        le32(b, instr_end + 4 * i),
                    )
                &&& h.pattern_offsets@.len() == le16(b, 0x26)
                &&& forall|i: int|
                    0 <= i < le16(b, 0x26) ==> #[trigger] h.pattern_offsets@[i]
                        == pattern_offset_of(le32(b, sample_end + 4 * i))
            }),
    {
        if buf.len() < BASE_SIZE {
            return Err(LoadErr::BufferTooShort);
        }
        if !(buf[0] == 0x49 && buf[1] == 0x4D && buf[2] == 0x50 && buf[3] == 0x4D) {
            return Err(LoadErr::Invalid);
        }
        let order_num = read_le16(buf, 0x20);
        let instr_num = read_le16(buf, 0x22);
        let sample_num = read_le16(buf, 0x24);
        let pattern_num = read_le16(buf, 0x26);
        let orders_end: usize = BASE_SIZE + order_num as usize;
        let instr_end: usize = orders_end + 4 * instr_num as usize;
        let sample_end: usize = instr_end + 4 * sample_num as usize;
        let total: usize = sample_end + 4 * pattern_num as usize;
        if buf.len() < total {
            return Err(LoadErr::BufferTooShort);
        }

        let song_name = {
            let mut name: Vec<u8> = Vec::new();
            let mut i: usize = 4;
            while i < 0x1E && buf[i] != 0
                invariant
                    4 <= i <= 0x1E,
                    buf@.len() >= 192,
                    name@ == buf@.subrange(4, i as int),
                    forall|k: int| 4 <= k < i ==> buf@[k] != 0u8,
                decreases 0x1E - i,
            {
                name.push(buf[i]);
                proof {
                    assert(name@ =~= buf@.subrange(4, i + 1));
                }
                i += 1;
            }
            proof {
                lemma_nul_prefix(buf@.subrange(0x04, 0x1E), i - 4);
                assert(buf@.subrange(0x04, 0x1E).take(i - 4) =~= buf@.subrange(4, i as int));
            }
            name
        };
        let song_name = if check_utf8(song_name.as_slice()) {
            song_name
        } else {
            defects.push(LoadDefect::InvalidText);
            Vec::new()
        };

        let philight = read_le16(buf, 0x1E);
        let created_with = read_le16(buf, 0x28);
        let compatible_with = read_le16(buf, 0x2A);
        let flags = read_le16(buf, 0x2C);
        let special = read_le16(buf, 0x2E);

        let global_volume = if buf[0x30] <= 128 {
            buf[0x30]
        } else {
            defects.push(LoadDefect::OutOfBoundsValue);
            64
        };
        let mix_volume = if buf[0x31] <= 128 {
            buf[0x31]
        } else {
            defects.push(LoadDefect::OutOfBoundsValue);
            64
        };
        let initial_speed = buf[0x32];
        let initial_tempo = buf[0x33];
        let pan_separation = buf[0x34];
        let pitch_wheel_depth = buf[0x35];
        let message_length = read_le16(buf, 0x36);
        let message_offset = read_le32(buf, 0x38);

        let mut channel_pan: Vec<Pan> = Vec::new();
        let mut i: usize = 0;
        while i < 64
            invariant
                i <= 64,
                buf@.len() >= 192,
                channel_pan@.len() == i,
                forall|k: int|
                    0 <= k < i ==> #[trigger] channel_pan@[k] == pan_of_byte(buf@[0x40 + k]),
                old(defects)@.is_prefix_of(defects@),
            decreases 64 - i,
        {
            match Pan::try_from(buf[0x40 + i]) {
                Ok(p) => channel_pan.push(p),
                Err(_) => {
                    defects.push(LoadDefect::OutOfBoundsValue);
                    channel_pan.push(Pan::Value(32));
                },
            }
            i += 1;
        }

        let mut channel_volume: Vec<u8> = Vec::new();
        let mut i: usize = 0;
        while i < 64
            invariant
                i <= 64,
                buf@.len() >= 192,
                channel_volume@.len() == i,
                forall|k: int|
                    0 <= k < i ==> #[trigger] channel_volume@[k] == clamped_vol(buf@[0x80 + k]),
                old(defects)@.is_prefix_of(defects@),
            decreases 64 - i,
        {
            let v = buf[0x80 + i];
            if v <= 64 {
                channel_volume.push(v);
            } else {
                defects.push(LoadDefect::OutOfBoundsValue);
                channel_volume.push(64);
            }
            i += 1;
        }

        let mut orders: Vec<PatternOrder> = Vec::new();
        let mut i: usize = 0;
        while i < order_num as usize
            invariant
                i <= order_num as usize,
                buf@.len() >= 192 + order_num as int,
                orders@.len() == i,
                forall|k: int| 0 <= k < i ==> #[trigger] orders@[k] == order_of_byte(buf@[192 + k]),
                old(defects)@.is_prefix_of(defects@),
            decreases order_num as usize - i,
        {
            match PatternOrder::try_from(buf[BASE_SIZE + i]) {
                Ok(o) => orders.push(o),
                Err(_) => {
                    defects.push(LoadDefect::OutOfBoundsValue);
                    orders.push(PatternOrder::SkipOrder);
                },
            }
            i += 1;
        }

        let mut instr_offsets: Vec<Option<InFilePtr>> = Vec::new();
        let mut i: usize = 0;
        while i < instr_num as usize
            invariant
                i <= instr_num as usize,
                orders_end == 192 + le16(buf@, 0x20) as int,
                orders_end + 4 * instr_num as int <= buf@.len(),
                instr_num == le16(buf@, 0x22),
                instr_offsets@.len() == i,
                forall|k: int|
                    0 <= k < i ==> #[trigger] instr_offsets@[k] == table_offset_of(
                        le32(buf@, orders_end + 4 * k),
                    ),
                old(defects)@.is_prefix_of(defects@),
            decreases instr_num as usize - i,
        {
            let v = read_le32(buf, orders_end + 4 * i);
            if v <= BASE_SIZE as u32 {
                defects.push(LoadDefect::OutOfBoundsPtr);
                instr_offsets.push(None);
            } else {
                instr_offsets.push(Some(InFilePtr(v)));
            }
            i += 1;
        }

        let mut sample_offsets: Vec<Option<InFilePtr>> = Vec::new();
        let mut i: usize = 0;
        while i < sample_num as usize
            invariant
                i <= sample_num as usize,
                instr_end == 192 + le16(buf@, 0x20) as int + 4 * le16(buf@, 0x22) as int,
                instr_end + 4 * sample_num as int <= buf@.len(),
                sample_num == le16(buf@, 0x24),
                sample_offsets@.len() == i,
                forall|k: int|
                    0 <= k < i ==> #[trigger] sample_offsets@[k] == table_offset_of(
                        le32(buf@, instr_end + 4 * k),
                    ),
                old(defects)@.is_prefix_of(defects@),
            decreases sample_num as usize - i,
        {
            let v = read_le32(buf, instr_end + 4 * i);
            if v <= BASE_SIZE as u32 {
                defects.push(LoadDefect::OutOfBoundsPtr);
                sample_offsets.push(None);
            } else {
                sample_offsets.push(Some(InFilePtr(v)));
            }
            i += 1;
        }

        let mut pattern_offsets: Vec<Option<InFilePtr>> = Vec::new();
        let mut i: usize = 0;
        while i < pattern_num as usize
            invariant
                i <= pattern_num as usize,
                sample_end == 192 + le16(buf@, 0x20) as int + 4 * le16(buf@, 0x22) as int + 4
                    * le16(buf@, 0x24) as int,
                sample_end + 4 * pattern_num as int <= buf@.len(),
                pattern_num == le16(buf@, 0x26),
                pattern_offsets@.len() == i,
                forall|k: int|
                    0 <= k < i ==> #[trigger] pattern_offsets@[k] == pattern_offset_of(
                        le32(buf@, sample_end + 4 * k),
                    ),
                old(defects)@.is_prefix_of(defects@),
            decreases pattern_num as usize - i,
        {
            let v = read_le32(buf, sample_end + 4 * i);
            if v == 0 {
                pattern_offsets.push(None);
            } else if v <= BASE_SIZE as u32 {
                defects.push(LoadDefect::OutOfBoundsPtr);
                pattern_offsets.push(None);
            } else {
                pattern_offsets.push(Some(InFilePtr(v)));
            }
            i += 1;
        }

        Ok(
            ImpulseHeader {
                song_name,
                philight,
                created_with,
                compatible_with,
                flags,
                special,
                global_volume,
                mix_volume,
                initial_speed,
                initial_tempo,
                pan_separation,
                pitch_wheel_depth,
                message_length,
                message_offset,
                channel_pan,
                channel_volume,
                orders,
                instr_offsets,
                sample_offsets,
                pattern_offsets,
            },
        )
    }
}

/// Read the 16-bit little-endian word at `i`.
pub fn read_le16(buf: &[u8], i: usize) -> (r: u16)
    requires
        i + 2 <= buf@.len(),
    ensures
        r == le16(buf@, i as int),
{
    buf[i] as u16 + buf[i + 1] as u16 * 256
}

/// Read the 32-bit little-endian word at `i`.
pub fn read_le32(buf: &[u8], i: usize) -> (r: u32)
    requires
        i + 4 <= buf@.len(),
    ensures
        r == le32(buf@, i as int),
{
    buf[i] as u32 + buf[i + 1] as u32 * 0x100 + buf[i + 2] as u32 * 0x10000 + buf[i + 3] as u32
        * 0x1000000
}

/// If the first `n` bytes are non-zero and either the sequence ends or a
/// zero follows, then `n` is the length before the first zero byte.
pub proof fn lemma_nul_prefix(s: Seq<u8>, n: int)
    requires
        0 <= n <= s.len(),
        forall|k: int| 0 <= k < n ==> s[k] != 0u8,
        n < s.len() ==> s[n] == 0u8,
    ensures
        nul_prefix_len(s) == n,
    decreases n,
{
    if n == 0 {
    } else {
        lemma_nul_prefix(s.subrange(1, s.len() as int), n - 1);
    }
}

} // verus!
