//! The packed pattern data of the module format: one byte names a channel
//! and what follows, with per-channel masks and last-value memories.

use vstd::prelude::*;

use crate::file_format::err::{LoadDefect, LoadErr};
use crate::file_format::header::le16;
use crate::note_event::{Note, NoteCommand, NoteEvent, VolumeEffect};
use crate::pattern::{event_of, InPatternPosition, Pattern};

verus! {

/// Bytes before the packed data: length word, row count and four reserved
/// bytes.
pub const PATTERN_HEADER_SIZE: usize = 8;

/// The mask bits, lowest to highest: a note byte follows; an instrument
/// byte follows; a volume byte follows; an effect pair follows; and then
/// one bit each for replaying the remembered note, instrument, volume and
/// effect of the channel.
pub open spec fn mask_note(m: u8) -> bool {
    m % 2 >= 1
}

pub open spec fn mask_instr(m: u8) -> bool {
    m % 4 >= 2
}

pub open spec fn mask_vol(m: u8) -> bool {
    m % 8 >= 4
}

pub open spec fn mask_cmd(m: u8) -> bool {
    m % 16 >= 8
}

pub open spec fn mask_last_note(m: u8) -> bool {
    m % 32 >= 16
}

pub open spec fn mask_last_instr(m: u8) -> bool {
    m % 64 >= 32
}

pub open spec fn mask_last_vol(m: u8) -> bool {
    m % 128 >= 64
}

pub open spec fn mask_last_cmd(m: u8) -> bool {
    m >= 128
}

/// How many payload bytes one cell under mask `m` consumes.
pub open spec fn cell_width(m: u8) -> int {
    (if mask_note(m) {
        1int
    } else {
        0int
    }) + (if mask_instr(m) {
        1int
    } else {
        0int
    }) + (if mask_vol(m) {
        1int
    } else {
        0int
    }) + (if mask_cmd(m) {
        2int
    } else {
        0int
    })
}

/// A note byte; out-of-range bytes fall back to middle C.
pub open spec fn decoded_note(v: u8) -> Note {
    if v <= 199 {
        Note { value: v }
    } else {
        Note { value: 60u8 }
    }
}

/// A volume byte; bytes with no meaning fall back to unset.
pub open spec fn decoded_vol(v: u8) -> VolumeEffect {
    match VolumeEffect::spec_from_byte(v) {
        Ok(x) => x,
        Err(_) => VolumeEffect::Unset,
    }
}

/// An effect pair; unknown letters fall back to unset.
pub open spec fn decoded_cmd(a: u8, b: u8) -> NoteCommand {
    match NoteCommand::spec_from_bytes(a, b) {
        Ok(x) => x,
        Err(_) => NoteCommand::Unset,
    }
}

/// The channel's memory after a cell at `at` under mask `m`: every field
/// that was read replaces the remembered one.
pub open spec fn cell_memory(b: Seq<u8>, at: int, m: u8, last: NoteEvent) -> NoteEvent {
    let p_instr = at + (if mask_note(m) {
        1int
    } else {
        0int
    });
    let p_vol = p_instr + (if mask_instr(m) {
        1int
    } else {
        0int
    });
    let p_cmd = p_vol + (if mask_vol(m) {
        1int
    } else {
        0int
    });
    NoteEvent {
        note: if mask_note(m) {
            decoded_note(b[at])
        } else {
            last.note
        },
        sample_instr: if mask_instr(m) {
            b[p_instr]
        } else {
            last.sample_instr
        },
        vol: if mask_vol(m) {
            decoded_vol(b[p_vol])
        } else {
            last.vol
        },
        command: if mask_cmd(m) {
            decoded_cmd(b[p_cmd], b[p_cmd + 1])
        } else {
            last.command
        },
    }
}

/// The event a cell produces: each field comes from the bytes just read,
/// from the channel's memory when its replay bit is set, and stays at its
/// default otherwise.
pub open spec fn cell_event(b: Seq<u8>, at: int, m: u8, last: NoteEvent) -> NoteEvent {
    let mem = cell_memory(b, at, m, last);
    NoteEvent {
        note: if mask_note(m) || mask_last_note(m) {
            mem.note
        } else {
            Note { value: 60u8 }
        },
        sample_instr: if mask_instr(m) || mask_last_instr(m) {
            mem.sample_instr
        } else {
            0u8
        },
        vol: if mask_vol(m) || mask_last_vol(m) {
            mem.vol
        } else {
            VolumeEffect::Unset
        },
        command: if mask_cmd(m) || mask_last_cmd(m) {
            mem.command
        } else {
            NoteCommand::Unset
        },
    }
}

/// Decode one cell's payload at `at` under mask `m`. Returns the event,
/// the channel's new memory, and the position after the consumed bytes;
/// repaired bytes are reported in `defects`.
fn decode_cell(buf: &[u8], at: usize, m: u8, last: NoteEvent, defects: &mut Vec<LoadDefect>)
    -> (r: Result<(NoteEvent, NoteEvent, usize), LoadErr>)
    requires
        at <= buf@.len(),
    ensures
        old(defects)@.is_prefix_of(final(defects)@),
        at + cell_width(m) <= buf@.len() ==> (r matches Ok(t) && t.0 == cell_event(
            buf@,
            at as int,
            m,
            last,
        ) && t.1 == cell_memory(buf@, at as int, m, last) && t.2 == at + cell_width(m)),
        at + cell_width(m) > buf@.len() ==> r == Err::<(NoteEvent, NoteEvent, usize), LoadErr>(
            LoadErr::BufferTooShort,
        ),
    {
        let width: usize = (if m % 2 >= 1 {
            1usize
        } else {
            0usize
        }) + (if m % 4 >= 2 {
            1
        } else {
            0
        }) + (if m % 8 >= 4 {
            1
        } else {
            0
        }) + (if m % 16 >= 8 {
            2
        } else {
            0
        });
        if buf.len() - at < width {
            return Err(LoadErr::BufferTooShort);
        }
        let mut ptr = at;
        let mut mem = last;
        let mut event = NoteEvent {
            note: Note { value: 60 },
            sample_instr: 0,
            vol: VolumeEffect::Unset,
            command: NoteCommand::Unset,
        };

        if m % 2 >= 1 {
            let note = if buf[ptr] <= 199 {
                Note { value: buf[ptr] }
            } else {
                defects.push(LoadDefect::OutOfBoundsValue);
                Note { value: 60 }
            };
            ptr += 1;
            event.note = note;
            mem.note = note;
        }
        if m % 4 >= 2 {
            let instrument = buf[ptr];
            ptr += 1;
            event.sample_instr = instrument;
            mem.sample_instr = instrument;
        }
        if m % 8 >= 4 {
            let vol_pan = match VolumeEffect::try_from(buf[ptr]) {
                Ok(v) => v,
                Err(_) => {
                    defects.push(LoadDefect::OutOfBoundsValue);
                    VolumeEffect::Unset
                },
            };
            ptr += 1;
            event.vol = vol_pan;
            mem.vol = vol_pan;
        }
        if m % 16 >= 8 {
            let cmd = match NoteCommand::try_from((buf[ptr], buf[ptr + 1])) {
                Ok(cmd) => cmd,
                Err(_) => {
                    defects.push(LoadDefect::UnknownEffect);
                    NoteCommand::Unset
                },
            };
            ptr += 2;
            event.command = cmd;
            mem.command = cmd;
        }

        if m % 32 >= 16 {
            event.note = mem.note;
        }
        if m % 64 >= 32 {
            event.sample_instr = mem.sample_instr;
        }
        if m % 128 >= 64 {
            event.vol = mem.vol;
        }
        if m >= 128 {
            event.command = mem.command;
        }

        Ok((event, mem, ptr))
    }

/// The masks the decoder starts with: all zero.
pub open spec fn init_masks() -> Seq<u8> {
    Seq::new(crate::MAX_CHANNELS as nat, |i: int| 0u8)
}

/// The per-channel memories the decoder starts with: default events.
pub open spec fn init_memories() -> Seq<NoteEvent> {
    Seq::new(
        crate::MAX_CHANNELS as nat,
        |i: int|
            NoteEvent {
                note: Note { value: 60u8 },
                sample_instr: 0u8,
                vol: VolumeEffect::Unset,
                command: NoteCommand::Unset,
            },
    )
}

/// The last event a cell list wrote at `q`, if any.
pub open spec fn last_cell(
    cells: Seq<(InPatternPosition, NoteEvent)>,
    q: InPatternPosition,
) -> Option<NoteEvent>
    decreases cells.len(),
{
    if cells.len() == 0 {
        None
    } else if cells.last().0 == q {
        Some(cells.last().1)
    } else {
        last_cell(cells.drop_last(), q)
    }
}

/// Appending one cell only changes the lookup at its position.
proof fn lemma_last_cell_push(
    cells: Seq<(InPatternPosition, NoteEvent)>,
    c: (InPatternPosition, NoteEvent),
    q: InPatternPosition,
)
    ensures
        last_cell(cells.push(c), q) == (if c.0 == q {
            Some(c.1)
        } else {
            last_cell(cells, q)
        }),
{
    assert(cells.push(c).drop_last() =~= cells);
    assert(cells.push(c).last() == c);
}

/// The whole decode walk over the packed bytes: the cells written, in
/// order, and the row the walk ends on; `None` when the bytes run out
/// before the claimed length does. One step mirrors one loop turn: a zero
/// byte ends the row, any other byte names a channel, optionally refreshes
/// its mask, and reads one cell under it.
pub open spec fn decode_walk(
    b: Seq<u8>,
    total: int,
    ptr: int,
    row: u16,
    rows: u16,
    masks: Seq<u8>,
    mems: Seq<NoteEvent>,
) -> Option<(Seq<(InPatternPosition, NoteEvent)>, u16)>
    decreases total + 7 - ptr,
{
    if row >= rows || ptr >= total {
        Some((Seq::empty(), row))
    } else if ptr >= b.len() {
        None
    } else {
        let cv = b[ptr];
        if cv == 0 {
            decode_walk(b, total, ptr + 1, (row + 1) as u16, rows, masks, mems)
        } else {
            let ch = ((cv - 1) as u8 % 64) as int;
            if cv >= 128 && ptr + 1 >= b.len() {
                None
            } else {
                let mask = if cv >= 128 {
                    b[ptr + 1]
                } else {
                    masks[ch]
                };
                let base = ptr + 1 + (if cv >= 128 {
                    1int
                } else {
                    0int
                });
                if base + cell_width(mask) > b.len() {
                    None
                } else {
                    let ev = cell_event(b, base, mask, mems[ch]);
                    let mem = cell_memory(b, base, mask, mems[ch]);
                    let next_masks = if cv >= 128 {
                        masks.update(ch, mask)
                    } else {
                        masks
                    };
                    match decode_walk(
                        b,
                        total,
                        base + cell_width(mask),
                        row,
                        rows,
                        next_masks,
                        mems.update(ch, mem),
                    ) {
                        Some(rest) => Some(
                            (
                                seq![
                                    (
                                        InPatternPosition { row, channel: (cv - 1) as u8 % 64 },
                                        ev,
                                    ),
                                ] + rest.0,
                                rest.1,
                            ),
                        ),
                        None => None,
                    }
                }
            }
        }
    }
}

/// Decode one packed pattern. The stored byte length and row count bound
/// the walk: a zero byte ends a row, any other byte names a channel whose
/// cell `decode_cell` reads. A row count outside 32 through 200 or a
/// length claim at or over 64000 is refused, and data that ends before the
/// last row does not produce a half-decoded pattern. The result holds
/// exactly what the decode walk writes, last write per cell winning.
pub fn load_pattern(buf: &[u8], defects: &mut Vec<LoadDefect>) -> (r: Result<Pattern, LoadErr>)
    ensures
        old(defects)@.is_prefix_of(final(defects)@),
        buf@.len() < 8 ==> r == Err::<Pattern, LoadErr>(LoadErr::BufferTooShort),
        buf@.len() >= 8 && le16(buf@, 0) + 8 >= 64000 ==> r == Err::<Pattern, LoadErr>(
            LoadErr::Invalid,
        ),
        buf@.len() >= 8 && le16(buf@, 0) + 8 < 64000 && !(32 <= le16(buf@, 2) <= 200) ==> r
            == Err::<Pattern, LoadErr>(LoadErr::Invalid),
        r matches Ok(p) ==> p.wf() && p.spec_rows() == le16(buf@, 2),
        (buf@.len() >= 8 && le16(buf@, 0) + 8 < 64000 && 32 <= le16(buf@, 2) <= 200) ==> (
        match decode_walk(
            buf@,
            le16(buf@, 0) + 8,
            8,
            0u16,
            le16(buf@, 2),
            init_masks(),
            init_memories(),
        ) {
            Some(out) => if out.1 == le16(buf@, 2) {
                r matches Ok(p) && forall|q: InPatternPosition|
                    #[trigger] event_of(p.events(), q) == last_cell(out.0, q)
            } else {
                r == Err::<Pattern, LoadErr>(LoadErr::BufferTooShort)
            },
            None => r == Err::<Pattern, LoadErr>(LoadErr::BufferTooShort),
        }),
    {
        if buf.len() < PATTERN_HEADER_SIZE {
            return Err(LoadErr::BufferTooShort);
        }
        let data_len = crate::file_format::header::read_le16(buf, 0);
        let total_len: usize = data_len as usize + PATTERN_HEADER_SIZE;
        if total_len >= 64000 {
            return Err(LoadErr::Invalid);
        }
        let num_rows = crate::file_format::header::read_le16(buf, 2);
        if num_rows < 32 || num_rows > 200 {
            return Err(LoadErr::Invalid);
        }

        let mut pattern = Pattern::new(num_rows);
        let mut row_num: u16 = 0;
        let mut read_pointer: usize = PATTERN_HEADER_SIZE;

        let mut last_mask: Vec<u8> = Vec::new();
        let mut last_event: Vec<NoteEvent> = Vec::new();
        let mut c: usize = 0;
        while c < crate::MAX_CHANNELS
            invariant
                c <= crate::MAX_CHANNELS,
                last_mask@.len() == c,
                last_event@.len() == c,
                forall|k: int| 0 <= k < c ==> #[trigger] last_mask@[k] == 0u8,
                forall|k: int|
                    0 <= k < c ==> #[trigger] last_event@[k] == (NoteEvent {
                        note: Note { value: 60u8 },
                        sample_instr: 0u8,
                        vol: VolumeEffect::Unset,
                        command: NoteCommand::Unset,
                    }),
            decreases crate::MAX_CHANNELS - c,
        {
            last_mask.push(0);
            last_event.push(
                NoteEvent {
                    note: Note { value: 60 },
                    sample_instr: 0,
                    vol: VolumeEffect::Unset,
                    command: NoteCommand::Unset,
                },
            );
            c += 1;
        }
        proof {
            assert(last_mask@ =~= init_masks());
            assert(last_event@ =~= init_memories());
        }
        let ghost mut cells: Seq<(InPatternPosition, NoteEvent)> = Seq::empty();
        proof {
            let w0 = decode_walk(
                buf@,
                total_len as int,
                8,
                0u16,
                num_rows,
                init_masks(),
                init_memories(),
            );
            match w0 {
                Some(rest) => {
                    assert(cells + rest.0 =~= rest.0);
                },
                None => {},
            }
        }

        while row_num < num_rows && read_pointer < total_len
            invariant
                buf@.len() >= 8,
                total_len == le16(buf@, 0) + 8,
                num_rows == le16(buf@, 2),
                pattern.wf(),
                pattern.spec_rows() == num_rows,
                32 <= num_rows <= 200,
                row_num <= num_rows,
                read_pointer >= PATTERN_HEADER_SIZE,
                read_pointer <= total_len + 7,
                total_len < 64000,
                last_mask@.len() == crate::MAX_CHANNELS,
                last_event@.len() == crate::MAX_CHANNELS,
                old(defects)@.is_prefix_of(defects@),
                ({
                    let w = decode_walk(
                        buf@,
                        total_len as int,
                        read_pointer as int,
                        row_num,
                        num_rows,
                        last_mask@,
                        last_event@,
                    );
                    &&& (w matches Some(rest) ==> decode_walk(
                        buf@,
                        total_len as int,
                        8,
                        0u16,
                        num_rows,
                        init_masks(),
                        init_memories(),
                    ) == Some::<(Seq<(InPatternPosition, NoteEvent)>, u16)>(
                        (cells + rest.0, rest.1),
                    ))
                    &&& (w is None ==> decode_walk(
                        buf@,
                        total_len as int,
                        8,
                        0u16,
                        num_rows,
                        init_masks(),
                        init_memories(),
                    ) is None)
                }),
                forall|q: InPatternPosition|
                    #[trigger] event_of(pattern.events(), q) == last_cell(cells, q),
            decreases total_len + 7 - read_pointer,
        {
            let ghost ptr0 = read_pointer as int;
            let ghost row0 = row_num;
            let ghost masks0 = last_mask@;
            let ghost mems0 = last_event@;
            if read_pointer >= buf.len() {
                proof {
                    assert(decode_walk(
                        buf@,
                        total_len as int,
                        ptr0,
                        row0,
                        num_rows,
                        masks0,
                        mems0,
                    ) is None);
                }
                return Err(LoadErr::BufferTooShort);
            }
            let channel_variable = buf[read_pointer];
            read_pointer += 1;

            if channel_variable == 0 {
                row_num += 1;
                proof {
                    assert(decode_walk(
                        buf@,
                        total_len as int,
                        ptr0,
                        row0,
                        num_rows,
                        masks0,
                        mems0,
                    ) == decode_walk(
                        buf@,
                        total_len as int,
                        ptr0 + 1,
                        (row0 + 1) as u16,
                        num_rows,
                        masks0,
                        mems0,
                    ));
                }
                continue ;
            }

            let channel: u8 = (channel_variable - 1) % 64;
            let channel_id: usize = channel as usize;

            let maskvar = if channel_variable >= 128 {
                if read_pointer >= buf.len() {
                    proof {
                        assert(decode_walk(
                            buf@,
                            total_len as int,
                            ptr0,
                            row0,
                            num_rows,
                            masks0,
                            mems0,
                        ) is None);
                    }
                    return Err(LoadErr::BufferTooShort);
                }
                let val = buf[read_pointer];
                read_pointer += 1;
                last_mask.set(channel_id, val);
                val
            } else {
                last_mask[channel_id]
            };

            let (event, memory, after) = match decode_cell(
                buf,
                read_pointer,
                maskvar,
                last_event[channel_id],
                defects,
            ) {
                Ok(t) => t,
                Err(e) => {
                    proof {
                        assert(decode_walk(
                            buf@,
                            total_len as int,
                            ptr0,
                            row0,
                            num_rows,
                            masks0,
                            mems0,
                        ) is None);
                    }
                    return Err(e);
                },
            };
            last_event.set(channel_id, memory);
            read_pointer = after;

            let position = InPatternPosition { row: row_num, channel };
            pattern.set_event(position, event);
            proof {
                let b = buf@;
                let total = total_len as int;
                let ch = channel as int;
                let base = ptr0 + 1 + (if channel_variable >= 128 {
                    1int
                } else {
                    0int
                });
                assert(last_mask@ == (if channel_variable >= 128 {
                    masks0.update(ch, maskvar)
                } else {
                    masks0
                }));
                assert(last_event@ == mems0.update(ch, memory));
                let wcur = decode_walk(b, total, ptr0, row0, num_rows, masks0, mems0);
                let wnext = decode_walk(
                    b,
                    total,
                    read_pointer as int,
                    row_num,
                    num_rows,
                    last_mask@,
                    last_event@,
                );
                assert(wcur == (match wnext {
                    Some(rest) => Some((seq![(position, event)] + rest.0, rest.1)),
                    None => None,
                }));
                let ghost cells0 = cells;
                cells = cells.push((position, event));
                match wnext {
                    Some(rest) => {
                        assert(cells + rest.0 =~= cells0 + (seq![(position, event)] + rest.0));
                    },
                    None => {},
                }
                assert forall|q: InPatternPosition| #[trigger] event_of(pattern.events(), q)
                    == last_cell(cells, q) by {
                    lemma_last_cell_push(cells0, (position, event), q);
                }
            }
        }

        if row_num == num_rows {
            Ok(pattern)
        } else {
            Err(LoadErr::BufferTooShort)
        }
    }

} // verus!
