use vstd::prelude::*;

verus! {

/// One maneuver intent as it arrives on the wire: a ship index and the IEEE-754
/// single-precision bit patterns of the turn angle and the speed.
#[derive(Clone, Copy, Debug, PartialEq, Eq, Structural)]
pub struct WireManeuver {
    pub ship_id: u32,
    pub angle_bits: u32,
    pub speed_bits: u32,
}

/// A decoded request.
pub enum GameInstruction {
    JoinQueue { game_id: u64 },
    LeaveQueue {},
    CloseGame { game_id: u64 },
    CommitManeuvers { game_id: u64, maneuver_data: Vec<WireManeuver> },
    FireWeapon { game_id: u64, ship_id: u32, target_id: u32 },
    Upgrade { game_id: u64, ship_id: u32, upgrade_id: u32 },
    Skip { game_id: u64, ship_id: u32 },
}

/// The value of a [`GameInstruction`], with its list as a sequence.
pub enum InstructionView {
    JoinQueue { game_id: u64 },
    LeaveQueue,
    CloseGame { game_id: u64 },
    CommitManeuvers { game_id: u64, maneuver_data: Seq<WireManeuver> },
    FireWeapon { game_id: u64, ship_id: u32, target_id: u32 },
    Upgrade { game_id: u64, ship_id: u32, upgrade_id: u32 },
    Skip { game_id: u64, ship_id: u32 },
}

impl View for GameInstruction {
    type V = InstructionView;

    open spec fn view(&self) -> InstructionView {
        match self {
            GameInstruction::JoinQueue { game_id } => InstructionView::JoinQueue { game_id: *game_id },
            GameInstruction::LeaveQueue {} => InstructionView::LeaveQueue,
            GameInstruction::CloseGame { game_id } => InstructionView::CloseGame { game_id: *game_id },
            GameInstruction::CommitManeuvers { game_id, maneuver_data } => InstructionView::CommitManeuvers {
                game_id: *game_id,
                maneuver_data: maneuver_data@,
            },
            GameInstruction::FireWeapon { game_id, ship_id, target_id } => InstructionView::FireWeapon {
                game_id: *game_id,
                ship_id: *ship_id,
                target_id: *target_id,
            },
            GameInstruction::Upgrade { game_id, ship_id, upgrade_id } => InstructionView::Upgrade {
                game_id: *game_id,
                ship_id: *ship_id,
                upgrade_id: *upgrade_id,
            },
            GameInstruction::Skip { game_id, ship_id } => InstructionView::Skip {
                game_id: *game_id,
                ship_id: *ship_id,
            },
        }
    }
}

pub const TAG_JOIN_QUEUE: u8 = 11;
pub const TAG_LEAVE_QUEUE: u8 = 12;
pub const TAG_CLOSE_GAME: u8 = 21;
pub const TAG_UPGRADE: u8 = 22;
pub const TAG_COMMIT_MANEUVERS: u8 = 23;
pub const TAG_FIRE_WEAPON: u8 = 24;
pub const TAG_SKIP: u8 = 25;

/// The little-endian 32-bit integer in the four bytes at `at`.
pub open spec fn u32_le(b: Seq<u8>, at: int) -> u32 {
    (b[at] + 0x100 * b[at + 1] + 0x1_0000 * b[at + 2] + 0x100_0000 * b[at + 3]) as u32
}

/// The little-endian 64-bit integer in the eight bytes at `at`.
pub open spec fn u64_le(b: Seq<u8>, at: int) -> u64 {
    (u32_le(b, at) + 0x1_0000_0000 * u32_le(b, at + 4)) as u64
}

/// Whether a single-precision bit pattern is a NaN: all exponent bits set and a
/// non-zero fraction.
pub open spec fn is_nan_bits(bits: u32) -> bool {
    bits & 0x7f80_0000 == 0x7f80_0000 && bits & 0x007f_ffff != 0
}

/// The `i`-th maneuver entry of a commitment, whose entries start at byte 13.
pub open spec fn wire_entry(b: Seq<u8>, i: int) -> WireManeuver {
    WireManeuver {
        ship_id: u32_le(b, 13 + 12 * i),
        angle_bits: u32_le(b, 17 + 12 * i),
        speed_bits: u32_le(b, 21 + 12 * i),
    }
}

/// The first `count` maneuver entries of a commitment.
pub open spec fn wire_entries(b: Seq<u8>, count: nat) -> Seq<WireManeuver> {
    Seq::new(count, |i: int| wire_entry(b, i))
}

/// What a commitment request encodes: its game id, its entry count (4 bytes), then
/// 12 bytes per entry and nothing more; an entry whose angle or speed is a NaN makes
/// it invalid.
pub open spec fn decode_commit(b: Seq<u8>) -> Option<InstructionView> {
    if b.len() >= 13 && b.len() == 13 + 12 * u32_le(b, 9) && (forall|i: int|
        0 <= i < u32_le(b, 9) ==> !is_nan_bits(#[trigger] wire_entry(b, i).angle_bits)
            && !is_nan_bits(wire_entry(b, i).speed_bits)) {
        Some(
            InstructionView::CommitManeuvers {
                game_id: u64_le(b, 1),
                maneuver_data: wire_entries(b, u32_le(b, 9) as nat),
            },
        )
    } else {
        None
    }
}

/// What a request encodes: a tag byte, then the fields of its variant in order,
/// integers little-endian, with no byte left over (a leave request ignores what
/// follows its tag). A commitment holds its entry count (4 bytes), then 12 bytes
/// per entry; an entry whose angle or speed is a NaN makes it invalid.
pub open spec fn decode(b: Seq<u8>) -> Option<InstructionView> {
    if b.len() == 0 {
        None
    } else if b[0] == TAG_JOIN_QUEUE {
        if b.len() == 9 {
            Some(InstructionView::JoinQueue { game_id: u64_le(b, 1) })
        } else {
            None
        }
    } else if b[0] == TAG_LEAVE_QUEUE {
        Some(InstructionView::LeaveQueue)
    } else if b[0] == TAG_CLOSE_GAME {
        if b.len() == 9 {
            Some(InstructionView::CloseGame { game_id: u64_le(b, 1) })
        } else {
            None
        }
    } else if b[0] == TAG_UPGRADE {
        if b.len() == 17 {
            Some(
                InstructionView::Upgrade {
                    game_id: u64_le(b, 1),
                    ship_id: u32_le(b, 9),
                    upgrade_id: u32_le(b, 13),
                },
            )
        } else {
            None
        }
    } else if b[0] == TAG_COMMIT_MANEUVERS {
        decode_commit(b)
    } else if b[0] == TAG_FIRE_WEAPON {
        if b.len() == 17 {
            Some(
                InstructionView::FireWeapon {
                    game_id: u64_le(b, 1),
                    ship_id: u32_le(b, 9),
                    target_id: u32_le(b, 13),
                },
            )
        } else {
            None
        }
    } else if b[0] == TAG_SKIP {
        if b.len() == 13 {
            Some(InstructionView::Skip { game_id: u64_le(b, 1), ship_id: u32_le(b, 9) })
        } else {
            None
        }
    } else {
        None
    }
}

fn read_u32(b: &[u8], at: usize) -> (r: u32)
    requires
        at + 4 <= b.len(),
    ensures
        r == u32_le(b@, at as int),
{
    b[at] as u32 + 0x100 * (b[at + 1] as u32) + 0x1_0000 * (b[at + 2] as u32) + 0x100_0000 * (b[at + 3] as u32)
}

fn read_u64(b: &[u8], at: usize) -> (r: u64)
    requires
        at + 8 <= b.len(),
    ensures
        r == u64_le(b@, at as int),
{
    read_u32(b, at) as u64 + 0x1_0000_0000 * (read_u32(b, at + 4) as u64)
}

fn nan_bits(bits: u32) -> (r: bool)
    ensures
        r == is_nan_bits(bits),
{
    bits & 0x7f80_0000 == 0x7f80_0000 && bits & 0x007f_ffff != 0
}

fn read_entries(input: &[u8], count: u32) -> (r: Option<Vec<WireManeuver>>)
    requires
        input@.len() == 13 + 12 * count,
    ensures
        match r {
            Some(v) => v@ == wire_entries(input@, count as nat) && (forall|i: int|
                0 <= i < count ==> !is_nan_bits(#[trigger] wire_entry(input@, i).angle_bits)
                    && !is_nan_bits(wire_entry(input@, i).speed_bits)),
            None => exists|i: int|
                0 <= i < count && (is_nan_bits(#[trigger] wire_entry(input@, i).angle_bits)
                    || is_nan_bits(wire_entry(input@, i).speed_bits)),
        },
{
    let mut entries: Vec<WireManeuver> = Vec::new();
    let n = input.len();
    let mut i: u32 = 0;
    while i < count
        invariant
            i <= count,
            n == input@.len(),
            input@.len() == 13 + 12 * count,
            entries@ == Seq::new(i as nat, |j: int| wire_entry(input@, j)),
            forall|j: int|
                0 <= j < i ==> !is_nan_bits(#[trigger] wire_entry(input@, j).angle_bits)
                    && !is_nan_bits(wire_entry(input@, j).speed_bits),
        decreases count - i,
    {
        let at: usize = 13 + 12 * i as usize;
        let entry = WireManeuver {
            ship_id: read_u32(input, at),
            angle_bits: read_u32(input, at + 4),
            speed_bits: read_u32(input, at + 8),
        };
        proof {
            assert(entry == wire_entry(input@, i as int));
        }
        if nan_bits(entry.angle_bits) || nan_bits(entry.speed_bits) {
            return None;
        }
        proof {
            assert(!is_nan_bits(wire_entry(input@, i as int).angle_bits));
            assert(!is_nan_bits(wire_entry(input@, i as int).speed_bits));
        }
        entries.push(entry);
        i = i + 1;
        proof {
            assert(entries@ =~= Seq::new(i as nat, |j: int| wire_entry(input@, j)));
        }
    }
    proof {
        assert(entries@ =~= wire_entries(input@, count as nat));
    }
    Some(entries)
}

fn unpack_commit(input: &[u8]) -> (r: Option<GameInstruction>)
    requires
        input@.len() >= 1,
    ensures
        match r {
            Some(ins) => decode_commit(input@) == Some(ins@),
            None => decode_commit(input@) == None::<InstructionView>,
        },
{
    if input.len() < 13 {
        return None;
    }
    let count = read_u32(input, 9);
    if input.len() as u64 != 13 + 12 * (count as u64) {
        return None;
    }
    match read_entries(input, count) {
        Some(entries) => Some(
            GameInstruction::CommitManeuvers { game_id: read_u64(input, 1), maneuver_data: entries },
        ),
        None => None,
    }
}

impl GameInstruction {
    /// Decodes a request (see `decode`); `None` when the bytes encode no request.
    pub fn unpack(input: &[u8]) -> (r: Option<GameInstruction>)
        ensures
            match r {
                Some(ins) => decode(input@) == Some(ins@),
                None => decode(input@) == None::<InstructionView>,
            },
    {
        if input.len() == 0 {
            return None;
        }
        let variant = input[0];
        if variant == TAG_JOIN_QUEUE {
            if input.len() == 9 {
                Some(GameInstruction::JoinQueue { game_id: read_u64(input, 1) })
            } else {
                None
            }
        } else if variant == TAG_LEAVE_QUEUE {
            Some(GameInstruction::LeaveQueue {  })
        } else if variant == TAG_CLOSE_GAME {
            if input.len() == 9 {
                Some(GameInstruction::CloseGame { game_id: read_u64(input, 1) })
            } else {
                None
            }
        } else if variant == TAG_UPGRADE {
            if input.len() == 17 {
                Some(
                    GameInstruction::Upgrade {
                        game_id: read_u64(input, 1),
                        ship_id: read_u32(input, 9),
                        upgrade_id: read_u32(input, 13),
                    },
                )
            } else {
                None
            }
        } else if variant == TAG_COMMIT_MANEUVERS {
            unpack_commit(input)
        } else if variant == TAG_FIRE_WEAPON {
            if input.len() == 17 {
                Some(
                    GameInstruction::FireWeapon {
                        game_id: read_u64(input, 1),
                        ship_id: read_u32(input, 9),
                        target_id: read_u32(input, 13),
                    },
                )
            } else {
                None
            }
        } else if variant == TAG_SKIP {
            if input.len() == 13 {
                Some(GameInstruction::Skip { game_id: read_u64(input, 1), ship_id: read_u32(input, 9) })
            } else {
                None
            }
        } else {
            None
        }
    }
}

} // verus!
