use crate::definitions::{DefinitionMap, with_attr};
use crate::library::{Attribute, Command};
use crate::parser::{decode_at, le16, le32, read_le16, read_le32, Parser};
use crate::platform::Game;
use crate::types::{OPCODE_MASK, ParamModel, ScriptType, masked};
use vstd::prelude::*;

verus! {

/// Index of the segment that holds the missions table.
pub const MISSIONS_SEG: usize = 2;

/// Header reading stops after this many segments: more than six already make
/// the header invalid.
pub const MAX_SEGMENTS: usize = 7;

/// A chunk of the script file.
pub struct Script {
    pub chunk: Vec<u8>,
    pub script_type: ScriptType,
    /// Added to chunk-relative positions to give instruction offsets.
    pub base_offset: u32,
}

/// What a chunk denotes.
pub struct ScriptModel {
    pub chunk: Seq<u8>,
    pub script_type: ScriptType,
    pub base_offset: u32,
}

impl View for Script {
    type V = ScriptModel;

    open spec fn view(&self) -> ScriptModel {
        ScriptModel { chunk: self.chunk@, script_type: self.script_type, base_offset: self.base_offset }
    }
}

impl Script {
    pub fn new(chunk: Vec<u8>, script_type: ScriptType, base_offset: u32) -> (r: Self)
        ensures
            r@ == (ScriptModel { chunk: chunk@, script_type, base_offset }),
    {
        Script { chunk, script_type, base_offset }
    }
}

/// Why a script file's layout could not be recovered.
#[derive(Debug, Clone, Copy, PartialEq, Eq, Structural)]
pub enum LoadError {
    /// One or two header segments: no missions table.
    NoMissionsSegment,
    /// A number of header segments other than 0, 3 or 6.
    InvalidHeaderStructure,
    /// The missions table is shorter than its own fields say.
    TruncatedMissionsTable,
    /// A segment, MAIN or a mission lies outside the file.
    OutOfBounds,
}

impl LoadError {
    /// The message that reports the error.
    pub fn message(&self) -> (r: String)
        ensures
            r@ == match self {
                LoadError::NoMissionsSegment => "No missions segment found"@,
                LoadError::InvalidHeaderStructure => "Invalid header structure"@,
                LoadError::TruncatedMissionsTable => "Truncated missions table"@,
                LoadError::OutOfBounds => "Segment outside the file"@,
            },
    {
        match self {
            LoadError::NoMissionsSegment => String::from_str("No missions segment found"),
            LoadError::InvalidHeaderStructure => String::from_str("Invalid header structure"),
            LoadError::TruncatedMissionsTable => String::from_str("Truncated missions table"),
            LoadError::OutOfBounds => String::from_str("Segment outside the file"),
        }
    }
}

/// The header instruction at `p`, if it is one: a segment command whose
/// first operand is a positive destination. Gives where it ends and the
/// destination.
pub open spec fn header_at(game: Game, defs: Map<u16, Command>, b: Seq<u8>, seg_op: u16, p: int) -> Option<
    (int, int),
> {
    match decode_at(game, defs, b, p, 0) {
        Some((inst, q)) => if masked(inst.opcode) == seg_op && inst.params.len() > 0 {
            match inst.params[0] {
                ParamModel::OFFSET(d) => if d > 0 {
                    Some((q, d as int))
                } else {
                    None
                },
                _ => None,
            }
        } else {
            None
        },
        None => None,
    }
}

/// The segments from the header at `p` on, as (end of the header
/// instruction, destination) pairs, following each destination; `n`
/// segments were read before.
pub open spec fn header_chain(
    game: Game,
    defs: Map<u16, Command>,
    b: Seq<u8>,
    seg_op: u16,
    p: int,
    n: int,
) -> Seq<(u32, u32)>
    decreases MAX_SEGMENTS - n,
{
    if n >= MAX_SEGMENTS {
        Seq::empty()
    } else {
        match header_at(game, defs, b, seg_op, p) {
            Some((q, d)) => seq![(q as u32, d as u32)] + header_chain(game, defs, b, seg_op, d, n + 1),
            None => Seq::empty(),
        }
    }
}

/// The header segments of a file, read with the first segment command of the
/// dictionary; none where the dictionary has no such command.
pub open spec fn segments(game: Game, defs: Map<u16, Command>, keys: Seq<u16>, b: Seq<u8>) -> Seq<
    (u32, u32),
> {
    let ops = with_attr(defs, keys, Attribute::Segment);
    if ops.len() == 0 {
        Seq::empty()
    } else {
        header_chain(game, defs, b, ops[0], 0, 0)
    }
}

/// Reads the header segments of a script file.
pub fn get_segments(chunk: &Vec<u8>, game: Game, defs: &DefinitionMap) -> (r: Vec<(u32, u32)>)
    requires
        defs.wf(),
        chunk@.len() <= u32::MAX,
    ensures
        r@ == segments(game, defs@, defs.keys(), chunk@),
{
    let mut res: Vec<(u32, u32)> = Vec::new();
    let seg_op = match defs.find_by_attr(Attribute::Segment) {
        Some(op) => op,
        None => {
            return res;
        },
    };
    let ghost all = header_chain(game, defs@, chunk@, seg_op, 0, 0);
    let mut parser = Parser::new(chunk, defs, 0, game);
    let mut p: u32 = 0;
    let mut done = false;
    while !done && res.len() < MAX_SEGMENTS
        invariant
            parser.wf(),
            parser.chunk == chunk,
            parser.definitions == defs,
            parser.base_offset == 0,
            parser.game == game,
            res@.len() <= MAX_SEGMENTS,
            all == res@ + (if done {
                Seq::empty()
            } else {
                header_chain(game, defs@, chunk@, seg_op, p as int, res@.len() as int)
            }),
        decreases MAX_SEGMENTS - res@.len() + (if done { 0int } else { 1int }),
    {
        parser.set_position(p);
        let ghost n = res@.len() as int;
        let found = match parser.try_next() {
            Some(inst) => {
                if inst.opcode & OPCODE_MASK == seg_op && inst.params.len() > 0 {
                    match inst.params[0].to_offset() {
                        Some(d) => if d > 0 {
                            Some(d as u32)
                        } else {
                            None
                        },
                        None => None,
                    }
                } else {
                    None
                }
            },
            None => None,
        };
        proof {
            assert(forall|op: u16| op & 0x7FFF == op % 0x8000) by (bit_vector);
        }
        match found {
            Some(d) => {
                assert(header_at(game, defs@, chunk@, seg_op, p as int) == Some(
                    (parser.position as int, d as int),
                ));
                let ghost before = res@;
                res.push((parser.position, d));
                assert(res@ + header_chain(game, defs@, chunk@, seg_op, d as int, n + 1) =~= before
                    + header_chain(game, defs@, chunk@, seg_op, p as int, n));
                p = d;
            },
            None => {
                assert(header_at(game, defs@, chunk@, seg_op, p as int) is None);
                assert(res@ + Seq::empty() =~= res@);
                done = true;
            },
        }
    }
    proof {
        if !done {
            assert(res@ + Seq::empty() =~= res@);
        }
    }
    res
}

/// The number of missions a table at `off` lists.
pub open spec fn num_missions(b: Seq<u8>, off: int) -> int {
    le16(b, off + 9)
}

/// Whether the table at `off`, within `[off, end)`, holds all its fields:
/// a tag byte, the end of MAIN, the largest mission size, the mission counts
/// and one start offset per mission.
pub open spec fn table_complete(b: Seq<u8>, off: int, end: int) -> bool {
    end - off >= 13 && end - off >= 13 + 4 * num_missions(b, off)
}

/// The end of MAIN that the table at `off` gives.
pub open spec fn main_size(b: Seq<u8>, off: int) -> int {
    le32(b, off + 1)
}

/// The start of mission `i` that the table at `off` gives.
pub open spec fn mission_start(b: Seq<u8>, off: int, i: int) -> int {
    le32(b, off + 13 + 4 * i)
}

/// The end of mission `i`: the next mission's start, or the end of the file.
pub open spec fn mission_end(b: Seq<u8>, off: int, i: int) -> int {
    if i + 1 >= num_missions(b, off) {
        b.len() as int
    } else {
        mission_start(b, off, i + 1)
    }
}

/// Every non-empty mission lies within the file.
pub open spec fn missions_in_file(b: Seq<u8>, off: int) -> bool {
    forall|i: int|
        0 <= i < num_missions(b, off) && mission_start(b, off, i) < #[trigger] mission_end(b, off, i)
            ==> mission_end(b, off, i) <= b.len()
}

/// The mission chunks `i..` of the table at `off`; empty missions are left out.
pub open spec fn mission_scripts(b: Seq<u8>, off: int, i: int) -> Seq<ScriptModel>
    decreases num_missions(b, off) - i,
{
    if i < 0 || i >= num_missions(b, off) {
        Seq::empty()
    } else {
        let (s, e) = (mission_start(b, off, i), mission_end(b, off, i));
        (if s < e {
            seq![ScriptModel { chunk: b.subrange(s, e), script_type: ScriptType::MISSION, base_offset: 0 }]
        } else {
            Seq::empty()
        }) + mission_scripts(b, off, i + 1)
    }
}

/// The chunks of a script file, or why its layout cannot be recovered.
pub open spec fn layout(game: Game, defs: Map<u16, Command>, keys: Seq<u16>, b: Seq<u8>) -> Result<
    Seq<ScriptModel>,
    LoadError,
> {
    let segs = segments(game, defs, keys, b);
    if segs.len() == 0 {
        Ok(seq![ScriptModel { chunk: b, script_type: ScriptType::EXTERNAL, base_offset: 0 }])
    } else if segs.len() < 3 {
        Err(LoadError::NoMissionsSegment)
    } else if segs.len() != 3 && segs.len() != 6 {
        Err(LoadError::InvalidHeaderStructure)
    } else {
        let off = segs[MISSIONS_SEG as int].0 as int;
        let end = segs[MISSIONS_SEG as int].1 as int;
        let main_start = segs.last().1 as int;
        if !(off <= end <= b.len()) {
            Err(LoadError::OutOfBounds)
        } else if !table_complete(b, off, end) {
            Err(LoadError::TruncatedMissionsTable)
        } else if !(main_start <= main_size(b, off) <= b.len()) || !missions_in_file(b, off) {
            Err(LoadError::OutOfBounds)
        } else {
            Ok(
                seq![ScriptModel { chunk: b.subrange(main_start, main_size(b, off)), script_type: ScriptType::MAIN, base_offset: main_start as u32 }]
                    + mission_scripts(b, off, 0),
            )
        }
    }
}

/// A copy of `b[start..end]`.
fn extract(b: &Vec<u8>, start: usize, end: usize) -> (r: Vec<u8>)
    requires
        start <= end <= b@.len(),
    ensures
        r@ == b@.subrange(start as int, end as int),
{
    let mut r: Vec<u8> = Vec::new();
    let mut i = start;
    while i < end
        invariant
            start <= i <= end <= b@.len(),
            r@ == b@.subrange(start as int, i as int),
        decreases end - i,
    {
        r.push(b[i]);
        i = i + 1;
        assert(r@ =~= b@.subrange(start as int, i as int));
    }
    r
}

/// Splits a script file into its MAIN script and its missions, following the
/// header segments; a file without header segments is one EXTERNAL chunk.
pub fn load(chunk: &Vec<u8>, game: Game, defs: &DefinitionMap) -> (r: Result<Vec<Script>, LoadError>)
    requires
        defs.wf(),
        chunk@.len() <= u32::MAX,
    ensures
        match (r, layout(game, defs@, defs.keys(), chunk@)) {
            (Ok(scripts), Ok(expected)) => scripts@.map_values(|s: Script| s@) == expected,
            (Err(e), Err(expected)) => e == expected,
            _ => false,
        },
{
    let segs = get_segments(chunk, game, defs);
    let file_size = chunk.len();
    if segs.len() == 0 {
        let mut scripts: Vec<Script> = Vec::new();
        scripts.push(Script::new(extract(chunk, 0, file_size), ScriptType::EXTERNAL, 0));
        assert(chunk@.subrange(0, file_size as int) =~= chunk@);
        assert(scripts@.map_values(|s: Script| s@) =~= seq![ScriptModel { chunk: chunk@, script_type: ScriptType::EXTERNAL, base_offset: 0 }]);
        return Ok(scripts);
    }
    if segs.len() < 3 {
        return Err(LoadError::NoMissionsSegment);
    }
    if segs.len() != 3 && segs.len() != 6 {
        return Err(LoadError::InvalidHeaderStructure);
    }
    let (off, end) = segs[MISSIONS_SEG];
    let main_start = segs[segs.len() - 1].1;
    let off = off as usize;
    let end = end as usize;
    if !(off <= end && end <= file_size) {
        return Err(LoadError::OutOfBounds);
    }
    if end - off < 13 {
        return Err(LoadError::TruncatedMissionsTable);
    }
    let n = read_le16(chunk, off + 9) as usize;
    if end - off < 13 + 4 * n {
        return Err(LoadError::TruncatedMissionsTable);
    }
    let main_end = read_le32(chunk, off + 1) as usize;
    let main_start = main_start as usize;
    if !(main_start <= main_end && main_end <= file_size) {
        return Err(LoadError::OutOfBounds);
    }
    assert(!missions_in_file(chunk@, off as int) ==> layout(game, defs@, defs.keys(), chunk@) == Err::<
        Seq<ScriptModel>,
        LoadError,
    >(LoadError::OutOfBounds));
    let mut ranges: Vec<(usize, usize)> = Vec::new();
    let mut i: usize = 0;
    while i < n
        invariant
            !missions_in_file(chunk@, off as int) ==> layout(game, defs@, defs.keys(), chunk@) == Err::<
                Seq<ScriptModel>,
                LoadError,
            >(LoadError::OutOfBounds),
            i <= n,
            n == num_missions(chunk@, off as int),
            table_complete(chunk@, off as int, end as int),
            off <= end <= file_size == chunk@.len(),
            ranges@.len() == i,
            forall|j: int|
                0 <= j < i ==> (#[trigger] ranges@[j]).0 == mission_start(chunk@, off as int, j)
                    && ranges@[j].1 == mission_end(chunk@, off as int, j),
            forall|j: int|
                0 <= j < i && mission_start(chunk@, off as int, j) < #[trigger] mission_end(
                    chunk@,
                    off as int,
                    j,
                ) ==> mission_end(chunk@, off as int, j) <= chunk@.len(),
        decreases n - i,
    {
        let s = read_le32(chunk, off + 13 + 4 * i) as usize;
        let e = if i + 1 >= n {
            file_size
        } else {
            read_le32(chunk, off + 13 + 4 * (i + 1)) as usize
        };
        if s < e && e > file_size {
            assert(s == mission_start(chunk@, off as int, i as int));
            assert(e == mission_end(chunk@, off as int, i as int));
            assert(!missions_in_file(chunk@, off as int));
            return Err(LoadError::OutOfBounds);
        }
        ranges.push((s, e));
        i = i + 1;
    }
    let mut scripts: Vec<Script> = Vec::new();
    scripts.push(Script::new(extract(chunk, main_start, main_end), ScriptType::MAIN, main_start as u32));
    let ghost head = scripts@.map_values(|s: Script| s@);
    let mut k: usize = 0;
    while k < n
        invariant
            k <= n,
            n == num_missions(chunk@, off as int),
            missions_in_file(chunk@, off as int),
            ranges@.len() == n,
            forall|j: int|
                0 <= j < n ==> (#[trigger] ranges@[j]).0 == mission_start(chunk@, off as int, j)
                    && ranges@[j].1 == mission_end(chunk@, off as int, j),
            head + mission_scripts(chunk@, off as int, 0) == scripts@.map_values(|s: Script| s@)
                + mission_scripts(chunk@, off as int, k as int),
        decreases n - k,
    {
        let (s, e) = ranges[k];
        let ghost before = scripts@.map_values(|s: Script| s@);
        if s < e {
            assert(e <= chunk@.len());
            scripts.push(Script::new(extract(chunk, s, e), ScriptType::MISSION, 0));
            assert(scripts@.map_values(|s: Script| s@) =~= before.push(ScriptModel { chunk: chunk@.subrange(s as int, e as int), script_type: ScriptType::MISSION, base_offset: 0 }));
        }
        assert(before + mission_scripts(chunk@, off as int, k as int) =~= scripts@.map_values(
            |s: Script| s@,
        ) + mission_scripts(chunk@, off as int, k + 1));
        k = k + 1;
    }
    assert(scripts@.map_values(|s: Script| s@) + Seq::empty() =~= scripts@.map_values(|s: Script| s@));
    Ok(scripts)
}

} // verus!
