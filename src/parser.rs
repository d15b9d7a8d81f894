use crate::definitions::DefinitionMap;
use crate::library::{Command, CommandParamType, SlotKind, slot_kind};
use crate::platform::{Game, float_width};
use crate::types::{
    DataType3, DataTypeMeta, Float, INVALID_OPCODE, Instruction, InstructionModel, InstructionParam,
    OPCODE_MASK, ParamModel, data_type_of, masked, models,
};
use vstd::prelude::*;

verus! {

broadcast use vstd::std_specs::hash::group_hash_axioms;

/// A little-endian 16-bit value at `p`.
pub open spec fn le16(b: Seq<u8>, p: int) -> int {
    b[p] + 256 * b[p + 1]
}

/// A little-endian 32-bit value at `p`.
pub open spec fn le32(b: Seq<u8>, p: int) -> int {
    b[p] + 256 * b[p + 1] + 65536 * b[p + 2] + 16777216 * b[p + 3]
}

/// Two's complement reading of an 8-bit value.
pub open spec fn signed8(v: int) -> int {
    if v >= 0x80 {
        v - 0x100
    } else {
        v
    }
}

/// Two's complement reading of a 16-bit value.
pub open spec fn signed16(v: int) -> int {
    if v >= 0x8000 {
        v - 0x10000
    } else {
        v
    }
}

/// Two's complement reading of a 32-bit value.
pub open spec fn signed32(v: int) -> int {
    if v >= 0x8000_0000 {
        v - 0x1_0000_0000
    } else {
        v
    }
}

/// The text of a byte string read as UTF-8, each invalid sequence replaced.
pub uninterp spec fn utf8_lossy(b: Seq<u8>) -> Seq<char>;

/// Relies on `String::from_utf8_lossy`, whose result depends on the bytes alone.
#[verifier::external_body]
fn lossy_string(b: &[u8]) -> (r: String)
    ensures
        r@ == utf8_lossy(b@),
{
    String::from_utf8_lossy(b).into_owned()
}

/// The index of the first NUL byte of `s` at or after `i`, or `s.len()`.
pub open spec fn nul_index(s: Seq<u8>, i: int) -> int
    decreases s.len() - i,
{
    if i < 0 || i >= s.len() {
        s.len() as int
    } else if s[i] == 0 {
        i
    } else {
        nul_index(s, i + 1)
    }
}

/// The bytes of an eight-byte string field before its first NUL.
pub open spec fn nul_prefix(s: Seq<u8>) -> Seq<u8> {
    s.subrange(0, nul_index(s, 0))
}

/// The number of bytes an operand takes, its tag included; an eight-byte
/// string has no tag of its own.
pub open spec fn operand_span(game: Game, tag: u8) -> int {
    match data_type_of(tag) {
        DataType3::EOL => 1,
        DataType3::NUM8 => 2,
        DataType3::NUM16 => 3,
        DataType3::NUM32 => 5,
        DataType3::GVAR => 3,
        DataType3::LVAR => 3,
        DataType3::FLOAT => 1 + float_width(game),
        DataType3::STR8 => 8,
    }
}

/// An integer operand: a branch destination in a label slot, a number elsewhere.
pub open spec fn int_operand(v: int, kind: SlotKind) -> ParamModel {
    match kind {
        SlotKind::Label => ParamModel::OFFSET(v as i32),
        _ => ParamModel::NUM32(v as i32),
    }
}

/// The operand whose tag stands at `pos`, read for a slot of kind `kind`.
pub open spec fn operand_value(game: Game, b: Seq<u8>, pos: int, kind: SlotKind) -> ParamModel {
    let s = pos + 1;
    match data_type_of(b[pos]) {
        DataType3::EOL => ParamModel::EOL,
        DataType3::NUM8 => int_operand(signed8(b[s] as int), kind),
        DataType3::NUM16 => int_operand(signed16(le16(b, s)), kind),
        DataType3::NUM32 => int_operand(signed32(le32(b, s)), kind),
        DataType3::GVAR => ParamModel::GVAR(le16(b, s) as u16),
        DataType3::LVAR => ParamModel::LVAR(le16(b, s) as u16),
        DataType3::FLOAT => ParamModel::FLOAT(
            match game {
                Game::GTA3 => Float::Fixed16(signed16(le16(b, s)) as i16),
                Game::VC => Float::Ieee32(le32(b, s) as u32),
            },
        ),
        DataType3::STR8 => ParamModel::STR(utf8_lossy(nul_prefix(b.subrange(pos, pos + 8)))),
    }
}

/// `ps` put in front of the operands of a parse, if it succeeded.
pub open spec fn prefixed(ps: Seq<ParamModel>, r: Option<(Seq<ParamModel>, int)>) -> Option<
    (Seq<ParamModel>, int),
> {
    match r {
        Some((qs, e)) => Some((ps + qs, e)),
        None => None,
    }
}

/// The operands of parameter slots `i..` read from `pos`, and where they end.
/// A slot of kind `Arguments` takes operands until an EOL tag, which ends the
/// whole parameter list; an EOL tag in any other slot fails, as does a read
/// past the end of the bytes.
pub open spec fn parse_slots(game: Game, b: Seq<u8>, pos: int, slots: Seq<SlotKind>, i: int) -> Option<
    (Seq<ParamModel>, int),
>
    decreases slots.len() - i, b.len() - pos,
{
    if i < 0 || i >= slots.len() {
        Some((Seq::empty(), pos))
    } else if pos < 0 || pos >= b.len() {
        None
    } else if b[pos] == 0 {
        if slots[i] is Arguments {
            Some((Seq::empty(), pos + 1))
        } else {
            None
        }
    } else {
        let q = pos + operand_span(game, b[pos]);
        if q > b.len() {
            None
        } else {
            let p = operand_value(game, b, pos, slots[i]);
            if slots[i] is Arguments {
                prefixed(seq![p], parse_slots(game, b, q, slots, i))
            } else {
                prefixed(seq![p], parse_slots(game, b, q, slots, i + 1))
            }
        }
    }
}

/// The instruction that starts at `pos`, and where it ends, if it decodes.
pub open spec fn decode_at(
    game: Game,
    defs: Map<u16, Command>,
    b: Seq<u8>,
    pos: int,
    base: int,
) -> Option<(InstructionModel, int)> {
    if pos < 0 || pos + 2 > b.len() {
        None
    } else {
        let op = le16(b, pos) as u16;
        if !defs.contains_key(masked(op)) {
            None
        } else {
            let c = defs[masked(op)];
            match parse_slots(game, b, pos + 2, c.slots(), 0) {
                Some((ps, q)) => Some(
                    (InstructionModel { opcode: op, name: c.name@, offset: (pos + base) as u32, params: ps }, q),
                ),
                None => None,
            }
        }
    }
}

/// The sentinel that covers the single byte at `pos`.
pub open spec fn invalid_model(b: Seq<u8>, pos: int, base: int) -> InstructionModel {
    InstructionModel {
        opcode: 0xFFFF,
        name: "invalid"@,
        offset: (pos + base) as u32,
        params: seq![ParamModel::RAW(b[pos])],
    }
}

/// One decoding step at `pos`: the instruction there, or the sentinel for its
/// first byte, and where the next step starts.
pub open spec fn step(game: Game, defs: Map<u16, Command>, b: Seq<u8>, pos: int, base: int) -> (
    InstructionModel,
    int,
) {
    match decode_at(game, defs, b, pos, base) {
        Some(r) => r,
        None => (invalid_model(b, pos, base), pos + 1),
    }
}

/// A successful parse ends at or after where it started, within the bytes.
pub proof fn lemma_parse_slots_bounds(game: Game, b: Seq<u8>, pos: int, slots: Seq<SlotKind>, i: int)
    requires
        0 <= pos <= b.len(),
    ensures
        parse_slots(game, b, pos, slots, i) matches Some((_, q)) ==> pos <= q <= b.len(),
    decreases slots.len() - i, b.len() - pos,
{
    if 0 <= i < slots.len() && pos < b.len() && b[pos] != 0 {
        let q = pos + operand_span(game, b[pos]);
        if q <= b.len() {
            if slots[i] is Arguments {
                lemma_parse_slots_bounds(game, b, q, slots, i);
            } else {
                lemma_parse_slots_bounds(game, b, q, slots, i + 1);
            }
        }
    }
}

/// Every step consumes at least one byte and stays within the bytes.
pub proof fn lemma_step_advances(game: Game, defs: Map<u16, Command>, b: Seq<u8>, pos: int, base: int)
    requires
        0 <= pos < b.len(),
    ensures
        pos < step(game, defs, b, pos, base).1 <= b.len(),
{
    if pos + 2 <= b.len() {
        let op = le16(b, pos) as u16;
        if defs.contains_key(masked(op)) {
            lemma_parse_slots_bounds(game, b, pos + 2, defs[masked(op)].slots(), 0);
        }
    }
}

/// The instructions decoded from `pos` to the end of the bytes.
pub open spec fn decode_stream(
    game: Game,
    defs: Map<u16, Command>,
    b: Seq<u8>,
    pos: int,
    base: int,
) -> Seq<InstructionModel>
    decreases b.len() - pos,
{
    if pos < 0 || pos >= b.len() {
        Seq::empty()
    } else {
        proof {
            lemma_step_advances(game, defs, b, pos, base);
        }
        let (inst, q) = step(game, defs, b, pos, base);
        seq![inst] + decode_stream(game, defs, b, q, base)
    }
}

/// The number of bytes each instruction of `decode_stream` takes.
pub open spec fn wire_lengths(
    game: Game,
    defs: Map<u16, Command>,
    b: Seq<u8>,
    pos: int,
    base: int,
) -> Seq<int>
    decreases b.len() - pos,
{
    if pos < 0 || pos >= b.len() {
        Seq::empty()
    } else {
        proof {
            lemma_step_advances(game, defs, b, pos, base);
        }
        let q = step(game, defs, b, pos, base).1;
        seq![q - pos] + wire_lengths(game, defs, b, q, base)
    }
}

/// The little-endian 16-bit value at `p`.
pub(crate) fn read_le16(b: &Vec<u8>, p: usize) -> (r: u16)
    requires
        p + 2 <= b@.len(),
    ensures
        r == le16(b@, p as int),
{
    let _len = b.len();
    b[p] as u16 + (b[p + 1] as u16) * 256
}

/// The little-endian 32-bit value at `p`.
pub(crate) fn read_le32(b: &Vec<u8>, p: usize) -> (r: u32)
    requires
        p + 4 <= b@.len(),
    ensures
        r == le32(b@, p as int),
{
    let _len = b.len();
    b[p] as u32 + (b[p + 1] as u32) * 256 + (b[p + 2] as u32) * 65536 + (b[p + 3] as u32)
        * 16777216
}

fn to_i8(v: u8) -> (r: i8)
    ensures
        r == signed8(v as int),
{
    if v >= 0x80 {
        ((v - 0x80) as i8) - 0x7F - 1
    } else {
        v as i8
    }
}

fn to_i16(v: u16) -> (r: i16)
    ensures
        r == signed16(v as int),
{
    if v >= 0x8000 {
        ((v - 0x8000) as i16) - 0x7FFF - 1
    } else {
        v as i16
    }
}

fn to_i32(v: u32) -> (r: i32)
    ensures
        r == signed32(v as int),
{
    if v >= 0x8000_0000 {
        ((v - 0x8000_0000) as i32) - 0x7FFF_FFFF - 1
    } else {
        v as i32
    }
}

/// The bytes of the eight-byte string field at `pos` before its first NUL.
fn read_str8(b: &Vec<u8>, pos: usize) -> (r: Vec<u8>)
    requires
        pos + 8 <= b@.len(),
    ensures
        r@ == nul_prefix(b@.subrange(pos as int, pos + 8)),
{
    let _len = b.len();
    let ghost field = b@.subrange(pos as int, pos + 8);
    let mut res: Vec<u8> = Vec::new();
    let mut i: usize = 0;
    while i < 8 && b[pos + i] != 0
        invariant
            pos + 8 <= b@.len(),
            _len == b@.len(),
            field == b@.subrange(pos as int, pos + 8),
            i <= 8,
            res@ == field.subrange(0, i as int),
            nul_index(field, 0) == nul_index(field, i as int),
        decreases 8 - i,
    {
        res.push(b[pos + i]);
        i = i + 1;
        proof {
            assert(res@ =~= field.subrange(0, i as int));
        }
    }
    res
}

/// The kind of a slot given by its parameter type.
fn kind_of(t: &CommandParamType) -> (r: SlotKind)
    ensures
        r == slot_kind(*t),
{
    match t {
        CommandParamType::Label => SlotKind::Label,
        CommandParamType::Arguments => SlotKind::Arguments,
        _ => SlotKind::Plain,
    }
}

fn int_param(v: i32, kind: &SlotKind) -> (r: InstructionParam)
    ensures
        r@ == int_operand(v as int, *kind),
{
    match kind {
        SlotKind::Label => InstructionParam::OFFSET(v),
        _ => InstructionParam::NUM32(v),
    }
}

/// The sum of a sequence of integers.
pub open spec fn sum(s: Seq<int>) -> int
    decreases s.len(),
{
    if s.len() == 0 {
        0
    } else {
        s[0] + sum(s.drop_first())
    }
}

/// No parameter slot decodes to a raw byte.
proof fn lemma_parse_slots_no_raw(game: Game, b: Seq<u8>, pos: int, slots: Seq<SlotKind>, i: int)
    ensures
        parse_slots(game, b, pos, slots, i) matches Some((ps, _)) ==> forall|j: int|
            0 <= j < ps.len() ==> !(#[trigger] ps[j] is RAW),
    decreases slots.len() - i, b.len() - pos,
{
    if 0 <= i < slots.len() && 0 <= pos < b.len() && b[pos] != 0 {
        let q = pos + operand_span(game, b[pos]);
        if q <= b.len() {
            let p = operand_value(game, b, pos, slots[i]);
            let rest = if slots[i] is Arguments {
                parse_slots(game, b, q, slots, i)
            } else {
                parse_slots(game, b, q, slots, i + 1)
            };
            if slots[i] is Arguments {
                lemma_parse_slots_no_raw(game, b, q, slots, i);
            } else {
                lemma_parse_slots_no_raw(game, b, q, slots, i + 1);
            }
            if let Some((qs, _)) = rest {
                let ps = seq![p] + qs;
                assert forall|j: int| 0 <= j < ps.len() implies !(#[trigger] ps[j] is RAW) by {
                    if j > 0 {
                        assert(ps[j] == qs[j - 1]);
                    }
                }
            }
        }
    }
}

/// Decoding walks the whole chunk: each instruction takes at least one byte,
/// a sentinel (the only instruction with a raw operand) takes exactly one,
/// and the lengths add up to the number of bytes from `pos` to the end, so
/// no byte is skipped or read twice. Each offset lies within the chunk,
/// shifted by `base`.
pub proof fn lemma_stream_covers_chunk(
    game: Game,
    defs: Map<u16, Command>,
    b: Seq<u8>,
    pos: int,
    base: int,
)
    requires
        0 <= pos <= b.len(),
        0 <= base,
        base + b.len() <= u32::MAX,
    ensures
        ({
            let s = decode_stream(game, defs, b, pos, base);
            let w = wire_lengths(game, defs, b, pos, base);
            &&& w.len() == s.len()
            &&& sum(w) == b.len() - pos
            &&& forall|k: int| 0 <= k < w.len() ==> #[trigger] w[k] >= 1
            &&& forall|k: int, j: int|
                0 <= k < s.len() && 0 <= j < s[k].params.len() && (#[trigger] s[k].params[j]) is RAW
                    ==> w[k] == 1
            &&& forall|k: int|
                0 <= k < s.len() ==> base + pos <= (#[trigger] s[k]).offset < base + b.len()
        }),
    decreases b.len() - pos,
{
    if pos < b.len() {
        lemma_step_advances(game, defs, b, pos, base);
        let (inst, q) = step(game, defs, b, pos, base);
        lemma_stream_covers_chunk(game, defs, b, q, base);
        let s = decode_stream(game, defs, b, pos, base);
        let w = wire_lengths(game, defs, b, pos, base);
        let s1 = decode_stream(game, defs, b, q, base);
        let w1 = wire_lengths(game, defs, b, q, base);
        assert(s == seq![inst] + s1);
        assert(w == seq![q - pos] + w1);
        assert(w.drop_first() =~= w1);
        if pos + 2 <= b.len() {
            let op = le16(b, pos) as u16;
            if defs.contains_key(masked(op)) {
                lemma_parse_slots_no_raw(game, b, pos + 2, defs[masked(op)].slots(), 0);
            }
        }
        assert forall|k: int, j: int|
            0 <= k < s.len() && 0 <= j < s[k].params.len() && (#[trigger] s[k].params[j]) is RAW
            implies w[k] == 1 by {
            if k > 0 {
                assert(s[k] == s1[k - 1]);
                assert(w[k] == w1[k - 1]);
            }
        }
        assert forall|k: int| 0 <= k < w.len() implies #[trigger] w[k] >= 1 by {
            if k > 0 {
                assert(w[k] == w1[k - 1]);
            }
        }
        assert forall|k: int| 0 <= k < s.len() implies base + pos <= (#[trigger] s[k]).offset < base
            + b.len() by {
            if k > 0 {
                assert(s[k] == s1[k - 1]);
            }
        }
    }
}

/// An integer operand in a label slot decodes as a branch destination, and in
/// any other slot as a number.
pub proof fn lemma_label_operands(game: Game, b: Seq<u8>, pos: int, kind: SlotKind)
    requires
        0 <= pos < b.len(),
        data_type_of(b[pos]) is NUM8 || data_type_of(b[pos]) is NUM16 || data_type_of(b[pos]) is NUM32,
    ensures
        kind is Label ==> operand_value(game, b, pos, kind) is OFFSET,
        !(kind is Label) ==> operand_value(game, b, pos, kind) is NUM32,
{
}

/// Only an integer operand in a label slot decodes as a branch destination.
pub proof fn lemma_offsets_come_from_labels(game: Game, b: Seq<u8>, pos: int, kind: SlotKind)
    requires
        0 <= pos < b.len(),
        operand_value(game, b, pos, kind) is OFFSET,
    ensures
        kind is Label,
        data_type_of(b[pos]) is NUM8 || data_type_of(b[pos]) is NUM16 || data_type_of(b[pos]) is NUM32,
{
}

/// Decoder state over one chunk.
pub struct Parser<'a> {
    pub chunk: &'a Vec<u8>,
    pub definitions: &'a DefinitionMap,
    /// Index of the next byte to read.
    pub position: u32,
    pub size: u32,
    pub base_offset: u32,
    pub game: Game,
}

impl<'a> Parser<'a> {
    pub open spec fn wf(&self) -> bool {
        &&& self.definitions.wf()
        &&& self.size == self.chunk@.len()
        &&& self.base_offset + self.size <= u32::MAX
    }

    /// The next decoding step from the current position.
    pub open spec fn spec_step(&self) -> (InstructionModel, int) {
        step(self.game, self.definitions@, self.chunk@, self.position as int, self.base_offset as int)
    }

    /// The instructions left to decode.
    pub open spec fn remaining(&self) -> Seq<InstructionModel> {
        decode_stream(
            self.game,
            self.definitions@,
            self.chunk@,
            self.position as int,
            self.base_offset as int,
        )
    }

    pub fn new(
        chunk: &'a Vec<u8>,
        definitions: &'a DefinitionMap,
        base_offset: u32,
        game: Game,
    ) -> (r: Self)
        requires
            definitions.wf(),
            base_offset + chunk@.len() <= u32::MAX,
        ensures
            r.wf(),
            r.chunk == chunk,
            r.definitions == definitions,
            r.base_offset == base_offset,
            r.game == game,
            r.position == 0,
    {
        Parser {
            chunk,
            definitions,
            position: 0,
            size: chunk.len() as u32,
            base_offset,
            game,
        }
    }

    /// Reads one byte as a raw operand.
    pub fn get_raw(&mut self) -> (r: Option<InstructionParam>)
        requires
            old(self).wf(),
        ensures
            old(self).position < old(self).size ==> {
                &&& r == Some(InstructionParam::RAW(old(self).chunk@[old(self).position as int]))
                &&& *final(self) == (Parser { position: (old(self).position + 1) as u32, ..*old(self) })
            },
            old(self).position >= old(self).size ==> r is None && *final(self) == *old(self),
    {
        if self.position < self.size {
            let b = self.chunk[self.position as usize];
            self.position = self.position + 1;
            Some(InstructionParam::RAW(b))
        } else {
            None
        }
    }

    /// The sentinel for the byte at `offset`; the cursor ends just after it.
    pub fn rollback(&mut self, offset: u32) -> (r: Instruction)
        requires
            old(self).wf(),
            offset < old(self).size,
        ensures
            *final(self) == (Parser { position: (offset + 1) as u32, ..*old(self) }),
            r@ == invalid_model(old(self).chunk@, offset as int, old(self).base_offset as int),
    {
        self.set_position(offset);
        let raw = self.get_raw().unwrap();
        let ghost b = self.chunk@[offset as int];
        let params = vec![raw];
        let r = Instruction {
            opcode: INVALID_OPCODE,
            name: String::from_str("invalid"),
            offset: offset + self.base_offset,
            params,
        };
        proof {
            assert(r@.params =~= seq![ParamModel::RAW(b)]);
        }
        r
    }

    /// Reads the operand whose tag, not EOL, stands at `pos`, for a slot of
    /// kind `kind`; `None` when it runs past the end of the chunk.
    fn to_param(&self, pos: usize, kind: &SlotKind) -> (r: Option<(InstructionParam, usize)>)
        requires
            self.wf(),
            pos < self.chunk@.len(),
            self.chunk@[pos as int] != 0,
        ensures
            match r {
                Some((p, q)) => {
                    &&& q == pos + operand_span(self.game, self.chunk@[pos as int])
                    &&& q <= self.chunk@.len()
                    &&& p@ == operand_value(self.game, self.chunk@, pos as int, *kind)
                },
                None => pos + operand_span(self.game, self.chunk@[pos as int]) > self.chunk@.len(),
            },
    {
        let b = self.chunk;
        let len = b.len();
        let dt = DataType3::from_tag(b[pos]);
        let start = if dt.has_data_type() { pos + 1 } else { pos };
        let width: usize = match dt {
            DataType3::EOL => 0,
            DataType3::NUM8 => 1,
            DataType3::NUM16 => 2,
            DataType3::NUM32 => 4,
            DataType3::GVAR => 2,
            DataType3::LVAR => 2,
            DataType3::FLOAT => match self.game {
                Game::GTA3 => 2,
                Game::VC => 4,
            },
            DataType3::STR8 => 8,
        };
        if width > len - start {
            return None;
        }
        let p = match dt {
            DataType3::EOL => InstructionParam::EOL,
            DataType3::NUM8 => int_param(to_i8(b[start]) as i32, kind),
            DataType3::NUM16 => int_param(to_i16(read_le16(b, start)) as i32, kind),
            DataType3::NUM32 => int_param(to_i32(read_le32(b, start)), kind),
            DataType3::GVAR => InstructionParam::GVAR(read_le16(b, start)),
            DataType3::LVAR => InstructionParam::LVAR(read_le16(b, start)),
            DataType3::FLOAT => InstructionParam::FLOAT(
                match self.game {
                    Game::GTA3 => Float::Fixed16(to_i16(read_le16(b, start))),
                    Game::VC => Float::Ieee32(read_le32(b, start)),
                },
            ),
            DataType3::STR8 => {
                let bytes = read_str8(b, start);
                InstructionParam::STR(lossy_string(bytes.as_slice()))
            },
        };
        Some((p, start + width))
    }

    /// Decodes the instruction at the cursor; on success the cursor ends just
    /// after it.
    pub fn try_next(&mut self) -> (r: Option<Instruction>)
        requires
            old(self).wf(),
        ensures
            final(self).wf(),
            final(self).chunk == old(self).chunk,
            final(self).definitions == old(self).definitions,
            final(self).base_offset == old(self).base_offset,
            final(self).game == old(self).game,
            final(self).size == old(self).size,
            match r {
                Some(inst) => decode_at(
                    old(self).game,
                    old(self).definitions@,
                    old(self).chunk@,
                    old(self).position as int,
                    old(self).base_offset as int,
                ) == Some((inst@, final(self).position as int)),
                None => decode_at(
                    old(self).game,
                    old(self).definitions@,
                    old(self).chunk@,
                    old(self).position as int,
                    old(self).base_offset as int,
                ) is None,
            },
    {
        let b = self.chunk;
        let len = b.len();
        let start = self.position as usize;
        if start >= len || len - start < 2 {
            return None;
        }
        let op = read_le16(b, start);
        let key = op & OPCODE_MASK;
        assert(key == masked(op)) by {
            assert(op & 0x7FFF == op % 0x8000) by (bit_vector);
        }
        let def = match self.definitions.find_by_op(&key) {
            Some(d) => d,
            None => {
                return None;
            },
        };
        let n_in = def.input.len();
        let n_out = def.output.len();
        let ghost slots = def.slots();
        let ghost n = slots.len() as int;
        let ghost whole = parse_slots(self.game, b@, start + 2, slots, 0);
        assert(decode_at(self.game, self.definitions@, b@, start as int, self.base_offset as int)
            == match whole {
            Some((ps, q)) => Some(
                (InstructionModel { opcode: op, name: def.name@, offset: (start + self.base_offset) as u32, params: ps }, q),
            ),
            None => None,
        });
        let mut params: Vec<InstructionParam> = Vec::new();
        let mut pos: usize = start + 2;
        // `j` indexes the inputs, then the outputs; `i` is the slot index.
        let mut out = false;
        let mut j: usize = 0;
        let ghost mut i: int = 0;
        while !(out && j >= n_out)
            invariant
                self.wf(),
                b == self.chunk,
                len == b@.len(),
                slots == def.slots(),
                n_in == def.input@.len(),
                n_out == def.output@.len(),
                n == slots.len(),
                start + 2 <= pos <= len,
                start == self.position,
                decode_at(self.game, self.definitions@, b@, start as int, self.base_offset as int)
                    == match whole {
                    Some((ps, q)) => Some(
                        (InstructionModel { opcode: op, name: def.name@, offset: (start + self.base_offset) as u32, params: ps }, q),
                    ),
                    None => None,
                },
                i == (if out { n_in + j } else { j as int }),
                j <= (if out { n_out } else { n_in }),
                whole == prefixed(
                    params@.map_values(|p: InstructionParam| p@),
                    parse_slots(self.game, b@, pos as int, slots, i),
                ),
            decreases n - i, len - pos, if out { 0int } else { 1int },
        {
            if !out && j >= n_in {
                out = true;
                j = 0;
            } else {
                if pos >= len {
                    return None;
                }
                let t = if !out {
                    &def.input[j].param_type
                } else {
                    &def.output[j].param_type
                };
                let kind = kind_of(t);
                assert(kind == slots[i]);
                let tag = DataType3::from_tag(b[pos]);
                if tag.is_eol() {
                    if let SlotKind::Arguments = kind {
                        pos = pos + 1;
                        out = true;
                        j = n_out;
                        proof {
                            i = n;
                            assert(params@.map_values(|p: InstructionParam| p@) + Seq::empty() =~= params@.map_values(|p: InstructionParam| p@));
                        }
                    } else {
                        return None;
                    }
                } else {
                    match self.to_param(pos, &kind) {
                        None => {
                            return None;
                        },
                        Some((p, q)) => {
                            proof {
                                let ps = params@.map_values(|p: InstructionParam| p@);
                                let rest = if kind is Arguments {
                                    parse_slots(self.game, b@, q as int, slots, i)
                                } else {
                                    parse_slots(self.game, b@, q as int, slots, i + 1)
                                };
                                assert(prefixed(ps, prefixed(seq![p@], rest)) == prefixed(ps.push(p@), rest)) by {
                                    if let Some((qs, _)) = rest {
                                        assert(ps + (seq![p@] + qs) =~= ps.push(p@) + qs);
                                    }
                                }
                            }
                            let ghost before = params@;
                            let ghost pv = p@;
                            params.push(p);
                            proof {
                                assert(params@.map_values(|p: InstructionParam| p@) =~= before.map_values(
                                    |p: InstructionParam| p@,
                                ).push(pv));
                            }
                            pos = q;
                            if let SlotKind::Arguments = kind {
                            } else {
                                j = j + 1;
                                proof {
                                    i = i + 1;
                                }
                            }
                        },
                    }
                }
            }
        }
        proof {
            assert(params@.map_values(|p: InstructionParam| p@) + Seq::empty() =~= params@.map_values(|p: InstructionParam| p@));
        }
        self.position = pos as u32;
        Some(
            Instruction {
                opcode: op,
                name: def.name.clone(),
                offset: start as u32 + self.base_offset,
                params,
            },
        )
    }

    /// Decodes the next instruction, or the sentinel for one byte where the
    /// bytes at the cursor do not decode; `None` once the chunk is exhausted.
    pub fn next(&mut self) -> (r: Option<Instruction>)
        requires
            old(self).wf(),
        ensures
            final(self).wf(),
            *final(self) == (Parser { position: final(self).position, ..*old(self) }),
            old(self).position >= old(self).size ==> r is None && *final(self) == *old(self),
            old(self).position < old(self).size ==> (r matches Some(inst) && (
                inst@,
                final(self).position as int,
            ) == old(self).spec_step()),
    {
        let offset = self.position;
        if offset >= self.size {
            return None;
        }
        match self.try_next() {
            Some(inst) => Some(inst),
            None => {
                proof {
                    lemma_step_advances(
                        self.game,
                        self.definitions@,
                        self.chunk@,
                        offset as int,
                        self.base_offset as int,
                    );
                }
                Some(self.rollback(offset))
            },
        }
    }

    /// Decodes everything from the cursor to the end of the chunk.
    pub fn collect(&mut self) -> (r: Vec<Instruction>)
        requires
            old(self).wf(),
        ensures
            final(self).wf(),
            models(r@) == old(self).remaining(),
    {
        let ghost all = self.remaining();
        let mut res: Vec<Instruction> = Vec::new();
        while self.position < self.size
            invariant
                self.wf(),
                models(res@) + self.remaining() == all,
            decreases self.size - self.position,
        {
            let ghost before = self.remaining();
            proof {
                lemma_step_advances(
                    self.game,
                    self.definitions@,
                    self.chunk@,
                    self.position as int,
                    self.base_offset as int,
                );
            }
            let inst = self.next().unwrap();
            let ghost prev = res@;
            let ghost iv = inst@;
            res.push(inst);
            proof {
                assert(before == seq![iv] + self.remaining());
                assert(models(res@) =~= models(prev).push(iv));
                assert(models(res@) + self.remaining() =~= models(prev) + before);
            }
        }
        proof {
            assert(models(res@) + Seq::empty() =~= models(res@));
        }
        res
    }

    pub fn get_position(&self) -> (r: u32)
        ensures
            r == self.position,
    {
        self.position
    }

    pub fn set_position(&mut self, position: u32)
        ensures
            *final(self) == (Parser { position, ..*old(self) }),
    {
        self.position = position;
    }
}

} // verus!
