use crate::library::{Command, SlotKind};
use crate::parser::{decode_at, decode_stream, le16, le32, operand_span, operand_value, parse_slots, signed16, signed32};
use crate::platform::Game;
use crate::types::{Float, InstructionModel, ParamModel, masked};
use vstd::arithmetic::div_mod::{lemma_fundamental_div_mod, lemma_small_mod};
use vstd::prelude::*;

verus! {

/// The two little-endian bytes of a value below 2^16.
pub open spec fn le16_bytes(u: int) -> Seq<u8> {
    seq![(u % 256) as u8, ((u / 256) % 256) as u8]
}

/// The four little-endian bytes of a value below 2^32.
pub open spec fn le32_bytes(u: int) -> Seq<u8> {
    let q1 = u / 256;
    let q2 = q1 / 256;
    let q3 = q2 / 256;
    seq![(u % 256) as u8, (q1 % 256) as u8, (q2 % 256) as u8, (q3 % 256) as u8]
}

/// A 16-bit value in two's complement.
pub open spec fn unsigned16(v: int) -> int {
    if v < 0 {
        v + 0x10000
    } else {
        v
    }
}

/// A 32-bit value in two's complement.
pub open spec fn unsigned32(v: int) -> int {
    if v < 0 {
        v + 0x1_0000_0000
    } else {
        v
    }
}

/// Whether operand `p` has a canonical encoding that decodes back to it in a
/// slot of kind `kind`: integers take the 32-bit form, a destination only in
/// a label slot, a float only in its game's form.
pub open spec fn encodable(game: Game, kind: SlotKind, p: ParamModel) -> bool {
    match p {
        ParamModel::NUM32(_) => !(kind is Label),
        ParamModel::OFFSET(_) => kind is Label,
        ParamModel::GVAR(_) => true,
        ParamModel::LVAR(_) => true,
        ParamModel::FLOAT(Float::Fixed16(_)) => game == Game::GTA3,
        ParamModel::FLOAT(Float::Ieee32(_)) => game == Game::VC,
        _ => false,
    }
}

/// The canonical on-wire form of an operand, its tag included.
pub open spec fn operand_bytes(p: ParamModel) -> Seq<u8> {
    match p {
        ParamModel::NUM32(v) => seq![1u8] + le32_bytes(unsigned32(v as int)),
        ParamModel::OFFSET(v) => seq![1u8] + le32_bytes(unsigned32(v as int)),
        ParamModel::GVAR(n) => seq![2u8] + le16_bytes(n as int),
        ParamModel::LVAR(n) => seq![3u8] + le16_bytes(n as int),
        ParamModel::FLOAT(Float::Fixed16(k)) => seq![6u8] + le16_bytes(unsigned16(k as int)),
        ParamModel::FLOAT(Float::Ieee32(b)) => seq![6u8] + le32_bytes(b as int),
        _ => Seq::empty(),
    }
}

/// The operands of a variadic slot, closed by an EOL tag.
pub open spec fn args_bytes(ps: Seq<ParamModel>) -> Seq<u8>
    decreases ps.len(),
{
    if ps.len() == 0 {
        seq![0u8]
    } else {
        operand_bytes(ps[0]) + args_bytes(ps.drop_first())
    }
}

/// The operands `ps` laid out over slots `i..`: one per fixed slot; a
/// variadic slot takes all that are left and ends the list.
pub open spec fn slots_bytes(slots: Seq<SlotKind>, i: int, ps: Seq<ParamModel>) -> Seq<u8>
    decreases slots.len() - i,
{
    if i < 0 || i >= slots.len() {
        Seq::empty()
    } else if slots[i] is Arguments {
        args_bytes(ps)
    } else if ps.len() == 0 {
        Seq::empty()
    } else {
        operand_bytes(ps[0]) + slots_bytes(slots, i + 1, ps.drop_first())
    }
}

/// Whether `ps` fills slots `i..` with encodable operands.
pub open spec fn slots_fit(game: Game, slots: Seq<SlotKind>, i: int, ps: Seq<ParamModel>) -> bool
    decreases slots.len() - i,
{
    if i < 0 || i >= slots.len() {
        ps.len() == 0
    } else if slots[i] is Arguments {
        forall|j: int| 0 <= j < ps.len() ==> encodable(game, slots[i], #[trigger] ps[j])
    } else {
        ps.len() > 0 && encodable(game, slots[i], ps[0]) && slots_fit(game, slots, i + 1, ps.drop_first())
    }
}

/// Whether an instruction is one of the dictionary's commands with operands
/// that fit its slots.
pub open spec fn legal(game: Game, defs: Map<u16, Command>, inst: InstructionModel) -> bool {
    &&& defs.contains_key(masked(inst.opcode))
    &&& inst.name == defs[masked(inst.opcode)].name@
    &&& slots_fit(game, defs[masked(inst.opcode)].slots(), 0, inst.params)
}

/// The on-wire form of an instruction.
pub open spec fn instruction_bytes(defs: Map<u16, Command>, inst: InstructionModel) -> Seq<u8> {
    le16_bytes(inst.opcode as int) + slots_bytes(defs[masked(inst.opcode)].slots(), 0, inst.params)
}

/// The on-wire form of a sequence of instructions.
pub open spec fn stream_bytes(defs: Map<u16, Command>, s: Seq<InstructionModel>) -> Seq<u8>
    decreases s.len(),
{
    if s.len() == 0 {
        Seq::empty()
    } else {
        instruction_bytes(defs, s[0]) + stream_bytes(defs, s.drop_first())
    }
}

/// Whether the instructions of `s` are legal and each stands at the offset
/// where its bytes start, from `pos` on, shifted by `base`.
pub open spec fn placed(game: Game, defs: Map<u16, Command>, s: Seq<InstructionModel>, base: int, pos: int) -> bool
    decreases s.len(),
{
    s.len() > 0 ==> {
        &&& legal(game, defs, s[0])
        &&& s[0].offset == base + pos
        &&& placed(game, defs, s.drop_first(), base, pos + instruction_bytes(defs, s[0]).len())
    }
}

proof fn lemma_le16_bytes(u: int)
    requires
        0 <= u < 0x10000,
    ensures
        le16(le16_bytes(u), 0) == u,
{
    lemma_fundamental_div_mod(u, 256);
    let q = u / 256;
    assert(q < 256);
    lemma_small_mod(q as nat, 256);
}

proof fn lemma_le32_bytes(u: int)
    requires
        0 <= u < 0x1_0000_0000,
    ensures
        le32(le32_bytes(u), 0) == u,
{
    let q1 = u / 256;
    let q2 = q1 / 256;
    let q3 = q2 / 256;
    lemma_fundamental_div_mod(u, 256);
    lemma_fundamental_div_mod(q1, 256);
    lemma_fundamental_div_mod(q2, 256);
    assert(q1 < 0x100_0000);
    assert(q2 < 0x1_0000);
    assert(q3 < 256);
    lemma_small_mod(q3 as nat, 256);
}

/// An encodable operand read back from its bytes is itself.
proof fn lemma_operand_round_trip(game: Game, b: Seq<u8>, pos: int, kind: SlotKind, p: ParamModel)
    requires
        encodable(game, kind, p),
        0 <= pos,
        pos + operand_bytes(p).len() <= b.len(),
        b.subrange(pos, pos + operand_bytes(p).len()) == operand_bytes(p),
    ensures
        b[pos] != 0,
        operand_span(game, b[pos]) == operand_bytes(p).len(),
        operand_value(game, b, pos, kind) == p,
{
    let e = operand_bytes(p);
    assert forall|j: int| 0 <= j < e.len() implies b[pos + j] == e[j] by {
        assert(b.subrange(pos, pos + e.len())[j] == b[pos + j]);
    }
    match p {
        ParamModel::NUM32(v) => {
            lemma_le32_bytes(unsigned32(v as int));
            let bs = le32_bytes(unsigned32(v as int));
            assert(e == seq![e[0]] + bs);
            assert forall|j: int| 0 <= j < 4 implies b[pos + 1 + j] == bs[j] by {
                assert(b[pos + 1 + j] == e[1 + j]);
            }
            assert(le32(b, pos + 1) == le32(bs, 0));
        },
        ParamModel::OFFSET(v) => {
            lemma_le32_bytes(unsigned32(v as int));
            let bs = le32_bytes(unsigned32(v as int));
            assert(e == seq![e[0]] + bs);
            assert forall|j: int| 0 <= j < 4 implies b[pos + 1 + j] == bs[j] by {
                assert(b[pos + 1 + j] == e[1 + j]);
            }
            assert(le32(b, pos + 1) == le32(bs, 0));
        },
        ParamModel::GVAR(n) => {
            lemma_le16_bytes(n as int);
            let bs = le16_bytes(n as int);
            assert(e == seq![e[0]] + bs);
            assert forall|j: int| 0 <= j < 2 implies b[pos + 1 + j] == bs[j] by {
                assert(b[pos + 1 + j] == e[1 + j]);
            }
            assert(le16(b, pos + 1) == le16(bs, 0));
        },
        ParamModel::LVAR(n) => {
            lemma_le16_bytes(n as int);
            let bs = le16_bytes(n as int);
            assert(e == seq![e[0]] + bs);
            assert forall|j: int| 0 <= j < 2 implies b[pos + 1 + j] == bs[j] by {
                assert(b[pos + 1 + j] == e[1 + j]);
            }
            assert(le16(b, pos + 1) == le16(bs, 0));
        },
        ParamModel::FLOAT(Float::Fixed16(k)) => {
            lemma_le16_bytes(unsigned16(k as int));
            let bs = le16_bytes(unsigned16(k as int));
            assert(e == seq![e[0]] + bs);
            assert forall|j: int| 0 <= j < 2 implies b[pos + 1 + j] == bs[j] by {
                assert(b[pos + 1 + j] == e[1 + j]);
            }
            assert(le16(b, pos + 1) == le16(bs, 0));
        },
        ParamModel::FLOAT(Float::Ieee32(x)) => {
            lemma_le32_bytes(x as int);
            let bs = le32_bytes(x as int);
            assert(e == seq![e[0]] + bs);
            assert forall|j: int| 0 <= j < 4 implies b[pos + 1 + j] == bs[j] by {
                assert(b[pos + 1 + j] == e[1 + j]);
            }
            assert(le32(b, pos + 1) == le32(bs, 0));
        },
        _ => {},
    }
}

/// Bytes `e` stand at `pos` in `b`.
pub open spec fn stands_at(b: Seq<u8>, pos: int, e: Seq<u8>) -> bool {
    0 <= pos && pos + e.len() <= b.len() && b.subrange(pos, pos + e.len()) == e
}

proof fn lemma_stands_split(b: Seq<u8>, pos: int, e1: Seq<u8>, e2: Seq<u8>)
    requires
        stands_at(b, pos, e1 + e2),
    ensures
        stands_at(b, pos, e1),
        stands_at(b, pos + e1.len(), e2),
{
    assert(b.subrange(pos, pos + e1.len()) == (e1 + e2).subrange(0, e1.len() as int));
    assert((e1 + e2).subrange(0, e1.len() as int) =~= e1);
    assert(b.subrange(pos + e1.len(), pos + e1.len() + e2.len()) == (e1 + e2).subrange(
        e1.len() as int,
        (e1.len() + e2.len()) as int,
    ));
    assert((e1 + e2).subrange(e1.len() as int, (e1.len() + e2.len()) as int) =~= e2);
}

proof fn lemma_args_round_trip(
    game: Game,
    b: Seq<u8>,
    pos: int,
    slots: Seq<SlotKind>,
    i: int,
    ps: Seq<ParamModel>,
)
    requires
        0 <= i < slots.len(),
        slots[i] is Arguments,
        forall|j: int| 0 <= j < ps.len() ==> encodable(game, slots[i], #[trigger] ps[j]),
        stands_at(b, pos, args_bytes(ps)),
    ensures
        parse_slots(game, b, pos, slots, i) == Some((ps, pos + args_bytes(ps).len())),
    decreases ps.len(),
{
    if ps.len() == 0 {
        assert(b[pos] == b.subrange(pos, pos + 1)[0]);
        assert(ps =~= Seq::<ParamModel>::empty());
    } else {
        let e0 = operand_bytes(ps[0]);
        let rest = ps.drop_first();
        assert(encodable(game, slots[i], ps[0]));
        lemma_stands_split(b, pos, e0, args_bytes(rest));
        lemma_operand_round_trip(game, b, pos, slots[i], ps[0]);
        assert forall|j: int| 0 <= j < rest.len() implies encodable(game, slots[i], #[trigger] rest[j]) by {
            assert(rest[j] == ps[j + 1]);
        }
        lemma_args_round_trip(game, b, pos + e0.len(), slots, i, rest);
        assert(seq![ps[0]] + rest =~= ps);
    }
}

proof fn lemma_slots_round_trip(
    game: Game,
    b: Seq<u8>,
    pos: int,
    slots: Seq<SlotKind>,
    i: int,
    ps: Seq<ParamModel>,
)
    requires
        0 <= i,
        slots_fit(game, slots, i, ps),
        stands_at(b, pos, slots_bytes(slots, i, ps)),
    ensures
        parse_slots(game, b, pos, slots, i) == Some((ps, pos + slots_bytes(slots, i, ps).len())),
    decreases slots.len() - i,
{
    if i >= slots.len() {
        assert(ps =~= Seq::<ParamModel>::empty());
    } else if slots[i] is Arguments {
        lemma_args_round_trip(game, b, pos, slots, i, ps);
    } else {
        let e0 = operand_bytes(ps[0]);
        let rest = ps.drop_first();
        lemma_stands_split(b, pos, e0, slots_bytes(slots, i + 1, rest));
        lemma_operand_round_trip(game, b, pos, slots[i], ps[0]);
        lemma_slots_round_trip(game, b, pos + e0.len(), slots, i + 1, rest);
        assert(seq![ps[0]] + rest =~= ps);
    }
}

proof fn lemma_instruction_round_trip(
    game: Game,
    defs: Map<u16, Command>,
    b: Seq<u8>,
    pos: int,
    base: int,
    inst: InstructionModel,
)
    requires
        legal(game, defs, inst),
        inst.offset == base + pos,
        stands_at(b, pos, instruction_bytes(defs, inst)),
    ensures
        decode_at(game, defs, b, pos, base) == Some(
            (inst, pos + instruction_bytes(defs, inst).len()),
        ),
{
    let slots = defs[masked(inst.opcode)].slots();
    let head = le16_bytes(inst.opcode as int);
    lemma_stands_split(b, pos, head, slots_bytes(slots, 0, inst.params));
    lemma_le16_bytes(inst.opcode as int);
    assert(b[pos] == head[0] && b[pos + 1] == head[1]) by {
        assert(b.subrange(pos, pos + 2)[0] == b[pos]);
        assert(b.subrange(pos, pos + 2)[1] == b[pos + 1]);
    }
    assert(le16(b, pos) == inst.opcode);
    lemma_slots_round_trip(game, b, pos + 2, slots, 0, inst.params);
}

/// Decoding inverts encoding: bytes laid out as legal instructions, each
/// operand in its canonical form, decode to exactly those instructions, so
/// re-encoding what is decoded gives the bytes back. String operands are not
/// covered: their text is read through a lossy UTF-8 conversion.
pub proof fn lemma_round_trip(
    game: Game,
    defs: Map<u16, Command>,
    s: Seq<InstructionModel>,
    base: int,
)
    requires
        placed(game, defs, s, base, 0),
        0 <= base,
        base + stream_bytes(defs, s).len() <= u32::MAX,
    ensures
        decode_stream(game, defs, stream_bytes(defs, s), 0, base) == s,
        stream_bytes(defs, decode_stream(game, defs, stream_bytes(defs, s), 0, base)) == stream_bytes(
            defs,
            s,
        ),
{
    let b = stream_bytes(defs, s);
    assert(b.subrange(0, b.len() as int) =~= b);
    lemma_stream_round_trip(game, defs, b, 0, base, s);
}

proof fn lemma_stream_round_trip(
    game: Game,
    defs: Map<u16, Command>,
    b: Seq<u8>,
    pos: int,
    base: int,
    s: Seq<InstructionModel>,
)
    requires
        placed(game, defs, s, base, pos),
        0 <= pos,
        pos + stream_bytes(defs, s).len() == b.len(),
        stands_at(b, pos, stream_bytes(defs, s)),
    ensures
        decode_stream(game, defs, b, pos, base) == s,
    decreases s.len(),
{
    if s.len() == 0 {
        assert(s =~= Seq::<InstructionModel>::empty());
    } else {
        let e0 = instruction_bytes(defs, s[0]);
        let rest = s.drop_first();
        lemma_stands_split(b, pos, e0, stream_bytes(defs, rest));
        lemma_instruction_round_trip(game, defs, b, pos, base, s[0]);
        assert(e0.len() >= 2);
        lemma_stream_round_trip(game, defs, b, pos + e0.len(), base, rest);
        assert(seq![s[0]] + rest =~= s);
    }
}

} // verus!
