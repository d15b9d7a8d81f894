use vstd::prelude::*;

verus! {

/// A 16-bit command identifier; the top bit is the negation flag.
pub type Opcode = u16;

/// The opcode of the sentinel that covers one undecodable byte.
pub const INVALID_OPCODE: u16 = 0xFFFF;

/// Mask that removes the negation flag from an opcode.
pub const OPCODE_MASK: u16 = 0x7FFF;

/// The kind of a script chunk.
#[derive(Debug, Clone, Copy, PartialEq, Eq, Structural)]
pub enum ScriptType {
    MAIN,
    MISSION,
    EXTERNAL,
}

/// The dictionary key of an opcode: the opcode without its negation flag.
pub open spec fn masked(op: u16) -> u16 {
    (op % 0x8000) as u16
}

/// The on-wire tag that introduces an operand.
#[derive(Debug, Clone, Copy, PartialEq, Eq, Structural)]
pub enum DataType3 {
    EOL,
    NUM8,
    NUM16,
    NUM32,
    FLOAT,
    STR8,
    GVAR,
    LVAR,
}

/// The data type that a tag byte announces; any byte above 6 starts an
/// eight-byte string and is its first character.
pub open spec fn data_type_of(tag: u8) -> DataType3 {
    if tag == 0 {
        DataType3::EOL
    } else if tag == 1 {
        DataType3::NUM32
    } else if tag == 2 {
        DataType3::GVAR
    } else if tag == 3 {
        DataType3::LVAR
    } else if tag == 4 {
        DataType3::NUM8
    } else if tag == 5 {
        DataType3::NUM16
    } else if tag == 6 {
        DataType3::FLOAT
    } else {
        DataType3::STR8
    }
}

impl DataType3 {
    /// Decodes a tag byte.
    pub fn from_tag(tag: u8) -> (r: DataType3)
        ensures
            r == data_type_of(tag),
    {
        match tag {
            0 => DataType3::EOL,
            1 => DataType3::NUM32,
            2 => DataType3::GVAR,
            3 => DataType3::LVAR,
            4 => DataType3::NUM8,
            5 => DataType3::NUM16,
            6 => DataType3::FLOAT,
            _ => DataType3::STR8,
        }
    }
}

/// Questions about a data type that the decoder asks.
pub trait DataTypeMeta {
    spec fn spec_is_eol(&self) -> bool;

    spec fn spec_has_data_type(&self) -> bool;

    /// Whether the tag ends a group of operands.
    fn is_eol(&self) -> (r: bool)
        ensures
            r == self.spec_is_eol(),
    ;

    /// Whether the operand has a tag byte of its own.
    fn has_data_type(&self) -> (r: bool)
        ensures
            r == self.spec_has_data_type(),
    ;
}

impl DataTypeMeta for DataType3 {
    open spec fn spec_is_eol(&self) -> bool {
        *self == DataType3::EOL
    }

    open spec fn spec_has_data_type(&self) -> bool {
        *self != DataType3::STR8
    }

    fn is_eol(&self) -> (r: bool) {
        match self {
            DataType3::EOL => true,
            _ => false,
        }
    }

    fn has_data_type(&self) -> (r: bool) {
        match self {
            DataType3::STR8 => false,
            _ => true,
        }
    }
}

/// A floating-point operand as it stands on the wire.
#[derive(Debug, Clone, Copy, PartialEq, Eq, Structural)]
pub enum Float {
    /// GTA3: a signed 16-bit fixed-point number with four fraction bits.
    Fixed16(i16),
    /// Vice City: the bits of an IEEE 754 single.
    Ieee32(u32),
}

/// A decoded operand.
#[derive(Debug, Clone)]
pub enum InstructionParam {
    EOL,
    RAW(u8),
    NUM32(i32),
    FLOAT(Float),
    STR(String),
    GVAR(u16),
    LVAR(u16),
    OFFSET(i32),
}

/// What a decoded operand denotes.
pub enum ParamModel {
    EOL,
    RAW(u8),
    NUM32(i32),
    FLOAT(Float),
    STR(Seq<char>),
    GVAR(u16),
    LVAR(u16),
    OFFSET(i32),
}

impl View for InstructionParam {
    type V = ParamModel;

    open spec fn view(&self) -> ParamModel {
        match self {
            InstructionParam::EOL => ParamModel::EOL,
            InstructionParam::RAW(b) => ParamModel::RAW(*b),
            InstructionParam::NUM32(v) => ParamModel::NUM32(*v),
            InstructionParam::FLOAT(f) => ParamModel::FLOAT(*f),
            InstructionParam::STR(s) => ParamModel::STR(s@),
            InstructionParam::GVAR(v) => ParamModel::GVAR(*v),
            InstructionParam::LVAR(v) => ParamModel::LVAR(*v),
            InstructionParam::OFFSET(v) => ParamModel::OFFSET(*v),
        }
    }
}

/// The branch destination an operand holds, if it is an offset.
pub open spec fn offset_of(p: ParamModel) -> Option<i32> {
    match p {
        ParamModel::OFFSET(v) => Some(v),
        _ => None,
    }
}

/// The text an operand holds, if it is a string.
pub open spec fn string_of(p: ParamModel) -> Option<Seq<char>> {
    match p {
        ParamModel::STR(s) => Some(s),
        _ => None,
    }
}

impl InstructionParam {
    /// The branch destination held by an `OFFSET` operand.
    pub fn to_offset(&self) -> (r: Option<i32>)
        ensures
            r == offset_of(self@),
    {
        match self {
            InstructionParam::OFFSET(v) => Some(*v),
            _ => None,
        }
    }

    /// The text held by a `STR` operand.
    pub fn to_string(&self) -> (r: Option<String>)
        ensures
            r matches Some(s) ==> string_of(self@) == Some(s@),
            r is None <==> string_of(self@) is None,
    {
        match self {
            InstructionParam::STR(s) => Some(s.clone()),
            _ => None,
        }
    }
}

/// One decoded instruction.
#[derive(Debug)]
pub struct Instruction {
    /// The raw opcode, negation flag included.
    pub opcode: u16,
    pub name: String,
    /// Absolute offset in the file.
    pub offset: u32,
    pub params: Vec<InstructionParam>,
}

/// What a decoded instruction denotes.
pub struct InstructionModel {
    pub opcode: u16,
    pub name: Seq<char>,
    pub offset: u32,
    pub params: Seq<ParamModel>,
}

impl View for Instruction {
    type V = InstructionModel;

    open spec fn view(&self) -> InstructionModel {
        InstructionModel {
            opcode: self.opcode,
            name: self.name@,
            offset: self.offset,
            params: self.params@.map_values(|p: InstructionParam| p@),
        }
    }
}

/// The views of a sequence of instructions.
pub open spec fn models(s: Seq<Instruction>) -> Seq<InstructionModel> {
    s.map_values(|i: Instruction| i@)
}

} // verus!
