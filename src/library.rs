use crate::definitions::{DefinitionMap, add_pairs};
use vstd::prelude::*;
use vstd::string::{StrSliceExecFns, StringExecFns};

verus! {

/// The semantic type of a command parameter.
#[derive(Debug, Clone)]
pub enum CommandParamType {
    Int,
    Float,
    String,
    Boolean,
    Label,
    Arguments,
    Vector(usize),
    Any(String),
}

/// Where a command parameter may take its value from.
#[derive(Debug, Clone, Copy, PartialEq, Eq, Structural)]
pub enum CommandParamSource {
    Any,
    AnyVar,
    AnyVarGlobal,
    AnyVarLocal,
    Literal,
    Pointer,
}

/// A platform a command is available on.
#[derive(Debug, Clone, Copy, PartialEq, Eq, Structural)]
pub enum Platform {
    Any,
    PC,
    Console,
    Mobile,
}

/// A game version a command is available in.
#[derive(Debug, Clone, Copy, PartialEq, Eq, Structural)]
pub enum Version {
    Any,
    _10,
    _10DE,
}

/// The boolean attributes of a command.
#[derive(Debug, Clone, Copy, Default, PartialEq, Eq, Structural)]
pub struct Attr {
    pub is_branch: bool,
    pub is_condition: bool,
    pub is_constructor: bool,
    pub is_destructor: bool,
    pub is_keyword: bool,
    pub is_nop: bool,
    pub is_overload: bool,
    pub is_segment: bool,
    pub is_static: bool,
    pub is_unsupported: bool,
}

/// One attribute of a command, for lookups by attribute.
#[derive(Debug, Clone, Copy, PartialEq, Eq, Structural)]
pub enum Attribute {
    Branch,
    Condition,
    Constructor,
    Destructor,
    Keyword,
    Nop,
    Overload,
    Segment,
    Static,
    Unsupported,
}

/// The number of attributes.
pub const ATTRIBUTE_COUNT: u8 = 10;

impl Attribute {
    /// The attribute's position in the list of attributes.
    pub open spec fn spec_ordinal(&self) -> u8 {
        match self {
            Attribute::Branch => 0,
            Attribute::Condition => 1,
            Attribute::Constructor => 2,
            Attribute::Destructor => 3,
            Attribute::Keyword => 4,
            Attribute::Nop => 5,
            Attribute::Overload => 6,
            Attribute::Segment => 7,
            Attribute::Static => 8,
            Attribute::Unsupported => 9,
        }
    }

    pub fn ordinal(&self) -> (r: u8)
        ensures
            r == self.spec_ordinal(),
            r < ATTRIBUTE_COUNT,
    {
        match self {
            Attribute::Branch => 0,
            Attribute::Condition => 1,
            Attribute::Constructor => 2,
            Attribute::Destructor => 3,
            Attribute::Keyword => 4,
            Attribute::Nop => 5,
            Attribute::Overload => 6,
            Attribute::Segment => 7,
            Attribute::Static => 8,
            Attribute::Unsupported => 9,
        }
    }

    /// The attribute at position `i` of the list of attributes.
    pub fn from_ordinal(i: u8) -> (r: Attribute)
        requires
            i < ATTRIBUTE_COUNT,
        ensures
            r.spec_ordinal() == i,
    {
        match i {
            0 => Attribute::Branch,
            1 => Attribute::Condition,
            2 => Attribute::Constructor,
            3 => Attribute::Destructor,
            4 => Attribute::Keyword,
            5 => Attribute::Nop,
            6 => Attribute::Overload,
            7 => Attribute::Segment,
            8 => Attribute::Static,
            _ => Attribute::Unsupported,
        }
    }
}

impl Attr {
    pub open spec fn spec_has(&self, a: Attribute) -> bool {
        match a {
            Attribute::Branch => self.is_branch,
            Attribute::Condition => self.is_condition,
            Attribute::Constructor => self.is_constructor,
            Attribute::Destructor => self.is_destructor,
            Attribute::Keyword => self.is_keyword,
            Attribute::Nop => self.is_nop,
            Attribute::Overload => self.is_overload,
            Attribute::Segment => self.is_segment,
            Attribute::Static => self.is_static,
            Attribute::Unsupported => self.is_unsupported,
        }
    }

    /// Whether the attribute `a` is set.
    pub fn has(&self, a: Attribute) -> (r: bool)
        ensures
            r == self.spec_has(a),
    {
        match a {
            Attribute::Branch => self.is_branch,
            Attribute::Condition => self.is_condition,
            Attribute::Constructor => self.is_constructor,
            Attribute::Destructor => self.is_destructor,
            Attribute::Keyword => self.is_keyword,
            Attribute::Nop => self.is_nop,
            Attribute::Overload => self.is_overload,
            Attribute::Segment => self.is_segment,
            Attribute::Static => self.is_static,
            Attribute::Unsupported => self.is_unsupported,
        }
    }
}

/// One input or output parameter of a command.
#[derive(Debug, Clone)]
pub struct CommandParam {
    pub name: String,
    pub source: CommandParamSource,
    pub param_type: CommandParamType,
}

/// A command of the library: its opcode, name, parameters and attributes.
#[derive(Debug, Clone)]
pub struct Command {
    pub id: Option<u16>,
    pub name: String,
    pub num_params: i32,
    pub short_desc: String,
    pub class: Option<String>,
    pub member: Option<String>,
    pub attrs: Attr,
    pub input: Vec<CommandParam>,
    pub output: Vec<CommandParam>,
    pub platforms: Vec<Platform>,
    pub versions: Vec<Version>,
}

/// A named group of commands.
#[derive(Debug)]
pub struct Extension {
    pub name: String,
    pub commands: Vec<Command>,
}

/// Where the library comes from.
#[derive(Debug)]
pub struct Meta {
    pub last_update: u64,
    pub url: String,
    pub version: String,
}

/// A class of script objects.
#[derive(Debug)]
pub struct ClassMeta {
    pub name: String,
    pub desc: String,
    pub extends: Option<String>,
    pub constructable: bool,
}

/// A command library for one game.
#[derive(Debug)]
pub struct Library {
    pub meta: Meta,
    pub extensions: Vec<Extension>,
    pub classes: Vec<ClassMeta>,
}

/// How the decoder treats a parameter slot.
pub enum SlotKind {
    Label,
    Arguments,
    Plain,
}

pub open spec fn slot_kind(t: CommandParamType) -> SlotKind {
    match t {
        CommandParamType::Label => SlotKind::Label,
        CommandParamType::Arguments => SlotKind::Arguments,
        _ => SlotKind::Plain,
    }
}

impl Command {
    /// The parameter slots in decoding order: inputs, then outputs.
    pub open spec fn slots(&self) -> Seq<SlotKind> {
        (self.input@ + self.output@).map_values(|p: CommandParam| slot_kind(p.param_type))
    }
}

/// Whether `t` is the parameter type that the library names `n`; an unknown
/// name stands for a class of that name.
pub open spec fn names_type(n: Seq<char>, t: CommandParamType) -> bool {
    if n == "float"@ {
        t is Float
    } else if n == "int"@ || n == "model_any"@ || n == "model_char"@ || n == "model_object"@ || n
        == "model_vehicle"@ {
        t is Int
    } else if n == "label"@ {
        t is Label
    } else if n == "string"@ || n == "gxt_key"@ || n == "zone_key"@ {
        t is String
    } else if n == "bool"@ || n == "boolean"@ {
        t is Boolean
    } else if n == "arguments"@ {
        t is Arguments
    } else if n == "Object"@ {
        t matches CommandParamType::Any(c) && c@ == "ScriptObject"@
    } else if n == "Vector3"@ {
        t matches CommandParamType::Vector(k) && k == 3
    } else {
        t matches CommandParamType::Any(c) && c@ == n
    }
}

/// The parameter source that the library names `n`; unknown names mean any.
pub open spec fn source_named(n: Seq<char>) -> CommandParamSource {
    if n == "var_any"@ {
        CommandParamSource::AnyVar
    } else if n == "var_global"@ {
        CommandParamSource::AnyVarGlobal
    } else if n == "var_local"@ {
        CommandParamSource::AnyVarLocal
    } else if n == "literal"@ {
        CommandParamSource::Literal
    } else if n == "pointer"@ {
        CommandParamSource::Pointer
    } else {
        CommandParamSource::Any
    }
}

/// The platform that the library names `n`, if it is known.
pub open spec fn platform_named(n: Seq<char>) -> Option<Platform> {
    if n == "any"@ {
        Some(Platform::Any)
    } else if n == "pc"@ {
        Some(Platform::PC)
    } else if n == "console"@ {
        Some(Platform::Console)
    } else if n == "mobile"@ {
        Some(Platform::Mobile)
    } else {
        None
    }
}

/// The version that the library names `n`, if it is known.
pub open spec fn version_named(n: Seq<char>) -> Option<Version> {
    if n == "any"@ {
        Some(Version::Any)
    } else if n == "1.0"@ {
        Some(Version::_10)
    } else if n == "1.0 [DE]"@ {
        Some(Version::_10DE)
    } else {
        None
    }
}

/// The known versions among `names`, in order; unknown ones are dropped.
pub open spec fn versions_named(names: Seq<String>) -> Seq<Version>
    decreases names.len(),
{
    if names.len() == 0 {
        Seq::empty()
    } else {
        let rest = versions_named(names.drop_last());
        match version_named(names.last()@) {
            Some(v) => rest.push(v),
            None => rest,
        }
    }
}

/// The value of a hexadecimal digit.
pub open spec fn hex_digit_value(c: char) -> Option<int> {
    if '0' <= c && c <= '9' {
        Some(c as int - '0' as int)
    } else if 'a' <= c && c <= 'f' {
        Some(c as int - 'a' as int + 10)
    } else if 'A' <= c && c <= 'F' {
        Some(c as int - 'A' as int + 10)
    } else {
        None
    }
}

/// The value of a string of hexadecimal digits.
pub open spec fn hex_value(s: Seq<char>) -> Option<int>
    decreases s.len(),
{
    if s.len() == 0 {
        Some(0)
    } else {
        match (hex_value(s.drop_last()), hex_digit_value(s.last())) {
            (Some(v), Some(d)) => Some(16 * v + d),
            _ => None,
        }
    }
}

/// The opcode that a hexadecimal id names: an optional `+`, then at least one
/// digit, with a value that fits in 16 bits.
pub open spec fn opcode_named(s: Seq<char>) -> Option<u16> {
    let digits = if s.len() > 0 && s[0] == '+' {
        s.drop_first()
    } else {
        s
    };
    if digits.len() == 0 {
        None
    } else {
        match hex_value(digits) {
            Some(v) => if v < 0x10000 {
                Some(v as u16)
            } else {
                None
            },
            None => None,
        }
    }
}

proof fn lemma_hex_value_nonneg(s: Seq<char>)
    ensures
        hex_value(s) matches Some(v) ==> v >= 0,
    decreases s.len(),
{
    if s.len() > 0 {
        lemma_hex_value_nonneg(s.drop_last());
    }
}

proof fn lemma_hex_value_grows(s: Seq<char>, k: int)
    requires
        0 <= k <= s.len(),
        hex_value(s) is Some,
    ensures
        hex_value(s.subrange(0, k)) is Some,
        hex_value(s.subrange(0, k))->0 <= hex_value(s)->0,
    decreases s.len(),
{
    if k < s.len() {
        lemma_hex_value_grows(s.drop_last(), k);
        lemma_hex_value_nonneg(s.drop_last());
        assert(s.drop_last().subrange(0, k) == s.subrange(0, k));
        assert(hex_value(s.drop_last())->0 <= hex_value(s)->0);
    } else {
        assert(s.subrange(0, k) == s);
    }
}

/// Whether two texts are equal.
fn same(a: &str, b: &str) -> (r: bool)
    ensures
        r == (a@ == b@),
{
    String::from_str(a) == String::from_str(b)
}

impl CommandParamType {
    /// The parameter type that the library names `n`.
    pub fn from_name(n: &str) -> (r: Self)
        ensures
            names_type(n@, r),
    {
        if same(n, "float") {
            CommandParamType::Float
        } else if same(n, "int") || same(n, "model_any") || same(n, "model_char") || same(
            n,
            "model_object",
        ) || same(n, "model_vehicle") {
            CommandParamType::Int
        } else if same(n, "label") {
            CommandParamType::Label
        } else if same(n, "string") || same(n, "gxt_key") || same(n, "zone_key") {
            CommandParamType::String
        } else if same(n, "bool") || same(n, "boolean") {
            CommandParamType::Boolean
        } else if same(n, "arguments") {
            CommandParamType::Arguments
        } else if same(n, "Object") {
            CommandParamType::Any(String::from_str("ScriptObject"))
        } else if same(n, "Vector3") {
            CommandParamType::Vector(3)
        } else {
            CommandParamType::Any(String::from_str(n))
        }
    }
}

impl CommandParamSource {
    /// The parameter source that the library names `n`.
    pub fn from_name(n: &str) -> (r: Self)
        ensures
            r == source_named(n@),
    {
        if same(n, "var_any") {
            CommandParamSource::AnyVar
        } else if same(n, "var_global") {
            CommandParamSource::AnyVarGlobal
        } else if same(n, "var_local") {
            CommandParamSource::AnyVarLocal
        } else if same(n, "literal") {
            CommandParamSource::Literal
        } else if same(n, "pointer") {
            CommandParamSource::Pointer
        } else {
            CommandParamSource::Any
        }
    }
}

fn platform_from_name(n: &str) -> (r: Option<Platform>)
    ensures
        r == platform_named(n@),
{
    if same(n, "any") {
        Some(Platform::Any)
    } else if same(n, "pc") {
        Some(Platform::PC)
    } else if same(n, "console") {
        Some(Platform::Console)
    } else if same(n, "mobile") {
        Some(Platform::Mobile)
    } else {
        None
    }
}

fn version_from_name(n: &str) -> (r: Option<Version>)
    ensures
        r == version_named(n@),
{
    if same(n, "any") {
        Some(Version::Any)
    } else if same(n, "1.0") {
        Some(Version::_10)
    } else if same(n, "1.0 [DE]") {
        Some(Version::_10DE)
    } else {
        None
    }
}

/// The opcode of a hexadecimal command id such as `03A4`.
pub fn convert_to_number(s: &str) -> (r: Option<u16>)
    ensures
        r == opcode_named(s@),
{
    let len = s.unicode_len();
    let mut i: usize = 0;
    if len > 0 && s.get_char(0) == '+' {
        i = 1;
    }
    let ghost digits = s@.subrange(i as int, len as int);
    proof {
        if i == 1 {
            assert(digits == s@.drop_first());
        } else {
            assert(digits == s@);
        }
    }
    if i >= len {
        return None;
    }
    let start = i;
    let mut acc: u32 = 0;
    while i < len
        invariant
            start <= i <= len == s@.len(),
            digits == s@.subrange(start as int, len as int),
            opcode_named(s@) == match hex_value(digits) {
                Some(v) => if v < 0x10000 {
                    Some(v as u16)
                } else {
                    None
                },
                None => None,
            },
            acc <= 0xFFFF,
            hex_value(digits.subrange(0, i - start)) == Some(acc as int),
        decreases len - i,
    {
        let c = s.get_char(i);
        let d: u32 = if '0' <= c && c <= '9' {
            (c as u32) - ('0' as u32)
        } else if 'a' <= c && c <= 'f' {
            (c as u32) - ('a' as u32) + 10
        } else if 'A' <= c && c <= 'F' {
            (c as u32) - ('A' as u32) + 10
        } else {
            proof {
                let pre = digits.subrange(0, i + 1 - start);
                assert(pre.drop_last() == digits.subrange(0, i - start));
                assert(pre.last() == c);
                if hex_value(digits) is Some {
                    lemma_hex_value_grows(digits, i + 1 - start);
                }
            }
            return None;
        };
        let ghost old_acc = acc;
        acc = acc * 16 + d;
        i = i + 1;
        proof {
            let pre = digits.subrange(0, i - start);
            assert(pre.drop_last() == digits.subrange(0, i - 1 - start));
            assert(pre.last() == c);
        }
        if acc > 0xFFFF {
            proof {
                if hex_value(digits) is Some {
                    lemma_hex_value_grows(digits, i - start);
                }
            }
            return None;
        }
    }
    proof {
        assert(digits.subrange(0, len - start) == digits);
    }
    Some(acc as u16)
}

/// The platforms that `names` name, in order, or the first unknown name.
pub fn convert_platform(names: &Vec<String>) -> (r: Result<Vec<Platform>, String>)
    ensures
        match r {
            Ok(v) => v@.len() == names@.len() && forall|i: int|
                0 <= i < names@.len() ==> platform_named(names@[i]@) == Some(#[trigger] v@[i]),
            Err(bad) => exists|i: int|
                {
                    &&& 0 <= i < names@.len()
                    &&& names@[i]@ == bad@
                    &&& platform_named(#[trigger] names@[i]@) is None
                    &&& forall|j: int| 0 <= j < i ==> platform_named(names@[j]@) is Some
                },
        },
{
    let mut res: Vec<Platform> = Vec::new();
    let mut i: usize = 0;
    while i < names.len()
        invariant
            i <= names@.len(),
            res@.len() == i,
            forall|j: int| 0 <= j < i ==> platform_named(names@[j]@) == Some(#[trigger] res@[j]),
        decreases names@.len() - i,
    {
        match platform_from_name(names[i].as_str()) {
            Some(p) => res.push(p),
            None => {
                let bad = names[i].clone();
                assert(exists|k: int|
                    {
                        &&& 0 <= k < names@.len()
                        &&& names@[k]@ == bad@
                        &&& platform_named(#[trigger] names@[k]@) is None
                        &&& forall|j: int| 0 <= j < k ==> platform_named(names@[j]@) is Some
                    }) by {
                    let k = i as int;
                    assert(names@[k]@ == bad@);
                    assert(platform_named(names@[k]@) is None);
                    assert forall|j: int| 0 <= j < k implies platform_named(names@[j]@) is Some by {
                        assert(platform_named(names@[j]@) == Some(res@[j]));
                    }
                }
                return Err(bad);
            },
        }
        i = i + 1;
    }
    Ok(res)
}

/// The known versions that `names` name, in order; unknown ones are dropped.
pub fn convert_version(names: &Vec<String>) -> (r: Vec<Version>)
    ensures
        r@ == versions_named(names@),
{
    let mut res: Vec<Version> = Vec::new();
    let mut i: usize = 0;
    while i < names.len()
        invariant
            i <= names@.len(),
            res@ == versions_named(names@.subrange(0, i as int)),
        decreases names@.len() - i,
    {
        let v = version_from_name(names[i].as_str());
        proof {
            let pre = names@.subrange(0, i + 1);
            assert(pre.drop_last() == names@.subrange(0, i as int));
        }
        if let Some(v) = v {
            res.push(v);
        }
        i = i + 1;
    }
    proof {
        assert(names@.subrange(0, names@.len() as int) == names@);
    }
    res
}

/// A class name as the library spells it, with `Object` renamed to
/// `ScriptObject`.
pub fn rename_object(name: String) -> (r: String)
    ensures
        r@ == (if name@ == "Object"@ {
            "ScriptObject"@
        } else {
            name@
        }),
{
    if same(name.as_str(), "Object") {
        String::from_str("ScriptObject")
    } else {
        name
    }
}

/// The (opcode, command) pairs of the commands that have an opcode, in order.
pub open spec fn command_pairs(cmds: Seq<Command>) -> Seq<(u16, Command)>
    decreases cmds.len(),
{
    if cmds.len() == 0 {
        Seq::empty()
    } else {
        (match cmds[0].id {
            Some(id) => seq![(id, cmds[0])],
            None => Seq::empty(),
        }) + command_pairs(cmds.drop_first())
    }
}

proof fn lemma_command_pairs_add(a: Seq<Command>, b: Seq<Command>)
    ensures
        command_pairs(a + b) == command_pairs(a) + command_pairs(b),
    decreases a.len(),
{
    if a.len() > 0 {
        lemma_command_pairs_add(a.drop_first(), b);
        assert((a + b).drop_first() == a.drop_first() + b);
        assert((a + b)[0] == a[0]);
        let h: Seq<(u16, Command)> = match a[0].id {
            Some(id) => seq![(id, a[0])],
            None => Seq::empty(),
        };
        assert(h + (command_pairs(a.drop_first()) + command_pairs(b)) == (h + command_pairs(
            a.drop_first(),
        )) + command_pairs(b));
    } else {
        assert(a + b == b);
    }
}

/// The commands of all extensions, in order.
pub open spec fn all_commands(exts: Seq<Extension>) -> Seq<Command> {
    exts.map_values(|e: Extension| e.commands@).flatten()
}

impl Library {
    /// The opcode dictionary of the library: each command with an opcode, a
    /// later one replacing an earlier one with the same opcode.
    pub fn to_map(self) -> (r: DefinitionMap)
        ensures
            r.wf(),
            (r@, r.keys()) == add_pairs(
                (Map::empty(), Seq::empty()),
                command_pairs(all_commands(self.extensions@)),
            ),
    {
        let ghost target = command_pairs(all_commands(self.extensions@));
        let mut exts = self.extensions;
        let mut pairs: Vec<(u16, Command)> = Vec::new();
        while exts.len() > 0
            invariant
                target == pairs@ + command_pairs(all_commands(exts@)),
            decreases exts@.len(),
        {
            let ghost before = exts@;
            let ext = exts.remove(0);
            proof {
                assert(before == seq![ext] + exts@);
                assert(before.map_values(|e: Extension| e.commands@).drop_first() == exts@.map_values(
                    |e: Extension| e.commands@,
                ));
                lemma_command_pairs_add(ext.commands@, all_commands(exts@));
            }
            let mut cmds = ext.commands;
            while cmds.len() > 0
                invariant
                    target == pairs@ + command_pairs(cmds@) + command_pairs(all_commands(exts@)),
                decreases cmds@.len(),
            {
                let ghost cbefore = cmds@;
                let ghost pbefore = pairs@;
                let c = cmds.remove(0);
                proof {
                    assert(cbefore.drop_first() == cmds@);
                }
                match c.id {
                    Some(id) => {
                        pairs.push((id, c));
                    },
                    None => {},
                }
                proof {
                    assert(pbefore + command_pairs(cbefore) == pairs@ + command_pairs(cmds@));
                }
            }
            proof {
                assert(pairs@ + command_pairs(cmds@) == pairs@);
            }
        }
        proof {
            assert(pairs@ + command_pairs(all_commands(exts@)) == pairs@);
        }
        DefinitionMap::from_pairs(pairs)
    }
}

} // verus!
