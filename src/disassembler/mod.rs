pub mod scanner;

use crate::definitions::{DefinitionMap, with_name};
use crate::library::Command;
use crate::render::{dec, line_text, push_dec, push_line};
use crate::types::{Instruction, InstructionModel, ScriptType, models, string_of};
use scanner::{Scanner, global_targets, local_targets};
use std::collections::HashSet;
use vstd::prelude::*;
use vstd::string::StringExecFns;

verus! {

broadcast use vstd::std_specs::hash::group_hash_axioms;

/// Branch destinations collected over all chunks: absolute offsets in the
/// MAIN script.
pub struct GlobalContext {
    pub targets: HashSet<i32>,
}

/// Branch destinations of one chunk, relative to it.
pub struct LocalContext {
    pub targets: HashSet<i32>,
}

impl GlobalContext {
    pub fn new() -> (r: Self)
        ensures
            r.targets@ == Set::<i32>::empty(),
    {
        GlobalContext { targets: HashSet::new() }
    }

    /// Adds the absolute destinations of one chunk's instructions.
    pub fn extend_from(&mut self, scanner: &Scanner, instructions: &Vec<Instruction>)
        ensures
            final(self).targets@ == old(self).targets@.union(
                global_targets(scanner.spec_branch_ops(), models(instructions@)),
            ),
    {
        scanner.collect_into(instructions, true, &mut self.targets);
    }
}

/// A character that a slug may hold.
pub open spec fn is_slug_char(c: char) -> bool {
    ('a' <= c && c <= 'z') || ('0' <= c && c <= '9') || c == '_'
}

/// The slug of a text, with `_` as separator.
pub uninterp spec fn slug_of(s: Seq<char>) -> Seq<char>;

/// Relies on `slugify::slugify` with no stop words, separator `_` and no
/// length limit: the result depends on the text alone, and its source pushes
/// only `a`-`z`, `0`-`9` and the separator into it.
#[verifier::external_body]
fn slug(s: &str) -> (r: String)
    ensures
        r@ == slug_of(s@),
        forall|i: int| 0 <= i < r@.len() ==> is_slug_char(#[trigger] r@[i]),
{
    slugify::slugify(s, "", "_", None)
}

/// The index of the first instruction from `k` on with opcode `op`.
pub open spec fn first_with_opcode(s: Seq<InstructionModel>, op: u16, k: int) -> Option<int>
    decreases s.len() - k,
{
    if k < 0 || k >= s.len() {
        None
    } else if s[k].opcode == op {
        Some(k)
    } else {
        first_with_opcode(s, op, k + 1)
    }
}

/// The script's declared name: the string first operand of the first
/// instruction with the naming opcode.
pub open spec fn script_title(s: Seq<InstructionModel>, name_op: Option<u16>) -> Option<Seq<char>> {
    match name_op {
        Some(op) => match first_with_opcode(s, op, 0) {
            Some(k) => if s[k].params.len() > 0 {
                string_of(s[k].params[0])
            } else {
                None
            },
            None => None,
        },
        None => None,
    }
}

/// The file-safe name of a script: the slug of its declared name, or
/// `noname` where it declares none or the slug is empty.
pub open spec fn script_name(title: Option<Seq<char>>) -> Seq<char> {
    match title {
        Some(t) => if slug_of(t).len() > 0 {
            slug_of(t)
        } else {
            "noname"@
        },
        None => "noname"@,
    }
}

/// The naming opcode of a dictionary: the first command called `SCRIPT_NAME`.
pub open spec fn name_opcode(ops: Map<u16, Command>, keys: Seq<u16>) -> Option<u16> {
    let named = with_name(ops, keys, "SCRIPT_NAME"@);
    if named.len() > 0 {
        Some(named[0])
    } else {
        None
    }
}

/// Whether the instruction at `offset` gets a label line.
pub open spec fn labelled(t: ScriptType, global: Set<i32>, local: Set<i32>, offset: u32) -> bool {
    offset <= i32::MAX && (if t == ScriptType::MAIN {
        global.contains(offset as i32)
    } else {
        local.contains((-(offset as int)) as i32)
    })
}

/// The text an instruction takes in the listing: its label line, when it
/// has one, after an empty line, then its own line.
pub open spec fn entry_text(i: InstructionModel, label: bool, floats: Seq<String>) -> Seq<char> {
    (if label {
        seq!['\n', ':'] + dec(i.offset as nat) + seq!['\n']
    } else {
        Seq::empty()
    }) + line_text(i, floats) + seq!['\n']
}

/// The float texts of instruction `k`, or none.
pub open spec fn floats_at(floats: Seq<Vec<String>>, k: int) -> Seq<String> {
    if 0 <= k < floats.len() {
        floats[k]@
    } else {
        Seq::empty()
    }
}

/// The listing of instructions `k..` of a chunk.
pub open spec fn listing_text(
    s: Seq<InstructionModel>,
    t: ScriptType,
    global: Set<i32>,
    local: Set<i32>,
    floats: Seq<Vec<String>>,
    k: int,
) -> Seq<char>
    decreases s.len() - k,
{
    if k < 0 || k >= s.len() {
        Seq::empty()
    } else {
        entry_text(s[k], labelled(t, global, local, s[k].offset), floats_at(floats, k))
            + listing_text(s, t, global, local, floats, k + 1)
    }
}

/// The decoded form of one chunk, ready to be listed.
pub struct IR {
    pub name: String,
    pub instructions: Vec<Instruction>,
    pub script_type: ScriptType,
    pub state: LocalContext,
}

/// Turns decoded chunks into named, labelled listings.
pub struct Disassembler<'a> {
    pub definitions: &'a DefinitionMap,
    pub scanner: &'a Scanner,
}

impl<'a> Disassembler<'a> {
    pub fn new(definitions: &'a DefinitionMap, scanner: &'a Scanner) -> (r: Self)
        ensures
            r.definitions == definitions,
            r.scanner == scanner,
    {
        Disassembler { definitions, scanner }
    }

    /// Names a decoded chunk and collects its relative branch destinations.
    pub fn run(&self, instructions: Vec<Instruction>, script_type: ScriptType) -> (r: IR)
        requires
            self.definitions.wf(),
        ensures
            r.name@ == script_name(
                script_title(
                    models(instructions@),
                    name_opcode(self.definitions@, self.definitions.keys()),
                ),
            ),
            r.name@.len() > 0,
            forall|i: int| 0 <= i < r.name@.len() ==> is_slug_char(#[trigger] r.name@[i]),
            r.instructions@ == instructions@,
            r.script_type == script_type,
            r.state.targets@ == local_targets(self.scanner.spec_branch_ops(), models(instructions@)),
    {
        let ghost s = models(instructions@);
        let ghost name_op = name_opcode(self.definitions@, self.definitions.keys());
        let name_op = self.definitions.find_by_name(&String::from_str("SCRIPT_NAME"));
        assert(name_op == name_opcode(self.definitions@, self.definitions.keys()));
        let mut title: Option<String> = None;
        if let Some(op) = name_op {
            let mut k: usize = 0;
            while k < instructions.len() && instructions[k].opcode != op
                invariant
                    k <= instructions@.len(),
                    s == models(instructions@),
                    first_with_opcode(s, op, 0) == first_with_opcode(s, op, k as int),
                decreases instructions@.len() - k,
            {
                assert(s[k as int] == instructions@[k as int]@);
                k = k + 1;
            }
            if k < instructions.len() {
                assert(s[k as int] == instructions@[k as int]@);
                assert(first_with_opcode(s, op, 0) == Some(k as int));
                if instructions[k].params.len() > 0 {
                    assert(s[k as int].params[0] == instructions@[k as int].params@[0]@);
                    title = instructions[k].params[0].to_string();
                }
            }
        }
        proof {
            reveal_strlit("noname");
        }
        let name = match title {
            Some(t) => {
                let slugged = slug(t.as_str());
                if slugged.as_str().unicode_len() > 0 {
                    slugged
                } else {
                    String::from_str("noname")
                }
            },
            None => String::from_str("noname"),
        };
        let targets = self.scanner.collect_relative_addresses(&instructions);
        IR { name, instructions, script_type, state: LocalContext { targets } }
    }
}

impl IR {
    /// Whether a MAIN chunk names relative destinations, which suggests it
    /// was not recognised correctly.
    pub fn relative_offsets_in_main(&self) -> (r: bool)
        ensures
            r == (self.script_type == ScriptType::MAIN && self.state.targets@.len() > 0),
    {
        match self.script_type {
            ScriptType::MAIN => self.state.targets.len() > 0,
            _ => false,
        }
    }

    /// The listing of the chunk: a line per instruction, each branch
    /// destination preceded by a label line. `floats[k][j]` is the text of
    /// operand `j` of instruction `k` where that is an IEEE single.
    pub fn listing(&self, global_context: &GlobalContext, floats: &Vec<Vec<String>>) -> (r: String)
        ensures
            r@ == listing_text(
                models(self.instructions@),
                self.script_type,
                global_context.targets@,
                self.state.targets@,
                floats@,
                0,
            ),
    {
        let ghost s = models(self.instructions@);
        let ghost g = global_context.targets@;
        let ghost l = self.state.targets@;
        let none: Vec<String> = Vec::new();
        let mut out = String::new();
        let mut k: usize = 0;
        while k < self.instructions.len()
            invariant
                k <= self.instructions@.len(),
                s == models(self.instructions@),
                g == global_context.targets@,
                l == self.state.targets@,
                none@ == Seq::<String>::empty(),
                listing_text(s, self.script_type, g, l, floats@, 0) == out@ + listing_text(
                    s,
                    self.script_type,
                    g,
                    l,
                    floats@,
                    k as int,
                ),
            decreases self.instructions@.len() - k,
        {
            let inst = &self.instructions[k];
            assert(s[k as int] == inst@);
            let ghost before = out@;
            let label = if inst.offset <= 0x7FFF_FFFF {
                let off = inst.offset as i32;
                match self.script_type {
                    ScriptType::MAIN => global_context.targets.contains(&off),
                    _ => self.state.targets.contains(&(-off)),
                }
            } else {
                false
            };
            assert(label == labelled(self.script_type, g, l, inst.offset));
            proof {
                reveal_strlit("\n:");
                reveal_strlit("\n");
            }
            let ghost mid = out@;
            if label {
                out.append("\n:");
                push_dec(&mut out, inst.offset as u64);
                out.append("\n");
            }
            let ghost labelled_text = out@;
            let fl = if k < floats.len() {
                &floats[k]
            } else {
                &none
            };
            push_line(&mut out, inst, fl);
            out.append("\n");
            proof {
                assert(fl@ == floats_at(floats@, k as int));
                assert(out@ =~= before + entry_text(inst@, label, floats_at(floats@, k as int)));
            }
            k = k + 1;
        }
        proof {
            assert(out@ + Seq::<char>::empty() =~= out@);
        }
        out
    }
}

/// The path of the listing of script `name`: `out/<name>.txt`, or with
/// `_<count>` after the name when `count` is not zero.
pub open spec fn out_file_name(name: Seq<char>, count: nat) -> Seq<char> {
    seq!['o', 'u', 't', '/'] + name + (if count == 0 {
        Seq::empty()
    } else {
        seq!['_'] + dec(count)
    }) + seq!['.', 't', 'x', 't']
}

/// The `count`-th candidate path for the listing of script `name`; the
/// first free one is used.
pub fn out_file_candidate(name: &String, count: u64) -> (r: String)
    ensures
        r@ == out_file_name(name@, count as nat),
{
    proof {
        reveal_strlit("out/");
        reveal_strlit("_");
        reveal_strlit(".txt");
    }
    let mut r = String::from_str("out/");
    r.append(name.as_str());
    if count != 0 {
        r.append("_");
        push_dec(&mut r, count);
    }
    r.append(".txt");
    r
}

} // verus!
