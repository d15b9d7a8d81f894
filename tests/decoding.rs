use scm_disasm::definitions::DefinitionMap;
use scm_disasm::disassembler::scanner::Scanner;
use scm_disasm::disassembler::{out_file_candidate, Disassembler, GlobalContext};
use scm_disasm::library::{Attr, Command, CommandParam, CommandParamSource, CommandParamType};
use scm_disasm::platform::{get_parser, Game};
use scm_disasm::types::{Float, Instruction, InstructionParam, ScriptType};

fn param(t: CommandParamType) -> CommandParam {
    CommandParam { name: String::from("p"), source: CommandParamSource::Any, param_type: t }
}

fn command(id: u16, name: &str, input: Vec<CommandParam>, attrs: Attr) -> Command {
    Command {
        id: Some(id),
        name: String::from(name),
        num_params: input.len() as i32,
        short_desc: String::new(),
        class: None,
        member: None,
        attrs,
        input,
        output: vec![],
        platforms: vec![],
        versions: vec![],
    }
}

fn gta3_dictionary() -> DefinitionMap {
    let goto_attrs = Attr { is_branch: true, is_segment: true, ..Attr::default() };
    DefinitionMap::from_pairs(vec![
        (0x0002, command(0x0002, "goto", vec![param(CommandParamType::Label)], goto_attrs)),
        (0x03A4, command(0x03A4, "SCRIPT_NAME", vec![param(CommandParamType::String)], Attr::default())),
        (0x0004, command(0x0004, "set_var_int", vec![param(CommandParamType::Int), param(CommandParamType::Int)], Attr::default())),
        (0x0005, command(0x0005, "set_var_float", vec![param(CommandParamType::Int), param(CommandParamType::Float)], Attr::default())),
        (0x00D6, command(0x00D6, "print_values", vec![param(CommandParamType::Arguments)], Attr::default())),
    ])
}

fn decode(bytes: &Vec<u8>, defs: &DefinitionMap, game: Game, base: u32) -> Vec<Instruction> {
    let mut parser = get_parser(game, bytes, defs, base);
    parser.collect()
}

fn line(inst: &Instruction) -> String {
    let mut s = String::new();
    scm_disasm::render::push_line(&mut s, inst, &vec![]);
    s
}

#[test]
fn pure_goto_instruction() {
    let defs = gta3_dictionary();
    let bytes = vec![0x02, 0x00, 0x01, 0x51, 0x00, 0x00, 0x00];
    let instructions = decode(&bytes, &defs, Game::GTA3, 0);
    assert_eq!(instructions.len(), 1);
    assert_eq!(line(&instructions[0]), "{000000} goto 81");
    let scanner = Scanner::new(&defs);
    let mut context = GlobalContext::new();
    context.extend_from(&scanner, &instructions);
    assert_eq!(context.targets.len(), 1);
    assert!(context.targets.contains(&81));
    let dasm = Disassembler::new(&defs, &scanner);
    let ir = dasm.run(instructions, ScriptType::MAIN);
    assert_eq!(ir.listing(&context, &vec![]), "{000000} goto 81\n");
}

#[test]
fn unknown_opcode_recovery() {
    let defs = gta3_dictionary();
    let bytes = vec![0xFE, 0xFE];
    let instructions = decode(&bytes, &defs, Game::GTA3, 0);
    assert_eq!(instructions.len(), 2);
    assert_eq!(line(&instructions[0]), "{000000} invalid FE");
    assert_eq!(line(&instructions[1]), "{000001} invalid FE");
    assert_eq!(instructions[1].opcode, 0xFFFF);
}

#[test]
fn string_read_names_the_script() {
    let defs = gta3_dictionary();
    let bytes = vec![0xA4, 0x03, b'm', b'a', b'i', b'n', 0, 0, 0, 0];
    let instructions = decode(&bytes, &defs, Game::GTA3, 0);
    assert_eq!(instructions.len(), 1);
    assert_eq!(line(&instructions[0]), "{000000} SCRIPT_NAME \"main\"");
    let scanner = Scanner::new(&defs);
    let dasm = Disassembler::new(&defs, &scanner);
    let ir = dasm.run(instructions, ScriptType::MISSION);
    assert_eq!(ir.name, "main");
    assert_eq!(out_file_candidate(&ir.name, 0), "out/main.txt");
    assert_eq!(out_file_candidate(&ir.name, 2), "out/main_2.txt");
}

#[test]
fn variadic_arguments() {
    let defs = gta3_dictionary();
    let bytes = vec![0xD6, 0x00, 0x04, 0x2A, 0x05, 0x01, 0x00, 0x00];
    let instructions = decode(&bytes, &defs, Game::GTA3, 0);
    assert_eq!(instructions.len(), 1);
    let ps = &instructions[0].params;
    assert_eq!(ps.len(), 2);
    assert!(matches!(ps[0], InstructionParam::NUM32(42)));
    assert!(matches!(ps[1], InstructionParam::NUM32(1)));
}

#[test]
fn negation_flag_is_kept() {
    let defs = gta3_dictionary();
    let bytes = vec![0x02, 0x80, 0x01, 0x51, 0x00, 0x00, 0x00];
    let instructions = decode(&bytes, &defs, Game::GTA3, 0);
    assert_eq!(instructions.len(), 1);
    assert_eq!(instructions[0].opcode, 0x8002);
    assert_eq!(instructions[0].name, "goto");
}

#[test]
fn offsets_include_base() {
    let defs = gta3_dictionary();
    let bytes = vec![0xFE, 0x02, 0x00, 0x01, 0x05, 0x00, 0x00, 0x00];
    let instructions = decode(&bytes, &defs, Game::GTA3, 100);
    assert_eq!(instructions.len(), 2);
    assert_eq!(instructions[0].offset, 100);
    assert_eq!(instructions[1].offset, 101);
    assert_eq!(line(&instructions[1]), "{000101} goto 5");
}

#[test]
fn truncated_operand_falls_back_byte_by_byte() {
    let defs = gta3_dictionary();
    let bytes = vec![0x02, 0x00, 0x01, 0x51];
    let instructions = decode(&bytes, &defs, Game::GTA3, 0);
    assert_eq!(instructions.len(), 4);
    for (k, inst) in instructions.iter().enumerate() {
        assert_eq!(inst.offset as usize, k);
        assert_eq!(inst.name, "invalid");
        assert!(matches!(inst.params[0], InstructionParam::RAW(b) if b == bytes[k]));
    }
}

#[test]
fn eol_in_fixed_slot_fails() {
    let defs = gta3_dictionary();
    let bytes = vec![0x02, 0x00, 0x00];
    let instructions = decode(&bytes, &defs, Game::GTA3, 0);
    assert_eq!(instructions.len(), 3);
    assert_eq!(instructions[0].name, "invalid");
}

#[test]
fn label_slot_retags_narrow_integers() {
    let defs = gta3_dictionary();
    let bytes = vec![0x02, 0x00, 0x04, 0xF6, 0x02, 0x00, 0x05, 0x10, 0x00];
    let instructions = decode(&bytes, &defs, Game::GTA3, 0);
    assert_eq!(instructions.len(), 2);
    assert!(matches!(instructions[0].params[0], InstructionParam::OFFSET(-10)));
    assert!(matches!(instructions[1].params[0], InstructionParam::OFFSET(16)));
    assert_eq!(line(&instructions[0]), "{000000} goto 10");
}

#[test]
fn variables_and_numbers_render() {
    let defs = gta3_dictionary();
    let bytes = vec![0x04, 0x00, 0x02, 0x10, 0x00, 0x01, 0xFF, 0xFF, 0xFF, 0xFF, 0x04, 0x00, 0x03, 0x02, 0x00, 0x04, 0x07];
    let instructions = decode(&bytes, &defs, Game::GTA3, 0);
    assert_eq!(instructions.len(), 2);
    assert_eq!(line(&instructions[0]), "{000000} set_var_int gvar_16 -1");
    assert_eq!(line(&instructions[1]), "{000010} set_var_int lvar_2 7");
}

#[test]
fn gta3_fixed_point_floats() {
    let defs = gta3_dictionary();
    let bytes = vec![0x05, 0x00, 0x02, 0x00, 0x00, 0x06, 0x18, 0x00, 0x05, 0x00, 0x02, 0x00, 0x00, 0x06, 0xF8, 0xFF];
    let instructions = decode(&bytes, &defs, Game::GTA3, 0);
    assert_eq!(instructions.len(), 2);
    assert!(matches!(instructions[0].params[1], InstructionParam::FLOAT(Float::Fixed16(24))));
    assert_eq!(line(&instructions[0]), "{000000} set_var_float gvar_0 1.5");
    assert_eq!(line(&instructions[1]), "{000008} set_var_float gvar_0 -0.5");
}

#[test]
fn vc_floats_are_ieee_singles() {
    let defs = gta3_dictionary();
    let bytes = vec![0x05, 0x00, 0x02, 0x00, 0x00, 0x06, 0x00, 0x00, 0xC0, 0x3F];
    let instructions = decode(&bytes, &defs, Game::VC, 0);
    assert_eq!(instructions.len(), 1);
    assert!(matches!(instructions[0].params[1], InstructionParam::FLOAT(Float::Ieee32(0x3FC0_0000))));
    let mut s = String::new();
    scm_disasm::render::push_line(&mut s, &instructions[0], &vec![String::new(), String::from("1.5")]);
    assert_eq!(s, "{000000} set_var_float gvar_0 1.5");
}

#[test]
fn invalid_utf8_string_is_replaced() {
    let defs = gta3_dictionary();
    let bytes = vec![0xA4, 0x03, b'a', 0xFF, b'b', 0, 0, 0, 0, 0];
    let instructions = decode(&bytes, &defs, Game::GTA3, 0);
    assert_eq!(instructions.len(), 1);
    assert!(matches!(&instructions[0].params[0], InstructionParam::STR(s) if s == "a\u{FFFD}b"));
}

#[test]
fn wide_offsets_are_not_truncated() {
    let inst = Instruction { opcode: 0x0002, name: String::from("goto"), offset: 1234567, params: vec![InstructionParam::OFFSET(-42)] };
    assert_eq!(line(&inst), "{1234567} goto 42");
}

fn encode_num32(out: &mut Vec<u8>, v: i32) {
    out.push(1);
    out.extend_from_slice(&v.to_le_bytes());
}

#[test]
fn round_trip_of_legal_buffer() {
    let defs = gta3_dictionary();
    let mut bytes = vec![0x04, 0x00, 0x02, 0x07, 0x00];
    encode_num32(&mut bytes, -300);
    bytes.extend_from_slice(&[0x02, 0x00]);
    encode_num32(&mut bytes, -5);
    bytes.extend_from_slice(&[0xD6, 0x00, 0x03, 0x09, 0x00]);
    encode_num32(&mut bytes, 12);
    bytes.push(0);
    let instructions = decode(&bytes, &defs, Game::GTA3, 0);
    assert_eq!(instructions.len(), 3);
    let mut again: Vec<u8> = Vec::new();
    for inst in &instructions {
        again.extend_from_slice(&inst.opcode.to_le_bytes());
        for p in &inst.params {
            match p {
                InstructionParam::NUM32(v) | InstructionParam::OFFSET(v) => encode_num32(&mut again, *v),
                InstructionParam::GVAR(n) => {
                    again.push(2);
                    again.extend_from_slice(&n.to_le_bytes());
                }
                InstructionParam::LVAR(n) => {
                    again.push(3);
                    again.extend_from_slice(&n.to_le_bytes());
                }
                _ => panic!("unexpected operand"),
            }
        }
        if inst.opcode == 0x00D6 {
            again.push(0);
        }
    }
    assert_eq!(again, bytes);
}

#[test]
fn stream_lengths_cover_chunk() {
    let defs = gta3_dictionary();
    let bytes = vec![0xFE, 0x02, 0x00, 0x01, 0x05, 0x00, 0x00, 0x00, 0x02, 0x00, 0x04];
    let base = 40u32;
    let instructions = decode(&bytes, &defs, Game::GTA3, base);
    let mut total = 0u32;
    for (k, inst) in instructions.iter().enumerate() {
        assert!(inst.offset >= base && inst.offset < base + bytes.len() as u32);
        let next = if k + 1 < instructions.len() { instructions[k + 1].offset } else { base + bytes.len() as u32 };
        let len = next - inst.offset;
        assert!(len >= 1);
        if matches!(inst.params.first(), Some(InstructionParam::RAW(_))) {
            assert_eq!(len, 1);
        }
        total += len;
    }
    assert_eq!(total as usize, bytes.len());
    assert_eq!(instructions.len(), 5);
}
