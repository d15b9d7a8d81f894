use scm_disasm::definitions::DefinitionMap;
use scm_disasm::disassembler::scanner::Scanner;
use scm_disasm::disassembler::{Disassembler, GlobalContext};
use scm_disasm::library::{
    convert_platform, convert_to_number, convert_version, rename_object, Attr, Attribute, ClassMeta,
    Command, CommandParam, CommandParamSource, CommandParamType, Extension, Library, Meta, Platform,
    Version,
};
use scm_disasm::platform::{get_parser, Game};
use scm_disasm::types::ScriptType;

fn cmd(id: Option<u16>, name: &str, input: Vec<CommandParamType>, attrs: Attr) -> Command {
    Command {
        id,
        name: String::from(name),
        num_params: input.len() as i32,
        short_desc: String::new(),
        class: None,
        member: None,
        attrs,
        input: input
            .into_iter()
            .map(|t| CommandParam { name: String::from("x"), source: CommandParamSource::Any, param_type: t })
            .collect(),
        output: vec![],
        platforms: vec![],
        versions: vec![],
    }
}

fn library(extensions: Vec<Extension>) -> Library {
    Library {
        meta: Meta { last_update: 0, url: String::new(), version: String::from("1") },
        extensions,
        classes: vec![ClassMeta { name: String::from("ScriptObject"), desc: String::new(), extends: None, constructable: false }],
    }
}

#[test]
fn hex_ids() {
    assert_eq!(convert_to_number("03A4"), Some(0x03A4));
    assert_eq!(convert_to_number("ffff"), Some(0xFFFF));
    assert_eq!(convert_to_number("+1f"), Some(0x1F));
    assert_eq!(convert_to_number("10000"), None);
    assert_eq!(convert_to_number(""), None);
    assert_eq!(convert_to_number("+"), None);
    assert_eq!(convert_to_number("0G"), None);
}

#[test]
fn parameter_type_names() {
    assert!(matches!(CommandParamType::from_name("float"), CommandParamType::Float));
    assert!(matches!(CommandParamType::from_name("model_char"), CommandParamType::Int));
    assert!(matches!(CommandParamType::from_name("label"), CommandParamType::Label));
    assert!(matches!(CommandParamType::from_name("gxt_key"), CommandParamType::String));
    assert!(matches!(CommandParamType::from_name("boolean"), CommandParamType::Boolean));
    assert!(matches!(CommandParamType::from_name("arguments"), CommandParamType::Arguments));
    assert!(matches!(CommandParamType::from_name("Vector3"), CommandParamType::Vector(3)));
    assert!(matches!(CommandParamType::from_name("Object"), CommandParamType::Any(s) if s == "ScriptObject"));
    assert!(matches!(CommandParamType::from_name("Car"), CommandParamType::Any(s) if s == "Car"));
}

#[test]
fn parameter_sources() {
    assert_eq!(CommandParamSource::from_name("var_global"), CommandParamSource::AnyVarGlobal);
    assert_eq!(CommandParamSource::from_name("pointer"), CommandParamSource::Pointer);
    assert_eq!(CommandParamSource::from_name("whatever"), CommandParamSource::Any);
}

#[test]
fn platforms_and_versions() {
    let names = vec![String::from("pc"), String::from("mobile")];
    assert_eq!(convert_platform(&names), Ok(vec![Platform::PC, Platform::Mobile]));
    let bad = vec![String::from("pc"), String::from("amiga")];
    assert_eq!(convert_platform(&bad), Err(String::from("amiga")));
    let versions = vec![String::from("1.0"), String::from("2.0"), String::from("1.0 [DE]")];
    assert_eq!(convert_version(&versions), vec![Version::_10, Version::_10DE]);
    assert_eq!(rename_object(String::from("Object")), "ScriptObject");
    assert_eq!(rename_object(String::from("Car")), "Car");
}

#[test]
fn to_map_keeps_commands_with_ids() {
    let lib = library(vec![
        Extension { name: String::from("default"), commands: vec![cmd(Some(1), "one", vec![], Attr::default()), cmd(None, "pseudo", vec![], Attr::default())] },
        Extension { name: String::from("more"), commands: vec![cmd(Some(2), "two", vec![], Attr::default()), cmd(Some(1), "uno", vec![], Attr::default())] },
    ]);
    let map = lib.to_map();
    assert_eq!(map.find_by_op(&1).unwrap().name, "uno");
    assert_eq!(map.find_by_op(&2).unwrap().name, "two");
    assert!(map.find_by_op(&3).is_none());
    assert_eq!(map.find_by_name(&String::from("two")), Some(2));
    assert_eq!(map.find_by_name(&String::from("pseudo")), None);
}

#[test]
fn attribute_index() {
    let branch = Attr { is_branch: true, ..Attr::default() };
    let map = DefinitionMap::from_pairs(vec![
        (0x4D, cmd(Some(0x4D), "goto_if_false", vec![CommandParamType::Label], branch)),
        (0x01, cmd(Some(0x01), "wait", vec![CommandParamType::Int], Attr::default())),
        (0x02, cmd(Some(0x02), "goto", vec![CommandParamType::Label], branch)),
    ]);
    assert_eq!(map.find_all_by_attr(Attribute::Branch), vec![0x4D, 0x02]);
    assert_eq!(map.find_by_attr(Attribute::Branch), Some(0x4D));
    assert_eq!(map.find_by_attr(Attribute::Segment), None);
    assert!(Attr { is_nop: true, ..Attr::default() }.has(Attribute::Nop));
}

#[test]
fn relative_and_global_destinations() {
    let branch = Attr { is_branch: true, ..Attr::default() };
    let defs = DefinitionMap::from_pairs(vec![(0x02, cmd(Some(0x02), "goto", vec![CommandParamType::Label], branch))]);
    let bytes = vec![0x02, 0x00, 0x01, 0xF9, 0xFF, 0xFF, 0xFF, 0x02, 0x00, 0x01, 0x0C, 0x00, 0x00, 0x00];
    let mut parser = get_parser(Game::GTA3, &bytes, &defs, 0);
    let instructions = parser.collect();
    let scanner = Scanner::new(&defs);
    let global = scanner.collect_global_addresses(&instructions);
    let local = scanner.collect_relative_addresses(&instructions);
    assert_eq!(global.len(), 1);
    assert!(global.contains(&12));
    assert_eq!(local.len(), 1);
    assert!(local.contains(&-7));
    assert_eq!(scanner.collect_global_addresses(&instructions), global);
    let mut context = GlobalContext::new();
    context.extend_from(&scanner, &instructions);
    context.extend_from(&scanner, &instructions);
    assert_eq!(context.targets, global);
    let dasm = Disassembler::new(&defs, &scanner);
    let ir = dasm.run(instructions, ScriptType::MISSION);
    assert_eq!(ir.name, "noname");
    assert!(!ir.relative_offsets_in_main());
    assert_eq!(ir.listing(&context, &vec![]), "{000000} goto 7\n\n:7\n{000007} goto 12\n");
}

#[test]
fn relative_destinations_in_main_are_flagged() {
    let branch = Attr { is_branch: true, ..Attr::default() };
    let defs = DefinitionMap::from_pairs(vec![(0x02, cmd(Some(0x02), "goto", vec![CommandParamType::Label], branch))]);
    let bytes = vec![0x02, 0x00, 0x01, 0xF9, 0xFF, 0xFF, 0xFF, 0x02, 0x00, 0x01, 0x07, 0x00, 0x00, 0x00];
    let mut parser = get_parser(Game::GTA3, &bytes, &defs, 0);
    let instructions = parser.collect();
    let scanner = Scanner::new(&defs);
    let mut context = GlobalContext::new();
    context.extend_from(&scanner, &instructions);
    let dasm = Disassembler::new(&defs, &scanner);
    let ir = dasm.run(instructions, ScriptType::MAIN);
    assert!(ir.relative_offsets_in_main());
    assert_eq!(ir.listing(&context, &vec![]), "{000000} goto 7\n\n:7\n{000007} goto 7\n");
}

#[test]
fn script_names_are_slugs() {
    let defs = DefinitionMap::from_pairs(vec![(0x03A4, cmd(Some(0x03A4), "SCRIPT_NAME", vec![CommandParamType::String], Attr::default()))]);
    let scanner = Scanner::new(&defs);
    let dasm = Disassembler::new(&defs, &scanner);
    let named = |bytes: Vec<u8>| {
        let mut parser = get_parser(Game::VC, &bytes, &defs, 0);
        dasm.run(parser.collect(), ScriptType::MISSION).name
    };
    assert_eq!(named(vec![0xA4, 0x03, b'M', b'y', b' ', b'J', b'o', b'b', b'!', 0]), "my_job");
    assert_eq!(named(vec![0xA4, 0x03, b'#', b'#', 0, 0, 0, 0, 0, 0]), "noname");
    assert_eq!(named(vec![0xFE]), "noname");
}
