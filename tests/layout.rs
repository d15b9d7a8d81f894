use scm_disasm::definitions::DefinitionMap;
use scm_disasm::library::{Attr, Command, CommandParam, CommandParamSource, CommandParamType};
use scm_disasm::loader::{get_segments, load, LoadError};
use scm_disasm::platform::Game;
use scm_disasm::types::ScriptType;

fn header_dictionary() -> DefinitionMap {
    let attrs = Attr { is_branch: true, is_segment: true, ..Attr::default() };
    let goto = Command {
        id: Some(0x0002),
        name: String::from("goto"),
        num_params: 1,
        short_desc: String::new(),
        class: None,
        member: None,
        attrs,
        input: vec![CommandParam { name: String::from("label"), source: CommandParamSource::Literal, param_type: CommandParamType::Label }],
        output: vec![],
        platforms: vec![],
        versions: vec![],
    };
    DefinitionMap::from_pairs(vec![(0x0002, goto)])
}

fn put_goto(file: &mut Vec<u8>, at: usize, dest: u32) {
    file[at] = 0x02;
    file[at + 1] = 0x00;
    file[at + 2] = 0x01;
    file[at + 3..at + 7].copy_from_slice(&dest.to_le_bytes());
}

/// Three headers at 0, 10 and 20; the missions table follows the third one
/// and MAIN starts at its destination.
fn segmented_file(main_start: u32) -> Vec<u8> {
    let mut file = vec![0u8; 200];
    put_goto(&mut file, 0, 10);
    put_goto(&mut file, 10, 20);
    put_goto(&mut file, 20, main_start);
    let t = 27;
    file[t] = 0;
    file[t + 1..t + 5].copy_from_slice(&200u32.to_le_bytes());
    file[t + 5..t + 9].copy_from_slice(&50u32.to_le_bytes());
    file[t + 9..t + 11].copy_from_slice(&2u16.to_le_bytes());
    file[t + 11..t + 13].copy_from_slice(&0u16.to_le_bytes());
    file[t + 13..t + 17].copy_from_slice(&100u32.to_le_bytes());
    file[t + 17..t + 21].copy_from_slice(&150u32.to_le_bytes());
    file
}

#[test]
fn segmentation() {
    let defs = header_dictionary();
    let file = segmented_file(60);
    let segments = get_segments(&file, Game::GTA3, &defs);
    assert_eq!(segments, vec![(7, 10), (17, 20), (27, 60)]);
    let scripts = load(&file, Game::GTA3, &defs).unwrap();
    assert_eq!(scripts.len(), 3);
    assert_eq!(scripts[0].script_type, ScriptType::MAIN);
    assert_eq!(scripts[0].base_offset, 60);
    assert_eq!(scripts[0].chunk, file[60..200].to_vec());
    assert_eq!(scripts[1].script_type, ScriptType::MISSION);
    assert_eq!(scripts[1].base_offset, 0);
    assert_eq!(scripts[1].chunk, file[100..150].to_vec());
    assert_eq!(scripts[2].script_type, ScriptType::MISSION);
    assert_eq!(scripts[2].chunk, file[150..200].to_vec());
}

#[test]
fn no_headers_means_one_external_chunk() {
    let defs = header_dictionary();
    let file = vec![0xFE, 0x01, 0x02];
    let scripts = load(&file, Game::GTA3, &defs).unwrap();
    assert_eq!(scripts.len(), 1);
    assert_eq!(scripts[0].script_type, ScriptType::EXTERNAL);
    assert_eq!(scripts[0].base_offset, 0);
    assert_eq!(scripts[0].chunk, file);
}

#[test]
fn empty_dictionary_means_one_external_chunk() {
    let defs = DefinitionMap::empty();
    let file = segmented_file(60);
    let scripts = load(&file, Game::GTA3, &defs).unwrap();
    assert_eq!(scripts.len(), 1);
    assert_eq!(scripts[0].script_type, ScriptType::EXTERNAL);
}

#[test]
fn one_header_has_no_missions_segment() {
    let defs = header_dictionary();
    let mut file = vec![0u8; 20];
    put_goto(&mut file, 0, 10);
    let r = load(&file, Game::GTA3, &defs);
    assert!(matches!(r, Err(LoadError::NoMissionsSegment)));
    assert_eq!(r.err().unwrap().message(), "No missions segment found");
}

#[test]
fn four_headers_are_invalid() {
    let defs = header_dictionary();
    let mut file = vec![0u8; 60];
    put_goto(&mut file, 0, 10);
    put_goto(&mut file, 10, 20);
    put_goto(&mut file, 20, 30);
    put_goto(&mut file, 30, 40);
    let r = load(&file, Game::GTA3, &defs);
    assert!(matches!(r, Err(LoadError::InvalidHeaderStructure)));
    assert_eq!(r.err().unwrap().message(), "Invalid header structure");
}

#[test]
fn header_loop_stops() {
    let defs = header_dictionary();
    let mut file = vec![0u8; 20];
    put_goto(&mut file, 0, 10);
    put_goto(&mut file, 10, 10);
    assert_eq!(get_segments(&file, Game::GTA3, &defs).len(), 7);
    assert!(matches!(load(&file, Game::GTA3, &defs), Err(LoadError::InvalidHeaderStructure)));
}

#[test]
fn short_missions_table_is_refused() {
    let defs = header_dictionary();
    let file = segmented_file(30);
    assert!(matches!(load(&file, Game::GTA3, &defs), Err(LoadError::TruncatedMissionsTable)));
}

#[test]
fn main_past_the_file_is_refused() {
    let defs = header_dictionary();
    let mut file = segmented_file(60);
    file[28..32].copy_from_slice(&500u32.to_le_bytes());
    assert!(matches!(load(&file, Game::GTA3, &defs), Err(LoadError::OutOfBounds)));
}

#[test]
fn empty_missions_are_skipped() {
    let defs = header_dictionary();
    let mut file = segmented_file(60);
    file[44..48].copy_from_slice(&100u32.to_le_bytes());
    let scripts = load(&file, Game::GTA3, &defs).unwrap();
    assert_eq!(scripts.len(), 2);
    assert_eq!(scripts[1].chunk, file[100..200].to_vec());
}
