use crate::definitions::DefinitionMap;
use crate::parser::Parser;
use vstd::prelude::*;

verus! {

/// The game whose script dialect is decoded. The dialects differ only in how
/// a floating-point operand is stored.
#[derive(Debug, Clone, Copy, PartialEq, Eq, Structural)]
pub enum Game {
    GTA3,
    VC,
}

/// The number of bytes a floating-point operand takes after its tag.
pub open spec fn float_width(game: Game) -> int {
    match game {
        Game::GTA3 => 2,
        Game::VC => 4,
    }
}

/// A decoder for `chunk` in the dialect of `game`, positioned at its start.
pub fn get_parser<'a>(
    game: Game,
    chunk: &'a Vec<u8>,
    definitions: &'a DefinitionMap,
    base_offset: u32,
) -> (r: Parser<'a>)
    requires
        definitions.wf(),
        base_offset + chunk@.len() <= u32::MAX,
    ensures
        r.wf(),
        r.chunk == chunk,
        r.definitions == definitions,
        r.base_offset == base_offset,
        r.game == game,
        r.position == 0,
{
    Parser::new(chunk, definitions, base_offset, game)
}

} // verus!
