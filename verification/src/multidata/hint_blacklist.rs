//! Items and locations that a world refuses to hint.
//!
//! No seed carries this list: it is built in. A game that is not in it hints everything.

use vstd::prelude::*;

verus! {

/// The names that a game refuses to hint.
pub open spec fn refused_names(game: Seq<char>) -> Seq<Seq<char>> {
    if game == "A Link to the Past"@ {
        seq!["Triforce"@]
    } else if game == "Castlevania - Circle of the Moon"@ {
        seq!["Battle Arena: End reward"@]
    } else {
        Seq::empty()
    }
}

/// The contents of a list of string slices.
pub open spec fn slices(v: Seq<&'static str>) -> Seq<Seq<char>> {
    Seq::new(v.len(), |i: int| v[i]@)
}

/// The games that refuse to hint something, in order.
pub fn listed_games() -> (r: Vec<&'static str>)
    ensures
        slices(r@) == seq!["A Link to the Past"@, "Castlevania - Circle of the Moon"@],
{
    let mut v: Vec<&'static str> = Vec::new();
    v.push("A Link to the Past");
    v.push("Castlevania - Circle of the Moon");
    assert(slices(v@) =~= seq!["A Link to the Past"@, "Castlevania - Circle of the Moon"@]);
    v
}

/// The names that a game refuses to hint; none for a game that is not listed.
pub fn for_game(game: &str) -> (r: Vec<&'static str>)
    ensures
        slices(r@) == refused_names(game@),
{
    let mut v: Vec<&'static str> = Vec::new();
    if *game == *"A Link to the Past" {
        v.push("Triforce");
    } else if *game == *"Castlevania - Circle of the Moon" {
        v.push("Battle Arena: End reward");
    }
    assert(slices(v@) =~= refused_names(game@));
    v
}

/// Only listed games refuse anything.
pub proof fn only_listed_games_refuse(game: Seq<char>)
    ensures
        refused_names(game).len() > 0 <==> seq![
            "A Link to the Past"@,
            "Castlevania - Circle of the Moon"@,
        ].contains(game),
{
    let listed = seq!["A Link to the Past"@, "Castlevania - Circle of the Moon"@];
    assert(listed[0] == "A Link to the Past"@);
    assert(listed[1] == "Castlevania - Circle of the Moon"@);
}

} // verus!
