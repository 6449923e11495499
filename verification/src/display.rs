//! What is worked out for the screen: labels, the order of the squares, the
//! notation of the plays, and the pairs in which the plays of a game are
//! listed.

use vstd::prelude::*;
use vstd::string::*;
use crate::config::Player;
use crate::pieces::Side;
use crate::play::{PlacedPiece, PlayRecord, PlayRecordView};
use crate::status::GameOutcome;
use crate::tiles::Tile;

verus! {

/// `String::push` appends the character to the end of the text, as its
/// documentation says.
pub assume_specification[ String::push ](text: &mut String, c: char)
    ensures
        final(text)@ == old(text)@.push(c),
;

/// The word for a side.
pub open spec fn spec_side_label(side: Side) -> Seq<char> {
    match side {
        Side::Attacker => "Attacker"@,
        Side::Defender => "Defender"@,
    }
}

/// The word for a side.
pub fn side_label(side: Side) -> (r: &'static str)
    ensures
        r@ == spec_side_label(side),
{
    match side {
        Side::Attacker => "Attacker",
        Side::Defender => "Defender",
    }
}

/// The word for the kind of a player.
pub open spec fn spec_kind_label(is_ai: bool) -> Seq<char> {
    if is_ai {
        "AI"@
    } else {
        "Human"@
    }
}

/// The word for the kind of a player.
pub fn kind_label(is_ai: bool) -> (r: &'static str)
    ensures
        r@ == spec_kind_label(is_ai),
{
    if is_ai {
        "AI"
    } else {
        "Human"
    }
}

/// A player's side and kind, in brackets.
pub open spec fn spec_player_status(is_ai: bool, side: Side) -> Seq<char> {
    "("@ + spec_side_label(side) + ", "@ + spec_kind_label(is_ai) + ")"@
}

/// A player's side and kind, in brackets.
pub fn player_status(player: &Player, side: Side) -> (r: String)
    ensures
        r@ == spec_player_status(player@.ai_play_time.is_some(), side),
{
    String::from_str("(").concat(side_label(side)).concat(", ").concat(
        kind_label(player.is_ai()),
    ).concat(")")
}

/// A player's name, followed by the side and kind in brackets.
pub fn display_player(player: &Player, side: Side) -> (r: String)
    ensures
        r@ == player@.name + " "@ + spec_player_status(player@.ai_play_time.is_some(), side),
{
    let status = player_status(player, side);
    player.name.clone().concat(" ").concat(status.as_str())
}

/// The name that a new session gets until the user gives it one: the
/// variant's name and the moment, parted by a dash.
pub fn default_game_name(variant: &str, moment: &str) -> (r: String)
    ensures
        r@ == variant@ + " - "@ + moment@,
{
    String::from_str(variant).concat(" - ").concat(moment)
}

/// The number of pairs of names to pick from.
pub const NAME_PAIRS: u64 = 5;

/// The names that two new players get until the user names them, picked by a
/// number: the pair at the place that the number has modulo [`NAME_PAIRS`].
pub fn random_player_names(number: u64) -> (r: (&'static str, &'static str))
    ensures
        r.0@ == name_pair((number % NAME_PAIRS) as int).0,
        r.1@ == name_pair((number % NAME_PAIRS) as int).1,
{
    let idx = number % NAME_PAIRS;
    if idx == 0 {
        ("Queen Medb", "Cú Chulainn")
    } else if idx == 1 {
        ("Ragnar Lodbrok", "Charles the Bald")
    } else if idx == 2 {
        ("Ubba", "Ælla")
    } else if idx == 3 {
        ("Brian Boru", "Sigtrygg Silkbeard")
    } else {
        ("Brennus", "Sulpicius")
    }
}

/// The pair of names at a place: an attacker's and a defender's.
pub open spec fn name_pair(idx: int) -> (Seq<char>, Seq<char>) {
    if idx == 0 {
        ("Queen Medb"@, "Cú Chulainn"@)
    } else if idx == 1 {
        ("Ragnar Lodbrok"@, "Charles the Bald"@)
    } else if idx == 2 {
        ("Ubba"@, "Ælla"@)
    } else if idx == 3 {
        ("Brian Boru"@, "Sigtrygg Silkbeard"@)
    } else {
        ("Brennus"@, "Sulpicius"@)
    }
}

/// The square that is drawn in a row and a column of the screen: the screen
/// shows the last row of the board at the top.
pub fn display_tile(side_len: u8, row: u8, col: u8) -> (t: Tile)
    requires
        row < side_len,
    ensures
        t == (Tile { row: (side_len - row - 1) as u8, col }),
{
    Tile::new(side_len - row - 1, col)
}

/// The number that is written beside a row of the screen.
pub fn row_label(side_len: u8, row: u8) -> (r: u8)
    requires
        row < side_len,
    ensures
        r == side_len - row,
{
    side_len - row
}

/// The letter that is written under a column of the screen: `A` for the
/// first.
pub fn column_label(col: u8) -> (r: char)
    requires
        col < 26,
    ensures
        r as u8 == 65 + col,
{
    (65 + col) as char
}

/// The style class of a board by its side length, for those that have one.
pub fn size_class(side_len: u8) -> (r: Option<&'static str>)
    ensures
        match r {
            Some(s) => (side_len == 7 && s@ == "size7"@) || (side_len == 9 && s@ == "size9"@) || (
            side_len == 11 && s@ == "size11"@) || (side_len == 13 && s@ == "size13"@),
            None => side_len != 7 && side_len != 9 && side_len != 11 && side_len != 13,
        },
{
    if side_len == 7 {
        Some("size7")
    } else if side_len == 9 {
        Some("size9")
    } else if side_len == 11 {
        Some("size11")
    } else if side_len == 13 {
        Some("size13")
    } else {
        None
    }
}

/// The character of a decimal digit.
pub open spec fn digit_char(d: nat) -> char
    recommends
        d < 10,
{
    (48 + d) as u8 as char
}

/// A number in decimal digits, without leading zeros.
pub open spec fn decimal(n: nat) -> Seq<char>
    decreases n,
{
    if n < 10 {
        seq![digit_char(n)]
    } else {
        decimal(n / 10).push(digit_char(n % 10))
    }
}

/// A square as it is written: the letter of its column, `a` for the first,
/// and the number of its row, 1 for the first.
pub open spec fn spec_tile_text(tile: Tile) -> Seq<char> {
    seq![(97 + tile.col) as u8 as char] + decimal((tile.row + 1) as nat)
}

/// The squares of the captured pieces as they are written: parted by `/`.
pub open spec fn captures_text(captures: Seq<PlacedPiece>) -> Seq<char>
    decreases captures.len(),
{
    if captures.len() == 0 {
        Seq::empty()
    } else if captures.len() == 1 {
        spec_tile_text(captures[0].tile)
    } else {
        captures_text(captures.drop_last()) + seq!['/'] + spec_tile_text(captures.last().tile)
    }
}

/// The mark that is written behind a play that ended the game: `++` where
/// the attacker won, `--` where the defender won, `==` for a draw.
pub open spec fn outcome_mark(outcome: Option<GameOutcome>) -> Seq<char> {
    match outcome {
        Some(GameOutcome::Win(_, Side::Attacker)) => seq!['+', '+'],
        Some(GameOutcome::Win(_, Side::Defender)) => seq!['-', '-'],
        Some(GameOutcome::Draw(_)) => seq!['=', '='],
        None => Seq::empty(),
    }
}

/// The record of a play as it is written in the list of plays: the two
/// squares of the play parted by `-`, then `x` and the squares of the captured
/// pieces where there are any, then the mark of the outcome.
pub open spec fn spec_record_text(record: PlayRecordView) -> Seq<char> {
    spec_tile_text(record.play.from) + seq!['-'] + spec_tile_text(record.play.to) + (if
        record.captures.len() > 0 {
        seq!['x'] + captures_text(record.captures)
    } else {
        Seq::empty()
    }) + outcome_mark(record.game_outcome)
}

/// Appends a number of at most three digits to a text.
fn push_decimal(text: &mut String, n: u16)
    requires
        n < 1000,
    ensures
        final(text)@ == old(text)@ + decimal(n as nat),
{
    let ghost before = text@;
    if n >= 100 {
        text.push((48 + (n / 100) as u8) as char);
    }
    if n >= 10 {
        text.push((48 + ((n / 10) % 10) as u8) as char);
    }
    text.push((48 + (n % 10) as u8) as char);
    proof {
        let m = n as nat;
        if m >= 100 {
            assert(decimal(m / 100) == seq![digit_char(m / 100)]);
            assert((m / 10) / 10 == m / 100);
            assert(decimal(m / 10) == decimal(m / 100).push(digit_char((m / 10) % 10)));
            assert(decimal(m) == decimal(m / 10).push(digit_char(m % 10)));
            assert(text@ =~= before + decimal(m));
        } else if m >= 10 {
            assert(decimal(m / 10) == seq![digit_char(m / 10)]);
            assert(decimal(m) == decimal(m / 10).push(digit_char(m % 10)));
            assert((m / 10) % 10 == m / 10);
            assert(text@ =~= before + decimal(m));
        } else {
            assert(text@ =~= before + decimal(m));
        }
    }
}

/// Appends a square, as it is written, to a text.
fn push_tile(text: &mut String, tile: Tile)
    requires
        tile.col < 26,
    ensures
        final(text)@ == old(text)@ + spec_tile_text(tile),
{
    let ghost before = text@;
    text.push((97 + tile.col) as char);
    push_decimal(text, tile.row as u16 + 1);
    assert(text@ =~= before + spec_tile_text(tile));
}

/// A square as it is written: the letter of its column and the number of its
/// row. Columns beyond the 26th have no letter.
pub fn tile_text(tile: Tile) -> (r: String)
    requires
        tile.col < 26,
    ensures
        r@ == spec_tile_text(tile),
{
    let mut text = String::new();
    push_tile(&mut text, tile);
    assert(text@ =~= spec_tile_text(tile));
    text
}

/// Whether every square of the record has a column with a letter.
pub open spec fn writable(record: PlayRecordView) -> bool {
    &&& record.play.from.col < 26
    &&& record.play.to.col < 26
    &&& forall|i: int| 0 <= i < record.captures.len() ==> (#[trigger] record.captures[i]).tile.col < 26
}

/// The record of a play as it is written in the list of plays.
pub fn record_text(record: &PlayRecord) -> (r: String)
    requires
        writable(record@),
    ensures
        r@ == spec_record_text(record@),
{
    let mut text = String::new();
    push_tile(&mut text, record.play.from);
    text.push('-');
    push_tile(&mut text, record.play.to);
    let ghost head = text@;
    assert(head =~= spec_tile_text(record.play.from) + seq!['-'] + spec_tile_text(record.play.to));
    let captures = &record.effects.captures;
    if captures.len() > 0 {
        text.push('x');
        let mut i: usize = 0;
        assert(captures@.subrange(0, 0) =~= Seq::<PlacedPiece>::empty());
        while i < captures.len()
            invariant
                i <= captures.len(),
                captures == &record.effects.captures,
                writable(record@),
                text@ == head + seq!['x'] + captures_text(captures@.subrange(0, i as int)),
            decreases captures.len() - i,
        {
            let ghost so_far = captures@.subrange(0, i as int);
            let ghost longer = captures@.subrange(0, i + 1);
            assert(longer.drop_last() == so_far);
            assert(longer.last() == captures@[i as int]);
            assert(record@.captures[i as int] == captures@[i as int]);
            if i > 0 {
                text.push('/');
            }
            push_tile(&mut text, captures[i].tile);
            proof {
                if i == 0 {
                    assert(captures_text(longer) == spec_tile_text(captures@[0].tile));
                    assert(captures_text(so_far) =~= Seq::<char>::empty());
                } else {
                    assert(captures_text(longer) == captures_text(so_far) + seq!['/']
                        + spec_tile_text(captures@[i as int].tile));
                }
                assert(text@ =~= head + seq!['x'] + captures_text(longer));
            }
            i += 1;
        }
        assert(captures@.subrange(0, i as int) == captures@);
    } else {
        assert(text@ =~= head + Seq::<char>::empty());
    }
    let ghost body = text@;
    match record.effects.game_outcome {
        Some(GameOutcome::Win(_, Side::Attacker)) => {
            text.push('+');
            text.push('+');
        },
        Some(GameOutcome::Win(_, Side::Defender)) => {
            text.push('-');
            text.push('-');
        },
        Some(GameOutcome::Draw(_)) => {
            text.push('=');
            text.push('=');
        },
        None => {},
    }
    assert(text@ =~= body + outcome_mark(record@.game_outcome));
    text
}

/// A line of the list of plays: the play of the side that began, and the
/// answer to it, if it was made yet.
#[derive(Clone, Debug, PartialEq, Eq)]
pub struct PlayPair {
    pub first: PlayRecord,
    pub second: Option<PlayRecord>,
}

/// The line at a place of the list of plays.
pub open spec fn pair_at(plays: Seq<PlayRecordView>, k: int) -> (PlayRecordView, Option<PlayRecordView>) {
    (
        plays[2 * k],
        if 2 * k + 1 < plays.len() {
            Some(plays[2 * k + 1])
        } else {
            None
        },
    )
}

/// The view of a line.
pub open spec fn pair_view(pair: PlayPair) -> (PlayRecordView, Option<PlayRecordView>) {
    (
        pair.first@,
        match pair.second {
            Some(r) => Some(r@),
            None => None,
        },
    )
}

/// The records of a sequence as values of mathematics.
pub open spec fn record_views(plays: Seq<PlayRecord>) -> Seq<PlayRecordView> {
    plays.map_values(|r: PlayRecord| r@)
}

/// The plays of a game in the pairs in which they are listed: two to a line,
/// in their order, the last line with one play where their number is odd.
pub fn play_pairs(plays: &Vec<PlayRecord>) -> (r: Vec<PlayPair>)
    ensures
        r.len() == (plays.len() + 1) / 2,
        forall|k: int| 0 <= k < r.len() ==> pair_view(#[trigger] r[k]) == pair_at(record_views(plays@), k),
{
    let mut out: Vec<PlayPair> = Vec::new();
    let mut i: usize = 0;
    while i < plays.len()
        invariant
            i <= plays.len() + 1,
            i % 2 == 0,
            out.len() == i / 2,
            forall|k: int| 0 <= k < out.len() ==> pair_view(#[trigger] out[k]) == pair_at(record_views(plays@), k),
        decreases plays.len() + 1 - i,
    {
        let first = plays[i].duplicate();
        let second = if i + 1 < plays.len() {
            Some(plays[i + 1].duplicate())
        } else {
            None
        };
        out.push(PlayPair { first, second });
        if i + 1 < plays.len() {
            i += 2;
        } else {
            i += 1;
            assert(i == plays.len());
            assert(out.len() == (plays.len() + 1) / 2);
            return out;
        }
    }
    out
}

} // verus!
