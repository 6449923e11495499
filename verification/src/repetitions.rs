//! The record of repeated plays that the rules of repetition go by.
//!
//! The engine keeps, for each side, the number of times in a row that the
//! side has repeated a play, whether the side is half way through a pair of
//! repeated plays, and the last four plays in a ring of four places. This
//! module holds the same values as plain fields, and writes them as the text
//! from which the engine reads them.

use vstd::prelude::*;
use vstd::string::*;
use crate::display::{decimal, digit_char, spec_side_label, side_label};
use crate::pieces::Side;
use crate::tiles::Tile;

verus! {

/// The places in the ring of the last plays.
pub const RECENT_PLAYS: usize = 4;

/// The direction of a play: along a column or along a row.
#[derive(Clone, Copy, Debug, PartialEq, Eq, Hash, Structural)]
pub enum Axis {
    Vertical,
    Horizontal,
}

impl Axis {
    /// The axis that a number of the engine stands for, if any: 0 for the
    /// vertical one, 128 for the horizontal one.
    pub open spec fn spec_from_code(code: u8) -> Option<Axis> {
        if code == 0 {
            Some(Axis::Vertical)
        } else if code == 128 {
            Some(Axis::Horizontal)
        } else {
            None
        }
    }

    /// The axis that a number of the engine stands for, if any.
    #[verifier::when_used_as_spec(spec_from_code)]
    pub fn from_code(code: u8) -> (r: Option<Axis>)
        ensures
            r == Axis::spec_from_code(code),
    {
        if code == 0 {
            Some(Axis::Vertical)
        } else if code == 128 {
            Some(Axis::Horizontal)
        } else {
            None
        }
    }

    /// The name of the axis.
    pub open spec fn spec_name(self) -> Seq<char> {
        match self {
            Axis::Vertical => "Vertical"@,
            Axis::Horizontal => "Horizontal"@,
        }
    }

    /// The name of the axis.
    pub fn name(self) -> (r: &'static str)
        ensures
            r@ == self.spec_name(),
    {
        match self {
            Axis::Vertical => "Vertical",
            Axis::Horizontal => "Horizontal",
        }
    }
}

/// What the record keeps of one play: who made it, from where, in which
/// direction and how far, and whether it captured anything.
#[derive(Clone, Copy, Debug, PartialEq, Eq, Hash, Structural)]
pub struct ShortPlayRecord {
    pub side: Side,
    pub from: Tile,
    pub axis: Axis,
    /// The squares moved; negative towards the first row or column.
    pub displacement: i8,
    pub captures: bool,
}

/// One play of the ring as the engine numbers it.
#[derive(Clone, Copy, Debug, PartialEq, Eq, Structural)]
pub struct RawShortRecord {
    pub side: u8,
    pub row: u8,
    pub col: u8,
    pub axis: u8,
    pub displacement: i8,
    pub captures: bool,
}

/// The record of repeated plays.
#[derive(Clone, Copy, Debug, PartialEq, Eq, Hash)]
pub struct Repetitions {
    /// The times in a row that the attacker has repeated a play.
    pub attacker_reps: usize,
    /// The times in a row that the defender has repeated a play.
    pub defender_reps: usize,
    /// Whether the attacker is half way through a pair of repeated plays.
    pub attacker_mid_pair: bool,
    /// Whether the defender is half way through a pair of repeated plays.
    pub defender_mid_pair: bool,
    /// The four places of the ring of the last plays.
    pub slot0: Option<ShortPlayRecord>,
    pub slot1: Option<ShortPlayRecord>,
    pub slot2: Option<ShortPlayRecord>,
    pub slot3: Option<ShortPlayRecord>,
    /// The place of the ring that holds the oldest play, and takes the next.
    pub first_i: usize,
}

/// The record of repeated plays as the engine hands it over.
#[derive(Clone, Copy, Debug, PartialEq, Eq)]
pub struct RawRepetitions {
    pub attacker_reps: usize,
    pub defender_reps: usize,
    pub attacker_mid_pair: bool,
    pub defender_mid_pair: bool,
    pub slot0: Option<RawShortRecord>,
    pub slot1: Option<RawShortRecord>,
    pub slot2: Option<RawShortRecord>,
    pub slot3: Option<RawShortRecord>,
    pub first_i: usize,
}

impl ShortPlayRecord {
    /// The play that the engine's numbers stand for, if they stand for a side
    /// and an axis.
    pub open spec fn spec_from_raw(raw: RawShortRecord) -> Option<ShortPlayRecord> {
        match (Side::spec_from_code(raw.side), Axis::spec_from_code(raw.axis)) {
            (Some(side), Some(axis)) => Some(
                ShortPlayRecord {
                    side,
                    from: Tile { row: raw.row, col: raw.col },
                    axis,
                    displacement: raw.displacement,
                    captures: raw.captures,
                },
            ),
            _ => None,
        }
    }

    /// The play that the engine's numbers stand for, if they stand for a side
    /// and an axis.
    #[verifier::when_used_as_spec(spec_from_raw)]
    pub fn from_raw(raw: RawShortRecord) -> (r: Option<ShortPlayRecord>)
        ensures
            r == ShortPlayRecord::spec_from_raw(raw),
    {
        match (Side::from_code(raw.side), Axis::from_code(raw.axis)) {
            (Some(side), Some(axis)) => Some(
                ShortPlayRecord {
                    side,
                    from: Tile { row: raw.row, col: raw.col },
                    axis,
                    displacement: raw.displacement,
                    captures: raw.captures,
                },
            ),
            _ => None,
        }
    }
}

/// The place of the ring that the engine's numbers stand for: `None` where
/// they stand for no play. An empty place stands for an empty place.
pub open spec fn slot_of_raw(raw: Option<RawShortRecord>) -> Option<Option<ShortPlayRecord>> {
    match raw {
        None => Some(None),
        Some(r) => match ShortPlayRecord::spec_from_raw(r) {
            Some(p) => Some(Some(p)),
            None => None,
        },
    }
}

/// The place of the ring that the engine's numbers stand for.
pub fn slot_from_raw(raw: Option<RawShortRecord>) -> (r: Option<Option<ShortPlayRecord>>)
    ensures
        r == slot_of_raw(raw),
{
    match raw {
        None => Some(None),
        Some(r) => match ShortPlayRecord::from_raw(r) {
            Some(p) => Some(Some(p)),
            None => None,
        },
    }
}

/// `true` or `false`, as it is written.
pub open spec fn bool_text(b: bool) -> Seq<char> {
    if b {
        "true"@
    } else {
        "false"@
    }
}

/// A number with its sign, as it is written.
pub open spec fn signed_text(n: int) -> Seq<char> {
    if n < 0 {
        "-"@ + decimal((-n) as nat)
    } else {
        decimal(n as nat)
    }
}

/// A place of the ring, as the engine reads it.
pub open spec fn slot_text(slot: Option<ShortPlayRecord>) -> Seq<char> {
    match slot {
        None => "null"@,
        Some(p) => "{\"side\":\""@ + spec_side_label(p.side) + "\",\"play\":{\"from\":{\"row\":"@
            + decimal(p.from.row as nat) + ",\"col\":"@ + decimal(p.from.col as nat)
            + "},\"movement\":{\"axis\":\""@ + p.axis.spec_name() + "\",\"displacement\":"@
            + signed_text(p.displacement as int) + "}},\"captures\":"@ + bool_text(p.captures)
            + "}"@,
    }
}

impl Repetitions {
    /// Whether the record is one that the engine can work on: the oldest
    /// play is at one of the four places of the ring, and both counts have
    /// room to grow.
    pub open spec fn spec_wf(self) -> bool {
        &&& self.first_i < RECENT_PLAYS
        &&& self.attacker_reps < usize::MAX
        &&& self.defender_reps < usize::MAX
    }

    /// Whether the record is one that the engine can work on.
    #[verifier::when_used_as_spec(spec_wf)]
    pub fn wf(self) -> (r: bool)
        ensures
            r == self.spec_wf(),
    {
        self.first_i < RECENT_PLAYS && self.attacker_reps < usize::MAX && self.defender_reps
            < usize::MAX
    }

    /// Whether the record can stand after `turn` plays: the ring is sound,
    /// and no side has repeated more plays than were made.
    pub open spec fn fits(self, turn: int) -> bool {
        &&& self.first_i < RECENT_PLAYS
        &&& self.attacker_reps <= turn
        &&& self.defender_reps <= turn
    }

    /// Whether the record can stand after `turn` plays.
    pub fn fits_turn(&self, turn: usize) -> (r: bool)
        ensures
            r == self.fits(turn as int),
    {
        self.first_i < RECENT_PLAYS && self.attacker_reps <= turn && self.defender_reps <= turn
    }

    /// The record that the engine's numbers stand for, if each place of the
    /// ring stands for a play or for none.
    pub open spec fn spec_from_raw(raw: RawRepetitions) -> Option<Repetitions> {
        match (
            slot_of_raw(raw.slot0),
            slot_of_raw(raw.slot1),
            slot_of_raw(raw.slot2),
            slot_of_raw(raw.slot3),
        ) {
            (Some(slot0), Some(slot1), Some(slot2), Some(slot3)) => Some(
                Repetitions {
                    attacker_reps: raw.attacker_reps,
                    defender_reps: raw.defender_reps,
                    attacker_mid_pair: raw.attacker_mid_pair,
                    defender_mid_pair: raw.defender_mid_pair,
                    slot0,
                    slot1,
                    slot2,
                    slot3,
                    first_i: raw.first_i,
                },
            ),
            _ => None,
        }
    }

    /// The record that the engine's numbers stand for, if each place of the
    /// ring stands for a play or for none.
    #[verifier::when_used_as_spec(spec_from_raw)]
    pub fn from_raw(raw: RawRepetitions) -> (r: Option<Repetitions>)
        ensures
            r == Repetitions::spec_from_raw(raw),
    {
        match (
            slot_from_raw(raw.slot0),
            slot_from_raw(raw.slot1),
            slot_from_raw(raw.slot2),
            slot_from_raw(raw.slot3),
        ) {
            (Some(slot0), Some(slot1), Some(slot2), Some(slot3)) => Some(
                Repetitions {
                    attacker_reps: raw.attacker_reps,
                    defender_reps: raw.defender_reps,
                    attacker_mid_pair: raw.attacker_mid_pair,
                    defender_mid_pair: raw.defender_mid_pair,
                    slot0,
                    slot1,
                    slot2,
                    slot3,
                    first_i: raw.first_i,
                },
            ),
            _ => None,
        }
    }

    /// The record before the first play: nothing repeated, the ring empty.
    pub open spec fn spec_fresh() -> Repetitions {
        Repetitions {
            attacker_reps: 0,
            defender_reps: 0,
            attacker_mid_pair: false,
            defender_mid_pair: false,
            slot0: None,
            slot1: None,
            slot2: None,
            slot3: None,
            first_i: 0,
        }
    }

    /// The record before the first play: nothing repeated, the ring empty.
    pub fn fresh() -> (r: Repetitions)
        ensures
            r == Repetitions::spec_fresh(),
    {
        Repetitions {
            attacker_reps: 0,
            defender_reps: 0,
            attacker_mid_pair: false,
            defender_mid_pair: false,
            slot0: None,
            slot1: None,
            slot2: None,
            slot3: None,
            first_i: 0,
        }
    }

    /// Whether the two records are the same in every field.
    pub fn same_as(&self, other: &Repetitions) -> (r: bool)
        ensures
            r == (*self == *other),
    {
        self.attacker_reps == other.attacker_reps && self.defender_reps == other.defender_reps
            && self.attacker_mid_pair == other.attacker_mid_pair && self.defender_mid_pair
            == other.defender_mid_pair && self.slot0 == other.slot0 && self.slot1 == other.slot1
            && self.slot2 == other.slot2 && self.slot3 == other.slot3 && self.first_i
            == other.first_i
    }

    /// The text from which the engine reads the record.
    pub open spec fn spec_text(self) -> Seq<char> {
        "{\"attacker_reps\":"@ + decimal(self.attacker_reps as nat) + ",\"defender_reps\":"@
            + decimal(self.defender_reps as nat) + ",\"attacker_mid_pair\":"@ + bool_text(
            self.attacker_mid_pair,
        ) + ",\"defender_mid_pair\":"@ + bool_text(self.defender_mid_pair)
            + ",\"recent_plays\":{\"queue\":["@ + slot_text(self.slot0) + ","@ + slot_text(
            self.slot1,
        ) + ","@ + slot_text(self.slot2) + ","@ + slot_text(self.slot3) + "],\"first_i\":"@
            + decimal(self.first_i as nat) + "}}"@
    }

    /// The text from which the engine reads the record.
    pub fn text(&self) -> (r: String)
        ensures
            r@ == self.spec_text(),
    {
        let mut t = String::from_str("{\"attacker_reps\":");
        t.append(number_text(self.attacker_reps).as_str());
        t.append(",\"defender_reps\":");
        t.append(number_text(self.defender_reps).as_str());
        t.append(",\"attacker_mid_pair\":");
        t.append(bool_word(self.attacker_mid_pair));
        t.append(",\"defender_mid_pair\":");
        t.append(bool_word(self.defender_mid_pair));
        t.append(",\"recent_plays\":{\"queue\":[");
        t.append(slot_string(self.slot0).as_str());
        t.append(",");
        t.append(slot_string(self.slot1).as_str());
        t.append(",");
        t.append(slot_string(self.slot2).as_str());
        t.append(",");
        t.append(slot_string(self.slot3).as_str());
        t.append("],\"first_i\":");
        t.append(number_text(self.first_i).as_str());
        t.append("}}");
        t
    }
}

/// `true` or `false`, as it is written.
pub fn bool_word(b: bool) -> (r: &'static str)
    ensures
        r@ == bool_text(b),
{
    if b {
        "true"
    } else {
        "false"
    }
}

/// Appends a number in decimal digits to a text.
fn push_number(text: &mut String, n: usize)
    ensures
        final(text)@ == old(text)@ + decimal(n as nat),
    decreases n,
{
    let ghost before = text@;
    if n >= 10 {
        push_number(text, n / 10);
    }
    text.push((48 + (n % 10) as u8) as char);
    proof {
        if n >= 10 {
            assert(text@ =~= before + decimal((n / 10) as nat).push(digit_char((n % 10) as nat)));
        } else {
            assert(text@ =~= before + seq![digit_char(n as nat)]);
        }
    }
}

/// A number in decimal digits.
pub fn number_text(n: usize) -> (r: String)
    ensures
        r@ == decimal(n as nat),
{
    let mut t = String::new();
    push_number(&mut t, n);
    assert(t@ =~= decimal(n as nat));
    t
}

/// A number with its sign, as it is written.
pub fn signed_string(n: i8) -> (r: String)
    ensures
        r@ == signed_text(n as int),
{
    if n < 0 {
        let size: usize = (-(n as i16)) as usize;
        String::from_str("-").concat(number_text(size).as_str())
    } else {
        number_text(n as usize)
    }
}

/// A place of the ring, as the engine reads it.
pub fn slot_string(slot: Option<ShortPlayRecord>) -> (r: String)
    ensures
        r@ == slot_text(slot),
{
    match slot {
        None => String::from_str("null"),
        Some(p) => {
            let mut t = String::from_str("{\"side\":\"");
            t.append(side_label(p.side));
            t.append("\",\"play\":{\"from\":{\"row\":");
            t.append(number_text(p.from.row as usize).as_str());
            t.append(",\"col\":");
            t.append(number_text(p.from.col as usize).as_str());
            t.append("},\"movement\":{\"axis\":\"");
            t.append(p.axis.name());
            t.append("\",\"displacement\":");
            t.append(signed_string(p.displacement).as_str());
            t.append("}},\"captures\":");
            t.append(bool_word(p.captures));
            t.append("}");
            t
        },
    }
}

} // verus!
