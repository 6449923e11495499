//! The variants of the game: rules, starting board and name.

use vstd::prelude::*;
use vstd::string::*;
use crate::engine::{preset, preset_board, preset_rules, Preset};
use crate::game::{new_game, Game};

verus! {

/// A variant of the game.
#[derive(Clone, Debug, PartialEq, Eq)]
pub struct Variant {
    /// The rules, as the engine reads them.
    pub rules: String,
    /// The starting board, in the engine's board text.
    pub starting_board: String,
    /// The name under which the variant is shown and stored.
    pub name: String,
    /// Whether the variant was made by a user.
    pub is_custom: bool,
}

/// A variant as a value of mathematics.
pub struct VariantView {
    pub rules: Seq<char>,
    pub starting_board: Seq<char>,
    pub name: Seq<char>,
    pub is_custom: bool,
}

impl View for Variant {
    type V = VariantView;

    open spec fn view(&self) -> VariantView {
        VariantView {
            rules: self.rules@,
            starting_board: self.starting_board@,
            name: self.name@,
            is_custom: self.is_custom,
        }
    }
}

/// The name of a variant that the engine ships.
pub open spec fn preset_name(kind: Preset) -> Seq<char> {
    match kind {
        Preset::Copenhagen => "Copenhagen"@,
        Preset::Tablut => "Tablut"@,
        Preset::Brandubh => "Brandubh"@,
        Preset::Magpie => "Magpie"@,
    }
}

/// The shipped variant of the given name, if there is one.
pub open spec fn preset_named(name: Seq<char>) -> Option<Preset> {
    if name == "Copenhagen"@ {
        Some(Preset::Copenhagen)
    } else if name == "Brandubh"@ {
        Some(Preset::Brandubh)
    } else if name == "Tablut"@ {
        Some(Preset::Tablut)
    } else if name == "Magpie"@ {
        Some(Preset::Magpie)
    } else {
        None
    }
}

/// The variant that the engine ships under a kind.
pub open spec fn preset_variant(kind: Preset) -> VariantView {
    VariantView {
        rules: preset_rules(kind),
        starting_board: preset_board(kind),
        name: preset_name(kind),
        is_custom: false,
    }
}

/// The variants that every store starts with, in their order.
pub open spec fn ootb_variants() -> Seq<VariantView> {
    seq![
        preset_variant(Preset::Copenhagen),
        preset_variant(Preset::Tablut),
        preset_variant(Preset::Brandubh),
        preset_variant(Preset::Magpie),
    ]
}

impl Variant {
    /// The variant that the engine ships under a kind.
    pub fn preset(kind: Preset) -> (v: Variant)
        ensures
            v@ == preset_variant(kind),
    {
        let (rules, starting_board) = preset(kind);
        let name = match kind {
            Preset::Copenhagen => "Copenhagen",
            Preset::Tablut => "Tablut",
            Preset::Brandubh => "Brandubh",
            Preset::Magpie => "Magpie",
        };
        Variant { rules, starting_board, name: String::from_str(name), is_custom: false }
    }

    /// The shipped variant of the given name, or the message that there is none.
    pub fn from_name(name: &str) -> (r: Result<Variant, String>)
        ensures
            match preset_named(name@) {
                Some(kind) => r matches Ok(v) && v@ == preset_variant(kind),
                None => r matches Err(e) && e@ == "Unknown variant: "@ + name@,
            },
    {
        let given = String::from_str(name);
        if given == String::from_str("Copenhagen") {
            Ok(Variant::preset(Preset::Copenhagen))
        } else if given == String::from_str("Brandubh") {
            Ok(Variant::preset(Preset::Brandubh))
        } else if given == String::from_str("Tablut") {
            Ok(Variant::preset(Preset::Tablut))
        } else if given == String::from_str("Magpie") {
            Ok(Variant::preset(Preset::Magpie))
        } else {
            Err(String::from_str("Unknown variant: ").concat(name))
        }
    }

    /// The variants that every store starts with, in their order.
    pub fn ootb() -> (r: Vec<Variant>)
        ensures
            variant_views(r@) == ootb_variants(),
    {
        let mut r: Vec<Variant> = Vec::new();
        r.push(Variant::preset(Preset::Copenhagen));
        r.push(Variant::preset(Preset::Tablut));
        r.push(Variant::preset(Preset::Brandubh));
        r.push(Variant::preset(Preset::Magpie));
        assert(variant_views(r@) =~= ootb_variants());
        r
    }

    /// A copy of the variant.
    pub fn duplicate(&self) -> (r: Variant)
        ensures
            r@ == self@,
    {
        Variant {
            rules: self.rules.clone(),
            starting_board: self.starting_board.clone(),
            name: self.name.clone(),
            is_custom: self.is_custom,
        }
    }

    /// Sets up a game of the variant.
    pub fn start(&self) -> (r: Option<Game>)
        ensures
            r is None <==> new_game(self@.rules, self@.starting_board) is None,
            r matches Some(g) ==> new_game(self@.rules, self@.starting_board) == Some(g@)
                && g.wf(),
    {
        Game::new(self.rules.as_str(), self.starting_board.as_str())
    }
}

/// The variants of a sequence as values of mathematics.
pub open spec fn variant_views(variants: Seq<Variant>) -> Seq<VariantView> {
    variants.map_values(|v: Variant| v@)
}

impl std::str::FromStr for Variant {
    type Err = String;

    /// The shipped variant of the given name, or the message that there is
    /// none: what [`Variant::from_name`] gives.
    fn from_str(s: &str) -> (r: Result<Variant, String>)
        ensures
            match preset_named(s@) {
                Some(kind) => r matches Ok(v) && v@ == preset_variant(kind),
                None => r matches Err(e) && e@ == "Unknown variant: "@ + s@,
            },
    {
        Variant::from_name(s)
    }
}

} // verus!
