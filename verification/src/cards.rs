use vstd::prelude::*;

verus! {

/// What a card must be played on.
#[derive(Debug, Clone, Copy, PartialEq, Eq, Structural)]
pub enum TargetKind {
    Player,
    MultiplePlayers(usize),
    Monster,
}

/// The actual target a card was played on. Players and monsters are named by
/// their 128-bit identifiers.
#[derive(Debug, Clone, PartialEq, Eq)]
pub enum Target {
    Player(u128),
    MultiplePlayers(Vec<u128>),
    Monster(u128),
}

#[derive(Debug, Copy, Clone, PartialEq, Eq, Structural, PartialOrd, Ord, Hash)]
pub enum Card {
    Poison,
    ExtraRations,
    TasteTester,
    PsyBlast,
    Meditation,
    TinfoilHat,
    Nepotism,
    Theft,
    Extortion,
    Stupify,
    Scrutiny,
    Crystals,
}

pub open spec fn spec_target_kind(card: Card) -> TargetKind {
    match card {
        Card::Poison | Card::TasteTester | Card::ExtraRations | Card::PsyBlast
        | Card::TinfoilHat | Card::Nepotism | Card::Meditation => TargetKind::Monster,
        Card::Theft | Card::Extortion | Card::Stupify | Card::Crystals => TargetKind::Player,
        Card::Scrutiny => TargetKind::MultiplePlayers(2),
    }
}

pub open spec fn spec_card_name(card: Card) -> Seq<char> {
    match card {
        Card::Poison => "Poison"@,
        Card::TasteTester => "Taste Tester"@,
        Card::ExtraRations => "Extra Rations"@,
        Card::PsyBlast => "Psy Blast"@,
        Card::TinfoilHat => "Tinfoil Hat"@,
        Card::Nepotism => "Nepotism"@,
        Card::Meditation => "Meditation"@,
        Card::Theft => "Theft"@,
        Card::Extortion => "Extortion"@,
        Card::Stupify => "Stupify"@,
        Card::Scrutiny => "Scrutiny"@,
        Card::Crystals => "Crystals"@,
    }
}

pub open spec fn spec_card_icon(card: Card) -> Seq<char> {
    match card {
        Card::Poison => "/pkg/icons/poison.svg"@,
        Card::TasteTester => "/pkg/icons/taste-tester.svg"@,
        Card::ExtraRations => "/pkg/icons/ramen.svg"@,
        Card::PsyBlast => "/pkg/icons/psyblast.svg"@,
        Card::TinfoilHat => "/pkg/icons/helmet.svg"@,
        Card::Nepotism => "/pkg/icons/nepotism.svg"@,
        Card::Meditation => "/pkg/icons/meditation.svg"@,
        Card::Theft => "/pkg/icons/theft.svg"@,
        Card::Extortion => "/pkg/icons/extortion.svg"@,
        Card::Stupify => "/pkg/icons/stupify.svg"@,
        Card::Scrutiny => "/pkg/icons/scrutiny.svg"@,
        Card::Crystals => "/pkg/icons/crystals.svg"@,
    }
}

pub open spec fn spec_card_description(card: Card) -> Seq<char> {
    match card {
        Card::Poison => "-3 Strength"@,
        Card::TasteTester => "Blocks Strength Buffs (Extra Rations) and Debuffs (Poison)"@,
        Card::ExtraRations => "+2 Strength"@,
        Card::PsyBlast => "-3 Speed"@,
        Card::TinfoilHat => "Blocks Speed Buffs (Meditation) and Debuffs (Psy Blast)"@,
        Card::Nepotism => "Monster starts race 1.5m ahead"@,
        Card::Meditation => "+2 Speed"@,
        Card::Theft => "Take 20% of a player's Crystals"@,
        Card::Extortion => "Take 2 random cards from a player"@,
        Card::Stupify => "Player must speak loudly and in single syllables"@,
        Card::Scrutiny => "Up to 2 players cannot play cards this turn"@,
        Card::Crystals => "Give 1 player 500 Crystals"@,
    }
}

pub open spec fn spec_card_victim_description(card: Card) -> Seq<char> {
    match card {
        Card::Theft => "Someone stole 20% of your crystals!"@,
        Card::Extortion => "Someone stole 2 of your cards!"@,
        Card::Stupify => "You must speak loudly and in single syllables!"@,
        Card::Scrutiny => "You cannot play cards this turn!"@,
        Card::Crystals => "Someone gave you 500 Crystals!"@,
        _ => "N/A"@,
    }
}

/// The position of a card in the declaration order, which is the order the
/// derived `Ord` uses.
pub open spec fn spec_card_rank(card: Card) -> u8 {
    match card {
        Card::Poison => 0,
        Card::ExtraRations => 1,
        Card::TasteTester => 2,
        Card::PsyBlast => 3,
        Card::Meditation => 4,
        Card::TinfoilHat => 5,
        Card::Nepotism => 6,
        Card::Theft => 7,
        Card::Extortion => 8,
        Card::Stupify => 9,
        Card::Scrutiny => 10,
        Card::Crystals => 11,
    }
}

impl Card {
    pub fn target_kind(&self) -> (kind: TargetKind)
        ensures
            kind == spec_target_kind(*self),
    {
        match self {
            Card::Poison => TargetKind::Monster,
            Card::TasteTester => TargetKind::Monster,
            Card::ExtraRations => TargetKind::Monster,
            Card::PsyBlast => TargetKind::Monster,
            Card::TinfoilHat => TargetKind::Monster,
            Card::Nepotism => TargetKind::Monster,
            Card::Meditation => TargetKind::Monster,
            Card::Theft => TargetKind::Player,
            Card::Extortion => TargetKind::Player,
            Card::Stupify => TargetKind::Player,
            Card::Scrutiny => TargetKind::MultiplePlayers(2),
            Card::Crystals => TargetKind::Player,
        }
    }

    pub fn name(&self) -> (name: &'static str)
        ensures
            name@ == spec_card_name(*self),
    {
        match self {
            Card::Poison => "Poison",
            Card::TasteTester => "Taste Tester",
            Card::ExtraRations => "Extra Rations",
            Card::PsyBlast => "Psy Blast",
            Card::TinfoilHat => "Tinfoil Hat",
            Card::Nepotism => "Nepotism",
            Card::Meditation => "Meditation",
            Card::Theft => "Theft",
            Card::Extortion => "Extortion",
            Card::Stupify => "Stupify",
            Card::Scrutiny => "Scrutiny",
            Card::Crystals => "Crystals",
        }
    }

    pub fn icon(&self) -> (icon: &'static str)
        ensures
            icon@ == spec_card_icon(*self),
    {
        match self {
            Card::Poison => "/pkg/icons/poison.svg",
            Card::TasteTester => "/pkg/icons/taste-tester.svg",
            Card::ExtraRations => "/pkg/icons/ramen.svg",
            Card::PsyBlast => "/pkg/icons/psyblast.svg",
            Card::TinfoilHat => "/pkg/icons/helmet.svg",
            Card::Nepotism => "/pkg/icons/nepotism.svg",
            Card::Meditation => "/pkg/icons/meditation.svg",
            Card::Theft => "/pkg/icons/theft.svg",
            Card::Extortion => "/pkg/icons/extortion.svg",
            Card::Stupify => "/pkg/icons/stupify.svg",
            Card::Scrutiny => "/pkg/icons/scrutiny.svg",
            Card::Crystals => "/pkg/icons/crystals.svg",
        }
    }

    pub fn description(&self) -> (description: &'static str)
        ensures
            description@ == spec_card_description(*self),
    {
        match self {
            Card::Poison => "-3 Strength",
            Card::TasteTester => "Blocks Strength Buffs (Extra Rations) and Debuffs (Poison)",
            Card::ExtraRations => "+2 Strength",
            Card::PsyBlast => "-3 Speed",
            Card::TinfoilHat => "Blocks Speed Buffs (Meditation) and Debuffs (Psy Blast)",
            Card::Nepotism => "Monster starts race 1.5m ahead",
            Card::Meditation => "+2 Speed",
            Card::Theft => "Take 20% of a player's Crystals",
            Card::Extortion => "Take 2 random cards from a player",
            Card::Stupify => "Player must speak loudly and in single syllables",
            Card::Scrutiny => "Up to 2 players cannot play cards this turn",
            Card::Crystals => "Give 1 player 500 Crystals",
        }
    }

    pub fn victim_description(&self) -> (description: &'static str)
        ensures
            description@ == spec_card_victim_description(*self),
    {
        match self {
            Card::Theft => "Someone stole 20% of your crystals!",
            Card::Extortion => "Someone stole 2 of your cards!",
            Card::Stupify => "You must speak loudly and in single syllables!",
            Card::Scrutiny => "You cannot play cards this turn!",
            Card::Crystals => "Someone gave you 500 Crystals!",
            _ => "N/A",
        }
    }

    /// The card's position in declaration order.
    pub fn rank(&self) -> (rank: u8)
        ensures
            rank == spec_card_rank(*self),
    {
        match self {
            Card::Poison => 0,
            Card::ExtraRations => 1,
            Card::TasteTester => 2,
            Card::PsyBlast => 3,
            Card::Meditation => 4,
            Card::TinfoilHat => 5,
            Card::Nepotism => 6,
            Card::Theft => 7,
            Card::Extortion => 8,
            Card::Stupify => 9,
            Card::Scrutiny => 10,
            Card::Crystals => 11,
        }
    }
}

} // verus!
