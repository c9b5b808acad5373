use vstd::prelude::*;

verus! {

/// A racing monster. Lengths are in tenths of a metre; times and the model's
/// scale are in ten-thousandths (of a second, of the model's size).
#[derive(Debug, Clone, Copy)]
pub struct Monster {
    pub name: &'static str,
    pub blueprint_name: &'static str,
    pub uuid: u128,
    /// How fast it jumps.
    pub dexterity: i32,
    /// How far it jumps.
    pub strength: i32,
    /// Head start on the track, in tenths of a metre.
    pub starting_position: i32,
    pub idle_animation: &'static str,
    pub jump_animation: &'static str,
    pub dance_animation: &'static str,
    pub death_animation: &'static str,
    pub jump_delay: u32,
    pub jump_end: u32,
    pub scale: u32,
}

/// The number of monsters in the roster.
pub const MONSTER_COUNT: usize = 11;

/// The roster, by position.
pub open spec fn spec_monster(i: usize) -> Monster {
    match i {
        0 => Monster {
            name: "Cactoro",
            blueprint_name: "library/Monster_Cactoro.glb",
            uuid: 0xb19768d8fce94b66a2d7ea84799c0101,
            dexterity: 5,
            strength: 4,
            starting_position: 0,
            idle_animation: "CharacterArmature|Idle",
            jump_animation: "CharacterArmature|Jump",
            dance_animation: "CharacterArmature|Dance",
            death_animation: "CharacterArmature|Death",
            jump_delay: 3000,
            jump_end: 1000,
            scale: 10000,
        },
        1 => Monster {
            name: "Purglehorn",
            blueprint_name: "library/Monster_Alien.glb",
            uuid: 0x99a7c5d8c06744eeb856df9d6b04c4e8,
            dexterity: 5,
            strength: 5,
            starting_position: 0,
            idle_animation: "CharacterArmature|Idle",
            jump_animation: "CharacterArmature|Jump",
            dance_animation: "CharacterArmature|Dance",
            death_animation: "CharacterArmature|Death",
            jump_delay: 3000,
            jump_end: 1000,
            scale: 10000,
        },
        2 => Monster {
            name: "Mawshroom",
            blueprint_name: "library/Monster_Mushnub.glb",
            uuid: 0xf8a2f4560fa44e89b915f0b0de101a1a,
            dexterity: 1,
            strength: 9,
            starting_position: 0,
            idle_animation: "CharacterArmature|Idle",
            jump_animation: "CharacterArmature|Jump",
            dance_animation: "CharacterArmature|Dance",
            death_animation: "CharacterArmature|Death",
            jump_delay: 3000,
            jump_end: 1000,
            scale: 10000,
        },
        3 => Monster {
            name: "Mechapanda",
            blueprint_name: "library/Monster_Mech.glb",
            uuid: 0x0ef5f3373cea4c9ca6655bd3e7bc4c63,
            dexterity: 4,
            strength: 7,
            starting_position: 0,
            idle_animation: "RobotArmature|Idle",
            jump_animation: "RobotArmature|Jump",
            dance_animation: "RobotArmature|Dance",
            death_animation: "RobotArmature|Death",
            jump_delay: 3000,
            jump_end: 1000,
            scale: 10000,
        },
        4 => Monster {
            name: "Finflare",
            blueprint_name: "library/Monster_Fish.glb",
            uuid: 0x6cb10197a7234cf980f7fb957f7eb9f1,
            dexterity: 7,
            strength: 3,
            starting_position: 0,
            idle_animation: "CharacterArmature|Idle",
            jump_animation: "CharacterArmature|Jump",
            dance_animation: "CharacterArmature|Dance",
            death_animation: "CharacterArmature|Death",
            jump_delay: 3000,
            jump_end: 1000,
            scale: 10000,
        },
        5 => Monster {
            name: "Green Spiky Thing",
            blueprint_name: "library/Monster_Green_Spiky.glb",
            uuid: 0xcbde634a2d3648f383b3c7e45cc864b7,
            dexterity: 3,
            strength: 7,
            starting_position: 0,
            idle_animation: "CharacterArmature|Idle",
            jump_animation: "CharacterArmature|Jump",
            dance_animation: "CharacterArmature|Dance",
            death_animation: "CharacterArmature|Death",
            jump_delay: 3000,
            jump_end: 1000,
            scale: 10000,
        },
        6 => Monster {
            name: "Cranius",
            blueprint_name: "library/Monster_Pink_Slime.glb",
            uuid: 0x73c68289e1334859a0f4e45883076e10,
            dexterity: 10,
            strength: 0,
            starting_position: 0,
            idle_animation: "CharacterArmature|Idle",
            jump_animation: "CharacterArmature|Jump",
            dance_animation: "CharacterArmature|Dance",
            death_animation: "CharacterArmature|Death",
            jump_delay: 3000,
            jump_end: 1000,
            scale: 10000,
        },
        7 => Monster {
            name: "Cluckerhead",
            blueprint_name: "library/Monster_Chicken.glb",
            uuid: 0x9f987f8ff320446e8930740aca46954f,
            dexterity: 6,
            strength: 3,
            starting_position: 0,
            idle_animation: "CharacterArmature|Idle",
            jump_animation: "CharacterArmature|Jump",
            dance_animation: "CharacterArmature|Dance",
            death_animation: "CharacterArmature|Death",
            jump_delay: 3000,
            jump_end: 1000,
            scale: 10000,
        },
        8 => Monster {
            name: "Fangmaw",
            blueprint_name: "library/Monster_Yeti.glb",
            uuid: 0xb4775b5b2e1f42debe985d3d7890db0d,
            dexterity: 5,
            strength: 5,
            starting_position: 0,
            idle_animation: "CharacterArmature|Idle",
            jump_animation: "CharacterArmature|Jump",
            dance_animation: "CharacterArmature|Dance",
            death_animation: "CharacterArmature|Death",
            jump_delay: 3000,
            jump_end: 1000,
            scale: 10000,
        },
        9 => Monster {
            name: "Dave",
            blueprint_name: "library/Monster_Dave.glb",
            uuid: 0x331539f0d6934d09b6de219bd3767ede,
            dexterity: 0,
            strength: 10,
            starting_position: 0,
            idle_animation: "CharacterArmature|Idle",
            jump_animation: "CharacterArmature|Roll",
            dance_animation: "CharacterArmature|Wave",
            death_animation: "CharacterArmature|Death",
            jump_delay: 10,
            jump_end: 10,
            scale: 25000,
        },
        _ => Monster {
            name: "Zombone",
            blueprint_name: "library/Monster_Zombie.glb",
            uuid: 0x766848319d864928b6c4ac3bff3b9897,
            dexterity: 5,
            strength: 5,
            starting_position: 0,
            idle_animation: "CharacterArmature|Idle",
            jump_animation: "CharacterArmature|Crawl",
            dance_animation: "CharacterArmature|HitReact",
            death_animation: "CharacterArmature|Death",
            jump_delay: 500,
            jump_end: 1,
            scale: 25000,
        },
    }
}

/// No two monsters of the roster share an identifier.
pub proof fn lemma_roster_uuids_distinct(i: usize, j: usize)
    requires
        i < MONSTER_COUNT,
        j < MONSTER_COUNT,
        i != j,
    ensures
        spec_monster(i).uuid != spec_monster(j).uuid,
{
}

/// The monster at position `i` of the roster (the last one for any `i >= 10`).
pub fn monster(i: usize) -> (m: Monster)
    ensures
        m == spec_monster(i),
{
    match i {
        0 => Monster {
            name: "Cactoro",
            blueprint_name: "library/Monster_Cactoro.glb",
            uuid: 0xb19768d8fce94b66a2d7ea84799c0101,
            dexterity: 5,
            strength: 4,
            starting_position: 0,
            idle_animation: "CharacterArmature|Idle",
            jump_animation: "CharacterArmature|Jump",
            dance_animation: "CharacterArmature|Dance",
            death_animation: "CharacterArmature|Death",
            jump_delay: 3000,
            jump_end: 1000,
            scale: 10000,
        },
        1 => Monster {
            name: "Purglehorn",
            blueprint_name: "library/Monster_Alien.glb",
            uuid: 0x99a7c5d8c06744eeb856df9d6b04c4e8,
            dexterity: 5,
            strength: 5,
            starting_position: 0,
            idle_animation: "CharacterArmature|Idle",
            jump_animation: "CharacterArmature|Jump",
            dance_animation: "CharacterArmature|Dance",
            death_animation: "CharacterArmature|Death",
            jump_delay: 3000,
            jump_end: 1000,
            scale: 10000,
        },
        2 => Monster {
            name: "Mawshroom",
            blueprint_name: "library/Monster_Mushnub.glb",
            uuid: 0xf8a2f4560fa44e89b915f0b0de101a1a,
            dexterity: 1,
            strength: 9,
            starting_position: 0,
            idle_animation: "CharacterArmature|Idle",
            jump_animation: "CharacterArmature|Jump",
            dance_animation: "CharacterArmature|Dance",
            death_animation: "CharacterArmature|Death",
            jump_delay: 3000,
            jump_end: 1000,
            scale: 10000,
        },
        3 => Monster {
            name: "Mechapanda",
            blueprint_name: "library/Monster_Mech.glb",
            uuid: 0x0ef5f3373cea4c9ca6655bd3e7bc4c63,
            dexterity: 4,
            strength: 7,
            starting_position: 0,
            idle_animation: "RobotArmature|Idle",
            jump_animation: "RobotArmature|Jump",
            dance_animation: "RobotArmature|Dance",
            death_animation: "RobotArmature|Death",
            jump_delay: 3000,
            jump_end: 1000,
            scale: 10000,
        },
        4 => Monster {
            name: "Finflare",
            blueprint_name: "library/Monster_Fish.glb",
            uuid: 0x6cb10197a7234cf980f7fb957f7eb9f1,
            dexterity: 7,
            strength: 3,
            starting_position: 0,
            idle_animation: "CharacterArmature|Idle",
            jump_animation: "CharacterArmature|Jump",
            dance_animation: "CharacterArmature|Dance",
            death_animation: "CharacterArmature|Death",
            jump_delay: 3000,
            jump_end: 1000,
            scale: 10000,
        },
        5 => Monster {
            name: "Green Spiky Thing",
            blueprint_name: "library/Monster_Green_Spiky.glb",
            uuid: 0xcbde634a2d3648f383b3c7e45cc864b7,
            dexterity: 3,
            strength: 7,
            starting_position: 0,
            idle_animation: "CharacterArmature|Idle",
            jump_animation: "CharacterArmature|Jump",
            dance_animation: "CharacterArmature|Dance",
            death_animation: "CharacterArmature|Death",
            jump_delay: 3000,
            jump_end: 1000,
            scale: 10000,
        },
        6 => Monster {
            name: "Cranius",
            blueprint_name: "library/Monster_Pink_Slime.glb",
            uuid: 0x73c68289e1334859a0f4e45883076e10,
            dexterity: 10,
            strength: 0,
            starting_position: 0,
            idle_animation: "CharacterArmature|Idle",
            jump_animation: "CharacterArmature|Jump",
            dance_animation: "CharacterArmature|Dance",
            death_animation: "CharacterArmature|Death",
            jump_delay: 3000,
            jump_end: 1000,
            scale: 10000,
        },
        7 => Monster {
            name: "Cluckerhead",
            blueprint_name: "library/Monster_Chicken.glb",
            uuid: 0x9f987f8ff320446e8930740aca46954f,
            dexterity: 6,
            strength: 3,
            starting_position: 0,
            idle_animation: "CharacterArmature|Idle",
            jump_animation: "CharacterArmature|Jump",
            dance_animation: "CharacterArmature|Dance",
            death_animation: "CharacterArmature|Death",
            jump_delay: 3000,
            jump_end: 1000,
            scale: 10000,
        },
        8 => Monster {
            name: "Fangmaw",
            blueprint_name: "library/Monster_Yeti.glb",
            uuid: 0xb4775b5b2e1f42debe985d3d7890db0d,
            dexterity: 5,
            strength: 5,
            starting_position: 0,
            idle_animation: "CharacterArmature|Idle",
            jump_animation: "CharacterArmature|Jump",
            dance_animation: "CharacterArmature|Dance",
            death_animation: "CharacterArmature|Death",
            jump_delay: 3000,
            jump_end: 1000,
            scale: 10000,
        },
        9 => Monster {
            name: "Dave",
            blueprint_name: "library/Monster_Dave.glb",
            uuid: 0x331539f0d6934d09b6de219bd3767ede,
            dexterity: 0,
            strength: 10,
            starting_position: 0,
            idle_animation: "CharacterArmature|Idle",
            jump_animation: "CharacterArmature|Roll",
            dance_animation: "CharacterArmature|Wave",
            death_animation: "CharacterArmature|Death",
            jump_delay: 10,
            jump_end: 10,
            scale: 25000,
        },
        _ => Monster {
            name: "Zombone",
            blueprint_name: "library/Monster_Zombie.glb",
            uuid: 0x766848319d864928b6c4ac3bff3b9897,
            dexterity: 5,
            strength: 5,
            starting_position: 0,
            idle_animation: "CharacterArmature|Idle",
            jump_animation: "CharacterArmature|Crawl",
            dance_animation: "CharacterArmature|HitReact",
            death_animation: "CharacterArmature|Death",
            jump_delay: 500,
            jump_end: 1,
            scale: 25000,
        },
    }
}

impl Default for Monster {
    /// An unnamed monster of average strength and dexterity.
    fn default() -> (m: Monster)
        ensures
            m.uuid == 0,
            m.dexterity == 5,
            m.strength == 5,
            m.starting_position == 0,
            m.scale == 10000,
    {
        Monster {
            name: "Unnamed",
            blueprint_name: "no_blueprint_set",
            uuid: 0,
            dexterity: 5,
            strength: 5,
            starting_position: 0,
            idle_animation: "CharacterArmature|Idle",
            jump_animation: "CharacterArmature|Jump",
            dance_animation: "CharacterArmature|Dance",
            death_animation: "CharacterArmature|Death",
            jump_delay: 3000,
            jump_end: 1000,
            scale: 10000,
        }
    }
}

} // verus!
