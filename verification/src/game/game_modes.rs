use vstd::prelude::*;

verus! {

/// The bot game modes the library knows.
#[derive(Clone, Copy, PartialEq, Eq, Structural, Debug)]
pub enum GameModes {
    GmodeBotTeamdeathMatch,
    BotDeathMatch,
    BotOneShotOneKill,
    GmodeBotPistolFrenzy,
    Botlss,
    BotSurvivor,
    GmodeBotTeamOneShotOneKill,
}

/// The number the game stores for each mode.
pub open spec fn game_mode_code(mode: GameModes) -> i32 {
    match mode {
        GameModes::GmodeBotTeamdeathMatch => 7,
        GameModes::BotDeathMatch => 8,
        GameModes::BotOneShotOneKill => 12,
        GameModes::GmodeBotPistolFrenzy => 18,
        GameModes::Botlss => 19,
        GameModes::BotSurvivor => 20,
        GameModes::GmodeBotTeamOneShotOneKill => 21,
    }
}

/// `code` is the number of one of the known modes.
pub open spec fn is_game_mode_code(code: i32) -> bool {
    code == 7 || code == 8 || code == 12 || code == 18 || code == 19 || code == 20 || code == 21
}

impl GameModes {
    /// Whether `code` names a known mode, that is, whether `from_i32` accepts it.
    pub fn is_supported(code: i32) -> (b: bool)
        ensures
            b == is_game_mode_code(code),
    {
        code == 7 || code == 8 || code == 12 || code == 18 || code == 19 || code == 20 || code == 21
    }

    /// The mode that the game stores as `code`.
    pub fn from_i32(code: i32) -> (mode: GameModes)
        requires
            is_game_mode_code(code),
        ensures
            game_mode_code(mode) == code,
    {
        match code {
            7 => GameModes::GmodeBotTeamdeathMatch,
            8 => GameModes::BotDeathMatch,
            12 => GameModes::BotOneShotOneKill,
            18 => GameModes::GmodeBotPistolFrenzy,
            19 => GameModes::Botlss,
            20 => GameModes::BotSurvivor,
            _ => GameModes::GmodeBotTeamOneShotOneKill,
        }
    }
}

/// Distinct modes have distinct codes, so `from_i32` gives back the mode whose code it is given.
pub proof fn game_mode_code_is_injective(a: GameModes, b: GameModes)
    requires
        game_mode_code(a) == game_mode_code(b),
    ensures
        a == b,
{
}

} // verus!
