use vstd::prelude::*;

pub mod cards;
pub mod game;

use game::{is_play_for, GameError, GameSession, GameSetup, Hand, Play};

verus! {

/// Sets up a game of two fresh players and starts it.
pub fn test() -> (r: Result<GameSession<Play>, GameError>)
    ensures
        r matches Ok(s) && s.wf() && s.hands().len() == 2 && is_play_for(
            s.state(),
            s.top(),
            s.hands()[s.current()].cards(),
            None,
        ),
{
    let hand_one = Hand::default();
    let hand_two = Hand::default();
    let mut players: Vec<Hand> = Vec::new();
    players.push(hand_one);
    players.push(hand_two);
    let game_session = match GameSession::<GameSetup>::new(players) {
        Ok(session) => session,
        Err(e) => {
            return Err(e);
        },
    };
    let first_move = game_session.start_game();
    Ok(first_move)
}

} // verus!
