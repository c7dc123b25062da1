//! The opening book: scripted move sequences by opening name and
//! player.  The book is a pure lookup; strategies play its moves while
//! they stay legal.

use vstd::prelude::*;
use crate::player::Player;
use crate::textparse::str_eq;

verus! {

/// The scripted moves of a named opening for one player; an unknown
/// name scripts nothing.
pub open spec fn spec_opening_moves(name: Seq<char>, player: Player) -> Seq<Seq<char>> {
    if name == "Standard Opening"@ {
        match player {
            Player::Player1 => seq!["e2"@, "e3"@, "e4"@, "e3v"@],
            Player::Player2 => seq!["e8"@, "e7"@, "e6"@, "e6v"@],
        }
    } else if name == "Standard Opening (Symmetrical)"@ {
        match player {
            Player::Player1 => seq!["e2"@, "e3"@, "e4"@, "e3v"@],
            Player::Player2 => seq!["e8"@, "e7"@, "e6"@, "d6v"@],
        }
    } else if name == "Shiller Opening"@ {
        match player {
            Player::Player1 => seq!["e2"@, "e3"@, "e4"@, "c3v"@],
            Player::Player2 => seq!["e8"@, "e7"@, "e6"@],
        }
    } else if name == "Rush Variation"@ {
        match player {
            Player::Player1 => seq!["e2"@, "e3"@, "e4"@, "d5v"@, "e4h"@, "g4h"@, "h5v"@],
            Player::Player2 => seq!["e8"@, "e7"@, "e6"@, "e6h"@, "f6"@, "f5"@, "g5"@],
        }
    } else if name == "Gap Opening"@ {
        match player {
            Player::Player1 => seq!["e2"@, "e3"@, "e4"@],
            Player::Player2 => seq!["e8"@, "e7"@, "e6"@],
        }
    } else if name == "Gap Opening (Mainline)"@ {
        match player {
            Player::Player1 => seq!["e2"@, "e3"@, "e4"@],
            Player::Player2 => seq!["e8"@, "e7"@, "e6"@, "g6h"@],
        }
    } else if name == "Ala Opening"@ {
        match player {
            Player::Player1 => seq!["e2"@, "e3"@, "e4"@, "d5h"@, "f5h"@, "c4v"@, "g4v"@],
            Player::Player2 => seq!["e8"@, "e7"@, "e6"@],
        }
    } else if name == "Sidewall Opening"@ {
        match player {
            Player::Player1 => seq!["c3h"@, "f3h"@],
            Player::Player2 => seq!["c6h"@, "f6h"@],
        }
    } else if name == "Stonewall"@ {
        match player {
            Player::Player1 => seq!["e2"@, "e3"@, "d2h"@],
            Player::Player2 => seq!["e8"@, "e7"@, "e7h"@],
        }
    } else if name == "Anti-Gap"@ {
        match player {
            Player::Player1 => seq!["e2"@, "e3"@, "e4"@],
            Player::Player2 => seq!["e8"@, "e7"@, "e6"@, "b3h"@],
        }
    } else if name == "Sidewall"@ {
        match player {
            Player::Player1 => seq!["e2"@, "d7v"@],
            Player::Player2 => seq!["e8"@],
        }
    } else if name == "Sidewall (Proper Counter)"@ {
        match player {
            Player::Player1 => seq!["e2"@, "d7v"@],
            Player::Player2 => seq!["e8"@, "c7h"@],
        }
    } else if name == "Quick Box Variation"@ {
        match player {
            Player::Player1 => seq!["e2"@],
            Player::Player2 => seq!["e8"@, "d1h"@],
        }
    } else if name == "Shatranj Opening"@ {
        match player {
            Player::Player1 => seq!["d1v"@],
            Player::Player2 => Seq::<Seq<char>>::empty(),
        }
    } else if name == "Lee Inversion"@ {
        match player {
            Player::Player1 => seq!["e1v"@],
            Player::Player2 => Seq::<Seq<char>>::empty(),
        }
    } else {
        Seq::<Seq<char>>::empty()
    }
}

/// The scripted moves of a named opening for one player, in order.
pub fn get_opening_moves(opening_name: &str, player: Player) -> (r: Vec<String>)
    ensures
        r@.map_values(|s: String| s@) == spec_opening_moves(opening_name@, player),
{
    if str_eq(opening_name, "Standard Opening") {
        match player {
            Player::Player1 => {
                let mut v: Vec<String> = Vec::new();
                v.push(String::from_str("e2"));
                v.push(String::from_str("e3"));
                v.push(String::from_str("e4"));
                v.push(String::from_str("e3v"));
                proof {
                    assert(v@.map_values(|s: String| s@) =~= spec_opening_moves(opening_name@, player));
                }
                v
            },
            Player::Player2 => {
                let mut v: Vec<String> = Vec::new();
                v.push(String::from_str("e8"));
                v.push(String::from_str("e7"));
                v.push(String::from_str("e6"));
                v.push(String::from_str("e6v"));
                proof {
                    assert(v@.map_values(|s: String| s@) =~= spec_opening_moves(opening_name@, player));
                }
                v
            },
        }
    } else if str_eq(opening_name, "Standard Opening (Symmetrical)") {
        match player {
            Player::Player1 => {
                let mut v: Vec<String> = Vec::new();
                v.push(String::from_str("e2"));
                v.push(String::from_str("e3"));
                v.push(String::from_str("e4"));
                v.push(String::from_str("e3v"));
                proof {
                    assert(v@.map_values(|s: String| s@) =~= spec_opening_moves(opening_name@, player));
                }
                v
            },
            Player::Player2 => {
                let mut v: Vec<String> = Vec::new();
                v.push(String::from_str("e8"));
                v.push(String::from_str("e7"));
                v.push(String::from_str("e6"));
                v.push(String::from_str("d6v"));
                proof {
                    assert(v@.map_values(|s: String| s@) =~= spec_opening_moves(opening_name@, player));
                }
                v
            },
        }
    } else if str_eq(opening_name, "Shiller Opening") {
        match player {
            Player::Player1 => {
                let mut v: Vec<String> = Vec::new();
                v.push(String::from_str("e2"));
                v.push(String::from_str("e3"));
                v.push(String::from_str("e4"));
                v.push(String::from_str("c3v"));
                proof {
                    assert(v@.map_values(|s: String| s@) =~= spec_opening_moves(opening_name@, player));
                }
                v
            },
            Player::Player2 => {
                let mut v: Vec<String> = Vec::new();
                v.push(String::from_str("e8"));
                v.push(String::from_str("e7"));
                v.push(String::from_str("e6"));
                proof {
                    assert(v@.map_values(|s: String| s@) =~= spec_opening_moves(opening_name@, player));
                }
                v
            },
        }
    } else if str_eq(opening_name, "Rush Variation") {
        match player {
            Player::Player1 => {
                let mut v: Vec<String> = Vec::new();
                v.push(String::from_str("e2"));
                v.push(String::from_str("e3"));
                v.push(String::from_str("e4"));
                v.push(String::from_str("d5v"));
                v.push(String::from_str("e4h"));
                v.push(String::from_str("g4h"));
                v.push(String::from_str("h5v"));
                proof {
                    assert(v@.map_values(|s: String| s@) =~= spec_opening_moves(opening_name@, player));
                }
                v
            },
            Player::Player2 => {
                let mut v: Vec<String> = Vec::new();
                v.push(String::from_str("e8"));
                v.push(String::from_str("e7"));
                v.push(String::from_str("e6"));
                v.push(String::from_str("e6h"));
                v.push(String::from_str("f6"));
                v.push(String::from_str("f5"));
                v.push(String::from_str("g5"));
                proof {
                    assert(v@.map_values(|s: String| s@) =~= spec_opening_moves(opening_name@, player));
                }
                v
            },
        }
    } else if str_eq(opening_name, "Gap Opening") {
        match player {
            Player::Player1 => {
                let mut v: Vec<String> = Vec::new();
                v.push(String::from_str("e2"));
                v.push(String::from_str("e3"));
                v.push(String::from_str("e4"));
                proof {
                    assert(v@.map_values(|s: String| s@) =~= spec_opening_moves(opening_name@, player));
                }
                v
            },
            Player::Player2 => {
                let mut v: Vec<String> = Vec::new();
                v.push(String::from_str("e8"));
                v.push(String::from_str("e7"));
                v.push(String::from_str("e6"));
                proof {
                    assert(v@.map_values(|s: String| s@) =~= spec_opening_moves(opening_name@, player));
                }
                v
            },
        }
    } else if str_eq(opening_name, "Gap Opening (Mainline)") {
        match player {
            Player::Player1 => {
                let mut v: Vec<String> = Vec::new();
                v.push(String::from_str("e2"));
                v.push(String::from_str("e3"));
                v.push(String::from_str("e4"));
                proof {
                    assert(v@.map_values(|s: String| s@) =~= spec_opening_moves(opening_name@, player));
                }
                v
            },
            Player::Player2 => {
                let mut v: Vec<String> = Vec::new();
                v.push(String::from_str("e8"));
                v.push(String::from_str("e7"));
                v.push(String::from_str("e6"));
                v.push(String::from_str("g6h"));
                proof {
                    assert(v@.map_values(|s: String| s@) =~= spec_opening_moves(opening_name@, player));
                }
                v
            },
        }
    } else if str_eq(opening_name, "Ala Opening") {
        match player {
            Player::Player1 => {
                let mut v: Vec<String> = Vec::new();
                v.push(String::from_str("e2"));
                v.push(String::from_str("e3"));
                v.push(String::from_str("e4"));
                v.push(String::from_str("d5h"));
                v.push(String::from_str("f5h"));
                v.push(String::from_str("c4v"));
                v.push(String::from_str("g4v"));
                proof {
                    assert(v@.map_values(|s: String| s@) =~= spec_opening_moves(opening_name@, player));
                }
                v
            },
            Player::Player2 => {
                let mut v: Vec<String> = Vec::new();
                v.push(String::from_str("e8"));
                v.push(String::from_str("e7"));
                v.push(String::from_str("e6"));
                proof {
                    assert(v@.map_values(|s: String| s@) =~= spec_opening_moves(opening_name@, player));
                }
                v
            },
        }
    } else if str_eq(opening_name, "Sidewall Opening") {
        match player {
            Player::Player1 => {
                let mut v: Vec<String> = Vec::new();
                v.push(String::from_str("c3h"));
                v.push(String::from_str("f3h"));
                proof {
                    assert(v@.map_values(|s: String| s@) =~= spec_opening_moves(opening_name@, player));
                }
                v
            },
            Player::Player2 => {
                let mut v: Vec<String> = Vec::new();
                v.push(String::from_str("c6h"));
                v.push(String::from_str("f6h"));
                proof {
                    assert(v@.map_values(|s: String| s@) =~= spec_opening_moves(opening_name@, player));
                }
                v
            },
        }
    } else if str_eq(opening_name, "Stonewall") {
        match player {
            Player::Player1 => {
                let mut v: Vec<String> = Vec::new();
                v.push(String::from_str("e2"));
                v.push(String::from_str("e3"));
                v.push(String::from_str("d2h"));
                proof {
                    assert(v@.map_values(|s: String| s@) =~= spec_opening_moves(opening_name@, player));
                }
                v
            },
            Player::Player2 => {
                let mut v: Vec<String> = Vec::new();
                v.push(String::from_str("e8"));
                v.push(String::from_str("e7"));
                v.push(String::from_str("e7h"));
                proof {
                    assert(v@.map_values(|s: String| s@) =~= spec_opening_moves(opening_name@, player));
                }
                v
            },
        }
    } else if str_eq(opening_name, "Anti-Gap") {
        match player {
            Player::Player1 => {
                let mut v: Vec<String> = Vec::new();
                v.push(String::from_str("e2"));
                v.push(String::from_str("e3"));
                v.push(String::from_str("e4"));
                proof {
                    assert(v@.map_values(|s: String| s@) =~= spec_opening_moves(opening_name@, player));
                }
                v
            },
            Player::Player2 => {
                let mut v: Vec<String> = Vec::new();
                v.push(String::from_str("e8"));
                v.push(String::from_str("e7"));
                v.push(String::from_str("e6"));
                v.push(String::from_str("b3h"));
                proof {
                    assert(v@.map_values(|s: String| s@) =~= spec_opening_moves(opening_name@, player));
                }
                v
            },
        }
    } else if str_eq(opening_name, "Sidewall") {
        match player {
            Player::Player1 => {
                let mut v: Vec<String> = Vec::new();
                v.push(String::from_str("e2"));
                v.push(String::from_str("d7v"));
                proof {
                    assert(v@.map_values(|s: String| s@) =~= spec_opening_moves(opening_name@, player));
                }
                v
            },
            Player::Player2 => {
                let mut v: Vec<String> = Vec::new();
                v.push(String::from_str("e8"));
                proof {
                    assert(v@.map_values(|s: String| s@) =~= spec_opening_moves(opening_name@, player));
                }
                v
            },
        }
    } else if str_eq(opening_name, "Sidewall (Proper Counter)") {
        match player {
            Player::Player1 => {
                let mut v: Vec<String> = Vec::new();
                v.push(String::from_str("e2"));
                v.push(String::from_str("d7v"));
                proof {
                    assert(v@.map_values(|s: String| s@) =~= spec_opening_moves(opening_name@, player));
                }
                v
            },
            Player::Player2 => {
                let mut v: Vec<String> = Vec::new();
                v.push(String::from_str("e8"));
                v.push(String::from_str("c7h"));
                proof {
                    assert(v@.map_values(|s: String| s@) =~= spec_opening_moves(opening_name@, player));
                }
                v
            },
        }
    } else if str_eq(opening_name, "Quick Box Variation") {
        match player {
            Player::Player1 => {
                let mut v: Vec<String> = Vec::new();
                v.push(String::from_str("e2"));
                proof {
                    assert(v@.map_values(|s: String| s@) =~= spec_opening_moves(opening_name@, player));
                }
                v
            },
            Player::Player2 => {
                let mut v: Vec<String> = Vec::new();
                v.push(String::from_str("e8"));
                v.push(String::from_str("d1h"));
                proof {
                    assert(v@.map_values(|s: String| s@) =~= spec_opening_moves(opening_name@, player));
                }
                v
            },
        }
    } else if str_eq(opening_name, "Shatranj Opening") {
        match player {
            Player::Player1 => {
                let mut v: Vec<String> = Vec::new();
                v.push(String::from_str("d1v"));
                proof {
                    assert(v@.map_values(|s: String| s@) =~= spec_opening_moves(opening_name@, player));
                }
                v
            },
            Player::Player2 => {
                let mut v: Vec<String> = Vec::new();
                proof {
                    assert(v@.map_values(|s: String| s@) =~= spec_opening_moves(opening_name@, player));
                }
                v
            },
        }
    } else if str_eq(opening_name, "Lee Inversion") {
        match player {
            Player::Player1 => {
                let mut v: Vec<String> = Vec::new();
                v.push(String::from_str("e1v"));
                proof {
                    assert(v@.map_values(|s: String| s@) =~= spec_opening_moves(opening_name@, player));
                }
                v
            },
            Player::Player2 => {
                let mut v: Vec<String> = Vec::new();
                proof {
                    assert(v@.map_values(|s: String| s@) =~= spec_opening_moves(opening_name@, player));
                }
                v
            },
        }
    } else {
        let v: Vec<String> = Vec::new();
        proof {
            assert(v@.map_values(|s: String| s@) =~= spec_opening_moves(opening_name@, player));
        }
        v
    }
}

} // verus!
