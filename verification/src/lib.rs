pub mod bjerror;
pub mod card;
pub mod game_message;
pub mod gamestate;
pub mod hand;
pub mod leitner;
pub mod shoe;
pub mod strat;
pub mod text;

pub use bjerror::BjError;
pub use bjerror::BjResult;
pub use card::Card;
pub use card::Pip;
pub use card::Suit;
pub use game_message::GameMessage;
pub use gamestate::GameMode;
pub use gamestate::GameState;
pub use hand::Hand;
pub use leitner::CellData;
pub use leitner::LeitnerState;
pub use shoe::Shoe;
pub use strat::actions::Action;
