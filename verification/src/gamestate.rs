use vstd::prelude::*;

use crate::bjerror::BjError;
use crate::card::Card;
use crate::hand::Hand;
use crate::shoe::spec_shoe_cards;
use crate::shoe::Shoe;
use crate::strat::charts::lookup_action;
use crate::strat::charts::spec_lookup_action;
use crate::strat::charts::ChartAction;
use crate::strat::tableindex::TableIndex;

verus! {

/// One training session: a shuffled six-deck shoe, the two current hands,
/// and the trainee's accuracy counters.
pub struct GameState {
    shoe: Shoe,
    player_hand: Hand,
    dealer_hand: Hand,
    num_questions: usize,
    num_wrong: usize,
}

/// Derived purely from shoe penetration: `Done` once the cut card is
/// reached, when no further rounds may start.
#[derive(Debug, PartialEq, Eq, Structural, Clone, Copy)]
pub enum GameMode {
    Playing,
    Done,
}

impl GameState {
    pub closed spec fn spec_player(self) -> Seq<Card> {
        self.player_hand@
    }

    pub closed spec fn spec_dealer(self) -> Seq<Card> {
        self.dealer_hand@
    }

    pub closed spec fn spec_questions(self) -> int {
        self.num_questions as int
    }

    pub closed spec fn spec_wrong(self) -> int {
        self.num_wrong as int
    }

    pub closed spec fn spec_shoe_next(self) -> int {
        self.shoe.spec_next()
    }

    pub closed spec fn spec_shoe_pen(self) -> int {
        self.shoe.spec_pen()
    }

    /// The shoe's full card order, dealt positions included.
    pub closed spec fn spec_shoe(self) -> Seq<Card> {
        self.shoe.spec_cards()
    }

    pub open spec fn spec_shoe_len(self) -> int {
        self.spec_shoe().len() as int
    }

    /// Wrong answers never outnumber questions, the hands' derived fields
    /// agree with their cards, and the shoe holds 26 cards past its cutoff.
    pub closed spec fn wf(self) -> bool {
        &&& self.num_wrong <= self.num_questions
        &&& self.player_hand.wf()
        &&& self.dealer_hand.wf()
        &&& self.shoe.spec_pen() + 26 == self.shoe.spec_cards().len()
        &&& self.shoe.spec_cards().len() <= usize::MAX
    }

    pub open spec fn spec_mode(self) -> GameMode {
        if self.spec_shoe_next() >= self.spec_shoe_pen() {
            GameMode::Done
        } else {
            GameMode::Playing
        }
    }

    /// A fresh session: six decks, shuffled, empty hands, zeroed counters.
    pub fn new() -> (s: GameState)
        ensures
            s.wf(),
            s.spec_player().len() == 0,
            s.spec_dealer().len() == 0,
            s.spec_questions() == 0,
            s.spec_wrong() == 0,
            s.spec_shoe_next() == 0,
            s.spec_shoe_pen() == 286,
            s.spec_shoe_len() == 312,
            s.spec_shoe().to_multiset() == spec_shoe_cards(6).to_multiset(),
    {
        let mut shoe = Shoe::new(6);
        proof {
            crate::shoe::lemma_shoe_cards_len(6);
        }
        shoe.shuffle();
        GameState {
            shoe,
            player_hand: Hand::default(),
            dealer_hand: Hand::default(),
            num_questions: 0,
            num_wrong: 0,
        }
    }

    pub fn num_questions_asked(&self) -> (r: usize)
        ensures
            r as int == self.spec_questions(),
    {
        self.num_questions
    }

    pub fn num_questions_wrong(&self) -> (r: usize)
        ensures
            r as int == self.spec_wrong(),
    {
        self.num_wrong
    }

    /// Count one more question, answered correctly.
    pub fn answered_right(&mut self)
        requires
            old(self).wf(),
            old(self).spec_questions() < usize::MAX,
        ensures
            final(self).wf(),
            final(self).spec_questions() == old(self).spec_questions() + 1,
            final(self).spec_wrong() == old(self).spec_wrong(),
            final(self).spec_player() == old(self).spec_player(),
            final(self).spec_dealer() == old(self).spec_dealer(),
            final(self).spec_shoe() == old(self).spec_shoe(),
            final(self).spec_shoe_next() == old(self).spec_shoe_next(),
            final(self).spec_shoe_pen() == old(self).spec_shoe_pen(),
    {
        self.num_questions = self.num_questions + 1;
    }

    /// Count one more question, answered wrongly.
    pub fn answered_wrong(&mut self)
        requires
            old(self).wf(),
            old(self).spec_questions() < usize::MAX,
        ensures
            final(self).wf(),
            final(self).spec_questions() == old(self).spec_questions() + 1,
            final(self).spec_wrong() == old(self).spec_wrong() + 1,
            final(self).spec_player() == old(self).spec_player(),
            final(self).spec_dealer() == old(self).spec_dealer(),
            final(self).spec_shoe() == old(self).spec_shoe(),
            final(self).spec_shoe_next() == old(self).spec_shoe_next(),
            final(self).spec_shoe_pen() == old(self).spec_shoe_pen(),
    {
        self.num_wrong = self.num_wrong + 1;
        self.num_questions = self.num_questions + 1;
    }

    /// Playing until the shoe reaches its penetration cutoff, never stored
    /// redundantly.
    pub fn mode(&self) -> (r: GameMode)
        ensures
            r == self.spec_mode(),
    {
        if self.shoe.is_done() {
            GameMode::Done
        } else {
            GameMode::Playing
        }
    }

    /// The chart engine's verdict for the current hands.
    pub fn chart_action(&self) -> (r: Result<(ChartAction, Option<TableIndex>), BjError>)
        requires
            self.wf(),
        ensures
            r == spec_lookup_action(self.spec_player(), self.spec_dealer()),
            r matches Ok(pair) ==> pair.0 != ChartAction::NoAc,
    {
        lookup_action(&self.player_hand, &self.dealer_hand)
    }

    pub fn dealer_hand(&self) -> (r: &Hand)
        ensures
            r@ == self.spec_dealer(),
            self.wf() ==> r.wf(),
    {
        &self.dealer_hand
    }

    pub fn player_hand(&self) -> (r: &Hand)
        ensures
            r@ == self.spec_player(),
            self.wf() ==> r.wf(),
    {
        &self.player_hand
    }

    /// Replace both hands with fresh empty ones.
    pub fn new_hands(&mut self)
        requires
            old(self).wf(),
        ensures
            final(self).wf(),
            final(self).spec_player().len() == 0,
            final(self).spec_dealer().len() == 0,
            final(self).spec_questions() == old(self).spec_questions(),
            final(self).spec_wrong() == old(self).spec_wrong(),
            final(self).spec_shoe() == old(self).spec_shoe(),
            final(self).spec_shoe_next() == old(self).spec_shoe_next(),
            final(self).spec_shoe_pen() == old(self).spec_shoe_pen(),
    {
        self.dealer_hand = Hand::default();
        self.player_hand = Hand::default();
    }

    /// Deal a fresh round — player, dealer, player, in that order — into
    /// new hands. Returns false and changes nothing once the shoe is done;
    /// the well-formed shoe always has three cards left before its cutoff.
    pub fn deal_a_hand(&mut self) -> (r: bool)
        requires
            old(self).wf(),
        ensures
            final(self).wf(),
            final(self).spec_questions() == old(self).spec_questions(),
            final(self).spec_wrong() == old(self).spec_wrong(),
            final(self).spec_shoe() == old(self).spec_shoe(),
            final(self).spec_shoe_pen() == old(self).spec_shoe_pen(),
            old(self).spec_mode() == GameMode::Done ==> {
                &&& r == false
                &&& final(self).spec_player() == old(self).spec_player()
                &&& final(self).spec_dealer() == old(self).spec_dealer()
                &&& final(self).spec_shoe_next() == old(self).spec_shoe_next()
            },
            old(self).spec_mode() == GameMode::Playing ==> {
                &&& r == true
                &&& final(self).spec_player() == seq![
                    old(self).spec_shoe()[old(self).spec_shoe_next()],
                    old(self).spec_shoe()[old(self).spec_shoe_next() + 2],
                ]
                &&& final(self).spec_dealer() == seq![
                    old(self).spec_shoe()[old(self).spec_shoe_next() + 1],
                ]
                &&& final(self).spec_shoe_next() == old(self).spec_shoe_next() + 3
            },
    {
        if self.shoe.is_done() {
            return false;
        }
        let mut succeeded = false;
        let p1 = self.shoe.deal();
        if let Some(p1) = p1 {
            let d1 = self.shoe.deal();
            if let Some(d1) = d1 {
                let p2 = self.shoe.deal();
                if let Some(p2) = p2 {
                    succeeded = true;
                    self.new_hands_inner();
                    proof {
                        crate::card::lemma_card_value_bounds(p1);
                    }
                    self.player_hand.add_card(p1);
                    proof {
                        crate::card::lemma_card_value_bounds(p2);
                        assert(crate::hand::sum_values(Seq::<Card>::empty()) == 0);
                        assert(self.player_hand@.drop_last() =~= Seq::<Card>::empty());
                        assert(self.player_hand@.last() == p1);
                        assert(crate::hand::sum_values(self.player_hand@) == crate::card::card_value(
                            p1,
                        ));
                    }
                    self.player_hand.add_card(p2);
                    proof {
                        crate::card::lemma_card_value_bounds(d1);
                    }
                    self.dealer_hand.add_card(d1);
                    proof {
                        assert(self.player_hand@ =~= seq![p1, p2]);
                        assert(self.dealer_hand@ =~= seq![d1]);
                    }
                }
            }
        }
        succeeded
    }

    fn new_hands_inner(&mut self)
        ensures
            final(self).player_hand@.len() == 0,
            final(self).dealer_hand@.len() == 0,
            final(self).player_hand.wf(),
            final(self).dealer_hand.wf(),
            final(self).shoe == old(self).shoe,
            final(self).num_questions == old(self).num_questions,
            final(self).num_wrong == old(self).num_wrong,
    {
        self.dealer_hand = Hand::default();
        self.player_hand = Hand::default();
    }
}

impl Default for GameState {
    /// A fresh session, exactly as `new` builds it.
    fn default() -> (s: Self)
        ensures
            s.wf(),
            s.spec_player().len() == 0,
            s.spec_dealer().len() == 0,
            s.spec_questions() == 0,
            s.spec_wrong() == 0,
            s.spec_shoe_next() == 0,
            s.spec_shoe_pen() == 286,
    {
        Self::new()
    }
}

} // verus!
