//! The card model: ranks, suits, and parsing of two-character card codes.

use vstd::prelude::*;

verus! {

/// Card face value, ascending in strength from `Two` to `Ace`.
#[derive(Copy, Clone, Debug, PartialEq, Eq, Structural)]
pub enum Rank {
    Two,
    Three,
    Four,
    Five,
    Six,
    Seven,
    Eight,
    Nine,
    Ten,
    Jack,
    Queen,
    King,
    Ace,
}

/// Card family; it never affects rank ordering, only flush detection.
#[derive(Copy, Clone, Debug, PartialEq, Eq, Structural)]
pub enum Suit {
    Clubs,
    Diamonds,
    Hearts,
    Spades,
}

/// A playing card: an immutable (rank, suit) pair.
#[derive(Copy, Clone, Debug, PartialEq, Eq, Structural)]
pub struct Card {
    pub rank: Rank,
    pub suit: Suit,
}

/// Ordinal of a rank: 0 (`Two`) up to 12 (`Ace`).
pub open spec fn rank_ord(r: Rank) -> int {
    match r {
        Rank::Two => 0,
        Rank::Three => 1,
        Rank::Four => 2,
        Rank::Five => 3,
        Rank::Six => 4,
        Rank::Seven => 5,
        Rank::Eight => 6,
        Rank::Nine => 7,
        Rank::Ten => 8,
        Rank::Jack => 9,
        Rank::Queen => 10,
        Rank::King => 11,
        Rank::Ace => 12,
    }
}

/// Ordinal of a suit: 0 (`Clubs`) up to 3 (`Spades`).
pub open spec fn suit_ord(s: Suit) -> int {
    match s {
        Suit::Clubs => 0,
        Suit::Diamonds => 1,
        Suit::Hearts => 2,
        Suit::Spades => 3,
    }
}

/// Rank ordinal of a card.
pub open spec fn rank_of(c: Card) -> int {
    rank_ord(c.rank)
}

/// Suit ordinal of a card.
pub open spec fn suit_of(c: Card) -> int {
    suit_ord(c.suit)
}

/// Every rank ordinal lies in 0..=12 and every suit ordinal in 0..=3.
pub proof fn lemma_card_ord_bounds(c: Card)
    ensures
        0 <= rank_of(c) <= 12,
        0 <= suit_of(c) <= 3,
{
}

/// The 0-based rank ordinal of a card, `Two` being 0 and `Ace` being 12.
pub fn rank(card: &Card) -> (r: u8)
    ensures
        r == rank_of(*card),
        r <= 12,
{
    match card.rank {
        Rank::Two => 0,
        Rank::Three => 1,
        Rank::Four => 2,
        Rank::Five => 3,
        Rank::Six => 4,
        Rank::Seven => 5,
        Rank::Eight => 6,
        Rank::Nine => 7,
        Rank::Ten => 8,
        Rank::Jack => 9,
        Rank::Queen => 10,
        Rank::King => 11,
        Rank::Ace => 12,
    }
}

/// The 0-based suit ordinal of a card, `Clubs` being 0 and `Spades` being 3.
pub fn suit(card: &Card) -> (s: u8)
    ensures
        s == suit_of(*card),
        s <= 3,
{
    match card.suit {
        Suit::Clubs => 0,
        Suit::Diamonds => 1,
        Suit::Hearts => 2,
        Suit::Spades => 3,
    }
}

/// The rank selected by a rank character, if any: one of
/// `2 3 4 5 6 7 8 9 T J Q K A`.
pub open spec fn rank_of_char(c: char) -> Option<Rank> {
    if c == '2' {
        Some(Rank::Two)
    } else if c == '3' {
        Some(Rank::Three)
    } else if c == '4' {
        Some(Rank::Four)
    } else if c == '5' {
        Some(Rank::Five)
    } else if c == '6' {
        Some(Rank::Six)
    } else if c == '7' {
        Some(Rank::Seven)
    } else if c == '8' {
        Some(Rank::Eight)
    } else if c == '9' {
        Some(Rank::Nine)
    } else if c == 'T' {
        Some(Rank::Ten)
    } else if c == 'J' {
        Some(Rank::Jack)
    } else if c == 'Q' {
        Some(Rank::Queen)
    } else if c == 'K' {
        Some(Rank::King)
    } else if c == 'A' {
        Some(Rank::Ace)
    } else {
        None
    }
}

/// The suit selected by a suit character, if any: one of `C D H S`
/// (upper case only).
pub open spec fn suit_of_char(c: char) -> Option<Suit> {
    if c == 'C' {
        Some(Suit::Clubs)
    } else if c == 'D' {
        Some(Suit::Diamonds)
    } else if c == 'H' {
        Some(Suit::Hearts)
    } else if c == 'S' {
        Some(Suit::Spades)
    } else {
        None
    }
}

/// The card denoted by a two-character code, or `None` when the text is not
/// exactly a recognized rank character followed by a recognized suit
/// character.
pub open spec fn card_of_str(s: Seq<char>) -> Option<Card> {
    if s.len() == 2 && rank_of_char(s[0]) is Some && suit_of_char(s[1]) is Some {
        Some(Card { rank: rank_of_char(s[0])->0, suit: suit_of_char(s[1])->0 })
    } else {
        None
    }
}

impl Rank {
    /// Parse a single rank character; fails on anything outside
    /// `2 3 4 5 6 7 8 9 T J Q K A`.
    pub fn from_char(c: char) -> (r: Result<Rank, ()>)
        ensures
            match rank_of_char(c) {
                Some(rk) => r == Ok::<Rank, ()>(rk),
                None => r == Err::<Rank, ()>(()),
            },
    {
        match c {
            '2' => Ok(Rank::Two),
            '3' => Ok(Rank::Three),
            '4' => Ok(Rank::Four),
            '5' => Ok(Rank::Five),
            '6' => Ok(Rank::Six),
            '7' => Ok(Rank::Seven),
            '8' => Ok(Rank::Eight),
            '9' => Ok(Rank::Nine),
            'T' => Ok(Rank::Ten),
            'J' => Ok(Rank::Jack),
            'Q' => Ok(Rank::Queen),
            'K' => Ok(Rank::King),
            'A' => Ok(Rank::Ace),
            _ => Err(()),
        }
    }
}

impl Suit {
    /// Parse a single suit character; fails on anything outside `C D H S`.
    pub fn from_char(c: char) -> (r: Result<Suit, ()>)
        ensures
            match suit_of_char(c) {
                Some(st) => r == Ok::<Suit, ()>(st),
                None => r == Err::<Suit, ()>(()),
            },
    {
        match c {
            'C' => Ok(Suit::Clubs),
            'D' => Ok(Suit::Diamonds),
            'H' => Ok(Suit::Hearts),
            'S' => Ok(Suit::Spades),
            _ => Err(()),
        }
    }
}

impl Card {
    /// Parse a two-character card code such as `"AS"`: a rank character from
    /// `2 3 4 5 6 7 8 9 T J Q K A` followed by a suit character from
    /// `C D H S`.  Fails on any other length and on unrecognized characters.
    pub fn from_str(s: &str) -> (r: Result<Card, ()>)
        ensures
            match card_of_str(s@) {
                Some(c) => r == Ok::<Card, ()>(c),
                None => r == Err::<Card, ()>(()),
            },
    {
        if s.unicode_len() != 2 {
            return Err(());
        }
        let rank = match Rank::from_char(s.get_char(0)) {
            Ok(rk) => rk,
            Err(()) => {
                return Err(());
            },
        };
        let suit = match Suit::from_char(s.get_char(1)) {
            Ok(st) => st,
            Err(()) => {
                return Err(());
            },
        };
        Ok(Card { rank, suit })
    }
}

} // verus!
