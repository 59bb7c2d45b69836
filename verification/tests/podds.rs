use podds::{comp, eval, eval5, rank, Card, Rank, Suit, DRAW, LOSS, WIN};

fn c(code: &str) -> Card {
    Card::from_str(code).unwrap()
}

fn hand5(codes: [&str; 5]) -> Vec<Card> {
    let mut cards: Vec<Card> = codes.iter().map(|code| c(code)).collect();
    cards.sort_by_key(|a| u8::MAX - rank(a));
    cards
}

fn pool7(codes: [&str; 7]) -> [Card; 7] {
    [
        c(codes[0]),
        c(codes[1]),
        c(codes[2]),
        c(codes[3]),
        c(codes[4]),
        c(codes[5]),
        c(codes[6]),
    ]
}

#[test]
fn card_works() {
    let card = Card { rank: Rank::Seven, suit: Suit::Diamonds };
    assert_eq!(card.rank as u8, 5);
    assert_eq!(card.suit as u8, 1)
}

#[test]
fn card_from_str_works() {
    let res = Card::from_str("AS");
    assert_eq!(res, Ok(Card { rank: Rank::Ace, suit: Suit::Spades }));

    let res = Card::from_str("JD");
    assert_eq!(res, Ok(Card { rank: Rank::Jack, suit: Suit::Diamonds }));

    let res = Card::from_str("4H");
    assert_eq!(res, Ok(Card { rank: Rank::Four, suit: Suit::Hearts }));

    let res = Card::from_str("TC");
    assert_eq!(res, Ok(Card { rank: Rank::Ten, suit: Suit::Clubs }));

    let res = Card::from_str("2s");
    assert_eq!(res, Err(()));

    let res = Card::from_str("1D");
    assert_eq!(res, Err(()));

    let res = Card::from_str("9y");
    assert_eq!(res, Err(()))
}

#[test]
fn eval5_straight_flush() {
    let cards = hand5(["2H", "3H", "4H", "5H", "6H"]);
    assert_eq!(eval5(&cards), 17592186044416)
}

#[test]
fn eval5_straight() {
    let cards = hand5(["2D", "3D", "4D", "5H", "6H"]);
    assert_eq!(eval5(&cards), 17179869184)
}

#[test]
fn eval5_flush() {
    let cards = hand5(["2H", "4H", "6H", "8H", "TH"]);
    assert_eq!(eval5(&cards), 68720026656)
}

#[test]
fn eval_works() {
    let mut cards = pool7(["2D", "8D", "TD", "5S", "QS", "6C", "3C"]);
    assert_eq!(eval(&mut cards), Some(689731))
}

#[test]
fn parse_rejects_wrong_length() {
    assert_eq!(Card::from_str(""), Err(()));
    assert_eq!(Card::from_str("A"), Err(()));
    assert_eq!(Card::from_str("ASX"), Err(()));
}

#[test]
fn wheel_scores_as_five_high_straight() {
    let wheel = hand5(["AS", "5H", "4D", "3C", "2H"]);
    assert_eq!(eval5(&wheel), 12884901888);
}

#[test]
fn wheel_sits_between_trips_and_six_high_straight() {
    let wheel = hand5(["AS", "5H", "4D", "3C", "2H"]);
    let six_high = hand5(["2D", "3D", "4D", "5H", "6H"]);
    let trips = hand5(["9C", "9D", "9H", "KS", "QC"]);
    assert!(eval5(&wheel) < eval5(&six_high));
    assert!(eval5(&wheel) > eval5(&trips));
}

#[test]
fn straight_flush_beats_same_height_straight() {
    let sflush = hand5(["2H", "3H", "4H", "5H", "6H"]);
    let straight = hand5(["2D", "3D", "4D", "5H", "6H"]);
    assert!(eval5(&sflush) > eval5(&straight));
}

#[test]
fn four_of_a_kind_encoding() {
    let cards = hand5(["9C", "9D", "9H", "9S", "KC"]);
    assert_eq!(eval5(&cards), 2199024007031);
}

#[test]
fn full_house_encoding() {
    let cards = hand5(["9C", "9D", "9H", "KS", "KC"]);
    assert_eq!(eval5(&cards), 139787763712);
}

#[test]
fn three_of_a_kind_encoding() {
    let cards = hand5(["9C", "9D", "9H", "KS", "QC"]);
    assert_eq!(eval5(&cards), 2148247415);
}

#[test]
fn two_pair_encoding() {
    let cards = hand5(["KC", "KD", "9H", "9S", "5C"]);
    assert_eq!(eval5(&cards), 210483059);
}

#[test]
fn one_pair_encoding() {
    let cards = hand5(["KC", "KD", "9H", "7S", "5C"]);
    assert_eq!(eval5(&cards), 13350739);
}

#[test]
fn high_card_encoding() {
    let cards = hand5(["KC", "JD", "9H", "7S", "5C"]);
    assert_eq!(eval5(&cards), 759635);
}

#[test]
fn adjacent_pair_does_not_count_as_straight() {
    // 6,5,4,3,3: the duplicated rank breaks the straight, leaving one pair.
    let cards = hand5(["6H", "5D", "4C", "3S", "3H"]);
    assert_eq!(eval5(&cards), 2372113);
}

#[test]
fn category_boundaries_are_ordered() {
    // The weakest hand of each category still beats the strongest hand of
    // the category below it.
    let low_sflush = hand5(["AH", "5H", "4H", "3H", "2H"]);
    let high_quads = hand5(["AC", "AD", "AH", "AS", "KC"]);
    let low_quads = hand5(["2C", "2D", "2H", "2S", "3C"]);
    let high_full = hand5(["AC", "AD", "AH", "KS", "KC"]);
    let low_full = hand5(["2C", "2D", "2H", "3S", "3C"]);
    let high_flush = hand5(["AH", "KH", "QH", "JH", "9H"]);
    let low_flush = hand5(["7S", "5S", "4S", "3S", "2S"]);
    let high_straight = hand5(["AD", "KS", "QC", "JH", "TD"]);
    let low_straight = hand5(["AS", "5H", "4D", "3C", "2H"]);
    let high_trips = hand5(["AC", "AD", "AH", "KS", "QC"]);
    let low_trips = hand5(["2C", "2D", "2H", "3S", "4C"]);
    let high_two_pair = hand5(["AC", "AD", "KH", "KS", "QC"]);
    let low_two_pair = hand5(["3C", "3D", "2H", "2S", "4C"]);
    let high_pair = hand5(["AC", "AD", "KH", "QS", "JC"]);
    let low_pair = hand5(["2C", "2D", "3H", "4S", "5C"]);
    let high_card = hand5(["AC", "KD", "QH", "JS", "9C"]);
    assert!(eval5(&low_sflush) > eval5(&high_quads));
    assert!(eval5(&low_quads) > eval5(&high_full));
    assert!(eval5(&low_full) > eval5(&high_flush));
    assert!(eval5(&low_flush) > eval5(&high_straight));
    assert!(eval5(&low_straight) > eval5(&high_trips));
    assert!(eval5(&low_trips) > eval5(&high_two_pair));
    assert!(eval5(&low_two_pair) > eval5(&high_pair));
    assert!(eval5(&low_pair) > eval5(&high_card));
}

#[test]
fn eval_finds_best_subset_of_mixed_pool() {
    // The pool holds both a flush and a straight; the flush must win.
    let mut cards = pool7(["2H", "4H", "6H", "8H", "TH", "9C", "7D"]);
    let flush = hand5(["2H", "4H", "6H", "8H", "TH"]);
    assert_eq!(eval(&mut cards), Some(eval5(&flush)));
}

#[test]
fn eval_sorts_the_pool_descending() {
    let mut cards = pool7(["2D", "8D", "TD", "5S", "QS", "6C", "3C"]);
    eval(&mut cards);
    for i in 1..7 {
        assert!(rank(&cards[i - 1]) >= rank(&cards[i]));
    }
}

#[test]
fn comp_returns_loss_when_reference_is_below_best() {
    let mut cards = pool7(["2D", "8D", "TD", "5S", "QS", "6C", "3C"]);
    assert_eq!(comp(&mut cards, 689730), LOSS);
}

#[test]
fn comp_returns_draw_when_reference_equals_best() {
    let mut cards = pool7(["2D", "8D", "TD", "5S", "QS", "6C", "3C"]);
    assert_eq!(comp(&mut cards, 689731), DRAW);
}

#[test]
fn comp_returns_win_when_reference_is_above_best() {
    let mut cards = pool7(["2D", "8D", "TD", "5S", "QS", "6C", "3C"]);
    assert_eq!(comp(&mut cards, 689732), WIN);
}
