use waiter::times::{Token, Tokenizer};

#[test]
fn tokens_in_order() {
    let mut tok = Tokenizer::new("10m  4 x");
    assert!(!tok.done());
    assert_eq!(tok.next(), Some(Token::Num(10)));
    assert_eq!(tok.next(), Some(Token::TimeUnit('m')));
    assert_eq!(tok.next(), Some(Token::Num(4)));
    assert_eq!(tok.next(), Some(Token::TimeUnit('x')));
    assert!(!tok.done());
    assert_eq!(tok.next(), None);
    assert!(tok.done());
    assert_eq!(tok.next(), None);
}

#[test]
fn long_digit_run_is_huge() {
    let mut tok = Tokenizer::new("18446744073709551616 18446744073709551615");
    assert_eq!(tok.next(), Some(Token::Huge));
    assert_eq!(tok.next(), Some(Token::Num(18446744073709551615)));
    assert_eq!(tok.next(), None);
}

#[test]
fn empty_text_has_no_tokens() {
    let mut tok = Tokenizer::new("   ");
    assert_eq!(tok.next(), None);
    assert!(tok.done());
}

#[test]
fn unit_is_taken_only_where_one_stands() {
    let mut tok = Tokenizer::new("5 h 7");
    assert_eq!(tok.next(), Some(Token::Num(5)));
    assert_eq!(tok.next_unit(), Some('h'));
    assert_eq!(tok.next_unit(), None);
    assert_eq!(tok.next(), Some(Token::Num(7)));
    assert!(!tok.done());
    assert_eq!(tok.next_unit(), None);
    assert!(tok.done());
    assert_eq!(tok.next(), None);
}
