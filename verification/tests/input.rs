use price_feed::input::{parse_input, parse_pair, DataRequestInput, SEPARATOR};
use price_feed::text::{chars_of, decimal_text, read_text};

fn pair(symbol_a: &str, symbol_b: &str) -> Option<DataRequestInput> {
    Some(DataRequestInput { symbol_a: symbol_a.to_string(), symbol_b: symbol_b.to_string() })
}

#[test]
fn pair_is_split_at_the_separator() {
    assert_eq!(parse_input(b"btc-usdt".to_vec()), pair("btc", "usdt"));
    assert_eq!(parse_input(b"ETH-USDC".to_vec()), pair("ETH", "USDC"));
    assert_eq!(SEPARATOR, '-');
}

#[test]
fn input_without_separator_is_no_pair() {
    assert_eq!(parse_input(b"btcusdt".to_vec()), None);
    assert_eq!(parse_input(Vec::new()), None);
    assert_eq!(parse_input(b"btc_usdt".to_vec()), None);
}

#[test]
fn input_that_is_not_text_is_no_pair() {
    assert_eq!(parse_input(vec![b'a', b'-', 0xff]), None);
    assert_eq!(parse_input(vec![0xc3, b'-', b'b']), None);
    assert_eq!(parse_input(vec![0xed, 0xa0, 0x80, b'-', b'b']), None);
}

#[test]
fn tokens_behind_the_second_are_ignored() {
    assert_eq!(parse_input(b"a-b-c".to_vec()), pair("a", "b"));
    assert_eq!(parse_input(b"a-b-".to_vec()), pair("a", "b"));
    assert_eq!(parse_input(b"btc-usdt-perp-x".to_vec()), pair("btc", "usdt"));
}

#[test]
fn symbols_may_be_empty() {
    assert_eq!(parse_input(b"-".to_vec()), pair("", ""));
    assert_eq!(parse_input(b"btc-".to_vec()), pair("btc", ""));
    assert_eq!(parse_input(b"-usdt".to_vec()), pair("", "usdt"));
    assert_eq!(parse_input(b"--usdt".to_vec()), pair("", ""));
}

#[test]
fn symbols_are_split_by_characters_not_bytes() {
    assert_eq!(parse_input("é-ß".as_bytes().to_vec()), pair("é", "ß"));
    assert_eq!(parse_pair("日本-円-x"), pair("日本", "円"));
    assert_eq!(parse_pair("日本円"), None);
}

#[test]
fn bytes_are_read_as_utf8() {
    assert_eq!(read_text(b"abc".to_vec()), Some("abc".to_string()));
    assert_eq!(read_text("é€😀".as_bytes().to_vec()), Some("é€😀".to_string()));
    assert_eq!(read_text(Vec::new()), Some(String::new()));
    assert_eq!(read_text(vec![0xff]), None);
    assert_eq!(read_text(vec![b'a', 0x80]), None);
    assert_eq!(read_text(vec![0xc0, 0xaf]), None);
}

#[test]
fn characters_come_in_their_order() {
    assert_eq!(chars_of("a-é😀"), vec!['a', '-', 'é', '😀']);
    assert_eq!(chars_of(""), Vec::<char>::new());
}

#[test]
fn numbers_are_written_in_decimal() {
    assert_eq!(decimal_text(0), "0");
    assert_eq!(decimal_text(7), "7");
    assert_eq!(decimal_text(10), "10");
    assert_eq!(decimal_text(429), "429");
    assert_eq!(decimal_text(1005), "1005");
    assert_eq!(decimal_text(u16::MAX), "65535");
    for n in 0..=u16::MAX {
        assert_eq!(decimal_text(n), n.to_string());
    }
}
