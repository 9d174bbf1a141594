use price_feed::fetch::{build_url, price_request, FetchResponse};
use price_feed::input::DataRequestInput;

fn response(status: u16) -> FetchResponse {
    FetchResponse { status, bytes: Vec::new() }
}

#[test]
fn success_is_the_2xx_range() {
    assert!(response(200).is_ok());
    assert!(response(204).is_ok());
    assert!(response(299).is_ok());
    assert!(!response(199).is_ok());
    assert!(!response(300).is_ok());
    assert!(!response(429).is_ok());
    assert!(!response(0).is_ok());
    assert!(!response(u16::MAX).is_ok());
}

#[test]
fn url_appends_both_symbols() {
    assert_eq!(
        build_url("BTC", "USDT"),
        "https://api.binance.com/api/v3/ticker/price?symbol=BTCUSDT"
    );
}

#[test]
fn request_sends_symbols_in_upper_case() {
    let input = DataRequestInput { symbol_a: "eth".to_string(), symbol_b: "Usdc".to_string() };
    assert_eq!(
        price_request(&input),
        "https://api.binance.com/api/v3/ticker/price?symbol=ETHUSDC"
    );
}
