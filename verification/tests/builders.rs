use finance::{
    Builder, Error, History, HistoryBuilder, Stock, StockBuilder, YahooFinanceBuilder,
};

fn stock(symbol: &str) -> Stock {
    StockBuilder { symbol: Some(symbol) }.build().unwrap()
}

fn history() -> History {
    HistoryBuilder { stock: Some(stock("MSFT")), period1: Some(10), period2: Some(20), interval: Some(1) }
        .build()
        .unwrap()
}

#[test]
fn stock_builder_keeps_the_symbol() {
    assert_eq!(stock("AAPL").symbol, "AAPL");
    assert_eq!(stock("").symbol, "");
}

#[test]
fn stock_builder_without_symbol_reports_the_missing_field() {
    let built = StockBuilder { symbol: None }.build();
    assert_eq!(built.err(), Some(Error::MissingField));
}

#[test]
fn history_builder_keeps_every_part() {
    let built = history();
    assert_eq!(built.stock.symbol, "MSFT");
    assert_eq!(built.period1, 10);
    assert_eq!(built.period2, 20);
    assert_eq!(built.interval, 1);
}

#[test]
fn history_builder_reports_each_missing_field() {
    let without_stock: HistoryBuilder = HistoryBuilder { stock: None, period1: Some(10), period2: Some(20), interval: Some(1) };
    assert_eq!(without_stock.build().err(), Some(Error::MissingField));
    let without_first = HistoryBuilder { stock: Some(stock("MSFT")), period1: None, period2: Some(20), interval: Some(1) };
    assert_eq!(without_first.build().err(), Some(Error::MissingField));
    let without_second = HistoryBuilder { stock: Some(stock("MSFT")), period1: Some(10), period2: None, interval: Some(1) };
    assert_eq!(without_second.build().err(), Some(Error::MissingField));
    let without_interval = HistoryBuilder { stock: Some(stock("MSFT")), period1: Some(10), period2: Some(20), interval: None };
    assert_eq!(without_interval.build().err(), Some(Error::MissingField));
}

#[test]
fn endpoint_builder_keeps_address_and_query() {
    let built = YahooFinanceBuilder { base_url: Some("https://example.org/v7"), events: Some(history()) }
        .build()
        .unwrap();
    assert_eq!(built.base_url, "https://example.org/v7");
    assert_eq!(built.events.stock.symbol, "MSFT");
    assert_eq!(built.events.period2, 20);
}

#[test]
fn endpoint_builder_reports_each_missing_field() {
    let without_address = YahooFinanceBuilder { base_url: None, events: Some(history()) };
    assert_eq!(without_address.build().err(), Some(Error::MissingField));
    let without_query: YahooFinanceBuilder = YahooFinanceBuilder { base_url: Some("https://example.org/v7"), events: None };
    assert_eq!(without_query.build().err(), Some(Error::MissingField));
}
