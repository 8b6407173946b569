//! Value objects of a price-history query, and the builders that gather
//! their parts.

use crate::errors::Error;
use vstd::prelude::*;

verus! {

/// A stock, named by its ticker symbol.
#[derive(Clone, Debug)]
pub struct Stock {
    pub symbol: String,
}

/// A query for the prices of a stock between two points in time, sampled at
/// a fixed interval.
#[derive(Clone, Debug)]
pub struct History {
    pub stock: Stock,
    pub period1: usize,
    pub period2: usize,
    pub interval: usize,
}

/// The address of a finance service together with the query to send to it.
#[derive(Clone, Debug)]
pub struct YahooFinance {
    pub base_url: String,
    pub events: History,
}

/// Finish a value of `T` from the parts gathered so far.
pub trait Builder<T = Self> {
    fn build(self) -> T;
}

/// Gathers the parts of a `Stock`.
#[derive(Clone, Debug)]
pub struct StockBuilder<'s> {
    pub symbol: Option<&'s str>,
}

/// Gathers the parts of a `History`.
#[derive(Clone, Debug)]
pub struct HistoryBuilder<S = Stock> {
    pub stock: Option<S>,
    pub period1: Option<usize>,
    pub period2: Option<usize>,
    pub interval: Option<usize>,
}

/// Gathers the parts of a `YahooFinance`.
#[derive(Clone, Debug)]
pub struct YahooFinanceBuilder<'y, E = History> {
    pub base_url: Option<&'y str>,
    pub events: Option<E>,
}

impl<'s> Builder<Result<Stock, Error>> for StockBuilder<'s> {
    /// The stock with the symbol given; `MissingField` where none was.
    fn build(self) -> (r: Result<Stock, Error>)
        ensures
            self.symbol.is_none() ==> r == Err::<Stock, Error>(Error::MissingField),
            self.symbol.is_some() ==> r.is_ok() && r.unwrap().symbol@ == self.symbol.unwrap()@,
    {
        match self.symbol {
            Some(symbol) => Ok(Stock { symbol: symbol.to_owned() }),
            None => Err(Error::MissingField),
        }
    }
}

impl Builder<Result<History, Error>> for HistoryBuilder<Stock> {
    /// The query made of the four parts given; `MissingField` where one of
    /// them is absent.
    fn build(self) -> (r: Result<History, Error>)
        ensures
            r == (match (self.stock, self.period1, self.period2, self.interval) {
                (Some(stock), Some(period1), Some(period2), Some(interval)) => Ok::<
                    History,
                    Error,
                >(History { stock, period1, period2, interval }),
                _ => Err::<History, Error>(Error::MissingField),
            }),
    {
        match (self.stock, self.period1, self.period2, self.interval) {
            (Some(stock), Some(period1), Some(period2), Some(interval)) => Ok(
                History { stock, period1, period2, interval },
            ),
            _ => Err(Error::MissingField),
        }
    }
}

impl<'y> Builder<Result<YahooFinance, Error>> for YahooFinanceBuilder<'y, History> {
    /// The endpoint made of the address and the query given; `MissingField`
    /// where one of them is absent.
    fn build(self) -> (r: Result<YahooFinance, Error>)
        ensures
            self.base_url.is_none() || self.events.is_none() ==> r == Err::<YahooFinance, Error>(
                Error::MissingField,
            ),
            self.base_url.is_some() && self.events.is_some() ==> r.is_ok() && r.unwrap().base_url@
                == self.base_url.unwrap()@ && r.unwrap().events == self.events.unwrap(),
    {
        match (self.base_url, self.events) {
            (Some(base_url), Some(events)) => Ok(
                YahooFinance { base_url: base_url.to_owned(), events },
            ),
            _ => Err(Error::MissingField),
        }
    }
}

} // verus!
