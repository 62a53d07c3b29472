//! What the market-data providers share that needs no network: the
//! provider-independent types, the names that vendors give to timeframes,
//! how an HTTP status is read, and the order in which sources are tried.

use vstd::prelude::*;
use vstd::string::*;

verus! {

/// The market an instrument trades in, as the providers report it.
#[derive(Clone, Copy, Debug, PartialEq, Eq, Structural)]
pub enum AssetClass {
    UsEquity,
    Crypto,
    Fx,
    Option,
    Future,
    Unknown,
}

/// What a provider knows of an instrument.
#[derive(Debug)]
pub struct Asset {
    pub symbol: String,
    pub name: String,
    pub asset_class: AssetClass,
    pub exchange: String,
    pub status: String,
    pub tradable: bool,
}

/// The width of one bar of historical data.
#[derive(Clone, Copy, Debug, PartialEq, Eq, Structural, Hash)]
pub enum Timeframe {
    OneMin,
    FiveMin,
    FifteenMin,
    OneHour,
    OneDay,
}

/// The providers that can be configured.
#[derive(Clone, Copy, Debug, PartialEq, Eq, Structural)]
pub enum ProviderType {
    Alpaca,
    Polygon,
    Iex,
    Mock,
}

/// Why market data could not be had.
#[derive(Debug)]
pub enum MarketDataError {
    Configuration(String),
    Network(String),
    Api(String),
    Parse(String),
    SymbolNotFound(String),
    Unsupported(String),
    RateLimited,
    Unknown,
}

/// The mathematical content of a `MarketDataError`.
pub enum MarketDataErrorView {
    Configuration(Seq<char>),
    Network(Seq<char>),
    Api(Seq<char>),
    Parse(Seq<char>),
    SymbolNotFound(Seq<char>),
    Unsupported(Seq<char>),
    RateLimited,
    Unknown,
}

impl View for MarketDataError {
    type V = MarketDataErrorView;

    open spec fn view(&self) -> MarketDataErrorView {
        match self {
            MarketDataError::Configuration(s) => MarketDataErrorView::Configuration(s@),
            MarketDataError::Network(s) => MarketDataErrorView::Network(s@),
            MarketDataError::Api(s) => MarketDataErrorView::Api(s@),
            MarketDataError::Parse(s) => MarketDataErrorView::Parse(s@),
            MarketDataError::SymbolNotFound(s) => MarketDataErrorView::SymbolNotFound(s@),
            MarketDataError::Unsupported(s) => MarketDataErrorView::Unsupported(s@),
            MarketDataError::RateLimited => MarketDataErrorView::RateLimited,
            MarketDataError::Unknown => MarketDataErrorView::Unknown,
        }
    }
}

impl Timeframe {
    /// The name of the timeframe in requests to Alpaca.
    pub open spec fn alpaca_name(self) -> Seq<char> {
        match self {
            Timeframe::OneMin => "1Min"@,
            Timeframe::FiveMin => "5Min"@,
            Timeframe::FifteenMin => "15Min"@,
            Timeframe::OneHour => "1Hour"@,
            Timeframe::OneDay => "1Day"@,
        }
    }

    /// The multiplier and the span of the timeframe in requests to Polygon.
    pub open spec fn polygon_name(self) -> (Seq<char>, Seq<char>) {
        match self {
            Timeframe::OneMin => ("1"@, "minute"@),
            Timeframe::FiveMin => ("5"@, "minute"@),
            Timeframe::FifteenMin => ("15"@, "minute"@),
            Timeframe::OneHour => ("1"@, "hour"@),
            Timeframe::OneDay => ("1"@, "day"@),
        }
    }

    /// The name of the timeframe in requests to Alpaca.
    pub fn to_alpaca_str(&self) -> (r: &'static str)
        ensures
            r@ == self.alpaca_name(),
    {
        match self {
            Timeframe::OneMin => "1Min",
            Timeframe::FiveMin => "5Min",
            Timeframe::FifteenMin => "15Min",
            Timeframe::OneHour => "1Hour",
            Timeframe::OneDay => "1Day",
        }
    }

    /// The multiplier and the span of the timeframe in requests to Polygon.
    pub fn to_polygon_str(&self) -> (r: (&'static str, &'static str))
        ensures
            (r.0@, r.1@) == self.polygon_name(),
    {
        match self {
            Timeframe::OneMin => ("1", "minute"),
            Timeframe::FiveMin => ("5", "minute"),
            Timeframe::FifteenMin => ("15", "minute"),
            Timeframe::OneHour => ("1", "hour"),
            Timeframe::OneDay => ("1", "day"),
        }
    }
}

/// How a provider's HTTP response is to be read.
#[derive(Clone, Copy, Debug, PartialEq, Eq, Structural)]
pub enum ResponseKind {
    /// The body holds the data that was asked for.
    Success,
    /// The symbol is not known to the provider.
    NotFound,
    /// The provider is limiting the rate of requests.
    RateLimited,
    /// Any other failure; the body says what.
    Failure,
}

/// Reads an HTTP status: 200 to 299 is a success, 404 an unknown symbol, 429 a
/// rate limit, anything else a failure.
pub fn classify_status(status: u16) -> (r: ResponseKind)
    ensures
        r == if 200 <= status <= 299 {
            ResponseKind::Success
        } else if status == 404 {
            ResponseKind::NotFound
        } else if status == 429 {
            ResponseKind::RateLimited
        } else {
            ResponseKind::Failure
        },
{
    if status >= 200 && status <= 299 {
        ResponseKind::Success
    } else if status == 404 {
        ResponseKind::NotFound
    } else if status == 429 {
        ResponseKind::RateLimited
    } else {
        ResponseKind::Failure
    }
}

/// A provider for tests and development.
#[derive(Clone, Copy, Debug)]
pub struct MockProvider;

impl Default for MockProvider {
    fn default() -> (r: Self) {
        MockProvider
    }
}

impl MockProvider {
    pub fn new() -> (r: Self) {
        MockProvider
    }

    /// The name of the provider.
    pub fn name(&self) -> (r: &'static str)
        ensures
            r@ == "Mock"@,
    {
        "Mock"
    }

    /// What the provider knows of a symbol: AAPL, and no other.
    pub fn get_asset_details(&self, symbol: &String) -> (r: Result<Asset, MarketDataError>)
        ensures
            symbol@ == "AAPL"@ ==> {
                &&& r is Ok
                &&& r->Ok_0.symbol@ == "AAPL"@
                &&& r->Ok_0.name@ == "Apple Inc."@
                &&& r->Ok_0.asset_class == AssetClass::UsEquity
                &&& r->Ok_0.exchange@ == "NASDAQ"@
                &&& r->Ok_0.status@ == "active"@
                &&& r->Ok_0.tradable
            },
            symbol@ != "AAPL"@ ==> r is Err && r->Err_0@ == MarketDataErrorView::SymbolNotFound(
                symbol@,
            ),
    {
        let known = String::from_str("AAPL");
        if *symbol == known {
            Ok(
                Asset {
                    symbol: known,
                    name: String::from_str("Apple Inc."),
                    asset_class: AssetClass::UsEquity,
                    exchange: String::from_str("NASDAQ"),
                    status: String::from_str("active"),
                    tradable: true,
                },
            )
        } else {
            Err(MarketDataError::SymbolNotFound(symbol.clone()))
        }
    }
}

/// What to do next when sources are tried in the order of their priority.
#[derive(Debug)]
pub enum FailoverStep {
    /// Ask the source at this place in the list.
    Ask(usize),
    /// Every source has failed; this is the error to report.
    GiveUp(MarketDataError),
}

/// The detail of the error recorded for a source that answered a historical
/// query with no data.
pub open spec fn no_data_detail() -> Seq<char> {
    "Provider returned no data"@
}

/// The progress of one query through a list of sources that are tried in the
/// order of their priority until one succeeds.
///
/// The caller asks the source that `next_step` names and, if the source
/// fails, records the failure and asks again. A success ends the query: the
/// caller returns what the source gave.
#[derive(Debug)]
pub struct Failover {
    sources: usize,
    tried: usize,
    last_error: Option<MarketDataError>,
}

impl Failover {
    /// The number of sources.
    pub closed spec fn sources(&self) -> nat {
        self.sources as nat
    }

    /// The number of sources that have failed.
    pub closed spec fn tried(&self) -> nat {
        self.tried as nat
    }

    /// The error of the source that failed last.
    pub closed spec fn last_error(&self) -> Option<MarketDataErrorView> {
        match self.last_error {
            Some(e) => Some(e@),
            None => None,
        }
    }

    /// No more sources have failed than there are.
    #[verifier::type_invariant]
    closed spec fn no_more_tried_than_there_are(&self) -> bool {
        self.tried <= self.sources
    }

    /// The start of a query through `sources` sources.
    pub fn new(sources: usize) -> (r: Self)
        ensures
            r.sources() == sources,
            r.tried() == 0,
            r.last_error() is None,
    {
        Failover { sources, tried: 0, last_error: None }
    }

    /// The source to ask next, in the order of the list; once all have
    /// failed, the error of the last one, or `Unknown` if there was none.
    pub fn next_step(&self) -> (r: FailoverStep)
        ensures
            self.tried() < self.sources() ==> (r matches FailoverStep::Ask(i) && i == self.tried()),
            self.tried() >= self.sources() ==> (r matches FailoverStep::GiveUp(e) && e@
                == match self.last_error() {
                Some(v) => v,
                None => MarketDataErrorView::Unknown,
            }),
    {
        if self.tried < self.sources {
            FailoverStep::Ask(self.tried)
        } else {
            match &self.last_error {
                Some(e) => FailoverStep::GiveUp(clone_error(e)),
                None => FailoverStep::GiveUp(MarketDataError::Unknown),
            }
        }
    }

    /// Records that the source that was asked failed.
    pub fn record_failure(&mut self, error: MarketDataError)
        requires
            old(self).tried() < old(self).sources(),
        ensures
            final(self).sources() == old(self).sources(),
            final(self).tried() == old(self).tried() + 1,
            final(self).last_error() == Some(error@),
    {
        self.tried = self.tried + 1;
        self.last_error = Some(error);
    }

    /// Records that the source that was asked answered a historical query
    /// with no data, which counts as a failure.
    pub fn record_empty(&mut self)
        requires
            old(self).tried() < old(self).sources(),
        ensures
            final(self).sources() == old(self).sources(),
            final(self).tried() == old(self).tried() + 1,
            final(self).last_error() == Some(MarketDataErrorView::Parse(no_data_detail())),
    {
        self.record_failure(MarketDataError::Parse(String::from_str("Provider returned no data")));
    }
}

/// A copy of an error.
pub fn clone_error(error: &MarketDataError) -> (r: MarketDataError)
    ensures
        r@ == error@,
{
    match error {
        MarketDataError::Configuration(s) => MarketDataError::Configuration(s.clone()),
        MarketDataError::Network(s) => MarketDataError::Network(s.clone()),
        MarketDataError::Api(s) => MarketDataError::Api(s.clone()),
        MarketDataError::Parse(s) => MarketDataError::Parse(s.clone()),
        MarketDataError::SymbolNotFound(s) => MarketDataError::SymbolNotFound(s.clone()),
        MarketDataError::Unsupported(s) => MarketDataError::Unsupported(s.clone()),
        MarketDataError::RateLimited => MarketDataError::RateLimited,
        MarketDataError::Unknown => MarketDataError::Unknown,
    }
}


/// The detail of the error for a provider that was selected without its
/// configuration; `None` for the mock provider, which needs none.
pub open spec fn unconfigured_detail(provider: ProviderType) -> Option<Seq<char>> {
    match provider {
        ProviderType::Alpaca => Some("Alpaca provider selected but no configuration found"@),
        ProviderType::Polygon => Some("Polygon provider selected but no configuration found"@),
        ProviderType::Iex => Some("IEX Cloud provider selected but no configuration found"@),
        ProviderType::Mock => None,
    }
}

/// Whether the configuration of a provider is at hand.
pub open spec fn is_configured(
    provider: ProviderType,
    has_alpaca: bool,
    has_polygon: bool,
    has_iex: bool,
) -> bool {
    match provider {
        ProviderType::Alpaca => has_alpaca,
        ProviderType::Polygon => has_polygon,
        ProviderType::Iex => has_iex,
        ProviderType::Mock => true,
    }
}

/// Checks that the selected provider has its configuration: a provider other
/// than the mock one cannot be made without.
pub fn require_configuration(
    provider: ProviderType,
    has_alpaca: bool,
    has_polygon: bool,
    has_iex: bool,
) -> (r: Result<(), MarketDataError>)
    ensures
        r is Ok <==> is_configured(provider, has_alpaca, has_polygon, has_iex),
        r is Err ==> unconfigured_detail(provider) is Some && r->Err_0@
            == MarketDataErrorView::Configuration(unconfigured_detail(provider)->Some_0),
{
    match provider {
        ProviderType::Alpaca => if has_alpaca {
            Ok(())
        } else {
            Err(
                MarketDataError::Configuration(
                    String::from_str("Alpaca provider selected but no configuration found"),
                ),
            )
        },
        ProviderType::Polygon => if has_polygon {
            Ok(())
        } else {
            Err(
                MarketDataError::Configuration(
                    String::from_str("Polygon provider selected but no configuration found"),
                ),
            )
        },
        ProviderType::Iex => if has_iex {
            Ok(())
        } else {
            Err(
                MarketDataError::Configuration(
                    String::from_str("IEX Cloud provider selected but no configuration found"),
                ),
            )
        },
        ProviderType::Mock => Ok(()),
    }
}

/// The market that Polygon names, as an asset class.
pub open spec fn class_of_polygon_market(market: Seq<char>) -> AssetClass {
    if market == "stocks"@ {
        AssetClass::UsEquity
    } else if market == "crypto"@ {
        AssetClass::Crypto
    } else if market == "fx"@ {
        AssetClass::Fx
    } else {
        AssetClass::Unknown
    }
}

/// The market that Polygon names, as an asset class.
pub fn polygon_asset_class(market: &String) -> (r: AssetClass)
    ensures
        r == class_of_polygon_market(market@),
{
    if *market == String::from_str("stocks") {
        AssetClass::UsEquity
    } else if *market == String::from_str("crypto") {
        AssetClass::Crypto
    } else if *market == String::from_str("fx") {
        AssetClass::Fx
    } else {
        AssetClass::Unknown
    }
}

/// The address of IEX Cloud: the sandbox or the real service.
pub fn iex_base_url(use_sandbox: bool) -> (r: &'static str)
    ensures
        r@ == if use_sandbox {
            "https://sandbox.iexapis.com/stable"@
        } else {
            "https://cloud.iexapis.com/stable"@
        },
{
    if use_sandbox {
        "https://sandbox.iexapis.com/stable"
    } else {
        "https://cloud.iexapis.com/stable"
    }
}

} // verus!
