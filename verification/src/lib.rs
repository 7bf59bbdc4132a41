//! Primitives for representing commodities: amounts of money or other
//! fungible units tagged with a short commodity-type identifier.
//!
//! A [`Commodity`] pairs an exact decimal value with a [`CommodityTypeID`];
//! arithmetic and comparisons between commodities of different types are
//! rejected at run time. [`exchange_rate::ExchangeRate`] converts
//! commodities between types through a table of decimal rates.

pub mod commodity;
pub mod decimal;
pub mod exchange_rate;

pub use commodity::all_iso4217_currencies;
pub use commodity::Commodity;
pub use commodity::CommodityError;
pub use commodity::CommodityType;
pub use commodity::CommodityTypeID;
pub use commodity::COMMODITY_TYPE_ID_LENGTH;
pub use decimal::Decimal;
