//! Trade accounting for a personal investment portfolio: purchase cost tracking,
//! FIFO matching of sells against buys, tax calculation of sells, broker statement
//! trade records and the primitive encodings of the tax statement file.

pub mod decimal;
pub mod error;
pub mod cash;
pub mod time;
pub mod trades;
pub mod text;
pub mod encoding;
pub mod countries;
pub mod ib_trades;
pub mod ordered_map;
pub mod portfolio_statistics;
pub mod analysis;
