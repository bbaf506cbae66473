//! Verified core of a paginated product-listing crawler.
//!
//! The library holds everything that can be checked: the stock-status
//! derivation and CSV rendering of a product, the tolerant decode of the
//! JSON data island embedded in a listing page, the retry/backoff policy
//! of the fetcher, and the row-assembly model of the crawl. The
//! surrounding process (HTTP, the concurrent task pool, the CSV file)
//! drives these functions from an ordinary binary.

pub mod text;
pub mod product;
pub mod errors;
pub mod island;
pub mod jsonio;
pub mod decode;
pub mod extract;
pub mod retry;
pub mod crawl;
pub mod seller;
