//! The verified core of a launcher that turns web sites into desktop apps:
//! how an app's folder is named and where its files lie, how addresses are
//! normalised, what the app registry holds and what each operation on the
//! apps directory decides, and how a site's icon is found and made a PNG.
//!
//! Nothing here touches the disk or the network. The caller reads and
//! fetches, hands over what it got, and carries out what is decided.

pub mod adapters;
pub mod browser;
pub mod config;
pub mod error;
pub mod http;
pub mod icons;
pub mod paths;
pub mod registry;
pub mod resolve;
pub mod text;
pub mod url;
