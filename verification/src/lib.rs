//! The rules of the Fantomen index: how issues, prices, references,
//! creators and titles are read, ordered and written as html.
pub mod cloud;
pub mod contents;
pub mod covers;
pub mod creator;
pub mod datafile;
pub mod element;
pub mod episode;
pub mod error;
pub mod fallbacks;
pub mod issue;
pub mod issuefile;
pub mod listings;
pub mod markup;
pub mod paginator;
pub mod part;
pub mod price;
pub mod refkey;
pub mod search;
pub mod sort;
pub mod text;
pub mod title;
pub mod wiki;
pub mod xml;
pub mod yearlinks;
