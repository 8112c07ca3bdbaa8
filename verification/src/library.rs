//! The music library: online enrichment, indexing and queries.

pub mod audiodb;
pub mod audiodb_laws;
pub mod browse_laws;
pub mod catalog;
pub mod catalog_laws;
pub mod enrichment;
pub mod entity_map;
pub mod favorite_laws;
pub mod favorites;
pub mod identity;
pub mod images;
pub mod manager;
pub mod manager_laws;
pub mod matching;
pub mod matching_laws;
pub mod order;
pub mod order_laws;
pub mod outcome;
pub mod outcome_laws;
pub mod pages;
pub mod path_laws;
pub mod paths;
pub mod queue_laws;
pub mod replies;
pub mod reply_laws;
pub mod requests;
pub mod scan;
pub mod scan_laws;
pub mod scoring;
pub mod scoring_laws;
pub mod selection;
pub mod title_laws;
pub mod titles;
pub mod wikipedia;
pub mod wikipedia_laws;
