//! A comment-watching service core: a fairly-scheduled, durable task queue
//! over relational rows, an HTML article-page parser, and the reconciliation
//! logic that turns scraped comments into stored rows.

pub mod article;
pub mod article_updater;
pub mod auth;
pub mod comments;
pub mod datetime;
pub mod dom;
pub mod err;
pub mod parser;
pub mod query;
pub mod queue;
pub mod req;
pub mod routes;
pub mod schema;
pub mod store;
pub mod test_queries;
pub mod text;
pub mod user;
pub mod world;
pub mod worldanvil_api;
