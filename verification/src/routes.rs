//! Request payloads of the web routes; the handlers themselves live with
//! the web server, outside the library.

pub mod login;
