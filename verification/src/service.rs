//! The stateful services.  Each service owns its state exclusively and is
//! driven one request at a time by a mailbox loop, so no lock is needed;
//! the processing functions themselves are ordinary sequential code and
//! live here, while the channel plumbing that feeds them stays outside the
//! library.

pub mod authentication_service;
pub mod db_service;
pub mod farm_service;
