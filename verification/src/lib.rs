//! The verified core of a server control panel. Each module holds the
//! decisions of one area, stated in contracts over plain values and proved:
//!
//! - authentication: token issuing, bearer headers, TOTP, the login
//!   throttle and the login flow (`auth`), reading tokens back (`token`);
//! - the module switches and the system service (`runtime`, `system`,
//!   `cli`, `frugal`);
//! - host capabilities, resource budgets, port reservations and the host's
//!   IPv6 addresses (`capability`, with address text in `ipv6`),
//!   monitoring history and reports (`monitor`);
//! - firewall, WAF and SSH rendering and state (`security`,
//!   `security_state`), the rollback guard (`rollback`);
//! - the app store and its install paths (`appstore`, `appstore_plan`),
//!   Docker (`docker`), databases (`database`), proxies (`proxy`);
//! - files, backups, cron, DNS, ACME, clusters, notifications, audit and
//!   access logs, the HTTP helpers (`web`), ranked counters
//!   (`count_table`), newest-first listings (`listing`), and the text
//!   functions they share (`text`);
//! - the base32 encoding (`base32`) and the calls into the hashing,
//!   encoding and token crates (`crypto`).

pub mod access_log;
pub mod acme;
pub mod appstore;
pub mod appstore_plan;
pub mod audit;
pub mod backup;
pub mod cluster;
pub mod auth;
pub mod capability;
pub mod cli;
pub mod count_table;
pub mod cron;
pub mod crypto;
pub mod database;
pub mod dns;
pub mod docker;
pub mod files;
pub mod frugal;
pub mod listing;
pub mod monitor;
pub mod notification;
pub mod proxy;
pub mod rollback;
pub mod runtime;
pub mod security;
pub mod security_state;
pub mod status;
pub mod system;
pub mod text;
pub mod base32;
pub mod ipv6;
pub mod token;
pub mod web;
