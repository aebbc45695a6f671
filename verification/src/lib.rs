//! Torii: the decisions of a captive-portal listener for NetworkManager.
//!
//! The program around this library talks to NetworkManager, to portals, to the
//! desktop and to the terminal. What it makes of what they say is decided here.
//!
//! * [`monitor`]: what a change of NetworkManager's properties asks for
//! * [`portal`]: from a portal report to the login page in a browser
//! * [`http`], [`fetch`]: the check that a portal redirects, and where to
//! * [`link`]: the primary connection, its name and its gateway
//! * [`capture`]: the portal's last answer, kept and told of
//! * [`session`], [`notice`]: how the program runs and what the desktop is told
//! * [`keys`], [`screen`], [`process`]: the terminal view
//! * [`text`], [`number`], [`connectivity`], [`terminal`]: what these rest on

pub mod capture;
pub mod connectivity;
pub mod fetch;
pub mod http;
pub mod keys;
pub mod link;
pub mod monitor;
pub mod notice;
pub mod number;
pub mod portal;
pub mod process;
pub mod screen;
pub mod session;
pub mod terminal;
pub mod text;
