//! Dead-reckoning flight planning sheets, rendered as a paginated document.
//!
//! A plan lists routes, diversions and holds. For each route the library
//! draws the log of its legs and the log of the way back, for each diversion
//! a sheet of headings and ground speeds round the compass, and for each
//! hold the pattern with its headings and times. The pages are put into one
//! document, which is written out byte by byte.
//!
//! All numbers are whole numbers or fixed-point numbers (see [`fixed`]):
//! lengths on the page in millimetres, bearings in degrees, speeds in knots.
//! The one thing that is not worked out here is the wind triangle itself,
//! whose ground speed and correction angle take a square root and an arc
//! sine. The planner says which triangles a plan needs
//! ([`planner::planning_queries`]) and makes the document from their
//! solutions ([`planner::create_planning`]); a triangle that has no
//! solution shows as `---` wherever its figures would stand.

pub mod calc;
pub mod definition;
pub mod diversion;
pub mod draw_utils;
pub mod fixed;
pub mod hold;
pub mod pdf;
pub mod planner;
pub mod route;
pub mod template;
pub mod text;
