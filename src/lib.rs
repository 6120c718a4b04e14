//! A checklist for each day, kept as a file of checkbox lines: the items and their line
//! format, the reading and writing of a day's file, a list with a cursor, and the session
//! that turns keys into edits and into the writes and loads of day files.

pub mod args;
pub mod config;
pub mod day;
pub mod item;
pub mod list;
pub mod session;
pub mod store;

pub use args::{Args, SubCommand};
pub use config::{default_date_format, default_habits, Config};
pub use day::date;
pub use item::{Item, ParseError};
pub use list::SelectableList;
pub use session::{Action, InputMode, Key, Session};
pub use store::{count_completed, day_file_name, load_items, parse_items, render_items};
