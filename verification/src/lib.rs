//! The rules a project planning application keeps: finding, checking and
//! unpacking a newer release, the palette, the undo log, sorting an outline,
//! when the collaboration server may be talked to, dates typed by hand, and
//! the vocabulary of the interface.

pub mod text;
pub mod version;
pub mod tar;
pub mod release;
pub mod theme;
pub mod state;
pub mod selection;
pub mod undo;
pub mod offer;
pub mod collaborate;
pub mod changes;
pub mod places;
pub mod outline;
pub mod live;
pub mod dates;
pub mod stored;
pub mod taken;
pub mod describe;
