//! The drawing contract shared by all chart types, and the placement
//! rules it draws by.

pub mod drawer;
pub mod layout;
