//! Small value types used across the figure.

pub mod axistype;
pub mod decimal;
pub mod drawerror;
pub mod font;
pub mod linetype;
pub mod textmask;
