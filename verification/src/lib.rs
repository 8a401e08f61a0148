pub mod atomic;
pub mod convert;
pub mod save;
pub mod util;
