//! Verified core of the 1N4 support libraries: localization, storage formats, logging and threading state.

pub mod derives;
pub mod localization;
pub mod localizing;
pub mod logging;
pub mod lookup;
pub mod storage;
pub mod strings;
pub mod threading;
