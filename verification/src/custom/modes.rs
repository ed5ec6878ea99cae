//! The synchronisation modes that a custom channel can be made with.
pub use crate::modes::HeadTailSync;
pub use crate::modes::Mode;
pub use crate::modes::Multi;
pub use crate::modes::RelaxedTailSync;
pub use crate::modes::Single;
