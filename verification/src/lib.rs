//! A hybrid-storage growable sequence container and the small verified
//! components that accompany it.
//!
//! The centrepiece is [`LocalStorageVec`], a growable sequence that starts
//! out in a fixed-capacity inline buffer and migrates, once and for all, to
//! a heap-backed buffer when the inline capacity is exhausted.

pub mod blog;
pub mod hof;
pub mod quiz;
pub mod ring;
pub mod shapes;
pub mod storage;
pub mod text;

pub use quiz::AddError;
pub use quiz::AddEvent;
pub use quiz::IOWrapper;
pub use quiz::PlayEvent;
pub use quiz::PlayReply;
pub use quiz::Question;
pub use ring::make_box;
pub use ring::RingBuffer;
pub use shapes::IsDrawable;
pub use storage::IndexError;
pub use storage::LocalStorageVec;
pub use storage::LocalStorageVecBorrowedIter;
pub use storage::LocalStorageVecIter;
