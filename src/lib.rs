//! Session and change-notification core of an avatar service: the event
//! envelope, the per-user session registry, the subscription fan-out registry,
//! the avatar blob store, the identity directory, the badge bit-fields and the
//! announced limits.

pub mod badges;
pub mod codec;
pub mod directory;
pub mod limits;
pub mod profile;
pub mod sessions;
pub mod state;
pub mod store;
pub mod subscriptions;
