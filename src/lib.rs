//! Client-side state core of a discussion board: a post index, a
//! subscription registry, the agent that joins them, and the selection of
//! the posts that a thread view shows.

pub mod agent;
pub mod post_index;
pub mod registry;
pub mod select;
pub mod thread;
