pub mod events;
pub mod scroll_follow;
