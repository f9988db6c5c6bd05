//! Background fetch-and-cache core of a feed reader: which items need their
//! content fetched, how results are merged back in, and how memory is bounded.

use vstd::prelude::*;

pub mod window;
pub mod recency;
pub mod content;
pub mod cache;
pub mod components;
pub mod filter;
pub mod store;
pub mod config;
pub mod input;
pub mod fetch;
pub mod decode;
pub mod image_manager;
pub mod state;
pub mod reader;

verus! {

/// What a key press can ask for.
#[derive(Debug, Clone, Copy, PartialEq, Eq, Structural)]
pub enum Action {
    /// Highlight the item above the highlighted one.
    PostUp,
    /// Highlight the item below the highlighted one.
    PostDown,
    /// View the highlighted item.
    OpenPost,
    /// Go to the front page.
    Frontpage,
    /// Open the window that asks for a subreddit.
    OpenSubredditWindow,
    /// Start logging in.
    Login,
    /// Step the feed pane to its next mode.
    TogglePostFeedMode,
    /// Step the main pane to its next mode.
    ToggleMainContentMode,
}

/// What can go wrong while content is fetched and merged.
#[derive(Debug, Clone)]
pub enum Error {
    /// The provider refused the credentials.
    AuthenticationError(String),
    /// A request to the provider failed.
    RequestError(String),
    /// The provider failed in some other way.
    Other(String),
    /// The bytes fetched for an item are no image that can be decoded.
    DecodeError(content::PostId),
    /// An outcome arrived for an item that has no pending cache entry.
    ProtocolViolation(content::PostId),
}

} // verus!
