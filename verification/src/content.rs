//! Items of the feed and what they resolve to once their content has been
//! fetched.

use vstd::prelude::*;

verus! {

/// The stable position of an item in the item store.
pub type PostId = usize;

/// A snapshot of one entry of the feed.
#[derive(Debug, Clone)]
pub struct FeedItem {
    pub title: String,
    pub author: String,
    pub subreddit: String,
    /// Where the content of the item is found.
    pub url: String,
    /// The body of an item that carries its own text.
    pub selftext: Option<String>,
    pub score: i64,
    pub num_comments: u64,
}

/// What the provider hands back for an item.
#[derive(Debug)]
pub enum Payload {
    /// Plain text.
    Text(String),
    /// The bytes of an encoded image.
    Image(Vec<u8>),
    /// Markup.
    Html(String),
}

/// One pixel of a decoded image: red, green and blue already multiplied by alpha.
#[derive(Clone, Copy, Debug, PartialEq, Eq, Structural)]
pub struct Pixel {
    pub r: u8,
    pub g: u8,
    pub b: u8,
    pub a: u8,
}

/// The renderable content of an item.
#[derive(Debug)]
pub enum Content {
    /// Plain text.
    Text(String),
    /// Markup that cannot be rendered; shown as a placeholder.
    Unsupported,
    /// A decoded image, row by row.
    Image { pixels: Vec<Pixel>, width: usize, height: usize },
}

/// What is shown in place of markup.
pub const UNSUPPORTED_TEXT: &'static str = "Sorry, this is a webpage. I can't render that yet.";

impl Content {
    /// The text to show for the content, where it is shown as text: the text
    /// itself, or the placeholder for markup.
    pub fn as_text(&self) -> (text: Option<&str>)
        ensures
            match *self {
                Content::Text(held) => text is Some && text->0@ == held@,
                Content::Unsupported => text is Some && text->0@ == UNSUPPORTED_TEXT@,
                Content::Image { .. } => text is None,
            },
    {
        match self {
            Content::Text(held) => Some(held.as_str()),
            Content::Unsupported => Some(UNSUPPORTED_TEXT),
            Content::Image { .. } => None,
        }
    }
}

} // verus!
