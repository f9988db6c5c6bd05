//! The item store: the fetched items of the feed, each at a position that
//! stays its own until the feed is replaced.

use vstd::prelude::*;
use crate::content::{FeedItem, PostId};

verus! {

/// An item of the feed together with its position in the store.
#[derive(Debug, Clone)]
pub struct ViewablePost {
    pub post_id: PostId,
    pub inner: FeedItem,
}

impl ViewablePost {
    /// The item `inner` at the position `post_id`.
    pub fn new(post_id: PostId, inner: FeedItem) -> (post: ViewablePost)
        ensures
            post.post_id == post_id,
            post.inner == inner,
    {
        ViewablePost { post_id, inner }
    }
}

impl From<(PostId, FeedItem)> for ViewablePost {
    /// The item of the pair at the position of the pair.
    fn from(post: (PostId, FeedItem)) -> (viewable: ViewablePost) {
        ViewablePost { post_id: post.0, inner: post.1 }
    }
}

impl vstd::std_specs::convert::FromSpecImpl<(PostId, FeedItem)> for ViewablePost {
    open spec fn obeys_from_spec() -> bool {
        true
    }

    open spec fn from_spec(post: (PostId, FeedItem)) -> ViewablePost {
        ViewablePost { post_id: post.0, inner: post.1 }
    }
}

/// The fetched items in the order in which they arrived.
pub struct ItemStore {
    posts: Vec<ViewablePost>,
}

impl View for ItemStore {
    type V = Seq<ViewablePost>;

    closed spec fn view(&self) -> Seq<ViewablePost> {
        self.posts@
    }
}

/// The items of `items` as they stand in a store after `count` earlier ones.
pub open spec fn numbered(items: Seq<FeedItem>, count: nat) -> Seq<ViewablePost> {
    Seq::new(
        items.len(),
        |i: int| (ViewablePost { post_id: (count + i) as usize, inner: items[i] }),
    )
}

impl ItemStore {
    /// Every item carries its own position as its index.
    pub open spec fn wf(&self) -> bool {
        forall|i: int| 0 <= i < self@.len() ==> (#[trigger] self@[i]).post_id == i
    }

    /// An empty store.
    pub fn new() -> (store: ItemStore)
        ensures
            store@ == Seq::<ViewablePost>::empty(),
            store.wf(),
    {
        ItemStore { posts: Vec::new() }
    }

    /// The number of items in the store.
    pub fn len(&self) -> (len: usize)
        ensures
            len == self@.len(),
    {
        self.posts.len()
    }

    /// The item at `index`, if the store reaches that far.
    pub fn get(&self, index: PostId) -> (post: Option<&ViewablePost>)
        ensures
            post == if index < self@.len() {
                Some(&self@[index as int])
            } else {
                None
            },
    {
        if index < self.posts.len() {
            Some(&self.posts[index])
        } else {
            None
        }
    }

    /// Appends `items`, each at the next free position.
    pub fn extend(&mut self, items: Vec<FeedItem>)
        requires
            old(self).wf(),
        ensures
            final(self).wf(),
            final(self)@ == old(self)@ + numbered(items@, old(self)@.len()),
    {
        let ghost all = items@;
        let ghost before = self@;
        for item in it: items
            invariant
                it.seq() == all,
                self.wf(),
                self@ == before + numbered(all.take(it.index() as int), before.len()),
        {
            let idx: usize = self.posts.len();
            self.posts.push(ViewablePost::from((idx, item)));
            proof {
                assert(self@ =~= before + numbered(all.take(it.index() + 1), before.len()));
            }
        }
        proof {
            assert(all.take(all.len() as int) =~= all);
        }
    }

    /// Empties the store.
    pub fn clear(&mut self)
        ensures
            final(self).wf(),
            final(self)@ == Seq::<ViewablePost>::empty(),
    {
        self.posts.clear();
    }
}

} // verus!
