//! The state of the reader: the item store, the content cache, and what the
//! panes remember.

use vstd::prelude::*;
use crate::cache::ContentCache;
use crate::components::{
    ComponentMode, MainContentComponent, PostFeedComponent, PostSummaryComponent,
};
use crate::config::Options;
use crate::content::{Content, FeedItem, Payload, PostId};
use crate::fetch::{more_work, one_done, Dispatch, Fetcher, Message, Task};
use crate::filter::{all_admit, Filter, Filters};
use crate::recency::{
    filled, holds, lemma_inserted, lemma_refill_asks_nothing_twice, lemma_refill_with_room,
    lemma_renewed, lemma_touched, missing, renewed, touched,
};
use crate::store::{numbered, ItemStore, ViewablePost};
use crate::window::{current_buffer, lemma_window_bounds, window_bounds};
use crate::Error;

verus! {

/// The number of entries the content cache is made for.
pub const CACHE_CAPACITY: usize = 250;

/// The state of the reader. `F` is what the provider needs to go on with the
/// feed.
pub struct State<F> {
    /// The pane that lists the items.
    pub feed_component: PostFeedComponent,
    /// The pane that shows the content of the viewed item.
    pub main_component: MainContentComponent,
    /// The pane that sums up the viewed item.
    pub summary_component: PostSummaryComponent,
    /// The feed, while no pull of its next page is under way.
    pub feed: Option<F>,
    /// The items fetched so far.
    pub posts: ItemStore,
    /// The filters that decide which items are visible.
    pub active_filters: Filters,
    /// The content fetched so far, or being fetched.
    pub content_cache: ContentCache,
    /// The number of panes that ask for key presses not to be read.
    pub num_request_disable_binds: u32,
    /// Whether the feed was replaced and its first page is still to be pulled.
    pub mark_for_refresh: bool,
    /// The options the reader runs with.
    pub options: Options,
}

/// The items that every filter lets through, in their order.
pub open spec fn visible(posts: Seq<ViewablePost>, filters: Map<u32, Filter>) -> Seq<ViewablePost> {
    posts.filter(|post: ViewablePost| all_admit(filters, post.inner))
}

/// The indices of the visible items that lie in the window around the visible
/// position `focus`.
pub open spec fn window_ids(
    shown: Seq<ViewablePost>,
    focus: nat,
    buffer_size: nat,
    ratio: nat,
) -> Seq<PostId> {
    let bounds = window_bounds(shown.len(), focus, buffer_size, ratio);
    shown.subrange(bounds.0 as int, bounds.1 as int).map_values(|post: ViewablePost| post.post_id)
}

/// The fetches of content for the items `ids`, in their order.
pub open spec fn content_tasks<F>(ids: Seq<PostId>) -> Seq<Task<F>> {
    ids.map_values(|id: PostId| Task::<F>::ResolveContent(id))
}

/// The tasks of `dispatches`, in their order.
pub open spec fn tasks_of<F, A>(dispatches: Seq<Dispatch<F, A>>) -> Seq<Task<F>> {
    dispatches.map_values(|dispatch: Dispatch<F, A>| dispatch.task)
}

/// What came of an outcome.
#[verifier::reject_recursive_types(F)]
#[verifier::reject_recursive_types(A)]
pub enum Applied<F, A> {
    /// So many items were appended to the store.
    Extended(usize),
    /// The cache entry of the item was resolved.
    Resolved(PostId),
    /// The image of an item is to be decoded, by a worker.
    Decode(Dispatch<F, A>),
    /// The user has logged in.
    LoggedIn(A),
    /// The outcome was dropped, for the reason given.
    Dropped(Error),
    /// The outcome was dropped: it belongs to a feed that has been replaced.
    Superseded,
}

/// Whether the state `after`, with `left` pieces of work under way, and the
/// result `applied` are what comes of merging `message` into the state `before`
/// while `under_way` pieces of work were under way.
///
/// A page of items is appended to the store and the feed taken back. Content
/// resolves the pending cache entry of its item: text as it is, markup as a
/// placeholder; the bytes of an image are handed out for decoding, which is one
/// more piece of work, and the entry stays pending. Pixels resolve the pending
/// entry to the image. An outcome for an item without a pending entry is
/// dropped, and so is a failure; a login is handed on. While a feed that has
/// replaced another still waits for its first pull, a page, content or pixels
/// can only belong to the feed that was replaced, and are dropped.
pub open spec fn merged<F, A>(
    before: State<F>,
    under_way: nat,
    message: Message<F, A>,
    after: State<F>,
    left: nat,
    applied: Applied<F, A>,
) -> bool {
    if superseded(before, message) {
        &&& applied is Superseded
        &&& after == before
        &&& left == under_way
    } else {
        &&& same_but_cache(after, before) || message is PostsReady
        &&& merged_fresh(before, under_way, message, after, left, applied)
    }
}

/// Whether `message` is an outcome of work on a feed that has been replaced:
/// a page, content or pixels that arrive while the feed that replaced theirs
/// still waits for its first pull.
pub open spec fn superseded<F, A>(state: State<F>, message: Message<F, A>) -> bool {
    state.mark_for_refresh && (message is PostsReady || message is ContentReady
        || message is ImageDecoded)
}

/// [`merged`], for an outcome of work on the feed at hand.
pub open spec fn merged_fresh<F, A>(
    before: State<F>,
    under_way: nat,
    message: Message<F, A>,
    after: State<F>,
    left: nat,
    applied: Applied<F, A>,
) -> bool {
    match message {
        Message::PostsReady(items, feed) => {
            &&& applied == Applied::<F, A>::Extended(items.len())
            &&& after.posts@ == before.posts@ + numbered(items@, before.posts@.len())
            &&& same_but_posts(after, State { feed: Some(feed), ..before })
            &&& left == under_way
        },
        Message::ContentReady(payload, index) => {
            if !before.content_cache.is_pending(index) {
                &&& applied == Applied::<F, A>::Dropped(Error::ProtocolViolation(index))
                &&& after.content_cache@ == before.content_cache@
                &&& left == under_way
            } else {
                match payload {
                    Payload::Text(text) => {
                        &&& applied == Applied::<F, A>::Resolved(index)
                        &&& after.content_cache@ == renewed(
                            before.content_cache@,
                            index,
                            Some(Content::Text(text)),
                        )
                        &&& after.content_cache.resolved(index) == Some(Content::Text(text))
                        &&& left == under_way
                    },
                    Payload::Html(_) => {
                        &&& applied == Applied::<F, A>::Resolved(index)
                        &&& after.content_cache@ == renewed(
                            before.content_cache@,
                            index,
                            Some(Content::Unsupported),
                        )
                        &&& after.content_cache.resolved(index) == Some(Content::Unsupported)
                        &&& left == under_way
                    },
                    Payload::Image(bytes) => {
                        &&& applied matches Applied::Decode(dispatch)
                        &&& applied->Decode_0.task == Task::<F>::DecodeImage(bytes, index)
                        &&& after.content_cache@ == before.content_cache@
                        &&& left == more_work(under_way, 1)
                    },
                }
            }
        },
        Message::ImageDecoded(pixels, size, index) => {
            &&& left == under_way
            &&& if before.content_cache.is_pending(index) {
                &&& applied == Applied::<F, A>::Resolved(index)
                &&& after.content_cache@ == renewed(
                    before.content_cache@,
                    index,
                    Some(Content::Image { pixels, width: size.0, height: size.1 }),
                )
                &&& after.content_cache.resolved(index) == Some(
                    Content::Image { pixels, width: size.0, height: size.1 },
                )
            } else {
                &&& applied == Applied::<F, A>::Dropped(Error::ProtocolViolation(index))
                &&& after.content_cache@ == before.content_cache@
            }
        },
        Message::UserLoggedIn(auth) => {
            &&& applied == Applied::<F, A>::LoggedIn(auth)
            &&& after.content_cache@ == before.content_cache@
            &&& left == under_way
        },
        Message::Failed(error) => {
            &&& applied == Applied::<F, A>::Dropped(error)
            &&& after.content_cache@ == before.content_cache@
            &&& left == under_way
        },
    }
}

/// Whether two states differ in nothing but what the content cache holds.
pub open spec fn same_but_cache<F>(a: State<F>, b: State<F>) -> bool {
    &&& a == (State { content_cache: a.content_cache, ..b })
    &&& a.content_cache.spec_capacity() == b.content_cache.spec_capacity()
}

/// Whether two states differ in nothing but the items of the store.
pub open spec fn same_but_posts<F>(a: State<F>, b: State<F>) -> bool {
    a == (State { posts: a.posts, ..b })
}

/// Whether two states differ in nothing but the filters in force.
pub open spec fn same_but_filters<F>(a: State<F>, b: State<F>) -> bool {
    a == (State { active_filters: a.active_filters, ..b })
}

impl<F> State<F> {
    /// Every index in the content cache is the index of an item in the store.
    pub open spec fn cache_within_store(&self) -> bool {
        forall|index: PostId| holds(self.content_cache@, index) ==> index < self.posts@.len()
    }

    /// The store and the cache are each in order, and the cache holds no index
    /// that the store lacks.
    pub open spec fn wf(&self) -> bool {
        &&& self.posts.wf()
        &&& self.content_cache.wf()
        &&& self.cache_within_store()
    }

    /// The visible items.
    pub open spec fn shown(&self) -> Seq<ViewablePost> {
        visible(self.posts@, self.active_filters@)
    }

    /// The indices of the items whose content should be cached.
    pub open spec fn targets(&self) -> Seq<PostId> {
        window_ids(
            self.shown(),
            self.feed_component.viewed as nat,
            self.options.buffer_amount as nat,
            self.options.buffer_ratio@,
        )
    }

    /// The state at the start of a session on `feed`: no items, an empty cache,
    /// no filters, every pane snapped and at the first item, and the first page
    /// still to be pulled.
    pub fn new(feed: F, options: Options) -> (state: State<F>)
        ensures
            state.wf(),
            state == (State {
                feed_component: PostFeedComponent {
                    highlighted: 0,
                    viewed: 0,
                    mode: ComponentMode::Snapped,
                    just_dragged: false,
                },
                main_component: MainContentComponent { mode: ComponentMode::Snapped },
                summary_component: PostSummaryComponent { mode: ComponentMode::Snapped },
                feed: Some(feed),
                num_request_disable_binds: 0,
                mark_for_refresh: true,
                options,
                posts: state.posts,
                active_filters: state.active_filters,
                content_cache: state.content_cache,
            }),
            state.posts@ == Seq::<ViewablePost>::empty(),
            state.active_filters@ == Map::<u32, Filter>::empty(),
            state.content_cache@ == Seq::<(PostId, Option<Content>)>::empty(),
            state.content_cache.spec_capacity() == CACHE_CAPACITY,
    {
        State {
            feed_component: PostFeedComponent::new(),
            main_component: MainContentComponent::new(),
            summary_component: PostSummaryComponent::new(),
            feed: Some(feed),
            posts: ItemStore::new(),
            active_filters: Filters::new(),
            num_request_disable_binds: 0,
            mark_for_refresh: true,
            content_cache: ContentCache::new(CACHE_CAPACITY),
            options,
        }
    }

    /// Replaces the feed: the store and the cache are emptied together, the
    /// panes go back to the first item, and the first page is to be pulled.
    pub fn reset_feed(&mut self, new_feed: F)
        ensures
            final(self).wf(),
            *final(self) == (State {
                feed: Some(new_feed),
                feed_component: PostFeedComponent {
                    viewed: 0,
                    highlighted: 0,
                    ..old(self).feed_component
                },
                mark_for_refresh: true,
                posts: final(self).posts,
                content_cache: final(self).content_cache,
                ..*old(self)
            }),
            final(self).posts@ == Seq::<ViewablePost>::empty(),
            final(self).content_cache@ == Seq::<(PostId, Option<Content>)>::empty(),
            final(self).content_cache.spec_capacity() == old(self).content_cache.spec_capacity(),
    {
        self.feed = Some(new_feed);
        self.posts.clear();
        self.content_cache.clear();
        self.feed_component.reset();
        self.mark_for_refresh = true;
    }

    /// The visible items of `posts` under `filters`, in their order.
    pub fn filter_posts<'a>(posts: &'a ItemStore, filters: &Filters) -> (shown: Vec<
        &'a ViewablePost,
    >)
        ensures
            shown@.map_values(|post: &ViewablePost| *post) == visible(posts@, filters@),
    {
        let ghost admitted = |post: ViewablePost| all_admit(filters@, post.inner);
        let mut shown: Vec<&'a ViewablePost> = Vec::new();
        let count: usize = posts.len();
        let mut i: usize = 0;
        proof {
            reveal(Seq::filter);
            assert(posts@.take(0) =~= Seq::<ViewablePost>::empty());
            assert(shown@.map_values(|post: &ViewablePost| *post) =~= posts@.take(0).filter(
                admitted,
            ));
        }
        while i < count
            invariant
                i <= count,
                count == posts@.len(),
                admitted == |post: ViewablePost| all_admit(filters@, post.inner),
                shown@.map_values(|post: &ViewablePost| *post) == posts@.take(i as int).filter(
                    admitted,
                ),
            decreases count - i,
        {
            match posts.get(i) {
                Some(post) => {
                    if filters.accepts(&post.inner) {
                        shown.push(post);
                    }
                },
                None => {},
            }
            proof {
                let head = posts@.take(i as int);
                assert(posts@.take(i + 1) =~= head.push(posts@[i as int]));
                head.lemma_filter_push(posts@[i as int], admitted);
                assert(shown@.map_values(|post: &ViewablePost| *post) =~= posts@.take(
                    i + 1,
                ).filter(admitted));
            }
            i += 1;
        }
        proof {
            assert(posts@.take(count as int) =~= posts@);
        }
        shown
    }

    /// The visible items, in their order.
    pub fn get_working_posts(&self) -> (shown: Vec<&ViewablePost>)
        ensures
            shown@.map_values(|post: &ViewablePost| *post) == self.shown(),
    {
        Self::filter_posts(&self.posts, &self.active_filters)
    }

    /// The number of items in the store, visible or not.
    pub fn unfiltered_len(&self) -> (len: usize)
        ensures
            len == self.posts@.len(),
    {
        self.posts.len()
    }

    /// Takes the feed back once a pull has come home.
    pub fn set_feed(&mut self, feed: F)
        ensures
            *final(self) == (State { feed: Some(feed), ..*old(self) }),
    {
        self.feed = Some(feed);
    }

    /// Appends `posts` to the store, each at the next free index.
    pub fn extend_posts(&mut self, posts: Vec<FeedItem>)
        requires
            old(self).wf(),
        ensures
            final(self).wf(),
            same_but_posts(*final(self), *old(self)),
            final(self).posts@ == old(self).posts@ + numbered(posts@, old(self).posts@.len()),
    {
        self.posts.extend(posts);
    }

    /// Resolves the pending cache entry of item `post_id` to `content`. Where
    /// the item has no pending entry, because it was pushed out of the cache
    /// or never asked for or is resolved already, the content is dropped and
    /// nothing changes.
    pub fn set_content(&mut self, post_id: PostId, content: Content) -> (done: Result<(), Error>)
        requires
            old(self).wf(),
        ensures
            final(self).wf(),
            same_but_cache(*final(self), *old(self)),
            done is Ok <==> old(self).content_cache.is_pending(post_id),
            done is Ok ==> final(self).content_cache.resolved(post_id) == Some(content),
            done is Ok ==> final(self).content_cache@ == renewed(
                old(self).content_cache@,
                post_id,
                Some(content),
            ),
            done is Err ==> done == Err::<(), Error>(Error::ProtocolViolation(post_id))
                && final(self).content_cache@ == old(self).content_cache@,
    {
        let done = self.content_cache.resolve(post_id, content);
        proof {
            if done is Ok {
                lemma_renewed(old(self).content_cache@, post_id, Some(content));
                assert forall|index: PostId| holds(self.content_cache@, index) implies index
                    < self.posts@.len() by {
                    assert(holds(old(self).content_cache@, index));
                }
            }
        }
        done
    }

    /// Sees to it that the content of every item in the window around the
    /// viewed one is cached or asked for: each item of the window, in order,
    /// that has no cache entry gets a pending one, and the fetch of its content
    /// is handed out. The cache keeps its capacity and never holds more: where
    /// it is full, each new entry pushes out the least recently used one,
    /// pending or resolved.
    pub fn buffer_posts<A>(&mut self, fetcher: &mut Fetcher<F, A>) -> (dispatches: Vec<
        Dispatch<F, A>,
    >)
        requires
            old(self).wf(),
        ensures
            final(self).wf(),
            same_but_cache(*final(self), *old(self)),
            final(self).content_cache@.len() <= final(self).content_cache.spec_capacity(),
            final(self).content_cache@ == filled(
                old(self).content_cache@,
                old(self).content_cache.spec_capacity(),
                old(self).targets(),
                None,
            ),
            tasks_of(dispatches@) == content_tasks::<F>(
                missing(
                    old(self).content_cache@,
                    old(self).content_cache.spec_capacity(),
                    old(self).targets(),
                    None::<Content>,
                ),
            ),
            final(fetcher).in_flight() == more_work(old(fetcher).in_flight(), dispatches@.len()),
            final(fetcher).spec_generation() == old(fetcher).spec_generation(),
            forall|i: int|
                0 <= i < dispatches@.len() ==> (#[trigger] dispatches@[i]).generation
                    == old(fetcher).spec_generation(),
    {
        let current = Self::filter_posts(&self.posts, &self.active_filters);
        let window = current_buffer(
            &current,
            self.feed_component.viewed,
            self.options.buffer_amount,
            self.options.buffer_ratio,
        );
        let ghost ids = window@.map_values(|post: &ViewablePost| post.post_id);
        let ghost limit = self.content_cache.spec_capacity();
        let ghost start = self.content_cache@;
        proof {
            let shown = current@.map_values(|post: &ViewablePost| *post);
            self.options.buffer_ratio.lemma_in_range();
            lemma_window_bounds(
                shown.len(),
                self.feed_component.viewed as nat,
                self.options.buffer_amount as nat,
                self.options.buffer_ratio@,
            );
            assert(ids =~= self.targets());
            assert forall|i: int| 0 <= i < ids.len() implies #[trigger] ids[i]
                < self.posts@.len() by {
                let bounds = window_bounds(
                    shown.len(),
                    self.feed_component.viewed as nat,
                    self.options.buffer_amount as nat,
                    self.options.buffer_ratio@,
                );
                let post = shown[bounds.0 + i];
                assert(shown.contains(post));
                self.posts@.lemma_filter_contains_rev(
                    |post: ViewablePost| all_admit(self.active_filters@, post.inner),
                    post,
                );
                let at = choose|at: int| 0 <= at < self.posts@.len() && self.posts@[at] == post;
                assert(self.posts@[at].post_id == at);
            }
            assert(ids.take(0) =~= Seq::<PostId>::empty());
        }
        let mut dispatches: Vec<Dispatch<F, A>> = Vec::new();
        let mut i: usize = 0;
        proof {
            fetcher.lemma_in_flight_bounded();
            assert(tasks_of(dispatches@) =~= content_tasks::<F>(
                missing(start, limit, ids.take(0), None::<Content>),
            ));
        }
        while i < window.len()
            invariant
                i <= window.len(),
                ids == window@.map_values(|post: &ViewablePost| post.post_id),
                forall|k: int| 0 <= k < ids.len() ==> #[trigger] ids[k] < self.posts@.len(),
                same_but_cache(*self, *old(self)),
                limit == self.content_cache.spec_capacity(),
                self.content_cache.wf(),
                self.cache_within_store(),
                self.content_cache@ == filled(start, limit, ids.take(i as int), None),
                tasks_of(dispatches@) == content_tasks::<F>(
                    missing(start, limit, ids.take(i as int), None::<Content>),
                ),
                dispatches@.len() <= i,
                fetcher.in_flight() == more_work(old(fetcher).in_flight(), dispatches@.len()),
                fetcher.spec_generation() == old(fetcher).spec_generation(),
                forall|k: int|
                    0 <= k < dispatches@.len() ==> (#[trigger] dispatches@[k]).generation
                        == fetcher.spec_generation(),
            decreases window.len() - i,
        {
            let id: PostId = window[i].post_id;
            let ghost before = self.content_cache@;
            let ghost asked = dispatches@;
            proof {
                assert(ids[i as int] == id);
                assert(ids.take(i + 1).drop_last() =~= ids.take(i as int));
                assert(ids.take(i + 1).last() == id);
                lemma_inserted(before, limit, id, None::<Content>);
            }
            if self.content_cache.mark_pending(id) {
                let dispatch = fetcher.get_content(id);
                dispatches.push(dispatch);
            }
            proof {
                let earlier = missing(start, limit, ids.take(i as int), None::<Content>);
                let now = missing(start, limit, ids.take(i + 1), None::<Content>);
                if holds(before, id) {
                    assert(now == earlier);
                } else {
                    assert(now == earlier.push(id));
                    assert(dispatches@ == asked.push(dispatches@.last()));
                    assert(tasks_of(dispatches@) =~= tasks_of(asked).push(
                        Task::<F>::ResolveContent(id),
                    ));
                    assert(content_tasks::<F>(now) =~= content_tasks::<F>(earlier).push(
                        Task::<F>::ResolveContent(id),
                    ));
                }
                assert forall|index: PostId| holds(self.content_cache@, index) implies index
                    < self.posts@.len() by {
                    if index != id {
                        assert(holds(before, index));
                    }
                }
            }
            i += 1;
        }
        proof {
            assert(ids.take(ids.len() as int) =~= ids);
        }
        dispatches
    }

    /// The item that the summary pane sums up: the one at the viewed position
    /// of the store.
    pub fn summary_post(&self) -> (post: Option<&ViewablePost>)
        ensures
            post == if self.feed_component.viewed < self.posts@.len() {
                Some(&self.posts@[self.feed_component.viewed as int])
            } else {
                None
            },
    {
        self.posts.get(self.feed_component.viewed)
    }

    /// The content to show in the main pane: what the viewed one of the visible
    /// items has resolved to, if it has. Looking it up counts as a use of its
    /// cache entry.
    pub fn main_content(&mut self) -> (content: Option<&Content>)
        requires
            old(self).wf(),
        ensures
            final(self).wf(),
            same_but_cache(*final(self), *old(self)),
            old(self).feed_component.viewed < old(self).shown().len() ==> {
                let index = old(self).shown()[old(self).feed_component.viewed as int].post_id;
                &&& final(self).content_cache@ == touched(old(self).content_cache@, index)
                &&& content == match old(self).content_cache.resolved(index) {
                    Some(held) => Some(&held),
                    None => None,
                }
            },
            old(self).feed_component.viewed >= old(self).shown().len() ==> content is None
                && final(self).content_cache@ == old(self).content_cache@,
    {
        let current = Self::filter_posts(&self.posts, &self.active_filters);
        let viewed: usize = self.feed_component.viewed;
        if viewed < current.len() {
            let index: PostId = current[viewed].post_id;
            proof {
                let shown = current@.map_values(|post: &ViewablePost| *post);
                assert(shown[viewed as int] == *current@[viewed as int]);
                lemma_touched(self.content_cache@, index);
                assert forall|other: PostId|
                    holds(touched(self.content_cache@, index), other) implies other
                    < self.posts@.len() by {
                    assert(holds(self.content_cache@, other));
                }
            }
            self.content_cache.get(index)
        } else {
            None
        }
    }

    /// Merges one outcome into the state.
    ///
    /// A page of items is appended to the store and the feed taken back. Content
    /// resolves the pending cache entry of its item: text as it is, markup as a
    /// placeholder; the bytes of an image are handed out for decoding, and the
    /// entry stays pending until the pixels arrive. An outcome for an item
    /// without a pending entry is dropped, and so is a failure. So is a page,
    /// content or pixels of a feed that has been replaced.
    pub fn apply<A>(&mut self, fetcher: &mut Fetcher<F, A>, message: Message<F, A>) -> (applied:
        Applied<F, A>)
        requires
            old(self).wf(),
        ensures
            final(self).wf(),
            final(fetcher).spec_generation() == old(fetcher).spec_generation(),
            applied matches Applied::Decode(dispatch) ==> dispatch.generation
                == old(fetcher).spec_generation(),
            merged(
                *old(self),
                old(fetcher).in_flight(),
                message,
                *final(self),
                final(fetcher).in_flight(),
                applied,
            ),
    {
        if self.mark_for_refresh {
            match message {
                Message::PostsReady(..) | Message::ContentReady(..) | Message::ImageDecoded(
                    ..,
                ) => {
                    return Applied::Superseded;
                },
                _ => {},
            }
        }
        match message {
            Message::PostsReady(posts, feed) => {
                let count: usize = posts.len();
                self.set_feed(feed);
                self.extend_posts(posts);
                Applied::Extended(count)
            },
            Message::ContentReady(payload, index) => {
                if !self.content_cache.pending(index) {
                    return Applied::Dropped(Error::ProtocolViolation(index));
                }
                match payload {
                    Payload::Text(text) => Self::settled(
                        self.set_content(index, Content::Text(text)),
                        index,
                    ),
                    Payload::Html(_) => Self::settled(
                        self.set_content(index, Content::Unsupported),
                        index,
                    ),
                    Payload::Image(bytes) => Applied::Decode(fetcher.decode_image(bytes, index)),
                }
            },
            Message::ImageDecoded(pixels, size, index) => Self::settled(
                self.set_content(index, Content::Image { pixels, width: size.0, height: size.1 }),
                index,
            ),
            Message::UserLoggedIn(auth) => Applied::LoggedIn(auth),
            Message::Failed(error) => Applied::Dropped(error),
        }
    }

    /// What came of resolving the cache entry of item `index`.
    fn settled<A>(done: Result<(), Error>, index: PostId) -> (applied: Applied<F, A>)
        ensures
            applied == match done {
                Ok(_) => Applied::<F, A>::Resolved(index),
                Err(error) => Applied::<F, A>::Dropped(error),
            },
    {
        match done {
            Ok(_) => Applied::Resolved(index),
            Err(error) => Applied::Dropped(error),
        }
    }

    /// Takes at most one outcome off the channel and merges it into the state.
    /// Never waits: with nothing on the channel, nothing changes. With an
    /// outcome on it, the piece of work behind the outcome is counted as done
    /// and the state becomes what merging that outcome makes of it.
    pub fn try_receive<A>(&mut self, fetcher: &mut Fetcher<F, A>) -> (applied: Option<
        Applied<F, A>,
    >)
        requires
            old(self).wf(),
        ensures
            final(self).wf(),
            *final(self) == (State {
                posts: final(self).posts,
                content_cache: final(self).content_cache,
                feed: final(self).feed,
                ..*old(self)
            }),
            final(self).content_cache.spec_capacity() == old(self).content_cache.spec_capacity(),
            old(self).posts@.is_prefix_of(final(self).posts@),
            final(fetcher).spec_generation() == old(fetcher).spec_generation(),
            match applied {
                Some(outcome) => {
                    &&& exists|message: Message<F, A>| #[trigger]
                        merged(
                            *old(self),
                            one_done(old(fetcher).in_flight()),
                            message,
                            *final(self),
                            final(fetcher).in_flight(),
                            outcome,
                        )
                    &&& final(fetcher).in_flight() == one_done(old(fetcher).in_flight()) + (
                    if outcome is Decode {
                        1nat
                    } else {
                        0nat
                    })
                },
                None => {
                    &&& *final(self) == *old(self)
                    &&& final(fetcher).in_flight() == old(fetcher).in_flight()
                },
            },
    {
        match fetcher.try_recv() {
            Some(message) => {
                let ghost received = message;
                let outcome = self.apply(fetcher, message);
                assert(merged(
                    *old(self),
                    one_done(old(fetcher).in_flight()),
                    received,
                    *self,
                    fetcher.in_flight(),
                    outcome,
                ));
                Some(outcome)
            },
            None => None,
        }
    }
}

/// The visible items stand in the order of their indices, and every one of their
/// indices is the index of an item of the store.
pub proof fn lemma_visible_ascending(posts: Seq<ViewablePost>, filters: Map<u32, Filter>)
    requires
        forall|i: int| 0 <= i < posts.len() ==> (#[trigger] posts[i]).post_id == i,
    ensures
        forall|a: int, b: int|
            0 <= a < b < visible(posts, filters).len() ==> (#[trigger] visible(
                posts,
                filters,
            )[a]).post_id < (#[trigger] visible(posts, filters)[b]).post_id,
        forall|a: int|
            0 <= a < visible(posts, filters).len() ==> (#[trigger] visible(
                posts,
                filters,
            )[a]).post_id < posts.len(),
    decreases posts.len(),
{
    reveal(Seq::filter);
    if posts.len() > 0 {
        let shorter = posts.drop_last();
        lemma_visible_ascending(shorter, filters);
        let admitted = |post: ViewablePost| all_admit(filters, post.inner);
        let shown = visible(posts, filters);
        let earlier = visible(shorter, filters);
        assert(shown == if admitted(posts.last()) {
            earlier.push(posts.last())
        } else {
            earlier
        });
        assert forall|a: int, b: int| 0 <= a < b < shown.len() implies (#[trigger] shown[a]).post_id
            < (#[trigger] shown[b]).post_id by {
            if b < earlier.len() {
                assert(shown[a] == earlier[a] && shown[b] == earlier[b]);
            } else {
                assert(shown[a] == earlier[a]);
                assert(shown[b] == posts[posts.len() - 1]);
            }
        }
        assert forall|a: int| 0 <= a < shown.len() implies (#[trigger] shown[a]).post_id
            < posts.len() by {
            if a < earlier.len() {
                assert(shown[a] == earlier[a]);
            } else {
                assert(shown[a] == posts[posts.len() - 1]);
            }
        }
    }
}

/// Buffering twice in succession, with the focus, the items and the filters
/// unchanged, never asks twice for the content of one item, as long as the
/// cache has room for as many entries as the window has items.
pub proof fn lemma_buffering_twice<F>(before: State<F>, after: State<F>)
    requires
        before.wf(),
        before.targets().len() <= before.content_cache.spec_capacity(),
        same_but_cache(after, before),
        after.content_cache@ == filled(
            before.content_cache@,
            before.content_cache.spec_capacity(),
            before.targets(),
            None,
        ),
    ensures
        after.targets() == before.targets(),
        forall|index: PostId|
            missing(
                before.content_cache@,
                before.content_cache.spec_capacity(),
                before.targets(),
                None::<Content>,
            ).contains(index) ==> !missing(
                after.content_cache@,
                after.content_cache.spec_capacity(),
                after.targets(),
                None::<Content>,
            ).contains(index),
{
    let targets = before.targets();
    let shown = before.shown();
    before.options.buffer_ratio.lemma_in_range();
    lemma_window_bounds(
        shown.len(),
        before.feed_component.viewed as nat,
        before.options.buffer_amount as nat,
        before.options.buffer_ratio@,
    );
    lemma_visible_ascending(before.posts@, before.active_filters@);
    let bounds = window_bounds(
        shown.len(),
        before.feed_component.viewed as nat,
        before.options.buffer_amount as nat,
        before.options.buffer_ratio@,
    );
    assert forall|a: int, b: int| 0 <= a < targets.len() && 0 <= b < targets.len() && a
        != b implies targets[a] != targets[b] by {
        assert(targets[a] == shown[bounds.0 + a].post_id);
        assert(targets[b] == shown[bounds.0 + b].post_id);
        if a < b {
            assert(shown[bounds.0 + a].post_id < shown[bounds.0 + b].post_id);
        } else {
            assert(shown[bounds.0 + b].post_id < shown[bounds.0 + a].post_id);
        }
    }
    lemma_refill_asks_nothing_twice(
        before.content_cache@,
        before.content_cache.spec_capacity(),
        targets,
        None::<Content>,
    );
}

/// Buffering twice in succession, with the focus, the items and the filters
/// unchanged, asks for nothing the second time and leaves the cache as it is,
/// as long as the cache had room for everything the first time asked for.
pub proof fn lemma_buffering_twice_with_room<F>(before: State<F>, after: State<F>)
    requires
        before.content_cache@.len() + missing(
            before.content_cache@,
            before.content_cache.spec_capacity(),
            before.targets(),
            None::<Content>,
        ).len() <= before.content_cache.spec_capacity(),
        same_but_cache(after, before),
        after.content_cache@ == filled(
            before.content_cache@,
            before.content_cache.spec_capacity(),
            before.targets(),
            None,
        ),
    ensures
        after.targets() == before.targets(),
        missing(
            after.content_cache@,
            after.content_cache.spec_capacity(),
            after.targets(),
            None::<Content>,
        ) == Seq::<PostId>::empty(),
        filled(
            after.content_cache@,
            after.content_cache.spec_capacity(),
            after.targets(),
            None::<Content>,
        ) == after.content_cache@,
{
    lemma_refill_with_room(
        before.content_cache@,
        before.content_cache.spec_capacity(),
        before.targets(),
        None::<Content>,
    );
}

} // verus!
