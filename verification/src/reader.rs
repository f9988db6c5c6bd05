//! The reader as a whole: what it does once per frame, and what it does when a
//! key asks for an action.

use vstd::prelude::*;
use crate::components::{
    ComponentMode, FilterWindow, MainContentComponent, PostFeedComponent, PostSummaryComponent,
    SubredditWindow, WindowKind, WindowState, Windows,
};
use crate::config::Options;
use crate::content::{Content, PostId};
use crate::filter::Filter;
use crate::fetch::{
    more_work, next_generation, one_done, Dispatch, Fetcher, Message, Task,
};
use crate::recency::{filled, missing};
use crate::state::{
    content_tasks, merged, same_but_cache, tasks_of, Applied, State, CACHE_CAPACITY,
};
use crate::store::ViewablePost;
use crate::Action;

verus! {

/// How close to the last item the highlight has to come for the next page to
/// be pulled.
pub const NEAR_END: usize = 10;

/// The reader: its state, the owner of its channel, and its floating windows.
#[verifier::reject_recursive_types(F)]
#[verifier::reject_recursive_types(A)]
pub struct SnuiApp<F, A> {
    pub state: State<F>,
    pub fetcher: Fetcher<F, A>,
    pub windows: Windows,
}

/// What one frame asks of the world outside.
#[verifier::reject_recursive_types(F)]
#[verifier::reject_recursive_types(A)]
pub struct Frame<F, A> {
    /// The work to hand to workers, in the order in which it was counted.
    pub dispatches: Vec<Dispatch<F, A>>,
    /// Whether work is under way, so that the next frame should follow at once.
    pub repaint: bool,
}

/// What an action asks of the world outside.
#[verifier::reject_recursive_types(F)]
#[verifier::reject_recursive_types(A)]
pub enum Request<F, A> {
    /// Nothing.
    Nothing,
    /// Hand this work to a worker.
    Work(Dispatch<F, A>),
    /// Replace the feed by the front page.
    Frontpage,
}

/// What came of an action.
#[verifier::reject_recursive_types(F)]
#[verifier::reject_recursive_types(A)]
pub struct Handled<F, A> {
    /// Whether the highlight was asked to move.
    pub has_moved: bool,
    pub request: Request<F, A>,
}

/// The position of the highlight after a step down among `len` items.
pub open spec fn position_below(highlighted: usize, len: nat) -> usize {
    if len == 0 {
        0
    } else if highlighted + 1 <= len - 1 {
        (highlighted + 1) as usize
    } else {
        (len - 1) as usize
    }
}

/// The position of the highlight after a step up.
pub open spec fn position_above(highlighted: usize) -> usize {
    if highlighted == 0 {
        0
    } else {
        (highlighted - 1) as usize
    }
}

/// Whether a highlight at `highlighted` among `len` items is within
/// [`NEAR_END`] of the last one.
pub open spec fn near_end(highlighted: usize, len: nat) -> bool {
    highlighted + NEAR_END >= len
}

/// Whether `action` in the state `state` looks for the next page: a step down
/// that brings the highlight near the end.
pub open spec fn looks_for_more<F>(state: State<F>, action: Action) -> bool {
    action == Action::PostDown && near_end(
        position_below(state.feed_component.highlighted, state.posts@.len()),
        state.posts@.len(),
    )
}

/// The feed pane after `action` in the state `state`.
pub open spec fn pane_after<F>(state: State<F>, action: Action) -> PostFeedComponent {
    let pane = state.feed_component;
    match action {
        Action::PostDown => PostFeedComponent {
            highlighted: position_below(pane.highlighted, state.posts@.len()),
            ..pane
        },
        Action::PostUp => PostFeedComponent {
            highlighted: position_above(pane.highlighted),
            ..pane
        },
        Action::OpenPost => if state.options.immediate_posts {
            pane
        } else {
            PostFeedComponent { viewed: pane.highlighted, ..pane }
        },
        Action::TogglePostFeedMode => PostFeedComponent { mode: pane.mode.spec_next(), ..pane },
        _ => pane,
    }
}

/// The state after `action`: a step moves the highlight, opening views the
/// highlighted item unless items are viewed at once anyway, the toggles step a
/// pane to its next mode, the front page marks the feed for replacement, and
/// the feed is taken where the next page is looked for.
pub open spec fn state_after<F>(state: State<F>, action: Action) -> State<F> {
    State {
        feed_component: pane_after(state, action),
        main_component: if action == Action::ToggleMainContentMode {
            MainContentComponent { mode: state.main_component.mode.spec_next() }
        } else {
            state.main_component
        },
        feed: if looks_for_more(state, action) {
            None
        } else {
            state.feed
        },
        mark_for_refresh: state.mark_for_refresh || action == Action::Frontpage,
        ..state
    }
}

/// The floating windows after `action`: the subreddit window opens or closes
/// where the action asks for it.
pub open spec fn windows_after(windows: Windows, action: Action) -> Windows {
    if action == Action::OpenSubredditWindow {
        Windows {
            subreddit: SubredditWindow {
                window: WindowState {
                    open: !windows.subreddit.window.open,
                    ..windows.subreddit.window
                },
                ..windows.subreddit
            },
            ..windows
        }
    } else {
        windows
    }
}

/// The work that `action` in the state `state` hands out: the login, or the
/// pull of the next page where it is looked for and the feed is at hand.
pub open spec fn task_of<F>(state: State<F>, action: Action) -> Option<Task<F>> {
    if action == Action::Login {
        Some(Task::Login)
    } else if looks_for_more(state, action) && state.feed is Some {
        Some(Task::PullPage(state.feed->0))
    } else {
        None
    }
}

/// The state at the start of a frame, but for the content cache: a feed that
/// was replaced is taken for its first pull, and the highlighted item is viewed
/// where items are viewed at once.
pub open spec fn frame_start<F>(state: State<F>) -> State<F> {
    State {
        mark_for_refresh: false,
        feed: if state.mark_for_refresh {
            None
        } else {
            state.feed
        },
        feed_component: if state.options.immediate_posts {
            PostFeedComponent { viewed: state.feed_component.highlighted, ..state.feed_component }
        } else {
            state.feed_component
        },
        ..state
    }
}

/// The pull of the first page of a feed that was replaced and is at hand.
pub open spec fn first_pull<F>(state: State<F>) -> Seq<Task<F>> {
    if state.mark_for_refresh && state.feed is Some {
        seq![Task::PullPage(state.feed->0)]
    } else {
        Seq::empty()
    }
}

impl<F, A> SnuiApp<F, A> {
    /// A reader at the start of a session on `feed`: no items, an empty cache,
    /// no filters, every pane snapped and at the first item, the first page
    /// still to be pulled, no work under way in the first generation, and both
    /// floating windows closed, to take the keyboard when they open.
    pub fn new(feed: F, options: Options) -> (reader: Self)
        ensures
            reader.state.wf(),
            reader.state == (State {
                feed_component: PostFeedComponent {
                    highlighted: 0,
                    viewed: 0,
                    mode: ComponentMode::Snapped,
                    just_dragged: false,
                },
                main_component: MainContentComponent { mode: ComponentMode::Snapped },
                summary_component: PostSummaryComponent { mode: ComponentMode::Snapped },
                feed: Some(feed),
                num_request_disable_binds: 0,
                mark_for_refresh: true,
                options,
                posts: reader.state.posts,
                active_filters: reader.state.active_filters,
                content_cache: reader.state.content_cache,
            }),
            reader.state.posts@ == Seq::<ViewablePost>::empty(),
            reader.state.active_filters@ == Map::<u32, Filter>::empty(),
            reader.state.content_cache@ == Seq::<(PostId, Option<Content>)>::empty(),
            reader.state.content_cache.spec_capacity() == CACHE_CAPACITY,
            reader.fetcher.in_flight() == 0,
            reader.fetcher.spec_generation() == 0,
            reader.windows == (Windows {
                subreddit: SubredditWindow {
                    window: WindowState { open: false, request_focus: true },
                    text: None,
                },
                filter: FilterWindow {
                    window: WindowState { open: false, request_focus: true },
                    checked: false,
                },
            }),
    {
        SnuiApp {
            state: State::new(feed, options),
            fetcher: Fetcher::new(),
            windows: Windows::new(),
        }
    }

    /// Hands out the pull of the next page, where the feed is at hand.
    pub fn get_more_posts(&mut self) -> (dispatch: Option<Dispatch<F, A>>)
        ensures
            final(self).windows == old(self).windows,
            final(self).fetcher.spec_generation() == old(self).fetcher.spec_generation(),
            final(self).state == (State { feed: None, ..old(self).state }),
            match old(self).state.feed {
                Some(at_hand) => {
                    &&& dispatch is Some
                    &&& dispatch->0.task == Task::PullPage(at_hand)
                    &&& dispatch->0.generation == old(self).fetcher.spec_generation()
                    &&& final(self).fetcher.in_flight() == more_work(
                        old(self).fetcher.in_flight(),
                        1,
                    )
                },
                None => {
                    &&& dispatch is None
                    &&& final(self).fetcher.in_flight() == old(self).fetcher.in_flight()
                },
            },
    {
        self.fetcher.get(&mut self.state.feed)
    }

    /// Hands out the pull of the next page where the highlight has come near
    /// the last item and the feed is at hand.
    pub fn conditional_get_more_posts(&mut self) -> (dispatch: Option<Dispatch<F, A>>)
        ensures
            final(self).windows == old(self).windows,
            final(self).fetcher.spec_generation() == old(self).fetcher.spec_generation(),
            final(self).state == if near_end(
                old(self).state.feed_component.highlighted,
                old(self).state.posts@.len(),
            ) {
                State { feed: None, ..old(self).state }
            } else {
                old(self).state
            },
            match dispatch {
                Some(pull) => {
                    &&& near_end(
                        old(self).state.feed_component.highlighted,
                        old(self).state.posts@.len(),
                    )
                    &&& old(self).state.feed is Some
                    &&& pull.task == Task::PullPage(old(self).state.feed->0)
                    &&& pull.generation == old(self).fetcher.spec_generation()
                    &&& final(self).fetcher.in_flight() == more_work(
                        old(self).fetcher.in_flight(),
                        1,
                    )
                },
                None => {
                    &&& !(near_end(
                        old(self).state.feed_component.highlighted,
                        old(self).state.posts@.len(),
                    ) && old(self).state.feed is Some)
                    &&& final(self).fetcher.in_flight() == old(self).fetcher.in_flight()
                },
            },
    {
        let len: usize = self.state.unfiltered_len();
        let threshold: usize = if len >= NEAR_END {
            len - NEAR_END
        } else {
            0
        };
        if self.state.feed_component.highlighted >= threshold {
            self.get_more_posts()
        } else {
            None
        }
    }

    /// Does what `action` asks for, as far as the reader can by itself, and
    /// says what is left for the world outside.
    ///
    /// A step down moves the highlight by one, not past the last item, and
    /// pulls the next page where the highlight has come near the end. A step up
    /// moves it by one, not past the first. Opening views the highlighted item,
    /// unless items are viewed at once anyway.
    pub fn handle_action(&mut self, action: Action) -> (handled: Handled<F, A>)
        ensures
            handled.has_moved == (action == Action::PostDown || action == Action::PostUp),
            final(self).state == state_after(old(self).state, action),
            final(self).windows == windows_after(old(self).windows, action),
            final(self).fetcher.spec_generation() == old(self).fetcher.spec_generation(),
            match task_of(old(self).state, action) {
                Some(task) => {
                    &&& handled.request is Work
                    &&& handled.request->Work_0.task == task
                    &&& handled.request->Work_0.generation == old(self).fetcher.spec_generation()
                    &&& final(self).fetcher.in_flight() == more_work(
                        old(self).fetcher.in_flight(),
                        1,
                    )
                },
                None => {
                    &&& handled.request is Frontpage <==> action == Action::Frontpage
                    &&& handled.request is Nothing <==> action != Action::Frontpage
                    &&& final(self).fetcher.in_flight() == old(self).fetcher.in_flight()
                },
            },
    {
        let mut has_moved: bool = false;
        let mut request: Request<F, A> = Request::Nothing;
        match action {
            Action::PostDown => {
                let len: usize = self.state.unfiltered_len();
                let highlighted: usize = self.state.feed_component.highlighted;
                self.state.feed_component.highlighted = if len == 0 {
                    0
                } else if highlighted < len - 1 {
                    highlighted + 1
                } else {
                    len - 1
                };
                match self.conditional_get_more_posts() {
                    Some(dispatch) => {
                        request = Request::Work(dispatch);
                    },
                    None => {},
                }
                has_moved = true;
            },
            Action::PostUp => {
                let highlighted: usize = self.state.feed_component.highlighted;
                self.state.feed_component.highlighted = if highlighted == 0 {
                    0
                } else {
                    highlighted - 1
                };
                has_moved = true;
            },
            Action::OpenPost => {
                if !self.state.options.immediate_posts {
                    self.state.feed_component.viewed = self.state.feed_component.highlighted;
                }
            },
            Action::Login => {
                request = Request::Work(self.fetcher.start_login_process());
            },
            Action::TogglePostFeedMode => self.state.feed_component.toggle_mode(),
            Action::ToggleMainContentMode => self.state.main_component.toggle_mode(),
            Action::OpenSubredditWindow => self.windows.open(WindowKind::Subreddit),
            Action::Frontpage => {
                self.state.mark_for_refresh = true;
                request = Request::Frontpage;
            },
        }
        Handled { has_moved, request }
    }

    /// Takes at most one outcome off the channel and merges it into the state.
    /// Never waits: with nothing on the channel, nothing changes. With an
    /// outcome on it, the piece of work behind the outcome is counted as done
    /// and the state becomes what merging that outcome makes of it.
    pub fn try_receive(&mut self) -> (applied: Option<Applied<F, A>>)
        requires
            old(self).state.wf(),
        ensures
            final(self).state.wf(),
            final(self).windows == old(self).windows,
            final(self).state.content_cache.spec_capacity()
                == old(self).state.content_cache.spec_capacity(),
            final(self).fetcher.spec_generation() == old(self).fetcher.spec_generation(),
            old(self).state.posts@.is_prefix_of(final(self).state.posts@),
            match applied {
                Some(outcome) => {
                    &&& exists|message: Message<F, A>| #[trigger]
                        merged(
                            old(self).state,
                            one_done(old(self).fetcher.in_flight()),
                            message,
                            final(self).state,
                            final(self).fetcher.in_flight(),
                            outcome,
                        )
                    &&& final(self).fetcher.in_flight() == one_done(
                        old(self).fetcher.in_flight(),
                    ) + (if outcome is Decode {
                        1nat
                    } else {
                        0nat
                    })
                },
                None => {
                    &&& final(self).state == old(self).state
                    &&& final(self).fetcher.in_flight() == old(self).fetcher.in_flight()
                },
            },
    {
        self.state.try_receive(&mut self.fetcher)
    }

    /// The start of a frame. Where the feed was replaced, the reader turns away
    /// from the work under way and pulls the first page. Then it sees to it that
    /// the content around the viewed item is cached or asked for, and views the
    /// highlighted item where items are viewed at once.
    pub fn update(&mut self) -> (frame: Frame<F, A>)
        requires
            old(self).state.wf(),
        ensures
            final(self).state.wf(),
            final(self).windows == old(self).windows,
            same_but_cache(final(self).state, frame_start(old(self).state)),
            final(self).state.content_cache@.len()
                <= final(self).state.content_cache.spec_capacity(),
            final(self).state.content_cache@ == filled(
                old(self).state.content_cache@,
                old(self).state.content_cache.spec_capacity(),
                old(self).state.targets(),
                None,
            ),
            tasks_of(frame.dispatches@) == first_pull(old(self).state) + content_tasks::<F>(
                missing(
                    old(self).state.content_cache@,
                    old(self).state.content_cache.spec_capacity(),
                    old(self).state.targets(),
                    None::<Content>,
                ),
            ),
            final(self).fetcher.in_flight() == more_work(
                if old(self).state.mark_for_refresh {
                    0
                } else {
                    old(self).fetcher.in_flight()
                },
                frame.dispatches@.len(),
            ),
            frame.repaint == (final(self).fetcher.in_flight() > 0),
            final(self).fetcher.spec_generation() == if old(self).state.mark_for_refresh {
                next_generation(old(self).fetcher.spec_generation())
            } else {
                old(self).fetcher.spec_generation()
            },
            forall|i: int|
                0 <= i < frame.dispatches@.len() ==> (#[trigger] frame.dispatches@[i]).generation
                    == final(self).fetcher.spec_generation(),
    {
        let mut dispatches: Vec<Dispatch<F, A>> = Vec::new();
        if self.state.mark_for_refresh {
            self.fetcher.reset();
            self.state.mark_for_refresh = false;
            match self.get_more_posts() {
                Some(dispatch) => {
                    dispatches.push(dispatch);
                },
                None => {},
            }
        }
        let ghost pulls = dispatches@;
        assert(self.state.targets() == old(self).state.targets());
        assert(tasks_of(pulls) =~= first_pull(old(self).state));
        let mut fetches = self.state.buffer_posts(&mut self.fetcher);
        let ghost asked = fetches@;
        dispatches.append(&mut fetches);
        assert(tasks_of(dispatches@) =~= tasks_of(pulls) + tasks_of(asked));
        assert forall|i: int| 0 <= i < dispatches@.len() implies (#[trigger]
            dispatches@[i]).generation == self.fetcher.spec_generation() by {
            if i < pulls.len() {
                assert(dispatches@[i] == pulls[i]);
            } else {
                assert(dispatches@[i] == asked[i - pulls.len()]);
            }
        }
        if self.state.options.immediate_posts {
            self.state.feed_component.set_h_equal_v();
        }
        Frame { dispatches, repaint: self.fetcher.is_working() }
    }
}

} // verus!
