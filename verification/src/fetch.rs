//! Work that is handed to background workers, and the channel on which their
//! outcomes come back.

use vstd::prelude::*;
use crossbeam_channel::{Receiver, Sender};
use crate::content::{FeedItem, Payload, Pixel, PostId};
use crate::Error;

verus! {

/// `crossbeam_channel::Sender`, the sending end of a channel; nothing inside it
/// is seen here.
#[verifier::external_type_specification]
#[verifier::external_body]
#[verifier::reject_recursive_types(T)]
pub struct ExSender<T>(Sender<T>);

/// `crossbeam_channel::Receiver`, the receiving end of a channel; nothing inside
/// it is seen here.
#[verifier::external_type_specification]
#[verifier::external_body]
#[verifier::reject_recursive_types(T)]
pub struct ExReceiver<T>(Receiver<T>);

/// The number of items that one pull of the feed asks for.
pub const PAGE_SIZE: usize = 15;

/// The outcome of one piece of background work. `F` is what the provider needs
/// to go on with the feed, `A` what it hands out on a login.
pub enum Message<F, A> {
    /// A page of items, and the feed to go on with.
    PostsReady(Vec<FeedItem>, F),
    /// What the provider holds for the item.
    ContentReady(Payload, PostId),
    /// The pixels of the item's image, row by row, and its width and height.
    ImageDecoded(Vec<Pixel>, (usize, usize), PostId),
    /// The user has logged in.
    UserLoggedIn(A),
    /// The work failed.
    Failed(Error),
}

/// One piece of background work.
pub enum Task<F> {
    /// Pull the next page of the feed.
    PullPage(F),
    /// Ask the provider for the content of an item.
    ResolveContent(PostId),
    /// Decode the bytes of an item's image.
    DecodeImage(Vec<u8>, PostId),
    /// Take the user through the login.
    Login,
}

/// An outcome as it travels on the channel: the message, stamped with the
/// generation of the work it belongs to.
pub struct Outcome<F, A> {
    /// The generation the fetcher was in when it handed the work out.
    pub generation: u64,
    pub message: Message<F, A>,
}

/// A piece of work on its way to a worker, with the handle on which the worker
/// reports the outcome.
#[verifier::reject_recursive_types(F)]
#[verifier::reject_recursive_types(A)]
pub struct Dispatch<F, A> {
    pub task: Task<F>,
    /// The generation the fetcher was in when it handed the work out.
    pub generation: u64,
    pub sender: Sender<Outcome<F, A>>,
}

impl<F, A> Dispatch<F, A> {
    /// The outcome to send for this piece of work: `message`, stamped with the
    /// generation of the work.
    pub fn stamp(&self, message: Message<F, A>) -> (outcome: Outcome<F, A>)
        ensures
            outcome == (Outcome { generation: self.generation, message }),
    {
        Outcome { generation: self.generation, message }
    }
}

/// The generation that follows `generation`; after the last one the count
/// starts again.
pub open spec fn next_generation(generation: u64) -> u64 {
    if generation < u64::MAX {
        (generation + 1) as u64
    } else {
        0
    }
}

/// `crossbeam_channel::unbounded`: the two ends of a new channel that takes any
/// number of messages.
#[verifier::external_body]
fn open_channel<F, A>() -> (ends: (Sender<Outcome<F, A>>, Receiver<Outcome<F, A>>)) {
    crossbeam_channel::unbounded()
}

/// `Receiver::try_recv`: an outcome that is waiting on the channel, if there is
/// one; never waits for one.
#[verifier::external_body]
fn poll<F, A>(receiver: &Receiver<Outcome<F, A>>) -> (outcome: Option<Outcome<F, A>>) {
    match receiver.try_recv() {
        Ok(outcome) => Some(outcome),
        Err(_) => None,
    }
}

/// `Sender::clone`: one more handle on the sending end of the channel.
#[verifier::external_body]
fn another<F, A>(sender: &Sender<Outcome<F, A>>) -> (handle: Sender<Outcome<F, A>>) {
    sender.clone()
}

/// The outcome that a worker reports for the fetch of the content of item
/// `id`, from the answer of the provider: the content it handed back, or its
/// failure. One outcome either way, so that the work is counted as done.
pub fn content_message<F, A>(answer: Result<Payload, Error>, id: PostId) -> (message: Message<
    F,
    A,
>)
    ensures
        message == match answer {
            Ok(payload) => Message::<F, A>::ContentReady(payload, id),
            Err(error) => Message::<F, A>::Failed(error),
        },
{
    match answer {
        Ok(payload) => Message::ContentReady(payload, id),
        Err(error) => Message::Failed(error),
    }
}

/// The outcome that a worker reports for a login, from the answer of the
/// provider: what it handed out, or its failure.
pub fn login_message<F, A>(answer: Result<A, Error>) -> (message: Message<F, A>)
    ensures
        message == match answer {
            Ok(auth) => Message::<F, A>::UserLoggedIn(auth),
            Err(error) => Message::<F, A>::Failed(error),
        },
{
    match answer {
        Ok(auth) => Message::UserLoggedIn(auth),
        Err(error) => Message::Failed(error),
    }
}

/// The pull of the next page of the feed.
#[derive(Debug)]
pub struct MorePosts;

impl MorePosts {
    /// Takes the feed, where it is at hand, to pull its next page. While a pull
    /// is under way the feed is not at hand, so no second pull starts.
    pub fn fetch<F>(feed: &mut Option<F>) -> (task: Option<Task<F>>)
        ensures
            *final(feed) == None::<F>,
            task == match *old(feed) {
                Some(at_hand) => Some(Task::PullPage(at_hand)),
                None => None,
            },
    {
        match feed.take() {
            Some(at_hand) => Some(Task::PullPage(at_hand)),
            None => None,
        }
    }
}

/// The number of pieces of work under way once one of `count` has reported;
/// not below none.
pub open spec fn one_done(count: nat) -> nat {
    if count > 0 {
        (count - 1) as nat
    } else {
        0
    }
}

/// The number of pieces of work under way once `added` more have been handed
/// out while `count` were under way; the counter stops at the most it can hold.
pub open spec fn more_work(count: nat, added: nat) -> nat {
    if count + added <= u32::MAX {
        count + added
    } else {
        u32::MAX as nat
    }
}

/// The message of `polled` as far as it is to be handed on: where the channel
/// held an outcome of the generation `generation`. An outcome of another
/// generation belongs to work that the fetcher has turned away from.
pub open spec fn current<F, A>(polled: Option<Outcome<F, A>>, generation: u64) -> Option<
    Message<F, A>,
> {
    match polled {
        Some(outcome) => if outcome.generation == generation {
            Some(outcome.message)
        } else {
            None
        },
        None => None,
    }
}

/// The owner of the channel, who counts the work that is under way and drops
/// the outcomes of work it has turned away from.
#[verifier::reject_recursive_types(F)]
#[verifier::reject_recursive_types(A)]
pub struct Fetcher<F, A> {
    /// Where the outcomes arrive.
    pub receiver: Receiver<Outcome<F, A>>,
    /// The handle that is copied for each worker.
    pub sender: Sender<Outcome<F, A>>,
    /// The number of pieces of work that were handed out and have not reported.
    num_senders: u32,
    /// The number of times the fetcher has turned away from its work.
    generation: u64,
}

impl<F, A> Fetcher<F, A> {
    /// The number of pieces of work that were handed out and have not reported.
    pub closed spec fn in_flight(&self) -> nat {
        self.num_senders as nat
    }

    /// The generation of the work that is handed out now.
    pub closed spec fn spec_generation(&self) -> u64 {
        self.generation
    }

    /// The generation of the work that is handed out now.
    pub fn generation(&self) -> (generation: u64)
        ensures
            generation == self.spec_generation(),
    {
        self.generation
    }

    /// The counter never holds more than a 32-bit number.
    pub proof fn lemma_in_flight_bounded(&self)
        ensures
            self.in_flight() <= u32::MAX,
    {
    }

    /// The number of pieces of work that were handed out and have not reported.
    pub fn outstanding(&self) -> (count: u32)
        ensures
            count == self.in_flight(),
    {
        self.num_senders
    }

    /// A fetcher with a channel of its own, in its first generation and with no
    /// work under way.
    pub fn new() -> (fetcher: Self)
        ensures
            fetcher.in_flight() == 0,
            fetcher.spec_generation() == 0,
    {
        let (sender, receiver) = open_channel();
        Fetcher { receiver, sender, num_senders: 0, generation: 0 }
    }

    /// Takes in what the channel held. An outcome of the generation at hand is
    /// handed on, and its piece of work counted as done. An outcome of another
    /// generation is dropped: it belongs to work that the fetcher has turned
    /// away from, and that is counted no more.
    pub fn count_done(&mut self, polled: Option<Outcome<F, A>>) -> (message: Option<
        Message<F, A>,
    >)
        ensures
            message == current(polled, old(self).spec_generation()),
            final(self).spec_generation() == old(self).spec_generation(),
            final(self).in_flight() == if message is Some {
                one_done(old(self).in_flight())
            } else {
                old(self).in_flight()
            },
            message is Some ==> final(self).in_flight() < u32::MAX,
    {
        match polled {
            Some(outcome) => {
                if outcome.generation == self.generation {
                    if self.num_senders > 0 {
                        self.num_senders -= 1;
                    }
                    Some(outcome.message)
                } else {
                    None
                }
            },
            None => None,
        }
    }

    /// Takes one outcome off the channel, if one is waiting, and counts its
    /// piece of work as done. An outcome of work that the fetcher has turned
    /// away from is dropped.
    pub fn try_recv(&mut self) -> (message: Option<Message<F, A>>)
        ensures
            final(self).spec_generation() == old(self).spec_generation(),
            final(self).in_flight() == if message is Some {
                one_done(old(self).in_flight())
            } else {
                old(self).in_flight()
            },
            message is Some ==> final(self).in_flight() < u32::MAX,
    {
        let polled = poll(&self.receiver);
        self.count_done(polled)
    }

    /// Turns away from all work under way: the next generation begins, with no
    /// work under way and a channel of its own. An outcome of the work that was
    /// under way is dropped should it ever arrive.
    pub fn reset(&mut self)
        ensures
            final(self).in_flight() == 0,
            final(self).spec_generation() == next_generation(old(self).spec_generation()),
    {
        let (sender, receiver) = open_channel();
        self.receiver = receiver;
        self.sender = sender;
        self.num_senders = 0;
        self.generation = if self.generation < u64::MAX {
            self.generation + 1
        } else {
            0
        };
    }

    /// Whether any work is under way.
    pub fn is_working(&self) -> (working: bool)
        ensures
            working == (self.in_flight() > 0),
    {
        self.num_senders > 0
    }

    /// Counts `task` as under way and pairs it with a handle for its worker. The
    /// counter stops at the most it can hold.
    pub fn dispatch(&mut self, task: Task<F>) -> (dispatch: Dispatch<F, A>)
        ensures
            final(self).in_flight() == more_work(old(self).in_flight(), 1),
            final(self).spec_generation() == old(self).spec_generation(),
            dispatch.task == task,
            dispatch.generation == old(self).spec_generation(),
    {
        if self.num_senders < u32::MAX {
            self.num_senders += 1;
        }
        Dispatch { task, generation: self.generation, sender: another(&self.sender) }
    }

    /// Hands out the pull of the next page, where the feed is at hand.
    pub fn get(&mut self, feed: &mut Option<F>) -> (dispatch: Option<Dispatch<F, A>>)
        ensures
            *final(feed) == None::<F>,
            final(self).spec_generation() == old(self).spec_generation(),
            match *old(feed) {
                Some(at_hand) => {
                    &&& dispatch is Some
                    &&& dispatch->0.task == Task::PullPage(at_hand)
                    &&& dispatch->0.generation == old(self).spec_generation()
                    &&& final(self).in_flight() == more_work(old(self).in_flight(), 1)
                },
                None => dispatch is None && final(self).in_flight() == old(self).in_flight(),
            },
    {
        match MorePosts::fetch(feed) {
            Some(task) => Some(self.dispatch(task)),
            None => None,
        }
    }

    /// Hands out the fetch of the content of item `id`. The worker reports what
    /// [`content_message`] makes of the provider's answer.
    pub fn get_content(&mut self, id: PostId) -> (dispatch: Dispatch<F, A>)
        ensures
            final(self).in_flight() == more_work(old(self).in_flight(), 1),
            final(self).spec_generation() == old(self).spec_generation(),
            dispatch.task == Task::<F>::ResolveContent(id),
            dispatch.generation == old(self).spec_generation(),
    {
        self.dispatch(Task::ResolveContent(id))
    }

    /// Hands out the decoding of the image of item `post_id`. The worker reports
    /// what `decode::decoded_message` makes of what the decoder hands over.
    pub fn decode_image(&mut self, image: Vec<u8>, post_id: PostId) -> (dispatch: Dispatch<F, A>)
        ensures
            final(self).in_flight() == more_work(old(self).in_flight(), 1),
            final(self).spec_generation() == old(self).spec_generation(),
            dispatch.task == Task::<F>::DecodeImage(image, post_id),
            dispatch.generation == old(self).spec_generation(),
    {
        self.dispatch(Task::DecodeImage(image, post_id))
    }

    /// Hands out the login. The worker reports what [`login_message`] makes of
    /// the provider's answer.
    pub fn start_login_process(&mut self) -> (dispatch: Dispatch<F, A>)
        ensures
            final(self).in_flight() == more_work(old(self).in_flight(), 1),
            final(self).spec_generation() == old(self).spec_generation(),
            dispatch.task == Task::<F>::Login,
            dispatch.generation == old(self).spec_generation(),
    {
        self.dispatch(Task::Login)
    }
}

impl<F, A> Default for Fetcher<F, A> {
    fn default() -> (fetcher: Self)
        ensures
            fetcher.in_flight() == 0,
            fetcher.spec_generation() == 0,
    {
        Fetcher::new()
    }
}

/// The outcome of a piece of work, stamped with the generation in which the work
/// was handed out, is handed on while that generation lasts, and brings the
/// number of pieces of work under way back to what it was before the work was
/// handed out.
pub proof fn lemma_report_counts_back<F, A>(count: nat, outcome: Outcome<F, A>)
    requires
        count < u32::MAX,
    ensures
        current(Some(outcome), outcome.generation) == Some(outcome.message),
        one_done(more_work(count, 1)) == count,
{
}

/// Once a fetcher has turned away from its work, it hands on no outcome of the
/// generation it was in before.
pub proof fn lemma_reset_outdates<F, A>(outcome: Outcome<F, A>)
    ensures
        current(Some(outcome), next_generation(outcome.generation)) is None,
{
}

} // verus!
