use std::collections::HashMap;
use snui::config::{FileConfig, Options};
use snui::content::{FeedItem, Payload};
use snui::fetch::{
    content_message, login_message, Fetcher, Message, MorePosts, Outcome, Task, PAGE_SIZE,
};
use snui::Error;
use snui::state::{Applied, State};

fn default_options() -> Options {
    Options::from(FileConfig {
        binds: HashMap::new(),
        immediate_posts: None,
        show_title_bars: None,
        buffer_amount: None,
        buffer_ratio: None,
    })
}

#[test]
fn new_fetcher_has_nothing_under_way() {
    let mut fetcher: Fetcher<u32, ()> = Fetcher::new();
    assert!(!fetcher.is_working());
    assert_eq!(fetcher.outstanding(), 0);
    assert!(fetcher.try_recv().is_none());
    let fetcher: Fetcher<u32, ()> = Fetcher::default();
    assert_eq!(fetcher.outstanding(), 0);
}

#[test]
fn every_dispatch_counts_once_and_every_outcome_counts_back() {
    let mut fetcher: Fetcher<u32, ()> = Fetcher::new();
    let a = fetcher.get_content(3);
    let b = fetcher.decode_image(vec![1, 2], 4);
    let c = fetcher.start_login_process();
    assert!(matches!(a.task, Task::ResolveContent(3)));
    assert!(matches!(&b.task, Task::DecodeImage(bytes, 4) if bytes == &vec![1u8, 2]));
    assert!(matches!(c.task, Task::Login));
    assert_eq!(fetcher.outstanding(), 3);
    assert!(fetcher.is_working());
    assert_eq!((a.generation, b.generation, c.generation), (0, 0, 0));
    a.sender.send(a.stamp(Message::ContentReady(Payload::Text("t".to_string()), 3))).unwrap();
    c.sender.send(c.stamp(Message::UserLoggedIn(()))).unwrap();
    assert!(matches!(fetcher.try_recv(), Some(Message::ContentReady(Payload::Text(_), 3))));
    assert_eq!(fetcher.outstanding(), 2);
    assert!(matches!(fetcher.try_recv(), Some(Message::UserLoggedIn(()))));
    assert_eq!(fetcher.outstanding(), 1);
    assert!(fetcher.try_recv().is_none());
    assert_eq!(fetcher.outstanding(), 1);
}

#[test]
fn outcome_that_was_never_counted_leaves_the_count_at_zero() {
    let mut fetcher: Fetcher<u32, ()> = Fetcher::new();
    let outcome = Outcome { generation: fetcher.generation(), message: Message::UserLoggedIn(()) };
    fetcher.sender.send(outcome).unwrap();
    assert!(fetcher.try_recv().is_some());
    assert_eq!(fetcher.outstanding(), 0);
}

#[test]
fn reset_turns_away_from_work_under_way() {
    let mut fetcher: Fetcher<u32, ()> = Fetcher::new();
    let stale = fetcher.get_content(1);
    fetcher.reset();
    assert_eq!(fetcher.outstanding(), 0);
    assert_eq!(fetcher.generation(), 1);
    // The outcome of the old work never arrives on the new channel.
    let _ = stale.sender.send(stale.stamp(Message::ContentReady(Payload::Text("old".to_string()), 1)));
    assert!(fetcher.try_recv().is_none());
    let fresh = fetcher.get_content(2);
    assert_eq!(fresh.generation, 1);
    // And were it to arrive there, its stamp would give it away.
    fresh.sender.send(stale.stamp(Message::ContentReady(Payload::Text("old".to_string()), 1))).unwrap();
    assert!(fetcher.try_recv().is_none());
    assert_eq!(fetcher.outstanding(), 1);
    fresh.sender.send(fresh.stamp(Message::ContentReady(Payload::Text("new".to_string()), 2))).unwrap();
    assert!(matches!(fetcher.try_recv(), Some(Message::ContentReady(_, 2))));
    assert_eq!(fetcher.outstanding(), 0);
}

#[test]
fn pull_starts_only_while_the_feed_is_at_hand() {
    let mut fetcher: Fetcher<u32, ()> = Fetcher::new();
    let mut feed = Some(5u32);
    let dispatch = fetcher.get(&mut feed);
    assert!(matches!(dispatch.map(|d| d.task), Some(Task::PullPage(5))));
    assert_eq!(feed, None);
    assert_eq!(fetcher.outstanding(), 1);
    assert!(fetcher.get(&mut feed).is_none());
    assert_eq!(fetcher.outstanding(), 1);
}

#[test]
fn more_posts_takes_the_feed() {
    let mut feed = Some(5u32);
    assert!(matches!(MorePosts::fetch(&mut feed), Some(Task::PullPage(5))));
    assert_eq!(feed, None);
    assert!(MorePosts::fetch(&mut feed).is_none());
    assert_eq!(PAGE_SIZE, 15);
}

#[test]
fn one_outcome_is_merged_per_call() {
    let mut state = State::new(7u32, default_options());
    state.mark_for_refresh = false;
    let mut fetcher: Fetcher<u32, ()> = Fetcher::new();
    let pull = fetcher.get(&mut state.feed).unwrap();
    let item = FeedItem {
        title: "t".to_string(),
        author: "a".to_string(),
        subreddit: "s".to_string(),
        url: "u".to_string(),
        selftext: None,
        score: 0,
        num_comments: 0,
    };
    pull.sender.send(pull.stamp(Message::PostsReady(vec![item.clone()], 8))).unwrap();
    pull.sender.send(pull.stamp(Message::PostsReady(vec![item.clone(), item], 9))).unwrap();
    assert!(matches!(state.try_receive(&mut fetcher), Some(Applied::Extended(1))));
    assert_eq!(state.unfiltered_len(), 1);
    assert_eq!(state.feed, Some(8));
    assert_eq!(fetcher.outstanding(), 0);
    assert!(matches!(state.try_receive(&mut fetcher), Some(Applied::Extended(2))));
    assert_eq!(state.unfiltered_len(), 3);
    assert!(state.try_receive(&mut fetcher).is_none());
    assert_eq!(state.unfiltered_len(), 3);
}

#[test]
fn image_bytes_that_arrive_are_handed_on_for_decoding() {
    let mut state = State::new(7u32, default_options());
    state.mark_for_refresh = false;
    let mut fetcher: Fetcher<u32, ()> = Fetcher::new();
    state.extend_posts(vec![FeedItem {
        title: "t".to_string(),
        author: "a".to_string(),
        subreddit: "s".to_string(),
        url: "u".to_string(),
        selftext: None,
        score: 0,
        num_comments: 0,
    }]);
    let mut dispatches = state.buffer_posts(&mut fetcher);
    assert_eq!(dispatches.len(), 1);
    let worker = dispatches.pop().unwrap();
    worker.sender.send(worker.stamp(Message::ContentReady(Payload::Image(vec![7, 7]), 0))).unwrap();
    assert_eq!(fetcher.outstanding(), 1);
    let applied = state.try_receive(&mut fetcher);
    assert!(matches!(applied, Some(Applied::Decode(_))));
    // One piece of work reported, another one was handed out.
    assert_eq!(fetcher.outstanding(), 1);
    assert!(state.content_cache.pending(0));
}

#[test]
fn counting_back_hands_the_outcome_on() {
    let mut fetcher: Fetcher<u32, ()> = Fetcher::new();
    let first = fetcher.get_content(1);
    let _second = fetcher.get_content(2);
    assert_eq!(fetcher.outstanding(), 2);
    let polled = Some(first.stamp(Message::ContentReady(Payload::Text("t".to_string()), 1)));
    let handed = fetcher.count_done(polled);
    assert!(matches!(handed, Some(Message::ContentReady(Payload::Text(text), 1)) if text == "t"));
    assert_eq!(fetcher.outstanding(), 1);
    assert!(fetcher.count_done(None).is_none());
    assert_eq!(fetcher.outstanding(), 1);
    assert!(fetcher.count_done(Some(first.stamp(Message::UserLoggedIn(())))).is_some());
    assert!(fetcher.count_done(Some(first.stamp(Message::UserLoggedIn(())))).is_some());
    assert_eq!(fetcher.outstanding(), 0);
}

#[test]
fn outcome_of_another_generation_is_dropped_and_not_counted() {
    let mut fetcher: Fetcher<u32, ()> = Fetcher::new();
    let old = fetcher.get_content(1);
    fetcher.reset();
    let _new = fetcher.get_content(2);
    assert!(fetcher.count_done(Some(old.stamp(Message::UserLoggedIn(())))).is_none());
    assert_eq!(fetcher.outstanding(), 1);
    let ahead = Outcome { generation: 7, message: Message::UserLoggedIn(()) };
    assert!(fetcher.count_done(Some(ahead)).is_none());
    assert_eq!(fetcher.outstanding(), 1);
    assert_eq!(fetcher.generation(), 1);
    let now = Outcome { generation: 1, message: Message::UserLoggedIn(()) };
    assert!(fetcher.count_done(Some(now)).is_some());
    assert_eq!(fetcher.outstanding(), 0);
}

#[test]
fn answer_of_the_provider_is_reported_as_content_or_as_failure() {
    let message: Message<u32, ()> = content_message(Ok(Payload::Text("body".to_string())), 4);
    assert!(matches!(message, Message::ContentReady(Payload::Text(text), 4) if text == "body"));
    let message: Message<u32, ()> = content_message(Ok(Payload::Image(vec![1, 2])), 5);
    assert!(matches!(message, Message::ContentReady(Payload::Image(bytes), 5) if bytes == [1, 2]));
    let message: Message<u32, ()> = content_message(Ok(Payload::Html("<p>".to_string())), 6);
    assert!(matches!(message, Message::ContentReady(Payload::Html(_), 6)));
    let message: Message<u32, ()> =
        content_message(Err(Error::RequestError("down".to_string())), 7);
    assert!(matches!(message, Message::Failed(Error::RequestError(reason)) if reason == "down"));
}

#[test]
fn answer_to_a_login_is_reported_as_login_or_as_failure() {
    let message: Message<u32, &str> = login_message(Ok("token"));
    assert!(matches!(message, Message::UserLoggedIn("token")));
    let message: Message<u32, &str> =
        login_message(Err(Error::AuthenticationError("denied".to_string())));
    assert!(
        matches!(message, Message::Failed(Error::AuthenticationError(reason)) if reason == "denied")
    );
}

#[test]
fn failed_fetch_is_counted_back_and_leaves_the_entry_pending() {
    let mut state = State::new(7u32, default_options());
    state.mark_for_refresh = false;
    let mut fetcher: Fetcher<u32, ()> = Fetcher::new();
    state.extend_posts(vec![FeedItem {
        title: "t".to_string(),
        author: "a".to_string(),
        subreddit: "s".to_string(),
        url: "u".to_string(),
        selftext: None,
        score: 0,
        num_comments: 0,
    }]);
    let before = fetcher.outstanding();
    let mut dispatches = state.buffer_posts(&mut fetcher);
    let worker = dispatches.pop().unwrap();
    assert_eq!(fetcher.outstanding(), before + 1);
    let report = content_message(Err(Error::Other("gone".to_string())), 0);
    worker.sender.send(worker.stamp(report)).unwrap();
    let applied = state.try_receive(&mut fetcher);
    assert!(matches!(applied, Some(Applied::Dropped(Error::Other(_)))));
    assert_eq!(fetcher.outstanding(), before);
    assert!(!fetcher.is_working());
    assert!(state.content_cache.pending(0));
    // Nothing is asked for again while the entry is there.
    assert!(state.buffer_posts(&mut fetcher).is_empty());
}

#[test]
fn fetched_content_is_reported_once_and_counted_back() {
    let mut state = State::new(7u32, default_options());
    state.mark_for_refresh = false;
    let mut fetcher: Fetcher<u32, ()> = Fetcher::new();
    state.extend_posts(vec![FeedItem {
        title: "t".to_string(),
        author: "a".to_string(),
        subreddit: "s".to_string(),
        url: "u".to_string(),
        selftext: None,
        score: 0,
        num_comments: 0,
    }]);
    let mut dispatches = state.buffer_posts(&mut fetcher);
    let worker = dispatches.pop().unwrap();
    assert_eq!(fetcher.outstanding(), 1);
    let report = content_message(Ok(Payload::Text("body".to_string())), 0);
    worker.sender.send(worker.stamp(report)).unwrap();
    assert!(matches!(state.try_receive(&mut fetcher), Some(Applied::Resolved(0))));
    assert_eq!(fetcher.outstanding(), 0);
    assert!(state.try_receive(&mut fetcher).is_none());
}
