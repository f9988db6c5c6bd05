use std::collections::HashMap;
use snui::components::ComponentMode;
use snui::config::{FileConfig, Options};
use snui::content::FeedItem;
use snui::fetch::{Message, Task};
use snui::reader::{Request, SnuiApp, NEAR_END};
use snui::state::Applied;
use snui::window::Ratio;
use snui::Action;

fn options(immediate: bool) -> Options {
    Options::from(FileConfig {
        binds: HashMap::new(),
        immediate_posts: Some(immediate),
        show_title_bars: None,
        buffer_amount: Some(4),
        buffer_ratio: Some(Ratio::from_thousandths(500)),
    })
}

fn items(count: usize) -> Vec<FeedItem> {
    (0..count)
        .map(|i| FeedItem {
            title: format!("post {}", i),
            author: "a".to_string(),
            subreddit: "s".to_string(),
            url: "u".to_string(),
            selftext: None,
            score: 0,
            num_comments: 0,
        })
        .collect()
}

fn reader(count: usize) -> SnuiApp<u32, ()> {
    let mut reader = SnuiApp::new(7u32, options(false));
    reader.state.extend_posts(items(count));
    reader
}

#[test]
fn page_of_a_replaced_feed_is_not_merged() {
    let mut reader: SnuiApp<u32, ()> = SnuiApp::new(7u32, options(false));
    let mut frame = reader.update();
    let worker = frame.dispatches.pop().unwrap();
    // The feed is replaced before the page of the old one arrives.
    reader.state.reset_feed(9);
    worker.sender.send(worker.stamp(Message::PostsReady(items(15), 8))).unwrap();
    assert!(matches!(reader.try_receive(), Some(Applied::Superseded)));
    assert_eq!(reader.state.feed, Some(9));
    assert_eq!(reader.state.unfiltered_len(), 0);
    assert!(reader.state.mark_for_refresh);
    let frame = reader.update();
    assert_eq!(tasks(&frame.dispatches), vec!["pull 9"]);
}

fn tasks(dispatches: &[snui::fetch::Dispatch<u32, ()>]) -> Vec<String> {
    dispatches
        .iter()
        .map(|d| match &d.task {
            Task::PullPage(feed) => format!("pull {}", feed),
            Task::ResolveContent(id) => format!("content {}", id),
            Task::DecodeImage(_, id) => format!("decode {}", id),
            Task::Login => "login".to_string(),
        })
        .collect()
}

#[test]
fn first_frame_pulls_the_first_page() {
    let mut reader: SnuiApp<u32, ()> = SnuiApp::new(7u32, options(false));
    let frame = reader.update();
    assert_eq!(tasks(&frame.dispatches), vec!["pull 7"]);
    assert!(frame.repaint);
    assert!(!reader.state.mark_for_refresh);
    assert_eq!(reader.state.feed, None);
    assert_eq!(reader.fetcher.outstanding(), 1);
    // Nothing more to do until the page arrives.
    let frame = reader.update();
    assert!(frame.dispatches.is_empty());
    assert!(frame.repaint);
}

#[test]
fn frame_after_the_page_asks_for_content() {
    let mut reader: SnuiApp<u32, ()> = SnuiApp::new(7u32, options(false));
    let mut frame = reader.update();
    let worker = frame.dispatches.pop().unwrap();
    worker.sender.send(worker.stamp(Message::PostsReady(items(15), 8))).unwrap();
    assert!(matches!(reader.try_receive(), Some(Applied::Extended(15))));
    assert_eq!(reader.fetcher.outstanding(), 0);
    let frame = reader.update();
    // Two items behind the first do not exist; two ahead do.
    assert_eq!(tasks(&frame.dispatches), vec!["content 0", "content 1"]);
    assert!(frame.repaint);
    let frame = reader.update();
    assert!(frame.dispatches.is_empty());
    assert!(reader.try_receive().is_none());
}

#[test]
fn frame_without_work_asks_for_no_repaint() {
    let mut reader = reader(0);
    reader.state.mark_for_refresh = false;
    let frame = reader.update();
    assert!(frame.dispatches.is_empty());
    assert!(!frame.repaint);
}

#[test]
fn refresh_turns_away_from_work_under_way() {
    let mut reader = reader(10);
    reader.state.mark_for_refresh = false;
    let frame = reader.update();
    assert_eq!(frame.dispatches.len(), 2);
    reader.state.reset_feed(9);
    let frame2 = reader.update();
    assert_eq!(tasks(&frame2.dispatches), vec!["pull 9"]);
    assert_eq!(reader.fetcher.outstanding(), 1);
    // What the old workers report is never merged.
    let old = &frame.dispatches[0];
    let _ = old.sender.send(old.stamp(Message::PostsReady(items(3), 1)));
    let new = &frame2.dispatches[0];
    assert_eq!((old.generation, new.generation), (0, 1));
    new.sender.send(old.stamp(Message::PostsReady(items(3), 1))).unwrap();
    assert!(reader.try_receive().is_none());
    assert_eq!(reader.state.unfiltered_len(), 0);
}

#[test]
fn refresh_without_a_feed_pulls_nothing() {
    let mut reader = reader(0);
    reader.state.feed = None;
    let frame = reader.update();
    assert!(frame.dispatches.is_empty());
    assert!(!frame.repaint);
    assert!(!reader.state.mark_for_refresh);
}

#[test]
fn immediate_posts_view_the_highlight_at_the_end_of_the_frame() {
    let mut reader: SnuiApp<u32, ()> = SnuiApp::new(7u32, options(true));
    reader.state.extend_posts(items(20));
    reader.state.mark_for_refresh = false;
    reader.state.feed_component.highlighted = 10;
    let frame = reader.update();
    // The window was still taken around the item viewed before.
    assert_eq!(tasks(&frame.dispatches), vec!["content 0", "content 1"]);
    assert_eq!(reader.state.feed_component.viewed, 10);
    let frame = reader.update();
    assert_eq!(
        tasks(&frame.dispatches),
        vec!["content 8", "content 9", "content 10", "content 11"]
    );
}

#[test]
fn step_down_moves_the_highlight_not_past_the_last_item() {
    let mut reader = reader(30);
    reader.state.feed = None;
    let handled = reader.handle_action(Action::PostDown);
    assert!(handled.has_moved);
    assert!(matches!(handled.request, Request::Nothing));
    assert_eq!(reader.state.feed_component.highlighted, 1);
    reader.state.feed_component.highlighted = 29;
    reader.handle_action(Action::PostDown);
    assert_eq!(reader.state.feed_component.highlighted, 29);
    reader.state.feed_component.highlighted = 500;
    reader.handle_action(Action::PostDown);
    assert_eq!(reader.state.feed_component.highlighted, 29);
    reader.state.feed_component.highlighted = usize::MAX;
    reader.handle_action(Action::PostDown);
    assert_eq!(reader.state.feed_component.highlighted, 29);
}

#[test]
fn step_down_in_an_empty_store_stays_at_the_start() {
    let mut reader = reader(0);
    reader.state.feed = None;
    let handled = reader.handle_action(Action::PostDown);
    assert!(handled.has_moved);
    assert_eq!(reader.state.feed_component.highlighted, 0);
}

#[test]
fn step_down_near_the_end_pulls_the_next_page() {
    let mut reader = reader(30);
    assert_eq!(NEAR_END, 10);
    reader.state.feed_component.highlighted = 18;
    let handled = reader.handle_action(Action::PostDown);
    assert!(matches!(handled.request, Request::Nothing));
    assert_eq!(reader.state.feed, Some(7));
    let handled = reader.handle_action(Action::PostDown);
    assert_eq!(reader.state.feed_component.highlighted, 20);
    match handled.request {
        Request::Work(dispatch) => assert!(matches!(dispatch.task, Task::PullPage(7))),
        _ => panic!("no pull"),
    }
    assert_eq!(reader.state.feed, None);
    assert_eq!(reader.fetcher.outstanding(), 1);
    // While the pull is under way no second one starts.
    let handled = reader.handle_action(Action::PostDown);
    assert!(matches!(handled.request, Request::Nothing));
    assert_eq!(reader.fetcher.outstanding(), 1);
}

#[test]
fn step_up_moves_the_highlight_not_past_the_first_item() {
    let mut reader = reader(30);
    reader.state.feed_component.highlighted = 2;
    assert!(reader.handle_action(Action::PostUp).has_moved);
    assert_eq!(reader.state.feed_component.highlighted, 1);
    reader.handle_action(Action::PostUp);
    reader.handle_action(Action::PostUp);
    assert_eq!(reader.state.feed_component.highlighted, 0);
    assert_eq!(reader.state.feed, Some(7));
}

#[test]
fn opening_views_the_highlight_unless_items_are_viewed_at_once() {
    let mut reader = reader(30);
    reader.state.feed_component.highlighted = 12;
    let handled = reader.handle_action(Action::OpenPost);
    assert!(!handled.has_moved);
    assert_eq!(reader.state.feed_component.viewed, 12);
    let mut reader: SnuiApp<u32, ()> = SnuiApp::new(7u32, options(true));
    reader.state.feed_component.highlighted = 12;
    reader.handle_action(Action::OpenPost);
    assert_eq!(reader.state.feed_component.viewed, 0);
}

#[test]
fn other_actions_do_their_one_thing() {
    let mut reader = reader(5);
    let handled = reader.handle_action(Action::Login);
    assert!(!handled.has_moved);
    match handled.request {
        Request::Work(dispatch) => assert!(matches!(dispatch.task, Task::Login)),
        _ => panic!("no login"),
    }
    assert_eq!(reader.fetcher.outstanding(), 1);
    reader.handle_action(Action::TogglePostFeedMode);
    assert_eq!(reader.state.feed_component.mode, ComponentMode::Floating);
    reader.handle_action(Action::ToggleMainContentMode);
    reader.handle_action(Action::ToggleMainContentMode);
    assert_eq!(reader.state.main_component.mode, ComponentMode::Closed);
    reader.handle_action(Action::OpenSubredditWindow);
    assert!(reader.windows.subreddit.window.open);
    assert!(!reader.windows.filter.window.open);
    reader.handle_action(Action::OpenSubredditWindow);
    assert!(!reader.windows.subreddit.window.open);
    reader.state.mark_for_refresh = false;
    let handled = reader.handle_action(Action::Frontpage);
    assert!(matches!(handled.request, Request::Frontpage));
    assert!(reader.state.mark_for_refresh);
    assert_eq!(reader.state.unfiltered_len(), 5);
}

#[test]
fn more_posts_are_pulled_only_near_the_end() {
    let mut reader = reader(30);
    reader.state.feed_component.highlighted = 19;
    assert!(reader.conditional_get_more_posts().is_none());
    reader.state.feed_component.highlighted = 20;
    assert!(reader.conditional_get_more_posts().is_some());
    assert!(reader.get_more_posts().is_none());
    reader.state.feed = Some(3);
    assert!(matches!(reader.get_more_posts().map(|d| d.task), Some(Task::PullPage(3))));
    let mut few = self::reader(4);
    assert!(few.conditional_get_more_posts().is_some());
}
