//! The panes of the reader and the small windows that float above them: what
//! each one remembers between frames.

use vstd::prelude::*;
use vstd::std_specs::iter::IteratorSpec;
use vstd::string::StringExecFns;
use vstd::utf8::encode_utf8;
use crate::content::{FeedItem, PostId};
use crate::store::ViewablePost;
use crate::filter::Filter;
use crate::state::{same_but_filters, State};

verus! {

/// How a pane is shown.
#[derive(Debug, Clone, Copy, PartialEq, Eq, Structural)]
pub enum ComponentMode {
    Snapped,
    Floating,
    Closed,
}

impl ComponentMode {
    /// The mode that follows this one: snapped, floating, closed, and round
    /// again.
    pub open spec fn spec_next(self) -> ComponentMode {
        match self {
            ComponentMode::Snapped => ComponentMode::Floating,
            ComponentMode::Floating => ComponentMode::Closed,
            ComponentMode::Closed => ComponentMode::Snapped,
        }
    }

    /// The mode that follows this one.
    pub fn next(&self) -> (following: ComponentMode)
        ensures
            following == self.spec_next(),
    {
        match self {
            ComponentMode::Snapped => ComponentMode::Floating,
            ComponentMode::Floating => ComponentMode::Closed,
            ComponentMode::Closed => ComponentMode::Snapped,
        }
    }
}

/// Three steps through the modes lead back to where they began.
pub proof fn lemma_mode_cycle(mode: ComponentMode)
    ensures
        mode.spec_next().spec_next().spec_next() == mode,
        mode.spec_next() != mode,
{
}

/// The pane that shows the content of the viewed item.
#[derive(Debug)]
pub struct MainContentComponent {
    pub mode: ComponentMode,
}

impl MainContentComponent {
    /// The main pane, snapped.
    pub fn new() -> (component: MainContentComponent)
        ensures
            component.mode == ComponentMode::Snapped,
    {
        MainContentComponent { mode: ComponentMode::Snapped }
    }

    /// Steps the pane to its next mode.
    pub fn toggle_mode(&mut self)
        ensures
            final(self).mode == old(self).mode.spec_next(),
    {
        self.mode = self.mode.next();
    }
}

/// The pane that lists the items of the feed.
#[derive(Debug)]
pub struct PostFeedComponent {
    /// The position of the highlighted item among the visible ones.
    pub highlighted: PostId,
    /// The position of the viewed item among the visible ones.
    pub viewed: PostId,
    pub mode: ComponentMode,
    /// Whether the list was dragged in the last frame.
    pub just_dragged: bool,
}

impl PostFeedComponent {
    /// The feed pane, snapped and at the first item.
    pub fn new() -> (component: PostFeedComponent)
        ensures
            component.highlighted == 0,
            component.viewed == 0,
            component.mode == ComponentMode::Snapped,
            !component.just_dragged,
    {
        PostFeedComponent {
            highlighted: 0,
            viewed: 0,
            mode: ComponentMode::Snapped,
            just_dragged: false,
        }
    }

    /// Moves both the highlight and the view back to the first item.
    pub fn reset(&mut self)
        ensures
            final(self).viewed == 0,
            final(self).highlighted == 0,
            final(self).mode == old(self).mode,
            final(self).just_dragged == old(self).just_dragged,
    {
        self.viewed = 0;
        self.highlighted = 0;
    }

    /// Steps the pane to its next mode.
    pub fn toggle_mode(&mut self)
        ensures
            final(self).mode == old(self).mode.spec_next(),
            final(self).viewed == old(self).viewed,
            final(self).highlighted == old(self).highlighted,
            final(self).just_dragged == old(self).just_dragged,
    {
        self.mode = self.mode.next();
    }

    /// Views the highlighted item.
    pub fn set_h_equal_v(&mut self)
        ensures
            final(self).viewed == old(self).highlighted,
            final(self).highlighted == old(self).highlighted,
            final(self).mode == old(self).mode,
            final(self).just_dragged == old(self).just_dragged,
    {
        self.viewed = self.highlighted;
    }
}

/// `String::push`: appends one character.
pub assume_specification[ String::push ](text: &mut String, ch: char)
    ensures
        final(text)@ == old(text)@.push(ch),
;

/// Whether a character is shown in the list: the printable characters of ASCII
/// and the space.
pub open spec fn displayable(c: char) -> bool {
    (0x21 <= c as u32 <= 0x7e) || c == ' '
}

/// The first `max` elements of `text`, or all of it where it has no more.
pub open spec fn head(text: Seq<char>, max: nat) -> Seq<char> {
    if text.len() <= max {
        text
    } else {
        text.take(max as int)
    }
}

/// A text as the list shows it: its first `max_chars` displayable characters,
/// followed by three dots where the text takes more than `max_chars` bytes.
pub open spec fn display_string(text: Seq<char>, max_chars: nat) -> Seq<char> {
    let shown = head(text.filter(|c: char| displayable(c)), max_chars);
    if encode_utf8(text).len() > max_chars {
        shown + "..."@
    } else {
        shown
    }
}

impl PostFeedComponent {
    /// The text `text` as the list shows it where there is room for `max_chars`
    /// characters.
    pub fn create_display_string(text: &String, max_chars: usize) -> (shown: String)
        ensures
            shown@ == display_string(text@, max_chars as nat),
    {
        broadcast use vstd::string::group_string_axioms;

        let ghost all = text@;
        let ghost wanted = |c: char| displayable(c);
        let mut new: String = String::new();
        let mut kept: usize = 0;
        let mut chars = text.as_str().chars();
        let ghost mut seen: int = 0;
        proof {
            assert(all.take(0) =~= Seq::<char>::empty());
            reveal(Seq::filter);
            assert(all.skip(0) =~= all);
        }
        loop
            invariant
                chars.obeys_prophetic_iter_laws(),
                chars.decrease() is Some,
                0 <= seen <= all.len(),
                chars.remaining() == all.skip(seen),
                wanted == |c: char| displayable(c),
                kept == new@.len(),
                kept <= max_chars,
                new@ == head(all.take(seen).filter(wanted), max_chars as nat),
                kept < max_chars ==> new@ == all.take(seen).filter(wanted),
            ensures
                new@ == head(all.filter(wanted), max_chars as nat),
            decreases chars.decrease()->0,
        {
            if kept >= max_chars {
                proof {
                    assert(all =~= all.take(seen) + all.skip(seen));
                    Seq::filter_distributes_over_add(all.take(seen), all.skip(seen), wanted);
                    let front = all.take(seen).filter(wanted);
                    let whole = all.filter(wanted);
                    assert(whole == front + all.skip(seen).filter(wanted));
                    assert(new@ =~= head(whole, max_chars as nat));
                }
                break ;
            }
            let ghost before = chars;
            match chars.next() {
                Some(c) => {
                    proof {
                        assert(c == all[seen]);
                        assert(all.take(seen + 1) =~= all.take(seen).push(c));
                        all.take(seen).lemma_filter_push(c, wanted);
                        assert(all.skip(seen).drop_first() =~= all.skip(seen + 1));
                    }
                    let code: u32 = c as u32;
                    if (0x21 <= code && code <= 0x7e) || c == ' ' {
                        new.push(c);
                        kept += 1;
                    }
                    proof {
                        seen = seen + 1;
                    }
                },
                None => {
                    proof {
                        assert(all.skip(seen).len() == 0);
                        assert(all.take(seen) =~= all);
                    }
                    break ;
                },
            }
        }
        if text.as_str().as_bytes().len() > max_chars {
            new.append("...");
        }
        new
    }
}

/// The digits of `number` in base ten, the highest place first.
pub open spec fn digits(number: nat) -> Seq<char>
    decreases number,
{
    let last = ((48 + number % 10) as u8) as char;
    if number < 10 {
        seq![last]
    } else {
        digits(number / 10).push(last)
    }
}

/// A number in decimal digits, with a minus sign in front where it is below
/// zero.
pub open spec fn decimal(number: int) -> Seq<char> {
    if number < 0 {
        seq!['-'] + digits((-number) as nat)
    } else {
        digits(number as nat)
    }
}

/// `i64::to_string`: the number in decimal digits, with a minus sign in front
/// where it is below zero.
#[verifier::external_body]
fn number_text(number: i64) -> (text: String)
    ensures
        text@ == decimal(number as int),
{
    number.to_string()
}

/// The line that tells the score of an item in the list.
pub open spec fn points_line(score: i64) -> Seq<char> {
    decimal(score as int) + " points"@
}

impl PostFeedComponent {
    /// The line that tells the score of an item in the list.
    pub fn points_text(score: i64) -> (line: String)
        ensures
            line@ == points_line(score),
    {
        number_text(score).concat(" points")
    }
}

/// What the summary pane shows while there is no item to sum up.
pub const LOADING: &'static str = "Loading..";

/// What the summary pane says of `item` while `user` is logged in.
pub open spec fn summary_line(item: FeedItem, user: Option<Seq<char>>) -> Seq<char> {
    item.title@ + " by /u/"@ + item.author@ + "\n"@ + decimal(item.score as int)
        + " points\t\t/r/"@ + item.subreddit@ + "\t\t\t\t\t"@ + match user {
        Some(name) => "Logged in as /u/"@ + name,
        None => Seq::<char>::empty(),
    }
}

/// The pane that sums up the viewed item.
#[derive(Debug)]
pub struct PostSummaryComponent {
    pub mode: ComponentMode,
}

impl PostSummaryComponent {
    /// What the pane shows for `post`: its title, author, score and subreddit,
    /// and the name of the user who is logged in; a placeholder where there is
    /// no item.
    pub fn render_summary(post: Option<&ViewablePost>, user: Option<&str>) -> (text: String)
        ensures
            text@ == match post {
                Some(post) => summary_line(
                    post.inner,
                    match user {
                        Some(name) => Some(name@),
                        None => None,
                    },
                ),
                None => LOADING@,
            },
    {
        match post {
            Some(post) => {
                let item = &post.inner;
                let text = item.title.clone();
                let text = text.concat(" by /u/");
                let text = text.concat(item.author.as_str());
                let text = text.concat("\n");
                let text = text.concat(number_text(item.score).as_str());
                let text = text.concat(" points\t\t/r/");
                let text = text.concat(item.subreddit.as_str());
                let text = text.concat("\t\t\t\t\t");
                match user {
                    Some(name) => {
                        let text = text.concat("Logged in as /u/");
                        let text = text.concat(name);
                        proof {
                            assert(text@ =~= summary_line(post.inner, Some(name@)));
                        }
                        text
                    },
                    None => {
                        proof {
                            assert(text@ =~= summary_line(post.inner, None));
                        }
                        text
                    },
                }
            },
            None => String::from_str(LOADING),
        }
    }

    /// The summary pane, snapped.
    pub fn new() -> (component: PostSummaryComponent)
        ensures
            component.mode == ComponentMode::Snapped,
    {
        PostSummaryComponent { mode: ComponentMode::Snapped }
    }

    /// Steps the pane to its next mode.
    pub fn toggle_mode(&mut self)
        ensures
            final(self).mode == old(self).mode.spec_next(),
    {
        self.mode = self.mode.next();
    }
}

/// The kinds of floating window.
#[derive(Debug, Clone, Copy, PartialEq, Eq, Structural)]
pub enum WindowKind {
    Subreddit,
    Filter,
}

/// What a floating window remembers between frames.
#[derive(Debug)]
pub struct WindowState {
    /// Whether the window is open.
    pub open: bool,
    /// Whether the window is to take the keyboard once it is drawn.
    pub request_focus: bool,
}

impl WindowState {
    /// A closed window that takes the keyboard when it opens.
    pub fn new() -> (window: WindowState)
        ensures
            !window.open,
            window.request_focus,
    {
        WindowState { open: false, request_focus: true }
    }

    /// Before the window is drawn: a closed window takes the keyboard when it
    /// opens again.
    pub fn prepare(&mut self)
        ensures
            final(self).open == old(self).open,
            final(self).request_focus == (old(self).request_focus || !old(self).open),
    {
        if !self.open {
            self.request_focus = true;
        }
    }

    /// While the window is drawn: whether it is to take the keyboard now. It is
    /// asked to only once.
    pub fn take_focus_request(&mut self) -> (wanted: bool)
        ensures
            wanted == old(self).request_focus,
            !final(self).request_focus,
            final(self).open == old(self).open,
    {
        let wanted: bool = self.request_focus;
        self.request_focus = false;
        wanted
    }
}

/// What happened to the input of a floating window while it was drawn.
#[derive(Debug, Clone, Copy, PartialEq, Eq, Structural)]
pub struct Interaction {
    /// The input took the keyboard.
    pub gained_focus: bool,
    /// The input gave the keyboard up.
    pub lost_focus: bool,
    /// The enter key was pressed.
    pub enter_pressed: bool,
}

/// The number of panes that hold the keyboard after one more has taken it.
pub open spec fn one_more(count: u32) -> u32 {
    if count < u32::MAX {
        (count + 1) as u32
    } else {
        count
    }
}

/// The number of panes that hold the keyboard after one has given it up.
pub open spec fn one_less(count: u32) -> u32 {
    if count > 0 {
        (count - 1) as u32
    } else {
        count
    }
}

/// The number of panes that hold the keyboard after `interaction`.
pub open spec fn holders_after(count: u32, interaction: Interaction) -> u32 {
    let gained = if interaction.gained_focus {
        one_more(count)
    } else {
        count
    };
    if interaction.lost_focus {
        one_less(gained)
    } else {
        gained
    }
}

/// Counts the panes that hold the keyboard: never below none, never past what
/// the counter can hold.
fn count_holders(count: u32, interaction: Interaction) -> (after: u32)
    ensures
        after == holders_after(count, interaction),
{
    let mut after: u32 = count;
    if interaction.gained_focus && after < u32::MAX {
        after += 1;
    }
    if interaction.lost_focus && after > 0 {
        after -= 1;
    }
    after
}

/// The number under which the filter window keeps its filter.
pub const RENDERABLE_FILTER: u32 = 0;

/// The window in which filters are chosen.
#[derive(Debug)]
pub struct FilterWindow {
    pub window: WindowState,
    /// Whether only renderable items are to be visible.
    pub checked: bool,
}

impl FilterWindow {
    /// The filter window, closed and with its box unchecked.
    pub fn new() -> (window: FilterWindow)
        ensures
            !window.window.open,
            window.window.request_focus,
            !window.checked,
    {
        FilterWindow { window: WindowState::new(), checked: false }
    }

    /// The kind of the window.
    pub fn kind(&self) -> (kind: WindowKind)
        ensures
            kind == WindowKind::Filter,
    {
        WindowKind::Filter
    }

    /// Opens the window if it is closed, and closes it if it is open.
    pub fn toggle_open(&mut self)
        ensures
            final(self).window.open == !old(self).window.open,
            final(self).window.request_focus == old(self).window.request_focus,
            final(self).checked == old(self).checked,
    {
        self.window.open = !self.window.open
    }

    /// After the window was drawn, or was not because it is closed: counts the
    /// keyboard as held or given up, puts the filter in force or lifts it as
    /// the box is checked or not, and closes the window where enter ended the
    /// input.
    pub fn show<F>(&mut self, state: &mut State<F>, interaction: Option<Interaction>)
        ensures
            old(state).wf() ==> final(state).wf(),
            same_but_filters(
                *final(state),
                State {
                    num_request_disable_binds: match interaction {
                        Some(seen) => holders_after(old(state).num_request_disable_binds, seen),
                        None => old(state).num_request_disable_binds,
                    },
                    ..*old(state)
                },
            ),
            final(state).active_filters@ == if old(self).checked {
                old(state).active_filters@.insert(RENDERABLE_FILTER, Filter::OnlyRenderable)
            } else {
                old(state).active_filters@.remove(RENDERABLE_FILTER)
            },
            final(self).checked == old(self).checked,
            final(self).window.request_focus == old(self).window.request_focus,
            final(self).window.open == (old(self).window.open && !(interaction matches Some(seen)
                && seen.lost_focus && seen.enter_pressed)),
    {
        let mut should_close: bool = false;
        match interaction {
            Some(seen) => {
                state.num_request_disable_binds = count_holders(
                    state.num_request_disable_binds,
                    seen,
                );
                if seen.lost_focus && seen.enter_pressed {
                    should_close = true;
                }
            },
            None => {},
        }
        if self.checked {
            state.active_filters.insert(RENDERABLE_FILTER, Filter::OnlyRenderable);
        } else {
            state.active_filters.remove(RENDERABLE_FILTER);
        }
        if should_close {
            self.window.open = false;
        }
    }
}

/// The window that asks for a subreddit to go to.
#[derive(Debug)]
pub struct SubredditWindow {
    pub window: WindowState,
    /// What has been typed so far.
    pub text: Option<String>,
}

impl SubredditWindow {
    /// The subreddit window, closed and with nothing typed.
    pub fn new() -> (window: SubredditWindow)
        ensures
            !window.window.open,
            window.window.request_focus,
            window.text is None,
    {
        SubredditWindow { window: WindowState::new(), text: None }
    }

    /// The kind of the window.
    pub fn kind(&self) -> (kind: WindowKind)
        ensures
            kind == WindowKind::Subreddit,
    {
        WindowKind::Subreddit
    }

    /// Opens the window if it is closed, and closes it if it is open.
    pub fn toggle_open(&mut self)
        ensures
            final(self).window.open == !old(self).window.open,
            final(self).window.request_focus == old(self).window.request_focus,
            final(self).text == old(self).text,
    {
        self.window.open = !self.window.open
    }

    /// Before the window is drawn: a closed window forgets what was typed and
    /// takes the keyboard when it opens again.
    pub fn prepare(&mut self)
        ensures
            final(self).window.open == old(self).window.open,
            final(self).window.request_focus == (old(self).window.request_focus
                || !old(self).window.open),
            final(self).text == if old(self).window.open {
                old(self).text
            } else {
                None
            },
    {
        if !self.window.open {
            self.window.request_focus = true;
            self.text = None;
        }
    }

    /// After the window was drawn with `text` in its input, or was not because
    /// it is closed: counts the keyboard as held or given up and keeps what was
    /// typed. Where enter ended the input, the window closes, forgets the text
    /// and hands it back: it names the subreddit to go to.
    pub fn show<F>(
        &mut self,
        state: &mut State<F>,
        drawn: Option<(Interaction, String)>,
    ) -> (chosen: Option<String>)
        ensures
            *final(state) == (State {
                num_request_disable_binds: match drawn {
                    Some((seen, _)) => holders_after(old(state).num_request_disable_binds, seen),
                    None => old(state).num_request_disable_binds,
                },
                ..*old(state)
            }),
            match drawn {
                Some((seen, text)) => if seen.lost_focus && seen.enter_pressed {
                    &&& chosen == Some(text)
                    &&& final(self).text is None
                    &&& !final(self).window.open
                } else {
                    &&& chosen is None
                    &&& final(self).text == Some(text)
                    &&& final(self).window.open == old(self).window.open
                },
                None => {
                    &&& chosen is None
                    &&& final(self).text == old(self).text
                    &&& final(self).window.open == old(self).window.open
                },
            },
            final(self).window.request_focus == old(self).window.request_focus,
    {
        match drawn {
            Some((seen, text)) => {
                state.num_request_disable_binds = count_holders(
                    state.num_request_disable_binds,
                    seen,
                );
                if seen.lost_focus && seen.enter_pressed {
                    self.text = None;
                    self.window.open = false;
                    Some(text)
                } else {
                    self.text = Some(text);
                    None
                }
            },
            None => None,
        }
    }
}

/// The floating windows.
#[derive(Debug)]
pub struct Windows {
    pub subreddit: SubredditWindow,
    pub filter: FilterWindow,
}

impl Windows {
    /// Both windows, closed.
    pub fn new() -> (windows: Windows)
        ensures
            !windows.subreddit.window.open,
            !windows.filter.window.open,
            windows.subreddit.window.request_focus,
            windows.filter.window.request_focus,
            windows.subreddit.text is None,
            !windows.filter.checked,
    {
        Windows { subreddit: SubredditWindow::new(), filter: FilterWindow::new() }
    }

    /// Opens the window of the kind `kind` if it is closed, and closes it if it
    /// is open.
    pub fn open(&mut self, kind: WindowKind)
        ensures
            final(self).subreddit.window.open == (old(self).subreddit.window.open != (kind
                == WindowKind::Subreddit)),
            final(self).filter.window.open == (old(self).filter.window.open != (kind
                == WindowKind::Filter)),
            final(self).subreddit.window.request_focus == old(self).subreddit.window.request_focus,
            final(self).filter.window.request_focus == old(self).filter.window.request_focus,
            final(self).subreddit.text == old(self).subreddit.text,
            final(self).filter.checked == old(self).filter.checked,
    {
        match kind {
            WindowKind::Subreddit => self.subreddit.toggle_open(),
            WindowKind::Filter => self.filter.toggle_open(),
        }
    }
}

} // verus!
