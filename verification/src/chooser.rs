//! The selector engine: a list of options, a highlighted index, and the
//! key-by-key state machine that moves it.
//!
//! Every transition is a pure step from the current index and one key to
//! the next index plus a reaction; the terminal loop around the engine only
//! performs the reaction.  The rendered frame and the redraw and cleanup
//! strings are computed here too, so their exact contents are part of the
//! contracts.

use vstd::prelude::*;

use crate::ansi::clear_after;
use crate::ansi::clear_after_seq;
use crate::ansi::cursor_up;
use crate::ansi::cursor_up_seq;
use crate::ansi::green_fg;
use crate::ansi::green_fg_seq;
use crate::ansi::reset_fg;
use crate::ansi::reset_fg_seq;
use crate::text::lemma_lines_rows_nonneg;
use crate::text::spec_lines;
use crate::text::spec_str_height;
use crate::text::str_eq;
use crate::text::str_height_checked;
use vstd::string::StringExecFns;

verus! {

/// A decoded key event, as far as the picker distinguishes them.
#[derive(Clone, Copy, Debug, PartialEq, Eq)]
pub enum Key {
    /// The up arrow.
    Up,
    /// The down arrow.
    Down,
    /// A printable character.
    Char(char),
    /// A control-key combination.
    Ctrl(char),
    /// The escape key.
    Esc,
    /// Any other key; the picker ignores it.
    Other,
}

/// What one key did to the picker.
#[derive(Clone, Copy, Debug, PartialEq, Eq)]
pub enum Step {
    /// Nothing changed; keep waiting.
    Stay,
    /// The highlighted index moved; the list must be redrawn.
    Moved,
    /// The current option was confirmed.
    Confirmed,
    /// The interaction was cancelled.
    Cancelled,
}

/// Keys that move the highlight up.
pub open spec fn is_up_key(k: Key) -> bool {
    k == Key::Up || k == Key::Char('k')
}

/// Keys that move the highlight down.
pub open spec fn is_down_key(k: Key) -> bool {
    k == Key::Down || k == Key::Char('j')
}

/// Keys that confirm the current option.
pub open spec fn is_confirm_key(k: Key) -> bool {
    k == Key::Char(' ') || k == Key::Char('\n')
}

/// Keys that cancel the interaction.
pub open spec fn is_cancel_key(k: Key) -> bool {
    k == Key::Esc || k == Key::Char('q') || k == Key::Ctrl('c')
}

/// The index after one key: up and down move by one but stop at the ends;
/// every other key leaves the index alone.
pub open spec fn next_index(i: int, n: int, k: Key) -> int {
    if is_up_key(k) && i > 0 {
        i - 1
    } else if is_down_key(k) && i + 1 < n {
        i + 1
    } else {
        i
    }
}

/// The reaction to one key at index `i` of `n` options.
pub open spec fn spec_step(i: int, n: int, k: Key) -> Step {
    if is_confirm_key(k) {
        Step::Confirmed
    } else if is_cancel_key(k) {
        Step::Cancelled
    } else if next_index(i, n, k) != i {
        Step::Moved
    } else {
        Step::Stay
    }
}

/// The index selected by a key sequence starting at index `i` of `n`
/// options: `Some` of the index current when the first confirming key
/// arrives, `None` when a cancelling key comes first or the keys run out.
pub open spec fn spec_select(i: int, n: int, keys: Seq<Key>) -> Option<int>
    decreases keys.len(),
{
    if keys.len() == 0 {
        None
    } else if is_confirm_key(keys[0]) {
        Some(i)
    } else if is_cancel_key(keys[0]) {
        None
    } else {
        spec_select(next_index(i, n, keys[0]), n, keys.skip(1))
    }
}

/// The position of the first option equal to `v`, if any.
pub open spec fn first_index_of(cs: Seq<Seq<char>>, v: Seq<char>) -> Option<int>
    decreases cs.len(),
{
    if cs.len() == 0 {
        None
    } else if cs[0] == v {
        Some(0)
    } else {
        match first_index_of(cs.skip(1), v) {
            Some(j) => Some(j + 1),
            None => None,
        }
    }
}

pub proof fn lemma_first_index_of_found(cs: Seq<Seq<char>>, v: Seq<char>, i: int)
    requires
        0 <= i < cs.len(),
        cs[i] == v,
        forall|j: int| 0 <= j < i ==> cs[j] != v,
    ensures
        first_index_of(cs, v) == Some(i),
    decreases i,
{
    if i > 0 {
        lemma_first_index_of_found(cs.skip(1), v, i - 1);
    }
}

pub proof fn lemma_first_index_of_none(cs: Seq<Seq<char>>, v: Seq<char>)
    requires
        forall|j: int| 0 <= j < cs.len() ==> cs[j] != v,
    ensures
        first_index_of(cs, v) is None,
    decreases cs.len(),
{
    if cs.len() > 0 {
        lemma_first_index_of_none(cs.skip(1), v);
    }
}

/// One rendered line of the option list: the selected option carries the
/// `"> "` marker in green, the others an aligning two-space prefix; every
/// line ends with an explicit carriage return and line feed, as raw mode
/// demands.
pub open spec fn spec_frame_line(c: Seq<char>, selected: bool) -> Seq<char> {
    if selected {
        green_fg_seq() + "> "@ + c + reset_fg_seq() + "\r\n"@
    } else {
        "  "@ + c + "\r\n"@
    }
}

/// The rendered option list from position `i` on, with `cur` highlighted.
pub open spec fn spec_frame_from(choices: Seq<Seq<char>>, cur: int, i: int) -> Seq<char>
    decreases choices.len() - i,
{
    if i < 0 || i >= choices.len() {
        Seq::empty()
    } else {
        spec_frame_line(choices[i], i == cur) + spec_frame_from(choices, cur, i + 1)
    }
}

/// The whole rendered option list, with `cur` highlighted.
pub open spec fn spec_frame(choices: Seq<Seq<char>>, cur: int) -> Seq<char> {
    spec_frame_from(choices, cur, 0)
}

/// The rows the rendered option list occupies: the sum of each option
/// text's own height.  The redraw distance counts the option texts alone;
/// the two-column marker prefix is not part of the geometry.
pub open spec fn spec_choices_height(cs: Seq<Seq<char>>, width: int) -> int
    decreases cs.len(),
{
    if cs.len() == 0 {
        0
    } else {
        spec_str_height(cs[0], width) + spec_choices_height(cs.skip(1), width)
    }
}

/// The rows of the whole interaction: the prompt plus the option list.
pub open spec fn spec_total_height(prompt: Seq<char>, cs: Seq<Seq<char>>, width: int) -> int {
    spec_str_height(prompt, width) + spec_choices_height(cs, width)
}

pub proof fn lemma_choices_height_nonneg(cs: Seq<Seq<char>>, width: int)
    requires
        width >= 1,
    ensures
        spec_choices_height(cs, width) >= 0,
    decreases cs.len(),
{
    if cs.len() > 0 {
        lemma_lines_rows_nonneg(spec_lines(cs[0]), width);
        lemma_choices_height_nonneg(cs.skip(1), width);
    }
}

pub proof fn lemma_choices_height_push(cs: Seq<Seq<char>>, x: Seq<char>, width: int)
    ensures
        spec_choices_height(cs.push(x), width) == spec_choices_height(cs, width)
            + spec_str_height(x, width),
    decreases cs.len(),
{
    if cs.len() == 0 {
        assert(cs.push(x)[0] == x);
        assert(cs.push(x).skip(1) =~= Seq::<Seq<char>>::empty());
        assert(spec_choices_height(Seq::<Seq<char>>::empty(), width) == 0);
        assert(spec_choices_height(cs.push(x), width) == spec_str_height(x, width));
    } else {
        assert(cs.push(x)[0] == cs[0]);
        assert(cs.push(x).skip(1) =~= cs.skip(1).push(x));
        lemma_choices_height_push(cs.skip(1), x, width);
        assert(spec_choices_height(cs.push(x), width) == spec_str_height(cs[0], width)
            + spec_choices_height(cs.skip(1).push(x), width));
    }
}

pub proof fn lemma_choices_height_split(cs: Seq<Seq<char>>, i: int, width: int)
    requires
        0 <= i <= cs.len(),
    ensures
        spec_choices_height(cs, width) == spec_choices_height(cs.take(i), width)
            + spec_choices_height(cs.skip(i), width),
    decreases i,
{
    if i == 0 {
        assert(cs.take(0) =~= Seq::<Seq<char>>::empty());
        assert(cs.skip(0) =~= cs);
    } else {
        lemma_choices_height_split(cs.skip(1), i - 1, width);
        assert(cs.take(i)[0] == cs[0]);
        assert(cs.take(i).skip(1) =~= cs.skip(1).take(i - 1));
        assert(cs.skip(i) =~= cs.skip(1).skip(i - 1));
    }
}

/// Renders one line of the option list.
fn frame_line(choice: &String, selected: bool) -> (r: String)
    ensures
        r@ == spec_frame_line(choice@, selected),
{
    let mut s = String::new();
    if selected {
        let g = green_fg();
        s.append(g.as_str());
        s.append("> ");
        s.append(choice.as_str());
        let rf = reset_fg();
        s.append(rf.as_str());
        s.append("\r\n");
    } else {
        s.append("  ");
        s.append(choice.as_str());
        s.append("\r\n");
    }
    proof {
        assert(s@ =~= spec_frame_line(choice@, selected));
    }
    s
}

/// A single-selection picker: a prompt, the ordered options, the
/// highlighted index, and whether to erase everything at the end.
pub struct Chooser {
    /// Erase the prompt and the list once the interaction ends.
    pub vanish: bool,
    /// Text shown once above the list.
    pub prompt: String,
    /// The options, in order; position is identity.
    pub choices: Vec<String>,
    /// The highlighted index.
    pub current_choice: usize,
}

impl Chooser {
    /// The picker is presentable: it has at least one option and the
    /// highlighted index points at one of them.
    pub open spec fn wf(&self) -> bool {
        self.choices.len() >= 1 && self.current_choice < self.choices.len()
    }

    /// A picker over the given options, highlighting the first, with a
    /// default prompt, that erases itself when done.
    pub fn new(options: &[String]) -> (r: Chooser)
        ensures
            r.vanish == true,
            r.prompt@ == "Choose one:"@,
            r.choices@ == options@,
            r.current_choice == 0,
    {
        let mut choices: Vec<String> = Vec::new();
        let mut i: usize = 0;
        while i < options.len()
            invariant
                i <= options.len(),
                choices@ == options@.take(i as int),
            decreases options.len() - i,
        {
            choices.push(options[i].clone());
            i = i + 1;
            proof {
                assert(choices@ =~= options@.take(i as int));
            }
        }
        proof {
            assert(options@.take(i as int) =~= options@);
        }
        Chooser { vanish: true, prompt: "Choose one:".to_owned(), choices, current_choice: 0 }
    }

    /// Moves the highlight to the first option whose text equals `val` and
    /// reports whether one was found; without a match nothing changes.
    pub fn set_choice(&mut self, val: &str) -> (r: bool)
        ensures
            final(self).vanish == old(self).vanish,
            final(self).prompt == old(self).prompt,
            final(self).choices == old(self).choices,
            match first_index_of(old(self).choices.deep_view(), val@) {
                Some(j) => r == true && final(self).current_choice == j,
                None => r == false && final(self).current_choice == old(self).current_choice,
            },
    {
        let ghost cs = self.choices.deep_view();
        let mut i: usize = 0;
        while i < self.choices.len()
            invariant
                i <= self.choices.len(),
                *self == *old(self),
                cs == self.choices.deep_view(),
                forall|j: int| 0 <= j < i ==> cs[j] != val@,
            decreases self.choices.len() - i,
        {
            proof {
                assert(cs[i as int] == self.choices@[i as int]@);
            }
            if str_eq(self.choices[i].as_str(), val) {
                self.current_choice = i;
                proof {
                    lemma_first_index_of_found(cs, val@, i as int);
                }
                return true;
            }
            i = i + 1;
        }
        proof {
            lemma_first_index_of_none(cs, val@);
        }
        false
    }

    /// Applies one key: up and down move the highlight one step but stop at
    /// the ends, space and enter confirm, escape, `q` and control-C cancel,
    /// anything else is ignored.  The options themselves never change.
    pub fn handle_key(&mut self, k: Key) -> (r: Step)
        requires
            old(self).wf(),
        ensures
            final(self).wf(),
            final(self).vanish == old(self).vanish,
            final(self).prompt == old(self).prompt,
            final(self).choices == old(self).choices,
            final(self).current_choice as int == next_index(
                old(self).current_choice as int,
                old(self).choices.len() as int,
                k,
            ),
            r == spec_step(old(self).current_choice as int, old(self).choices.len() as int, k),
    {
        match k {
            Key::Up => {
                if self.current_choice > 0 {
                    self.current_choice = self.current_choice - 1;
                    Step::Moved
                } else {
                    Step::Stay
                }
            },
            Key::Down => {
                if self.current_choice < self.choices.len() - 1 {
                    self.current_choice = self.current_choice + 1;
                    Step::Moved
                } else {
                    Step::Stay
                }
            },
            Key::Char(c) => {
                if c == 'k' {
                    if self.current_choice > 0 {
                        self.current_choice = self.current_choice - 1;
                        Step::Moved
                    } else {
                        Step::Stay
                    }
                } else if c == 'j' {
                    if self.current_choice < self.choices.len() - 1 {
                        self.current_choice = self.current_choice + 1;
                        Step::Moved
                    } else {
                        Step::Stay
                    }
                } else if c == ' ' || c == '\n' {
                    Step::Confirmed
                } else if c == 'q' {
                    Step::Cancelled
                } else {
                    Step::Stay
                }
            },
            Key::Ctrl(c) => {
                if c == 'c' {
                    Step::Cancelled
                } else {
                    Step::Stay
                }
            },
            Key::Esc => Step::Cancelled,
            Key::Other => Step::Stay,
        }
    }

    /// The full rendered option list, one line per option, the current one
    /// marked and colored.
    pub fn choice_str(&self) -> (r: String)
        ensures
            r@ == spec_frame(self.choices.deep_view(), self.current_choice as int),
    {
        let ghost cs = self.choices.deep_view();
        let ghost cur = self.current_choice as int;
        let mut s = String::new();
        let mut i: usize = 0;
        proof {
            assert(s@ + spec_frame_from(cs, cur, 0) =~= spec_frame_from(cs, cur, 0));
        }
        while i < self.choices.len()
            invariant
                i <= self.choices.len(),
                cs == self.choices.deep_view(),
                cur == self.current_choice as int,
                s@ + spec_frame_from(cs, cur, i as int) == spec_frame(cs, cur),
            decreases self.choices.len() - i,
        {
            proof {
                assert(cs[i as int] == self.choices@[i as int]@);
            }
            let line = frame_line(&self.choices[i], i == self.current_choice);
            let ghost prev = s@;
            s.append(line.as_str());
            proof {
                assert(s@ + spec_frame_from(cs, cur, i as int + 1) =~= prev + spec_frame_from(
                    cs,
                    cur,
                    i as int,
                ));
            }
            i = i + 1;
        }
        proof {
            assert(s@ + spec_frame_from(cs, cur, i as int) =~= s@);
        }
        s
    }

    /// The rows the option list currently occupies at the given terminal
    /// width, or `None` when the count does not fit in a `u16`.
    pub fn choice_height(&self, terminal_width: u16) -> (r: Option<u16>)
        requires
            terminal_width >= 1,
        ensures
            match r {
                Some(h) => h as int == spec_choices_height(
                    self.choices.deep_view(),
                    terminal_width as int,
                ),
                None => spec_choices_height(self.choices.deep_view(), terminal_width as int)
                    > u16::MAX,
            },
    {
        let ghost cs = self.choices.deep_view();
        let ghost w = terminal_width as int;
        let mut acc: u16 = 0;
        let mut i: usize = 0;
        while i < self.choices.len()
            invariant
                terminal_width >= 1,
                i <= self.choices.len(),
                cs == self.choices.deep_view(),
                w == terminal_width as int,
                acc as int == spec_choices_height(cs.take(i as int), w),
            decreases self.choices.len() - i,
        {
            proof {
                assert(cs[i as int] == self.choices@[i as int]@);
                lemma_choices_height_split(cs, i as int, w);
                lemma_choices_height_nonneg(cs.skip(i as int + 1), w);
                assert(cs.skip(i as int)[0] == cs[i as int]);
                assert(cs.skip(i as int).skip(1) =~= cs.skip(i as int + 1));
            }
            match str_height_checked(self.choices[i].as_str(), terminal_width) {
                None => {
                    return None;
                },
                Some(h) => {
                    if h > u16::MAX - acc {
                        return None;
                    }
                    acc = acc + h;
                },
            }
            i = i + 1;
            proof {
                assert(cs.take(i as int) =~= cs.take(i as int - 1).push(cs[i as int - 1]));
                lemma_choices_height_push(cs.take(i as int - 1), cs[i as int - 1], w);
            }
        }
        proof {
            assert(cs.take(i as int) =~= cs);
        }
        Some(acc)
    }

    /// The rows the whole interaction occupies — the prompt plus the option
    /// list — or `None` when the count does not fit in a `u16`.
    pub fn height(&self, terminal_width: u16) -> (r: Option<u16>)
        requires
            terminal_width >= 1,
        ensures
            match r {
                Some(h) => h as int == spec_total_height(
                    self.prompt@,
                    self.choices.deep_view(),
                    terminal_width as int,
                ),
                None => spec_total_height(
                    self.prompt@,
                    self.choices.deep_view(),
                    terminal_width as int,
                ) > u16::MAX,
            },
    {
        match str_height_checked(self.prompt.as_str(), terminal_width) {
            None => {
                proof {
                    lemma_choices_height_nonneg(self.choices.deep_view(), terminal_width as int);
                }
                None
            },
            Some(ph) => match self.choice_height(terminal_width) {
                None => {
                    proof {
                        lemma_lines_rows_nonneg(spec_lines(self.prompt@), terminal_width as int);
                    }
                    None
                },
                Some(ch) => {
                    if ch > u16::MAX - ph {
                        None
                    } else {
                        Some(ph + ch)
                    }
                },
            },
        }
    }

    /// The prompt line as first written: a carriage return, the prompt
    /// text, a line feed.
    pub fn prompt_line(&self) -> (r: String)
        ensures
            r@ == "\r"@ + self.prompt@ + "\n"@,
    {
        let mut s = "\r".to_owned();
        s.append(self.prompt.as_str());
        s.append("\n");
        s
    }

    /// What a navigation step writes: return to the first column, move up
    /// over the rows the list occupied, and draw the list again in place.
    /// `None` when the list's row count does not fit in a `u16`.
    pub fn redraw_str(&self, terminal_width: u16) -> (r: Option<String>)
        requires
            terminal_width >= 1,
        ensures
            match r {
                Some(s) => s@ == "\r"@ + cursor_up_seq(
                    spec_choices_height(self.choices.deep_view(), terminal_width as int),
                ) + spec_frame(self.choices.deep_view(), self.current_choice as int),
                None => spec_choices_height(self.choices.deep_view(), terminal_width as int)
                    > u16::MAX,
            },
    {
        match self.choice_height(terminal_width) {
            None => None,
            Some(h) => {
                let mut s = "\r".to_owned();
                let up = cursor_up(h);
                s.append(up.as_str());
                let frame = self.choice_str();
                s.append(frame.as_str());
                Some(s)
            },
        }
    }

    /// What the end of the interaction writes: with the vanish flag, a
    /// carriage return, a move up over everything drawn, and a
    /// clear-to-end-of-screen, so the cursor ends where the prompt began
    /// and no trace remains; without it, nothing, leaving the last frame
    /// visible.  `None` only when the vanish flag is set and the total row
    /// count does not fit in a `u16`.
    pub fn finish_str(&self, terminal_width: u16) -> (r: Option<String>)
        requires
            terminal_width >= 1,
        ensures
            !self.vanish ==> (r matches Some(s) && s@ == Seq::<char>::empty()),
            self.vanish ==> match r {
                Some(s) => s@ == "\r"@ + cursor_up_seq(
                    spec_total_height(
                        self.prompt@,
                        self.choices.deep_view(),
                        terminal_width as int,
                    ),
                ) + clear_after_seq(),
                None => spec_total_height(
                    self.prompt@,
                    self.choices.deep_view(),
                    terminal_width as int,
                ) > u16::MAX,
            },
    {
        if !self.vanish {
            return Some(String::new());
        }
        match self.height(terminal_width) {
            None => None,
            Some(h) => {
                let mut s = "\r".to_owned();
                let up = cursor_up(h);
                s.append(up.as_str());
                let clr = clear_after();
                s.append(clr.as_str());
                Some(s)
            },
        }
    }

    /// Runs the whole key sequence and returns the confirmed index with its
    /// option's text, or `None` on cancellation or when the keys run out.
    pub fn select(self, keys: &Vec<Key>) -> (r: Option<(usize, String)>)
        requires
            self.wf(),
        ensures
            match spec_select(
                self.current_choice as int,
                self.choices.len() as int,
                keys@,
            ) {
                Some(i) => r matches Some(p) && p.0 as int == i && p.1@ == self.choices@[i]@,
                None => r is None,
            },
    {
        let mut ch = self;
        let ghost n = ch.choices.len() as int;
        let mut idx: usize = 0;
        proof {
            assert(keys@.skip(0) =~= keys@);
        }
        while idx < keys.len()
            invariant
                ch.wf(),
                idx <= keys.len(),
                ch.choices == self.choices,
                ch.choices.len() as int == n,
                spec_select(self.current_choice as int, n, keys@) == spec_select(
                    ch.current_choice as int,
                    n,
                    keys@.skip(idx as int),
                ),
            decreases keys.len() - idx,
        {
            let k = keys[idx];
            proof {
                assert(keys@.skip(idx as int)[0] == keys@[idx as int]);
                assert(keys@.skip(idx as int).skip(1) =~= keys@.skip(idx as int + 1));
            }
            idx = idx + 1;
            match ch.handle_key(k) {
                Step::Confirmed => {
                    let i = ch.current_choice;
                    let s = ch.choices.remove(i);
                    return Some((i, s));
                },
                Step::Cancelled => {
                    return None;
                },
                _ => {},
            }
        }
        proof {
            assert(keys@.skip(idx as int) =~= Seq::<Key>::empty());
        }
        None
    }
}

/// Down at the last index is a no-op, as is up at the first: navigation
/// stops at the ends instead of wrapping.
pub proof fn lemma_nav_stops_at_ends(i: int, n: int, k: Key)
    requires
        0 <= i < n,
    ensures
        is_down_key(k) && i == n - 1 ==> next_index(i, n, k) == i,
        is_up_key(k) && i == 0 ==> next_index(i, n, k) == i,
{
}

/// A key sequence of navigation only: nothing in it confirms or cancels.
pub open spec fn is_nav_only(keys: Seq<Key>) -> bool {
    forall|j: int| 0 <= j < keys.len() ==> !is_confirm_key(keys[j]) && !is_cancel_key(keys[j])
}

/// The index reached from `i` after navigating with all the given keys.
pub open spec fn nav_index(i: int, n: int, keys: Seq<Key>) -> int
    decreases keys.len(),
{
    if keys.len() == 0 {
        i
    } else {
        nav_index(next_index(i, n, keys[0]), n, keys.skip(1))
    }
}

/// Confirming returns exactly the index the preceding navigation reached:
/// the result depends only on that index, not on the path that led there,
/// and keys after the confirmation change nothing.
pub proof fn lemma_confirm_returns_reached_index(
    i: int,
    n: int,
    navs: Seq<Key>,
    k: Key,
    rest: Seq<Key>,
)
    requires
        is_nav_only(navs),
        is_confirm_key(k),
    ensures
        spec_select(i, n, navs + seq![k] + rest) == Some(nav_index(i, n, navs)),
    decreases navs.len(),
{
    if navs.len() == 0 {
        assert(navs + seq![k] + rest =~= seq![k] + rest);
        assert((seq![k] + rest)[0] == k);
    } else {
        assert((navs + seq![k] + rest)[0] == navs[0]);
        assert((navs + seq![k] + rest).skip(1) =~= navs.skip(1) + seq![k] + rest);
        lemma_confirm_returns_reached_index(next_index(i, n, navs[0]), n, navs.skip(1), k, rest);
    }
}

/// Cancelling yields no selection, whatever index the navigation reached
/// and whatever keys would have followed.
pub proof fn lemma_cancel_returns_nothing(i: int, n: int, navs: Seq<Key>, k: Key, rest: Seq<Key>)
    requires
        is_nav_only(navs),
        is_cancel_key(k),
    ensures
        spec_select(i, n, navs + seq![k] + rest) is None,
    decreases navs.len(),
{
    if navs.len() == 0 {
        assert(navs + seq![k] + rest =~= seq![k] + rest);
        assert((seq![k] + rest)[0] == k);
    } else {
        assert((navs + seq![k] + rest)[0] == navs[0]);
        assert((navs + seq![k] + rest).skip(1) =~= navs.skip(1) + seq![k] + rest);
        lemma_cancel_returns_nothing(next_index(i, n, navs[0]), n, navs.skip(1), k, rest);
    }
}

} // verus!

