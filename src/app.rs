use vstd::prelude::*;
use vstd::string::StringExecFns;

verus! {

/// The state of the to-do screen as plain mathematical values.
pub struct AppView {
    pub input: Seq<char>,
    pub todos: Seq<Seq<char>>,
    pub index: int,
    pub show_popup: bool,
}

/// The text that an entry is stored as: the typed text, then the time label in brackets.
pub open spec fn entry_text(input: Seq<char>, stamp: Seq<char>) -> Seq<char> {
    input + seq![' ', '['] + stamp + seq![']']
}

impl AppView {
    /// Selection moved one entry down, wrapping to the first entry.
    pub open spec fn advanced(self) -> AppView {
        if self.todos.len() == 0 {
            self
        } else {
            AppView { index: (self.index + 1) % (self.todos.len() as int), ..self }
        }
    }

    /// Selection moved one entry up, wrapping to the last entry.
    pub open spec fn retreated(self) -> AppView {
        if self.todos.len() == 0 {
            self
        } else if self.index > 0 {
            AppView { index: self.index - 1, ..self }
        } else {
            AppView { index: self.todos.len() - 1, ..self }
        }
    }

    /// A non-empty input becomes a new entry and the input is cleared; an empty
    /// input toggles the detail overlay instead.
    pub open spec fn committed(self, stamp: Seq<char>) -> AppView {
        if self.input.len() > 0 {
            AppView {
                input: Seq::empty(),
                todos: self.todos.push(entry_text(self.input, stamp)),
                ..self
            }
        } else {
            AppView { show_popup: !self.show_popup, ..self }
        }
    }

    /// The selected entry removed (a selection past the end is clamped instead);
    /// a selection left one past the end moves to the new last entry.
    pub open spec fn removed(self) -> AppView {
        if self.todos.len() == 0 {
            self
        } else if self.index < self.todos.len() {
            let todos = self.todos.remove(self.index);
            AppView {
                todos,
                index: if todos.len() > 0 && self.index == todos.len() {
                    self.index - 1
                } else {
                    self.index
                },
                ..self
            }
        } else {
            AppView { index: self.todos.len() - 1, ..self }
        }
    }

    /// A character appended to the input.
    pub open spec fn typed(self, c: char) -> AppView {
        AppView { input: self.input.push(c), ..self }
    }

    /// The input's last character removed, if there is one.
    pub open spec fn erased(self) -> AppView {
        if self.input.len() == 0 {
            self
        } else {
            AppView { input: self.input.drop_last(), ..self }
        }
    }

    /// The selection points at an entry whenever there is one.
    pub open spec fn selection_valid(self) -> bool {
        self.todos.len() > 0 ==> 0 <= self.index < self.todos.len()
    }
}

/// A key press, as far as the to-do screen tells keys apart.
pub enum Key {
    /// Commits the input, or toggles the detail overlay.
    Enter,
    Up,
    Down,
    Char(char),
    Backspace,
    /// Removes the selected entry.
    Tab,
    /// Saves and leaves.
    Esc,
    Other,
}

/// What the event loop does after a key.
#[derive(PartialEq, Eq, Structural, Debug, Clone, Copy)]
pub enum Step {
    Continue,
    Exit,
}

/// The state after `key`, where `stamp` is the time label a new entry would get.
pub open spec fn after_key(s: AppView, key: Key, stamp: Seq<char>) -> AppView {
    match key {
        Key::Enter => s.committed(stamp),
        Key::Up => s.retreated(),
        Key::Down => s.advanced(),
        Key::Char(c) => s.typed(c),
        Key::Backspace => s.erased(),
        Key::Tab => s.removed(),
        Key::Esc => s,
        Key::Other => s,
    }
}

/// The state after `k` moves of the selection down.
pub open spec fn advanced_times(s: AppView, k: nat) -> AppView
    decreases k,
{
    if k == 0 {
        s
    } else {
        advanced_times(s, (k - 1) as nat).advanced()
    }
}

proof fn lemma_advanced_times_mod(s: AppView, k: nat)
    requires
        0 <= s.index < s.todos.len(),
    ensures
        advanced_times(s, k) == (AppView { index: (s.index + k) % (s.todos.len() as int), ..s }),
    decreases k,
{
    let n = s.todos.len() as int;
    let i = s.index;
    if k > 0 {
        lemma_advanced_times_mod(s, (k - 1) as nat);
        let a = i + k - 1;
        assert(((a % n) + 1) % n == (a + 1) % n) by (nonlinear_arith)
            requires n > 0;
    } else {
        assert(i % n == i) by (nonlinear_arith)
            requires 0 <= i < n;
    }
}

/// Moving the selection down as many times as there are entries gives back the
/// state it started from.
pub proof fn lemma_advance_wraps_once(s: AppView)
    requires
        s.todos.len() >= 1,
        0 <= s.index < s.todos.len(),
    ensures
        advanced_times(s, s.todos.len()) == s,
{
    let n = s.todos.len() as int;
    lemma_advanced_times_mod(s, s.todos.len());
    assert((s.index + n) % n == s.index) by (nonlinear_arith)
        requires 0 <= s.index < n;
}

/// Moving the selection up from the first entry selects the last one; from any
/// other entry it selects the one before.
pub proof fn lemma_retreat(s: AppView)
    requires
        s.todos.len() >= 1,
        0 <= s.index < s.todos.len(),
    ensures
        s.index == 0 ==> s.retreated().index == s.todos.len() - 1,
        s.index > 0 ==> s.retreated().index == s.index - 1,
        s.retreated().selection_valid(),
{
}

/// Removing keeps the selection on an entry whenever one is left, and removing
/// the only entry leaves the list empty.
pub proof fn lemma_remove_keeps_selection(s: AppView)
    requires
        s.selection_valid(),
    ensures
        s.removed().selection_valid(),
        s.todos.len() == 1 ==> s.removed().todos.len() == 0,
{
}

/// Committing a non-empty input adds exactly one entry, which starts with the
/// input, and clears the input; committing an empty input keeps the entries and
/// flips the overlay.
pub proof fn lemma_commit(s: AppView, stamp: Seq<char>)
    ensures
        s.input.len() > 0 ==> {
            &&& s.committed(stamp).todos.len() == s.todos.len() + 1
            &&& s.committed(stamp).todos.last().subrange(0, s.input.len() as int) == s.input
            &&& s.committed(stamp).input.len() == 0
        },
        s.input.len() == 0 ==> {
            &&& s.committed(stamp).todos.len() == s.todos.len()
            &&& s.committed(stamp).show_popup == !s.show_popup
        },
{
    if s.input.len() > 0 {
        assert(entry_text(s.input, stamp).subrange(0, s.input.len() as int) =~= s.input);
    }
}

/// A time label's last two characters: `AM` or `PM`.
pub open spec fn ends_with_am_pm(s: Seq<char>) -> bool {
    s.len() >= 2 && (s.subrange(s.len() - 2, s.len() as int) == seq!['A', 'M']
        || s.subrange(s.len() - 2, s.len() as int) == seq!['P', 'M'])
}

/// Relies on chrono::Local::now and its formatting: the current local time as
/// month name, day, hour and minute, then `AM` or `PM` (`%p`, no locale).
#[verifier::external_body]
fn now_label() -> (r: String)
    ensures
        ends_with_am_pm(r@),
{
    chrono::Local::now().format("%B %d %I:%M %p").to_string()
}

/// A decimal digit, for `n` in `0..10`.
pub open spec fn digit(n: nat) -> char {
    seq!['0', '1', '2', '3', '4', '5', '6', '7', '8', '9'][n as int]
}

/// The decimal numeral of `n`, without leading zeros.
pub open spec fn decimal(n: nat) -> Seq<char>
    decreases n,
{
    if n < 10 {
        seq![digit(n)]
    } else {
        decimal(n / 10).push(digit(n % 10))
    }
}

/// How an entry is listed: its position from one, a colon and a space, its text.
pub open spec fn line_text(position: nat, entry: Seq<char>) -> Seq<char> {
    decimal(position) + seq![':', ' '] + entry
}

/// Relies on std's `Display` for integers: the decimal numeral.
#[verifier::external_body]
fn decimal_text(n: usize) -> (r: String)
    ensures
        r@ == decimal(n as nat),
{
    n.to_string()
}

/// Relies on String::push: the character is appended.
#[verifier::external_body]
fn push_char(s: &mut String, c: char)
    ensures
        final(s)@ == old(s)@.push(c),
{
    s.push(c)
}

/// Relies on String::pop: the last character is taken off, if there is one.
#[verifier::external_body]
fn pop_char(s: &mut String) -> (r: Option<char>)
    ensures
        old(s)@.len() == 0 ==> r is None && final(s)@ == old(s)@,
        old(s)@.len() > 0 ==> r == Some(old(s)@.last()) && final(s)@ == old(s)@.drop_last(),
{
    s.pop()
}

/// The to-do screen's state: the text being typed, the entries, the selected
/// entry and whether the detail overlay of the selected entry is shown.
pub struct App {
    pub input: String,
    pub todos: Vec<String>,
    pub index: usize,
    pub show_popup: bool,
}

impl View for App {
    type V = AppView;

    open spec fn view(&self) -> AppView {
        AppView {
            input: self.input@,
            todos: self.todos.deep_view(),
            index: self.index as int,
            show_popup: self.show_popup,
        }
    }
}

impl App {
    /// An empty input, no entries, the first entry selected and no overlay.
    pub fn default() -> (r: App)
        ensures
            r@.input == Seq::<char>::empty(),
            r@.todos == Seq::<Seq<char>>::empty(),
            r@.index == 0,
            !r@.show_popup,
    {
        App { input: String::new(), todos: Vec::new(), index: 0, show_popup: false }
    }

    /// Moves the selection one entry down, from the last entry to the first.
    pub fn next(&mut self)
        ensures
            final(self)@ == old(self)@.advanced(),
    {
        let n = self.todos.len();
        if n > 0 {
            self.index = (self.index % n + 1) % n;
            proof {
                let i = old(self).index as int;
                assert((i % (n as int) + 1) % (n as int) == (i + 1) % (n as int)) by (nonlinear_arith)
                    requires n > 0;
            }
        }
    }

    /// Moves the selection one entry up, from the first entry to the last.
    pub fn previous(&mut self)
        ensures
            final(self)@ == old(self)@.retreated(),
    {
        if self.todos.len() > 0 {
            if self.index > 0 {
                self.index = self.index - 1;
            } else {
                self.index = self.todos.len() - 1;
            }
        }
    }

    /// Appends a typed character to the input.
    pub fn type_char(&mut self, c: char)
        ensures
            final(self)@ == old(self)@.typed(c),
    {
        push_char(&mut self.input, c);
    }

    /// Removes the last character of the input, if there is one.
    pub fn erase_char(&mut self)
        ensures
            final(self)@ == old(self)@.erased(),
    {
        let _ = pop_char(&mut self.input);
    }

    /// Turns a non-empty input into a new entry labelled with `stamp`, or
    /// toggles the detail overlay when the input is empty.
    pub fn commit_input(&mut self, stamp: &str)
        ensures
            final(self)@ == old(self)@.committed(stamp@),
    {
        if !self.input.as_str().is_empty() {
            let mut entry = self.input.clone();
            entry.append(" [");
            entry.append(stamp);
            push_char(&mut entry, ']');
            proof {
                reveal_strlit(" [");
                assert(entry@ =~= entry_text(self.input@, stamp@));
            }
            let ghost before = self.todos.deep_view();
            self.todos.push(entry);
            self.input = String::new();
            proof {
                assert(self.todos.deep_view() =~= before.push(entry_text(old(self)@.input, stamp@)));
            }
        } else {
            self.show_popup = !self.show_popup;
        }
    }

    /// Removes the selected entry and keeps the selection on an entry.
    pub fn remove_selected(&mut self)
        ensures
            final(self)@ == old(self)@.removed(),
            final(self)@.todos.len() > 0 ==> final(self)@.index < final(self)@.todos.len(),
            old(self)@.todos.len() == 1 && old(self)@.selection_valid()
                ==> final(self)@.todos.len() == 0,
    {
        let n = self.todos.len();
        if n > 0 {
            if self.index < n {
                let ghost before = self.todos.deep_view();
                let _ = self.todos.remove(self.index);
                proof {
                    assert(self.todos.deep_view() =~= before.remove(old(self).index as int));
                }
                if self.todos.len() > 0 && self.index == self.todos.len() {
                    self.index = self.index - 1;
                }
            } else {
                self.index = n - 1;
            }
        }
    }

    /// Applies one key press; `stamp` labels an entry that the key creates.
    pub fn handle_key(&mut self, key: Key, stamp: &str) -> (r: Step)
        ensures
            final(self)@ == after_key(old(self)@, key, stamp@),
            r == (if key is Esc { Step::Exit } else { Step::Continue }),
    {
        match key {
            Key::Enter => {
                self.commit_input(stamp);
                Step::Continue
            },
            Key::Up => {
                self.previous();
                Step::Continue
            },
            Key::Down => {
                self.next();
                Step::Continue
            },
            Key::Char(c) => {
                self.type_char(c);
                Step::Continue
            },
            Key::Backspace => {
                self.erase_char();
                Step::Continue
            },
            Key::Tab => {
                self.remove_selected();
                Step::Continue
            },
            Key::Esc => Step::Exit,
            Key::Other => Step::Continue,
        }
    }

    /// Applies one key press, labelling a new entry with the current local time.
    pub fn on_key(&mut self, key: Key) -> (r: Step)
        ensures
            exists|stamp: Seq<char>|
                ends_with_am_pm(stamp) && final(self)@ == after_key(old(self)@, key, stamp),
            r == (if key is Esc { Step::Exit } else { Step::Continue }),
    {
        let stamp = now_label();
        self.handle_key(key, stamp.as_str())
    }

    /// The entry shown in the detail overlay: the selected one, while the
    /// overlay is on and the selection points at an entry.
    pub fn overlay_entry(&self) -> (r: Option<&String>)
        ensures
            r is Some <==> self.show_popup && self.index < self.todos.len(),
            r matches Some(e) ==> e@ == self@.todos[self.index as int],
    {
        if self.show_popup && self.index < self.todos.len() {
            Some(&self.todos[self.index])
        } else {
            None
        }
    }

    /// The entries as they are listed, each numbered by its position from one.
    pub fn list_lines(&self) -> (r: Vec<String>)
        ensures
            r.len() == self.todos.len(),
            forall|j: int| 0 <= j < r.len() ==> #[trigger] r[j]@ == line_text(
                (j + 1) as nat,
                self@.todos[j],
            ),
    {
        let mut lines: Vec<String> = Vec::new();
        let mut i: usize = 0;
        while i < self.todos.len()
            invariant
                i <= self.todos.len(),
                lines.len() == i,
                forall|j: int| 0 <= j < i ==> #[trigger] lines[j]@ == line_text(
                    (j + 1) as nat,
                    self@.todos[j],
                ),
            decreases self.todos.len() - i,
        {
            let mut line = decimal_text(i + 1);
            line.append(": ");
            line.append(self.todos[i].as_str());
            proof {
                reveal_strlit(": ");
                assert(line@ =~= line_text((i + 1) as nat, self@.todos[i as int]));
            }
            lines.push(line);
            i = i + 1;
        }
        lines
    }
}

} // verus!
