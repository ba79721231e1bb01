//! Editing: the input line, the prompts called back to it, the search line and
//! the scrolling of the transcript.

use crate::commands::tui::{
    find_messages, found_in, search_closed, Search, SearchView, TuiApp, TuiAppView,
};
use crate::text::{char_count, from_chars, has_char, to_chars};
use vstd::prelude::*;

verus! {

// ---------------------------------------------------------------- lines

/// A place in a text: one behind its end is its end.
pub open spec fn placed(s: Seq<char>, c: usize) -> int {
    if c < s.len() {
        c as int
    } else {
        s.len() as int
    }
}

pub open spec fn inserted(s: Seq<char>, c: usize, t: Seq<char>) -> Seq<char> {
    s.take(placed(s, c)) + t + s.skip(placed(s, c))
}

pub open spec fn after_insert(s: Seq<char>, c: usize, t: Seq<char>) -> usize {
    (placed(s, c) + t.len()) as usize
}

pub open spec fn without_char(s: Seq<char>, i: int) -> Seq<char> {
    s.take(i) + s.skip(i + 1)
}

/// The first `i` characters of a pasted text: each line break is one `\n`.
pub open spec fn unbroken_to(s: Seq<char>, i: int) -> Seq<char>
    decreases i,
{
    if i <= 0 {
        Seq::empty()
    } else {
        let before = unbroken_to(s, i - 1);
        if s[i - 1] == '\r' {
            if i < s.len() && s[i] == '\n' {
                before
            } else {
                before.push('\n')
            }
        } else {
            before.push(s[i - 1])
        }
    }
}

/// A pasted text with its line breaks made one `\n` each.
pub open spec fn unbroken(s: Seq<char>) -> Seq<char> {
    unbroken_to(s, s.len() as int)
}

/// Where the line that holds place `c` begins.
pub open spec fn line_start(s: Seq<char>, c: int) -> int
    decreases c,
{
    if c <= 0 || s[c - 1] == '\n' {
        c
    } else {
        line_start(s, c - 1)
    }
}

/// Where the line that holds place `c` ends.
pub open spec fn line_end(s: Seq<char>, c: int) -> int
    decreases s.len() - c,
{
    if c >= s.len() || s[c] == '\n' {
        c
    } else {
        line_end(s, c + 1)
    }
}

/// The place one line up, in the same column where that line is long enough.
pub open spec fn line_above(s: Seq<char>, c: int) -> int {
    let start = line_start(s, c);
    if start <= 0 {
        0
    } else {
        let from = line_start(s, start - 1);
        if from + (c - start) < start - 1 {
            from + (c - start)
        } else {
            start - 1
        }
    }
}

/// The place one line down.
pub open spec fn line_below(s: Seq<char>, c: int) -> int {
    let start = line_start(s, c);
    let end = line_end(s, c);
    if end >= s.len() {
        s.len() as int
    } else {
        let to = line_end(s, end + 1);
        if end + 1 + (c - start) < to {
            end + 1 + (c - start)
        } else {
            to
        }
    }
}

fn insert_at(s: &str, c: usize, t: &str) -> (r: (String, usize))
    ensures
        r.0@ == inserted(s@, c, t@),
        r.1 == after_insert(s@, c, t@),
{
    let v = to_chars(s);
    let at: usize = if c < v.len() {
        c
    } else {
        v.len()
    };
    let mut out = from_chars(v.as_slice(), 0, at);
    out.append(t);
    let n: usize = char_count(out.as_str());
    let rest = from_chars(v.as_slice(), at, v.len());
    out.append(rest.as_str());
    assert(s@.subrange(0, at as int) =~= s@.take(at as int));
    assert(s@.subrange(at as int, s@.len() as int) =~= s@.skip(at as int));
    (out, n)
}

fn remove_at(s: &str, i: usize) -> (r: String)
    requires
        i < s@.len(),
    ensures
        r@ == without_char(s@, i as int),
{
    let v = to_chars(s);
    let n: usize = v.len();
    let mut out = from_chars(v.as_slice(), 0, i);
    let rest = from_chars(v.as_slice(), i + 1, n);
    out.append(rest.as_str());
    assert(s@.subrange(0, i as int) =~= s@.take(i as int));
    assert(s@.subrange(i + 1, s@.len() as int) =~= s@.skip(i + 1));
    out
}

fn place_in(s: &str, c: usize) -> (r: usize)
    ensures
        r == placed(s@, c),
{
    let n: usize = char_count(s);
    if c < n {
        c
    } else {
        n
    }
}

/// A pasted text with one `\n` for each of its line breaks.
pub fn sanitize_paste(s: &str) -> (r: String)
    ensures
        r@ == unbroken(s@),
{
    let v = to_chars(s);
    let mut out = String::new();
    let mut i: usize = 0;
    while i < v.len()
        invariant
            i <= v@.len(),
            v@ == s@,
            out@ == unbroken_to(s@, i as int),
        decreases v@.len() - i,
    {
        if v[i] == '\r' {
            if !(i + 1 < v.len() && v[i + 1] == '\n') {
                out.push('\n');
            }
        } else {
            out.push(v[i]);
        }
        i = i + 1;
    }
    out
}

fn start_of_line(v: &Vec<char>, c: usize) -> (r: usize)
    requires
        c <= v@.len(),
    ensures
        r == line_start(v@, c as int),
        r <= c,
    decreases c,
{
    if c == 0 || v[c - 1] == '\n' {
        c
    } else {
        start_of_line(v, c - 1)
    }
}

fn end_of_line(v: &Vec<char>, c: usize) -> (r: usize)
    requires
        c <= v@.len(),
    ensures
        r == line_end(v@, c as int),
        c <= r <= v@.len(),
    decreases v@.len() - c,
{
    if c == v.len() || v[c] == '\n' {
        c
    } else {
        end_of_line(v, c + 1)
    }
}

fn one_line_up(s: &str, c: usize) -> (r: usize)
    requires
        c <= s@.len(),
    ensures
        r == line_above(s@, c as int),
{
    let v = to_chars(s);
    let start: usize = start_of_line(&v, c);
    if start == 0 {
        0
    } else {
        let from: usize = start_of_line(&v, start - 1);
        let col: usize = c - start;
        if col < start - 1 - from {
            from + col
        } else {
            start - 1
        }
    }
}

fn one_line_down(s: &str, c: usize) -> (r: usize)
    requires
        c <= s@.len(),
    ensures
        r == line_below(s@, c as int),
{
    let v = to_chars(s);
    let start: usize = start_of_line(&v, c);
    let end: usize = end_of_line(&v, c);
    if end >= v.len() {
        v.len()
    } else {
        let to: usize = end_of_line(&v, end + 1);
        let col: usize = c - start;
        if col < to - (end + 1) {
            end + 1 + col
        } else {
            to
        }
    }
}

// ---------------------------------------------------------------- input

/// The interface with a text put in at the cursor.
pub open spec fn typed(a: TuiAppView, t: Seq<char>) -> TuiAppView {
    TuiAppView {
        input: inserted(a.input, a.cursor, t),
        cursor: after_insert(a.input, a.cursor, t),
        ..a
    }
}

/// The interface with the character before the cursor taken out.
pub open spec fn backspaced(a: TuiAppView) -> TuiAppView {
    let c = placed(a.input, a.cursor);
    if c == 0 {
        TuiAppView { cursor: 0, ..a }
    } else {
        TuiAppView { input: without_char(a.input, c - 1), cursor: (c - 1) as usize, ..a }
    }
}

/// The interface with the character at the cursor taken out.
pub open spec fn deleted(a: TuiAppView) -> TuiAppView {
    let c = placed(a.input, a.cursor);
    if c < a.input.len() {
        TuiAppView { input: without_char(a.input, c), cursor: c as usize, ..a }
    } else {
        TuiAppView { cursor: c as usize, ..a }
    }
}

pub open spec fn cursor_left(s: Seq<char>, c: usize) -> usize {
    if placed(s, c) == 0 {
        0
    } else {
        (placed(s, c) - 1) as usize
    }
}

pub open spec fn cursor_right(s: Seq<char>, c: usize) -> usize {
    if placed(s, c) < s.len() {
        (placed(s, c) + 1) as usize
    } else {
        s.len() as usize
    }
}

/// The prompt before the one that was called back, of `n`.
pub open spec fn older_index(recalled: Option<usize>, n: nat) -> int {
    match recalled {
        None => n - 1,
        Some(k) => if k == 0 {
            0
        } else if k < n {
            k - 1
        } else {
            n - 1
        },
    }
}

/// The interface with an older prompt called back.
pub open spec fn older_prompt(a: TuiAppView) -> TuiAppView {
    let n = a.prompt_history.len();
    if n == 0 {
        a
    } else {
        let i = older_index(a.recalled, n);
        let t = a.prompt_history[i];
        TuiAppView {
            input: t,
            cursor: t.len() as usize,
            recalled: Some(i as usize),
            draft: if a.recalled is None {
                a.input
            } else {
                a.draft
            },
            ..a
        }
    }
}

/// The interface with a newer prompt called back; behind the newest is the text
/// that was put aside.
pub open spec fn newer_prompt(a: TuiAppView) -> TuiAppView {
    match a.recalled {
        None => a,
        Some(k) => if k + 1 < a.prompt_history.len() {
            let t = a.prompt_history[k + 1];
            TuiAppView { input: t, cursor: t.len() as usize, recalled: Some((k + 1) as usize), ..a }
        } else {
            TuiAppView {
                input: a.draft,
                cursor: a.draft.len() as usize,
                recalled: None,
                draft: Seq::empty(),
                ..a
            }
        },
    }
}

/// Up: the line above in a text of several lines, an older prompt otherwise.
pub open spec fn upped(a: TuiAppView) -> TuiAppView {
    if a.input.contains('\n') {
        TuiAppView {
            cursor: line_above(a.input, placed(a.input, a.cursor)) as usize,
            ..a
        }
    } else {
        older_prompt(a)
    }
}

/// Down: the line below in a text of several lines, a newer prompt otherwise.
pub open spec fn downed(a: TuiAppView) -> TuiAppView {
    if a.input.contains('\n') {
        TuiAppView {
            cursor: line_below(a.input, placed(a.input, a.cursor)) as usize,
            ..a
        }
    } else {
        newer_prompt(a)
    }
}

fn index_before(recalled: Option<usize>, n: usize) -> (r: usize)
    requires
        n > 0,
    ensures
        r == older_index(recalled, n as nat),
        r < n,
{
    match recalled {
        None => n - 1,
        Some(k) => if k == 0 {
            0
        } else if k < n {
            k - 1
        } else {
            n - 1
        },
    }
}

fn text_at(v: &Vec<String>, i: usize) -> (r: String)
    requires
        i < v@.len(),
    ensures
        r@ == v.deep_view()[i as int],
{
    v[i].clone()
}

impl TuiApp {
    pub fn insert_text(&mut self, t: &str)
        ensures
            final(self)@ == typed(old(self)@, t@),
    {
        let (s, c) = insert_at(self.input.as_str(), self.cursor, t);
        self.input = s;
        self.cursor = c;
    }

    pub fn insert_char(&mut self, c: char)
        ensures
            final(self)@ == typed(old(self)@, seq![c]),
    {
        let mut t = String::new();
        t.push(c);
        assert(t@ =~= seq![c]);
        self.insert_text(t.as_str());
    }

    /// Puts a pasted text in whole; nothing is sent.
    pub fn insert_str(&mut self, text: &str)
        ensures
            final(self)@ == typed(old(self)@, unbroken(text@)),
    {
        let t = sanitize_paste(text);
        self.insert_text(t.as_str());
    }

    pub fn newline(&mut self)
        ensures
            final(self)@ == typed(old(self)@, seq!['\n']),
    {
        self.insert_char('\n');
    }

    pub fn backspace(&mut self)
        ensures
            final(self)@ == backspaced(old(self)@),
    {
        let c: usize = place_in(self.input.as_str(), self.cursor);
        if c == 0 {
            self.cursor = 0;
        } else {
            self.input = remove_at(self.input.as_str(), c - 1);
            self.cursor = c - 1;
        }
    }

    pub fn delete(&mut self)
        ensures
            final(self)@ == deleted(old(self)@),
    {
        let c: usize = place_in(self.input.as_str(), self.cursor);
        if c < char_count(self.input.as_str()) {
            self.input = remove_at(self.input.as_str(), c);
        }
        self.cursor = c;
    }

    pub fn move_left(&mut self)
        ensures
            final(self)@ == (TuiAppView {
                cursor: cursor_left(old(self)@.input, old(self)@.cursor),
                ..old(self)@
            }),
    {
        let c: usize = place_in(self.input.as_str(), self.cursor);
        self.cursor = if c == 0 {
            0
        } else {
            c - 1
        };
    }

    pub fn move_right(&mut self)
        ensures
            final(self)@ == (TuiAppView {
                cursor: cursor_right(old(self)@.input, old(self)@.cursor),
                ..old(self)@
            }),
    {
        let c: usize = place_in(self.input.as_str(), self.cursor);
        let n: usize = char_count(self.input.as_str());
        self.cursor = if c < n {
            c + 1
        } else {
            n
        };
    }

    pub fn history_up_force(&mut self)
        ensures
            final(self)@ == older_prompt(old(self)@),
    {
        let n: usize = self.prompt_history.len();
        if n == 0 {
            return;
        }
        let i: usize = index_before(self.recalled, n);
        let t = text_at(&self.prompt_history, i);
        let c: usize = char_count(t.as_str());
        let draft = if self.recalled.is_none() {
            self.input.clone()
        } else {
            self.draft.clone()
        };
        self.draft = draft;
        self.input = t;
        self.cursor = c;
        self.recalled = Some(i);
    }

    pub fn history_down_force(&mut self)
        ensures
            final(self)@ == newer_prompt(old(self)@),
    {
        match self.recalled {
            None => {},
            Some(k) => {
                if k < self.prompt_history.len() && k + 1 < self.prompt_history.len() {
                    let t = text_at(&self.prompt_history, k + 1);
                    self.cursor = char_count(t.as_str());
                    self.input = t;
                    self.recalled = Some(k + 1);
                } else {
                    self.input = self.draft.clone();
                    self.cursor = char_count(self.input.as_str());
                    self.recalled = None;
                    self.draft = String::new();
                }
            },
        }
    }

    pub fn up_key(&mut self)
        ensures
            final(self)@ == upped(old(self)@),
    {
        if has_char(self.input.as_str(), '\n') {
            let c: usize = place_in(self.input.as_str(), self.cursor);
            self.cursor = one_line_up(self.input.as_str(), c);
        } else {
            self.history_up_force();
        }
    }

    pub fn down_key(&mut self)
        ensures
            final(self)@ == downed(old(self)@),
    {
        if has_char(self.input.as_str(), '\n') {
            let c: usize = place_in(self.input.as_str(), self.cursor);
            self.cursor = one_line_down(self.input.as_str(), c);
        } else {
            self.history_down_force();
        }
    }
}

// ---------------------------------------------------------------- scrolling

pub open spec fn scrolled_up(a: TuiAppView, n: int) -> TuiAppView {
    TuiAppView {
        scroll: if a.scroll < n {
            0
        } else {
            (a.scroll - n) as usize
        },
        follow: false,
        ..a
    }
}

pub open spec fn scrolled_down(a: TuiAppView, n: int) -> TuiAppView {
    TuiAppView {
        scroll: if a.scroll + n > usize::MAX {
            usize::MAX
        } else {
            (a.scroll + n) as usize
        },
        ..a
    }
}

pub open spec fn page_of(a: TuiAppView) -> int {
    if a.page == 0 {
        1
    } else {
        a.page as int
    }
}

impl TuiApp {
    pub fn scroll_up(&mut self, n: usize)
        ensures
            final(self)@ == scrolled_up(old(self)@, n as int),
    {
        self.scroll = if self.scroll < n {
            0
        } else {
            self.scroll - n
        };
        self.follow = false;
    }

    pub fn scroll_down(&mut self, n: usize)
        ensures
            final(self)@ == scrolled_down(old(self)@, n as int),
    {
        self.scroll = if n > usize::MAX - self.scroll {
            usize::MAX
        } else {
            self.scroll + n
        };
    }

    pub fn scroll_home(&mut self)
        ensures
            final(self)@ == (TuiAppView { scroll: 0, follow: false, ..old(self)@ }),
    {
        self.scroll = 0;
        self.follow = false;
    }

    pub fn scroll_end(&mut self)
        ensures
            final(self)@ == (TuiAppView { follow: true, ..old(self)@ }),
    {
        self.follow = true;
    }

    /// A page, as the transcript was last drawn.
    pub fn page_step(&self) -> (r: usize)
        ensures
            r == page_of(self@),
    {
        if self.page == 0 {
            1
        } else {
            self.page
        }
    }
}

// ---------------------------------------------------------------- search

/// An edit of the query.
#[derive(Debug, Clone, Copy, PartialEq, Eq)]
pub enum QueryEdit {
    Backspace,
    Delete,
    Left,
    Right,
    Home,
    End,
}

/// The interface with another query, looked for anew.
pub open spec fn sought(a: TuiAppView, s: SearchView, query: Seq<char>, cursor: usize) -> TuiAppView {
    TuiAppView {
        search: Some(
            SearchView { query, cursor, matches: found_in(a.messages, query), current: 0, ..s },
        ),
        ..a
    }
}

pub open spec fn query_typed(a: TuiAppView, t: Seq<char>) -> TuiAppView {
    match a.search {
        None => a,
        Some(s) => sought(a, s, inserted(s.query, s.cursor, t), after_insert(s.query, s.cursor, t)),
    }
}

pub open spec fn query_edited(a: TuiAppView, e: QueryEdit) -> TuiAppView {
    match a.search {
        None => a,
        Some(s) => {
            let c = placed(s.query, s.cursor);
            match e {
                QueryEdit::Backspace => if c == 0 {
                    sought(a, s, s.query, 0)
                } else {
                    sought(a, s, without_char(s.query, c - 1), (c - 1) as usize)
                },
                QueryEdit::Delete => if c < s.query.len() {
                    sought(a, s, without_char(s.query, c), c as usize)
                } else {
                    sought(a, s, s.query, c as usize)
                },
                QueryEdit::Left => sought(a, s, s.query, cursor_left(s.query, s.cursor)),
                QueryEdit::Right => sought(a, s, s.query, cursor_right(s.query, s.cursor)),
                QueryEdit::Home => sought(a, s, s.query, 0),
                QueryEdit::End => sought(a, s, s.query, s.query.len() as usize),
            }
        },
    }
}

/// The match after, or before, one of `n`, round the end.
pub open spec fn match_beside(current: usize, n: nat, forward: bool) -> usize {
    if forward {
        if current + 1 < n {
            (current + 1) as usize
        } else {
            0
        }
    } else if 0 < current && current < n {
        (current - 1) as usize
    } else {
        (n - 1) as usize
    }
}

/// The interface at the next or the previous match.
pub open spec fn stepped(a: TuiAppView, forward: bool) -> TuiAppView {
    match a.search {
        None => a,
        Some(s) => if s.matches.len() == 0 {
            a
        } else {
            TuiAppView {
                search: Some(
                    SearchView { current: match_beside(s.current, s.matches.len(), forward), ..s },
                ),
                follow: false,
                ..a
            }
        },
    }
}

/// The interface with the search line closed, at the current match.
pub open spec fn search_kept(a: TuiAppView) -> TuiAppView {
    match a.search {
        None => a,
        Some(s) => TuiAppView {
            follow: a.follow && s.matches.len() == 0,
            ..search_closed(a)
        },
    }
}

impl TuiApp {
    fn seek(&mut self, query: String, cursor: usize)
        ensures
            final(self)@ == match old(self)@.search {
                None => old(self)@,
                Some(s) => sought(old(self)@, s, query@, cursor),
            },
    {
        let (open, saved) = match &self.search {
            None => {
                return;
            },
            Some(s) => (s.open, s.saved.clone()),
        };
        let matches = find_messages(&self.messages, query.as_str());
        self.search = Some(Search { open, query, cursor, saved, matches, current: 0 });
    }

    /// Puts a text in the query, at its cursor.
    pub fn search_insert_str(&mut self, text: &str)
        ensures
            final(self)@ == query_typed(old(self)@, text@),
    {
        let (query, cursor) = match &self.search {
            None => {
                return;
            },
            Some(s) => insert_at(s.query.as_str(), s.cursor, text),
        };
        self.seek(query, cursor);
    }

    pub fn search_insert_char(&mut self, c: char)
        ensures
            final(self)@ == query_typed(old(self)@, seq![c]),
    {
        let mut t = String::new();
        t.push(c);
        assert(t@ =~= seq![c]);
        self.search_insert_str(t.as_str());
    }

    /// Edits the query, or moves its cursor.
    pub fn search_edit(&mut self, e: QueryEdit)
        ensures
            final(self)@ == query_edited(old(self)@, e),
    {
        let (query, cursor) = match &self.search {
            None => {
                return;
            },
            Some(s) => {
                let n: usize = char_count(s.query.as_str());
                let c: usize = place_in(s.query.as_str(), s.cursor);
                match e {
                    QueryEdit::Backspace => if c == 0 {
                        (s.query.clone(), 0)
                    } else {
                        (remove_at(s.query.as_str(), c - 1), c - 1)
                    },
                    QueryEdit::Delete => if c < n {
                        (remove_at(s.query.as_str(), c), c)
                    } else {
                        (s.query.clone(), c)
                    },
                    QueryEdit::Left => if c == 0 {
                        (s.query.clone(), 0)
                    } else {
                        (s.query.clone(), c - 1)
                    },
                    QueryEdit::Right => if c < n {
                        (s.query.clone(), c + 1)
                    } else {
                        (s.query.clone(), n)
                    },
                    QueryEdit::Home => (s.query.clone(), 0),
                    QueryEdit::End => (s.query.clone(), n),
                }
            },
        };
        self.seek(query, cursor);
    }

    /// Goes to the next match, or to the previous one.
    pub fn search_step(&mut self, forward: bool)
        ensures
            final(self)@ == stepped(old(self)@, forward),
    {
        match &mut self.search {
            None => {},
            Some(s) => {
                let n: usize = s.matches.len();
                if n > 0 {
                    let k: usize = s.current;
                    s.current = if forward {
                        if k < n && k + 1 < n {
                            k + 1
                        } else {
                            0
                        }
                    } else if 0 < k && k < n {
                        k - 1
                    } else {
                        n - 1
                    };
                    self.follow = false;
                }
            },
        }
    }

    /// Closes the search line at the current match; the search stays.
    pub fn search_confirm_jump(&mut self)
        ensures
            final(self)@ == search_kept(old(self)@),
    {
        let found = match &self.search {
            None => {
                return;
            },
            Some(s) => s.matches.len() > 0,
        };
        self.close_search_keep();
        if found {
            self.follow = false;
        }
    }
}

// ---------------------------------------------------------------- laws

/// Taking back a character just typed gives back the text.
pub proof fn law_backspace_undoes_typing(a: TuiAppView, c: char)
    requires
        a.input.len() < usize::MAX,
    ensures
        backspaced(typed(a, seq![c])).input == a.input,
        backspaced(typed(a, seq![c])).cursor == placed(a.input, a.cursor),
{
    let b = typed(a, seq![c]);
    let k = placed(a.input, a.cursor);
    assert(b.input.take(k) =~= a.input.take(k));
    assert(b.input.skip(k + 1) =~= a.input.skip(k));
    assert(a.input.take(k) + a.input.skip(k) =~= a.input);
}

/// No carriage return of a pasted text stays.
pub proof fn law_paste_has_plain_line_breaks(s: Seq<char>)
    ensures
        !unbroken(s).contains('\r'),
{
    lemma_unbroken(s, s.len() as int);
}

proof fn lemma_unbroken(s: Seq<char>, i: int)
    requires
        0 <= i <= s.len(),
    ensures
        !unbroken_to(s, i).contains('\r'),
    decreases i,
{
    if i > 0 {
        lemma_unbroken(s, i - 1);
        let before = unbroken_to(s, i - 1);
        let all = unbroken_to(s, i);
        assert forall|k: int| 0 <= k < all.len() implies all[k] != '\r' by {
            if k < before.len() {
                assert(all[k] == before[k]);
                assert(before.contains(before[k]));
            }
        }
    }
}

/// Going back one prompt and forward again gives back what was being written.
pub proof fn law_recall_returns(a: TuiAppView)
    requires
        a.recalled is None,
        a.prompt_history.len() <= usize::MAX,
    ensures
        newer_prompt(older_prompt(a)).input == a.input,
        newer_prompt(older_prompt(a)).recalled is None,
{
}

// ---------------------------------------------------------------- further laws

/// What is typed comes to stand at the mark: what was before it stays before it,
/// what was behind it stays behind it, and the mark goes behind what was typed.
pub proof fn law_typed_at_the_mark(a: TuiAppView, t: Seq<char>)
    requires
        a.cursor <= a.input.len(),
        a.input.len() + t.len() <= usize::MAX,
    ensures
        typed(a, t).input.len() == a.input.len() + t.len(),
        typed(a, t).input.subrange(0, a.cursor as int) == a.input.subrange(0, a.cursor as int),
        typed(a, t).input.subrange(a.cursor as int, a.cursor + t.len()) == t,
        typed(a, t).input.skip(a.cursor + t.len()) == a.input.skip(a.cursor as int),
        typed(a, t).cursor == a.cursor + t.len(),
{
    let b = typed(a, t).input;
    assert(b.subrange(0, a.cursor as int) =~= a.input.subrange(0, a.cursor as int));
    assert(b.subrange(a.cursor as int, a.cursor + t.len()) =~= t);
    assert(b.skip(a.cursor + t.len()) =~= a.input.skip(a.cursor as int));
}

/// Delete takes away the character at the mark and no other; the mark stays.
pub proof fn law_delete_at_the_mark(a: TuiAppView)
    requires
        a.cursor < a.input.len() <= usize::MAX,
    ensures
        deleted(a).cursor == a.cursor,
        deleted(a).input.len() == a.input.len() - 1,
        deleted(a).input.take(a.cursor as int) == a.input.take(a.cursor as int),
        deleted(a).input.skip(a.cursor as int) == a.input.skip(a.cursor + 1),
{
    assert(deleted(a).input.take(a.cursor as int) =~= a.input.take(a.cursor as int));
    assert(deleted(a).input.skip(a.cursor as int) =~= a.input.skip(a.cursor + 1));
}

/// One step to the right and one to the left lead back, and neither leaves the
/// text.
pub proof fn law_mark_steps(s: Seq<char>, c: usize)
    requires
        c <= s.len() <= usize::MAX,
    ensures
        c < s.len() ==> cursor_right(s, c) == c + 1 && cursor_left(s, cursor_right(s, c)) == c,
        c > 0 ==> cursor_left(s, c) == c - 1 && cursor_right(s, cursor_left(s, c)) == c,
        cursor_right(s, c) <= s.len(),
        cursor_left(s, 0) == 0,
{
}

/// The start of a line stands behind a line break or at the start of the text,
/// with no line break between it and the mark; its end before one or at the end.
pub proof fn law_line_bounds(s: Seq<char>, c: int)
    requires
        0 <= c <= s.len(),
    ensures
        0 <= line_start(s, c) <= c <= line_end(s, c) <= s.len(),
        line_start(s, c) > 0 ==> s[line_start(s, c) - 1] == '\n',
        line_end(s, c) < s.len() ==> s[line_end(s, c)] == '\n',
        forall|k: int| line_start(s, c) <= k < line_end(s, c) ==> #[trigger] s[k] != '\n',
{
    lemma_line_start(s, c);
    lemma_line_end(s, c);
}

proof fn lemma_line_start(s: Seq<char>, c: int)
    requires
        0 <= c <= s.len(),
    ensures
        0 <= line_start(s, c) <= c,
        line_start(s, c) > 0 ==> s[line_start(s, c) - 1] == '\n',
        forall|k: int| line_start(s, c) <= k < c ==> #[trigger] s[k] != '\n',
    decreases c,
{
    if c > 0 && s[c - 1] != '\n' {
        lemma_line_start(s, c - 1);
    }
}

proof fn lemma_line_end(s: Seq<char>, c: int)
    requires
        0 <= c <= s.len(),
    ensures
        c <= line_end(s, c) <= s.len(),
        line_end(s, c) < s.len() ==> s[line_end(s, c)] == '\n',
        forall|k: int| c <= k < line_end(s, c) ==> #[trigger] s[k] != '\n',
    decreases s.len() - c,
{
    if c < s.len() && s[c] != '\n' {
        lemma_line_end(s, c + 1);
    }
}

proof fn lemma_same_line(s: Seq<char>, from: int, p: int)
    requires
        0 <= from <= p <= s.len(),
        from > 0 ==> s[from - 1] == '\n',
        forall|k: int| from <= k < p ==> #[trigger] s[k] != '\n',
    ensures
        line_start(s, p) == from,
    decreases p,
{
    if p > from {
        assert(s[p - 1] != '\n');
        lemma_same_line(s, from, p - 1);
    }
}

/// One line up: the mark comes to stand on the line before, in the same column
/// or, where that line is shorter, at its end.
pub proof fn law_line_above(s: Seq<char>, c: int)
    requires
        0 <= c <= s.len(),
        line_start(s, c) > 0,
    ensures
        ({
            let start = line_start(s, c);
            let p = line_above(s, c);
            &&& 0 <= p < start
            &&& line_start(s, p) == line_start(s, start - 1)
            &&& p - line_start(s, p) == c - start || (p == start - 1 && p - line_start(s, p) <= c
                - start)
        }),
{
    law_line_bounds(s, c);
    let start = line_start(s, c);
    law_line_bounds(s, start - 1);
    let from = line_start(s, start - 1);
    let p = line_above(s, c);
    assert forall|k: int| from <= k < p implies #[trigger] s[k] != '\n' by {
        assert(line_end(s, start - 1) == start - 1);
    }
    lemma_same_line(s, from, p);
}

/// One line down: the mark comes to stand on the line after, in the same column
/// or, where that line is shorter, at its end.
pub proof fn law_line_below(s: Seq<char>, c: int)
    requires
        0 <= c <= s.len(),
        line_end(s, c) < s.len(),
    ensures
        ({
            let start = line_start(s, c);
            let end = line_end(s, c);
            let p = line_below(s, c);
            &&& end < p <= s.len()
            &&& line_start(s, p) == end + 1
            &&& p - (end + 1) == c - start || (p == line_end(s, end + 1) && p - (end + 1) <= c
                - start)
        }),
{
    law_line_bounds(s, c);
    let end = line_end(s, c);
    law_line_bounds(s, end + 1);
    let p = line_below(s, c);
    lemma_same_line(s, end + 1, end + 1);
    lemma_same_line(s, end + 1, p);
}

/// Going back through the prompts shows the last one first, then each before it;
/// going forward shows each after it.
pub proof fn law_prompts_are_recalled(a: TuiAppView)
    requires
        0 < a.prompt_history.len() <= usize::MAX,
    ensures
        a.recalled is None ==> older_prompt(a).input == a.prompt_history.last(),
        a.recalled matches Some(k) ==> (0 < k < a.prompt_history.len() ==> older_prompt(a).input
            == a.prompt_history[k - 1]),
        a.recalled matches Some(k) ==> (k + 1 < a.prompt_history.len() ==> newer_prompt(a).input
            == a.prompt_history[k + 1]),
        a.recalled matches Some(k) ==> (k + 1 >= a.prompt_history.len() ==> newer_prompt(a).input
            == a.draft),
        older_prompt(a).prompt_history == a.prompt_history,
{
}

/// The next hit and the one before lead back to each other, round the end too.
pub proof fn law_hits_go_round(current: usize, n: nat)
    requires
        current < n <= usize::MAX,
    ensures
        match_beside(current, n, true) < n,
        match_beside(current, n, false) < n,
        match_beside(match_beside(current, n, true), n, false) == current,
        match_beside(match_beside(current, n, false), n, true) == current,
        current + 1 < n ==> match_beside(current, n, true) == current + 1,
{
}

/// Scrolling up shows what is above and stops following; as far down again shows
/// the same place.
pub proof fn law_scrolling(a: TuiAppView, n: nat)
    requires
        n <= a.scroll,
    ensures
        scrolled_up(a, n as int).scroll == a.scroll - n,
        !scrolled_up(a, n as int).follow,
        scrolled_down(scrolled_up(a, n as int), n as int).scroll == a.scroll,
        scrolled_up(a, n as int).messages == a.messages,
{
}

/// What is sought is what is typed, and the hits are those of the messages.
pub proof fn law_query_is_sought(a: TuiAppView, s: SearchView, t: Seq<char>)
    requires
        a.search == Some(s),
        s.cursor == s.query.len(),
        s.query.len() + t.len() <= usize::MAX,
    ensures
        query_typed(a, t).search matches Some(r) && r.query == s.query + t && r.matches == found_in(
            a.messages,
            s.query + t,
        ) && r.open == s.open && r.saved == s.saved,
        query_typed(a, t).input == a.input,
{
    assert(inserted(s.query, s.cursor, t) =~= s.query + t);
}

proof fn lemma_unbroken_front(x: Seq<char>, y: Seq<char>, i: int)
    requires
        0 <= i <= x.len(),
        i < x.len() || (y.len() > 0 ==> y[0] != '\n') || (x.len() > 0 ==> x.last() != '\r'),
    ensures
        unbroken_to(x + y, i) == unbroken_to(x, i),
    decreases i,
{
    if i > 0 {
        lemma_unbroken_front(x, y, i - 1);
        assert((x + y)[i - 1] == x[i - 1]);
        if i < x.len() {
            assert((x + y)[i] == x[i]);
        }
    }
}

proof fn lemma_unbroken_back(x: Seq<char>, y: Seq<char>, j: int)
    requires
        0 <= j <= y.len(),
        (y.len() > 0 ==> y[0] != '\n') || (x.len() > 0 ==> x.last() != '\r'),
    ensures
        unbroken_to(x + y, x.len() + j) == unbroken(x) + unbroken_to(y, j),
    decreases j,
{
    if j == 0 {
        lemma_unbroken_front(x, y, x.len() as int);
        assert(unbroken(x) + unbroken_to(y, 0) =~= unbroken(x));
    } else {
        lemma_unbroken_back(x, y, j - 1);
        assert((x + y)[x.len() + j - 1] == y[j - 1]);
        if j < y.len() {
            assert((x + y)[x.len() + j] == y[j]);
        }
        assert(unbroken_to(x + y, x.len() + j) =~= unbroken(x) + unbroken_to(y, j));
    }
}

proof fn lemma_unbroken_plain(s: Seq<char>, i: int)
    requires
        0 <= i <= s.len(),
        !s.contains('\r'),
    ensures
        unbroken_to(s, i) == s.take(i),
    decreases i,
{
    if i > 0 {
        lemma_unbroken_plain(s, i - 1);
        assert(s[i - 1] != '\r');
        assert(s.take(i) =~= s.take(i - 1).push(s[i - 1]));
    } else {
        assert(s.take(0) =~= Seq::empty());
    }
}

/// Each kind of line break of a paste becomes one line feed, and everything else
/// is kept.
pub proof fn law_paste_is_kept(a: Seq<char>, b: Seq<char>)
    requires
        !a.contains('\r'),
        !b.contains('\r'),
    ensures
        unbroken(a) == a,
        unbroken(a + seq!['\r', '\n'] + b) == a + seq!['\n'] + b,
        (b.len() > 0 ==> b[0] != '\n') ==> unbroken(a + seq!['\r'] + b) == a + seq!['\n'] + b,
{
    lemma_unbroken_plain(a, a.len() as int);
    lemma_unbroken_plain(b, b.len() as int);
    assert(a.take(a.len() as int) =~= a);
    assert(b.take(b.len() as int) =~= b);
    if a.len() > 0 {
        assert(a[a.len() - 1] != '\r');
    }
    reveal_with_fuel(unbroken_to, 3);
    let two = seq!['\r', '\n'];
    assert(unbroken(two) =~= seq!['\n']);
    lemma_unbroken_back(a, two, 2);
    assert(unbroken(a + two) =~= a + seq!['\n']);
    lemma_unbroken_back(a + two, b, b.len() as int);
    let one = seq!['\r'];
    assert(unbroken(one) =~= seq!['\n']);
    lemma_unbroken_back(a, one, 1);
    assert(unbroken(a + one) =~= a + seq!['\n']);
    if b.len() > 0 ==> b[0] != '\n' {
        lemma_unbroken_back(a + one, b, b.len() as int);
    }
}

/// To the next hit and back is where one was; the hits stay.
pub proof fn law_steps_lead_back(a: TuiAppView, s: SearchView)
    requires
        a.search == Some(s),
        s.current < s.matches.len() <= usize::MAX,
    ensures
        stepped(stepped(a, true), false).search == a.search,
        stepped(a, true).search matches Some(r) && r.matches == s.matches && r.query == s.query,
        !stepped(a, true).follow,
{
    law_hits_go_round(s.current, s.matches.len());
}

/// Backspace in a search takes back what was typed.
pub proof fn law_query_backspace(a: TuiAppView, s: SearchView, c: char)
    requires
        a.search == Some(s),
        s.cursor == s.query.len(),
        s.query.len() < usize::MAX,
    ensures
        query_edited(query_typed(a, seq![c]), QueryEdit::Backspace).search matches Some(r) && r.query
            == s.query && r.cursor == s.cursor && r.matches == found_in(a.messages, s.query),
{
    law_query_is_sought(a, s, seq![c]);
    let q = s.query + seq![c];
    assert(without_char(q, s.query.len() as int) =~= s.query);
}

/// Up and down move through the lines of a prompt that has more than one, and
/// through the prompts before it otherwise.
pub proof fn law_up_and_down(a: TuiAppView)
    requires
        a.cursor <= a.input.len() <= usize::MAX,
        a.prompt_history.len() <= usize::MAX,
    ensures
        a.input.contains('\n') ==> upped(a).input == a.input && downed(a).input == a.input
            && upped(a).recalled == a.recalled,
        !a.input.contains('\n') && a.recalled is None && a.prompt_history.len() > 0 ==> upped(a).input
            == a.prompt_history.last(),
        !a.input.contains('\n') && a.recalled is None ==> downed(a) == a,
{
}

} // verus!
