//! The lines typed at a prompt: commands begin with a slash, anything else is
//! for the agent.

use crate::text::{
    blank, from_chars, is_white, lemma_trim_empty_iff_blank, lemma_trim_solid, same, split, to_chars, trim,
    trim_start, trimmed, white, word_list, words,
};
use vstd::prelude::*;

verus! {

/// What a line asks for.
#[derive(Debug, Clone, PartialEq, Eq)]
pub enum Input {
    Empty,
    Exit,
    Help,
    Diff,
    Usage,
    Context,
    Todos,
    /// Show the queue, or empty it.
    Queue(bool),
    Export { path: Option<String>, json: bool },
    Stop,
    Mode(Option<String>),
    Model(Option<String>),
    Thought(Option<String>),
    Compact,
    Resume(Option<String>),
    New(Option<String>),
    Fork(Option<String>),
    Goal(Option<String>),
    Unknown(String),
    Text(String),
}

/// The first word of a text that does not begin with white space.
pub open spec fn first_word(s: Seq<char>) -> Seq<char>
    decreases s.len(),
{
    if s.len() == 0 || is_white(s[0]) {
        Seq::empty()
    } else {
        seq![s[0]] + first_word(s.drop_first())
    }
}

/// What follows the first word, without white space at its ends.
pub open spec fn after_word(s: Seq<char>) -> Seq<char> {
    trim(s.skip(first_word(s).len() as int))
}

/// The first word other than `--json`.
pub open spec fn path_word(w: Seq<Seq<char>>) -> Option<Seq<char>>
    decreases w.len(),
{
    if w.len() == 0 {
        None
    } else {
        match path_word(w.drop_last()) {
            Some(p) => Some(p),
            None => if w.last() == "--json"@ {
                None
            } else {
                Some(w.last())
            },
        }
    }
}

pub enum InputView {
    Empty,
    Exit,
    Help,
    Diff,
    Usage,
    Context,
    Todos,
    Queue(bool),
    Export { path: Option<Seq<char>>, json: bool },
    Stop,
    Mode(Option<Seq<char>>),
    Model(Option<Seq<char>>),
    Thought(Option<Seq<char>>),
    Compact,
    Resume(Option<Seq<char>>),
    New(Option<Seq<char>>),
    Fork(Option<Seq<char>>),
    Goal(Option<Seq<char>>),
    Unknown(Seq<char>),
    Text(Seq<char>),
}

impl View for Input {
    type V = InputView;

    open spec fn view(&self) -> InputView {
        match self {
            Input::Empty => InputView::Empty,
            Input::Exit => InputView::Exit,
            Input::Help => InputView::Help,
            Input::Diff => InputView::Diff,
            Input::Usage => InputView::Usage,
            Input::Context => InputView::Context,
            Input::Todos => InputView::Todos,
            Input::Queue(c) => InputView::Queue(*c),
            Input::Export { path, json } => InputView::Export { path: path.deep_view(), json: *json },
            Input::Stop => InputView::Stop,
            Input::Mode(a) => InputView::Mode(a.deep_view()),
            Input::Model(a) => InputView::Model(a.deep_view()),
            Input::Thought(a) => InputView::Thought(a.deep_view()),
            Input::Compact => InputView::Compact,
            Input::Resume(a) => InputView::Resume(a.deep_view()),
            Input::New(a) => InputView::New(a.deep_view()),
            Input::Fork(a) => InputView::Fork(a.deep_view()),
            Input::Goal(a) => InputView::Goal(a.deep_view()),
            Input::Unknown(c) => InputView::Unknown(c@),
            Input::Text(t) => InputView::Text(t@),
        }
    }
}

/// An argument that may be missing.
pub open spec fn argument(rest: Seq<char>) -> Option<Seq<char>> {
    if rest.len() == 0 {
        None
    } else {
        Some(rest)
    }
}

/// What a command with what follows it asks for.
pub open spec fn command_of(word: Seq<char>, rest: Seq<char>) -> InputView {
    if word == "/exit"@ || word == "/quit"@ {
        InputView::Exit
    } else if word == "/help"@ {
        InputView::Help
    } else if word == "/diff"@ {
        InputView::Diff
    } else if word == "/usage"@ {
        InputView::Usage
    } else if word == "/context"@ {
        InputView::Context
    } else if word == "/todos"@ {
        InputView::Todos
    } else if word == "/queue"@ {
        InputView::Queue(rest == "clear"@)
    } else if word == "/export"@ {
        InputView::Export {
            path: path_word(words(rest)),
            json: words(rest).contains("--json"@),
        }
    } else if word == "/stop"@ {
        InputView::Stop
    } else if word == "/mode"@ {
        InputView::Mode(argument(rest))
    } else if word == "/model"@ {
        InputView::Model(argument(rest))
    } else if word == "/thought"@ {
        InputView::Thought(argument(rest))
    } else if word == "/compact"@ {
        InputView::Compact
    } else if word == "/resume"@ {
        InputView::Resume(argument(rest))
    } else if word == "/new"@ {
        InputView::New(argument(rest))
    } else if word == "/fork"@ {
        InputView::Fork(argument(rest))
    } else if word == "/goal"@ {
        InputView::Goal(argument(rest))
    } else {
        InputView::Unknown(word)
    }
}

/// What a line asks for.
pub open spec fn input_of(line: Seq<char>) -> InputView {
    let t = trim(line);
    if t.len() == 0 {
        InputView::Empty
    } else if t[0] == '/' {
        command_of(first_word(t), after_word(t))
    } else {
        InputView::Text(t)
    }
}

proof fn lemma_first_word(s: Seq<char>, i: int)
    requires
        0 <= i <= s.len(),
        forall|k: int| 0 <= k < i ==> !is_white(#[trigger] s[k]),
        i < s.len() ==> is_white(s[i]),
    ensures
        first_word(s) == s.take(i),
    decreases i,
{
    if i == 0 {
        assert(s.take(0) =~= Seq::empty());
    } else {
        let t = s.drop_first();
        assert forall|k: int| 0 <= k < i - 1 implies !is_white(#[trigger] t[k]) by {
            assert(t[k] == s[k + 1]);
        }
        lemma_first_word(t, i - 1);
        assert(!is_white(s[0]));
        assert(seq![s[0]] + t.take(i - 1) =~= s.take(i));
    }
}

/// The first word and what follows it.
fn cut_word(s: &str) -> (r: (String, String))
    ensures
        r.0@ == first_word(s@),
        r.1@ == after_word(s@),
{
    let c = to_chars(s);
    let n: usize = c.len();
    let mut i: usize = 0;
    while i < n && !white(c[i])
        invariant
            i <= n,
            n == c@.len(),
            c@ == s@,
            forall|k: int| 0 <= k < i ==> !is_white(#[trigger] c@[k]),
        decreases n - i,
    {
        i = i + 1;
    }
    proof {
        lemma_first_word(c@, i as int);
        assert(c@.subrange(0, i as int) =~= c@.take(i as int));
        assert(c@.subrange(i as int, n as int) =~= c@.skip(i as int));
    }
    let word = from_chars(c.as_slice(), 0, i);
    let rest = from_chars(c.as_slice(), i, n);
    let r = trimmed(rest.as_str());
    (word, r)
}

fn arg(rest: String) -> (r: Option<String>)
    ensures
        r.deep_view() == argument(rest@),
{
    if rest.as_str().is_empty() {
        None
    } else {
        Some(rest)
    }
}

fn export_args(rest: &str) -> (r: (Option<String>, bool))
    ensures
        r.0.deep_view() == path_word(words(rest@)),
        r.1 == words(rest@).contains("--json"@),
{
    let w = word_list(rest);
    let ghost all = w.deep_view();
    let mut path: Option<String> = None;
    let mut json = false;
    let mut i: usize = 0;
    while i < w.len()
        invariant
            i <= w@.len(),
            all == w.deep_view(),
            path.deep_view() == path_word(all.take(i as int)),
            json == all.take(i as int).contains("--json"@),
        decreases w@.len() - i,
    {
        let ghost x = w@[i as int]@;
        proof {
            let t = all.take(i + 1);
            assert(t.drop_last() =~= all.take(i as int));
            assert(t.last() == x);
            assert(t =~= all.take(i as int).push(x));
            if all.take(i as int).contains("--json"@) {
                let k = choose|k: int|
                    0 <= k < all.take(i as int).len() && all.take(i as int)[k] == "--json"@;
                assert(t[k] == "--json"@);
            }
            if t.contains("--json"@) && x != "--json"@ {
                let k = choose|k: int| 0 <= k < t.len() && t[k] == "--json"@;
                assert(all.take(i as int)[k] == "--json"@);
            }
            if x == "--json"@ {
                assert(t[i as int] == x);
            }
        }
        if same(w[i].as_str(), "--json") {
            json = true;
        } else if path.is_none() {
            path = Some(w[i].clone());
        }
        i = i + 1;
    }
    assert(all.take(all.len() as int) =~= all);
    (path, json)
}

fn command(word: &str, rest: String) -> (r: Input)
    ensures
        r@ == command_of(word@, rest@),
{
    if same(word, "/exit") || same(word, "/quit") {
        Input::Exit
    } else if same(word, "/help") {
        Input::Help
    } else if same(word, "/diff") {
        Input::Diff
    } else if same(word, "/usage") {
        Input::Usage
    } else if same(word, "/context") {
        Input::Context
    } else if same(word, "/todos") {
        Input::Todos
    } else if same(word, "/queue") {
        Input::Queue(same(rest.as_str(), "clear"))
    } else if same(word, "/export") {
        let (path, json) = export_args(rest.as_str());
        Input::Export { path, json }
    } else if same(word, "/stop") {
        Input::Stop
    } else if same(word, "/mode") {
        Input::Mode(arg(rest))
    } else if same(word, "/model") {
        Input::Model(arg(rest))
    } else if same(word, "/thought") {
        Input::Thought(arg(rest))
    } else if same(word, "/compact") {
        Input::Compact
    } else if same(word, "/resume") {
        Input::Resume(arg(rest))
    } else if same(word, "/new") {
        Input::New(arg(rest))
    } else if same(word, "/fork") {
        Input::Fork(arg(rest))
    } else if same(word, "/goal") {
        Input::Goal(arg(rest))
    } else {
        Input::Unknown(word.to_owned())
    }
}

/// Reads a line.
pub fn parse_input(line: &str) -> (r: Input)
    ensures
        r@ == input_of(line@),
{
    let t = trimmed(line);
    let c = to_chars(t.as_str());
    if c.len() == 0 {
        return Input::Empty;
    }
    if c[0] == '/' {
        let (word, rest) = cut_word(t.as_str());
        return command(word.as_str(), rest);
    }
    Input::Text(t)
}

// ---------------------------------------------------------------- laws

proof fn lemma_first_word_of(word: Seq<char>, rest: Seq<char>)
    requires
        forall|k: int| 0 <= k < word.len() ==> !is_white(#[trigger] word[k]),
        rest.len() > 0 ==> is_white(rest[0]),
    ensures
        first_word(word + rest) == word,
    decreases word.len(),
{
    if word.len() == 0 {
        assert(word + rest =~= rest);
        assert(first_word(word + rest) =~= word);
    } else {
        let w = word.drop_first();
        assert((word + rest).drop_first() =~= w + rest);
        assert forall|k: int| 0 <= k < w.len() implies !is_white(#[trigger] w[k]) by {
            assert(w[k] == word[k + 1]);
        }
        lemma_first_word_of(w, rest);
        assert(seq![word[0]] + w =~= word);
    }
}

/// A command is its first word, and its argument is what follows, trimmed:
/// white space around the line and between the two does not count.
pub proof fn law_command_and_argument(word: Seq<char>, argument: Seq<char>)
    requires
        word.len() > 0,
        word[0] == '/',
        forall|k: int| 0 <= k < word.len() ==> !is_white(#[trigger] word[k]),
        argument.len() > 0 ==> !is_white(argument[0]) && !is_white(argument.last()),
    ensures
        argument.len() > 0 ==> input_of(word + seq![' '] + argument) == command_of(word, argument),
        input_of(word) == command_of(word, Seq::empty()),
{
    let none = Seq::<char>::empty();
    assert(word + none =~= word);
    lemma_first_word_of(word, none);
    assert(!is_white(word[word.len() - 1]));
    lemma_trim_solid(word);
    assert(word.skip(word.len() as int) =~= none);
    if argument.len() > 0 {
        let rest = seq![' '] + argument;
        let line = word + seq![' '] + argument;
        assert(line =~= word + rest);
        lemma_first_word_of(word, rest);
        lemma_trim_solid(line);
        assert(line.skip(word.len() as int) =~= rest);
        assert(rest.drop_first() =~= argument);
        assert(trim_start(rest) == trim_start(argument));
        assert(trim(rest) == trim(argument));
        lemma_trim_solid(argument);
    }
}

/// What does not begin with a slash is a message, and is passed on as it is but
/// for white space around it; a blank line is nothing.
pub proof fn law_text_is_a_message(line: Seq<char>)
    ensures
        blank(line) <==> input_of(line) == InputView::Empty,
        line.len() > 0 && !is_white(line[0]) && !is_white(line.last()) && line[0] != '/'
            ==> input_of(line) == InputView::Text(line),
        input_of(line) matches InputView::Text(t) ==> t == trim(line) && t.len() > 0 && t[0] != '/',
{
    lemma_trim_empty_iff_blank(line);
    if line.len() > 0 && !is_white(line[0]) && !is_white(line.last()) {
        lemma_trim_solid(line);
    }
}

/// Each command word has its own meaning, and its argument is handed on.
pub proof fn law_command_words(rest: Seq<char>)
    requires
        rest.len() > 0,
    ensures
        command_of("/exit"@, rest) == InputView::Exit,
        command_of("/quit"@, rest) == InputView::Exit,
        command_of("/help"@, rest) == InputView::Help,
        command_of("/diff"@, rest) == InputView::Diff,
        command_of("/usage"@, rest) == InputView::Usage,
        command_of("/context"@, rest) == InputView::Context,
        command_of("/todos"@, rest) == InputView::Todos,
        command_of("/stop"@, rest) == InputView::Stop,
        command_of("/compact"@, rest) == InputView::Compact,
        command_of("/queue"@, "clear"@) == InputView::Queue(true),
        command_of("/queue"@, Seq::empty()) == InputView::Queue(false),
        command_of("/mode"@, rest) == InputView::Mode(Some(rest)),
        command_of("/model"@, rest) == InputView::Model(Some(rest)),
        command_of("/thought"@, rest) == InputView::Thought(Some(rest)),
        command_of("/resume"@, rest) == InputView::Resume(Some(rest)),
        command_of("/new"@, rest) == InputView::New(Some(rest)),
        command_of("/fork"@, rest) == InputView::Fork(Some(rest)),
        command_of("/goal"@, rest) == InputView::Goal(Some(rest)),
        command_of("/mode"@, Seq::empty()) == InputView::Mode(None),
        command_of("/resume"@, Seq::empty()) == InputView::Resume(None),
{
    reveal_strlit("clear");
    assert("clear"@.len() == 5);
    reveal_strlit("/exit");
    reveal_strlit("/quit");
    reveal_strlit("/help");
    reveal_strlit("/diff");
    reveal_strlit("/usage");
    reveal_strlit("/context");
    reveal_strlit("/todos");
    reveal_strlit("/queue");
    reveal_strlit("/export");
    reveal_strlit("/stop");
    reveal_strlit("/mode");
    reveal_strlit("/model");
    reveal_strlit("/thought");
    reveal_strlit("/compact");
    reveal_strlit("/resume");
    reveal_strlit("/new");
    reveal_strlit("/fork");
    reveal_strlit("/goal");
    assert("/exit"@.len() == 5 && "/quit"@.len() == 5 && "/help"@.len() == 5 && "/diff"@.len() == 5 && "/usage"@.len() == 6 && "/context"@.len() == 8 && "/todos"@.len() == 6 && "/queue"@.len() == 6 && "/export"@.len() == 7 && "/stop"@.len() == 5 && "/mode"@.len() == 5 && "/model"@.len() == 6 && "/thought"@.len() == 8 && "/compact"@.len() == 8 && "/resume"@.len() == 7 && "/new"@.len() == 4 && "/fork"@.len() == 5 && "/goal"@.len() == 5);
    assert("/exit"@[1] != "/quit"@[1]);
    assert("/exit"@[1] != "/help"@[1]);
    assert("/exit"@[1] != "/diff"@[1]);
    assert("/exit"@[1] != "/stop"@[1]);
    assert("/exit"@[1] != "/mode"@[1]);
    assert("/exit"@[1] != "/fork"@[1]);
    assert("/exit"@[1] != "/goal"@[1]);
    assert("/quit"@[1] != "/help"@[1]);
    assert("/quit"@[1] != "/diff"@[1]);
    assert("/quit"@[1] != "/stop"@[1]);
    assert("/quit"@[1] != "/mode"@[1]);
    assert("/quit"@[1] != "/fork"@[1]);
    assert("/quit"@[1] != "/goal"@[1]);
    assert("/help"@[1] != "/diff"@[1]);
    assert("/help"@[1] != "/stop"@[1]);
    assert("/help"@[1] != "/mode"@[1]);
    assert("/help"@[1] != "/fork"@[1]);
    assert("/help"@[1] != "/goal"@[1]);
    assert("/diff"@[1] != "/stop"@[1]);
    assert("/diff"@[1] != "/mode"@[1]);
    assert("/diff"@[1] != "/fork"@[1]);
    assert("/diff"@[1] != "/goal"@[1]);
    assert("/usage"@[1] != "/todos"@[1]);
    assert("/usage"@[1] != "/queue"@[1]);
    assert("/usage"@[1] != "/model"@[1]);
    assert("/context"@[1] != "/thought"@[1]);
    assert("/context"@[3] != "/compact"@[3]);
    assert("/todos"@[1] != "/queue"@[1]);
    assert("/todos"@[1] != "/model"@[1]);
    assert("/queue"@[1] != "/model"@[1]);
    assert("/export"@[1] != "/resume"@[1]);
    assert("/stop"@[1] != "/mode"@[1]);
    assert("/stop"@[1] != "/fork"@[1]);
    assert("/stop"@[1] != "/goal"@[1]);
    assert("/mode"@[1] != "/fork"@[1]);
    assert("/mode"@[1] != "/goal"@[1]);
    assert("/thought"@[1] != "/compact"@[1]);
    assert("/fork"@[1] != "/goal"@[1]);
}

/// The file of an export is the first word that is not the form.
pub proof fn law_path_word(w: Seq<Seq<char>>)
    ensures
        match path_word(w) {
            Some(p) => p != "--json"@ && exists|i: int|
                0 <= i < w.len() && #[trigger] w[i] == p && (forall|j: int|
                    0 <= j < i ==> #[trigger] w[j] == "--json"@),
            None => forall|i: int| 0 <= i < w.len() ==> #[trigger] w[i] == "--json"@,
        },
    decreases w.len(),
{
    if w.len() > 0 {
        let before = w.drop_last();
        let n = w.len() - 1;
        law_path_word(before);
        match path_word(before) {
            Some(p) => {
                let i = choose|i: int|
                    0 <= i < before.len() && #[trigger] before[i] == p && (forall|j: int|
                        0 <= j < i ==> #[trigger] before[j] == "--json"@);
                assert(w[i] == p);
                assert forall|j: int| 0 <= j < i implies #[trigger] w[j] == "--json"@ by {
                    assert(before[j] == w[j]);
                }
            },
            None => {
                assert forall|j: int| 0 <= j < n implies #[trigger] w[j] == "--json"@ by {
                    assert(before[j] == w[j]);
                }
                assert(w[n] == w.last());
            },
        }
    }
}

/// An export is asked for with its file and its form.
pub proof fn law_export_command(path: Seq<char>)
    requires
        path.len() > 0,
        forall|k: int| 0 <= k < path.len() ==> !is_white(#[trigger] path[k]),
        path != "--json"@,
    ensures
        command_of("/export"@, path) == (InputView::Export { path: Some(path), json: false }),
        command_of("/export"@, Seq::empty()) == (InputView::Export { path: None, json: false }),
{
    reveal_strlit("/exit");
    reveal_strlit("/quit");
    reveal_strlit("/help");
    reveal_strlit("/diff");
    reveal_strlit("/usage");
    reveal_strlit("/context");
    reveal_strlit("/todos");
    reveal_strlit("/queue");
    reveal_strlit("/export");
    assert("/exit"@.len() == 5 && "/quit"@.len() == 5 && "/help"@.len() == 5 && "/diff"@.len() == 5 && "/usage"@.len() == 6 && "/context"@.len() == 8 && "/todos"@.len() == 6 && "/queue"@.len() == 6 && "/export"@.len() == 7);
    assert("/exit"@[1] != "/quit"@[1]);
    assert("/exit"@[1] != "/help"@[1]);
    assert("/exit"@[1] != "/diff"@[1]);
    assert("/quit"@[1] != "/help"@[1]);
    assert("/quit"@[1] != "/diff"@[1]);
    assert("/help"@[1] != "/diff"@[1]);
    assert("/usage"@[1] != "/todos"@[1]);
    assert("/usage"@[1] != "/queue"@[1]);
    assert("/todos"@[1] != "/queue"@[1]);
    lemma_one_word(path);
    lemma_no_words();
    reveal_with_fuel(path_word, 2);
    assert(seq![path].drop_last() =~= Seq::empty());
}

proof fn lemma_no_words()
    ensures
        words(Seq::empty()) == Seq::<Seq<char>>::empty(),
{
    reveal(Seq::filter);
    reveal_with_fuel(Seq::filter, 2);
    let none = Seq::<char>::empty();
    let f = |c: char| is_white(c);
    let keep = |p: Seq<char>| p.len() > 0;
    assert(split(none, f) =~= seq![none]);
    assert(seq![none].drop_last() =~= Seq::empty());
    assert(seq![none].filter(keep) =~= Seq::empty());
}

proof fn lemma_one_word(w: Seq<char>)
    requires
        w.len() > 0,
        forall|k: int| 0 <= k < w.len() ==> !is_white(#[trigger] w[k]),
    ensures
        words(w) == seq![w],
{
    reveal(Seq::filter);
    reveal_with_fuel(Seq::filter, 2);
    let keep = |p: Seq<char>| p.len() > 0;
    lemma_split_of_solid(w);
    assert(seq![w].drop_last() =~= Seq::empty());
    assert(seq![w].filter(keep) =~= seq![w]);
}

proof fn lemma_split_of_solid(w: Seq<char>)
    requires
        forall|k: int| 0 <= k < w.len() ==> !is_white(#[trigger] w[k]),
    ensures
        split(w, |c: char| is_white(c)) == seq![w],
    decreases w.len(),
{
    let f = |c: char| is_white(c);
    if w.len() > 0 {
        let m = w.drop_last();
        assert forall|k: int| 0 <= k < m.len() implies !is_white(#[trigger] m[k]) by {
            assert(m[k] == w[k]);
        }
        lemma_split_of_solid(m);
        assert(!is_white(w[w.len() - 1]));
        assert(m.push(w.last()) =~= w);
    } else {
        assert(w =~= Seq::empty());
    }
    assert(split(w, f) =~= seq![w]);
}

} // verus!
