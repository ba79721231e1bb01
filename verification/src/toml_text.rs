//! A part of TOML: documents of tables with plain texts and numbers, as they
//! are written and what they say.

use crate::json::JsonView;
use crate::text::{dec, replace_char};
use vstd::prelude::*;

verus! {

/// A document, line after line.
pub enum Toml {
    Start,
    Blank(Box<Toml>),
    Comment(Box<Toml>, Seq<char>),
    /// A table, open for the lines after it.
    Table(Box<Toml>, Seq<char>),
    Text(Box<Toml>, Seq<char>, Seq<char>),
    Number(Box<Toml>, Seq<char>, nat),
}

/// A character that a key or the name of a table may have without quotes.
pub open spec fn bare_char(c: char) -> bool {
    'a' <= c <= 'z' || 'A' <= c <= 'Z' || '0' <= c <= '9' || c == '_' || c == '-'
}

pub open spec fn bare(s: Seq<char>) -> bool {
    s.len() > 0 && forall|i: int| 0 <= i < s.len() ==> bare_char(#[trigger] s[i])
}

/// A text without control characters, such as a line break.
pub open spec fn no_control(s: Seq<char>) -> bool {
    forall|i: int| 0 <= i < s.len() ==> (#[trigger] s[i]) as u32 >= 0x20 && s[i] as u32 != 0x7f
}

/// A text that only its backslashes are escaped in.
pub open spec fn plain(s: Seq<char>) -> bool {
    no_control(s) && !s.contains('"')
}

/// What stands in each table, with one more entry in the open one.
pub open spec fn with_entry(
    tables: Map<Seq<char>, Map<Seq<char>, JsonView>>,
    opened: Option<Seq<char>>,
    key: Seq<char>,
    value: JsonView,
) -> Map<Seq<char>, Map<Seq<char>, JsonView>> {
    match opened {
        Some(name) => tables.insert(name, tables[name].insert(key, value)),
        None => tables,
    }
}

impl Toml {
    pub open spec fn blank(self) -> Toml {
        Toml::Blank(Box::new(self))
    }

    pub open spec fn comment(self, t: Seq<char>) -> Toml {
        Toml::Comment(Box::new(self), t)
    }

    pub open spec fn table(self, name: Seq<char>) -> Toml {
        Toml::Table(Box::new(self), name)
    }

    pub open spec fn text(self, key: Seq<char>, value: Seq<char>) -> Toml {
        Toml::Text(Box::new(self), key, value)
    }

    pub open spec fn number(self, key: Seq<char>, value: nat) -> Toml {
        Toml::Number(Box::new(self), key, value)
    }

    /// How the document is written.
    pub open spec fn written(self) -> Seq<char>
        decreases self,
    {
        match self {
            Toml::Start => Seq::empty(),
            Toml::Blank(d) => d.written() + "\n"@,
            Toml::Comment(d, t) => d.written() + "#"@ + t + "\n"@,
            Toml::Table(d, name) => d.written() + "["@ + name + "]\n"@,
            Toml::Text(d, key, value) => d.written() + key + " = \""@ + replace_char(
                value,
                '\\',
                "\\\\"@,
            ) + "\"\n"@,
            Toml::Number(d, key, value) => d.written() + key + " = "@ + dec(value) + "\n"@,
        }
    }

    /// The table that is open at the end.
    pub open spec fn opened(self) -> Option<Seq<char>>
        decreases self,
    {
        match self {
            Toml::Start => None,
            Toml::Blank(d) => d.opened(),
            Toml::Comment(d, _) => d.opened(),
            Toml::Table(_, name) => Some(name),
            Toml::Text(d, _, _) => d.opened(),
            Toml::Number(d, _, _) => d.opened(),
        }
    }

    /// What stands in each table.
    pub open spec fn tables(self) -> Map<Seq<char>, Map<Seq<char>, JsonView>>
        decreases self,
    {
        match self {
            Toml::Start => Map::empty(),
            Toml::Blank(d) => d.tables(),
            Toml::Comment(d, _) => d.tables(),
            Toml::Table(d, name) => d.tables().insert(name, Map::empty()),
            Toml::Text(d, key, value) => with_entry(d.tables(), d.opened(), key, JsonView::Str(value)),
            Toml::Number(d, key, value) => with_entry(
                d.tables(),
                d.opened(),
                key,
                JsonView::Int(value as int),
            ),
        }
    }

    /// A key that the open table does not have yet.
    pub open spec fn takes(self, key: Seq<char>) -> bool {
        &&& bare(key)
        &&& self.opened() matches Some(name) && !self.tables()[name].dom().contains(key)
    }

    /// A document of this part of TOML: keys stand in tables, none stands twice
    /// in its table and no table twice, texts are plain, and numbers fit in 64
    /// bits with their sign.
    pub open spec fn fits(self) -> bool
        decreases self,
    {
        match self {
            Toml::Start => true,
            Toml::Blank(d) => d.fits(),
            Toml::Comment(d, t) => d.fits() && no_control(t),
            Toml::Table(d, name) => d.fits() && bare(name) && !d.tables().dom().contains(name),
            Toml::Text(d, key, value) => d.fits() && d.takes(key) && plain(value),
            Toml::Number(d, key, value) => d.fits() && d.takes(key) && value <= i64::MAX,
        }
    }

    /// What the document says: an object of objects.
    pub open spec fn value(self) -> JsonView {
        JsonView::Obj(
            Map::new(
                |name: Seq<char>| self.tables().dom().contains(name),
                |name: Seq<char>| JsonView::Obj(self.tables()[name]),
            ),
        )
    }
}

// ---------------------------------------------------------------- characters

/// The first `n` characters can stand in a key.
pub open spec fn bare_upto(s: Seq<char>, n: nat) -> bool
    decreases n,
{
    n == 0 || (bare_char(s[n - 1]) && bare_upto(s, (n - 1) as nat))
}

/// None of the first `n` characters is a control character.
pub open spec fn no_control_upto(s: Seq<char>, n: nat) -> bool
    decreases n,
{
    n == 0 || (s[n - 1] as u32 >= 0x20 && s[n - 1] as u32 != 0x7f && no_control_upto(
        s,
        (n - 1) as nat,
    ))
}

proof fn lemma_bare_upto(s: Seq<char>, n: nat, i: int)
    requires
        bare_upto(s, n),
        0 <= i < n,
    ensures
        bare_char(s[i]),
    decreases n,
{
    if i < n - 1 {
        lemma_bare_upto(s, (n - 1) as nat, i);
    }
}

/// A text whose characters are bare one by one is bare.
pub proof fn lemma_bare(s: Seq<char>)
    requires
        s.len() > 0,
        bare_upto(s, s.len()),
    ensures
        bare(s),
{
    assert forall|i: int| 0 <= i < s.len() implies bare_char(#[trigger] s[i]) by {
        lemma_bare_upto(s, s.len(), i);
    }
}

proof fn lemma_no_control_upto(s: Seq<char>, n: nat, i: int)
    requires
        no_control_upto(s, n),
        0 <= i < n,
    ensures
        s[i] as u32 >= 0x20 && s[i] as u32 != 0x7f,
    decreases n,
{
    if i < n - 1 {
        lemma_no_control_upto(s, (n - 1) as nat, i);
    }
}

/// A text without control characters one by one has none.
pub proof fn lemma_no_control(s: Seq<char>)
    requires
        no_control_upto(s, s.len()),
    ensures
        no_control(s),
{
    assert forall|i: int| 0 <= i < s.len() implies (#[trigger] s[i]) as u32 >= 0x20 && s[i] as u32
        != 0x7f by {
        lemma_no_control_upto(s, s.len(), i);
    }
}

} // verus!
