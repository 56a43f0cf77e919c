//! Snippets: substitutions applied to the line when a trigger key is
//! pressed.

use vstd::prelude::*;

use crate::keybinding::{KeyCode, KeyEvent, KeyModifiers};

verus! {

/// When a snippet should be expanded.
#[derive(Debug, PartialEq, Eq, Structural, Clone, Copy)]
pub enum ExpandSnippet {
    OnTab,
    OnSpace,
    Never,
    OnKey(KeyEvent),
}

/// Where in the line a snippet's trigger must stand to be expanded.
#[derive(Debug, PartialEq, Eq, Structural, Clone, Copy)]
pub enum Position {
    Command,
    Anywhere,
}

/// One snippet: the text inserted and where its trigger must stand.
pub struct SnippetInfo {
    /// Value to be inserted.
    pub value: String,
    /// Where the snippet needs to be, to be expanded.
    pub position: Position,
}

impl SnippetInfo {
    /// A snippet with the given replacement text and position.
    pub fn new(value: String, position: Position) -> (r: SnippetInfo)
        ensures
            r.value@ == value@,
            r.position == position,
    {
        SnippetInfo { value, position }
    }
}

/// The snippet table: triggers to replacements, an expansion policy
/// and an on/off switch; the latest binding of a trigger wins.
pub struct Snippets {
    /// Trigger bindings; the latest for a name wins.
    pub entries: Vec<(String, SnippetInfo)>,
    pub expand_snippet: ExpandSnippet,
    pub enabled: bool,
}

/// The set of names bound in the list.
pub open spec fn snippet_names(s: Seq<(String, SnippetInfo)>) -> Seq<Seq<char>> {
    s.map_values(|e: (String, SnippetInfo)| e.0@)
}

impl Snippets {
    /// The bound trigger names, in insertion order.
    pub closed spec fn names(self) -> Seq<Seq<char>> {
        snippet_names(self.entries@)
    }

    /// Whether a trigger is bound.
    pub open spec fn has(self, name: Seq<char>) -> bool {
        exists|k: int| 0 <= k < self.names().len() && self.names()[k] == name
    }

    /// An empty, enabled table with the given expansion policy.
    pub fn new(expand_snippet: ExpandSnippet) -> (r: Snippets)
        ensures
            r.names() == Seq::<Seq<char>>::empty(),
            r.expand_snippet == expand_snippet,
            r.enabled,
    {
        let r = Snippets { entries: Vec::new(), expand_snippet, enabled: true };
        proof {
            assert(r.names() =~= Seq::<Seq<char>>::empty());
        }
        r
    }

    /// Bind a trigger to a snippet, overriding an earlier binding.
    pub fn add(&mut self, name: String, s: SnippetInfo)
        ensures
            final(self).names() == old(self).names().push(name@),
            final(self).expand_snippet == old(self).expand_snippet,
            final(self).enabled == old(self).enabled,
    {
        let ghost n = name@;
        let pair = (name, s);
        let ghost p = pair;
        self.entries.push(pair);
        proof {
            assert(self.entries@ == old(self).entries@.push(p));
            assert forall|k: int| 0 <= k < self.entries@.len() implies #[trigger] self.names()[k]
                == old(self).names().push(n)[k] by {
                assert(self.names()[k] == self.entries@[k].0@);
                if k < self.entries@.len() - 1 {
                    assert(self.entries@[k] == old(self).entries@[k]);
                    assert(old(self).names()[k] == old(self).entries@[k].0@);
                }
            }
            assert(self.names() =~= old(self).names().push(n));
        }
    }

    /// Whether the event triggers snippet expansion: never while the
    /// table is disabled, else exactly when the event is the configured
    /// trigger key — space, tab, or a chosen key.
    pub fn should_expand(&self, event: &KeyEvent) -> (r: bool)
        ensures
            r == (self.enabled && (match self.expand_snippet {
                ExpandSnippet::OnSpace => *event == KeyEvent::plain_spec(KeyCode::Char(' ')),
                ExpandSnippet::OnTab => *event == KeyEvent::plain_spec(KeyCode::Tab),
                ExpandSnippet::Never => false,
                ExpandSnippet::OnKey(k) => *event == k,
            })),
    {
        if !self.enabled {
            return false;
        }
        match self.expand_snippet {
            ExpandSnippet::OnSpace => {
                let want = KeyEvent::plain(KeyCode::Char(' '));
                *event == want
            },
            ExpandSnippet::OnTab => {
                let want = KeyEvent::plain(KeyCode::Tab);
                *event == want
            },
            ExpandSnippet::Never => false,
            ExpandSnippet::OnKey(k) => *event == k,
        }
    }

    /// Look the latest snippet bound to a trigger up.
    pub fn get(&self, name: &String) -> (r: Option<&SnippetInfo>)
        ensures
            r.is_some() <==> self.has(name@),
    {
        let mut i: usize = self.entries.len();
        while i > 0
            invariant
                i <= self.entries@.len(),
                forall|k: int| i <= k < self.entries@.len() ==> (#[trigger] self.entries@[k]).0@
                    != name@,
            decreases i,
        {
            i = i - 1;
            if self.entries[i].0.eq(name) {
                proof {
                    assert(self.names()[i as int] == name@);
                }
                return Option::Some(&self.entries[i].1);
            }
        }
        proof {
            assert forall|k: int| 0 <= k < self.names().len() implies self.names()[k] != name@
                by {
                assert(self.names()[k] == self.entries@[k].0@);
            }
        }
        Option::None
    }

    /// Turn expansion on.
    pub fn enable(&mut self)
        ensures
            final(self).enabled,
            final(self).names() == old(self).names(),
            final(self).expand_snippet == old(self).expand_snippet,
    {
        self.enabled = true;
    }

    /// Turn expansion off.
    pub fn disable(&mut self)
        ensures
            !final(self).enabled,
            final(self).names() == old(self).names(),
            final(self).expand_snippet == old(self).expand_snippet,
    {
        self.enabled = false;
    }
}

} // verus!
