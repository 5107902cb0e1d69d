//! Diff and file generation preview components.

use vstd::prelude::*;
use crate::color::{Console, SymbolTheme, Tone, painted, sanitize, push_sanitized};
use crate::text::{owned, push_char, push_str};

verus! {

/// The action taken on a file by a scaffolder, generator, or auto-fixer.
#[derive(Debug, Clone, Copy, PartialEq, Eq, Structural)]
#[non_exhaustive]
pub enum FileAction {
    /// File was created.
    Added,
    /// Existing file was modified.
    Modified,
    /// File was removed.
    Deleted,
    /// File was moved or renamed.
    Renamed,
}

/// The marker of an action under a theme.
pub open spec fn action_symbol(a: FileAction, theme: SymbolTheme) -> Seq<char> {
    match a {
        FileAction::Added => seq!['+'],
        FileAction::Modified => seq!['~'],
        FileAction::Deleted => seq!['-'],
        FileAction::Renamed => match theme {
            SymbolTheme::Unicode => seq!['→'],
            SymbolTheme::Ascii => seq!['-', '>'],
        },
    }
}

/// The semantic tone of an action.
pub open spec fn action_tone(a: FileAction) -> Tone {
    match a {
        FileAction::Added => Tone::Success,
        FileAction::Modified => Tone::Warning,
        FileAction::Deleted => Tone::Error,
        FileAction::Renamed => Tone::Info,
    }
}

/// The six-letter label of an action.
pub open spec fn action_label(a: FileAction) -> Seq<char> {
    match a {
        FileAction::Added => seq!['C', 'R', 'E', 'A', 'T', 'E'],
        FileAction::Modified => seq!['U', 'P', 'D', 'A', 'T', 'E'],
        FileAction::Deleted => seq!['D', 'E', 'L', 'E', 'T', 'E'],
        FileAction::Renamed => seq!['R', 'E', 'N', 'A', 'M', 'E'],
    }
}

impl FileAction {
    /// The marker of this action under `theme`.
    pub fn symbol(self, theme: SymbolTheme) -> (s: &'static str)
        ensures
            s@ == action_symbol(self, theme),
    {
        match self {
            FileAction::Added => { proof { reveal_strlit("+"); } "+" },
            FileAction::Modified => { proof { reveal_strlit("~"); } "~" },
            FileAction::Deleted => { proof { reveal_strlit("-"); } "-" },
            FileAction::Renamed => match theme {
                SymbolTheme::Unicode => { proof { reveal_strlit("→"); } "→" },
                SymbolTheme::Ascii => { proof { reveal_strlit("->"); } "->" },
            },
        }
    }

    /// The semantic tone of this action.
    pub fn tone(self) -> (t: Tone)
        ensures
            t == action_tone(self),
    {
        match self {
            FileAction::Added => Tone::Success,
            FileAction::Modified => Tone::Warning,
            FileAction::Deleted => Tone::Error,
            FileAction::Renamed => Tone::Info,
        }
    }

    /// The label of this action.
    pub fn label(self) -> (s: &'static str)
        ensures
            s@ == action_label(self),
    {
        match self {
            FileAction::Added => { proof { reveal_strlit("CREATE"); } "CREATE" },
            FileAction::Modified => { proof { reveal_strlit("UPDATE"); } "UPDATE" },
            FileAction::Deleted => { proof { reveal_strlit("DELETE"); } "DELETE" },
            FileAction::Renamed => { proof { reveal_strlit("RENAME"); } "RENAME" },
        }
    }
}

/// A record of a single file modification.
#[derive(Debug, Clone)]
#[non_exhaustive]
pub struct FileChange {
    pub path: String,
    pub action: FileAction,
    pub delta: Option<String>,
}

impl FileChange {
    /// Creates a file change entry.
    pub fn new(action: FileAction, path: &str) -> (c: Self)
        ensures
            c.action == action,
            c.path@ == path@,
            c.delta is None,
    {
        FileChange { path: owned(path), action, delta: None }
    }

    /// Attaches a byte or line size delta string (e.g. `+1.2 kB`).
    pub fn with_delta(self, delta: &str) -> (c: Self)
        ensures
            c.action == self.action,
            c.path@ == self.path@,
            c.delta matches Some(d) && d@ == delta@,
    {
        FileChange { path: self.path, action: self.action, delta: Some(owned(delta)) }
    }
}

/// The line of one change: two spaces, the painted marker, the painted
/// label, the neutralised path, the painted delta in brackets if there is
/// one, and a newline.
pub open spec fn change_line(console: Console, c: FileChange) -> Seq<char> {
    let tone = action_tone(c.action);
    seq![' ', ' '] + painted(console.spec_color(), tone, action_symbol(c.action, console.spec_theme()))
        + seq![' '] + painted(console.spec_color(), tone, action_label(c.action)) + seq![' ']
        + sanitize(c.path@) + match c.delta {
            Some(d) => painted(console.spec_color(), Tone::Muted, seq![' ', '('] + d@ + seq![')']),
            None => Seq::empty(),
        } + seq!['\n']
}

/// The lines of all changes, in order.
pub open spec fn changes_text(console: Console, cs: Seq<FileChange>) -> Seq<char>
    decreases cs.len(),
{
    if cs.len() == 0 {
        Seq::empty()
    } else {
        changes_text(console, cs.drop_last()) + change_line(console, cs.last())
    }
}

/// A block rendering generator or fixer file changes.
#[derive(Debug, Clone)]
#[non_exhaustive]
pub struct DiffBlock {
    pub changes: Vec<FileChange>,
}

impl DiffBlock {
    /// Creates a new empty diff block.
    pub fn new() -> (d: Self)
        ensures
            d.changes@.len() == 0,
    {
        DiffBlock { changes: Vec::new() }
    }

    /// Adds a file change to the block.
    pub fn add_change(self, change: FileChange) -> (d: Self)
        ensures
            d.changes@ == self.changes@.push(change),
    {
        let mut changes = self.changes;
        changes.push(change);
        DiffBlock { changes }
    }

    /// Renders the diff block, one line per change.
    pub fn render(&self, console: Console) -> (s: String)
        ensures
            s@ == changes_text(console, self.changes@),
    {
        let mut out = String::new();
        let mut i: usize = 0;
        while i < self.changes.len()
            invariant
                i <= self.changes@.len(),
                out@ == changes_text(console, self.changes@.take(i as int)),
            decreases self.changes@.len() - i,
        {
            let c = &self.changes[i];
            let ghost before = out@;
            let tone = c.action.tone();
            push_str(&mut out, "  ");
            console.write_paint(tone, c.action.symbol(console.symbol_theme()), &mut out);
            push_char(&mut out, ' ');
            console.write_paint(tone, c.action.label(), &mut out);
            push_char(&mut out, ' ');
            push_sanitized(&mut out, c.path.as_str());
            match &c.delta {
                Some(d) => {
                    let mut t = String::new();
                    push_str(&mut t, " (");
                    push_str(&mut t, d.as_str());
                    push_char(&mut t, ')');
                    proof { reveal_strlit(" ("); }
                    assert(t@ =~= seq![' ', '('] + d@ + seq![')']);
                    console.write_paint(Tone::Muted, t.as_str(), &mut out);
                },
                None => {},
            }
            push_char(&mut out, '\n');
            proof {
                reveal_strlit("  ");
                assert(out@ =~= before + change_line(console, self.changes@[i as int]));
                assert(self.changes@.take(i as int + 1).drop_last() =~= self.changes@.take(i as int));
            }
            i = i + 1;
        }
        assert(self.changes@.take(i as int) =~= self.changes@);
        out
    }
}

} // verus!
