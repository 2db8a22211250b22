//! The navigation state of the two-pane viewer: which pane has the focus
//! and which file is selected.
use vstd::prelude::*;
use crate::diff::{copy_lines, lines_view, snapshot_view, Diff, DiffView, Line, LineView};

verus! {

/// The pane that receives navigation commands.
#[derive(Debug, Clone, Copy, PartialEq, Eq, Structural)]
pub enum ControllingSection {
    /// The content pane, with the old and new lines.
    Text,
    /// The list of changed files.
    File,
}

/// A discrete input command; `Ignored` stands for any key without a
/// binding.
#[derive(Debug, Clone, Copy, PartialEq, Eq, Structural)]
pub enum Command {
    SwitchFocus,
    MoveUp,
    MoveDown,
    Quit,
    Ignored,
}

/// A key press, as far as navigation reads it.
#[derive(Debug, Clone, Copy, PartialEq, Eq, Structural)]
pub enum KeyInput {
    Char(char),
    Up,
    Down,
    Other,
}

/// The command bound to a key: tab switches the focus, `q` quits, up or
/// `k` moves up, down or `j` moves down; any other key is ignored.
pub open spec fn spec_command_of(k: KeyInput) -> Command {
    match k {
        KeyInput::Char(c) => if c == '\t' {
            Command::SwitchFocus
        } else if c == 'q' {
            Command::Quit
        } else if c == 'k' {
            Command::MoveUp
        } else if c == 'j' {
            Command::MoveDown
        } else {
            Command::Ignored
        },
        KeyInput::Up => Command::MoveUp,
        KeyInput::Down => Command::MoveDown,
        KeyInput::Other => Command::Ignored,
    }
}

/// Maps a key press to its command.
pub fn command_of(k: KeyInput) -> (r: Command)
    ensures
        r == spec_command_of(k),
{
    match k {
        KeyInput::Char(c) => if c == '\t' {
            Command::SwitchFocus
        } else if c == 'q' {
            Command::Quit
        } else if c == 'k' {
            Command::MoveUp
        } else if c == 'j' {
            Command::MoveDown
        } else {
            Command::Ignored
        },
        KeyInput::Up => Command::MoveUp,
        KeyInput::Down => Command::MoveDown,
        KeyInput::Other => Command::Ignored,
    }
}

/// The other pane.
pub open spec fn toggled(c: ControllingSection) -> ControllingSection {
    match c {
        ControllingSection::Text => ControllingSection::File,
        ControllingSection::File => ControllingSection::Text,
    }
}

/// The selection after moving up among `n` files: the previous file, or
/// the last one from the first.
pub open spec fn index_up(i: nat, n: nat) -> nat {
    if n == 0 {
        i
    } else if i == 0 {
        (n - 1) as nat
    } else {
        (i - 1) as nat
    }
}

/// The selection after moving down among `n` files: the next file, or the
/// first one from the last.
pub open spec fn index_down(i: nat, n: nat) -> nat {
    if n == 0 {
        i
    } else {
        ((i + 1) % n) as nat
    }
}

/// What a `State` holds, as mathematical values.
pub struct StateView {
    pub section: ControllingSection,
    pub index: nat,
    pub files: Seq<DiffView>,
}

/// The session after one command. Moving applies to the file list only;
/// quitting and ignored keys change nothing.
pub open spec fn next_view(v: StateView, c: Command) -> StateView {
    match c {
        Command::SwitchFocus => StateView { section: toggled(v.section), ..v },
        Command::MoveUp => if v.section == ControllingSection::File {
            StateView { index: index_up(v.index, v.files.len()), ..v }
        } else {
            v
        },
        Command::MoveDown => if v.section == ControllingSection::File {
            StateView { index: index_down(v.index, v.files.len()), ..v }
        } else {
            v
        },
        _ => v,
    }
}

/// A viewing session over a snapshot of diffs.
pub struct State {
    controlling_section: ControllingSection,
    file_index: usize,
    diffs: Vec<Diff>,
}

impl View for State {
    type V = StateView;

    closed spec fn view(&self) -> StateView {
        StateView {
            section: self.controlling_section,
            index: self.file_index as nat,
            files: snapshot_view(self.diffs@),
        }
    }
}

impl State {
    /// The selection stays within the files, and is 0 when there are none.
    pub open spec fn wf(&self) -> bool {
        if self@.files.len() == 0 {
            self@.index == 0
        } else {
            self@.index < self@.files.len()
        }
    }

    /// A session over `diffs`, the file list focused and the first file
    /// selected.
    pub fn new(diffs: Vec<Diff>) -> (r: State)
        ensures
            r.wf(),
            r@ == (StateView {
                section: ControllingSection::File,
                index: 0,
                files: snapshot_view(diffs@),
            }),
    {
        State { controlling_section: ControllingSection::File, file_index: 0, diffs }
    }

    /// The pane that has the focus.
    pub fn controlling_section(&self) -> (r: ControllingSection)
        ensures
            r == self@.section,
    {
        self.controlling_section
    }

    /// The position of the selected file.
    pub fn file_index(&self) -> (r: usize)
        ensures
            r == self@.index,
    {
        self.file_index
    }

    /// How many files the session shows.
    pub fn file_count(&self) -> (r: usize)
        ensures
            r == self@.files.len(),
    {
        proof {
            assert(snapshot_view(self.diffs@).len() == self.diffs@.len());
        }
        self.diffs.len()
    }

    /// Gives the focus to the other pane.
    pub fn switch_focus(&mut self)
        requires
            old(self).wf(),
        ensures
            final(self).wf(),
            final(self)@ == next_view(old(self)@, Command::SwitchFocus),
    {
        self.controlling_section = match self.controlling_section {
            ControllingSection::Text => ControllingSection::File,
            ControllingSection::File => ControllingSection::Text,
        };
    }

    /// Selects the previous file, wrapping round, while the file list has
    /// the focus; otherwise, or without files, changes nothing.
    pub fn up(&mut self)
        requires
            old(self).wf(),
        ensures
            final(self).wf(),
            final(self)@ == next_view(old(self)@, Command::MoveUp),
    {
        let n = self.diffs.len();
        if self.controlling_section == ControllingSection::File && n > 0 {
            self.file_index = if self.file_index == 0 {
                n - 1
            } else {
                self.file_index - 1
            };
        }
    }

    /// Selects the next file, wrapping round, while the file list has the
    /// focus; otherwise, or without files, changes nothing.
    pub fn down(&mut self)
        requires
            old(self).wf(),
        ensures
            final(self).wf(),
            final(self)@ == next_view(old(self)@, Command::MoveDown),
    {
        let n = self.diffs.len();
        if self.controlling_section == ControllingSection::File && n > 0 {
            self.file_index = (self.file_index + 1) % n;
        }
    }

    /// Carries out one command; `false` when the command ends the session.
    pub fn apply(&mut self, c: Command) -> (r: bool)
        requires
            old(self).wf(),
        ensures
            final(self).wf(),
            final(self)@ == next_view(old(self)@, c),
            r == (c != Command::Quit),
    {
        match c {
            Command::SwitchFocus => self.switch_focus(),
            Command::MoveUp => self.up(),
            Command::MoveDown => self.down(),
            Command::Quit => {
                return false;
            },
            Command::Ignored => {},
        }
        true
    }

    /// The names of the files, in list order.
    pub fn file_names(&self) -> (r: Vec<String>)
        ensures
            r@.len() == self@.files.len(),
            forall|i: int| 0 <= i < r@.len() ==> #[trigger] r@[i]@ == self@.files[i].file_name,
    {
        let mut r: Vec<String> = Vec::new();
        let mut i: usize = 0;
        while i < self.diffs.len()
            invariant
                0 <= i <= self.diffs.len(),
                r.len() == i,
                forall|j: int| 0 <= j < i ==> #[trigger] r@[j]@ == self.diffs@[j].file_name@,
            decreases self.diffs.len() - i,
        {
            r.push(self.diffs[i].file_name.clone());
            i = i + 1;
        }
        r
    }

    /// The position of the highlighted file in the list, if there is one.
    pub fn highlighted(&self) -> (r: Option<usize>)
        requires
            self.wf(),
        ensures
            r == if self@.files.len() == 0 {
                None
            } else {
                Some(self@.index as usize)
            },
    {
        if self.diffs.len() == 0 {
            None
        } else {
            Some(self.file_index)
        }
    }

    /// The removed lines of the selected file; none without files.
    pub fn removed_lines(&self) -> (r: Vec<Line>)
        requires
            self.wf(),
        ensures
            lines_view(r@) == if self@.files.len() == 0 {
                Seq::<LineView>::empty()
            } else {
                self@.files[self@.index as int].removed
            },
    {
        if self.diffs.len() == 0 {
            let r: Vec<Line> = Vec::new();
            assert(lines_view(r@) =~= Seq::<LineView>::empty());
            r
        } else {
            copy_lines(&self.diffs[self.file_index].removed)
        }
    }

    /// The added lines of the selected file; none without files.
    pub fn added_lines(&self) -> (r: Vec<Line>)
        requires
            self.wf(),
        ensures
            lines_view(r@) == if self@.files.len() == 0 {
                Seq::<LineView>::empty()
            } else {
                self@.files[self@.index as int].added
            },
    {
        if self.diffs.len() == 0 {
            let r: Vec<Line> = Vec::new();
            assert(lines_view(r@) =~= Seq::<LineView>::empty());
            r
        } else {
            copy_lines(&self.diffs[self.file_index].added)
        }
    }
}

} // verus!
