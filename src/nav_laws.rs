//! What holds of every navigation step.
use vstd::prelude::*;
use vstd::arithmetic::div_mod::{lemma_mod_self_0, lemma_small_mod};
use crate::nav::{next_view, Command, ControllingSection, StateView};

verus! {

/// With the file list focused and some file selected, moving down then up,
/// or up then down, selects the same file again, across the wrap as well.
pub proof fn law_moves_are_inverse(v: StateView)
    requires
        v.section == ControllingSection::File,
        v.files.len() > 0,
        v.index < v.files.len(),
    ensures
        next_view(next_view(v, Command::MoveDown), Command::MoveUp) == v,
        next_view(next_view(v, Command::MoveUp), Command::MoveDown) == v,
{
    let n = v.files.len();
    if v.index + 1 < n {
        lemma_small_mod((v.index + 1) as nat, n);
    } else {
        lemma_mod_self_0(n as int);
    }
    if v.index > 0 {
        lemma_small_mod(v.index, n);
    } else {
        lemma_mod_self_0(n as int);
    }
}

/// Switching the focus twice gives it back to the pane that had it.
pub proof fn law_switch_focus_twice(v: StateView)
    ensures
        next_view(next_view(v, Command::SwitchFocus), Command::SwitchFocus) == v,
{
}

/// While the content pane has the focus, moving up or down keeps the
/// selection.
pub proof fn law_moves_ignored_in_text_pane(v: StateView)
    requires
        v.section == ControllingSection::Text,
    ensures
        next_view(v, Command::MoveUp) == v,
        next_view(v, Command::MoveDown) == v,
{
}

} // verus!
