//! Classification of editor commands by name: whether an editor runs in
//! its own window or needs the terminal, decided from well-known editor
//! names. Reading the environment for overrides stays with the caller.

use vstd::prelude::*;

use crate::text::contains_seq_ci;
use crate::text::str_contains_ci;

verus! {

/// Names of editors known to open their own window.
pub open spec fn gui_editor_names() -> Seq<Seq<char>> {
    seq![
        "code"@,
        "code-insiders"@,
        "zed"@,
        "subl"@,
        "sublime"@,
        "sublime_text"@,
        "atom"@,
        "gedit"@,
        "gnome-text-editor"@,
        "kwrite"@,
        "kate"@,
        "mousepad"@,
        "xed"@,
        "pluma"@,
        "bbedit"@,
        "textmate"@,
        "textedit"@,
        "xcode"@,
        "macvim"@,
        "gvim"@,
    ]
}

/// Names of editors known to run inside the terminal.
pub open spec fn terminal_editor_names() -> Seq<Seq<char>> {
    seq![
        "vim"@,
        "vi"@,
        "nvim"@,
        "nano"@,
        "emacs"@,
        "emacsclient"@,
        "ed"@,
        "ex"@,
        "joe"@,
        "jed"@,
        "pico"@,
        "micro"@,
        "helix"@,
        "hx"@,
        "kakoune"@,
        "kak"@,
    ]
}

/// The name holds one of the listed names, ignoring ASCII case.
pub open spec fn matches_any_name(name: Seq<char>, list: Seq<Seq<char>>) -> bool {
    exists|k: int| 0 <= k < list.len() && contains_seq_ci(name, #[trigger] list[k])
}

fn matches_name_list(name: &str, list: &Vec<&str>) -> (r: bool)
    ensures
        r == matches_any_name(name@, list.deep_view()),
{
    let mut k: usize = 0;
    while k < list.len()
        invariant
            forall|j: int| 0 <= j < k ==> !contains_seq_ci(name@, #[trigger] list.deep_view()[j]),
            k <= list.len(),
        decreases list.len() - k,
    {
        if str_contains_ci(name, list[k]) {
            proof {
                assert(contains_seq_ci(name@, list.deep_view()[k as int]));
            }
            return true;
        }
        k = k + 1;
    }
    false
}

/// Whether an editor's file name marks it as a GUI editor, a terminal
/// editor, or neither; the GUI list is consulted first, as a launcher
/// would rather suspend the screen needlessly than hand it to a program
/// that never takes it.
pub fn editor_name_kind(name: &str) -> (r: Option<bool>)
    ensures
        r == if matches_any_name(name@, gui_editor_names()) {
            Some(true)
        } else if matches_any_name(name@, terminal_editor_names()) {
            Some(false)
        } else {
            None::<bool>
        },
{
    let gui: Vec<&str> = vec![
        "code",
        "code-insiders",
        "zed",
        "subl",
        "sublime",
        "sublime_text",
        "atom",
        "gedit",
        "gnome-text-editor",
        "kwrite",
        "kate",
        "mousepad",
        "xed",
        "pluma",
        "bbedit",
        "textmate",
        "textedit",
        "xcode",
        "macvim",
        "gvim",
    ];
    proof {
        assert(gui.deep_view() =~= gui_editor_names());
    }
    if matches_name_list(name, &gui) {
        return Some(true);
    }
    let terminal: Vec<&str> = vec![
        "vim",
        "vi",
        "nvim",
        "nano",
        "emacs",
        "emacsclient",
        "ed",
        "ex",
        "joe",
        "jed",
        "pico",
        "micro",
        "helix",
        "hx",
        "kakoune",
        "kak",
    ];
    proof {
        assert(terminal.deep_view() =~= terminal_editor_names());
    }
    if matches_name_list(name, &terminal) {
        return Some(false);
    }
    None
}

} // verus!
