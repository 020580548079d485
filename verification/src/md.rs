//! How a markdown document leaves the process: plain bytes, or rendered for a person
//! at a terminal. Machine-readable output is never rendered.
use vstd::prelude::*;

use crate::text::{chars_of, trim, trimmed};

verus! {

/// How markdown leaves this process.
#[derive(Debug, Clone, Copy, PartialEq, Eq, Structural)]
pub enum Mode {
    /// The markdown, unchanged.
    Plain,
    /// Rendered, when `gum` is installed to do it.
    Pretty,
}

pub open spec fn is_one_of(s: Seq<char>, a: Seq<char>, b: Seq<char>, c: Seq<char>, d: Seq<char>) -> bool {
    s == a || s == b || s == c || s == d
}

/// `--json` and `--plain` are the caller being explicit, so they win. `NO_COLOR` and a
/// pipe are the terminal having its say, and the `AI_PLANNER_MARKDOWN` setting
/// overrides both.
pub open spec fn mode_for(plain: bool, json: bool, tty: bool, no_color: bool, setting: Option<Seq<char>>) -> Mode {
    if json || plain {
        Mode::Plain
    } else {
        match setting {
            Some(s) => if is_one_of(trim(s), "plain"@, "never"@, "off"@, "0"@) {
                Mode::Plain
            } else if is_one_of(trim(s), "pretty"@, "always"@, "on"@, "1"@) {
                Mode::Pretty
            } else if tty && !no_color {
                Mode::Pretty
            } else {
                Mode::Plain
            },
            None => if tty && !no_color {
                Mode::Pretty
            } else {
                Mode::Plain
            },
        }
    }
}

pub fn decide(plain: bool, json: bool, tty: bool, no_color: bool, setting: Option<&str>) -> (m: Mode)
    ensures
        m == mode_for(
            plain,
            json,
            tty,
            no_color,
            match setting {
                Some(s) => Some(s@),
                None => None,
            },
        ),
{
    if json || plain {
        return Mode::Plain;
    }
    match setting {
        Some(s) => {
            let v = chars_of(s);
            let t = trimmed(&v);
            let w = |x: &str| -> (r: bool)
                ensures
                    r == (t@ == x@),
                { crate::model::is_word(&t, x) };
            if w("plain") || w("never") || w("off") || w("0") {
                Mode::Plain
            } else if w("pretty") || w("always") || w("on") || w("1") {
                Mode::Pretty
            } else if tty && !no_color {
                Mode::Pretty
            } else {
                Mode::Plain
            }
        },
        None => {
            if tty && !no_color {
                Mode::Pretty
            } else {
                Mode::Plain
            }
        },
    }
}

/// Output meant for a machine is never rendered, whatever the terminal or the setting
/// says: an agent parsing it gets the document.
pub proof fn law_machine_readable_output_is_plain(
    plain: bool,
    json: bool,
    tty: bool,
    no_color: bool,
    setting: Option<Seq<char>>,
)
    requires
        plain || json,
    ensures
        mode_for(plain, json, tty, no_color, setting) == Mode::Plain,
{
}

/// Behind a pipe, or with `NO_COLOR`, nothing is rendered unless the setting asks for
/// it by name.
pub proof fn law_a_pipe_gets_the_plain_document(
    plain: bool,
    json: bool,
    tty: bool,
    no_color: bool,
    setting: Option<Seq<char>>,
)
    requires
        !tty || no_color,
        setting matches Some(s) ==> !is_one_of(trim(s), "pretty"@, "always"@, "on"@, "1"@),
    ensures
        mode_for(plain, json, tty, no_color, setting) == Mode::Plain,
{
}

} // verus!
