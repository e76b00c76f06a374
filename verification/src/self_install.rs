//! What the manager reports once it has installed itself.

use vstd::prelude::*;

verus! {

/// The text of a length of time, as std writes a `Duration` of that many
/// nanoseconds for `{:.2?}`.
pub uninterp spec fn elapsed_text(nanos: u64) -> Seq<char>;

/// `Duration::from_nanos` of std and the `Debug` text of the result with
/// two decimal places: the result is that text, which depends on `nanos`
/// alone.
#[verifier::external_body]
fn format_elapsed(nanos: u64) -> (text: String)
    ensures
        text@ == elapsed_text(nanos),
{
    format!("{:.2?}", std::time::Duration::from_nanos(nanos))
}

/// Whether `styled` is `text` as the terminal styling writes it: `text`
/// itself where colours are off, else `text` between `on`, the codes that
/// switch the style on, and the code that resets it.
pub open spec fn is_styled(styled: Seq<char>, text: Seq<char>, on: Seq<char>) -> bool {
    styled == text || styled == on + text + "\x1b[0m"@
}

/// `console::style(text).bold()`, written out: `text` itself where colours
/// are off for standard output, else `text` after the code for bold and
/// before the code that resets.
#[verifier::external_body]
fn bold(text: &str) -> (styled: String)
    ensures
        is_styled(styled@, text@, "\x1b[1m"@),
{
    console::style(text).bold().to_string()
}

/// `console::style(text).bold().green()`, written out: `text` itself where
/// colours are off for standard output, else `text` after the codes for
/// green and for bold and before the code that resets.
#[verifier::external_body]
fn bold_green(text: &str) -> (styled: String)
    ensures
        is_styled(styled@, text@, "\x1b[32m\x1b[1m"@),
{
    console::style(text).bold().green().to_string()
}

/// `console::style(text).dim()`, written out: `text` itself where colours
/// are off for standard output, else `text` after the code for dim and
/// before the code that resets.
#[verifier::external_body]
fn dim(text: &str) -> (styled: String)
    ensures
        is_styled(styled@, text@, "\x1b[2m"@),
{
    console::style(text).dim().to_string()
}

/// Whether the user is asked to restart the terminal: the search path was
/// changed, or it could have been changed and does not hold the directory
/// of executables.
///
/// `path_added` says whether the directory was added to the search path,
/// or nothing where adding it failed.
pub open spec fn should_restart(path_added: Option<bool>, path_contains: bool) -> bool {
    path_added == Some(true) || (path_added is Some && !path_contains)
}

/// The first sentence of the report.
pub open spec fn main_message(found: bool, changed: bool) -> Seq<char> {
    if !found {
        "Rokit has been installed successfully!"@
    } else if changed {
        "Rokit was re-linked successfully!"@
    } else {
        "Rokit links are already up-to-date."@
    }
}

/// What the report says of the search path: nothing unless the terminal is
/// to be restarted.
pub open spec fn restart_lines(restart: bool, path_label: Seq<char>) -> Seq<char> {
    if restart {
        "\n\nExecutables for Rokit and tools have been added to "@ + path_label
            + ".\nPlease restart your terminal for the changes to take effect."@
    } else {
        Seq::empty()
    }
}

/// The end of the report.
pub open spec fn post_message(restart: bool, help_command: Seq<char>) -> Seq<char> {
    if restart {
        "\n\nThen, run `"@ + help_command + "` to get started using Rokit."@
    } else {
        "\n\nRun `"@ + help_command + "` to get started using Rokit."@
    }
}

/// The whole report.
pub open spec fn report(
    found: bool,
    changed: bool,
    restart: bool,
    took: Seq<char>,
    path_label: Seq<char>,
    help_command: Seq<char>,
) -> Seq<char> {
    main_message(found, changed) + " "@ + took + restart_lines(restart, path_label) + post_message(
        restart,
        help_command,
    )
}

/// How long it took, as the report words it.
pub open spec fn took_text(nanos: u64) -> Seq<char> {
    "(took "@ + elapsed_text(nanos) + ")"@
}

/// Whether `text` is the report of a run, with `took`, `path_label` and
/// `help_command` as the terminal styling wrote them.
pub open spec fn is_report_of(
    text: Seq<char>,
    found: bool,
    changed: bool,
    path_added: Option<bool>,
    path_contains: bool,
    elapsed_nanos: u64,
    took: Seq<char>,
    path_label: Seq<char>,
    help_command: Seq<char>,
) -> bool {
    &&& is_styled(took, took_text(elapsed_nanos), "\x1b[2m"@)
    &&& is_styled(path_label, "$PATH"@, "\x1b[1m"@)
    &&& is_styled(help_command, "rokit --help"@, "\x1b[32m\x1b[1m"@)
    &&& text == report(
        found,
        changed,
        should_restart(path_added, path_contains),
        took,
        path_label,
        help_command,
    )
}

/// Installs or re-installs the manager, and updates all tool links.
#[derive(Debug, Clone, Copy, PartialEq, Eq, Default)]
pub struct SelfInstallSubcommand {}

impl SelfInstallSubcommand {
    /// Whether the user is asked to restart the terminal.
    pub fn should_restart_terminal(path_added: Option<bool>, path_contains: bool) -> (restart: bool)
        ensures
            restart == should_restart(path_added, path_contains),
    {
        match path_added {
            Some(path_was_changed) => path_was_changed || !path_contains,
            None => false,
        }
    }

    /// The report, put together from its parts: `took`, `path_label` and
    /// `help_command` stand in it as they are given.
    pub fn compose_report(
        found: bool,
        changed: bool,
        restart: bool,
        took: &str,
        path_label: &str,
        help_command: &str,
    ) -> (text: String)
        ensures
            text@ == report(found, changed, restart, took@, path_label@, help_command@),
    {
        let main_message = if !found {
            "Rokit has been installed successfully!"
        } else if changed {
            "Rokit was re-linked successfully!"
        } else {
            "Rokit links are already up-to-date."
        };
        let mut text = main_message.to_owned();
        text.append(" ");
        text.append(took);
        if restart {
            text.append("\n\nExecutables for Rokit and tools have been added to ");
            text.append(path_label);
            text.append(".\nPlease restart your terminal for the changes to take effect.");
            text.append("\n\nThen, run `");
        } else {
            text.append("\n\nRun `");
        }
        text.append(help_command);
        text.append("` to get started using Rokit.");
        assert(text@ =~= report(found, changed, restart, took@, path_label@, help_command@));
        text
    }

    /// The report of a run.
    ///
    /// `found` and `changed` are what the reconciliation of the alias
    /// directory reported, `path_added` says whether the directory of
    /// executables was added to the search path, or nothing where adding it
    /// failed, `path_contains` whether the search path holds it, and
    /// `elapsed_nanos` how long the run took.
    pub fn run(
        self,
        found: bool,
        changed: bool,
        path_added: Option<bool>,
        path_contains: bool,
        elapsed_nanos: u64,
    ) -> (text: String)
        ensures
            exists|took: Seq<char>, path_label: Seq<char>, help_command: Seq<char>|
                is_report_of(
                    text@,
                    found,
                    changed,
                    path_added,
                    path_contains,
                    elapsed_nanos,
                    took,
                    path_label,
                    help_command,
                ),
    {
        let restart = Self::should_restart_terminal(path_added, path_contains);
        let path_label = bold("$PATH");
        let help_command = bold_green("rokit --help");
        let mut elapsed = "(took ".to_owned();
        elapsed.append(format_elapsed(elapsed_nanos).as_str());
        elapsed.append(")");
        let took = dim(elapsed.as_str());
        let text = Self::compose_report(
            found,
            changed,
            restart,
            took.as_str(),
            path_label.as_str(),
            help_command.as_str(),
        );
        assert(is_report_of(
            text@,
            found,
            changed,
            path_added,
            path_contains,
            elapsed_nanos,
            took@,
            path_label@,
            help_command@,
        ));
        text
    }
}

} // verus!
