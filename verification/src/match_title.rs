//! From a raw window title and class to a process identity.
//!
//! The rules are tried in a fixed order and the first that gives a
//! non-empty identity decides:
//!
//! 1. a marker anywhere in the title: "discord", "telegram", "sublime text";
//! 2. the prefix "new tab -", which is cut off, the rest trimmed;
//! 3. the prefix "win", which names a sub-window;
//! 4. the class of a terminal, named after the editor that its title shows
//!    ("nvim") or after itself;
//! 5. the class of the IDE, for a window that is still without a name:
//!    named after the IDE, with the leading segment of a title of the form
//!    `segment – rest`;
//! 6. the trimmed title itself, and where that is empty, the class.
//!
//! The rules come in two stages. `extract_process_name` applies the title
//! rules 1 to 3 and otherwise hands on the trimmed title.
//! `process_complex_names` lets a name stand that a title rule gives to the
//! title of the window. Otherwise a terminal is named by its class, a name
//! that is not empty is kept, the IDE is named where the name is still
//! empty, and any other window without a name is named after its class.
//! `normalize` is the two stages one after the other, on one title. A
//! driver that knows a second title of the window, the one it was opened
//! with, can hand that one to the first stage: the leading segment of the
//! IDE's title is found for a window that was opened without a title.
//!
//! Titles are matched with ASCII case ignored: "Discord", "discord" and
//! "DISCORD" are one marker. Letters beyond ASCII are compared as they are.
//! Classes are compared exactly. The empty identity comes out only where
//! title and class say nothing; it names no window, and no time is accrued
//! against it.

use crate::pattern::{capture_first, first_capture};
use crate::text::{
    contains, copy_range, has_marker, has_prefix, same_chars, starts_with, to_chars, trim,
    trim_bounds,
};
use vstd::prelude::*;
use vstd::string::*;

verus! {

/// The regular expression that finds the leading segment of a structured
/// title: the shortest non-empty text at the start of the title that holds
/// no line feed and is followed by an en dash, white space before the dash
/// left out.
pub const LEADING_SEGMENT: &'static str = "^(.+?)\\s*\u{2013}\\s*";

/// What one poll saw of the focused window.
#[derive(Debug, Clone, PartialEq, Eq)]
pub struct WindowObservation {
    pub title: String,
    pub class: String,
}

/// Whether one of the title rules applies to the trimmed title `t`.
pub open spec fn has_title_rule(t: Seq<char>) -> bool {
    ||| has_marker(t, "discord"@)
    ||| has_marker(t, "telegram"@)
    ||| has_marker(t, "sublime text"@)
    ||| has_prefix(t, "new tab -"@)
    ||| has_prefix(t, "win"@)
}

/// The name that the title alone gives.
///
/// A chat or editor marker anywhere in the title decides first. Then a
/// leading "new tab -" is cut off, and a leading "win" names a sub-window.
/// Any other title stands for itself, trimmed.
pub open spec fn process_name(title: Seq<char>) -> Seq<char> {
    let t = trim(title);
    if has_marker(t, "discord"@) {
        "Discord"@
    } else if has_marker(t, "telegram"@) {
        "Telegram"@
    } else if has_marker(t, "sublime text"@) {
        "Sublime Text"@
    } else if has_prefix(t, "new tab -"@) {
        trim(t.skip("new tab -"@.len() as int))
    } else if has_prefix(t, "win"@) {
        "sub_window"@
    } else {
        t
    }
}

/// The name that the class of a terminal gives: that of the editor that
/// the title shows, or that of the terminal itself. Nothing for any other
/// class.
pub open spec fn terminal_name(class: Seq<char>, title: Seq<char>) -> Option<Seq<char>> {
    if class == "com.mitchellh.ghostty"@ {
        if has_marker(title, "nvim"@) {
            Some("NeoVim"@)
        } else {
            Some("Ghostty"@)
        }
    } else if class == "kitty"@ {
        if has_marker(title, "nvim"@) {
            Some("Vim"@)
        } else {
            Some("Kitty"@)
        }
    } else {
        None
    }
}

/// The name of a window of the IDE: that of the IDE, with the leading
/// segment of the title where `segment` holds one.
pub open spec fn ide_name(segment: Option<Seq<char>>) -> Seq<char> {
    match segment {
        Some(leading) => "RustRover -> "@ + leading,
        None => "RustRover"@,
    }
}

/// Whether `name` stands before the class rules: it is not empty, and it
/// is the name that a title rule gives to `title`.
pub open spec fn stands(name: Seq<char>, title: Seq<char>) -> bool {
    &&& name.len() > 0
    &&& has_title_rule(trim(title))
    &&& name == process_name(title)
}

/// The name of a window of the given class and title, `name` being what
/// the title rules made of a title and `standing` whether it stands before
/// the class rules.
///
/// In order: the name that stands; the name of a terminal; the name as it
/// is, unless it is empty; the name of the IDE; the class itself.
pub open spec fn resolved(
    name: Seq<char>,
    standing: bool,
    class: Seq<char>,
    title: Seq<char>,
    segment: Option<Seq<char>>,
) -> Seq<char> {
    if standing {
        name
    } else {
        match terminal_name(class, title) {
            Some(by_class) => by_class,
            None => if name.len() > 0 {
                name
            } else if class == "jetbrains-rustrover"@ {
                ide_name(segment)
            } else {
                class
            },
        }
    }
}

/// The name of a window whose title left `name`: the second stage of the
/// rules.
///
/// A name that a title rule gives to the title of the window stands: the
/// title rules come before the class rules. Otherwise a terminal is named
/// by its class. Any other window keeps a name that is not empty. A window
/// without a name is named after the IDE, where it is one, and after its
/// class where it is not.
pub open spec fn complex_name(
    name: Seq<char>,
    class: Seq<char>,
    title: Seq<char>,
    segment: Option<Seq<char>>,
) -> Seq<char> {
    resolved(name, stands(name, title), class, title, segment)
}

/// The identity of a window, `segment` being the leading segment of its
/// title, if it has one: the title rules first, the class rules second.
///
/// The empty identity comes out only where the title gives no name and the
/// class is empty.
pub open spec fn identity(title: Seq<char>, class: Seq<char>, segment: Option<Seq<char>>) -> Seq<
    char,
> {
    complex_name(process_name(title), class, title, segment)
}

/// The leading segment of a structured title, as the regular expression
/// `LEADING_SEGMENT` finds it.
pub open spec fn leading_segment(title: Seq<char>) -> Option<Seq<char>> {
    first_capture(LEADING_SEGMENT@, title)
}

/// The identity of a window with the given title and class.
pub open spec fn identity_of(title: Seq<char>, class: Seq<char>) -> Seq<char> {
    identity(title, class, leading_segment(title))
}

/// Whether `identity` is the empty identity, which names no usable window.
pub open spec fn is_empty_identity(identity: Seq<char>) -> bool {
    identity.len() == 0
}

/// The text that `segment` holds, if any.
pub open spec fn text_of(segment: Option<String>) -> Option<Seq<char>> {
    match segment {
        Some(text) => Some(text@),
        None => None,
    }
}

/// The name that the title gives, and whether a title rule applied.
fn title_name(window_title: &str) -> (found: (String, bool))
    ensures
        found.0@ == process_name(window_title@),
        found.1 == has_title_rule(trim(window_title@)),
{
    let chars = to_chars(window_title);
    let (start, end) = trim_bounds(&chars, 0, chars.len());
    assert(chars@.subrange(0, chars@.len() as int) == chars@);
    let t = copy_range(&chars, start, end);
    let new_tab = to_chars("new tab -");
    if contains(&t, &to_chars("discord")) {
        (String::from_str("Discord"), true)
    } else if contains(&t, &to_chars("telegram")) {
        (String::from_str("Telegram"), true)
    } else if contains(&t, &to_chars("sublime text")) {
        (String::from_str("Sublime Text"), true)
    } else if starts_with(&t, &new_tab) {
        let (from, to) = trim_bounds(&chars, start + new_tab.len(), end);
        assert(t@.skip(new_tab@.len() as int) == chars@.subrange(
            start + new_tab@.len(),
            end as int,
        ));
        (String::from_str(window_title.substring_char(from, to)), true)
    } else if starts_with(&t, &to_chars("win")) {
        (String::from_str("sub_window"), true)
    } else {
        (String::from_str(window_title.substring_char(start, end)), false)
    }
}

/// Extracts the process name from a window title.
pub fn extract_process_name(window_title: &str) -> (name: String)
    ensures
        name@ == process_name(window_title@),
{
    title_name(window_title).0
}

/// Whether `class` is the class of the IDE, whose titles are structured.
fn is_ide(class: &str) -> (ide: bool)
    ensures
        ide == (class@ == "jetbrains-rustrover"@),
{
    same_chars(&to_chars(class), &to_chars("jetbrains-rustrover"))
}

/// The name of a window, from plain texts.
fn resolve(name: String, standing: bool, class: &str, title: &str, segment: Option<String>) -> (found:
    String)
    ensures
        found@ == resolved(name@, standing, class@, title@, text_of(segment)),
{
    if standing {
        return name;
    }
    let class_chars = to_chars(class);
    if same_chars(&class_chars, &to_chars("com.mitchellh.ghostty")) {
        if contains(&to_chars(title), &to_chars("nvim")) {
            String::from_str("NeoVim")
        } else {
            String::from_str("Ghostty")
        }
    } else if same_chars(&class_chars, &to_chars("kitty")) {
        if contains(&to_chars(title), &to_chars("nvim")) {
            String::from_str("Vim")
        } else {
            String::from_str("Kitty")
        }
    } else if !name.as_str().is_empty() {
        name
    } else if same_chars(&class_chars, &to_chars("jetbrains-rustrover")) {
        match segment {
            Some(leading) => String::from_str("RustRover -> ").concat(leading.as_str()),
            None => String::from_str("RustRover"),
        }
    } else {
        String::from_str(class)
    }
}

/// The leading segment of `title`, asked for only where it has a say: for
/// a window of the IDE that has no name yet.
fn segment_for(nameless: bool, class: &str, title: &str) -> (segment: Option<String>)
    ensures
        nameless && class@ == "jetbrains-rustrover"@ ==> text_of(segment) == leading_segment(
            title@,
        ),
{
    if nameless && is_ide(class) {
        capture_first(LEADING_SEGMENT, title)
    } else {
        None
    }
}

/// Whether `name` stands before the class rules of a window with the given
/// title.
fn name_stands(name: &String, title: &str) -> (standing: bool)
    ensures
        standing == stands(name@, title@),
{
    if name.as_str().is_empty() {
        return false;
    }
    let (own, ruled) = title_name(title);
    ruled && *name == own
}

/// Resolves the name of a window whose title left `process_name`,
/// `segment` being the leading segment of its title, if it has one.
pub fn resolve_complex_name(
    process_name: String,
    window: &WindowObservation,
    segment: Option<String>,
) -> (name: String)
    ensures
        name@ == complex_name(process_name@, window.class@, window.title@, text_of(segment)),
{
    let standing = name_stands(&process_name, window.title.as_str());
    resolve(process_name, standing, window.class.as_str(), window.title.as_str(), segment)
}

/// Resolves the name of a window whose title left `process_name`. A name
/// that a title rule gives to the window's title stands. Otherwise a
/// terminal is named by what it shows, a name that is not empty is kept,
/// and a window without a name is named after the IDE or after its class.
pub fn process_complex_names(process_name: String, window: &WindowObservation) -> (name: String)
    ensures
        name@ == complex_name(
            process_name@,
            window.class@,
            window.title@,
            leading_segment(window.title@),
        ),
{
    let standing = name_stands(&process_name, window.title.as_str());
    let segment = segment_for(
        process_name.as_str().is_empty(),
        window.class.as_str(),
        window.title.as_str(),
    );
    resolve(process_name, standing, window.class.as_str(), window.title.as_str(), segment)
}

/// The identity of a window, `segment` being the leading segment of its
/// title, if it has one.
pub fn normalize_with(title: &str, class: &str, segment: Option<String>) -> (id: String)
    ensures
        id@ == identity(title@, class@, text_of(segment)),
{
    let (name, ruled) = title_name(title);
    let standing = ruled && !name.as_str().is_empty();
    resolve(name, standing, class, title, segment)
}

/// The identity of a window with the given title and class. Total: every
/// pair of texts has an identity, the empty one where neither says anything.
pub fn normalize(title: &str, class: &str) -> (id: String)
    ensures
        id@ == identity_of(title@, class@),
{
    let (name, ruled) = title_name(title);
    let standing = ruled && !name.as_str().is_empty();
    let segment = segment_for(name.as_str().is_empty(), class, title);
    resolve(name, standing, class, title, segment)
}

/// Normalizing is a function of the title and the class: two identities
/// found for the same window are the same.
pub proof fn lemma_normalize_is_function(
    title: Seq<char>,
    class: Seq<char>,
    first: Seq<char>,
    second: Seq<char>,
)
    requires
        first == identity_of(title, class),
        second == identity_of(title, class),
    ensures
        first == second,
{
}

/// The marker rules come before the prefix rules: a title that holds the
/// "Discord" marker and begins with the "new tab -" prefix belongs to
/// Discord, whatever the class and the rest of the title are.
pub proof fn lemma_marker_precedes_prefix(
    title: Seq<char>,
    class: Seq<char>,
    segment: Option<Seq<char>>,
)
    requires
        has_marker(trim(title), "discord"@),
        has_prefix(trim(title), "new tab -"@),
    ensures
        process_name(title) == "Discord"@,
        identity(title, class, segment) == "Discord"@,
        identity_of(title, class) == "Discord"@,
{
    reveal_strlit("Discord");
}

/// The two stages one after the other are the whole normalization: the
/// name of the window, found from the name that its own title gives, is its
/// identity.
pub proof fn lemma_stages_agree(title: Seq<char>, class: Seq<char>, segment: Option<Seq<char>>)
    ensures
        complex_name(process_name(title), class, title, segment) == identity(
            title,
            class,
            segment,
        ),
        complex_name(process_name(title), class, title, leading_segment(title)) == identity_of(
            title,
            class,
        ),
{
}

/// The title rules come before the class rules: a name that a title rule
/// gives to the title of the window stands, whatever the class is.
pub proof fn lemma_title_rule_precedes_class(
    name: Seq<char>,
    class: Seq<char>,
    title: Seq<char>,
    segment: Option<Seq<char>>,
)
    requires
        name.len() > 0,
        has_title_rule(trim(title)),
        name == process_name(title),
    ensures
        complex_name(name, class, title, segment) == name,
        identity(title, class, segment) == name,
{
}

/// Outside the terminals a name that is not empty comes back as it is,
/// whatever the title is: the IDE is named only where the name is empty.
pub proof fn lemma_name_is_kept(
    name: Seq<char>,
    class: Seq<char>,
    title: Seq<char>,
    segment: Option<Seq<char>>,
)
    requires
        name.len() > 0,
        class != "com.mitchellh.ghostty"@,
        class != "kitty"@,
    ensures
        complex_name(name, class, title, segment) == name,
{
}

/// A name that does not stand on the title of the window leaves a terminal
/// to its class.
pub proof fn lemma_terminal_is_named_by_class(
    name: Seq<char>,
    class: Seq<char>,
    title: Seq<char>,
    segment: Option<Seq<char>>,
)
    requires
        !stands(name, title),
        terminal_name(class, title) is Some,
    ensures
        Some(complex_name(name, class, title, segment)) == terminal_name(class, title),
{
}

/// A window without a name is named after the IDE, where it is one, and
/// after its class where it is neither that nor a terminal. It is left
/// without a name only where its class is empty too.
pub proof fn lemma_empty_name(
    name: Seq<char>,
    class: Seq<char>,
    title: Seq<char>,
    segment: Option<Seq<char>>,
)
    ensures
        complex_name(name, class, title, segment).len() == 0 <==> (name.len() == 0 && class.len()
            == 0),
        name.len() == 0 && class == "jetbrains-rustrover"@ ==> complex_name(
            name,
            class,
            title,
            segment,
        ) == ide_name(segment),
        name.len() == 0 && terminal_name(class, title) is None && class
            != "jetbrains-rustrover"@ ==> complex_name(name, class, title, segment) == class,
{
    reveal_strlit("com.mitchellh.ghostty");
    reveal_strlit("kitty");
    reveal_strlit("jetbrains-rustrover");
    reveal_strlit("NeoVim");
    reveal_strlit("Ghostty");
    reveal_strlit("Vim");
    reveal_strlit("Kitty");
    reveal_strlit("RustRover");
    reveal_strlit("RustRover -> ");
}

/// The empty identity comes out exactly where the class is empty and the
/// title gives no name.
pub proof fn lemma_empty_identity(title: Seq<char>, class: Seq<char>, segment: Option<Seq<char>>)
    ensures
        is_empty_identity(identity(title, class, segment)) <==> (class.len() == 0
            && process_name(title).len() == 0),
{
    lemma_empty_name(process_name(title), class, title, segment);
}

} // verus!
