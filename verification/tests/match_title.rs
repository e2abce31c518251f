use ctvtcntr::match_title::{
    extract_process_name, normalize, normalize_with, process_complex_names, resolve_complex_name,
    WindowObservation, LEADING_SEGMENT,
};

fn window(title: &str, class: &str) -> WindowObservation {
    WindowObservation { title: title.to_string(), class: class.to_string() }
}

#[test]
fn discord_marker_names_discord() {
    assert_eq!(extract_process_name("#general | My Server - Discord"), "Discord");
    assert_eq!(extract_process_name("discord"), "Discord");
    assert_eq!(extract_process_name("  DISCORD updates  "), "Discord");
}

#[test]
fn telegram_marker_names_telegram() {
    assert_eq!(extract_process_name("Telegram (12)"), "Telegram");
    assert_eq!(extract_process_name("chat - telegram desktop"), "Telegram");
}

#[test]
fn sublime_marker_names_sublime_text() {
    assert_eq!(extract_process_name("main.rs - Sublime Text"), "Sublime Text");
    assert_eq!(extract_process_name("notes (sublime text)"), "Sublime Text");
}

#[test]
fn marker_needs_every_character() {
    assert_eq!(extract_process_name("discor"), "discor");
    assert_eq!(extract_process_name("sublime  text"), "sublime  text");
}

#[test]
fn new_tab_prefix_is_stripped() {
    assert_eq!(extract_process_name("new tab - Example Domain"), "Example Domain");
    assert_eq!(extract_process_name("New Tab -   Example  "), "Example");
    assert_eq!(extract_process_name("NEW TAB -x"), "x");
}

#[test]
fn new_tab_prefix_alone_leaves_nothing() {
    assert_eq!(extract_process_name("new tab -"), "");
    assert_eq!(extract_process_name("  New Tab -   "), "");
}

#[test]
fn win_prefix_names_sub_window() {
    assert_eq!(extract_process_name("win0"), "sub_window");
    assert_eq!(extract_process_name("  Window settings"), "sub_window");
    assert_eq!(extract_process_name("twin"), "twin");
}

#[test]
fn other_titles_are_trimmed_verbatim() {
    assert_eq!(extract_process_name("  Mozilla Firefox \t\n"), "Mozilla Firefox");
    assert_eq!(extract_process_name("Zed"), "Zed");
    assert_eq!(extract_process_name(""), "");
    assert_eq!(extract_process_name(" \t "), "");
}

#[test]
fn trimming_agrees_with_the_standard_library() {
    let samples = [
        "\u{a0}Title\u{2003}",
        "\u{3000}\u{1680}a b\u{2028}\u{2029}",
        "\u{85}x\u{202f}\u{205f}",
        "\u{200b}kept\u{200b}",
        "\u{2000}\u{200a} inner \u{2000} space \u{200a}",
        "no space",
        "\r\n\u{b}\u{c}tabs\t",
        "h\u{e9}llo w\u{f6}rld  ",
    ];
    for sample in samples {
        assert_eq!(extract_process_name(sample), sample.trim());
    }
}

#[test]
fn marker_precedes_new_tab_prefix() {
    assert_eq!(normalize("New Tab - Discord", "firefox"), "Discord");
    assert_eq!(normalize("new tab - friends on discord", "chromium"), "Discord");
    assert_eq!(extract_process_name("New Tab - Discord"), "Discord");
}

#[test]
fn markers_are_tried_in_order() {
    assert_eq!(extract_process_name("telegram and discord"), "Discord");
    assert_eq!(extract_process_name("sublime text about telegram"), "Telegram");
    assert_eq!(extract_process_name("win - sublime text"), "Sublime Text");
}

#[test]
fn terminals_are_named_by_what_they_show() {
    let ghostty = window("nvim src/main.rs", "com.mitchellh.ghostty");
    assert_eq!(process_complex_names("anything".to_string(), &ghostty), "NeoVim");
    let shell = window("~/proj", "com.mitchellh.ghostty");
    assert_eq!(process_complex_names("anything".to_string(), &shell), "Ghostty");
    let kitty = window("NVIM notes.md", "kitty");
    assert_eq!(process_complex_names(String::new(), &kitty), "Vim");
    let plain = window("fish", "kitty");
    assert_eq!(process_complex_names("fish".to_string(), &plain), "Kitty");
}

#[test]
fn ide_is_named_with_the_leading_segment() {
    let ide = window("myproject \u{2013} src/main.rs", "jetbrains-rustrover");
    assert_eq!(process_complex_names(String::new(), &ide), "RustRover -> myproject");
}

#[test]
fn leading_segment_is_the_shortest() {
    let two = window("a \u{2013} b \u{2013} c", "jetbrains-rustrover");
    assert_eq!(process_complex_names(String::new(), &two), "RustRover -> a");
    let wide = window("ab  \u{2013}  c", "jetbrains-rustrover");
    assert_eq!(process_complex_names(String::new(), &wide), "RustRover -> ab");
    let tight = window("x\u{2013}y", "jetbrains-rustrover");
    assert_eq!(process_complex_names(String::new(), &tight), "RustRover -> x");
}

#[test]
fn ide_without_structure_is_named_plainly() {
    let welcome = window("Welcome to RustRover", "jetbrains-rustrover");
    assert_eq!(process_complex_names(String::new(), &welcome), "RustRover");
    let hyphen = window("myproject - src/main.rs", "jetbrains-rustrover");
    assert_eq!(process_complex_names(String::new(), &hyphen), "RustRover");
    let dash_first = window("\u{2013} x", "jetbrains-rustrover");
    assert_eq!(process_complex_names(String::new(), &dash_first), "RustRover");
    let empty = window("", "jetbrains-rustrover");
    assert_eq!(process_complex_names(String::new(), &empty), "RustRover");
}

#[test]
fn leading_segment_stops_at_a_line_feed() {
    let broken = window("my\nproject \u{2013} x", "jetbrains-rustrover");
    assert_eq!(process_complex_names(String::new(), &broken), "RustRover");
    let blank = window(" \u{2013} x", "jetbrains-rustrover");
    assert_eq!(process_complex_names(String::new(), &blank), "RustRover ->  ");
    let spaced = window("a b\t\u{a0}\u{2013}c", "jetbrains-rustrover");
    assert_eq!(process_complex_names(String::new(), &spaced), "RustRover -> a b");
    let hyphen_then_dash = window("a - b \u{2013} c", "jetbrains-rustrover");
    assert_eq!(process_complex_names(String::new(), &hyphen_then_dash), "RustRover -> a - b");
}

#[test]
fn name_from_a_title_rule_stands_before_the_class() {
    let chat = window("discord - #general", "com.mitchellh.ghostty");
    assert_eq!(process_complex_names("Discord".to_string(), &chat), "Discord");
    let popup = window("win0", "jetbrains-rustrover");
    assert_eq!(process_complex_names("sub_window".to_string(), &popup), "sub_window");
    let tab = window("New Tab - docs", "kitty");
    assert_eq!(process_complex_names("docs".to_string(), &tab), "docs");
}

#[test]
fn name_stands_only_where_the_title_gives_it() {
    let editor = window("win nvim", "kitty");
    assert_eq!(process_complex_names("kitty".to_string(), &editor), "Vim");
    assert_eq!(process_complex_names("sub_window".to_string(), &editor), "sub_window");
    let chat = window("discord - #general", "com.mitchellh.ghostty");
    assert_eq!(process_complex_names("Ghostty".to_string(), &chat), "Ghostty");
    assert_eq!(process_complex_names("Telegram".to_string(), &chat), "Ghostty");
    let shell = window("discord nvim", "com.mitchellh.ghostty");
    assert_eq!(process_complex_names("com.mitchellh.ghostty".to_string(), &shell), "NeoVim");
}

#[test]
fn empty_name_does_not_stand_on_a_title_rule() {
    let tab = window("new tab -", "kitty");
    assert_eq!(process_complex_names(String::new(), &tab), "Kitty");
    let chat = window("discord", "com.mitchellh.ghostty");
    assert_eq!(process_complex_names(String::new(), &chat), "Ghostty");
}

#[test]
fn ide_keeps_a_name_that_is_not_empty() {
    let plain = window("bar", "jetbrains-rustrover");
    assert_eq!(process_complex_names("foo".to_string(), &plain), "foo");
    let ide = window("myproject \u{2013} src/main.rs", "jetbrains-rustrover");
    assert_eq!(process_complex_names("sub_window".to_string(), &ide), "sub_window");
    assert_eq!(
        process_complex_names("myproject \u{2013} src/main.rs".to_string(), &ide),
        "myproject \u{2013} src/main.rs"
    );
    let welcome = window("Welcome to RustRover", "jetbrains-rustrover");
    assert_eq!(
        process_complex_names("Welcome to RustRover".to_string(), &welcome),
        "Welcome to RustRover"
    );
}

#[test]
fn name_of_the_first_title_is_kept_under_the_second() {
    let page = window("Example Domain \u{2014} Mozilla Firefox", "firefox");
    let name = extract_process_name("Mozilla Firefox");
    assert_eq!(process_complex_names(name, &page), "Mozilla Firefox");
    let ide = window("myproject \u{2013} src/main.rs", "jetbrains-rustrover");
    assert_eq!(process_complex_names(extract_process_name(""), &ide), "RustRover -> myproject");
    let editor = window("nvim notes.md", "kitty");
    assert_eq!(process_complex_names(extract_process_name("kitty"), &editor), "Vim");
}

#[test]
fn other_classes_keep_the_name() {
    let browser = window("Example \u{2013} Firefox", "firefox");
    assert_eq!(process_complex_names("Example".to_string(), &browser), "Example");
    let upper = window("fish", "Kitty");
    assert_eq!(process_complex_names("fish".to_string(), &upper), "fish");
}

#[test]
fn empty_name_falls_back_to_the_class() {
    let blank = window("", "firefox");
    assert_eq!(process_complex_names(String::new(), &blank), "firefox");
    let browser = window("Example \u{2013} Firefox", "firefox");
    assert_eq!(process_complex_names(String::new(), &browser), "firefox");
    let nothing = window("", "");
    assert_eq!(process_complex_names(String::new(), &nothing), "");
    let untitled = window("some title", "");
    assert_eq!(process_complex_names(String::new(), &untitled), "");
}

#[test]
fn resolving_takes_the_segment_as_given() {
    let ide = window("whatever", "jetbrains-rustrover");
    assert_eq!(
        resolve_complex_name(String::new(), &ide, Some("core".to_string())),
        "RustRover -> core"
    );
    assert_eq!(resolve_complex_name(String::new(), &ide, None), "RustRover");
    assert_eq!(
        resolve_complex_name("named".to_string(), &ide, Some("core".to_string())),
        "named"
    );
    let ruled = window("telegram", "jetbrains-rustrover");
    assert_eq!(
        resolve_complex_name("Telegram".to_string(), &ruled, Some("core".to_string())),
        "Telegram"
    );
    let ghostty = window("nvim", "com.mitchellh.ghostty");
    assert_eq!(resolve_complex_name(String::new(), &ghostty, Some("x".to_string())), "NeoVim");
    let browser = window("page", "firefox");
    assert_eq!(resolve_complex_name(String::new(), &browser, Some("x".to_string())), "firefox");
}

#[test]
fn two_stages_are_the_whole_normalization() {
    let titles = [
        "",
        "   ",
        "discord - #general",
        "New Tab - Discord",
        "new tab -",
        "New Tab - docs",
        "win0",
        "nvim src/main.rs",
        "~/proj",
        "myproject \u{2013} src/main.rs",
        "Welcome to RustRover",
        "  Example Domain ",
        "Telegram \u{2013} chat",
    ];
    let classes =
        ["", "firefox", "com.mitchellh.ghostty", "kitty", "jetbrains-rustrover", "Kitty"];
    for title in titles {
        for class in classes {
            let seen = window(title, class);
            assert_eq!(
                process_complex_names(extract_process_name(title), &seen),
                normalize(title, class),
                "{title:?} {class:?}"
            );
        }
    }
}

#[test]
fn leading_segment_pattern_is_the_documented_one() {
    assert_eq!(LEADING_SEGMENT, r"^(.+?)\s*–\s*");
}

#[test]
fn normalize_follows_the_rule_order() {
    assert_eq!(normalize("discord bot - nvim", "com.mitchellh.ghostty"), "Discord");
    assert_eq!(normalize("new tab - docs", "kitty"), "docs");
    assert_eq!(normalize("win3", "jetbrains-rustrover"), "sub_window");
    assert_eq!(normalize("nvim Cargo.toml", "com.mitchellh.ghostty"), "NeoVim");
    assert_eq!(normalize("~/proj", "kitty"), "Kitty");
    assert_eq!(normalize("core \u{2013} lib.rs", "jetbrains-rustrover"), "core \u{2013} lib.rs");
    assert_eq!(normalize("Welcome", "jetbrains-rustrover"), "Welcome");
    assert_eq!(normalize(" \t", "jetbrains-rustrover"), "RustRover");
    assert_eq!(normalize("  Example Domain ", "firefox"), "Example Domain");
}

#[test]
fn normalize_falls_back_to_the_class() {
    assert_eq!(normalize("", "firefox"), "firefox");
    assert_eq!(normalize("   ", "org.gnome.Nautilus"), "org.gnome.Nautilus");
    assert_eq!(normalize("new tab -", "firefox"), "firefox");
    assert_eq!(normalize("new tab - ", "kitty"), "Kitty");
    assert_eq!(normalize("", "jetbrains-rustrover"), "RustRover");
}

#[test]
fn normalize_gives_the_empty_identity_for_nothing() {
    assert_eq!(normalize("", ""), "");
    assert_eq!(normalize(" \t", ""), "");
    assert_eq!(normalize("New Tab -  ", ""), "");
    assert!(normalize("", "").is_empty());
}

#[test]
fn normalize_is_a_function_of_its_inputs() {
    let cases = [
        ("New Tab - Discord", "firefox"),
        ("core \u{2013} lib.rs", "jetbrains-rustrover"),
        ("nvim", "kitty"),
        ("", ""),
        ("plain", "class"),
    ];
    for (title, class) in cases {
        assert_eq!(normalize(title, class), normalize(title, class));
    }
}

#[test]
fn normalize_with_uses_the_segment_only_for_a_nameless_ide() {
    assert_eq!(
        normalize_with("", "jetbrains-rustrover", Some("core".to_string())),
        "RustRover -> core"
    );
    assert_eq!(normalize_with("new tab -", "jetbrains-rustrover", None), "RustRover");
    assert_eq!(
        normalize_with("core \u{2013} lib.rs", "jetbrains-rustrover", Some("core".to_string())),
        "core \u{2013} lib.rs"
    );
    assert_eq!(
        normalize_with("", "com.mitchellh.ghostty", Some("core".to_string())),
        "Ghostty"
    );
    assert_eq!(
        normalize_with("core \u{2013} lib.rs", "firefox", Some("core".to_string())),
        "core \u{2013} lib.rs"
    );
    assert_eq!(
        normalize_with("telegram", "jetbrains-rustrover", Some("core".to_string())),
        "Telegram"
    );
}

#[test]
fn example_scenario_identities() {
    assert_eq!(normalize("Ghostty terminal \u{2014} ~/proj", "com.mitchellh.ghostty"), "Ghostty");
    assert_eq!(normalize("nvim \u{2014} ~/proj", "com.mitchellh.ghostty"), "NeoVim");
}
