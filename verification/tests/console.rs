use ide_shell::workspace::console::{parse_entry, Category, Console, Entry};
use regex::Regex;

fn pattern() -> Regex {
    Regex::new(r"^\[([A-Z]+)\] \[([0-9]+\.[0-9]+)] \[([^\]]+)\]: (.+)$").unwrap()
}

fn by_pattern(pattern: &Regex, line: &str) -> Option<Entry> {
    let captures = pattern.captures(line)?;
    Some(Entry {
        category: captures.get(1)?.as_str().to_owned(),
        timestamp: captures.get(2)?.as_str().to_owned(),
        node: captures.get(3)?.as_str().to_owned(),
        message: captures.get(4)?.as_str().to_owned(),
    })
}

fn entry(category: &str, timestamp: &str, node: &str, message: &str) -> Entry {
    Entry {
        category: category.to_owned(),
        timestamp: timestamp.to_owned(),
        node: node.to_owned(),
        message: message.to_owned(),
    }
}

#[test]
fn a_structured_line_comes_apart_in_four() {
    assert_eq!(
        parse_entry("[INFO] [1700000000.123456] [velocity_publisher]: Driving forwards"),
        Some(entry("INFO", "1700000000.123456", "velocity_publisher", "Driving forwards"))
    );
    assert_eq!(parse_entry("[W] [0.0] [n]: m"), Some(entry("W", "0.0", "n", "m")));
    assert_eq!(
        parse_entry("[ERROR] [12.5] [a b [c]: x]: y [z]"),
        Some(entry("ERROR", "12.5", "a b [c", "x]: y [z]"))
    );
    assert_eq!(
        parse_entry("[DEBUG] [007.70] [nœud\n2]:  été "),
        Some(entry("DEBUG", "007.70", "nœud\n2", " été "))
    );
}

#[test]
fn any_other_line_stays_whole() {
    for line in [
        "",
        "[",
        "plain text",
        "[INFO]",
        "[INFO] [1.0] [node]: ",
        "[INFO] [1.0] [node]:",
        "[INFO] [1.0] [node] message",
        "[INFO] [1.0] []: message",
        "[INFO] [1.] [node]: message",
        "[INFO] [.0] [node]: message",
        "[INFO] [10] [node]: message",
        "[INFO] [1.0.0] [node]: message",
        "[INFO] [1,0] [node]: message",
        "[] [1.0] [node]: message",
        "[info] [1.0] [node]: message",
        "[INFO1] [1.0] [node]: message",
        "[INFO]  [1.0] [node]: message",
        "[INFO][1.0] [node]: message",
        " [INFO] [1.0] [node]: message",
        "[INFO] [1.0] [node]: two\nlines",
        "[INFO] [1.0] [node]: message\n",
        "[INFO] [١.٠] [node]: message",
        "[ÉTÉ] [1.0] [node]: message",
        "[INFO] [1.0] [node]:message",
        "[INFO] [-1.0] [node]: message",
    ] {
        assert_eq!(parse_entry(line), None, "{line:?}");
    }
}

#[test]
fn the_parts_are_found_as_the_pattern_finds_them() {
    let pattern = pattern();
    let valid = "[AB] [12.34] [no]: me";
    let alphabet = ['[', ']', ':', ' ', '.', 'A', 'Z', 'a', '0', '9', '\n', 'é', '@', '/'];
    let letters: Vec<char> = valid.chars().collect();
    let mut lines: Vec<String> = vec![valid.to_owned()];
    // every line that differs from a structured one in one place
    for at in 0..=letters.len() {
        for c in alphabet {
            let mut inserted = letters.clone();
            inserted.insert(at, c);
            lines.push(inserted.into_iter().collect());
            if at < letters.len() {
                let mut replaced = letters.clone();
                replaced[at] = c;
                lines.push(replaced.into_iter().collect());
            }
        }
        if at < letters.len() {
            let mut removed = letters.clone();
            removed.remove(at);
            lines.push(removed.into_iter().collect());
        }
        lines.push(letters[..at].iter().collect());
        lines.push(letters[at..].iter().collect());
    }
    // and a good many lines of no shape at all
    let mut seed: u64 = 0x9e3779b97f4a7c15;
    for _ in 0..20000 {
        let mut line = String::new();
        seed = seed.wrapping_mul(6364136223846793005).wrapping_add(1442695040888963407);
        let length = (seed >> 59) as usize;
        for _ in 0..length {
            seed = seed.wrapping_mul(6364136223846793005).wrapping_add(1442695040888963407);
            line.push(alphabet[(seed >> 33) as usize % alphabet.len()]);
        }
        lines.push(line);
    }
    let mut structured = 0;
    for line in &lines {
        let expected = by_pattern(&pattern, line);
        if expected.is_some() {
            structured += 1;
        }
        assert_eq!(parse_entry(line), expected, "{line:?}");
    }
    assert!(structured > 50);
}

#[test]
fn tags_name_their_categories() {
    assert_eq!(Category::from_tag("INFO"), Category::Info);
    assert_eq!(Category::from_tag("WARN"), Category::Warn);
    assert_eq!(Category::from_tag("ERROR"), Category::Error);
    for tag in ["", "info", "Info", "INFO ", "WARNING", "DEBUG", "ERR", "FATAL"] {
        assert_eq!(Category::from_tag(tag), Category::Unknown, "{tag:?}");
    }
}

#[test]
fn categories_have_their_words_and_colours() {
    assert_eq!(Category::Info.label(), "info");
    assert_eq!(Category::Warn.label(), "warn");
    assert_eq!(Category::Error.label(), "error");
    assert_eq!(Category::Unknown.label(), "unknown");
    assert_eq!(Category::Info.class(), Some("is-success"));
    assert_eq!(Category::Warn.class(), Some("is-warning"));
    assert_eq!(Category::Error.class(), Some("is-danger"));
    assert_eq!(Category::Unknown.class(), None);
}

#[test]
fn the_console_keeps_nothing() {
    assert_eq!(Console::default(), Console {});
}
