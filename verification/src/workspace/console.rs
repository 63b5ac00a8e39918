//! The log console below the tabs. It shows lines that others append and
//! keeps nothing of its own.
//!
//! A line that has the shape
//!
//! ```text
//! [CATEGORY] [seconds.fraction] [node]: message
//! ```
//!
//! is shown in four parts; any other line is shown as it is. The category is
//! one or more capital letters, seconds and fraction are one or more digits
//! each, the node is anything without a closing bracket, and the message is
//! anything that does not break the line. None of them is empty.

use vstd::prelude::*;
use vstd::string::StrSliceExecFns;
use vstd::string::StringExecFns;

verus! {

#[derive(Clone, Copy, Debug, PartialEq, Eq)]
pub struct Console {}

impl Default for Console {
    fn default() -> (console: Console)
        ensures
            console == (Console {}),
    {
        Console {}
    }
}

/// How grave a log line is.
#[derive(Clone, Copy, Debug, PartialEq, Eq)]
pub enum Category {
    Info,
    Warn,
    Error,
    Unknown,
}

impl Category {
    /// The category that a tag names. Tags are written in capitals.
    pub open spec fn of(tag: Seq<char>) -> Category {
        if tag == "INFO"@ {
            Category::Info
        } else if tag == "WARN"@ {
            Category::Warn
        } else if tag == "ERROR"@ {
            Category::Error
        } else {
            Category::Unknown
        }
    }

    /// `of`, computed.
    pub fn from_tag(tag: &str) -> (category: Category)
        ensures
            category == Category::of(tag@),
    {
        let tag = String::from_str(tag);
        if tag == String::from_str("INFO") {
            Category::Info
        } else if tag == String::from_str("WARN") {
            Category::Warn
        } else if tag == String::from_str("ERROR") {
            Category::Error
        } else {
            Category::Unknown
        }
    }

    /// The word that the console shows for the category.
    pub fn label(&self) -> (label: &'static str)
        ensures
            label@ == match self {
                Category::Info => "info"@,
                Category::Warn => "warn"@,
                Category::Error => "error"@,
                Category::Unknown => "unknown"@,
            },
    {
        match self {
            Category::Info => "info",
            Category::Warn => "warn",
            Category::Error => "error",
            Category::Unknown => "unknown",
        }
    }

    /// The class that colours the category, if it has a colour.
    pub fn class(&self) -> (class: Option<&'static str>)
        ensures
            match self {
                Category::Info => class is Some && class->0@ == "is-success"@,
                Category::Warn => class is Some && class->0@ == "is-warning"@,
                Category::Error => class is Some && class->0@ == "is-danger"@,
                Category::Unknown => class is None,
            },
    {
        match self {
            Category::Info => Some("is-success"),
            Category::Warn => Some("is-warning"),
            Category::Error => Some("is-danger"),
            Category::Unknown => None,
        }
    }
}

/// Whether `c` is a capital letter, `A` to `Z`.
pub open spec fn is_capital(c: char) -> bool {
    65 <= c as u32 <= 90
}

/// Whether `c` is a digit, `0` to `9`.
pub open spec fn is_digit(c: char) -> bool {
    48 <= c as u32 <= 57
}

/// Whether `line` reads `] [` from `at` on.
pub open spec fn between_fields(line: Seq<char>, at: int) -> bool {
    &&& 0 <= at && at + 3 <= line.len()
    &&& line[at] == ']'
    &&& line[at + 1] == ' '
    &&& line[at + 2] == '['
}

/// Whether `line` reads `]: ` from `at` on.
pub open spec fn before_message(line: Seq<char>, at: int) -> bool {
    &&& 0 <= at && at + 3 <= line.len()
    &&& line[at] == ']'
    &&& line[at + 1] == ':'
    &&& line[at + 2] == ' '
}

/// Where the parts of a structured line end.
pub struct Cuts {
    /// The end of the category, which begins at 1.
    pub category: int,
    /// The place of the point in the time stamp, which begins three places
    /// after the category.
    pub point: int,
    /// The end of the time stamp.
    pub timestamp: int,
    /// The end of the node, which begins three places after the time stamp.
    /// The message begins three places after the node and runs to the end.
    pub node: int,
}

/// Whether `line` has the shape of a structured line, with its parts ending
/// where `cuts` says.
pub open spec fn structured_at(line: Seq<char>, cuts: Cuts) -> bool {
    &&& line.len() > 0 && line[0] == '['
    &&& 1 < cuts.category
    &&& forall|i: int| 1 <= i < cuts.category ==> is_capital(#[trigger] line[i])
    &&& between_fields(line, cuts.category)
    &&& cuts.category + 3 < cuts.point < line.len()
    &&& forall|i: int| cuts.category + 3 <= i < cuts.point ==> is_digit(#[trigger] line[i])
    &&& line[cuts.point] == '.'
    &&& cuts.point + 1 < cuts.timestamp
    &&& forall|i: int| cuts.point + 1 <= i < cuts.timestamp ==> is_digit(#[trigger] line[i])
    &&& between_fields(line, cuts.timestamp)
    &&& cuts.timestamp + 3 < cuts.node
    &&& forall|i: int| cuts.timestamp + 3 <= i < cuts.node ==> #[trigger] line[i] != ']'
    &&& before_message(line, cuts.node)
    &&& cuts.node + 3 < line.len()
    &&& forall|i: int| cuts.node + 3 <= i < line.len() ==> #[trigger] line[i] != '\n'
}

/// The four parts of a structured line, as mathematics.
pub struct Fields {
    pub category: Seq<char>,
    pub timestamp: Seq<char>,
    pub node: Seq<char>,
    pub message: Seq<char>,
}

/// The parts of `line` that `cuts` marks.
pub open spec fn fields_at(line: Seq<char>, cuts: Cuts) -> Fields {
    Fields {
        category: line.subrange(1, cuts.category),
        timestamp: line.subrange(cuts.category + 3, cuts.timestamp),
        node: line.subrange(cuts.timestamp + 3, cuts.node),
        message: line.subrange(cuts.node + 3, line.len() as int),
    }
}

/// A line has the shape of a structured line in at most one way.
pub proof fn lemma_structured_once(line: Seq<char>, first: Cuts, second: Cuts)
    requires
        structured_at(line, first),
        structured_at(line, second),
    ensures
        first == second,
{
    lemma_run_ends_once(line, 1, first.category, second.category, |c: char| is_capital(c));
    lemma_run_ends_once(
        line,
        first.category + 3,
        first.point,
        second.point,
        |c: char| is_digit(c),
    );
    lemma_run_ends_once(
        line,
        first.point + 1,
        first.timestamp,
        second.timestamp,
        |c: char| is_digit(c),
    );
    lemma_run_ends_once(
        line,
        first.timestamp + 3,
        first.node,
        second.node,
        |c: char| c != ']',
    );
}

/// A run of characters that pass a test, followed by one that does not,
/// ends in one place only.
pub proof fn lemma_run_ends_once(
    line: Seq<char>,
    from: int,
    first: int,
    second: int,
    test: spec_fn(char) -> bool,
)
    requires
        0 <= from <= first < line.len(),
        from <= second < line.len(),
        forall|i: int| from <= i < first ==> test(#[trigger] line[i]),
        forall|i: int| from <= i < second ==> test(#[trigger] line[i]),
        !test(line[first]),
        !test(line[second]),
    ensures
        first == second,
{
    if first < second {
        assert(test(line[first]));
    } else if second < first {
        assert(test(line[second]));
    }
}

/// The four parts of a structured line.
#[derive(Debug, PartialEq, Eq)]
pub struct Entry {
    pub category: String,
    pub timestamp: String,
    pub node: String,
    pub message: String,
}

impl View for Entry {
    type V = Fields;

    open spec fn view(&self) -> Fields {
        Fields {
            category: self.category@,
            timestamp: self.timestamp@,
            node: self.node@,
            message: self.message@,
        }
    }
}

/// Whether `c` is a capital letter.
fn capital(c: char) -> (yes: bool)
    ensures
        yes == is_capital(c),
{
    let code = c as u32;
    65 <= code && code <= 90
}

/// Whether `c` is a digit.
fn digit(c: char) -> (yes: bool)
    ensures
        yes == is_digit(c),
{
    let code = c as u32;
    48 <= code && code <= 57
}

/// Whether `line` reads `first`, `second`, `third` from `at` on.
fn reads(line: &str, length: usize, at: usize, first: char, second: char, third: char) -> (yes:
    bool)
    requires
        length == line@.len(),
        at <= length,
    ensures
        yes == (at + 3 <= line@.len() && line@[at as int] == first && line@[at + 1] == second
            && line@[at + 2] == third),
{
    if length - at < 3 {
        return false;
    }
    line.get_char(at) == first && line.get_char(at + 1) == second && line.get_char(at + 2) == third
}

/// The end of the run of capital letters that begins at `from`.
fn capitals_end(line: &str, length: usize, from: usize) -> (end: usize)
    requires
        length == line@.len(),
        from <= length,
    ensures
        from <= end <= length,
        forall|i: int| from <= i < end ==> is_capital(#[trigger] line@[i]),
        end < length ==> !is_capital(line@[end as int]),
{
    let mut end = from;
    while end < length && capital(line.get_char(end))
        invariant
            from <= end <= length,
            length == line@.len(),
            forall|i: int| from <= i < end ==> is_capital(#[trigger] line@[i]),
        decreases length - end,
    {
        end += 1;
    }
    end
}

/// The end of the run of digits that begins at `from`.
fn digits_end(line: &str, length: usize, from: usize) -> (end: usize)
    requires
        length == line@.len(),
        from <= length,
    ensures
        from <= end <= length,
        forall|i: int| from <= i < end ==> is_digit(#[trigger] line@[i]),
        end < length ==> !is_digit(line@[end as int]),
{
    let mut end = from;
    while end < length && digit(line.get_char(end))
        invariant
            from <= end <= length,
            length == line@.len(),
            forall|i: int| from <= i < end ==> is_digit(#[trigger] line@[i]),
        decreases length - end,
    {
        end += 1;
    }
    end
}

/// The first place at or after `from` that holds `stop`, or the end.
fn run_end(line: &str, length: usize, from: usize, stop: char) -> (end: usize)
    requires
        length == line@.len(),
        from <= length,
    ensures
        from <= end <= length,
        forall|i: int| from <= i < end ==> #[trigger] line@[i] != stop,
        end < length ==> line@[end as int] == stop,
{
    let mut end = from;
    while end < length && line.get_char(end) != stop
        invariant
            from <= end <= length,
            length == line@.len(),
            forall|i: int| from <= i < end ==> #[trigger] line@[i] != stop,
        decreases length - end,
    {
        end += 1;
    }
    end
}

/// Where the parts of `line` end, if it has the shape of a structured line.
fn find_cuts(line: &str, length: usize) -> (found: Option<(usize, usize, usize, usize)>)
    requires
        length == line@.len(),
    ensures
        match found {
            Some((category, point, timestamp, node)) => structured_at(
                line@,
                Cuts {
                    category: category as int,
                    point: point as int,
                    timestamp: timestamp as int,
                    node: node as int,
                },
            ),
            None => forall|cuts: Cuts| !structured_at(line@, cuts),
        },
{
    if length == 0 || line.get_char(0) != '[' {
        return None;
    }
    let category = capitals_end(line, length, 1);
    if category == 1 || !reads(line, length, category, ']', ' ', '[') {
        proof {
            assert forall|cuts: Cuts| !structured_at(line@, cuts) by {
                if structured_at(line@, cuts) {
                    lemma_run_ends_once(
                        line@,
                        1,
                        category as int,
                        cuts.category,
                        |c: char| is_capital(c),
                    );
                }
            }
        }
        return None;
    }
    let point = digits_end(line, length, category + 3);
    if point == category + 3 || point >= length || line.get_char(point) != '.' {
        proof {
            assert forall|cuts: Cuts| !structured_at(line@, cuts) by {
                if structured_at(line@, cuts) {
                    lemma_run_ends_once(
                        line@,
                        1,
                        category as int,
                        cuts.category,
                        |c: char| is_capital(c),
                    );
                    if point < length {
                        lemma_run_ends_once(
                            line@,
                            category + 3,
                            point as int,
                            cuts.point,
                            |c: char| is_digit(c),
                        );
                    } else {
                        assert(is_digit(line@[cuts.point]));
                    }
                }
            }
        }
        return None;
    }
    let timestamp = digits_end(line, length, point + 1);
    if timestamp == point + 1 || !reads(line, length, timestamp, ']', ' ', '[') {
        proof {
            assert forall|cuts: Cuts| !structured_at(line@, cuts) by {
                if structured_at(line@, cuts) {
                    lemma_run_ends_once(
                        line@,
                        1,
                        category as int,
                        cuts.category,
                        |c: char| is_capital(c),
                    );
                    lemma_run_ends_once(
                        line@,
                        category + 3,
                        point as int,
                        cuts.point,
                        |c: char| is_digit(c),
                    );
                    if timestamp < length {
                        lemma_run_ends_once(
                            line@,
                            point + 1,
                            timestamp as int,
                            cuts.timestamp,
                            |c: char| is_digit(c),
                        );
                    } else {
                        assert(is_digit(line@[cuts.timestamp]));
                    }
                }
            }
        }
        return None;
    }
    let node = run_end(line, length, timestamp + 3, ']');
    if node == timestamp + 3 || !reads(line, length, node, ']', ':', ' ') || node + 3 >= length {
        proof {
            assert forall|cuts: Cuts| !structured_at(line@, cuts) by {
                if structured_at(line@, cuts) {
                    lemma_run_ends_once(
                        line@,
                        1,
                        category as int,
                        cuts.category,
                        |c: char| is_capital(c),
                    );
                    lemma_run_ends_once(
                        line@,
                        category + 3,
                        point as int,
                        cuts.point,
                        |c: char| is_digit(c),
                    );
                    lemma_run_ends_once(
                        line@,
                        point + 1,
                        timestamp as int,
                        cuts.timestamp,
                        |c: char| is_digit(c),
                    );
                    if node < length {
                        lemma_run_ends_once(
                            line@,
                            timestamp + 3,
                            node as int,
                            cuts.node,
                            |c: char| c != ']',
                        );
                    } else {
                        assert(line@[cuts.node] != ']');
                    }
                }
            }
        }
        return None;
    }
    let message_end = run_end(line, length, node + 3, '\n');
    if message_end < length {
        proof {
            assert forall|cuts: Cuts| !structured_at(line@, cuts) by {
                if structured_at(line@, cuts) {
                    lemma_run_ends_once(
                        line@,
                        1,
                        category as int,
                        cuts.category,
                        |c: char| is_capital(c),
                    );
                    lemma_run_ends_once(
                        line@,
                        category + 3,
                        point as int,
                        cuts.point,
                        |c: char| is_digit(c),
                    );
                    lemma_run_ends_once(
                        line@,
                        point + 1,
                        timestamp as int,
                        cuts.timestamp,
                        |c: char| is_digit(c),
                    );
                    lemma_run_ends_once(
                        line@,
                        timestamp + 3,
                        node as int,
                        cuts.node,
                        |c: char| c != ']',
                    );
                    assert(line@[message_end as int] != '\n');
                }
            }
        }
        return None;
    }
    Some((category, point, timestamp, node))
}

/// Takes a log line apart, if it has the shape of a structured line.
pub fn parse_entry(line: &str) -> (entry: Option<Entry>)
    ensures
        match entry {
            Some(parts) => exists|cuts: Cuts|
                structured_at(line@, cuts) && parts@ == #[trigger] fields_at(line@, cuts),
            None => forall|cuts: Cuts| !structured_at(line@, cuts),
        },
{
    let length = line.unicode_len();
    match find_cuts(line, length) {
        Some((category, _, timestamp, node)) => {
            let entry = Entry {
                category: String::from_str(line.substring_char(1, category)),
                timestamp: String::from_str(line.substring_char(category + 3, timestamp)),
                node: String::from_str(line.substring_char(timestamp + 3, node)),
                message: String::from_str(line.substring_char(node + 3, length)),
            };
            proof {
                let cuts = choose|cuts: Cuts|
                    structured_at(line@, cuts) && cuts.category == category && cuts.timestamp
                        == timestamp && cuts.node == node;
                assert(entry@ == fields_at(line@, cuts));
            }
            Some(entry)
        },
        None => None,
    }
}

} // verus!
