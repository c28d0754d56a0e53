//! The recorder of typed console lines, and the naming of the numbered files
//! that hold recorded sessions.
use vstd::prelude::*;
use vstd::string::{StrSliceExecFns, StringExecFns};

use crate::text::{decimal, push_decimal};

verus! {

/// Directory that holds the recorded sessions.
pub const REPLAY_SAVE_DIR: &'static str = "replays";

/// Prefix of a recorded session's file name; a number follows it.
pub const REPLAY_FILE_PREFIX: &'static str = "replay_";

/// Pattern that a recorded session's file name contains.
pub const REPLAY_FILE_PATTERN: &'static str = r"(replay_[\d]+)";

/// Whether `pattern` compiles to a regular expression, and if it does,
/// whether that finds a match anywhere in `haystack`.
pub uninterp spec fn pattern_found(pattern: Seq<char>, haystack: Seq<char>) -> Option<bool>;

/// Relies on `regex::Regex::new`, which compiles `pattern` or reports that it
/// does not compile, and `regex::Regex::is_match`, which tells whether the
/// compiled pattern matches anywhere in `haystack`; both depend on their
/// arguments alone.
#[verifier::external_body]
fn find_pattern(pattern: &str, haystack: &str) -> (r: Option<bool>)
    ensures
        r == pattern_found(pattern@, haystack@),
{
    match regex::Regex::new(pattern) {
        Ok(re) => Some(re.is_match(haystack)),
        Err(_) => None,
    }
}

/// Whether `name` is the name of a recorded session's file.
pub open spec fn is_replay_name(name: Seq<char>) -> bool {
    pattern_found(REPLAY_FILE_PATTERN@, name) == Some(true)
}

/// Lexicographic order of character sequences by code point.
pub open spec fn lex_le(a: Seq<char>, b: Seq<char>) -> bool
    decreases a.len(),
{
    if a.len() == 0 {
        true
    } else if b.len() == 0 {
        false
    } else if a[0] != b[0] {
        (a[0] as u32) < (b[0] as u32)
    } else {
        lex_le(a.drop_first(), b.drop_first())
    }
}

/// Relies on `slice::sort` over `String`: it permutes the items into
/// ascending order, and strings are ordered by their UTF-8 bytes, which
/// orders them as their characters' code points do.
#[verifier::external_body]
fn sort_names(names: &mut Vec<String>)
    ensures
        final(names)@.to_multiset() == old(names)@.to_multiset(),
        forall|i: int, j: int|
            0 <= i < j < final(names)@.len() ==> lex_le(
                #[trigger] final(names)@[i]@,
                #[trigger] final(names)@[j]@,
            ),
{
    names.sort();
}

/// The value of a nonempty run of decimal digits.
pub open spec fn digits_value(d: Seq<char>) -> int
    decreases d.len(),
{
    if d.len() == 0 {
        0
    } else {
        digits_value(d.drop_last()) * 10 + (d.last() as u32 - 48)
    }
}

/// Whether `c` is a decimal digit character.
pub open spec fn is_digit(c: char) -> bool {
    48 <= c as u32 && c as u32 <= 57
}

/// Whether `d` is a nonempty run of decimal digits.
pub open spec fn is_digits(d: Seq<char>) -> bool {
    d.len() > 0 && forall|i: int| 0 <= i < d.len() ==> is_digit(#[trigger] d[i])
}

/// Reading of an unsigned 32-bit number: an optional `+` and decimal digits
/// whose value fits.
pub open spec fn parse_u32(s: Seq<char>) -> Option<u32> {
    let d = if s.len() > 0 && s[0] == '+' { s.drop_first() } else { s };
    if is_digits(d) && digits_value(d) <= u32::MAX {
        Some(digits_value(d) as u32)
    } else {
        None
    }
}

/// A run of digits has a value of at least zero.
proof fn lemma_digits_value_nonnegative(d: Seq<char>)
    requires
        forall|i: int| 0 <= i < d.len() ==> is_digit(#[trigger] d[i]),
    ensures
        digits_value(d) >= 0,
    decreases d.len(),
{
    if d.len() > 0 {
        assert(forall|i: int| 0 <= i < d.len() - 1 ==> #[trigger] d.drop_last()[i] == d[i]);
        lemma_digits_value_nonnegative(d.drop_last());
        assert(is_digit(d[d.len() - 1]));
    }
}

/// Reads an unsigned 32-bit number as `str::parse::<u32>` does: an optional
/// `+`, then decimal digits whose value fits.
fn read_u32(s: &str) -> (r: Option<u32>)
    ensures
        r == parse_u32(s@),
{
    let n = s.unicode_len();
    let start: usize = if n > 0 && s.get_char(0) == '+' { 1 } else { 0 };
    let ghost d = s@.subrange(start as int, n as int);
    assert(d =~= (if s@.len() > 0 && s@[0] == '+' { s@.drop_first() } else { s@ }));
    if start == n {
        return None;
    }
    let cap: u64 = 4294967296;
    let mut value: u64 = 0;
    let mut i: usize = start;
    while i < n
        invariant
            n == s@.len(),
            start <= i <= n,
            d == s@.subrange(start as int, n as int),
            d == (if s@.len() > 0 && s@[0] == '+' { s@.drop_first() } else { s@ }),
            cap == 4294967296,
            forall|j: int| start <= j < i ==> is_digit(#[trigger] s@[j]),
            value <= cap,
            value < cap ==> value == digits_value(s@.subrange(start as int, i as int)),
            value == cap ==> digits_value(s@.subrange(start as int, i as int)) >= cap,
        decreases n - i,
    {
        let c = s.get_char(i);
        let code = c as u32;
        if code < 48 || code > 57 {
            assert(s@[i as int] == c);
            assert(d[i - start] == s@[i as int]);
            assert(!is_digit(d[i - start]));
            assert(!is_digits(d));
            return None;
        }
        let ghost before = s@.subrange(start as int, i as int);
        let ghost after = s@.subrange(start as int, i + 1);
        assert(after.drop_last() =~= before);
        assert(forall|j: int| 0 <= j < before.len() ==> is_digit(#[trigger] before[j])) by {
            assert(forall|j: int| 0 <= j < before.len() ==> before[j] == s@[start + j]);
        }
        proof {
            lemma_digits_value_nonnegative(before);
        }
        if value < cap {
            let next = value * 10 + (code - 48) as u64;
            value = if next >= cap { cap } else { next };
        } else {
            assert(digits_value(after) >= cap) by (nonlinear_arith)
                requires
                    digits_value(after) == digits_value(before) * 10 + (code - 48),
                    digits_value(before) >= cap,
                    code >= 48,
                    cap > 0;
        }
        i = i + 1;
    }
    assert(s@.subrange(start as int, i as int) =~= d);
    if value < cap {
        Some(value as u32)
    } else {
        None
    }
}

/// The number of a session file: its name is the prefix followed by a
/// number.
pub open spec fn replay_number(name: Seq<char>) -> Option<u32> {
    let p = REPLAY_FILE_PREFIX@;
    if p.len() <= name.len() && name.subrange(0, p.len() as int) == p {
        parse_u32(name.subrange(p.len() as int, name.len() as int))
    } else {
        None
    }
}

/// The highest number among the session files in `files`.
pub open spec fn highest_number(files: Seq<String>) -> Option<u32>
    decreases files.len(),
{
    if files.len() == 0 {
        None
    } else {
        let rest = highest_number(files.drop_last());
        match (replay_number(files.last()@), rest) {
            (Some(n), Some(m)) => Some(if n > m { n } else { m }),
            (Some(n), None) => Some(n),
            (None, _) => rest,
        }
    }
}

/// The path for the next session's file: numbered one above the highest
/// numbered file, or 1 where there is none.
pub open spec fn next_path(files: Seq<String>) -> Seq<char> {
    REPLAY_SAVE_DIR@ + "/"@ + REPLAY_FILE_PREFIX@ + decimal(
        match highest_number(files) {
            Some(n) => (n + 1) as nat,
            None => 1nat,
        },
    )
}

/// The items of `names` whose mark, at the same position in `marks`, is set.
pub open spec fn marked(names: Seq<String>, marks: Seq<bool>) -> Seq<String>
    decreases names.len(),
{
    if names.len() == 0 || marks.len() == 0 {
        Seq::empty()
    } else {
        let rest = marked(names.drop_last(), marks.drop_last());
        if marks.last() {
            rest.push(names.last())
        } else {
            rest
        }
    }
}

/// Marking each name by whether it is a session file's name, then keeping
/// the marked ones, keeps exactly the session files' names.
proof fn lemma_marked_is_filter(names: Seq<String>, marks: Seq<bool>)
    requires
        marks.len() == names.len(),
        forall|j: int| 0 <= j < names.len() ==> #[trigger] marks[j] == is_replay_name(names[j]@),
    ensures
        marked(names, marks) == names.filter(|n: String| is_replay_name(n@)),
    decreases names.len(),
{
    reveal(Seq::filter);
    if names.len() > 0 {
        lemma_marked_is_filter(names.drop_last(), marks.drop_last());
    }
}

/// The lines typed in one session, in order.
pub struct ReplayManager {
    commands: Vec<String>,
}

impl View for ReplayManager {
    type V = Seq<String>;

    closed spec fn view(&self) -> Seq<String> {
        self.commands@
    }
}

impl ReplayManager {
    /// An empty recording.
    pub fn new() -> (r: Self)
        ensures
            r@ == Seq::<String>::empty(),
    {
        Self { commands: Vec::new() }
    }

    /// Records `command` and hands it back.
    pub fn push(&mut self, command: String) -> (r: Option<&String>)
        ensures
            final(self)@ == old(self)@.push(command),
            r == Some(&command),
    {
        self.commands.push(command);
        let n = self.commands.len();
        Some(&self.commands[n - 1])
    }

    /// The recorded lines, in order.
    pub fn commands(&self) -> (r: &[String])
        ensures
            r@ == self@,
    {
        self.commands.as_slice()
    }

    /// Of the names of the files found in the session directory, those of
    /// recorded sessions, in ascending order.
    pub fn select_replay_files(names: Vec<String>) -> (r: Vec<String>)
        ensures
            r@.to_multiset() == names@.filter(|n: String| is_replay_name(n@)).to_multiset(),
            forall|i: int, j: int| 0 <= i < j < r@.len() ==> lex_le(#[trigger] r@[i]@, #[trigger] r@[j]@),
    {
        let mut marks: Vec<bool> = Vec::new();
        let mut i: usize = 0;
        while i < names.len()
            invariant
                i <= names@.len(),
                marks@.len() == i,
                forall|j: int| 0 <= j < i ==> #[trigger] marks@[j] == is_replay_name(names@[j]@),
            decreases names@.len() - i,
        {
            let found = find_pattern(REPLAY_FILE_PATTERN, names[i].as_str());
            marks.push(found == Some(true));
            i = i + 1;
        }
        proof {
            lemma_marked_is_filter(names@, marks@);
        }
        Self::sort_marked(names, &marks)
    }

    /// The names whose mark is set, in ascending order.
    pub fn sort_marked(names: Vec<String>, marks: &[bool]) -> (r: Vec<String>)
        requires
            marks@.len() == names@.len(),
        ensures
            r@.to_multiset() == marked(names@, marks@).to_multiset(),
            forall|i: int, j: int| 0 <= i < j < r@.len() ==> lex_le(#[trigger] r@[i]@, #[trigger] r@[j]@),
    {
        let mut kept: Vec<String> = Vec::new();
        let mut i: usize = 0;
        while i < names.len()
            invariant
                i <= names@.len(),
                marks@.len() == names@.len(),
                kept@ == marked(names@.subrange(0, i as int), marks@.subrange(0, i as int)),
            decreases names@.len() - i,
        {
            proof {
                assert(names@.subrange(0, i + 1).drop_last() =~= names@.subrange(0, i as int));
                assert(marks@.subrange(0, i + 1).drop_last() =~= marks@.subrange(0, i as int));
            }
            if marks[i] {
                kept.push(names[i].clone());
            }
            i = i + 1;
        }
        assert(names@.subrange(0, i as int) =~= names@);
        assert(marks@.subrange(0, i as int) =~= marks@);
        sort_names(&mut kept);
        kept
    }

    /// The number that the name of a session file carries, if any.
    fn number_of(name: &str) -> (r: Option<u32>)
        ensures
            r == replay_number(name@),
    {
        let prefix: &str = REPLAY_FILE_PREFIX;
        assert(prefix@ == REPLAY_FILE_PREFIX@);
        let p = prefix.unicode_len();
        let n = name.unicode_len();
        if n < p {
            return None;
        }
        let mut i: usize = 0;
        while i < p
            invariant
                p == prefix@.len(),
                prefix@ == REPLAY_FILE_PREFIX@,
                n == name@.len(),
                p <= n,
                i <= p,
                name@.subrange(0, i as int) == prefix@.subrange(0, i as int),
            decreases p - i,
        {
            if name.get_char(i) != prefix.get_char(i) {
                assert(name@.subrange(0, p as int)[i as int] != prefix@[i as int]);
                assert(name@.subrange(0, p as int) != prefix@);
                return None;
            }
            i = i + 1;
            assert(name@.subrange(0, i as int) =~= prefix@.subrange(0, i as int));
        }
        assert(prefix@.subrange(0, p as int) =~= prefix@);
        let digits = name.substring_char(p, n);
        read_u32(digits)
    }

    /// The path for the next session's file, given the names of the recorded
    /// sessions: numbered one above the highest number that they carry, or 1
    /// where none carries one.
    pub fn next_file_path(replay_files: &[String]) -> (r: String)
        ensures
            r@ == next_path(replay_files@),
    {
        let mut highest: Option<u32> = None;
        let mut k: usize = 0;
        while k < replay_files.len()
            invariant
                k <= replay_files@.len(),
                highest == highest_number(replay_files@.subrange(0, k as int)),
            decreases replay_files@.len() - k,
        {
            let ghost upto = replay_files@.subrange(0, k + 1);
            assert(upto.drop_last() =~= replay_files@.subrange(0, k as int));
            let found = Self::number_of(replay_files[k].as_str());
            highest = match (found, highest) {
                (Some(n), Some(m)) => Some(if n > m { n } else { m }),
                (Some(n), None) => Some(n),
                (None, _) => highest,
            };
            k = k + 1;
        }
        assert(replay_files@.subrange(0, k as int) =~= replay_files@);
        let number: u64 = match highest {
            Some(n) => n as u64 + 1,
            None => 1,
        };
        let mut path = String::from_str(REPLAY_SAVE_DIR);
        path.append("/");
        path.append(REPLAY_FILE_PREFIX);
        push_decimal(&mut path, number);
        path
    }
}

} // verus!
