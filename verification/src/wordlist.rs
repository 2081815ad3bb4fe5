//! From wordlist text to a table of roll codes and words.
//!
//! The text is cut into lines, each line is searched for an entry, and the
//! entries are recorded in order, so that of two entries with one code the
//! later stays. Lines without an entry are passed over.

use crate::kinds::GenerationError;
use crate::pattern::line_entry;
use crate::pattern::pair_text;
use crate::pattern::parse_wordlist_line;
use crate::pattern::regex_accepts;
use crate::pattern::LinePattern;
use crate::pattern::ENTRY_PATTERN;
use crate::text::chars_of;
use crate::text::string_of;
use crate::text::texts;
use vstd::hash_map::StringHashMap;
use vstd::prelude::*;

verus! {

/// Where the line that starts at `from` ends: the place of the next line feed,
/// or the end of the text where there is none.
pub open spec fn line_end(text: Seq<char>, from: int) -> int
    decreases text.len() - from,
{
    if from < 0 || from >= text.len() {
        text.len() as int
    } else if text[from] == '\n' {
        from
    } else {
        line_end(text, from + 1)
    }
}

/// `line` without the carriage return that it may end in.
pub open spec fn without_return(line: Seq<char>) -> Seq<char> {
    if line.len() > 0 && line.last() == '\r' {
        line.drop_last()
    } else {
        line
    }
}

/// The lines of `text` from position `from` on. A line ends at a line feed,
/// and a carriage return just before that line feed belongs to the ending. A
/// last line without a line feed is kept as it stands; after a final line feed
/// no empty line follows.
pub open spec fn lines_from(text: Seq<char>, from: int) -> Seq<Seq<char>>
    decreases text.len() - from,
{
    if from < 0 || from >= text.len() {
        Seq::empty()
    } else {
        let end = line_end(text, from);
        if end >= text.len() {
            seq![text.subrange(from, text.len() as int)]
        } else {
            proof {
                lemma_line_end(text, from);
            }
            seq![without_return(text.subrange(from, end))] + lines_from(text, end + 1)
        }
    }
}

/// The lines of `text`.
pub open spec fn lines_of(text: Seq<char>) -> Seq<Seq<char>> {
    lines_from(text, 0)
}

/// A line runs from its start to the first line feed at or after it.
pub proof fn lemma_line_end(text: Seq<char>, from: int)
    requires
        0 <= from <= text.len(),
    ensures
        from <= line_end(text, from) <= text.len(),
        line_end(text, from) < text.len() ==> text[line_end(text, from)] == '\n',
        forall|k: int| from <= k < line_end(text, from) ==> text[k] != '\n',
    decreases text.len() - from,
{
    if from < text.len() && text[from] != '\n' {
        lemma_line_end(text, from + 1);
    }
}

/// Cuts `text` into its lines.
pub fn split_lines(text: &str) -> (r: Vec<String>)
    ensures
        texts(r@) == lines_of(text@),
{
    let chars = chars_of(text);
    let mut lines: Vec<String> = Vec::new();
    let mut start: usize = 0;
    while start < chars.len()
        invariant
            start <= chars.len(),
            chars@ == text@,
            texts(lines@) + lines_from(text@, start as int) == lines_of(text@),
        decreases chars.len() - start,
    {
        let mut end: usize = start;
        while end < chars.len() && chars[end] != '\n'
            invariant
                start <= end <= chars.len(),
                line_end(chars@, start as int) == line_end(chars@, end as int),
            decreases chars.len() - end,
        {
            end += 1;
        }
        let ghost done = texts(lines@);
        if end == chars.len() {
            lines.push(string_of(&chars, start, end));
            start = end;
        } else {
            let stop = if end > start && chars[end - 1] == '\r' {
                end - 1
            } else {
                end
            };
            let line = string_of(&chars, start, stop);
            assert(line@ == without_return(text@.subrange(start as int, end as int)));
            lines.push(line);
            assert(texts(lines@) + lines_from(text@, end + 1) == done + lines_from(
                text@,
                start as int,
            ));
            start = end + 1;
        }
    }
    lines
}

/// A lookup table from roll code to word. Each code occurs once.
pub struct WordlistTable {
    entries: StringHashMap<String>,
}

impl View for WordlistTable {
    type V = Map<Seq<char>, Seq<char>>;

    closed spec fn view(&self) -> Map<Seq<char>, Seq<char>> {
        self.entries@.map_values(|word: String| word@)
    }
}

impl WordlistTable {
    /// The table without entries.
    pub fn new() -> (r: WordlistTable)
        ensures
            r@ == Map::<Seq<char>, Seq<char>>::empty(),
    {
        let r = WordlistTable { entries: StringHashMap::new() };
        r
    }

    /// Sets the word of `code`, in place of the word it had, if it had one.
    pub fn insert(&mut self, code: String, word: String)
        ensures
            final(self)@ == old(self)@.insert(code@, word@),
    {
        self.entries.insert(code, word);
    }

    /// The word of `code`, if the table has one.
    pub fn get(&self, code: &str) -> (r: Option<String>)
        ensures
            match r {
                Some(word) => self@.contains_key(code@) && self@[code@] == word@,
                None => !self@.contains_key(code@),
            },
    {
        match self.entries.get(code) {
            Some(word) => Some(word.clone()),
            None => None,
        }
    }

    /// Whether the table has a word for `code`.
    pub fn contains_key(&self, code: &str) -> (r: bool)
        ensures
            r == self@.contains_key(code@),
    {
        self.entries.contains_key(code)
    }

    /// The number of codes that have a word.
    pub fn len(&self) -> (r: usize)
        ensures
            r == self@.len(),
    {
        proof {
            assert(self@.dom() =~= self.entries@.dom());
        }
        self.entries.len()
    }
}

/// What a line gave: a roll code and a word, or nothing.
pub type Entry = Option<(Seq<char>, Seq<char>)>;

/// The table after `entry`: its word stands under its code; a line that gave
/// nothing leaves the table as it was.
pub open spec fn recorded(table: Map<Seq<char>, Seq<char>>, entry: Entry) -> Map<
    Seq<char>,
    Seq<char>,
> {
    match entry {
        Some((code, word)) => table.insert(code, word),
        None => table,
    }
}

/// The table that `entries` build when they are recorded in order.
pub open spec fn table_of(entries: Seq<Entry>) -> Map<Seq<char>, Seq<char>>
    decreases entries.len(),
{
    if entries.len() == 0 {
        Map::empty()
    } else {
        recorded(table_of(entries.drop_last()), entries.last())
    }
}

/// What each of `lines` gives, in order.
pub open spec fn entries_of_lines(lines: Seq<Seq<char>>) -> Seq<Entry> {
    lines.map_values(|line: Seq<char>| line_entry(line))
}

/// What each line of `text` gives, in order.
pub open spec fn entries_of(text: Seq<char>) -> Seq<Entry> {
    entries_of_lines(lines_of(text))
}

/// Those of `lines` that hold an entry, in order.
pub open spec fn matching(lines: Seq<Seq<char>>) -> Seq<Seq<char>> {
    lines.filter(|line: Seq<char>| line_entry(line) is Some)
}

/// The lines of `text` that hold an entry, in order.
pub open spec fn matching_lines(text: Seq<char>) -> Seq<Seq<char>> {
    matching(lines_of(text))
}

/// The table that `text` describes.
pub open spec fn wordlist_table(text: Seq<char>) -> Map<Seq<char>, Seq<char>> {
    table_of(entries_of(text))
}

/// Records what one line gave.
pub fn record_entry(table: &mut WordlistTable, entry: Option<(&str, &str)>)
    ensures
        final(table)@ == recorded(old(table)@, pair_text(entry)),
{
    match entry {
        Some((code, word)) => {
            table.insert(code.to_owned(), word.to_owned());
        },
        None => {},
    }
}

/// Builds the table of `wordlist_data` with a pattern that is already
/// compiled.
pub fn parse_lines(pattern: &LinePattern, wordlist_data: &str) -> (r: WordlistTable)
    requires
        pattern.source() == ENTRY_PATTERN@,
    ensures
        r@ == wordlist_table(wordlist_data@),
{
    let lines = split_lines(wordlist_data);
    let mut table = WordlistTable::new();
    let mut i: usize = 0;
    while i < lines.len()
        invariant
            i <= lines.len(),
            pattern.source() == ENTRY_PATTERN@,
            texts(lines@) == lines_of(wordlist_data@),
            table@ == table_of(entries_of(wordlist_data@).take(i as int)),
        decreases lines.len() - i,
    {
        let ghost entries = entries_of(wordlist_data@);
        assert(entries.take(i + 1).drop_last() == entries.take(i as int));
        assert(entries[i as int] == line_entry(lines@[i as int]@)) by {
            assert(texts(lines@)[i as int] == lines@[i as int]@);
        }
        let entry = parse_wordlist_line(pattern, lines[i].as_str());
        record_entry(&mut table, entry);
        i += 1;
    }
    assert(entries_of(wordlist_data@).take(lines.len() as int) == entries_of(wordlist_data@));
    table
}

/// Whether `r` is what parsing `text` gives: its table where the regex engine
/// takes the entry pattern, a pattern failure where it does not.
pub open spec fn is_parse_of(r: Result<WordlistTable, GenerationError>, text: Seq<char>) -> bool {
    match r {
        Ok(table) => regex_accepts(ENTRY_PATTERN@) && table@ == wordlist_table(text),
        Err(e) => e == GenerationError::PatternFailure && !regex_accepts(ENTRY_PATTERN@),
    }
}

/// Builds the table of `wordlist_data`: one entry for each line that holds
/// one, the later of two entries with one code staying. Lines without an entry
/// are passed over. The only failure is an entry pattern that the regex engine
/// turns down.
pub fn parse_diceware_wordlist(wordlist_data: &str) -> (r: Result<WordlistTable, GenerationError>)
    ensures
        is_parse_of(r, wordlist_data@),
{
    match LinePattern::entry() {
        Ok(pattern) => Ok(parse_lines(&pattern, wordlist_data)),
        Err(e) => Err(e),
    }
}

/// Parsing is repeatable: what one text gives once, it gives again.
pub proof fn lemma_parsing_repeats(
    text: Seq<char>,
    first: Result<WordlistTable, GenerationError>,
    second: Result<WordlistTable, GenerationError>,
)
    requires
        is_parse_of(first, text),
        is_parse_of(second, text),
    ensures
        match (first, second) {
            (Ok(one), Ok(other)) => one@ == other@,
            (Err(one), Err(other)) => one == other,
            _ => false,
        },
{
}

/// The roll code of an entry.
pub open spec fn code_of(entry: Entry) -> Seq<char>
    recommends
        entry is Some,
{
    entry.unwrap().0
}

/// The word of an entry.
pub open spec fn word_of(entry: Entry) -> Seq<char>
    recommends
        entry is Some,
{
    entry.unwrap().1
}

/// Whether `entry` is an entry for `code`.
pub open spec fn has_code(entry: Entry, code: Seq<char>) -> bool {
    entry matches Some(pair) && pair.0 == code
}

/// Whether no two of `entries` share a code.
pub open spec fn distinct_codes(entries: Seq<Entry>) -> bool {
    forall|i: int, j: int|
        0 <= i < j < entries.len() && entries[i] is Some ==> !has_code(
            #[trigger] entries[j],
            code_of(#[trigger] entries[i]),
        )
}

/// The entries that are one, in order, without the lines that gave nothing.
pub open spec fn kept(entries: Seq<Entry>) -> Seq<Entry> {
    entries.filter(|entry: Entry| entry is Some)
}

/// A table holds the codes of its entries and no others; they are finitely
/// many.
pub proof fn lemma_table_codes(entries: Seq<Entry>)
    ensures
        table_of(entries).dom().finite(),
        forall|code: Seq<char>|
            table_of(entries).contains_key(code) <==> exists|i: int|
                0 <= i < entries.len() && has_code(#[trigger] entries[i], code),
    decreases entries.len(),
{
    if entries.len() > 0 {
        let front = entries.drop_last();
        lemma_table_codes(front);
        assert forall|code: Seq<char>|
            table_of(entries).contains_key(code) <==> exists|i: int|
                0 <= i < entries.len() && has_code(#[trigger] entries[i], code) by {
            if table_of(entries).contains_key(code) {
                if has_code(entries.last(), code) {
                    assert(has_code(entries[entries.len() - 1], code));
                } else {
                    let i = choose|i: int|
                        0 <= i < front.len() && has_code(#[trigger] front[i], code);
                    assert(has_code(entries[i], code));
                }
            }
            if exists|i: int| 0 <= i < entries.len() && has_code(#[trigger] entries[i], code) {
                let i = choose|i: int|
                    0 <= i < entries.len() && has_code(#[trigger] entries[i], code);
                if i < front.len() {
                    assert(has_code(front[i], code));
                }
            }
        }
    }
}

/// Of the entries for one code the last decides: the table holds its word.
pub proof fn lemma_last_entry_wins(entries: Seq<Entry>, i: int)
    requires
        0 <= i < entries.len(),
        entries[i] is Some,
        forall|j: int|
            i < j < entries.len() ==> !has_code(#[trigger] entries[j], code_of(entries[i])),
    ensures
        table_of(entries).contains_key(code_of(entries[i])),
        table_of(entries)[code_of(entries[i])] == word_of(entries[i]),
    decreases entries.len(),
{
    if i < entries.len() - 1 {
        let front = entries.drop_last();
        assert forall|j: int| i < j < front.len() implies !has_code(
            #[trigger] front[j],
            code_of(front[i]),
        ) by {
            assert(front[j] == entries[j]);
        }
        lemma_last_entry_wins(front, i);
    }
}

/// Lines that gave nothing leave no trace: the table is that of the entries
/// alone.
pub proof fn lemma_unmatched_entries_ignored(entries: Seq<Entry>)
    ensures
        table_of(entries) == table_of(kept(entries)),
    decreases entries.len(),
{
    reveal(Seq::filter);
    if entries.len() > 0 {
        let front = entries.drop_last();
        lemma_unmatched_entries_ignored(front);
        if entries.last() is Some {
            assert(kept(entries).drop_last() == kept(front));
        }
    }
}

/// Where no two entries share a code, the table has as many words as there
/// are entries.
pub proof fn lemma_table_size(entries: Seq<Entry>)
    requires
        distinct_codes(entries),
    ensures
        table_of(entries).dom().finite(),
        table_of(entries).len() == kept(entries).len(),
    decreases entries.len(),
{
    reveal(Seq::filter);
    lemma_table_codes(entries);
    if entries.len() > 0 {
        let front = entries.drop_last();
        assert forall|i: int, j: int|
            0 <= i < j < front.len() && front[i] is Some implies !has_code(
            #[trigger] front[j],
            code_of(#[trigger] front[i]),
        ) by {
            assert(front[i] == entries[i] && front[j] == entries[j]);
        }
        lemma_table_size(front);
        lemma_table_codes(front);
        match entries.last() {
            Some((code, _)) => {
                if table_of(front).contains_key(code) {
                    let i = choose|i: int|
                        0 <= i < front.len() && has_code(#[trigger] front[i], code);
                    assert(has_code(entries[entries.len() - 1], code_of(entries[i])));
                }
            },
            None => {},
        }
    }
}

/// The entries of the matching lines are the entries of all lines without
/// the lines that gave nothing.
pub proof fn lemma_kept_entries(lines: Seq<Seq<char>>)
    ensures
        kept(entries_of_lines(lines)) == entries_of_lines(matching(lines)),
    decreases lines.len(),
{
    reveal(Seq::filter);
    if lines.len() > 0 {
        let front = lines.drop_last();
        lemma_kept_entries(front);
        assert(entries_of_lines(lines).drop_last() == entries_of_lines(front));
        if line_entry(lines.last()) is Some {
            assert(kept(entries_of_lines(lines)) == kept(entries_of_lines(front)).push(
                line_entry(lines.last()),
            ));
            assert(entries_of_lines(matching(front).push(lines.last())) == entries_of_lines(
                matching(front),
            ).push(line_entry(lines.last())));
        }
    }
}

/// A wordlist in which no code comes twice gives a table with as many words
/// as the text has lines that hold an entry.
pub proof fn lemma_wordlist_size(text: Seq<char>)
    requires
        distinct_codes(entries_of(text)),
    ensures
        wordlist_table(text).dom().finite(),
        wordlist_table(text).len() == matching_lines(text).len(),
{
    lemma_table_size(entries_of(text));
    lemma_kept_entries(lines_of(text));
}

/// Of the lines of a wordlist that give one code, the last decides the word.
pub proof fn lemma_wordlist_last_wins(text: Seq<char>, i: int)
    requires
        0 <= i < lines_of(text).len(),
        line_entry(lines_of(text)[i]) is Some,
        forall|j: int|
            i < j < lines_of(text).len() ==> !has_code(
                line_entry(#[trigger] lines_of(text)[j]),
                code_of(line_entry(lines_of(text)[i])),
            ),
    ensures
        wordlist_table(text).contains_key(code_of(line_entry(lines_of(text)[i]))),
        wordlist_table(text)[code_of(line_entry(lines_of(text)[i]))] == word_of(
            line_entry(lines_of(text)[i]),
        ),
{
    let entries = entries_of(text);
    assert forall|j: int| i < j < entries.len() implies !has_code(
        #[trigger] entries[j],
        code_of(entries[i]),
    ) by {
        assert(entries[j] == line_entry(lines_of(text)[j]));
    }
    lemma_last_entry_wins(entries, i);
}

/// Lines without an entry, blank ones among them, change nothing: two texts
/// with the same matching lines in the same order give the same table.
pub proof fn lemma_unmatched_lines_ignored(first: Seq<char>, second: Seq<char>)
    requires
        matching_lines(first) == matching_lines(second),
    ensures
        wordlist_table(first) == wordlist_table(second),
{
    lemma_unmatched_entries_ignored(entries_of(first));
    lemma_unmatched_entries_ignored(entries_of(second));
    lemma_kept_entries(lines_of(first));
    lemma_kept_entries(lines_of(second));
}

} // verus!
