//! The credentials file: one `username;stored_hash` pair per line.

use crate::codec::{decode_text, text_of};
use crate::store::{CredentialEntry, CredentialStore};
use crate::text::{
    decimal, decimal_string, find_byte, first_index_of, lemma_first_index_of,
    lemma_first_index_of_unique, split_first, split_once,
};
use vstd::prelude::*;
use vstd::slice::slice_subrange;

verus! {

/// The byte that ends a line.
pub const LINE_FEED: u8 = 0x0a;

/// The byte that may precede a line feed and then belongs to the line end.
pub const CARRIAGE_RETURN: u8 = 0x0d;

/// The character between username and stored hash.
pub const FIELD_SEPARATOR: char = ';';

/// A line without the carriage return that ended it, if one did.
pub open spec fn trim_carriage_return(line: Seq<u8>) -> Seq<u8> {
    if line.len() > 0 && line.last() == CARRIAGE_RETURN {
        line.drop_last()
    } else {
        line
    }
}

/// The lines of a file, in order and without their line ends. A line ends
/// with a line feed, or with a carriage return and a line feed; the bytes
/// after the last line feed, if there are any, are a line too.
pub open spec fn lines_of(contents: Seq<u8>) -> Seq<Seq<u8>>
    decreases contents.len(),
{
    let end = first_index_of(contents, LINE_FEED);
    if contents.len() == 0 {
        Seq::empty()
    } else if 0 <= end < contents.len() {
        seq![trim_carriage_return(contents.subrange(0, end))] + lines_of(
            contents.subrange(end + 1, contents.len() as int),
        )
    } else {
        seq![contents]
    }
}

/// What one line of the file holds.
#[derive(Debug, Clone, PartialEq, Eq)]
pub enum ParsedLine {
    /// A username and a stored hash.
    Entry(CredentialEntry),
    /// Text without a separator.
    NoSeparator,
    /// Bytes that are not UTF-8 text.
    Undecodable,
}

/// Mathematical value of a [`ParsedLine`].
pub enum ParsedLineView {
    Entry(Seq<char>, Seq<char>),
    NoSeparator,
    Undecodable,
}

impl View for ParsedLine {
    type V = ParsedLineView;

    open spec fn view(&self) -> ParsedLineView {
        match self {
            ParsedLine::Entry(entry) => ParsedLineView::Entry(entry.username@, entry.stored_hash@),
            ParsedLine::NoSeparator => ParsedLineView::NoSeparator,
            ParsedLine::Undecodable => ParsedLineView::Undecodable,
        }
    }
}

/// What a line holds: the text before its first separator is the username,
/// all text after it the stored hash, further separators included.
pub open spec fn line_kind(line: Seq<u8>) -> ParsedLineView {
    match text_of(line) {
        None => ParsedLineView::Undecodable,
        Some(text) => match split_first(text, FIELD_SEPARATOR) {
            Some((username, stored_hash)) => ParsedLineView::Entry(username, stored_hash),
            None => ParsedLineView::NoSeparator,
        },
    }
}

/// The store that a sequence of lines yields: every entry is recorded in
/// turn, so that of two entries for one username the later one stays.
pub open spec fn store_of(lines: Seq<Seq<u8>>) -> Map<Seq<char>, Seq<char>>
    decreases lines.len(),
{
    if lines.len() == 0 {
        Map::empty()
    } else {
        let earlier = store_of(lines.drop_last());
        match line_kind(lines.last()) {
            ParsedLineView::Entry(username, stored_hash) => earlier.insert(username, stored_hash),
            _ => earlier,
        }
    }
}

/// The numbers, counted from 1 and ascending, of the lines that are text
/// without a separator.
pub open spec fn lines_without_separator(lines: Seq<Seq<u8>>) -> Seq<int>
    decreases lines.len(),
{
    if lines.len() == 0 {
        Seq::empty()
    } else {
        let earlier = lines_without_separator(lines.drop_last());
        if line_kind(lines.last()) is NoSeparator {
            earlier.push(lines.len() as int)
        } else {
            earlier
        }
    }
}

/// Line numbers as mathematical integers.
pub open spec fn line_numbers(numbers: Seq<usize>) -> Seq<int> {
    numbers.map_values(|n: usize| n as int)
}

/// A file without bytes has no lines.
pub proof fn lemma_lines_of_empty()
    ensures
        lines_of(Seq::<u8>::empty()) == Seq::<Seq<u8>>::empty(),
{
}

/// A line feed ends the first line: what stands before it, less a carriage
/// return at its end, is the first line, and the other lines are those of
/// what follows it.
pub proof fn lemma_lines_of_terminated(line: Seq<u8>, rest: Seq<u8>)
    requires
        !line.contains(LINE_FEED),
    ensures
        lines_of(line + seq![LINE_FEED] + rest) == seq![trim_carriage_return(line)] + lines_of(
            rest,
        ),
{
    let contents = line + seq![LINE_FEED] + rest;
    assert forall|j: int| 0 <= j < line.len() implies contents[j] != LINE_FEED by {
        assert(contents[j] == line[j]);
    }
    assert(contents[line.len() as int] == LINE_FEED);
    lemma_first_index_of_unique(contents, LINE_FEED, line.len() as int);
    assert(contents.subrange(0, line.len() as int) =~= line);
    assert(contents.subrange(line.len() as int + 1, contents.len() as int) =~= rest);
}

/// Bytes after the last line feed are a line of their own, carriage returns
/// included.
pub proof fn lemma_lines_of_unterminated(line: Seq<u8>)
    requires
        line.len() > 0,
        !line.contains(LINE_FEED),
    ensures
        lines_of(line) == seq![line],
{
    lemma_first_index_of(line, LINE_FEED);
}

/// No line holds a line feed.
pub proof fn lemma_lines_hold_no_line_feed(contents: Seq<u8>, i: int)
    requires
        0 <= i < lines_of(contents).len(),
    ensures
        !lines_of(contents)[i].contains(LINE_FEED),
    decreases contents.len(),
{
    lemma_first_index_of(contents, LINE_FEED);
    let end = first_index_of(contents, LINE_FEED);
    if end < contents.len() {
        let head = contents.subrange(0, end);
        let rest = contents.subrange(end + 1, contents.len() as int);
        if i == 0 {
            let line = trim_carriage_return(head);
            if line.contains(LINE_FEED) {
                let k = choose|k: int| 0 <= k < line.len() && line[k] == LINE_FEED;
                assert(contents[k] == line[k]);
            }
        } else {
            lemma_lines_hold_no_line_feed(rest, i - 1);
            assert(lines_of(contents)[i] == lines_of(rest)[i - 1]);
        }
    }
}

/// Reading one more line: an entry is recorded over any earlier entry for
/// its username, and a line that holds no entry leaves the store as it was.
pub proof fn lemma_store_of_push(lines: Seq<Seq<u8>>, line: Seq<u8>)
    ensures
        store_of(lines.push(line)) == match line_kind(line) {
            ParsedLineView::Entry(username, stored_hash) => store_of(lines).insert(
                username,
                stored_hash,
            ),
            _ => store_of(lines),
        },
{
    assert(lines.push(line).drop_last() =~= lines);
}

/// A store read from a file is finite.
pub proof fn lemma_store_of_finite(lines: Seq<Seq<u8>>)
    ensures
        store_of(lines).dom().finite(),
    decreases lines.len(),
{
    if lines.len() > 0 {
        lemma_store_of_finite(lines.drop_last());
    }
}

/// True when line `i` is an entry for `username`.
pub open spec fn is_entry_for(lines: Seq<Seq<u8>>, i: int, username: Seq<char>) -> bool {
    0 <= i < lines.len() && match line_kind(lines[i]) {
        ParsedLineView::Entry(name, _) => name == username,
        _ => false,
    }
}

/// The stored hash of the entry in line `i`.
pub open spec fn stored_hash_at(lines: Seq<Seq<u8>>, i: int) -> Seq<char> {
    match line_kind(lines[i]) {
        ParsedLineView::Entry(_, stored_hash) => stored_hash,
        _ => Seq::empty(),
    }
}

/// Of several entries for one username the last one wins: the store maps a
/// username to the hash of the entry after which no entry names it again.
pub proof fn lemma_last_entry_wins(lines: Seq<Seq<u8>>, i: int, username: Seq<char>)
    requires
        is_entry_for(lines, i, username),
        forall|j: int| i < j < lines.len() ==> !is_entry_for(lines, j, username),
    ensures
        store_of(lines).contains_key(username),
        store_of(lines)[username] == stored_hash_at(lines, i),
    decreases lines.len(),
{
    let last = lines.len() - 1;
    if i < last {
        let earlier = lines.drop_last();
        assert(!is_entry_for(lines, last, username));
        assert forall|j: int| i < j < earlier.len() implies !is_entry_for(
            earlier,
            j,
            username,
        ) by {
            assert(!is_entry_for(lines, j, username));
        }
        lemma_last_entry_wins(earlier, i, username);
    }
}

/// The store holds nothing but entries of the file: every username in it is
/// named by an entry, and no username that no entry names is in it.
pub proof fn lemma_store_holds_entries_only(lines: Seq<Seq<u8>>, username: Seq<char>)
    ensures
        store_of(lines).contains_key(username) <==> exists|i: int|
            is_entry_for(lines, i, username),
    decreases lines.len(),
{
    if lines.len() > 0 {
        let last = lines.len() - 1;
        let earlier = lines.drop_last();
        lemma_store_holds_entries_only(earlier, username);
        if store_of(lines).contains_key(username) {
            if is_entry_for(lines, last, username) {
            } else {
                let i = choose|i: int| is_entry_for(earlier, i, username);
                assert(is_entry_for(lines, i, username));
            }
        }
        if exists|i: int| is_entry_for(lines, i, username) {
            let i = choose|i: int| is_entry_for(lines, i, username);
            if i < last {
                assert(is_entry_for(earlier, i, username));
            }
        }
    }
}

/// The reported line numbers are those of the lines of text without a
/// separator, each counted from 1.
pub proof fn lemma_lines_without_separator(lines: Seq<Seq<u8>>, number: int)
    ensures
        lines_without_separator(lines).contains(number) <==> 1 <= number <= lines.len()
            && line_kind(lines[number - 1]) is NoSeparator,
    decreases lines.len(),
{
    if lines.len() > 0 {
        let earlier = lines.drop_last();
        let reported = lines_without_separator(earlier);
        lemma_lines_without_separator(earlier, number);
        if line_kind(lines.last()) is NoSeparator {
            let all = reported.push(lines.len() as int);
            assert(all[reported.len() as int] == lines.len());
            if reported.contains(number) {
                let k = choose|k: int| 0 <= k < reported.len() && reported[k] == number;
                assert(all[k] == number);
            }
        }
    }
}

/// The reported line numbers ascend.
pub proof fn lemma_lines_without_separator_ascend(lines: Seq<Seq<u8>>, i: int, j: int)
    requires
        0 <= i < j < lines_without_separator(lines).len(),
    ensures
        1 <= lines_without_separator(lines)[i] < lines_without_separator(lines)[j] <= lines.len(),
    decreases lines.len(),
{
    if lines.len() > 0 {
        let earlier = lines.drop_last();
        let reported = lines_without_separator(earlier);
        if j < reported.len() {
            lemma_lines_without_separator_ascend(earlier, i, j);
        } else {
            assert(reported.contains(reported[i]));
            lemma_lines_without_separator(earlier, reported[i]);
        }
    }
}

/// What loading a credentials file yields.
pub struct LoadReport {
    /// The entries of the file.
    pub store: CredentialStore,
    /// The numbers of the lines that were skipped for want of a separator.
    pub invalid_lines: Vec<usize>,
}

/// The line that records a skipped line of the given number.
pub open spec fn skipped_line_diagnostic(line_number: nat) -> Seq<char> {
    "Invalid entry: No semicolon found on line "@ + decimal(line_number)
}

/// The line that records, on the server's side, that the line of the given
/// number was skipped for want of a separator.
pub fn invalid_entry_diagnostic(line_number: usize) -> (line: String)
    ensures
        line@ == skipped_line_diagnostic(line_number as nat),
{
    let numeral = decimal_string(line_number);
    String::from_str("Invalid entry: No semicolon found on line ").concat(numeral.as_str())
}

/// Reads one line, given without its line end.
pub fn parse_line(line: &[u8]) -> (parsed: ParsedLine)
    ensures
        parsed@ == line_kind(line@),
{
    match decode_text(line) {
        None => ParsedLine::Undecodable,
        Some(text) => match split_once(text, FIELD_SEPARATOR) {
            Some((username, stored_hash)) => ParsedLine::Entry(
                CredentialEntry { username, stored_hash },
            ),
            None => ParsedLine::NoSeparator,
        },
    }
}

/// Builds the store from the bytes of a credentials file. A line that holds
/// no entry is skipped and the load goes on; the number of each skipped line
/// of text is reported.
pub fn read_hashes(contents: &[u8]) -> (report: LoadReport)
    ensures
        report.store@ == store_of(lines_of(contents@)),
        line_numbers(report.invalid_lines@) == lines_without_separator(lines_of(contents@)),
{
    let len = contents.len();
    let mut store = CredentialStore::new();
    let mut invalid_lines: Vec<usize> = Vec::new();
    let mut start: usize = 0;
    let mut line_number: usize = 0;
    let ghost mut done: Seq<Seq<u8>> = Seq::empty();
    assert(contents@.subrange(0, len as int) =~= contents@);
    assert(line_numbers(invalid_lines@) =~= Seq::empty());
    while start < len
        invariant
            len == contents.len(),
            start <= len,
            line_number == done.len(),
            line_number <= start,
            lines_of(contents@) == done + lines_of(contents@.subrange(start as int, len as int)),
            store@ == store_of(done),
            line_numbers(invalid_lines@) == lines_without_separator(done),
        decreases len - start,
    {
        let ghost rest = contents@.subrange(start as int, len as int);
        let feed = find_byte(contents, start, LINE_FEED);
        let mut end = feed;
        let mut next = feed;
        if feed < len {
            next = feed + 1;
            if start < feed && contents[feed - 1] == CARRIAGE_RETURN {
                end = feed - 1;
            }
        }
        let line = slice_subrange(contents, start, end);
        proof {
            let tail = contents@.subrange(next as int, len as int);
            if feed < len {
                assert(rest.subrange(0, feed - start) =~= contents@.subrange(
                    start as int,
                    feed as int,
                ));
                assert(line@ =~= trim_carriage_return(rest.subrange(0, feed - start)));
                assert(rest.subrange(feed - start + 1, rest.len() as int) =~= tail);
                assert(lines_of(rest) == seq![line@] + lines_of(tail));
            } else {
                assert(line@ =~= rest);
                assert(tail.len() == 0);
                assert(lines_of(rest) == seq![line@]);
                assert(lines_of(tail) =~= Seq::<Seq<u8>>::empty());
            }
            assert(done + (seq![line@] + lines_of(tail)) =~= done.push(line@) + lines_of(tail));
            assert(done.push(line@).drop_last() =~= done);
            done = done.push(line@);
        }
        line_number = line_number + 1;
        match parse_line(line) {
            ParsedLine::Entry(entry) => {
                store = store.with_entry(entry);
            },
            ParsedLine::NoSeparator => {
                invalid_lines.push(line_number);
                assert(line_numbers(invalid_lines@) =~= lines_without_separator(done));
            },
            ParsedLine::Undecodable => {},
        }
        start = next;
    }
    assert(lines_of(contents@.subrange(start as int, len as int)) =~= Seq::<Seq<u8>>::empty());
    assert(done + Seq::<Seq<u8>>::empty() =~= done);
    LoadReport { store, invalid_lines }
}

} // verus!
