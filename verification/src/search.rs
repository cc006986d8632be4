//! The search engine: the lines in which a pattern matches, up to a limit,
//! and the report of a call.

use vstd::prelude::*;
use crate::error::EngineError;
use crate::files::{file_views, FileEntry, FileView};
use crate::params::SearchParams;
use crate::pattern::{matches_in, pattern_is_valid, Pattern};
use crate::text::{decimal, lines_of, push_decimal, split_lines, texts, trim, trimmed};

verus! {

/// What a search call has found so far.
pub struct SearchView {
    /// The source text of the pattern.
    pub source: Seq<char>,
    /// The greatest number of entries to collect.
    pub limit: nat,
    /// Whether any file has been handed in.
    pub seen: bool,
    /// The entries collected, in the order in which they were found.
    pub entries: Seq<Seq<char>>,
    /// The matching lines counted.
    pub total: nat,
    /// Whether the call has stopped scanning.
    pub stopped: bool,
}

/// The entry for a matching line: the path, the line's number, and the line
/// without the white space at its ends.
pub open spec fn entry_text(path: Seq<char>, number: nat, line: Seq<char>) -> Seq<char> {
    path + ":"@ + decimal(number) + ": "@ + trimmed(line)
}

/// The entries, one per line of text.
pub open spec fn joined(entries: Seq<Seq<char>>) -> Seq<char>
    decreases entries.len(),
{
    if entries.len() == 0 {
        Seq::empty()
    } else if entries.len() == 1 {
        entries[0]
    } else {
        joined(entries.drop_last()) + "\n"@ + entries.last()
    }
}

impl SearchView {
    /// The state of a call before any file.
    pub open spec fn initial(source: Seq<char>, limit: nat) -> SearchView {
        SearchView {
            source,
            limit,
            seen: false,
            entries: Seq::empty(),
            total: 0,
            stopped: false,
        }
    }

    /// The state after line `number` of the file `path`, where `matched` says
    /// whether the pattern matches in the line. A file has then been handed
    /// in. Once the call has stopped, nothing else changes any more. A line
    /// without a match changes nothing else. A line with a match is counted;
    /// it is collected while fewer entries than the limit are held; and the
    /// call stops as soon as the entries held have reached the limit.
    pub open spec fn after_answer(
        self,
        path: Seq<char>,
        number: nat,
        line: Seq<char>,
        matched: bool,
    ) -> SearchView {
        if self.stopped || !matched {
            SearchView { seen: true, ..self }
        } else {
            let entries = if self.entries.len() < self.limit {
                self.entries.push(entry_text(path, number, line))
            } else {
                self.entries
            };
            SearchView {
                seen: true,
                entries,
                total: self.total + 1,
                stopped: entries.len() >= self.limit,
                ..self
            }
        }
    }

    /// The state after line `number` of the file `path`: the state after what
    /// the regex engine answers for the line.
    pub open spec fn after_line(self, path: Seq<char>, number: nat, line: Seq<char>) -> SearchView {
        self.after_answer(path, number, line, matches_in(self.source, line))
    }

    /// The state after the lines `lines` of the file `path`, numbered from 1.
    pub open spec fn after_lines(self, path: Seq<char>, lines: Seq<Seq<char>>) -> SearchView
        decreases lines.len(),
    {
        if lines.len() == 0 {
            self
        } else {
            self.after_lines(path, lines.drop_last()).after_line(path, lines.len(), lines.last())
        }
    }

    /// The state after a file that was read.
    pub open spec fn after_file(self, path: Seq<char>, content: Seq<char>) -> SearchView {
        SearchView { seen: true, ..self.after_lines(path, lines_of(content)) }
    }

    /// The state after a file that could not be read: it is passed over in
    /// silence.
    pub open spec fn after_unreadable(self) -> SearchView {
        SearchView { seen: true, ..self }
    }

    /// The state after a file of the set, read or not.
    pub open spec fn after_entry(self, file: FileView) -> SearchView {
        match file.read {
            Ok(content) => self.after_file(file.path, content),
            Err(_) => self.after_unreadable(),
        }
    }

    /// The state after the files of `files`, one after the other.
    pub open spec fn after_entries(self, files: Seq<FileView>) -> SearchView
        decreases files.len(),
    {
        if files.len() == 0 {
            self
        } else {
            self.after_entries(files.drop_last()).after_entry(files.last())
        }
    }

    /// The notice that more lines matched than the report lists.
    pub open spec fn truncation_notice(self) -> Seq<char> {
        if self.total > self.limit {
            "\n\n... and more (showing first "@ + decimal(self.limit) + ")"@
        } else {
            Seq::empty()
        }
    }

    /// The report of the call.
    pub open spec fn report(self) -> Seq<char> {
        if !self.seen {
            "No files matched the glob pattern."@
        } else if self.entries.len() == 0 {
            "No matches found."@
        } else {
            joined(self.entries) + self.truncation_notice() + "\n\nTotal: "@ + decimal(self.total)
                + " matches"@
        }
    }

    /// What holds of every state that a call reaches: with a limit above
    /// zero every counted line is collected and the call stops exactly when
    /// the limit is reached; with the limit zero nothing is collected and the
    /// call stops at the first matching line.
    pub open spec fn reachable(self) -> bool {
        if self.limit > 0 {
            &&& self.total == self.entries.len()
            &&& self.entries.len() <= self.limit
            &&& self.stopped == (self.entries.len() == self.limit)
        } else {
            &&& self.entries.len() == 0
            &&& self.total <= 1
            &&& self.stopped == (self.total == 1)
        }
    }
}

/// A search call in progress: the compiled pattern, the limit, and what has
/// been found so far.
pub struct SearchRun {
    pattern: Pattern,
    limit: usize,
    seen: bool,
    entries: Vec<String>,
    total: usize,
    stopped: bool,
}

impl View for SearchRun {
    type V = SearchView;

    closed spec fn view(&self) -> SearchView {
        SearchView {
            source: self.pattern@,
            limit: self.limit as nat,
            seen: self.seen,
            entries: texts(self.entries@),
            total: self.total as nat,
            stopped: self.stopped,
        }
    }
}

impl SearchRun {
    /// Begins a call: compiles the pattern. Fails where the pattern is no
    /// valid regular expression.
    pub fn start(params: &SearchParams) -> (result: Result<SearchRun, EngineError>)
        ensures
            result is Ok <==> pattern_is_valid(params.pattern@),
            result matches Ok(run) ==> run@ == SearchView::initial(
                params.pattern@,
                params.effective_limit() as nat,
            ),
            result matches Err(error) ==> error == EngineError::InvalidPattern,
    {
        match Pattern::new(params.pattern.as_str()) {
            None => Err(EngineError::InvalidPattern),
            Some(pattern) => {
                let run = SearchRun {
                    pattern,
                    limit: params.limit_or_default(),
                    seen: false,
                    entries: Vec::new(),
                    total: 0,
                    stopped: false,
                };
                assert(run@.entries =~= Seq::<Seq<char>>::empty());
                Ok(run)
            },
        }
    }

    /// Whether the call has stopped scanning: no further file needs to be
    /// read.
    pub fn stopped(&self) -> (stopped: bool)
        ensures
            stopped == self@.stopped,
    {
        self.stopped
    }

    /// Takes note of a file that could not be read.
    pub fn skip_unreadable(&mut self)
        ensures
            final(self)@ == old(self)@.after_unreadable(),
    {
        self.seen = true;
    }

    /// Records one line of a file: `path` is the file's path as it is shown,
    /// `number` the line's number, counted from 1, `line` the line, and
    /// `matched` whether the pattern matches in it.
    pub fn record_line(&mut self, path: &str, number: usize, line: &str, matched: bool)
        requires
            old(self)@.reachable(),
        ensures
            final(self)@ == old(self)@.after_answer(path@, number as nat, line@, matched),
            final(self)@.reachable(),
    {
        self.seen = true;
        if self.stopped || !matched {
            return ;
        }
        self.total = self.total + 1;
        if self.entries.len() < self.limit {
            let mut entry = String::new();
            entry.append(path);
            entry.append(":");
            push_decimal(&mut entry, number as u128);
            entry.append(": ");
            let shown = trim(line);
            entry.append(shown.as_str());
            assert(entry@ == entry_text(path@, number as nat, line@));
            assert(texts(self.entries@.push(entry)) == texts(self.entries@).push(entry@));
            self.entries.push(entry);
        }
        if self.entries.len() >= self.limit {
            self.stopped = true;
        }
    }

    /// Scans a file that was read: `path` is its path as it is shown,
    /// `content` what it holds. Asks the regex engine about each line until
    /// the call stops, and records the line from the answer. Returns whether
    /// the call goes on to the next file.
    pub fn scan(&mut self, path: &str, content: &str) -> (goes_on: bool)
        requires
            old(self)@.reachable(),
        ensures
            final(self)@ == old(self)@.after_file(path@, content@),
            final(self)@.reachable(),
            goes_on == !final(self)@.stopped,
    {
        self.seen = true;
        let ghost begin = self@;
        let lines = split_lines(content);
        let ghost all = texts(lines@);
        let mut i: usize = 0;
        assert(all.take(0) == Seq::<Seq<char>>::empty());
        while i < lines.len() && !self.stopped
            invariant
                i <= lines.len(),
                all == texts(lines@),
                begin.seen,
                self@ == begin.after_lines(path@, all.take(i as int)),
                self@.reachable(),
            decreases lines.len() - i,
        {
            let line = lines[i].as_str();
            assert(all.take(i + 1).drop_last() == all.take(i as int));
            assert(all.take(i + 1).last() == line@);
            let matched = self.pattern.is_match(line);
            self.record_line(path, i + 1, line, matched);
            i += 1;
        }
        proof {
            lemma_seen_kept(begin, path@, all.take(i as int));
            lemma_lines_in_two(begin, path@, all, i as int);
            lemma_seen_first(old(self)@, path@, all);
        }
        !self.stopped
    }

    /// Ends the call and gives its report.
    pub fn finish(self) -> (report: String)
        ensures
            report@ == self@.report(),
    {
        if !self.seen {
            return String::from_str("No files matched the glob pattern.");
        }
        if self.entries.len() == 0 {
            return String::from_str("No matches found.");
        }
        let mut report = String::new();
        let mut i: usize = 0;
        assert(texts(self.entries@).take(0) == Seq::<Seq<char>>::empty());
        while i < self.entries.len()
            invariant
                i <= self.entries.len(),
                report@ == joined(texts(self.entries@).take(i as int)),
            decreases self.entries.len() - i,
        {
            let ghost upto = texts(self.entries@).take(i + 1);
            assert(upto.drop_last() == texts(self.entries@).take(i as int));
            assert(upto.last() == self.entries@[i as int]@);
            if i > 0 {
                report.append("\n");
            } else {
                assert(upto[0] == upto.last());
                assert(report@ + upto.last() == upto.last());
            }
            report.append(self.entries[i].as_str());
            i += 1;
        }
        assert(texts(self.entries@).take(self.entries.len() as int) == texts(self.entries@));
        let ghost listed = report@;
        if self.total > self.limit {
            report.append("\n\n... and more (showing first ");
            push_decimal(&mut report, self.limit as u128);
            report.append(")");
        }
        assert(report@ == listed + self@.truncation_notice());
        report.append("\n\nTotal: ");
        push_decimal(&mut report, self.total as u128);
        report.append(" matches");
        report
    }
}

/// A call that has seen a file has seen one after any further lines.
pub proof fn lemma_seen_kept(state: SearchView, path: Seq<char>, lines: Seq<Seq<char>>)
    requires
        state.seen,
    ensures
        state.after_lines(path, lines).seen,
    decreases lines.len(),
{
    if lines.len() > 0 {
        lemma_seen_kept(state, path, lines.drop_last());
    }
}

/// Marking a file as seen before its lines or after them gives the same
/// state.
proof fn lemma_seen_first(state: SearchView, path: Seq<char>, lines: Seq<Seq<char>>)
    ensures
        (SearchView { seen: true, ..state }).after_lines(path, lines) == (SearchView {
            seen: true,
            ..state.after_lines(path, lines)
        }),
    decreases lines.len(),
{
    if lines.len() > 0 {
        lemma_seen_first(state, path, lines.drop_last());
    }
}

/// Once a call has stopped and has seen a file, further lines change
/// nothing.
pub proof fn lemma_stopped_stays(state: SearchView, path: Seq<char>, lines: Seq<Seq<char>>)
    requires
        state.stopped,
        state.seen,
    ensures
        state.after_lines(path, lines) == state,
    decreases lines.len(),
{
    if lines.len() > 0 {
        lemma_stopped_stays(state, path, lines.drop_last());
    }
}

/// Scanning the lines of a file is scanning the first `k` of them and then
/// the rest, where the call has stopped at line `k` or `k` is the last line.
proof fn lemma_lines_in_two(state: SearchView, path: Seq<char>, lines: Seq<Seq<char>>, k: int)
    requires
        0 <= k <= lines.len(),
        state.seen,
        k == lines.len() || state.after_lines(path, lines.take(k)).stopped,
    ensures
        state.after_lines(path, lines) == state.after_lines(path, lines.take(k)),
    decreases lines.len() - k,
{
    if k < lines.len() {
        let upto = lines.take(k + 1);
        assert(upto.drop_last() == lines.take(k));
        lemma_seen_kept(state, path, lines.take(k));
        lemma_lines_in_two(state, path, lines, k + 1);
    } else {
        assert(lines.take(k) == lines);
    }
}

/// Once a call has stopped and has seen a file, further files change
/// nothing.
pub proof fn lemma_stopped_skips_files(state: SearchView, files: Seq<FileView>)
    requires
        state.stopped,
        state.seen,
    ensures
        state.after_entries(files) == state,
    decreases files.len(),
{
    if files.len() > 0 {
        lemma_stopped_skips_files(state, files.drop_last());
        match files.last().read {
            Ok(content) => {
                lemma_stopped_stays(state, files.last().path, lines_of(content));
            },
            Err(_) => {},
        }
    }
}

/// Handing in the files of a set is handing in the first `k` of them and
/// then the rest.
proof fn lemma_entries_in_two(state: SearchView, files: Seq<FileView>, k: int)
    requires
        0 <= k <= files.len(),
    ensures
        state.after_entries(files) == state.after_entries(files.take(k)).after_entries(
            files.skip(k),
        ),
    decreases files.len(),
{
    if k == files.len() {
        assert(files.take(k) == files);
        assert(files.skip(k) == Seq::<FileView>::empty());
    } else {
        let before = files.drop_last();
        lemma_entries_in_two(state, before, k);
        assert(before.take(k) == files.take(k));
        assert(files.skip(k).drop_last() == before.skip(k));
        assert(files.skip(k).last() == files.last());
    }
}

/// A report that lists entries never carries the notice that more lines
/// matched: a call stops at the line that fills the limit, so it has counted
/// no line that it did not collect.
pub proof fn law_listed_total_is_exact(state: SearchView)
    requires
        state.reachable(),
        state.entries.len() > 0,
    ensures
        state.total == state.entries.len(),
        state.total <= state.limit,
        state.truncation_notice() == Seq::<char>::empty(),
{
}

/// Runs a search call over `files`, the files that the glob pattern of
/// `params` selected, each with what reading it gave, and gives the report.
pub fn do_search(params: &SearchParams, files: &Vec<FileEntry>) -> (result: Result<
    String,
    EngineError,
>)
    ensures
        result is Ok <==> pattern_is_valid(params.pattern@),
        result matches Err(error) ==> error == EngineError::InvalidPattern,
        result matches Ok(report) ==> report@ == SearchView::initial(
            params.pattern@,
            params.effective_limit() as nat,
        ).after_entries(file_views(files@)).report(),
{
    let mut run = match SearchRun::start(params) {
        Ok(run) => run,
        Err(error) => {
            return Err(error);
        },
    };
    let ghost begin = run@;
    let ghost all = file_views(files@);
    let mut i: usize = 0;
    assert(all.take(0) == Seq::<FileView>::empty());
    while i < files.len() && !run.stopped()
        invariant
            i <= files.len(),
            all == file_views(files@),
            run@ == begin.after_entries(all.take(i as int)),
            run@.reachable(),
            i > 0 ==> run@.seen,
        decreases files.len() - i,
    {
        let file = &files[i];
        assert(all.take(i + 1).drop_last() == all.take(i as int));
        assert(all.take(i + 1).last() == file@);
        match &file.read {
            Ok(content) => {
                run.scan(file.path.as_str(), content.as_str());
            },
            Err(_) => {
                run.skip_unreadable();
            },
        }
        i += 1;
    }
    proof {
        lemma_entries_in_two(begin, all, i as int);
        if i < files.len() {
            lemma_stopped_skips_files(run@, all.skip(i as int));
        } else {
            assert(all.skip(i as int) == Seq::<FileView>::empty());
        }
    }
    Ok(run.finish())
}

} // verus!
