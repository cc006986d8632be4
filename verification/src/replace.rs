//! The replace engine: for each file, the substituted content, whether it
//! changed, the listing of the lines that changed, and the report of a call.

use vstd::prelude::*;
use crate::error::EngineError;
use crate::escape::{escape_non_numeric_dollars, escaped};
use crate::files::{file_views, FileEntry, FileView};
use crate::params::ReplaceParams;
use crate::pattern::{match_count, matches_in, pattern_is_valid, substituted, Pattern};
use crate::text::{decimal, lines_of, push_decimal, same_text, split_lines, texts};

verus! {

/// What a replace call has found so far.
pub struct ReplaceView {
    /// The source text of the pattern.
    pub source: Seq<char>,
    /// The escaped replacement template.
    pub template: Seq<char>,
    /// Whether writes are suppressed.
    pub dry_run: bool,
    /// Whether any file has been handed in.
    pub seen: bool,
    /// The matches counted in the files that changed.
    pub replacements: nat,
    /// The number of files that changed.
    pub files_modified: nat,
    /// The text gathered for the report.
    pub output: Seq<char>,
}

/// What was found of one line: the line, whether the pattern matches in it,
/// and the line after substitution.
pub type LineAnswer = (Seq<char>, bool, Seq<char>);

/// The mathematical form of the answers for the lines of a file.
pub open spec fn line_answers(lines: Seq<(String, bool, String)>) -> Seq<LineAnswer> {
    lines.map_values(|answer: (String, bool, String)| (answer.0@, answer.1, answer.2@))
}

/// The pair of listing lines for line `number` of a file, if the pattern
/// matches in it: the line as it is, and the line after substitution.
/// Nothing if the pattern does not match in it.
pub open spec fn listed_pair(number: nat, answer: LineAnswer) -> Seq<char> {
    if answer.1 {
        decimal(number) + ":- "@ + answer.0 + "\n"@ + decimal(number) + ":+ "@ + answer.2 + "\n"@
    } else {
        Seq::empty()
    }
}

/// The listing of the lines in which the pattern matches. Lines are numbered
/// from 1.
pub open spec fn listing(answers: Seq<LineAnswer>) -> Seq<char>
    decreases answers.len(),
{
    if answers.len() == 0 {
        Seq::empty()
    } else {
        listing(answers.drop_last()) + listed_pair(answers.len(), answers.last())
    }
}

/// The block of the report for a changed file: a header with the path, and
/// the listing.
pub open spec fn file_block(path: Seq<char>, answers: Seq<LineAnswer>) -> Seq<char> {
    "--- "@ + path + "\n"@ + listing(answers)
}

/// What the regex engine answers for each of `lines`.
pub open spec fn engine_answers(
    source: Seq<char>,
    template: Seq<char>,
    lines: Seq<Seq<char>>,
) -> Seq<LineAnswer> {
    lines.map_values(
        |line: Seq<char>| (line, matches_in(source, line), substituted(source, line, template)),
    )
}

/// The note in the gathered text for a file that could not be read.
pub open spec fn skip_note(quoted_path: Seq<char>, reason: Seq<char>) -> Seq<char> {
    "Skipping "@ + quoted_path + ": "@ + reason + "\n"@
}

impl ReplaceView {
    /// The state of a call before any file.
    pub open spec fn initial(source: Seq<char>, template: Seq<char>, dry_run: bool) -> ReplaceView {
        ReplaceView {
            source,
            template,
            dry_run,
            seen: false,
            replacements: 0,
            files_modified: 0,
            output: Seq::empty(),
        }
    }

    /// The state after a file with the content `content`, of which
    /// substitution made `new_content`, in which `count` matches were
    /// counted, and whose lines gave `answers`. A file that substitution
    /// leaves as it is counts for nothing. A file that it changes counts as
    /// one file, with all the matches in its content, and adds its block.
    pub open spec fn after_answers(
        self,
        path: Seq<char>,
        content: Seq<char>,
        new_content: Seq<char>,
        count: nat,
        answers: Seq<LineAnswer>,
    ) -> ReplaceView {
        if new_content != content {
            ReplaceView {
                seen: true,
                replacements: self.replacements + count,
                files_modified: self.files_modified + 1,
                output: self.output + file_block(path, answers),
                ..self
            }
        } else {
            ReplaceView { seen: true, ..self }
        }
    }

    /// What is to be written to a file with the content `content`, of which
    /// substitution made `new_content`: the new content, if it differs and
    /// the call is no dry run.
    pub open spec fn write_of(self, content: Seq<char>, new_content: Seq<char>) -> Option<
        Seq<char>,
    > {
        if new_content != content && !self.dry_run {
            Some(new_content)
        } else {
            None
        }
    }

    /// The content of a file after substitution.
    pub open spec fn new_content(self, content: Seq<char>) -> Seq<char> {
        substituted(self.source, content, self.template)
    }

    /// Whether substitution changes a file with this content.
    pub open spec fn changes(self, content: Seq<char>) -> bool {
        self.new_content(content) != content
    }

    /// What is to be written to a file with this content: its new content, if
    /// substitution changes it and the call is no dry run.
    pub open spec fn write_for(self, content: Seq<char>) -> Option<Seq<char>> {
        self.write_of(content, self.new_content(content))
    }

    /// The state after a file that could not be read.
    pub open spec fn after_unreadable(self, quoted_path: Seq<char>, reason: Seq<char>) -> ReplaceView {
        ReplaceView { seen: true, output: self.output + skip_note(quoted_path, reason), ..self }
    }

    /// The state after a file that was read: the state after what the regex
    /// engine answers for its content and for each of its lines.
    pub open spec fn after_file(self, path: Seq<char>, content: Seq<char>) -> ReplaceView {
        self.after_answers(
            path,
            content,
            self.new_content(content),
            match_count(self.source, content),
            engine_answers(self.source, self.template, lines_of(content)),
        )
    }

    /// The last line of the report.
    pub open spec fn summary_line(self) -> Seq<char> {
        "Total: "@ + decimal(self.replacements) + " replacement"@ + (if self.replacements == 1 {
            Seq::empty()
        } else {
            "s"@
        }) + " in "@ + decimal(self.files_modified) + " file"@ + (if self.files_modified == 1 {
            Seq::empty()
        } else {
            "s"@
        }) + (if self.dry_run {
            " (dry run)"@
        } else {
            Seq::empty()
        })
    }

    /// The report of the call.
    pub open spec fn report(self) -> Seq<char> {
        if !self.seen {
            "No files matched the glob pattern."@
        } else if self.files_modified == 0 {
            "No matches found."@
        } else {
            self.output + self.summary_line()
        }
    }
}

/// Appends to `out` the listing for the answers `lines`.
fn push_listing(out: &mut String, lines: &Vec<(String, bool, String)>)
    ensures
        final(out)@ == old(out)@ + listing(line_answers(lines@)),
{
    let ghost all = line_answers(lines@);
    let mut i: usize = 0;
    assert(all.take(0) == Seq::<LineAnswer>::empty());
    assert(out@ == old(out)@ + listing(all.take(0)));
    while i < lines.len()
        invariant
            i <= lines.len(),
            all == line_answers(lines@),
            out@ == old(out)@ + listing(all.take(i as int)),
        decreases lines.len() - i,
    {
        let ghost before = out@;
        let answer = &lines[i];
        assert(all.take(i + 1).drop_last() == all.take(i as int));
        assert(all.take(i + 1).last() == (answer.0@, answer.1, answer.2@));
        if answer.1 {
            let number = (i + 1) as u128;
            push_decimal(out, number);
            out.append(":- ");
            out.append(answer.0.as_str());
            out.append("\n");
            push_decimal(out, number);
            out.append(":+ ");
            out.append(answer.2.as_str());
            out.append("\n");
        }
        assert(out@ == before + listed_pair((i + 1) as nat, all[i as int]));
        i += 1;
    }
    assert(all.take(lines.len() as int) == all);
}

/// A replace call in progress: the compiled pattern, the escaped template,
/// and what has been found so far.
pub struct ReplaceRun {
    pattern: Pattern,
    template: String,
    dry_run: bool,
    seen: bool,
    replacements: u128,
    files_modified: usize,
    output: String,
}

impl View for ReplaceRun {
    type V = ReplaceView;

    closed spec fn view(&self) -> ReplaceView {
        ReplaceView {
            source: self.pattern@,
            template: self.template@,
            dry_run: self.dry_run,
            seen: self.seen,
            replacements: self.replacements as nat,
            files_modified: self.files_modified as nat,
            output: self.output@,
        }
    }
}

impl ReplaceRun {
    /// The counters are consistent: no file can hold more matches than a
    /// machine word counts, so the matches of the changed files fit.
    pub closed spec fn wf(&self) -> bool {
        self.replacements <= self.files_modified * usize::MAX
    }

    /// Begins a call: compiles the pattern and escapes the replacement
    /// template. Fails where the pattern is no valid regular expression.
    pub fn start(params: &ReplaceParams) -> (result: Result<ReplaceRun, EngineError>)
        ensures
            result is Ok <==> pattern_is_valid(params.pattern@),
            result matches Ok(run) ==> run.wf() && run@ == ReplaceView::initial(
                params.pattern@,
                escaped(params.replacement@),
                params.is_dry_run(),
            ),
            result matches Err(error) ==> error == EngineError::InvalidPattern,
    {
        match Pattern::new(params.pattern.as_str()) {
            None => Err(EngineError::InvalidPattern),
            Some(pattern) => {
                let template = escape_non_numeric_dollars(params.replacement.as_str());
                Ok(
                    ReplaceRun {
                        pattern,
                        template,
                        dry_run: params.dry_run_or_default(),
                        seen: false,
                        replacements: 0,
                        files_modified: 0,
                        output: String::new(),
                    },
                )
            },
        }
    }

    /// Whether writes are suppressed.
    pub fn dry_run(&self) -> (dry_run: bool)
        ensures
            dry_run == self@.dry_run,
    {
        self.dry_run
    }

    /// The number of files that changed so far.
    pub fn files_modified(&self) -> (count: usize)
        ensures
            count == self@.files_modified,
    {
        self.files_modified
    }

    /// Takes note of a file that could not be read. `quoted_path` is the
    /// file's path as it is shown in quotes, `reason` the text of the failure.
    pub fn skip_unreadable(&mut self, quoted_path: &str, reason: &str)
        requires
            old(self).wf(),
        ensures
            final(self).wf(),
            final(self)@ == old(self)@.after_unreadable(quoted_path@, reason@),
    {
        self.seen = true;
        self.output.append("Skipping ");
        self.output.append(quoted_path);
        self.output.append(": ");
        self.output.append(reason);
        self.output.append("\n");
        assert(self.output@ == old(self).output@ + skip_note(quoted_path@, reason@));
    }

    /// Records a file from what was found of it: `path` is its path as it is
    /// shown, `content` what it holds, `new_content` what substitution made
    /// of it, `count` the matches counted in it, and `lines` what was found
    /// of each of its lines, in order. Returns what is to be written to the
    /// file, if anything is.
    pub fn record_file(
        &mut self,
        path: &str,
        content: &str,
        new_content: String,
        count: usize,
        lines: &Vec<(String, bool, String)>,
    ) -> (write: Option<String>)
        requires
            old(self).wf(),
            old(self)@.files_modified < usize::MAX,
        ensures
            final(self).wf(),
            final(self)@ == old(self)@.after_answers(
                path@,
                content@,
                new_content@,
                count as nat,
                line_answers(lines@),
            ),
            write is Some <==> old(self)@.write_of(content@, new_content@) is Some,
            write matches Some(text) ==> text@ == new_content@,
    {
        self.seen = true;
        if same_text(new_content.as_str(), content) {
            return None;
        }
        assert(self.replacements + count <= (self.files_modified + 1) * usize::MAX) by (nonlinear_arith)
            requires
                self.replacements <= self.files_modified * usize::MAX,
                count <= usize::MAX,
        ;
        assert((self.files_modified + 1) * usize::MAX <= usize::MAX * usize::MAX) by (nonlinear_arith)
            requires
                self.files_modified + 1 <= usize::MAX,
        ;
        assert(usize::MAX * usize::MAX <= u128::MAX) by (nonlinear_arith)
            requires
                usize::MAX <= 0xffff_ffff_ffff_ffff,
        ;
        self.replacements = self.replacements + count as u128;
        self.files_modified = self.files_modified + 1;
        let ghost before = self.output@;
        self.output.append("--- ");
        self.output.append(path);
        self.output.append("\n");
        push_listing(&mut self.output, lines);
        assert(self.output@ == before + file_block(path@, line_answers(lines@)));
        if self.dry_run {
            None
        } else {
            Some(new_content)
        }
    }

    /// Handles a file that was read: `path` is its path as it is shown,
    /// `content` what it holds. Asks the regex engine for the substituted
    /// content and, where that differs, for the count of matches and for each
    /// line, and records the file from the answers. Returns what is to be
    /// written to the file, if anything is.
    pub fn process(&mut self, path: &str, content: &str) -> (write: Option<String>)
        requires
            old(self).wf(),
            old(self)@.files_modified < usize::MAX,
        ensures
            final(self).wf(),
            final(self)@ == old(self)@.after_file(path@, content@),
            write is Some <==> old(self)@.write_for(content@) is Some,
            write matches Some(text) ==> Some(text@) == old(self)@.write_for(content@),
    {
        let new_content = self.pattern.replace_all(content, self.template.as_str());
        let mut answers: Vec<(String, bool, String)> = Vec::new();
        if same_text(new_content.as_str(), content) {
            return self.record_file(path, content, new_content, 0, &answers);
        }
        let count = self.pattern.count_matches(content);
        let lines = split_lines(content);
        let ghost expected = engine_answers(self.pattern@, self.template@, lines_of(content@));
        let mut i: usize = 0;
        while i < lines.len()
            invariant
                i <= lines.len(),
                texts(lines@) == lines_of(content@),
                expected == engine_answers(self.pattern@, self.template@, lines_of(content@)),
                answers@.len() == i,
                forall|k: int| 0 <= k < i ==> (#[trigger] line_answers(answers@)[k]) == expected[k],
            decreases lines.len() - i,
        {
            let line = lines[i].clone();
            assert(line@ == texts(lines@)[i as int]);
            let matched = self.pattern.is_match(line.as_str());
            let replaced = if matched {
                self.pattern.replace_all(line.as_str(), self.template.as_str())
            } else {
                line.clone()
            };
            let ghost earlier = answers@;
            answers.push((line, matched, replaced));
            assert forall|k: int| 0 <= k < i + 1 implies (#[trigger] line_answers(answers@)[k])
                == expected[k] by {
                if k < i {
                    assert(line_answers(answers@)[k] == line_answers(earlier)[k]);
                }
            }
            i += 1;
        }
        assert(line_answers(answers@) =~= expected);
        self.record_file(path, content, new_content, count, &answers)
    }

    /// Ends the call and gives its report.
    pub fn finish(self) -> (report: String)
        ensures
            report@ == self@.report(),
    {
        if !self.seen {
            return String::from_str("No files matched the glob pattern.");
        }
        if self.files_modified == 0 {
            return String::from_str("No matches found.");
        }
        let mut report = self.output;
        report.append("Total: ");
        push_decimal(&mut report, self.replacements);
        report.append(" replacement");
        if self.replacements != 1 {
            report.append("s");
        }
        report.append(" in ");
        push_decimal(&mut report, self.files_modified as u128);
        report.append(" file");
        if self.files_modified != 1 {
            report.append("s");
        }
        if self.dry_run {
            report.append(" (dry run)");
        }
        assert(report@ == self@.output + self@.summary_line());
        report
    }
}

impl ReplaceView {
    /// The state after a file of the set, read or not.
    pub open spec fn after_entry(self, file: FileView) -> ReplaceView {
        match file.read {
            Ok(content) => self.after_file(file.path, content),
            Err(reason) => self.after_unreadable(file.quoted, reason),
        }
    }

    /// The state after the files of `files`, one after the other.
    pub open spec fn after_entries(self, files: Seq<FileView>) -> ReplaceView
        decreases files.len(),
    {
        if files.len() == 0 {
            self
        } else {
            self.after_entries(files.drop_last()).after_entry(files.last())
        }
    }

    /// What is to be written to a file of the set: nothing to one that could
    /// not be read.
    pub open spec fn write_for_entry(self, file: FileView) -> Option<Seq<char>> {
        match file.read {
            Ok(content) => self.write_for(content),
            Err(_) => None,
        }
    }

    /// What is to be written to each file of `files`.
    pub open spec fn writes_for(self, files: Seq<FileView>) -> Seq<Option<Seq<char>>> {
        Seq::new(files.len(), |i: int| self.write_for_entry(files[i]))
    }
}

/// The texts of a sequence of writes.
pub open spec fn write_texts(writes: Seq<Option<String>>) -> Seq<Option<Seq<char>>> {
    writes.map_values(
        |write: Option<String>|
            match write {
                Some(text) => Some(text@),
                None => None,
            },
    )
}

/// What a replace call over files held in memory gives: the report, and for
/// each file, in the order of the set, what is to be written to it.
pub struct ReplaceOutcome {
    pub report: String,
    pub writes: Vec<Option<String>>,
}

/// Runs a replace call over `files`, the files that the glob pattern of
/// `params` selected, each with what reading it gave. Nothing is written
/// here: the outcome says what is to be written.
pub fn do_replace(params: &ReplaceParams, files: &Vec<FileEntry>) -> (result: Result<
    ReplaceOutcome,
    EngineError,
>)
    ensures
        result is Ok <==> pattern_is_valid(params.pattern@),
        result matches Err(error) ==> error == EngineError::InvalidPattern,
        result matches Ok(outcome) ==> {
            let begin = ReplaceView::initial(
                params.pattern@,
                escaped(params.replacement@),
                params.is_dry_run(),
            );
            &&& outcome.report@ == begin.after_entries(file_views(files@)).report()
            &&& write_texts(outcome.writes@) == begin.writes_for(file_views(files@))
        },
{
    let mut run = match ReplaceRun::start(params) {
        Ok(run) => run,
        Err(error) => {
            return Err(error);
        },
    };
    let ghost begin = run@;
    let ghost all = file_views(files@);
    let mut writes: Vec<Option<String>> = Vec::new();
    let mut i: usize = 0;
    assert(all.take(0) == Seq::<FileView>::empty());
    while i < files.len()
        invariant
            i <= files.len(),
            all == file_views(files@),
            run.wf(),
            run@ == begin.after_entries(all.take(i as int)),
            run@.files_modified <= i,
            begin.files_modified == 0,
            writes@.len() == i,
            forall|k: int|
                0 <= k < i ==> (#[trigger] write_texts(writes@)[k]) == begin.write_for_entry(
                    all[k],
                ),
        decreases files.len() - i,
    {
        let file = &files[i];
        assert(all.take(i + 1).drop_last() == all.take(i as int));
        assert(all.take(i + 1).last() == file@);
        proof {
            lemma_settings_kept(begin, all.take(i as int));
        }
        let write = match &file.read {
            Ok(content) => run.process(file.path.as_str(), content.as_str()),
            Err(reason) => {
                run.skip_unreadable(file.quoted.as_str(), reason.as_str());
                None
            },
        };
        let ghost earlier = writes@;
        writes.push(write);
        assert(write_texts(writes@)[i as int] == begin.write_for_entry(all[i as int]));
        assert forall|k: int| 0 <= k < i + 1 implies (#[trigger] write_texts(writes@)[k])
            == begin.write_for_entry(all[k]) by {
            if k < i {
                assert(write_texts(writes@)[k] == write_texts(earlier)[k]);
            }
        }
        i += 1;
    }
    assert(all.take(files.len() as int) == all);
    assert(write_texts(writes@) =~= begin.writes_for(all));
    let report = run.finish();
    Ok(ReplaceOutcome { report, writes })
}

/// A call keeps its pattern, its template and its mode from file to file.
pub proof fn lemma_settings_kept(begin: ReplaceView, files: Seq<FileView>)
    ensures
        begin.after_entries(files).source == begin.source,
        begin.after_entries(files).template == begin.template,
        begin.after_entries(files).dry_run == begin.dry_run,
        files.len() > 0 ==> begin.after_entries(files).seen,
    decreases files.len(),
{
    if files.len() > 0 {
        lemma_settings_kept(begin, files.drop_last());
    }
}

/// The pattern has no match in the content of any file of `files` that could
/// be read.
pub open spec fn matches_nowhere(source: Seq<char>, files: Seq<FileView>) -> bool {
    forall|i: int|
        0 <= i < files.len() ==> ((#[trigger] files[i]).read matches Ok(content) ==> !matches_in(
            source,
            content,
        ))
}

/// Files in which the pattern matches nowhere change nothing of what a call
/// has counted.
pub proof fn lemma_matches_nowhere_counts_nothing(begin: ReplaceView, files: Seq<FileView>)
    requires
        matches_nowhere(begin.source, files),
    ensures
        begin.after_entries(files).files_modified == begin.files_modified,
        begin.after_entries(files).replacements == begin.replacements,
    decreases files.len(),
{
    if files.len() > 0 {
        let before = files.drop_last();
        assert forall|i: int| 0 <= i < before.len() implies ((#[trigger] before[i]).read matches Ok(
            content,
        ) ==> !matches_in(begin.source, content)) by {
            assert(before[i] == files[i]);
        }
        lemma_matches_nowhere_counts_nothing(begin, before);
        lemma_settings_kept(begin, before);
        assert(files.last() == files[files.len() - 1]);
    }
}

/// A pattern that matches nowhere leaves every file as it is: in a set that
/// is not empty, nothing is to be written to any file, and the report is
/// `No matches found.`
pub proof fn law_no_match_changes_nothing(
    source: Seq<char>,
    template: Seq<char>,
    dry_run: bool,
    files: Seq<FileView>,
)
    requires
        files.len() > 0,
        matches_nowhere(source, files),
    ensures
        ({
            let begin = ReplaceView::initial(source, template, dry_run);
            &&& begin.after_entries(files).report() == "No matches found."@
            &&& forall|i: int| 0 <= i < files.len() ==> begin.writes_for(files)[i] is None
        }),
{
    let begin = ReplaceView::initial(source, template, dry_run);
    lemma_matches_nowhere_counts_nothing(begin, files);
    lemma_settings_kept(begin, files);
}

/// The files of `files` after the writes of `writes`: a file that is written
/// holds what was written, the others hold what they held.
pub open spec fn files_after(files: Seq<FileView>, writes: Seq<Option<Seq<char>>>) -> Seq<FileView>
    recommends
        files.len() == writes.len(),
{
    Seq::new(
        files.len(),
        |i: int|
            match writes[i] {
                Some(text) => FileView { read: Ok(text), ..files[i] },
                None => files[i],
            },
    )
}

/// Running a call a second time, on the files as the first run left them,
/// modifies no file and writes nothing, where the pattern no longer matches
/// in what the first run left.
pub proof fn law_second_run_modifies_nothing(
    source: Seq<char>,
    template: Seq<char>,
    dry_run: bool,
    files: Seq<FileView>,
)
    requires
        matches_nowhere(
            source,
            files_after(files, ReplaceView::initial(source, template, dry_run).writes_for(files)),
        ),
    ensures
        ({
            let begin = ReplaceView::initial(source, template, dry_run);
            let left = files_after(files, begin.writes_for(files));
            &&& begin.after_entries(left).files_modified == 0
            &&& begin.after_entries(left).replacements == 0
            &&& forall|i: int| 0 <= i < left.len() ==> begin.writes_for(left)[i] is None
            &&& files_after(left, begin.writes_for(left)) == left
        }),
{
    let begin = ReplaceView::initial(source, template, dry_run);
    let left = files_after(files, begin.writes_for(files));
    lemma_matches_nowhere_counts_nothing(begin, left);
    assert(files_after(left, begin.writes_for(left)) =~= left);
}

/// A dry run writes nothing, whatever the files hold and whatever the report
/// says.
pub proof fn law_dry_run_writes_nothing(
    source: Seq<char>,
    template: Seq<char>,
    files: Seq<FileView>,
)
    ensures
        ({
            let begin = ReplaceView::initial(source, template, true);
            &&& forall|i: int| 0 <= i < files.len() ==> begin.writes_for(files)[i] is None
            &&& files_after(files, begin.writes_for(files)) == files
        }),
{
    let begin = ReplaceView::initial(source, template, true);
    assert(files_after(files, begin.writes_for(files)) =~= files);
}

} // verus!
