//! How each download ended, the line that tells it, and the tally of a run.

use crate::event::SchemaFault;
use crate::text::{decimal, decimal_string};
use crate::transcode::TranscodeError;
use reqwest::StatusCode;
use vstd::prelude::*;
use vstd::string::StringExecFns;

verus! {

/// The words that `reqwest` writes for the HTTP status `code`: the number and
/// the usual name of the status. `None` where `code` is no status.
pub uninterp spec fn status_display(code: int) -> Option<Seq<char>>;

/// Makes a `reqwest::StatusCode` of `code` with `StatusCode::from_u16` and
/// writes it with its `Display`. `from_u16` takes the numbers from 100 to 999
/// and no others; of the words the contract only says that they are those
/// named `status_display`.
#[verifier::external_body]
fn status_words(code: u16) -> (r: Option<String>)
    ensures
        status_display(code as int) == match r {
            Some(words) => Some(words@),
            None => None,
        },
        r is Some <==> 100 <= code <= 999,
{
    match StatusCode::from_u16(code) {
        Ok(status) => Some(status.to_string()),
        Err(_) => None,
    }
}

/// The kind of failure of a download.
#[derive(Clone, Copy, Debug, PartialEq, Eq, Structural)]
pub enum FailureKind {
    /// The service answered with a status that does not tell of success.
    BadResponse { status: u16 },
    /// The request or the transfer of the body failed.
    Transport,
    /// The body is not a complete gzip stream.
    Decompression,
    /// The decompressed file is not tab-delimited text.
    Unreadable,
    /// The record at `row`, counted from zero, is not an event.
    Schema { row: usize, fault: SchemaFault },
    /// A record could not be written as comma-delimited text.
    Unwritable,
    /// A file could not be created, written or read.
    Filesystem,
    /// The job was told of something that cannot happen in its state.
    OutOfTurn,
}

/// Why a download failed: the kind of failure, and the words of whoever
/// found it, if any.
#[derive(Clone, Debug, PartialEq, Eq)]
pub struct Failure {
    pub kind: FailureKind,
    pub detail: String,
}

/// A failure, as plain values.
pub ghost struct FailureModel {
    pub kind: FailureKind,
    pub detail: Seq<char>,
}

impl View for Failure {
    type V = FailureModel;

    open spec fn view(&self) -> FailureModel {
        FailureModel { kind: self.kind, detail: self.detail@ }
    }
}

/// How a download ended.
#[derive(Clone, Debug, PartialEq, Eq)]
pub enum Outcome {
    /// Every file of the key is written in full.
    Success { key: String },
    Failure { key: String, reason: Failure },
}

/// An outcome, as plain values: the key, and the failure if there was one.
pub ghost struct OutcomeModel {
    pub key: Seq<char>,
    pub failure: Option<FailureModel>,
}

impl View for Outcome {
    type V = OutcomeModel;

    open spec fn view(&self) -> OutcomeModel {
        match self {
            Outcome::Success { key } => OutcomeModel { key: key@, failure: None },
            Outcome::Failure { key, reason } => OutcomeModel {
                key: key@,
                failure: Some(reason@),
            },
        }
    }
}

/// One line of the report of a run.
#[derive(Clone, Debug, PartialEq, Eq)]
pub struct ReportLine {
    /// The line tells of a failure, and belongs on the error stream.
    pub error: bool,
    pub text: String,
}

/// The words for an HTTP status: those of `reqwest` where it knows the
/// status, else the number alone.
pub open spec fn status_text(code: u16) -> Seq<char> {
    match status_display(code as int) {
        Some(words) => words,
        None => decimal(code as nat),
    }
}

/// The words for a rule that a record breaks.
pub open spec fn fault_words(fault: SchemaFault) -> Seq<char> {
    match fault {
        SchemaFault::FieldCount => "expected 10 fields"@,
        SchemaFault::BadId => "id is not a number of 128 bits"@,
        SchemaFault::BadSourceId => "source_id is not a number of 32 bits"@,
        SchemaFault::BadSourceIp => "source_ip is not an IPv4 address"@,
    }
}

/// The words for a kind of failure.
pub open spec fn kind_words(kind: FailureKind) -> Seq<char> {
    match kind {
        FailureKind::BadResponse { status } => status_text(status),
        FailureKind::Transport => "request failed"@,
        FailureKind::Decompression => "not a complete gzip stream"@,
        FailureKind::Unreadable => "not tab-delimited text"@,
        FailureKind::Schema { row, fault } => "record "@ + decimal(row as nat) + ": "@
            + fault_words(fault),
        FailureKind::Unwritable => "record cannot be written"@,
        FailureKind::Filesystem => "file error"@,
        FailureKind::OutOfTurn => "event out of turn"@,
    }
}

/// The words for a failure: those of its kind, then its detail where it has one.
pub open spec fn failure_words(failure: FailureModel) -> Seq<char> {
    if failure.detail.len() > 0 {
        kind_words(failure.kind) + ": "@ + failure.detail
    } else {
        kind_words(failure.kind)
    }
}

/// The line of the report for one outcome. It names the key, and the reason
/// where the download failed.
pub open spec fn line_text(outcome: OutcomeModel) -> Seq<char> {
    match outcome.failure {
        None => "Downloaded "@ + outcome.key,
        Some(failure) => "Error: Failed to download "@ + outcome.key + ": "@ + failure_words(
            failure,
        ),
    }
}

/// The words for the run that finds no directory to write to.
pub open spec fn missing_directory_text(dir: Seq<char>) -> Seq<char> {
    "Couldn't find directory: "@ + dir
}

/// The number of failures among `outcomes`.
pub open spec fn count_failures(outcomes: Seq<OutcomeModel>) -> nat
    decreases outcomes.len(),
{
    if outcomes.len() == 0 {
        0
    } else {
        count_failures(outcomes.drop_last()) + if outcomes.last().failure is Some {
            1nat
        } else {
            0nat
        }
    }
}

/// The outcomes that `outcomes` holds, as plain values.
pub open spec fn outcome_models(outcomes: Seq<Outcome>) -> Seq<OutcomeModel> {
    Seq::new(outcomes.len(), |i: int| outcomes[i]@)
}

/// There are no more failures than outcomes, and none exactly where every
/// download succeeded.
pub proof fn lemma_count_failures(outcomes: Seq<OutcomeModel>)
    ensures
        count_failures(outcomes) <= outcomes.len(),
        count_failures(outcomes) == 0 <==> forall|i: int|
            0 <= i < outcomes.len() ==> (#[trigger] outcomes[i]).failure is None,
    decreases outcomes.len(),
{
    if outcomes.len() > 0 {
        let front = outcomes.drop_last();
        lemma_count_failures(front);
        assert forall|i: int| 0 <= i < front.len() implies front[i] == outcomes[i] by {}
        if count_failures(outcomes) == 0 {
            assert forall|i: int| 0 <= i < outcomes.len() implies (
            #[trigger] outcomes[i]).failure is None by {
                if i < front.len() {
                    assert(front[i] == outcomes[i]);
                }
            }
        }
        if forall|i: int| 0 <= i < outcomes.len() ==> (#[trigger] outcomes[i]).failure is None {
            assert(outcomes.last() == outcomes[outcomes.len() - 1]);
            assert forall|i: int| 0 <= i < front.len() implies (#[trigger] front[i]).failure
                is None by {
                assert(front[i] == outcomes[i]);
            }
        }
    }
}

/// Where exactly one download failed, one failure is counted, and all the
/// other downloads are counted as successes.
pub proof fn lemma_single_failure(outcomes: Seq<OutcomeModel>, f: int)
    requires
        0 <= f < outcomes.len(),
        outcomes[f].failure is Some,
        forall|i: int| 0 <= i < outcomes.len() && i != f ==> (#[trigger] outcomes[i]).failure
            is None,
    ensures
        count_failures(outcomes) == 1,
        outcomes.len() - count_failures(outcomes) == outcomes.len() - 1,
    decreases outcomes.len(),
{
    let front = outcomes.drop_last();
    assert forall|i: int| 0 <= i < front.len() implies front[i] == outcomes[i] by {}
    if f == outcomes.len() - 1 {
        lemma_count_failures(front);
        assert forall|i: int| 0 <= i < front.len() implies (#[trigger] front[i]).failure
            is None by {
            assert(front[i] == outcomes[i]);
        }
    } else {
        assert(outcomes.last() == outcomes[outcomes.len() - 1]);
        assert forall|i: int| 0 <= i < front.len() && i != f implies (#[trigger] front[i]).failure
            is None by {
            assert(front[i] == outcomes[i]);
        }
        lemma_single_failure(front, f);
    }
}

/// The words for an HTTP status.
pub fn status_string(code: u16) -> (s: String)
    ensures
        s@ == status_text(code),
{
    match status_words(code) {
        Some(words) => words,
        None => decimal_string(code as u128),
    }
}

/// The words for a rule that a record breaks.
pub fn fault_string(fault: SchemaFault) -> (s: String)
    ensures
        s@ == fault_words(fault),
{
    match fault {
        SchemaFault::FieldCount => String::from_str("expected 10 fields"),
        SchemaFault::BadId => String::from_str("id is not a number of 128 bits"),
        SchemaFault::BadSourceId => String::from_str("source_id is not a number of 32 bits"),
        SchemaFault::BadSourceIp => String::from_str("source_ip is not an IPv4 address"),
    }
}

/// The words for a kind of failure.
pub fn kind_string(kind: FailureKind) -> (s: String)
    ensures
        s@ == kind_words(kind),
{
    match kind {
        FailureKind::BadResponse { status } => status_string(status),
        FailureKind::Transport => String::from_str("request failed"),
        FailureKind::Decompression => String::from_str("not a complete gzip stream"),
        FailureKind::Unreadable => String::from_str("not tab-delimited text"),
        FailureKind::Schema { row, fault } => {
            let mut s = String::from_str("record ");
            s.append(decimal_string(row as u128).as_str());
            s.append(": ");
            s.append(fault_string(fault).as_str());
            s
        },
        FailureKind::Unwritable => String::from_str("record cannot be written"),
        FailureKind::Filesystem => String::from_str("file error"),
        FailureKind::OutOfTurn => String::from_str("event out of turn"),
    }
}

/// The words for the run that finds no directory to write to.
pub fn missing_directory_message(dir: &str) -> (s: String)
    ensures
        s@ == missing_directory_text(dir@),
{
    let mut s = String::from_str("Couldn't find directory: ");
    s.append(dir);
    s
}

impl Failure {
    /// A failure of the kind `kind` without further words.
    pub fn of_kind(kind: FailureKind) -> (f: Failure)
        ensures
            f@ == (FailureModel { kind, detail: Seq::empty() }),
    {
        Failure { kind, detail: String::new() }
    }

    /// The failure that an error of the transcoding stands for.
    pub fn from_transcode(e: TranscodeError) -> (f: Failure)
        ensures
            f@ == match e {
                TranscodeError::Unreadable(words) => FailureModel {
                    kind: FailureKind::Unreadable,
                    detail: words@,
                },
                TranscodeError::Schema { row, fault } => FailureModel {
                    kind: FailureKind::Schema { row, fault },
                    detail: Seq::empty(),
                },
                TranscodeError::Unwritable(words) => FailureModel {
                    kind: FailureKind::Unwritable,
                    detail: words@,
                },
            },
    {
        match e {
            TranscodeError::Unreadable(words) => Failure {
                kind: FailureKind::Unreadable,
                detail: words,
            },
            TranscodeError::Schema { row, fault } => Failure::of_kind(
                FailureKind::Schema { row, fault },
            ),
            TranscodeError::Unwritable(words) => Failure {
                kind: FailureKind::Unwritable,
                detail: words,
            },
        }
    }

    /// The words for this failure.
    pub fn words(&self) -> (s: String)
        ensures
            s@ == failure_words(self@),
    {
        let mut s = kind_string(self.kind);
        if self.detail.as_str().unicode_len() > 0 {
            s.append(": ");
            s.append(self.detail.as_str());
        }
        s
    }
}

impl Outcome {
    /// The key of the download.
    pub fn key(&self) -> (key: &String)
        ensures
            key@ == self@.key,
    {
        match self {
            Outcome::Success { key } => key,
            Outcome::Failure { key, .. } => key,
        }
    }

    /// The download succeeded.
    pub fn is_success(&self) -> (yes: bool)
        ensures
            yes == self@.failure is None,
    {
        match self {
            Outcome::Success { .. } => true,
            Outcome::Failure { .. } => false,
        }
    }

    /// The line of the report for this outcome.
    pub fn report_line(&self) -> (line: ReportLine)
        ensures
            line.text@ == line_text(self@),
            line.error == self@.failure is Some,
    {
        match self {
            Outcome::Success { key } => {
                let mut text = String::from_str("Downloaded ");
                text.append(key.as_str());
                ReportLine { error: false, text }
            },
            Outcome::Failure { key, reason } => {
                let mut text = String::from_str("Error: Failed to download ");
                text.append(key.as_str());
                text.append(": ");
                text.append(reason.words().as_str());
                ReportLine { error: true, text }
            },
        }
    }
}

/// The outcomes of a run, in the order in which the downloads ended.
#[derive(Debug)]
pub struct RunResult {
    outcomes: Vec<Outcome>,
}

impl View for RunResult {
    type V = Seq<OutcomeModel>;

    closed spec fn view(&self) -> Seq<OutcomeModel> {
        outcome_models(self.outcomes@)
    }
}

impl RunResult {
    /// The result of a run in which no download has ended yet.
    pub fn new() -> (r: RunResult)
        ensures
            r@ == Seq::<OutcomeModel>::empty(),
    {
        let r = RunResult { outcomes: Vec::new() };
        assert(r@ =~= Seq::<OutcomeModel>::empty());
        r
    }

    /// Takes one outcome in, and gives the line that reports it.
    pub fn record(&mut self, outcome: Outcome) -> (line: ReportLine)
        ensures
            final(self)@ == old(self)@.push(outcome@),
            line.text@ == line_text(outcome@),
            line.error == outcome@.failure is Some,
    {
        let line = outcome.report_line();
        self.outcomes.push(outcome);
        assert(self@ =~= old(self)@.push(outcome@));
        line
    }

    /// The number of downloads that have ended.
    pub fn len(&self) -> (n: usize)
        ensures
            n == self@.len(),
    {
        self.outcomes.len()
    }

    /// The number of downloads that failed.
    pub fn failures(&self) -> (n: usize)
        ensures
            n == count_failures(self@),
    {
        let mut n: usize = 0;
        let mut i: usize = 0;
        assert(self@.take(0) =~= Seq::<OutcomeModel>::empty());
        while i < self.outcomes.len()
            invariant
                i <= self.outcomes.len(),
                self@ == outcome_models(self.outcomes@),
                n == count_failures(self@.take(i as int)),
                n <= i,
            decreases self.outcomes.len() - i,
        {
            assert(self@.take(i + 1).drop_last() =~= self@.take(i as int));
            assert(self@.take(i + 1).last() == self.outcomes@[i as int]@);
            if !self.outcomes[i].is_success() {
                n += 1;
            }
            i += 1;
        }
        assert(self@.take(i as int) =~= self@);
        n
    }

    /// The number of downloads that succeeded.
    pub fn successes(&self) -> (n: usize)
        ensures
            n == self@.len() - count_failures(self@),
    {
        proof {
            lemma_count_failures(self@);
        }
        self.outcomes.len() - self.failures()
    }

    /// Every download that has ended succeeded.
    pub fn all_succeeded(&self) -> (yes: bool)
        ensures
            yes == forall|i: int| 0 <= i < self@.len() ==> (#[trigger] self@[i]).failure is None,
    {
        proof {
            lemma_count_failures(self@);
        }
        self.failures() == 0
    }

    /// The outcomes, in the order in which they were taken in.
    pub fn outcomes(&self) -> (all: &Vec<Outcome>)
        ensures
            outcome_models(all@) == self@,
    {
        &self.outcomes
    }
}

} // verus!
