//! One download, from the request to its outcome. The job decides; its
//! caller sends the request, moves the bytes and tells the job what happened.

use crate::bucket::{
    archive_name, archive_name_text, csv_name, csv_name_text, download_url, url_text,
};
use crate::config::Mode;
use crate::report::{Failure, FailureKind, FailureModel, Outcome, OutcomeModel};
use crate::stage::{expected_file, no_gzip_begins, Stage};
use crate::transcode::{
    all_events, csv_lines, csv_text, document, is_first_fault, tab_records, transcode,
};
use vstd::prelude::*;

verus! {

/// The status of a response tells of success: it is one of 200 to 299.
pub open spec fn is_success(status: u16) -> bool {
    200 <= status <= 299
}

/// The status of a response tells of success.
pub fn status_is_success(status: u16) -> (yes: bool)
    ensures
        yes == is_success(status),
{
    200 <= status && status <= 299
}

/// How far a job has come.
#[derive(Clone, Copy, Debug, PartialEq, Eq, Structural)]
pub enum Phase {
    /// Nothing has been asked of the service yet.
    Ready,
    /// The request is sent; the status of the response is awaited.
    Requested,
    /// The body arrives and is written to the file of the archive.
    Streaming,
    /// The body is over; the file is being flushed and closed.
    Closing,
    /// The file of the archive is being read again from its start.
    ReadingBack,
    /// The comma-delimited file is being written.
    WritingCsv,
    /// The outcome has been given.
    Done,
}

/// What the caller tells a job.
#[derive(Clone, Debug, PartialEq, Eq)]
pub enum JobEvent {
    /// The job may begin.
    Start,
    /// The response has come, with this status.
    Response { status: u16 },
    /// The file was created, or written, and the next piece of the body has
    /// come.
    Chunk { bytes: Vec<u8> },
    /// The file was created or written, and the body is over.
    EndOfBody,
    /// The file is flushed and closed.
    Closed,
    /// These are the bytes of the file that was to be read again.
    Contents { bytes: Vec<u8> },
    /// The comma-delimited file is written, flushed and closed.
    Written,
    /// The request, or the transfer of the body, failed.
    TransportFailed { reason: String },
    /// A file could not be created, written, closed or read.
    FileFailed { reason: String },
}

/// What a job asks of its caller.
#[derive(Clone, Debug, PartialEq, Eq)]
pub enum JobAction {
    /// Send a GET request to `url`, and tell the status of the response.
    Get { url: String },
    /// Create the file `name` in the output directory, empty if it exists
    /// already, and tell the first piece of the body.
    Create { name: String },
    /// Append `bytes` to the file, and tell the next piece of the body.
    Write { bytes: Vec<u8> },
    /// Append `last` to the file, flush and close it, and tell when that is
    /// done.
    Close { last: Vec<u8> },
    /// Read the file `name` from its start, and tell its bytes.
    ReadBack { name: String },
    /// Create the file `name`, write `bytes` to it, flush and close it, and
    /// tell when that is done.
    WriteFile { name: String, bytes: Vec<u8> },
    /// Let go of the response and of any open file, then report `outcome`.
    Finish { outcome: Outcome },
    /// The outcome was given before: there is nothing to do.
    Nothing,
}

/// What a job asks of its caller, as plain values.
pub ghost enum ActionModel {
    Get { url: Seq<char> },
    Create { name: Seq<char> },
    Write { bytes: Seq<u8> },
    Close { last: Seq<u8> },
    ReadBack { name: Seq<char> },
    WriteFile { name: Seq<char>, bytes: Seq<u8> },
    Finish { outcome: OutcomeModel },
    Nothing,
}

impl View for JobAction {
    type V = ActionModel;

    open spec fn view(&self) -> ActionModel {
        match self {
            JobAction::Get { url } => ActionModel::Get { url: url@ },
            JobAction::Create { name } => ActionModel::Create { name: name@ },
            JobAction::Write { bytes } => ActionModel::Write { bytes: bytes@ },
            JobAction::Close { last } => ActionModel::Close { last: last@ },
            JobAction::ReadBack { name } => ActionModel::ReadBack { name: name@ },
            JobAction::WriteFile { name, bytes } => ActionModel::WriteFile {
                name: name@,
                bytes: bytes@,
            },
            JobAction::Finish { outcome } => ActionModel::Finish { outcome: outcome@ },
            JobAction::Nothing => ActionModel::Nothing,
        }
    }
}

/// What a job holds.
pub ghost struct JobModel {
    pub key: Seq<char>,
    pub mode: Mode,
    pub phase: Phase,
    /// The bytes of the body that the job was told of so far.
    pub body: Seq<u8>,
    /// The bytes that the job has asked to be written to the file of the
    /// archive so far.
    pub file: Seq<u8>,
    /// Nothing has failed on the stage of the job.
    pub intact: bool,
}

/// What came of the bytes that the job handed to its stage or to the
/// transcoding: the bytes for the file, or the failure.
pub type Piped = Result<Seq<u8>, FailureModel>;

/// The outcome of the job of `key` that succeeded.
pub open spec fn success(key: Seq<char>) -> ActionModel {
    ActionModel::Finish { outcome: OutcomeModel { key, failure: None } }
}

/// The outcome of the job of `key` that failed.
pub open spec fn failed(key: Seq<char>, failure: FailureModel) -> ActionModel {
    ActionModel::Finish { outcome: OutcomeModel { key, failure: Some(failure) } }
}

/// The failure of a kind, without further words.
pub open spec fn plain(kind: FailureKind) -> FailureModel {
    FailureModel { kind, detail: Seq::empty() }
}

/// In this phase, this event hands bytes to the stage or to the transcoding.
pub open spec fn needs_pipe(phase: Phase, event: JobEvent) -> bool {
    ||| phase == Phase::Streaming && (event is Chunk || event is EndOfBody)
    ||| phase == Phase::ReadingBack && event is Contents
}

/// The phase that follows and what is asked of the caller, when the job
/// `job` is told `event` and `piped` came of the bytes, if there were any.
pub open spec fn react(job: JobModel, event: JobEvent, piped: Option<Piped>) -> (
    Phase,
    ActionModel,
) {
    if job.phase == Phase::Done {
        (Phase::Done, ActionModel::Nothing)
    } else {
        match (job.phase, event, piped) {
            (_, JobEvent::TransportFailed { reason }, _) => (
                Phase::Done,
                failed(job.key, FailureModel { kind: FailureKind::Transport, detail: reason@ }),
            ),
            (_, JobEvent::FileFailed { reason }, _) => (
                Phase::Done,
                failed(job.key, FailureModel { kind: FailureKind::Filesystem, detail: reason@ }),
            ),
            (Phase::Ready, JobEvent::Start, _) => (
                Phase::Requested,
                ActionModel::Get { url: url_text(job.key) },
            ),
            (Phase::Requested, JobEvent::Response { status }, _) => if is_success(status) {
                (
                    Phase::Streaming,
                    ActionModel::Create {
                        name: archive_name_text(job.key, job.mode != Mode::RawCompressed),
                    },
                )
            } else {
                (Phase::Done, failed(job.key, plain(FailureKind::BadResponse { status })))
            },
            (Phase::Streaming, JobEvent::Chunk { bytes }, Some(Ok(out))) => (
                Phase::Streaming,
                ActionModel::Write { bytes: out },
            ),
            (Phase::Streaming, JobEvent::EndOfBody, Some(Ok(out))) => (
                Phase::Closing,
                ActionModel::Close { last: out },
            ),
            (Phase::Closing, JobEvent::Closed, _) => if job.mode == Mode::Transcoded {
                (
                    Phase::ReadingBack,
                    ActionModel::ReadBack { name: archive_name_text(job.key, true) },
                )
            } else {
                (Phase::Done, success(job.key))
            },
            (Phase::ReadingBack, JobEvent::Contents { bytes }, Some(Ok(out))) => (
                Phase::WritingCsv,
                ActionModel::WriteFile { name: csv_name_text(job.key), bytes: out },
            ),
            (Phase::WritingCsv, JobEvent::Written, _) => (Phase::Done, success(job.key)),
            (phase, event, Some(Err(failure))) => if needs_pipe(phase, event) {
                (Phase::Done, failed(job.key, failure))
            } else {
                (Phase::Done, failed(job.key, plain(FailureKind::OutOfTurn)))
            },
            _ => (Phase::Done, failed(job.key, plain(FailureKind::OutOfTurn))),
        }
    }
}

/// What is known of what comes of the bytes of `data` in the transcoding.
pub open spec fn transcoded(data: Seq<u8>, piped: Piped) -> bool {
    match piped {
        Ok(csv) => tab_records(data) matches Some(rows) && all_events(rows) && csv_text(
            document(rows),
        ) == Some(csv) && csv == csv_lines(document(rows)),
        Err(failure) => match failure.kind {
            FailureKind::Unreadable => tab_records(data) is None,
            FailureKind::Schema { row, fault } => tab_records(data) matches Some(rows)
                && is_first_fault(rows, row as int, fault) && failure.detail.len() == 0,
            FailureKind::Unwritable => tab_records(data) matches Some(rows) && all_events(rows)
                && csv_text(document(rows)) is None,
            _ => false,
        },
    }
}

/// What is known of what comes of the bytes that the job `job` hands on when
/// it is told `event`. A job that does not decompress hands on the very bytes
/// it is given. One that does fails with a failure of decompression if it
/// fails; as long as nothing has failed on its stage, it fails at a piece
/// only where the body cannot become a gzip stream any more, and at the end
/// of the body only where the body is no gzip stream; and where the end of
/// the body succeeds, the file then holds what the decoder makes of the
/// whole body. The transcoding gives what its contract says.
pub open spec fn pipe_fits(job: JobModel, event: JobEvent, piped: Piped) -> bool {
    match (job.phase, event) {
        (Phase::Streaming, JobEvent::Chunk { bytes }) => if job.mode == Mode::RawCompressed {
            piped == Ok::<Seq<u8>, FailureModel>(bytes@)
        } else {
            match piped {
                Ok(_) => true,
                Err(failure) => failure.kind == FailureKind::Decompression && (job.intact
                    ==> no_gzip_begins(job.body + bytes@)),
            }
        },
        (Phase::Streaming, JobEvent::EndOfBody) => if job.mode == Mode::RawCompressed {
            piped == Ok::<Seq<u8>, FailureModel>(Seq::empty())
        } else {
            match piped {
                Ok(rest) => expected_file(true, job.body) == Some(job.file + rest),
                Err(failure) => failure.kind == FailureKind::Decompression && (job.intact
                    ==> expected_file(true, job.body) is None),
            }
        },
        (Phase::ReadingBack, JobEvent::Contents { bytes }) => transcoded(bytes@, piped),
        _ => false,
    }
}

/// What is told to a job at one step, and what came of the bytes.
pub ghost struct Input {
    pub event: JobEvent,
    pub piped: Option<Piped>,
}

impl JobModel {
    /// The job of `key` before it begins.
    pub open spec fn fresh(key: Seq<char>, mode: Mode) -> JobModel {
        JobModel {
            key,
            mode,
            phase: Phase::Ready,
            body: Seq::empty(),
            file: Seq::empty(),
            intact: true,
        }
    }

    /// The job after it was told `event` and `piped` came of the bytes: its
    /// phase is the one that `react` gives, a piece of the body that went
    /// through adds to the body and to the file, and the end of the body adds
    /// the last bytes to the file.
    pub open spec fn after(self, event: JobEvent, piped: Option<Piped>) -> JobModel {
        let phase = react(self, event, piped).0;
        match (self.phase, event, piped) {
            (Phase::Streaming, JobEvent::Chunk { bytes }, Some(Ok(out))) => JobModel {
                phase,
                body: self.body + bytes@,
                file: self.file + out,
                ..self
            },
            (Phase::Streaming, JobEvent::EndOfBody, Some(Ok(out))) => JobModel {
                phase,
                file: self.file + out,
                ..self
            },
            _ => JobModel { phase, ..self },
        }
    }

    /// The job after it was told the inputs of `inputs`, one after another.
    pub open spec fn run(self, inputs: Seq<Input>) -> JobModel
        decreases inputs.len(),
    {
        if inputs.len() == 0 {
            self
        } else {
            self.run(inputs.drop_last()).after(inputs.last().event, inputs.last().piped)
        }
    }

    /// What the job asked of its caller at each of the inputs of `inputs`.
    pub open spec fn actions(self, inputs: Seq<Input>) -> Seq<ActionModel>
        decreases inputs.len(),
    {
        if inputs.len() == 0 {
            Seq::empty()
        } else {
            let before = self.run(inputs.drop_last());
            self.actions(inputs.drop_last()).push(
                react(before, inputs.last().event, inputs.last().piped).1,
            )
        }
    }

    /// The file of the archive holds what it is to hold of the whole body:
    /// the body itself, or what the decoder makes of it.
    pub open spec fn whole(self) -> bool {
        expected_file(self.mode != Mode::RawCompressed, self.body) == Some(self.file)
    }

    /// The body is over and the file of the archive has all its bytes.
    pub open spec fn settled(self) -> bool {
        self.phase == Phase::Closing || self.phase == Phase::ReadingBack || self.phase
            == Phase::WritingCsv
    }

    /// What came of the bytes at the input `input` is what the stage and the
    /// transcoding can give.
    pub open spec fn fits(self, input: Input) -> bool {
        needs_pipe(self.phase, input.event) ==> (input.piped matches Some(piped) && pipe_fits(
            self,
            input.event,
            piped,
        ))
    }

    /// Along `inputs`, what came of the bytes is at every step what the stage
    /// and the transcoding can give.
    pub open spec fn all_fit(self, inputs: Seq<Input>) -> bool {
        forall|k: int|
            0 <= k < inputs.len() ==> self.run(inputs.take(k)).fits(#[trigger] inputs[k])
    }
}

/// A job gives its outcome exactly when it comes to its end, and from then
/// on it asks for nothing.
pub proof fn lemma_finish_ends(job: JobModel, event: JobEvent, piped: Option<Piped>)
    ensures
        react(job, event, piped).1 is Finish <==> job.phase != Phase::Done && react(
            job,
            event,
            piped,
        ).0 == Phase::Done,
        job.phase == Phase::Done ==> react(job, event, piped) == (
            Phase::Done,
            ActionModel::Nothing,
        ),
        react(job, event, piped).1 matches ActionModel::Finish { outcome } ==> outcome.key
            == job.key,
{
}

/// No file is created but on a response whose status tells of success, and
/// the request is sent only by a job that has not begun.
pub proof fn lemma_create_needs_ok(job: JobModel, event: JobEvent, piped: Option<Piped>)
    ensures
        react(job, event, piped).1 is Create ==> job.phase == Phase::Requested && (
        event matches JobEvent::Response { status } && is_success(status)),
        match event {
            JobEvent::Response { status } => !is_success(status) && job.phase
                == Phase::Requested ==> react(job, event, piped).1 == failed(
                job.key,
                plain(FailureKind::BadResponse { status }),
            ),
            _ => true,
        },
        react(job, event, piped).1 is Get ==> job.phase == Phase::Ready && event
            == JobEvent::Start,
        react(job, event, piped).0 != Phase::Ready,
{
}

/// A job reports success only when its last file is flushed and closed: the
/// file of the archive where nothing more is asked for, the comma-delimited
/// file where it is.
pub proof fn lemma_success_means_written(job: JobModel, event: JobEvent, piped: Option<Piped>)
    requires
        react(job, event, piped).1 == success(job.key),
    ensures
        (job.phase == Phase::WritingCsv && event == JobEvent::Written) || (job.phase
            == Phase::Closing && event == JobEvent::Closed && job.mode != Mode::Transcoded),
{
}

/// What a job asks for at the input `k` is what it decides in the state
/// that the first `k` inputs left it in; its key and mode never change; and
/// a job that has come to its end stays there.
pub proof fn lemma_run_prefix(job: JobModel, inputs: Seq<Input>, k: int)
    requires
        0 <= k <= inputs.len(),
    ensures
        job.actions(inputs).len() == inputs.len(),
        job.run(inputs).key == job.key,
        job.run(inputs).mode == job.mode,
        k < inputs.len() ==> job.actions(inputs)[k] == react(
            job.run(inputs.take(k)),
            inputs[k].event,
            inputs[k].piped,
        ).1,
        job.run(inputs.take(k)).phase == Phase::Done ==> job.run(inputs).phase == Phase::Done,
    decreases inputs.len(),
{
    if inputs.len() == 0 {
        assert(inputs.take(k) =~= inputs);
    } else if k == inputs.len() {
        assert(inputs.take(k) =~= inputs);
        lemma_run_prefix(job, inputs.drop_last(), k - 1);
    } else {
        let front = inputs.drop_last();
        lemma_run_prefix(job, front, k);
        assert(front.take(k) =~= inputs.take(k));
        if k == front.len() {
            assert(inputs.take(k) =~= front);
        } else {
            assert(front[k] == inputs[k]);
        }
    }
}

/// Exactly one outcome: whatever a job is told, it gives its outcome at most
/// once, and asks for nothing after it.
pub proof fn lemma_one_outcome(job: JobModel, inputs: Seq<Input>, i: int, j: int)
    requires
        0 <= i < j < inputs.len(),
        job.actions(inputs)[i] is Finish,
    ensures
        job.actions(inputs)[j] == ActionModel::Nothing,
{
    lemma_run_prefix(job, inputs, i);
    lemma_run_prefix(job, inputs, j);
    let upto = inputs.take(j);
    lemma_run_prefix(job, upto, i + 1);
    assert(upto.take(i + 1) =~= inputs.take(i + 1));
    assert(inputs.take(i + 1).drop_last() =~= inputs.take(i));
    assert(inputs.take(i + 1).last() == inputs[i]);
    lemma_finish_ends(job.run(inputs.take(i)), inputs[i].event, inputs[i].piped);
}

/// One request: whatever a job is told, it asks at most once for the request
/// to be sent.
pub proof fn lemma_one_request(job: JobModel, inputs: Seq<Input>, i: int, j: int)
    requires
        0 <= i < j < inputs.len(),
        job.actions(inputs)[i] is Get,
    ensures
        !(job.actions(inputs)[j] is Get),
{
    lemma_run_prefix(job, inputs, j);
    let upto = inputs.take(j);
    assert(upto.len() > 0);
    assert(upto.drop_last() =~= inputs.take(j - 1));
    lemma_create_needs_ok(
        job.run(upto.drop_last()),
        upto.last().event,
        upto.last().piped,
    );
    lemma_create_needs_ok(job.run(upto), inputs[j].event, inputs[j].piped);
}

impl JobModel {
    /// What holds of a job all along a run in which every step fits: while
    /// the body arrives, a job that does not decompress has asked for the
    /// very bytes of the body to be written; and once the body is over, the
    /// file holds what it is to hold of the whole body.
    pub open spec fn steady(self) -> bool {
        &&& (self.mode == Mode::RawCompressed && (self.phase == Phase::Ready || self.phase
            == Phase::Requested || self.phase == Phase::Streaming)) ==> self.file == self.body
        &&& self.settled() ==> self.whole()
        &&& self.phase != Phase::Done ==> self.intact
    }
}

/// A run of which every step fits is one of which the first steps fit.
pub proof fn lemma_all_fit_prefix(job: JobModel, inputs: Seq<Input>)
    requires
        job.all_fit(inputs),
        inputs.len() > 0,
    ensures
        job.all_fit(inputs.drop_last()),
        job.run(inputs.drop_last()).fits(inputs.last()),
{
    let front = inputs.drop_last();
    assert forall|k: int| 0 <= k < front.len() implies job.run(front.take(k)).fits(
        #[trigger] front[k],
    ) by {
        assert(front.take(k) =~= inputs.take(k));
        assert(front[k] == inputs[k]);
    }
    assert(inputs.take(inputs.len() - 1) =~= front);
    assert(inputs.last() == inputs[inputs.len() - 1]);
}

/// Whatever a job is told, as long as what comes of the bytes is what the
/// stage and the transcoding can give: once the body is over, the file of
/// the archive holds what it is to hold of the whole body.
pub proof fn lemma_fitting_run(job: JobModel, inputs: Seq<Input>)
    requires
        job.steady(),
        job.all_fit(inputs),
    ensures
        job.run(inputs).steady(),
        job.run(inputs).key == job.key,
        job.run(inputs).mode == job.mode,
    decreases inputs.len(),
{
    if inputs.len() > 0 {
        lemma_all_fit_prefix(job, inputs);
        lemma_fitting_run(job, inputs.drop_last());
        let before = job.run(inputs.drop_last());
        let last = inputs.last();
        if before.phase == Phase::Streaming && before.mode == Mode::RawCompressed {
            match (last.event, last.piped) {
                (JobEvent::Chunk { bytes }, Some(Ok(out))) => {
                    assert(out == bytes@);
                },
                (JobEvent::EndOfBody, Some(Ok(out))) => {
                    assert(before.file + out =~= before.file);
                },
                _ => {},
            }
        }
    }
}

/// No success without the whole file: a job that begins afresh and reports
/// success has asked for a file of the archive that holds the whole body,
/// byte for byte where the job does not decompress, and what the decoder
/// makes of the whole body where it does.
pub proof fn lemma_file_is_whole(key: Seq<char>, mode: Mode, inputs: Seq<Input>)
    requires
        inputs.len() > 0,
        JobModel::fresh(key, mode).all_fit(inputs),
        JobModel::fresh(key, mode).actions(inputs).last() == success(key),
    ensures
        JobModel::fresh(key, mode).run(inputs).whole(),
{
    let job = JobModel::fresh(key, mode);
    lemma_all_fit_prefix(job, inputs);
    lemma_fitting_run(job, inputs.drop_last());
    let before = job.run(inputs.drop_last());
    lemma_success_means_written(before, inputs.last().event, inputs.last().piped);
}

/// Decompression fails only on what is no gzip stream: when a job that
/// begins afresh ends with a failure of decompression, it was told the end
/// of a body that is no gzip stream which the decoder accepts, or a piece
/// with which the body cannot become one any more, whatever follows. So a
/// job whose body is such a stream does not fail in decompressing it,
/// however the body is cut into pieces.
pub proof fn lemma_decompression_fails_on_no_gzip(
    key: Seq<char>,
    mode: Mode,
    inputs: Seq<Input>,
    failure: FailureModel,
)
    requires
        inputs.len() > 0,
        JobModel::fresh(key, mode).all_fit(inputs),
        JobModel::fresh(key, mode).actions(inputs).last() == failed(key, failure),
        failure.kind == FailureKind::Decompression,
    ensures
        ({
            let before = JobModel::fresh(key, mode).run(inputs.drop_last());
            match inputs.last().event {
                JobEvent::Chunk { bytes } => no_gzip_begins(before.body + bytes@),
                JobEvent::EndOfBody => expected_file(true, before.body) is None,
                _ => false,
            }
        }),
{
    let job = JobModel::fresh(key, mode);
    lemma_all_fit_prefix(job, inputs);
    lemma_fitting_run(job, inputs.drop_last());
    lemma_decompression_step(
        job.run(inputs.drop_last()),
        inputs.last().event,
        inputs.last().piped,
        failure,
    );
}

/// One step that ends in a failure of decompression is a piece or the end
/// of a body that went through the stage and failed there.
pub proof fn lemma_decompression_step(
    job: JobModel,
    event: JobEvent,
    piped: Option<Piped>,
    failure: FailureModel,
)
    requires
        job.fits(Input { event, piped }),
        job.phase != Phase::Done ==> job.intact,
        react(job, event, piped).1 == failed(job.key, failure),
        failure.kind == FailureKind::Decompression,
    ensures
        match event {
            JobEvent::Chunk { bytes } => no_gzip_begins(job.body + bytes@),
            JobEvent::EndOfBody => expected_file(true, job.body) is None,
            _ => false,
        },
{
    if job.phase == Phase::Streaming && (event is Chunk || event is EndOfBody) {
        assert(needs_pipe(job.phase, event));
        assert(piped is Some);
        assert(pipe_fits(job, event, piped->0));
    } else if job.phase == Phase::ReadingBack && event is Contents {
        assert(needs_pipe(job.phase, event));
        assert(piped is Some);
        assert(pipe_fits(job, event, piped->0));
        assert(transcoded(event->Contents_bytes@, piped->0));
    } else {
        assert(!needs_pipe(job.phase, event));
    }
}

/// In the phase `phase` the event `event` comes in its turn.
pub open spec fn in_turn(phase: Phase, event: JobEvent) -> bool {
    match (phase, event) {
        (Phase::Ready, JobEvent::Start) => true,
        (Phase::Requested, JobEvent::Response { .. }) => true,
        (Phase::Streaming, JobEvent::Chunk { .. }) => true,
        (Phase::Streaming, JobEvent::EndOfBody) => true,
        (Phase::Closing, JobEvent::Closed) => true,
        (Phase::ReadingBack, JobEvent::Contents { .. }) => true,
        (Phase::WritingCsv, JobEvent::Written) => true,
        _ => false,
    }
}

impl JobModel {
    /// Nothing goes wrong at the input `input`: the event comes in its turn,
    /// a response has a status of success, and what came of the bytes is no
    /// failure.
    pub open spec fn goes_well(self, input: Input) -> bool {
        &&& in_turn(self.phase, input.event)
        &&& match input.event {
            JobEvent::Response { status } => is_success(status),
            _ => true,
        }
        &&& needs_pipe(self.phase, input.event) ==> input.piped matches Some(Ok(_))
    }

    /// Nothing goes wrong at any of the inputs of `inputs`.
    pub open spec fn all_go_well(self, inputs: Seq<Input>) -> bool {
        forall|k: int|
            0 <= k < inputs.len() ==> self.run(inputs.take(k)).goes_well(#[trigger] inputs[k])
    }
}

/// A job fails only for a cause among what it is told itself: where nothing
/// goes wrong at a step, the job does not fail at it.
pub proof fn lemma_no_failure_without_cause(job: JobModel, input: Input)
    requires
        job.goes_well(input),
    ensures
        react(job, input.event, input.piped).1 matches ActionModel::Finish { outcome }
            ==> outcome == (OutcomeModel { key: job.key, failure: None }),
{
}

/// A job that is told nothing that goes wrong, of which every step fits,
/// and that comes to its outcome, succeeds, and the file of its archive
/// holds what it is to hold of the whole body.
pub proof fn lemma_good_run_succeeds(key: Seq<char>, mode: Mode, inputs: Seq<Input>)
    requires
        inputs.len() > 0,
        JobModel::fresh(key, mode).all_fit(inputs),
        JobModel::fresh(key, mode).all_go_well(inputs),
        JobModel::fresh(key, mode).actions(inputs).last() is Finish,
    ensures
        JobModel::fresh(key, mode).actions(inputs).last() == success(key),
        JobModel::fresh(key, mode).run(inputs).whole(),
{
    let job = JobModel::fresh(key, mode);
    let front = inputs.drop_last();
    assert(inputs.take(inputs.len() - 1) =~= front);
    assert(inputs.last() == inputs[inputs.len() - 1]);
    lemma_run_prefix(job, front, 0);
    lemma_no_failure_without_cause(job.run(front), inputs.last());
    lemma_file_is_whole(key, mode, inputs);
}

/// A job that is answered with a status that does not tell of success fails
/// with that status, asks for no file to be created, written or read, and
/// asks for nothing more.
pub proof fn lemma_bad_status_ends_the_job(
    key: Seq<char>,
    mode: Mode,
    inputs: Seq<Input>,
    status: u16,
)
    requires
        inputs.len() >= 2,
        inputs[0].event == JobEvent::Start,
        inputs[1].event == (JobEvent::Response { status }),
        !is_success(status),
    ensures
        JobModel::fresh(key, mode).actions(inputs)[1] == failed(
            key,
            plain(FailureKind::BadResponse { status }),
        ),
        JobModel::fresh(key, mode).actions(inputs)[0] is Get,
        forall|k: int|
            2 <= k < inputs.len() ==> (#[trigger] JobModel::fresh(key, mode).actions(inputs)[k])
                == ActionModel::Nothing,
{
    let job = JobModel::fresh(key, mode);
    lemma_run_prefix(job, inputs, 0);
    lemma_run_prefix(job, inputs, 1);
    assert(inputs.take(0) =~= Seq::<Input>::empty());
    assert(inputs.take(1).drop_last() =~= inputs.take(0));
    assert(inputs.take(1).last() == inputs[0]);
    assert(job.run(inputs.take(1)).phase == Phase::Requested);
    assert(job.run(inputs.take(1)).key == key);
    assert forall|k: int| 2 <= k < inputs.len() implies (#[trigger] job.actions(inputs)[k])
        == ActionModel::Nothing by {
        lemma_one_outcome(job, inputs, 1, k);
    }
}

/// One download.
pub struct Job {
    key: String,
    transcoded: bool,
    phase: Phase,
    stage: Stage,
}

impl View for Job {
    type V = JobModel;

    closed spec fn view(&self) -> JobModel {
        JobModel {
            key: self.key@,
            mode: if !self.stage.decompresses() {
                Mode::RawCompressed
            } else if self.transcoded {
                Mode::Transcoded
            } else {
                Mode::RawDecompressed
            },
            phase: self.phase,
            body: self.stage.fed(),
            file: self.stage.handed(),
            intact: self.stage.intact(),
        }
    }
}

/// What came of the bytes, as plain values.
pub open spec fn piped_model(piped: Option<Result<Vec<u8>, Failure>>) -> Option<Piped> {
    match piped {
        None => None,
        Some(Ok(bytes)) => Some(Ok(bytes@)),
        Some(Err(failure)) => Some(Err(failure@)),
    }
}

impl Job {
    /// The job of `key`, before it begins.
    pub fn new(key: String, mode: Mode) -> (job: Job)
        ensures
            job@ == JobModel::fresh(key@, mode),
    {
        let (decompress, transcoded) = match mode {
            Mode::RawCompressed => (false, false),
            Mode::RawDecompressed => (true, false),
            Mode::Transcoded => (true, true),
        };
        Job { key, transcoded, phase: Phase::Ready, stage: Stage::new(decompress) }
    }

    /// What the job does with the bytes it receives.
    pub fn mode(&self) -> (mode: Mode)
        ensures
            mode == self@.mode,
    {
        if !self.stage.is_decompressing() {
            Mode::RawCompressed
        } else if self.transcoded {
            Mode::Transcoded
        } else {
            Mode::RawDecompressed
        }
    }

    /// The key of the job.
    pub fn key(&self) -> (key: &String)
        ensures
            key@ == self@.key,
    {
        &self.key
    }

    /// How far the job has come.
    pub fn phase(&self) -> (phase: Phase)
        ensures
            phase == self@.phase,
    {
        self.phase
    }

    /// The job has given its outcome.
    pub fn is_done(&self) -> (done: bool)
        ensures
            done == (self@.phase == Phase::Done),
    {
        match self.phase {
            Phase::Done => true,
            _ => false,
        }
    }

    fn fail(&mut self, failure: Failure) -> (action: JobAction)
        ensures
            final(self)@ == (JobModel { phase: Phase::Done, ..old(self)@ }),
            action@ == failed(old(self)@.key, failure@),
    {
        self.phase = Phase::Done;
        JobAction::Finish { outcome: Outcome::Failure { key: self.key.clone(), reason: failure } }
    }

    fn succeed(&mut self) -> (action: JobAction)
        ensures
            final(self)@ == (JobModel { phase: Phase::Done, ..old(self)@ }),
            action@ == success(old(self)@.key),
    {
        self.phase = Phase::Done;
        JobAction::Finish { outcome: Outcome::Success { key: self.key.clone() } }
    }

    /// Decides what follows when the job is told `event` and `piped` came of
    /// the bytes that the event brought, if it brought any to hand on.
    pub fn conclude(&mut self, event: JobEvent, piped: Option<Result<Vec<u8>, Failure>>) -> (action:
        JobAction)
        ensures
            final(self)@ == (JobModel {
                phase: react(old(self)@, event, piped_model(piped)).0,
                ..old(self)@
            }),
            action@ == react(old(self)@, event, piped_model(piped)).1,
    {
        if self.is_done() {
            return JobAction::Nothing;
        }
        match event {
            JobEvent::TransportFailed { reason } => {
                return self.fail(Failure { kind: FailureKind::Transport, detail: reason });
            },
            JobEvent::FileFailed { reason } => {
                return self.fail(Failure { kind: FailureKind::Filesystem, detail: reason });
            },
            _ => {},
        }
        match (self.phase, event, piped) {
            (Phase::Ready, JobEvent::Start, _) => {
                self.phase = Phase::Requested;
                JobAction::Get { url: download_url(self.key.as_str()) }
            },
            (Phase::Requested, JobEvent::Response { status }, _) => {
                if status_is_success(status) {
                    self.phase = Phase::Streaming;
                    let decompressed = match self.mode() {
                        Mode::RawCompressed => false,
                        _ => true,
                    };
                    JobAction::Create { name: archive_name(self.key.as_str(), decompressed) }
                } else {
                    self.fail(Failure::of_kind(FailureKind::BadResponse { status }))
                }
            },
            (Phase::Streaming, JobEvent::Chunk { bytes }, Some(Ok(out))) => JobAction::Write {
                bytes: out,
            },
            (Phase::Streaming, JobEvent::EndOfBody, Some(Ok(out))) => {
                self.phase = Phase::Closing;
                JobAction::Close { last: out }
            },
            (Phase::Closing, JobEvent::Closed, _) => {
                match self.mode() {
                    Mode::Transcoded => {
                        self.phase = Phase::ReadingBack;
                        JobAction::ReadBack { name: archive_name(self.key.as_str(), true) }
                    },
                    _ => self.succeed(),
                }
            },
            (Phase::ReadingBack, JobEvent::Contents { bytes }, Some(Ok(out))) => {
                self.phase = Phase::WritingCsv;
                JobAction::WriteFile { name: csv_name(self.key.as_str()), bytes: out }
            },
            (Phase::WritingCsv, JobEvent::Written, _) => self.succeed(),
            (phase, event, Some(Err(failure))) => {
                let piping = match (phase, &event) {
                    (Phase::Streaming, JobEvent::Chunk { .. }) => true,
                    (Phase::Streaming, JobEvent::EndOfBody) => true,
                    (Phase::ReadingBack, JobEvent::Contents { .. }) => true,
                    _ => false,
                };
                if piping {
                    self.fail(failure)
                } else {
                    self.fail(Failure::of_kind(FailureKind::OutOfTurn))
                }
            },
            _ => self.fail(Failure::of_kind(FailureKind::OutOfTurn)),
        }
    }

    /// Tells the job what happened and asks it what to do next. Bytes of the
    /// body go through the stage of the job, the bytes of the file that was
    /// read again go through the transcoding, and the job decides on what
    /// comes of them.
    pub fn step(&mut self, event: JobEvent) -> (action: JobAction)
        ensures
            final(self)@.key == old(self)@.key,
            final(self)@.mode == old(self)@.mode,
            !needs_pipe(old(self)@.phase, event) ==> final(self)@ == old(self)@.after(event, None)
                && action@ == react(old(self)@, event, None).1,
            needs_pipe(old(self)@.phase, event) ==> exists|piped: Piped|
                {
                    &&& pipe_fits(old(self)@, event, piped)
                    &&& (final(self)@.phase, action@) == #[trigger] react(
                        old(self)@,
                        event,
                        Some(piped),
                    )
                    &&& piped is Ok ==> final(self)@ == old(self)@.after(event, Some(piped))
                },
    {
        let piped: Option<Result<Vec<u8>, Failure>> = match (self.phase, &event) {
            (Phase::Streaming, JobEvent::Chunk { bytes }) => {
                let r: Result<Vec<u8>, Failure> = match self.stage.write(bytes.as_slice()) {
                    Ok(out) => Ok(out),
                    Err(words) => Err(Failure { kind: FailureKind::Decompression, detail: words }),
                };
                assert(pipe_fits(old(self)@, event, piped_model(Some(r))->0));
                Some(r)
            },
            (Phase::Streaming, JobEvent::EndOfBody) => {
                let r: Result<Vec<u8>, Failure> = match self.stage.finish() {
                    Ok(out) => Ok(out),
                    Err(words) => Err(Failure { kind: FailureKind::Decompression, detail: words }),
                };
                assert(pipe_fits(old(self)@, event, piped_model(Some(r))->0));
                Some(r)
            },
            (Phase::ReadingBack, JobEvent::Contents { bytes }) => {
                let r: Result<Vec<u8>, Failure> = match transcode(bytes.as_slice()) {
                    Ok(out) => Ok(out),
                    Err(e) => Err(Failure::from_transcode(e)),
                };
                assert(pipe_fits(old(self)@, event, piped_model(Some(r))->0));
                Some(r)
            },
            _ => None,
        };
        assert(piped is Some <==> needs_pipe(old(self)@.phase, event));
        let ghost told = event;
        let ghost came = piped_model(piped);
        let ghost mid = self@;
        assert(react(mid, told, came) == react(old(self)@, told, came));
        let action = self.conclude(event, piped);
        proof {
            if needs_pipe(old(self)@.phase, told) {
                let p = came->0;
                assert(pipe_fits(old(self)@, told, p));
                assert((self@.phase, action@) == react(old(self)@, told, Some(p)));
                if p is Ok {
                    assert(self@.body =~= old(self)@.after(told, Some(p)).body);
                    assert(self@.file =~= old(self)@.after(told, Some(p)).file);
                    assert(self@ == old(self)@.after(told, Some(p)));
                }
            } else {
                assert(self@ == old(self)@.after(told, None));
            }
        }
        action
    }
}

} // verus!
