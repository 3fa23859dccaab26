//! Many conversions at once: each job has its own outcome, and no job's
//! failure touches another job.

use vstd::prelude::*;
use vstd::string::*;
use crate::progress::{parse_trace, FFmpegProgressError, FFmpegProgressUpdate};
use crate::text::texts_of;
use crate::{
    diagnostic_text_of, execute_ffmpeg_encoding, frame_count_of, get_frame_count_from_file_path,
    EncodingError, FFmpegError, FrameCountError, ProcessOutput,
};

verus! {

/// One conversion to make: from which file, into which file, and with which
/// codec, if the choice is not left to the tool.
#[derive(Debug, Clone, PartialEq, Eq)]
pub struct JobDescriptor {
    pub input: String,
    pub output: String,
    pub codec: Option<String>,
}

impl JobDescriptor {
    /// A copy of the job.
    pub fn duplicate(&self) -> (r: JobDescriptor)
        ensures
            r == *self,
    {
        JobDescriptor {
            input: self.input.clone(),
            output: self.output.clone(),
            codec: match &self.codec {
                Some(codec) => Some(codec.clone()),
                None => None,
            },
        }
    }
}

/// Why the frames of an input could not be counted.
#[derive(Debug, Clone, PartialEq, Eq)]
pub enum ResolutionError {
    /// The counting tool could not be run; the text says why.
    NotStarted(String),
    /// The counting tool printed no frame count.
    Count(FrameCountError),
}

/// Why a job failed.
#[derive(Debug, Clone, PartialEq, Eq)]
pub enum JobError {
    /// The frames of the input could not be counted. The conversion was
    /// never started.
    Resolution(ResolutionError),
    /// The conversion could not be started; the text says why.
    Spawn(String),
    /// The progress stream of the conversion broke the protocol.
    Protocol(FFmpegProgressError),
    /// The process of the conversion did not end well.
    Process(FFmpegError),
}

impl JobError {
    /// The text that describes the failure in full.
    pub open spec fn detail_text(&self) -> Seq<char> {
        match self {
            JobError::Resolution(ResolutionError::NotStarted(reason)) => reason@,
            JobError::Resolution(ResolutionError::Count(_)) => "Could not get frame count"@,
            JobError::Spawn(reason) => reason@,
            JobError::Protocol(error) => error.message_text(),
            JobError::Process(error) => error.message_text(),
        }
    }

    /// Describes the failure in full.
    pub fn detail(&self) -> (r: String)
        ensures
            r@ == self.detail_text(),
    {
        match self {
            JobError::Resolution(ResolutionError::NotStarted(reason)) => reason.clone(),
            JobError::Resolution(ResolutionError::Count(_)) => String::from_str(
                "Could not get frame count",
            ),
            JobError::Spawn(reason) => reason.clone(),
            JobError::Protocol(error) => error.message(),
            JobError::Process(error) => error.message(),
        }
    }
}

/// A job with what became of it.
#[derive(Debug, PartialEq, Eq)]
pub struct JobOutcome {
    pub job: JobDescriptor,
    pub result: Result<(), JobError>,
}

/// What is said of a finished job.
#[derive(Debug, Clone, PartialEq, Eq)]
pub enum JobReport {
    /// The job succeeded: the file that it wrote.
    Converted { output: String },
    /// The job failed: the file that it was to convert, and the failure in
    /// full where that was asked for.
    Failed { input: String, detail: Option<String> },
}

impl JobOutcome {
    /// What is said of the job. The failure is described in full only
    /// where `verbose` is set.
    pub fn report(&self, verbose: bool) -> (r: JobReport)
        ensures
            match self.result {
                Ok(_) => r matches JobReport::Converted { output } && output@ == self.job.output@,
                Err(error) => r matches JobReport::Failed { input, detail } && input@
                    == self.job.input@ && match detail {
                    Some(text) => verbose && text@ == error.detail_text(),
                    None => !verbose,
                },
            },
    {
        match &self.result {
            Ok(_) => JobReport::Converted { output: self.job.output.clone() },
            Err(error) => JobReport::Failed {
                input: self.job.input.clone(),
                detail: if verbose {
                    Some(error.detail())
                } else {
                    None
                },
            },
        }
    }
}

/// The jobs of a batch: one for each input, in order, with the output that
/// stands at the same place, and all with the same codec.
pub fn plan_jobs(
    input_file_paths: &Vec<String>,
    output_file_paths: &Vec<String>,
    codec: &Option<String>,
) -> (r: Vec<JobDescriptor>)
    requires
        input_file_paths.len() == output_file_paths.len(),
    ensures
        r.len() == input_file_paths.len(),
        forall|i: int|
            0 <= i < r.len() ==> (#[trigger] r[i]) == (JobDescriptor {
                input: input_file_paths[i],
                output: output_file_paths[i],
                codec: *codec,
            }),
{
    let mut jobs: Vec<JobDescriptor> = Vec::new();
    let mut i: usize = 0;
    while i < input_file_paths.len()
        invariant
            i <= input_file_paths.len(),
            input_file_paths.len() == output_file_paths.len(),
            jobs.len() == i,
            forall|k: int|
                0 <= k < i ==> (#[trigger] jobs[k]) == (JobDescriptor {
                    input: input_file_paths[k],
                    output: output_file_paths[k],
                    codec: *codec,
                }),
        decreases input_file_paths.len() - i,
    {
        jobs.push(
            JobDescriptor {
                input: input_file_paths[i].clone(),
                output: output_file_paths[i].clone(),
                codec: match codec {
                    Some(codec) => Some(codec.clone()),
                    None => None,
                },
            },
        );
        i += 1;
    }
    jobs
}

/// All that the two processes of one job left behind: what the counting
/// tool printed, and what the conversion did. Each is an error text where
/// the process could not be run.
#[derive(Debug, PartialEq, Eq)]
pub struct JobRecord {
    pub probe: Result<Vec<u8>, String>,
    pub run: Result<ProcessOutput, String>,
}

impl JobRecord {
    /// Whether the frames were counted, so that the conversion is looked
    /// at.
    pub open spec fn is_counted(&self) -> bool {
        self.probe matches Ok(printed) && frame_count_of(printed@) is Ok
    }

    /// The snapshots that the observer of the job receives: those of the
    /// conversion's progress stream, where the frames were counted and the
    /// conversion ran, else none.
    pub open spec fn snapshots(&self) -> Seq<crate::progress::FFmpegProgress> {
        if self.is_counted() && self.run is Ok {
            parse_trace(texts_of(self.run->Ok_0.stdout_lines@)).snapshots
        } else {
            Seq::empty()
        }
    }

    /// Whether `result` is what the record says of the job. The count of
    /// the frames is looked at first, then the start of the conversion,
    /// then its progress stream, then its end.
    pub open spec fn gives(&self, result: Result<(), JobError>) -> bool {
        match self.probe {
            Err(reason) => result matches Err(
                JobError::Resolution(ResolutionError::NotStarted(text)),
            ) && text@ == reason@,
            Ok(printed) => match frame_count_of(printed@) {
                Err(error) => result == Err::<(), JobError>(
                    JobError::Resolution(ResolutionError::Count(error)),
                ),
                Ok(_) => match self.run {
                    Err(reason) => result matches Err(JobError::Spawn(text)) && text@ == reason@,
                    Ok(run) => match parse_trace(texts_of(run.stdout_lines@)).error {
                        Some(error) => result == Err::<(), JobError>(JobError::Protocol(error)),
                        None => if run.status.succeeded() {
                            result is Ok
                        } else {
                            result matches Err(JobError::Process(error)) && error.status
                                == run.status && error.stderr@ == diagnostic_text_of(
                                texts_of(run.stderr_lines@),
                            )
                        },
                    },
                },
            },
        }
    }
}

/// The frame count of a job, from what the counting tool left behind, or
/// the failure of the job where it left no frame count. A job without a
/// frame count is not converted.
pub fn count_frames(probe: &Result<Vec<u8>, String>) -> (r: Result<u64, JobError>)
    ensures
        match *probe {
            Err(reason) => r matches Err(JobError::Resolution(ResolutionError::NotStarted(text)))
                && text@ == reason@,
            Ok(printed) => match frame_count_of(printed@) {
                Ok(count) => r == Ok::<u64, JobError>(count),
                Err(error) => r == Err::<u64, JobError>(
                    JobError::Resolution(ResolutionError::Count(error)),
                ),
            },
        },
{
    match probe {
        Err(reason) => Err(JobError::Resolution(ResolutionError::NotStarted(reason.clone()))),
        Ok(printed) => match get_frame_count_from_file_path(printed.as_slice()) {
            Ok(count) => Ok(count),
            Err(error) => Err(JobError::Resolution(ResolutionError::Count(error))),
        },
    }
}

/// What a conversion that was started says of its job.
pub fn conversion_result(encoding: Result<(), EncodingError>) -> (r: Result<(), JobError>)
    ensures
        match encoding {
            Ok(_) => r is Ok,
            Err(EncodingError::Protocol(error)) => r == Err::<(), JobError>(
                JobError::Protocol(error),
            ),
            Err(EncodingError::Process(error)) => r == Err::<(), JobError>(
                JobError::Process(error),
            ),
        },
{
    match encoding {
        Ok(_) => Ok(()),
        Err(EncodingError::Protocol(error)) => Err(JobError::Protocol(error)),
        Err(EncodingError::Process(error)) => Err(JobError::Process(error)),
    }
}

/// Resolves one job from what its processes left behind. Where the frames
/// could not be counted the job has failed and the conversion is not
/// looked at. Else the snapshots of the conversion go to the observer, and
/// the conversion decides.
pub fn resolve_job<F: FFmpegProgressUpdate>(
    job: &JobDescriptor,
    record: &JobRecord,
    on_progress_update: F,
) -> (r: JobOutcome)
    requires
        forall|i: int|
            0 <= i < record.snapshots().len() ==> call_requires(
                on_progress_update,
                (#[trigger] record.snapshots()[i],),
            ),
    ensures
        r.job == *job,
        record.gives(r.result),
        forall|i: int|
            0 <= i < record.snapshots().len() ==> call_ensures(
                on_progress_update,
                (#[trigger] record.snapshots()[i],),
                (),
            ),
{
    let result = match count_frames(&record.probe) {
        Err(error) => Err(error),
        Ok(_) => match &record.run {
            Err(reason) => Err(JobError::Spawn(reason.clone())),
            Ok(run) => {
                assert(record.snapshots() == parse_trace(texts_of(run.stdout_lines@)).snapshots);
                conversion_result(execute_ffmpeg_encoding(run, on_progress_update))
            },
        },
    };
    JobOutcome { job: job.duplicate(), result }
}

/// Resolves the jobs of a batch, each from its own record and with its own
/// observer. There is one outcome for each job, in the order of the jobs,
/// and each is what the job's own record gives: no job's failure changes
/// what becomes of another.
pub fn resolve_batch<F: FFmpegProgressUpdate>(
    jobs: &Vec<JobDescriptor>,
    records: &Vec<JobRecord>,
    observers: &Vec<F>,
) -> (r: Vec<JobOutcome>)
    requires
        jobs.len() == records.len(),
        jobs.len() == observers.len(),
        forall|j: int, i: int|
            0 <= j < records.len() && 0 <= i < records[j].snapshots().len() ==> call_requires(
                observers[j],
                (#[trigger] records[j].snapshots()[i],),
            ),
    ensures
        r.len() == jobs.len(),
        forall|j: int| 0 <= j < r.len() ==> (#[trigger] r[j]).job == jobs[j],
        forall|j: int| 0 <= j < r.len() ==> records[j].gives((#[trigger] r[j]).result),
        forall|j: int, i: int|
            0 <= j < records.len() && 0 <= i < records[j].snapshots().len() ==> call_ensures(
                observers[j],
                (#[trigger] records[j].snapshots()[i],),
                (),
            ),
{
    let mut outcomes: Vec<JobOutcome> = Vec::new();
    let mut j: usize = 0;
    while j < jobs.len()
        invariant
            j <= jobs.len(),
            jobs.len() == records.len(),
            jobs.len() == observers.len(),
            outcomes.len() == j,
            forall|k: int, i: int|
                0 <= k < records.len() && 0 <= i < records[k].snapshots().len()
                    ==> call_requires(observers[k], (#[trigger] records[k].snapshots()[i],)),
            forall|k: int| 0 <= k < j ==> (#[trigger] outcomes[k]).job == jobs[k],
            forall|k: int| 0 <= k < j ==> records[k].gives((#[trigger] outcomes[k]).result),
            forall|k: int, i: int|
                0 <= k < j && 0 <= i < records[k].snapshots().len() ==> call_ensures(
                    observers[k],
                    (#[trigger] records[k].snapshots()[i],),
                    (),
                ),
        decreases jobs.len() - j,
    {
        let observer = observers[j];
        let outcome = resolve_job(&jobs[j], &records[j], observer);
        outcomes.push(outcome);
        j += 1;
    }
    outcomes
}

} // verus!
