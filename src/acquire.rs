//! Acquiring one trainer: the steps from download to installed directory, as
//! a machine that says which step to take next and, on any failure, cleans
//! up before it reports the first error.
use vstd::prelude::*;
use crate::clock::local_now_rfc3339;
use crate::error::AppError;
use crate::model::{Trainer, TrainerInstallInfo};
use crate::sanitize::{sanitize_filename, sanitized};
use crate::sniff::{has_exe_magic, has_zip_magic, is_exe_file, is_zip_file};

verus! {

/// Name of the metadata file written into each package directory.
pub const METADATA_FILE: &'static str = "trainer.json";

/// The package directory of a trainer: its sanitised name, `_`, its id.
pub open spec fn package_dir_of(name: Seq<char>, id: Seq<char>) -> Seq<char> {
    sanitized(name) + "_"@ + id
}

/// The temporary file a trainer's payload is streamed into.
pub open spec fn temp_file_of(id: Seq<char>) -> Seq<char> {
    "temp_"@ + id + ".zip"@
}

/// The name a bare executable payload is stored under.
pub open spec fn exe_file_of(id: Seq<char>) -> Seq<char> {
    id + ".exe"@
}

/// The name an unrecognised payload is stored under when it is no archive.
pub open spec fn fallback_file_of(id: Seq<char>) -> Seq<char> {
    "unknown_file_"@ + id + ".bin"@
}

/// The detail of the error for an empty or missing payload.
pub open spec fn empty_payload_detail() -> Seq<char> {
    "Failed to create temporary file"@
}

/// The package directory name for `trainer`.
pub fn package_dir_name(trainer: &Trainer) -> (r: String)
    ensures
        r@ == package_dir_of(trainer.name@, trainer.id@),
{
    sanitize_filename(trainer.name.as_str()).concat("_").concat(trainer.id.as_str())
}

/// The temporary file name for the trainer with id `id`.
pub fn temp_file_name(id: &str) -> (r: String)
    ensures
        r@ == temp_file_of(id@),
{
    String::from_str("temp_").concat(id).concat(".zip")
}

/// The file name for a bare executable of the trainer with id `id`.
pub fn exe_file_name(id: &str) -> (r: String)
    ensures
        r@ == exe_file_of(id@),
{
    String::from_str(id).concat(".exe")
}

/// The file name for an unrecognised payload of the trainer with id `id`.
pub fn fallback_file_name(id: &str) -> (r: String)
    ensures
        r@ == fallback_file_of(id@),
{
    String::from_str("unknown_file_").concat(id).concat(".bin")
}

/// Where an acquisition stands.
#[derive(Clone, Debug, PartialEq, Eq)]
pub enum AcquireStage {
    /// Replacing any earlier package directory with an empty one.
    Preparing,
    /// Streaming the payload into the temporary file.
    Downloading,
    /// Reading the temporary file's size and leading bytes.
    Inspecting,
    /// Extracting the payload; `fallback` when it was not recognised.
    Extracting { fallback: bool },
    /// Moving a bare executable into the package directory.
    Moving,
    /// Copying an unrecognised payload into the package directory.
    Copying,
    /// Deleting the temporary file.
    RemovingTemp,
    /// Writing the metadata file and the installed record.
    WritingMetadata,
    /// Deleting what was created, before reporting the error.
    CleaningUp(AppError),
    Finished,
    Failed(AppError),
}

/// What came of the step last asked for.
#[derive(Clone, Debug, PartialEq, Eq)]
pub enum StepResult {
    Done,
    /// The temporary file's size (0 when it is missing) and its first bytes
    /// (none when it cannot be read).
    Inspected { size: u64, header: Vec<u8> },
    Failed(AppError),
}

/// The next thing to do. Directory and file names are relative to the
/// downloads directory, and file names given with `dir` are inside it.
#[derive(Clone, Debug, PartialEq, Eq)]
pub enum AcquireStep {
    /// Delete `dir` if it exists and create it empty; delete `temp` if it exists.
    PrepareDirectory { dir: String, temp: String },
    /// Stream `url` into `temp`, publishing progress under `transfer_id`.
    Download { url: String, transfer_id: String, temp: String },
    /// Report the size and first four bytes of `temp`.
    Inspect { temp: String },
    /// Extract the archive `temp` into `dir`.
    Extract { temp: String, dir: String },
    /// Move `temp` to `name` inside `dir`.
    MoveInto { temp: String, dir: String, name: String },
    /// Copy `temp` to `name` inside `dir`.
    CopyInto { temp: String, dir: String, name: String },
    /// Delete `temp`.
    RemoveTemp { temp: String },
    /// Write the metadata file into `dir` and record the installation.
    WriteMetadata { dir: String },
    /// Delete `dir` and `temp`, ignoring any failure to do so.
    Cleanup { dir: String, temp: String },
    /// The trainer is installed in `dir`.
    Finished { dir: String },
    /// The acquisition failed with `error`.
    Failed { error: AppError },
}

/// `e` is the error reported for an empty or missing payload.
pub open spec fn is_empty_payload_error(e: AppError) -> bool {
    e is DownloadError && e->DownloadError_0@ == empty_payload_detail()
}

/// `next` is the stage after `stage` once the step that `stage` asked for
/// came out as `ev`. A failure after the directory was prepared leads to
/// clean-up carrying that failure, and clean-up always ends in that failure,
/// whatever came of it.
pub open spec fn advances_to(stage: AcquireStage, ev: StepResult, next: AcquireStage) -> bool {
    match stage {
        AcquireStage::Preparing => match ev {
            StepResult::Failed(e) => next == AcquireStage::Failed(e),
            _ => next == AcquireStage::Downloading,
        },
        AcquireStage::Downloading => match ev {
            StepResult::Failed(e) => next == AcquireStage::CleaningUp(e),
            _ => next == AcquireStage::Inspecting,
        },
        AcquireStage::Inspecting => match ev {
            StepResult::Failed(e) => next == AcquireStage::CleaningUp(e),
            StepResult::Done => next is CleaningUp && is_empty_payload_error(next->CleaningUp_0),
            StepResult::Inspected { size, header } =>
                if size == 0 {
                    next is CleaningUp && is_empty_payload_error(next->CleaningUp_0)
                } else if has_zip_magic(header@) {
                    next == AcquireStage::Extracting { fallback: false }
                } else if has_exe_magic(header@) {
                    next == AcquireStage::Moving
                } else {
                    next == AcquireStage::Extracting { fallback: true }
                },
        },
        AcquireStage::Extracting { fallback } => match ev {
            StepResult::Failed(e) =>
                if fallback { next == AcquireStage::Copying } else { next == AcquireStage::CleaningUp(e) },
            _ => next == AcquireStage::RemovingTemp,
        },
        AcquireStage::Copying => match ev {
            StepResult::Failed(e) => next == AcquireStage::CleaningUp(e),
            _ => next == AcquireStage::RemovingTemp,
        },
        AcquireStage::Moving => match ev {
            StepResult::Failed(e) => next == AcquireStage::CleaningUp(e),
            _ => next == AcquireStage::WritingMetadata,
        },
        AcquireStage::RemovingTemp => match ev {
            StepResult::Failed(e) => next == AcquireStage::CleaningUp(e),
            _ => next == AcquireStage::WritingMetadata,
        },
        AcquireStage::WritingMetadata => match ev {
            StepResult::Failed(e) => next == AcquireStage::CleaningUp(e),
            _ => next == AcquireStage::Finished,
        },
        AcquireStage::CleaningUp(e) => next == AcquireStage::Failed(e),
        AcquireStage::Finished => next == AcquireStage::Finished,
        AcquireStage::Failed(e) => next == AcquireStage::Failed(e),
    }
}

/// The acquisition of one trainer.
#[derive(Clone, Debug)]
pub struct Acquisition {
    pub trainer: Trainer,
    pub dir: String,
    pub temp: String,
    pub stage: AcquireStage,
}

impl Acquisition {
    /// The names are those derived from the trainer.
    pub open spec fn wf(&self) -> bool {
        &&& self.dir@ == package_dir_of(self.trainer.name@, self.trainer.id@)
        &&& self.temp@ == temp_file_of(self.trainer.id@)
    }

    /// `step` is what the stage of this acquisition asks for.
    pub open spec fn asks_for(&self, step: AcquireStep) -> bool {
        match self.stage {
            AcquireStage::Preparing => step == AcquireStep::PrepareDirectory { dir: self.dir, temp: self.temp },
            AcquireStage::Downloading => step == AcquireStep::Download {
                url: self.trainer.download_url,
                transfer_id: self.trainer.id,
                temp: self.temp,
            },
            AcquireStage::Inspecting => step == AcquireStep::Inspect { temp: self.temp },
            AcquireStage::Extracting { .. } => step == AcquireStep::Extract { temp: self.temp, dir: self.dir },
            AcquireStage::Moving => step is MoveInto && step->MoveInto_temp == self.temp
                && step->MoveInto_dir == self.dir && step->MoveInto_name@ == exe_file_of(self.trainer.id@),
            AcquireStage::Copying => step is CopyInto && step->CopyInto_temp == self.temp
                && step->CopyInto_dir == self.dir && step->CopyInto_name@ == fallback_file_of(self.trainer.id@),
            AcquireStage::RemovingTemp => step == AcquireStep::RemoveTemp { temp: self.temp },
            AcquireStage::WritingMetadata => step == AcquireStep::WriteMetadata { dir: self.dir },
            AcquireStage::CleaningUp(_) => step == AcquireStep::Cleanup { dir: self.dir, temp: self.temp },
            AcquireStage::Finished => step == AcquireStep::Finished { dir: self.dir },
            AcquireStage::Failed(e) => step == AcquireStep::Failed { error: e },
        }
    }

    /// Starts acquiring `trainer`.
    pub fn new(trainer: Trainer) -> (r: Acquisition)
        ensures
            r.wf(),
            r.trainer == trainer,
            r.stage == AcquireStage::Preparing,
    {
        let dir = package_dir_name(&trainer);
        let temp = temp_file_name(trainer.id.as_str());
        Acquisition { trainer, dir, temp, stage: AcquireStage::Preparing }
    }

    /// The step that the current stage asks for.
    pub fn current_step(&self) -> (r: AcquireStep)
        ensures
            self.asks_for(r),
    {
        match &self.stage {
            AcquireStage::Preparing => AcquireStep::PrepareDirectory {
                dir: self.dir.clone(),
                temp: self.temp.clone(),
            },
            AcquireStage::Downloading => AcquireStep::Download {
                url: self.trainer.download_url.clone(),
                transfer_id: self.trainer.id.clone(),
                temp: self.temp.clone(),
            },
            AcquireStage::Inspecting => AcquireStep::Inspect { temp: self.temp.clone() },
            AcquireStage::Extracting { .. } => AcquireStep::Extract {
                temp: self.temp.clone(),
                dir: self.dir.clone(),
            },
            AcquireStage::Moving => AcquireStep::MoveInto {
                temp: self.temp.clone(),
                dir: self.dir.clone(),
                name: exe_file_name(self.trainer.id.as_str()),
            },
            AcquireStage::Copying => AcquireStep::CopyInto {
                temp: self.temp.clone(),
                dir: self.dir.clone(),
                name: fallback_file_name(self.trainer.id.as_str()),
            },
            AcquireStage::RemovingTemp => AcquireStep::RemoveTemp { temp: self.temp.clone() },
            AcquireStage::WritingMetadata => AcquireStep::WriteMetadata { dir: self.dir.clone() },
            AcquireStage::CleaningUp(_) => AcquireStep::Cleanup {
                dir: self.dir.clone(),
                temp: self.temp.clone(),
            },
            AcquireStage::Finished => AcquireStep::Finished { dir: self.dir.clone() },
            AcquireStage::Failed(e) => AcquireStep::Failed { error: e.duplicate() },
        }
    }

    /// Takes in what came of the step last asked for, and says what to do next.
    pub fn advance(&mut self, ev: StepResult) -> (r: AcquireStep)
        ensures
            advances_to(old(self).stage, ev, final(self).stage),
            final(self).trainer == old(self).trainer,
            final(self).dir == old(self).dir,
            final(self).temp == old(self).temp,
            final(self).asks_for(r),
    {
        let next = match (&self.stage, ev) {
            (AcquireStage::Preparing, StepResult::Failed(e)) => AcquireStage::Failed(e),
            (AcquireStage::Preparing, _) => AcquireStage::Downloading,
            (AcquireStage::Downloading, StepResult::Failed(e)) => AcquireStage::CleaningUp(e),
            (AcquireStage::Downloading, _) => AcquireStage::Inspecting,
            (AcquireStage::Inspecting, StepResult::Failed(e)) => AcquireStage::CleaningUp(e),
            (AcquireStage::Inspecting, StepResult::Done) => AcquireStage::CleaningUp(empty_payload()),
            (AcquireStage::Inspecting, StepResult::Inspected { size, header }) => {
                if size == 0 {
                    AcquireStage::CleaningUp(empty_payload())
                } else if is_zip_file(header.as_slice()) {
                    AcquireStage::Extracting { fallback: false }
                } else if is_exe_file(header.as_slice()) {
                    AcquireStage::Moving
                } else {
                    AcquireStage::Extracting { fallback: true }
                }
            },
            (AcquireStage::Extracting { fallback }, StepResult::Failed(e)) => {
                if *fallback {
                    AcquireStage::Copying
                } else {
                    AcquireStage::CleaningUp(e)
                }
            },
            (AcquireStage::Extracting { .. }, _) => AcquireStage::RemovingTemp,
            (AcquireStage::Copying, StepResult::Failed(e)) => AcquireStage::CleaningUp(e),
            (AcquireStage::Copying, _) => AcquireStage::RemovingTemp,
            (AcquireStage::Moving, StepResult::Failed(e)) => AcquireStage::CleaningUp(e),
            (AcquireStage::Moving, _) => AcquireStage::WritingMetadata,
            (AcquireStage::RemovingTemp, StepResult::Failed(e)) => AcquireStage::CleaningUp(e),
            (AcquireStage::RemovingTemp, _) => AcquireStage::WritingMetadata,
            (AcquireStage::WritingMetadata, StepResult::Failed(e)) => AcquireStage::CleaningUp(e),
            (AcquireStage::WritingMetadata, _) => AcquireStage::Finished,
            (AcquireStage::CleaningUp(e), _) => AcquireStage::Failed(e.duplicate()),
            (AcquireStage::Finished, _) => AcquireStage::Finished,
            (AcquireStage::Failed(e), _) => AcquireStage::Failed(e.duplicate()),
        };
        self.stage = next;
        self.current_step()
    }

    /// The metadata of this trainer installed at `install_path` at
    /// `install_time`.
    pub fn install_info(&self, install_path: String, install_time: String) -> (r: TrainerInstallInfo)
        ensures
            r.trainer == self.trainer,
            r.install_path == install_path,
            r.install_time == install_time,
            r.last_launch_time is None,
    {
        TrainerInstallInfo::new(self.trainer.duplicate(), install_path, install_time)
    }

    /// The metadata of this trainer installed at `install_path`, stamped with
    /// the local time now.
    pub fn install_info_now(&self, install_path: String) -> (r: TrainerInstallInfo)
        ensures
            r.trainer == self.trainer,
            r.install_path == install_path,
            r.last_launch_time is None,
    {
        self.install_info(install_path, local_now_rfc3339())
    }
}

fn empty_payload() -> (r: AppError)
    ensures
        is_empty_payload_error(r),
{
    AppError::DownloadError(String::from_str("Failed to create temporary file"))
}

/// Whatever came of the clean-up, an acquisition that is cleaning up after a
/// failure reports that failure next.
pub proof fn lemma_first_error_wins(e: AppError, ev: StepResult, next: AcquireStage)
    requires
        advances_to(AcquireStage::CleaningUp(e), ev, next),
    ensures
        next == AcquireStage::Failed(e),
{
}

/// Once the package directory has been prepared, a failed step never ends the
/// acquisition at once: it either falls back (an unrecognised payload that
/// could not be extracted is copied instead) or cleans up carrying that
/// failure.
pub proof fn lemma_failure_cleans_up(stage: AcquireStage, e: AppError, next: AcquireStage)
    requires
        !(stage is Preparing) && !(stage is CleaningUp) && !(stage is Finished) && !(stage is Failed),
        advances_to(stage, StepResult::Failed(e), next),
    ensures
        next == AcquireStage::CleaningUp(e) || (stage == AcquireStage::Extracting { fallback: true }
            && next == AcquireStage::Copying),
{
}

} // verus!
