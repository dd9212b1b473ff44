use gm_master::acquire::{
    exe_file_name, fallback_file_name, package_dir_name, temp_file_name, AcquireStage, AcquireStep,
    Acquisition, StepResult,
};
use gm_master::error::AppError;
use gm_master::model::Trainer;

fn trainer(id: &str, name: &str) -> Trainer {
    Trainer {
        id: id.to_string(),
        name: name.to_string(),
        version: "+12 Options".to_string(),
        game_version: "v1.0".to_string(),
        download_url: "https://example.com/t.zip".to_string(),
        description: String::new(),
        thumbnail: String::new(),
        download_count: 3,
        last_update: "01 Jan 2024".to_string(),
    }
}

fn inspected(size: u64, header: &[u8]) -> StepResult {
    StepResult::Inspected { size, header: header.to_vec() }
}

#[test]
fn names_are_derived_from_the_trainer() {
    let t = trainer("elden-ring", "Elden Ring: Trainer?");
    assert_eq!(package_dir_name(&t), "Elden Ring_ Trainer__elden-ring");
    assert_eq!(temp_file_name("elden-ring"), "temp_elden-ring.zip");
    assert_eq!(exe_file_name("elden-ring"), "elden-ring.exe");
    assert_eq!(fallback_file_name("elden-ring"), "unknown_file_elden-ring.bin");
}

#[test]
fn an_empty_payload_fails_and_cleans_up() {
    let mut a = Acquisition::new(trainer("x", "X"));
    let dir = "X_x".to_string();
    let temp = "temp_x.zip".to_string();
    assert_eq!(a.current_step(), AcquireStep::PrepareDirectory { dir: dir.clone(), temp: temp.clone() });
    assert_eq!(
        a.advance(StepResult::Done),
        AcquireStep::Download {
            url: "https://example.com/t.zip".to_string(),
            transfer_id: "x".to_string(),
            temp: temp.clone()
        }
    );
    assert_eq!(a.advance(StepResult::Done), AcquireStep::Inspect { temp: temp.clone() });
    assert_eq!(a.advance(inspected(0, &[])), AcquireStep::Cleanup { dir: dir.clone(), temp: temp.clone() });
    let err = AppError::DownloadError("Failed to create temporary file".to_string());
    assert_eq!(a.advance(StepResult::Done), AcquireStep::Failed { error: err.clone() });
    assert_eq!(a.stage, AcquireStage::Failed(err));
}

#[test]
fn an_archive_is_extracted_and_its_temporary_file_removed() {
    let mut a = Acquisition::new(trainer("z", "Zed"));
    a.advance(StepResult::Done);
    a.advance(StepResult::Done);
    let dir = "Zed_z".to_string();
    let temp = "temp_z.zip".to_string();
    assert_eq!(
        a.advance(inspected(120, &[0x50, 0x4B, 0x03, 0x04])),
        AcquireStep::Extract { temp: temp.clone(), dir: dir.clone() }
    );
    assert_eq!(a.advance(StepResult::Done), AcquireStep::RemoveTemp { temp: temp.clone() });
    assert_eq!(a.advance(StepResult::Done), AcquireStep::WriteMetadata { dir: dir.clone() });
    assert_eq!(a.advance(StepResult::Done), AcquireStep::Finished { dir: dir.clone() });
    assert_eq!(a.advance(StepResult::Done), AcquireStep::Finished { dir });
}

#[test]
fn a_bare_executable_is_moved_under_its_id() {
    let mut a = Acquisition::new(trainer("e", "Exe"));
    a.advance(StepResult::Done);
    a.advance(StepResult::Done);
    assert_eq!(
        a.advance(inspected(4096, &[0x4D, 0x5A, 0x90, 0x00])),
        AcquireStep::MoveInto {
            temp: "temp_e.zip".to_string(),
            dir: "Exe_e".to_string(),
            name: "e.exe".to_string()
        }
    );
    assert_eq!(a.advance(StepResult::Done), AcquireStep::WriteMetadata { dir: "Exe_e".to_string() });
}

#[test]
fn an_unknown_payload_is_copied_when_it_cannot_be_extracted() {
    let mut a = Acquisition::new(trainer("u", "Unk"));
    a.advance(StepResult::Done);
    a.advance(StepResult::Done);
    assert_eq!(
        a.advance(inspected(10, &[1, 2, 3, 4])),
        AcquireStep::Extract { temp: "temp_u.zip".to_string(), dir: "Unk_u".to_string() }
    );
    assert_eq!(
        a.advance(StepResult::Failed(AppError::ZipError("not an archive".to_string()))),
        AcquireStep::CopyInto {
            temp: "temp_u.zip".to_string(),
            dir: "Unk_u".to_string(),
            name: "unknown_file_u.bin".to_string()
        }
    );
    assert_eq!(a.advance(StepResult::Done), AcquireStep::RemoveTemp { temp: "temp_u.zip".to_string() });
}

#[test]
fn a_failed_cleanup_does_not_hide_the_first_error() {
    let mut a = Acquisition::new(trainer("f", "F"));
    a.advance(StepResult::Done);
    let first = AppError::RequestError("connection reset".to_string());
    assert_eq!(
        a.advance(StepResult::Failed(first.clone())),
        AcquireStep::Cleanup { dir: "F_f".to_string(), temp: "temp_f.zip".to_string() }
    );
    let cleanup_error = AppError::IoError("permission denied".to_string());
    assert_eq!(a.advance(StepResult::Failed(cleanup_error)), AcquireStep::Failed { error: first });
}

#[test]
fn a_broken_archive_fails_after_cleanup() {
    let mut a = Acquisition::new(trainer("b", "B"));
    a.advance(StepResult::Done);
    a.advance(StepResult::Done);
    a.advance(inspected(50, &[0x50, 0x4B, 0x03, 0x04]));
    let err = AppError::ZipError("invalid Zip archive".to_string());
    assert_eq!(
        a.advance(StepResult::Failed(err.clone())),
        AcquireStep::Cleanup { dir: "B_b".to_string(), temp: "temp_b.zip".to_string() }
    );
    assert_eq!(a.advance(StepResult::Done), AcquireStep::Failed { error: err });
}

#[test]
fn a_failed_preparation_fails_at_once() {
    let mut a = Acquisition::new(trainer("p", "P"));
    let err = AppError::IoError("read-only".to_string());
    assert_eq!(a.advance(StepResult::Failed(err.clone())), AcquireStep::Failed { error: err });
}

#[test]
fn install_metadata_records_path_and_time() {
    let a = Acquisition::new(trainer("m", "M"));
    let info = a.install_info("/d/M_m".to_string(), "2024-05-01T10:00:00+08:00".to_string());
    assert_eq!(info.trainer, trainer("m", "M"));
    assert_eq!(info.install_path, "/d/M_m");
    assert_eq!(info.last_launch_time, None);
    let row = info.to_installed();
    assert_eq!(row.id, "m");
    assert_eq!(row.installed_path, "/d/M_m");
    assert_eq!(row.install_time, "2024-05-01T10:00:00+08:00");
    assert_eq!(row.trainer(), trainer("m", "M"));
}
