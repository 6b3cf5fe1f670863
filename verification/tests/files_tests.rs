use localsend_core::device::{Device, DeviceType};
use localsend_core::dto::{FileType, RegisterDto};
use localsend_core::files::{dir_entry_name, DirEntry, FileStatus, SendingFile, SendingFiles};
use localsend_core::prompt::PromptUI;
use localsend_core::scanner::{announcement_dto, register_scanned_device};
use localsend_core::send::progress_step;

#[test]
fn add_text_names_by_digest() {
    let mut files = SendingFiles::default();
    let id = files.add_text("hello", true);
    assert_eq!(id.len(), 36);
    assert_eq!(files.len(), 1);
    let dtos = files.to_dto_map();
    assert_eq!(dtos[0].id, id);
    // the MD5 of "hello", as the surrounding tooling computes it
    assert_eq!(dtos[0].file_name, "5d41402abc4b2a76b9719d911017c592.txt");
    assert_eq!(dtos[0].hash, Some("5d41402abc4b2a76b9719d911017c592".to_string()));
    assert_eq!(dtos[0].size, 5);
    assert_eq!(dtos[0].file_type, FileType::Text);
    assert_eq!(dtos[0].preview, Some("hello".to_string()));
    let sf = files.get(&dtos[0].id).unwrap();
    assert_eq!(sf.index, 0);
    assert_eq!(sf.status, FileStatus::Queue);
    assert!(sf.path.is_none());
}

#[test]
fn add_text_without_preview() {
    let mut files = SendingFiles::default();
    files.add_text("some long text", false);
    let dtos = files.to_dto_map();
    assert_eq!(dtos[0].preview, None);
    // byte length, not character count
    let mut files2 = SendingFiles::default();
    files2.add_text("é", true);
    assert_eq!(files2.to_dto_map()[0].size, 2);
}

#[test]
fn add_file_derives_name_and_type() {
    let mut files = SendingFiles::default();
    files.add_file("/home/u/photos/cat.png", 123, None);
    files.add_file("/home/u/clip.mp4", 9, Some("override.pdf".to_string()));
    let dtos = files.to_dto_map();
    assert_eq!(dtos[0].file_name, "cat.png");
    assert_eq!(dtos[0].file_type, FileType::Image);
    assert_eq!(dtos[0].size, 123);
    assert_eq!(dtos[1].file_name, "override.pdf");
    assert_eq!(dtos[1].file_type, FileType::Pdf);
    let sf = files.get(&dtos[0].id).unwrap();
    assert_eq!(sf.path, Some("/home/u/photos/cat.png".to_string()));
    assert_eq!(files.len(), 2);
}

#[test]
fn dir_walk_preserves_top_level_name() {
    // a directory D containing a/b.txt transmits the name D/a/b.txt
    let name = dir_entry_name("/home/u", "/home/u/D/a/b.txt").unwrap();
    assert_eq!(name, "D/a/b.txt");
}

#[test]
fn add_dir_queues_relative_names() {
    let mut files = SendingFiles::default();
    let entries = vec![
        DirEntry { path: "/home/u/D".to_string(), size: 0, is_file: false },
        DirEntry { path: "/home/u/D/a".to_string(), size: 0, is_file: false },
        DirEntry { path: "/home/u/D/a/b.txt".to_string(), size: 7, is_file: true },
        DirEntry { path: "/home/u/D/top.png".to_string(), size: 3, is_file: true },
    ];
    let ids = files.add_dir("/home/u/D", &entries).unwrap();
    // one id drawn per regular file, in walk order
    assert_eq!(ids.len(), 2);
    assert_eq!(files.len(), 2);
    let dtos = files.to_dto_map();
    assert_eq!(dtos[0].file_name, "D/a/b.txt");
    assert_eq!(dtos[0].file_type, FileType::Text);
    assert_eq!(dtos[0].size, 7);
    assert_eq!(dtos[1].file_name, "D/top.png");
    assert_eq!(dtos[1].file_type, FileType::Image);
    assert_eq!(dtos[0].id, ids[0]);
    assert_eq!(dtos[1].id, ids[1]);
}

#[test]
fn update_token_marks_accepted_and_skipped() {
    let mut files = SendingFiles::default();
    files.add_text("one", true);
    files.add_text("two", true);
    let dtos = files.to_dto_map();
    let tokens = vec![(dtos[1].id.clone(), "tok-b".to_string())];
    files.update_token(&tokens);
    assert_eq!(files.get(&dtos[0].id).unwrap().status, FileStatus::Skipped);
    let accepted = files.get(&dtos[1].id).unwrap();
    assert_eq!(accepted.status, FileStatus::Sending);
    assert_eq!(accepted.token, Some("tok-b".to_string()));
}

#[test]
fn duplicate_token_keys_keep_last() {
    // a map with a repeated key stores the later value
    let mut files = SendingFiles::default();
    files.add_text("one", true);
    let dtos = files.to_dto_map();
    let tokens = vec![
        (dtos[0].id.clone(), "tok-early".to_string()),
        (dtos[0].id.clone(), "tok-late".to_string()),
    ];
    files.update_token(&tokens);
    assert_eq!(
        files.get(&dtos[0].id).unwrap().token,
        Some("tok-late".to_string())
    );
}

#[test]
fn to_finish_status_terminalizes() {
    let mut files = SendingFiles::default();
    files.add_text("one", true);
    files.add_text("two", true);
    let dtos = files.to_dto_map();
    files.to_finish_status(&dtos[0].id, true);
    files.to_finish_status(&dtos[1].id, false);
    assert_eq!(files.get(&dtos[0].id).unwrap().status, FileStatus::Finished);
    assert_eq!(files.get(&dtos[1].id).unwrap().status, FileStatus::Failed);
    // an unknown id changes nothing
    files.to_finish_status(&"missing".to_string(), true);
    assert_eq!(files.len(), 2);
}

#[test]
fn sending_file_new_is_queued() {
    let f = localsend_core::dto::FileDto {
        id: "x".to_string(),
        file_name: "x.bin".to_string(),
        size: 1,
        file_type: FileType::Other,
        hash: None,
        preview: None,
    };
    let sf = SendingFile::new(3, f, Some("/p/x.bin".to_string()));
    assert_eq!(sf.index, 3);
    assert_eq!(sf.status, FileStatus::Queue);
    assert!(sf.token.is_none());
}

#[test]
fn progress_positions_monotone_and_capped() {
    let fid = "F".to_string();
    let mut uploaded: u64 = 0;
    let mut last: u64 = 0;
    // 10 MiB file, 4 MiB chunks: 4, 8, 10 (capped), finish only at the end
    let size: u64 = 10 * 1024 * 1024;
    let chunk: u64 = 4 * 1024 * 1024;
    for expected in [chunk, 2 * chunk, size] {
        let p = progress_step(&fid, uploaded, chunk, size);
        assert_eq!(p.position, expected.min(size));
        assert!(p.position >= last);
        assert_eq!(p.finish, p.position >= size);
        last = p.position;
        uploaded = p.position;
    }
    assert_eq!(last, size);
}

fn datagram(fingerprint: &str, alias: &str) -> RegisterDto {
    RegisterDto {
        alias: alias.to_string(),
        version: Some("2.0".to_string()),
        device_model: None,
        device_type: Some(DeviceType::Mobile),
        fingerprint: fingerprint.to_string(),
        port: Some(53317),
        protocol: None,
        download: None,
    }
}

#[test]
fn scanner_filters_self_and_duplicates() {
    let own = "own-fp".to_string();
    let mut devices: Vec<Device> = Vec::new();
    // our own announcement comes back: dropped
    assert!(!register_scanned_device(
        &mut devices,
        &own,
        datagram("own-fp", "me"),
        "192.168.1.5".to_string(),
        53317,
    ));
    assert_eq!(devices.len(), 0);
    // a peer is collected once
    assert!(register_scanned_device(
        &mut devices,
        &own,
        datagram("peer-1", "phone"),
        "192.168.1.7".to_string(),
        40000,
    ));
    assert!(!register_scanned_device(
        &mut devices,
        &own,
        datagram("peer-1", "phone"),
        "192.168.1.7".to_string(),
        40000,
    ));
    assert_eq!(devices.len(), 1);
    assert_eq!(devices[0].fingerprint, "peer-1");
    assert_eq!(devices[0].ip, "192.168.1.7");
    assert_eq!(devices[0].port, 53317);
    // a different peer is appended
    assert!(register_scanned_device(
        &mut devices,
        &own,
        datagram("peer-2", "tablet"),
        "192.168.1.8".to_string(),
        40001,
    ));
    assert_eq!(devices.len(), 2);
}

#[test]
fn announcement_is_v2_headless() {
    let device = Device {
        ip: "192.168.1.5".to_string(),
        version: "2.0".to_string(),
        port: 53318,
        https: false,
        fingerprint: "own-fp".to_string(),
        alias: "desk".to_string(),
        device_model: Some("Linux".to_string()),
        device_type: DeviceType::Headless,
        download: false,
    };
    let dto = announcement_dto(&device, 53318);
    assert_eq!(dto.alias, "desk");
    assert_eq!(dto.version, Some("2.0".to_string()));
    assert_eq!(dto.device_type, Some(DeviceType::Headless));
    assert_eq!(dto.port, Some(53318));
    // both flags populated, for mixed networks
    assert_eq!(dto.announcement, Some(true));
    assert_eq!(dto.announce, Some(true));
}

#[test]
fn prompt_icons_and_names() {
    let ui = PromptUI::default();
    assert!(ui.use_nerd_fonts);
    let f = localsend_core::dto::FileDto {
        id: "x".to_string(),
        file_name: "x.png".to_string(),
        size: 1,
        file_type: FileType::Image,
        hash: None,
        preview: None,
    };
    assert_eq!(ui.file_name(&f), format!("{} x.png", ui.file_icon(&FileType::Image)));
    let plain = PromptUI { use_nerd_fonts: false };
    assert_eq!(plain.file_icon(&FileType::Image), "");
    assert_eq!(plain.file_name(&f), " x.png");
}

#[test]
fn device_model_is_platform_name() {
    assert_eq!(localsend_core::device::device_model(), "Linux");
}
