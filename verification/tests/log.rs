use opendisplay::log::RotatingLogFile;

#[test]
fn the_log_names_its_live_and_previous_files_after_the_base_name() {
    let log = RotatingLogFile::new("C:\\Logs".to_string(), "opendisplay", 1024);
    assert_eq!(log.file_name, "opendisplay.log");
    assert_eq!(log.rotated_name, "opendisplay-previous.log");
    assert_eq!(log.directory, "C:\\Logs");
    assert_eq!(log.max_bytes, 1024);
}

#[test]
fn an_append_within_the_cap_does_not_rotate() {
    let log = RotatingLogFile::new("d".to_string(), "opendisplay", 10);
    assert!(!log.should_rotate(0, 8));
    assert!(!log.should_rotate(2, 8));
}

#[test]
fn an_append_past_the_cap_rotates_first() {
    let log = RotatingLogFile::new("d".to_string(), "opendisplay", 10);
    assert!(log.should_rotate(8, 8));
    assert!(log.should_rotate(0, 11));
}

#[test]
fn existing_files_lists_only_the_present_ones_live_first() {
    let log = RotatingLogFile::new("d".to_string(), "windows-core", 5);
    assert!(log.existing_files(false, false).is_empty());
    assert_eq!(log.existing_files(true, false), vec!["windows-core.log".to_string()]);
    assert_eq!(log.existing_files(false, true), vec!["windows-core-previous.log".to_string()]);
    assert_eq!(
        log.existing_files(true, true),
        vec!["windows-core.log".to_string(), "windows-core-previous.log".to_string()]
    );
}

#[test]
fn existing_files_lists_only_files_that_are_actually_present() {
    let log = RotatingLogFile::new("logs".to_string(), "opendisplay", 1024);
    // Nothing written yet: neither file is on disk.
    assert!(log.existing_files(false, false).is_empty(), "nothing written yet");
    // After one append within the cap only the live file exists.
    assert!(!log.should_rotate(0, 5));
    assert_eq!(log.existing_files(true, false), vec!["opendisplay.log".to_string()]);
}

#[test]
fn appends_within_the_cap_keep_both_files_within_it() {
    let log = RotatingLogFile::new("logs".to_string(), "opendisplay", 10);
    let (mut live, mut previous) = (0u64, 0u64);
    for data_len in [4u64, 4, 4, 10, 1, 9, 3, 7, 7, 2] {
        if log.should_rotate(live, data_len) {
            previous = live;
            live = data_len;
        } else {
            live += data_len;
        }
        assert!(live <= 10 && previous <= 10 && live + previous <= 20);
    }
    assert_eq!((live, previous), (9, 10));
}
