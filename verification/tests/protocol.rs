use feo::protocol::{
    end_message, file_message, is_accepted, is_safe_project_name, is_upload_request, lacks_file_path,
    path_stays_below, project_name,
    start_message, upload_message, upload_step, UploadStep, ACCEPT_REPLY, START_REQUEST,
    UPLOAD_REQUEST,
};

#[test]
fn client_messages() {
    assert_eq!(upload_message("robot"), "UPLOAD robot\n");
    assert_eq!(start_message("robot"), "START robot\n");
    assert_eq!(end_message(), "END\n");
    assert_eq!(UPLOAD_REQUEST, "upload");
    assert_eq!(START_REQUEST, "start");
}

#[test]
fn file_message_is_header_then_contents() {
    assert_eq!(file_message("src/main.rs", b"fn main() {}"), b"FILE src/main.rs\nfn main() {}".to_vec());
    assert_eq!(file_message("é", &[0xff]), vec![b'F', b'I', b'L', b'E', b' ', 0xc3, 0xa9, b'\n', 0xff]);
}

#[test]
fn accepted_replies() {
    assert!(is_accepted(b"r"));
    assert!(is_accepted(b"ready"));
    assert!(!is_accepted(b""));
    assert!(!is_accepted(b"no"));
    assert!(is_accepted(ACCEPT_REPLY.as_bytes()));
}

#[test]
fn upload_requests() {
    assert!(is_upload_request("upload"));
    assert!(is_upload_request("  upload\r\n"));
    assert!(is_upload_request("\u{3000}upload\u{a0}"));
    assert!(!is_upload_request("Upload"));
    assert!(!is_upload_request("upload now"));
    assert!(!is_upload_request("start"));
    assert!(!is_upload_request(""));
}

#[test]
fn project_names() {
    assert_eq!(project_name("UPLOAD robot\n"), "robot");
    assert_eq!(project_name("UPLOAD   my robot  \n"), "my robot");
    assert_eq!(project_name("UPLOAD "), "");
    assert_eq!(project_name(&upload_message("arm")), "arm");
}

#[test]
fn end_marker_ends_upload() {
    assert!(matches!(upload_step("END"), UploadStep::End));
}

#[test]
fn end_message_of_client_is_ignored() {
    assert!(matches!(upload_step(&end_message()), UploadStep::Skip));
}

#[test]
fn file_message_is_written() {
    let msg = String::from_utf8(file_message("src/main.rs", b"fn main() {}\n")).unwrap();
    match upload_step(&msg) {
        UploadStep::Write { path, data } => {
            assert_eq!(path, "src/main.rs");
            assert_eq!(data, b"fn main() {}\n".to_vec());
        }
        other => panic!("unexpected step {:?}", other),
    }
}

#[test]
fn path_with_spaces_is_kept_whole() {
    match upload_step("FILE my dir/a b.txt\nxyz") {
        UploadStep::Write { path, data } => {
            assert_eq!(path, "my dir/a b.txt");
            assert_eq!(data, b"xyz".to_vec());
        }
        other => panic!("unexpected step {:?}", other),
    }
}

#[test]
fn empty_contents_are_written() {
    match upload_step("FILE a.txt\n") {
        UploadStep::Write { path, data } => {
            assert_eq!(path, "a.txt");
            assert!(data.is_empty());
        }
        other => panic!("unexpected step {:?}", other),
    }
}

#[test]
fn absolute_paths_are_ignored() {
    assert!(matches!(upload_step("FILE /etc/passwd\nx"), UploadStep::Skip));
    assert!(matches!(upload_step("FILE /\nx"), UploadStep::Skip));
}

#[test]
fn paths_below_project() {
    assert!(path_stays_below("src/main.rs"));
    assert!(path_stays_below("a/./b"));
    assert!(!path_stays_below("/etc/passwd"));
    assert!(!path_stays_below("a/../../b"));
}

#[test]
fn safe_project_names() {
    assert!(is_safe_project_name("robot"));
    assert!(is_safe_project_name("my robot.v2"));
    assert!(!is_safe_project_name("../etc"));
    assert!(!is_safe_project_name("a/b"));
    assert!(!is_safe_project_name("/root"));
    assert!(!is_safe_project_name(".."));
}

#[test]
fn dot_dot_paths_are_ignored() {
    assert!(matches!(upload_step("FILE ../etc/passwd\nx"), UploadStep::Skip));
    assert!(matches!(upload_step("FILE a/..b\nx"), UploadStep::Skip));
}

#[test]
fn other_messages_are_ignored() {
    assert!(matches!(upload_step("no line feed"), UploadStep::Skip));
    assert!(matches!(upload_step("FILEX a\nx"), UploadStep::Skip));
    assert!(matches!(upload_step("FIL a\nx"), UploadStep::Skip));
    assert!(matches!(upload_step("END \n"), UploadStep::Skip));
    assert!(matches!(upload_step(""), UploadStep::Skip));
}

#[test]
fn file_header_without_path_detected() {
    assert!(lacks_file_path("FILE\ncontents"));
    assert!(!lacks_file_path("FILE a\ncontents"));
    assert!(!lacks_file_path("END"));
    assert!(!lacks_file_path("FILE"));
}
