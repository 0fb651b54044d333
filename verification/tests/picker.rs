use aim_room::picker::{dialog_exit, selected_path, DialogExit, PathError};

#[test]
fn dialog_output_must_be_one_absolute_local_path() {
    assert_eq!(
        selected_path(b"/tmp/a scenario.sce\n".to_vec()).expect("path"),
        b"/tmp/a scenario.sce".to_vec()
    );
    for bytes in [
        b"\n".to_vec(),
        b"relative.sce\n".to_vec(),
        b"/tmp/a\n/tmp/b\n".to_vec(),
        b"/tmp/a\0.sce".to_vec(),
        vec![b'a'; 8194],
    ] {
        assert!(selected_path(bytes).is_err());
    }
}

#[test]
fn picker_errors_name_their_reason() {
    assert_eq!(selected_path(Vec::new()), Err(PathError::Invalid));
    assert_eq!(selected_path(b"relative.sce".to_vec()), Err(PathError::NotAbsolute));
    assert_eq!(selected_path(b"/a\0".to_vec()), Err(PathError::Invalid));
    assert_eq!(selected_path(b"/a\n\n".to_vec()), Err(PathError::Invalid));
    assert_eq!(selected_path(b"/a".to_vec()), Ok(b"/a".to_vec()));
    let mut long = vec![b'/'];
    long.extend(vec![b'x'; 8191]);
    assert_eq!(selected_path(long.clone()), Ok(long.clone()));
    long.push(b'x');
    assert_eq!(selected_path(long), Err(PathError::Invalid));
    assert_eq!(PathError::Invalid.message(), "File picker returned an invalid path");
    assert_eq!(
        PathError::NotAbsolute.message(),
        "File picker must return a local absolute path"
    );
}

#[test]
fn dialog_cancel_and_empty_success_are_distinct() {
    // `false` exits with code 1 and `true` with code 0, both printing nothing.
    for (code, success, cancelled) in [(Some(1), false, true), (Some(0), true, false)] {
        let exit = dialog_exit(code, success);
        if cancelled {
            assert_eq!(exit, DialogExit::Cancelled);
        } else {
            assert_eq!(exit, DialogExit::Chosen);
            assert_eq!(selected_path(Vec::new()), Err(PathError::Invalid));
        }
    }
}

#[test]
fn dialog_failures_are_errors() {
    assert_eq!(dialog_exit(Some(2), false), DialogExit::Failed);
    assert_eq!(dialog_exit(None, false), DialogExit::Failed);
}
