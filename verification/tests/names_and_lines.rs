use file_slicer::cli::{parse_args, refusal_message, Config, EXIT_FAILURE, EXIT_SUCCESS, MIN_ARGS};
use file_slicer::names::{output_dir_name, slice_file_name};
use file_slicer::report::{
    error_message, success_message, too_small_message, ErrorKind, MIN_FILE_SLICE_SIZE,
};

fn strings(words: &[&str]) -> Vec<String> {
    words.iter().map(|w| w.to_string()).collect()
}

#[test]
fn output_dir_is_the_file_name_with_a_suffix() {
    assert_eq!(output_dir_name("bar.txt"), "bar.txt_sliced");
    assert_eq!(output_dir_name("a"), "a_sliced");
    assert_eq!(output_dir_name(""), "_sliced");
}

#[test]
fn slice_files_are_named_by_number() {
    assert_eq!(slice_file_name(0), "0.bin");
    assert_eq!(slice_file_name(1), "1.bin");
    assert_eq!(slice_file_name(10), "10.bin");
    assert_eq!(slice_file_name(123456), "123456.bin");
    assert_eq!(slice_file_name(u64::MAX), "18446744073709551615.bin");
}

#[test]
fn slice_file_names_differ() {
    let mut names: Vec<String> = (0..500u64).map(slice_file_name).collect();
    names.sort();
    names.dedup();
    assert_eq!(names.len(), 500);
}

#[test]
fn lines_for_each_kind_of_error() {
    assert_eq!(
        error_message(ErrorKind::Usage, "slicer"),
        "Usage: slicer <file_slice_size_in_bytes> <file1_path> <file2_path> ..."
    );
    assert_eq!(error_message(ErrorKind::InvalidSize, "abc"), "'abc' is not a valid file size");
    assert_eq!(
        error_message(ErrorKind::SizeTooSmall, "0"),
        "File slice size must be greater than 1 bytes"
    );
    assert_eq!(
        error_message(ErrorKind::OpenFailure, "no/such"),
        "Failed to open file: 'no/such'"
    );
    assert_eq!(error_message(ErrorKind::InvalidName, ".."), "Invalid file path: '..'");
    assert_eq!(
        error_message(ErrorKind::OutputExists, "bar.txt_sliced"),
        "Path 'bar.txt_sliced' already exists, skipping. Please remove folder to create a new one."
    );
}

#[test]
fn too_small_line_shows_the_limit_given() {
    assert_eq!(
        too_small_message("1,024"),
        "File slice size must be greater than 1,024 bytes"
    );
    assert_eq!(too_small_message(""), "File slice size must be greater than  bytes");
}

#[test]
fn least_slice_size_is_one_byte() {
    assert_eq!(MIN_FILE_SLICE_SIZE, 1);
}

#[test]
fn success_line() {
    assert_eq!(success_message("foo/bar.txt"), "Successfully sliced: 'foo/bar.txt'");
}

#[test]
fn too_few_arguments_are_a_usage_error() {
    assert_eq!(MIN_ARGS, 3);
    assert_eq!(parse_args(&strings(&[])), Err(ErrorKind::Usage));
    assert_eq!(parse_args(&strings(&["slicer"])), Err(ErrorKind::Usage));
    assert_eq!(parse_args(&strings(&["slicer", "1022"])), Err(ErrorKind::Usage));
    assert_eq!(parse_args(&strings(&["slicer", "abc"])), Err(ErrorKind::Usage));
}

#[test]
fn arguments_give_size_and_files() {
    assert_eq!(
        parse_args(&strings(&["slicer", "1022", "a.bin"])),
        Ok(Config { chunk_size: 1022, files: strings(&["a.bin"]) })
    );
    assert_eq!(
        parse_args(&strings(&["slicer", "8", "a.bin", "b/c.txt", "a.bin"])),
        Ok(Config { chunk_size: 8, files: strings(&["a.bin", "b/c.txt", "a.bin"]) })
    );
}

#[test]
fn bad_size_argument_is_refused() {
    assert_eq!(parse_args(&strings(&["slicer", "0", "a.bin"])), Err(ErrorKind::SizeTooSmall));
    assert_eq!(parse_args(&strings(&["slicer", "-5", "a.bin"])), Err(ErrorKind::InvalidSize));
    assert_eq!(parse_args(&strings(&["slicer", "abc", "a.bin"])), Err(ErrorKind::InvalidSize));
}

#[test]
fn refusal_lines() {
    assert_eq!(
        refusal_message(&strings(&["slicer", "10"]), ErrorKind::Usage),
        "Usage: slicer <file_slice_size_in_bytes> <file1_path> <file2_path> ..."
    );
    assert_eq!(
        refusal_message(&strings(&[]), ErrorKind::Usage),
        "Usage:  <file_slice_size_in_bytes> <file1_path> <file2_path> ..."
    );
    assert_eq!(
        refusal_message(&strings(&["slicer", "1o", "f"]), ErrorKind::InvalidSize),
        "'1o' is not a valid file size"
    );
    assert_eq!(
        refusal_message(&strings(&["slicer", "0", "f"]), ErrorKind::SizeTooSmall),
        "File slice size must be greater than 1 bytes"
    );
}

#[test]
fn exit_codes() {
    assert_eq!(EXIT_SUCCESS, 0);
    assert_eq!(EXIT_FAILURE, 1);
}
