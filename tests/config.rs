use data_to_byte_array::config::InitialConfig;
use data_to_byte_array::formatting::{
    CppFormatter, FormattingData, OutputSyntax, RawFormatter, RustFormatter,
};

fn args(items: &[&str]) -> Vec<String> {
    items.iter().map(|s| s.to_string()).collect()
}

#[test]
fn no_input_argument_is_an_error() {
    assert!(InitialConfig::new(args(&["prog"])).is_err());
    assert!(InitialConfig::new(args(&[])).is_err());
}

#[test]
fn input_without_syntax_is_raw() {
    let c = InitialConfig::new(args(&["prog", "hello"])).unwrap();
    assert_eq!(c.path_or_data, "hello");
    assert_eq!(c.output_syntax, OutputSyntax::Raw(RawFormatter));
}

#[test]
fn input_with_syntax() {
    let c = InitialConfig::new(args(&["prog", "data.bin", "RUST"])).unwrap();
    assert_eq!(c.path_or_data, "data.bin");
    assert_eq!(c.output_syntax, OutputSyntax::Rust(RustFormatter));
    let c = InitialConfig::new(args(&["prog", "x", "c++", "ignored"])).unwrap();
    assert_eq!(c.output_syntax, OutputSyntax::Cpp(CppFormatter));
}

#[test]
fn missing_and_unknown_syntax_render_alike() {
    let missing = InitialConfig::new(args(&["prog", "AB"])).unwrap();
    let unknown = InitialConfig::new(args(&["prog", "AB", "fortran"])).unwrap();
    let bytes = InitialConfig::get_byte_data(missing.path_or_data.clone(), None);
    let a = FormattingData::new(bytes.clone(), missing.output_syntax).write_to_string();
    let b = FormattingData::new(bytes, unknown.output_syntax).write_to_string();
    assert_eq!(a, b);
    assert_eq!(a, "0x41, 0x42");
}

#[test]
fn literal_input_is_taken_byte_for_byte() {
    assert_eq!(InitialConfig::get_byte_data("hello".to_string(), None), b"hello".to_vec());
    assert_eq!(InitialConfig::get_byte_data("\\x00".to_string(), None), b"\\x00".to_vec());
    assert_eq!(InitialConfig::get_byte_data("é€".to_string(), None), "é€".as_bytes().to_vec());
    assert_eq!(InitialConfig::get_byte_data(String::new(), None), Vec::<u8>::new());
}

#[test]
fn file_contents_are_taken_unchanged() {
    let contents: Vec<u8> = vec![0x00, 0xff, 0x0a, 0x0d, 0x80];
    assert_eq!(
        InitialConfig::get_byte_data("some/file.bin".to_string(), Some(contents.clone())),
        contents
    );
    assert_eq!(
        InitialConfig::get_byte_data("empty.bin".to_string(), Some(vec![])),
        Vec::<u8>::new()
    );
}

#[test]
fn config_description() {
    let c = InitialConfig::new(args(&["prog", "abc", "cxx"])).unwrap();
    assert_eq!(c.to_string(), "path or data: abc\noutput syntax: Cpp\n");
    let d = InitialConfig::default();
    assert_eq!(d.to_string(), "path or data: \noutput syntax: Raw\n");
}
