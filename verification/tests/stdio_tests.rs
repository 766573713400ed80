use kakuyomu_dump::stdio::{Fallible, Ignore, Io, Out};


#[test]
fn write_through_a_vector_sink() {
    let mut out: Out<Vec<u8>, Fallible> = Out::new(Vec::new(), Fallible);
    assert!(out.write_str("hello").is_ok());
    assert!(out.write_strn(" world").is_ok());
}

#[test]
fn ignoring_errors_keeps_writing() {
    let out: Out<Vec<u8>, Fallible> = Out::new(Vec::new(), Fallible);
    let mut out: Out<Vec<u8>, Ignore> = out.ignore_errors();
    out.write_str("a");
    out.write_strn("b");
}

#[test]
fn standard_streams_can_be_wrapped() {
    let io = Io::new();
    let mut stdout = io.stdout().ignore_errors();
    stdout.write_strn("stdout is writable");
    let mut stderr = io.stderr();
    assert!(stderr.write_str("").is_ok());
    let stdin = io.stdin();
    assert_eq!(stdin.current_line(), "");
}
