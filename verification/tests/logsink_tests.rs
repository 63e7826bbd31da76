use bp3d_tracing::config::{Color, Config, Console, Mode, Profiler};
use bp3d_tracing::duration::Elapsed;
use bp3d_tracing::level::Level;
use bp3d_tracing::log_msg::{EventLog, SpanLog, LogBuf};
use bp3d_tracing::logsink::{LogMsg, SpanVisitor, format_finish_suffix};
use bp3d_tracing::text::{FixedBufStr, u64_to_decimal};
use bp3d_tracing::deser::{Deserializer, Error};

#[test]
fn decimal_formatting() {
    assert_eq!(u64_to_decimal(0), b"0".to_vec());
    assert_eq!(u64_to_decimal(7), b"7".to_vec());
    assert_eq!(u64_to_decimal(123), b"123".to_vec());
    assert_eq!(u64_to_decimal(18_446_744_073_709_551_615), b"18446744073709551615".to_vec());
}

#[test]
fn finish_suffix_prints_two_decimals() {
    let suffix = format_finish_suffix(&Elapsed::new(2, 500_000_000));
    assert_eq!(suffix, b": span finished in 2.50s".to_vec());
    let tiny = format_finish_suffix(&Elapsed::new(0, 123_000_000));
    assert_eq!(tiny, b": span finished in 0.12s".to_vec());
    let whole = format_finish_suffix(&Elapsed::new(61, 0));
    assert_eq!(whole, b": span finished in 61.00s".to_vec());
}

#[test]
fn span_line_carries_module_name_and_duration() {
    let mut visitor = SpanVisitor::new(
        b"app".to_vec(),
        Level::Info,
        b"work".to_vec(),
        b"inner".to_vec(),
    );
    visitor.record_debug(&b"n".to_vec(), &b"7".to_vec());
    let line = visitor.span_exit(&Elapsed::new(0, 120_000_000));
    assert_eq!(line.text, b"inner: work n=7: span finished in 0.12s".to_vec());
    assert_eq!(line.target, b"app".to_vec());
}

#[test]
fn message_field_becomes_the_body() {
    let mut visitor = SpanVisitor::new(
        b"app".to_vec(),
        Level::Debug,
        b"work".to_vec(),
        b"inner".to_vec(),
    );
    visitor.record_debug(&b"message".to_vec(), &b"hello there".to_vec());
    visitor.record_debug(&b"n".to_vec(), &b"7".to_vec());
    assert_eq!(visitor.msg.text, b"inner: hello there n=7".to_vec());
}

#[test]
fn reset_rebuilds_the_prefix() {
    let mut visitor = SpanVisitor::new(
        b"app".to_vec(),
        Level::Debug,
        b"work".to_vec(),
        b"inner".to_vec(),
    );
    visitor.record_debug(&b"message".to_vec(), &b"x".to_vec());
    visitor.reset();
    assert_eq!(visitor.msg.text, b"inner: ".to_vec());
    assert!(!visitor.message_written);
}

#[test]
fn log_msg_appends() {
    let mut msg = LogMsg::new(b"t".to_vec(), Level::Error);
    msg.append(&b"abc".to_vec());
    msg.append(&b"def".to_vec());
    assert_eq!(msg.text, b"abcdef".to_vec());
}

#[test]
fn fixed_buf_str_truncates() {
    let s = FixedBufStr::<4>::from_str("abcdef");
    assert_eq!(s.bytes(), &b"abcd".to_vec());
    let t = FixedBufStr::<16>::from_str("ab");
    assert_eq!(t.bytes(), &b"ab".to_vec());
    let d = FixedBufStr::<64>::from_debug(&42u32);
    assert_eq!(d.bytes(), &b"42".to_vec());
}

#[test]
fn log_records_truncate_but_keep_length_consistent() {
    // A body past the capacity is cut at the boundary; the assembled bytes
    // match what the buffer really holds.
    let mut log = SpanLog::new(1);
    let big = vec![7u8; 2000];
    log.buf.write_bytes(&big);
    assert_eq!(log.buf.data.len(), 504);
    let bytes = log.as_bytes();
    assert_eq!(bytes.len(), 505);
    assert_eq!(bytes[0], 0);
    let mut event = EventLog::new(None, 0, Level::Info, &b"m".to_vec(), &b"t".to_vec());
    event.buf.write_bytes(&big);
    assert_eq!(event.buf.data.len(), 495);
    assert_eq!(event.as_bytes().len(), 496);
}

#[test]
fn log_buf_capacity_is_exact() {
    let mut buf = LogBuf::new(3);
    buf.write_bytes(&b"abcd".to_vec());
    assert_eq!(buf.data, b"abc".to_vec());
}

#[test]
fn config_defaults() {
    let config = Config::default();
    assert!(matches!(config.get_mode(), Mode::Logger));
    let profiler = Profiler { port: None, max_rows: None, min_period: None };
    assert_eq!(profiler.get_port(), 4026);
    assert_eq!(profiler.get_max_rows(), 1_000_000);
    assert_eq!(profiler.get_min_period(), 200);
    let console = Console { color: None, stderr: None };
    assert!(matches!(console.get_color(), Color::Auto));
    assert!(console.get_stderr());
    let console2 = Console { color: Some(Color::Never), stderr: Some(false) };
    assert!(matches!(console2.get_color(), Color::Never));
    assert!(!console2.get_stderr());
}

#[test]
fn deserializer_pops_bytes() {
    let mut d = Deserializer::new(vec![1, 2, 3]);
    assert_eq!(d.pop_byte().unwrap(), 1);
    assert_eq!(d.pop_bytes(2).unwrap(), vec![2, 3]);
    assert!(matches!(d.pop_byte(), Err(Error::UnexpectedEob)));
    assert!(matches!(d.pop_bytes(1), Err(Error::UnexpectedEob)));
}
