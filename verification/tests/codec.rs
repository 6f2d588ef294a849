use lspterm::codec::{feed, frame, header_line, recv_frame, start, FrameError, HeaderLine, HeaderStep, Received};
use lspterm::decimal::{read_decimal, write_decimal};

#[test]
fn decimal_of_zero_is_one_digit() {
    assert_eq!(write_decimal(0), b"0".to_vec());
}

#[test]
fn decimal_writes_most_significant_digit_first() {
    assert_eq!(write_decimal(1203), b"1203".to_vec());
    assert_eq!(write_decimal(10), b"10".to_vec());
    assert_eq!(write_decimal(9), b"9".to_vec());
}

#[test]
fn decimal_reads_what_it_wrote() {
    for n in [0usize, 7, 10, 99, 100, 65535, usize::MAX] {
        let text = write_decimal(n);
        assert_eq!(read_decimal(&text, 0, text.len()), Some(n));
    }
}

#[test]
fn decimal_rejects_empty_and_foreign_bytes() {
    assert_eq!(read_decimal(b"", 0, 0), None);
    assert_eq!(read_decimal(b"12a", 0, 3), None);
    assert_eq!(read_decimal(b"-1", 0, 2), None);
    assert_eq!(read_decimal(b"12a", 0, 2), Some(12));
}

#[test]
fn decimal_rejects_overflow() {
    let mut text = write_decimal(usize::MAX);
    text.push(b'0');
    assert_eq!(read_decimal(&text, 0, text.len()), None);
    assert_eq!(read_decimal(b"99999999999999999999999999", 0, 26), None);
}

#[test]
fn frame_is_header_blank_line_body() {
    assert_eq!(frame(b"{}"), b"Content-Length: 2\r\n\r\n{}".to_vec());
    assert_eq!(frame(b""), b"Content-Length: 0\r\n\r\n".to_vec());
}

#[test]
fn frame_counts_bytes_not_characters() {
    let body = "\"\u{e9}\"".as_bytes();
    assert_eq!(body.len(), 4);
    assert_eq!(frame(body), b"Content-Length: 4\r\n\r\n\"\xc3\xa9\"".to_vec());
}

#[test]
fn header_line_blank_ends_the_block() {
    assert_eq!(header_line(b"\r\n"), HeaderLine::End);
}

#[test]
fn header_line_name_is_case_insensitive() {
    assert_eq!(header_line(b"Content-Length: 12\r\n"), HeaderLine::ContentLength(12));
    assert_eq!(header_line(b"content-length: 12\r\n"), HeaderLine::ContentLength(12));
    assert_eq!(header_line(b"CONTENT-LENGTH:12\r\n"), HeaderLine::ContentLength(12));
}

#[test]
fn header_line_value_is_trimmed_and_may_carry_a_plus() {
    assert_eq!(header_line(b"Content-Length: \t +7 \r\n"), HeaderLine::ContentLength(7));
    assert_eq!(header_line("Content-Length:\u{a0}7\u{3000}\r\n".as_bytes()), HeaderLine::ContentLength(7));
    assert_eq!(header_line(b"Content-Length: 007\r\n"), HeaderLine::ContentLength(7));
}

#[test]
fn header_line_other_headers_are_skipped() {
    assert_eq!(header_line(b"Content-Type: application/json\r\n"), HeaderLine::Other);
    assert_eq!(header_line(b"Content-Lengthy: 3\r\n"), HeaderLine::Other);
}

#[test]
fn header_line_errors() {
    assert_eq!(header_line(b"no colon here\r\n"), HeaderLine::Invalid(FrameError::HeaderWithoutColon));
    assert_eq!(header_line(b"\n"), HeaderLine::Invalid(FrameError::HeaderWithoutColon));
    assert_eq!(header_line(b"Content-Length: twelve\r\n"), HeaderLine::Invalid(FrameError::BadLength));
    assert_eq!(header_line(b"Content-Length: \r\n"), HeaderLine::Invalid(FrameError::BadLength));
    assert_eq!(header_line(b"Content-Length: -1\r\n"), HeaderLine::Invalid(FrameError::BadLength));
    assert_eq!(header_line(b"Content-Length: 1 2\r\n"), HeaderLine::Invalid(FrameError::BadLength));
    assert_eq!(header_line(b"Content-Length: \xff\r\n"), HeaderLine::Invalid(FrameError::HeaderNotText));
}

#[test]
fn recv_frame_round_trip() {
    for body in [&b""[..], &b"{}"[..], &b"{\"jsonrpc\":\"2.0\",\"method\":\"x\"}"[..], &b"\r\n\r\nContent-Length: 3\r\n"[..]] {
        let bytes = frame(body);
        assert_eq!(recv_frame(&bytes, 0), Received::Frame { body: body.to_vec(), next: bytes.len() });
    }
}

#[test]
fn recv_frame_reads_frames_one_after_the_other() {
    let mut stream = frame(b"first");
    let second_at = stream.len();
    stream.extend_from_slice(&frame(b"second!"));
    assert_eq!(recv_frame(&stream, 0), Received::Frame { body: b"first".to_vec(), next: second_at });
    assert_eq!(recv_frame(&stream, second_at), Received::Frame { body: b"second!".to_vec(), next: stream.len() });
    assert_eq!(recv_frame(&stream, stream.len()), Received::EndOfStream);
}

#[test]
fn recv_frame_end_of_stream_only_before_the_first_header() {
    assert_eq!(recv_frame(b"", 0), Received::EndOfStream);
    assert_eq!(recv_frame(b"Content-Length: 2\r\n", 0), Received::Failed(FrameError::TruncatedHeader));
    assert_eq!(recv_frame(b"Content-Length: 2", 0), Received::Failed(FrameError::TruncatedHeader));
}

#[test]
fn recv_frame_errors() {
    assert_eq!(recv_frame(b"\r\n{}", 0), Received::Failed(FrameError::MissingLength));
    assert_eq!(recv_frame(b"X: 1\r\n\r\n{}", 0), Received::Failed(FrameError::MissingLength));
    assert_eq!(recv_frame(b"Content-Length: 5\r\n\r\n{}", 0), Received::Failed(FrameError::TruncatedBody));
    assert_eq!(recv_frame(b"Content-Length 5\r\n\r\n", 0), Received::Failed(FrameError::HeaderWithoutColon));
    assert_eq!(recv_frame(b"Content-Length: x\r\n\r\n", 0), Received::Failed(FrameError::BadLength));
    assert_eq!(recv_frame(b"\xc3: 1\r\n\r\n", 0), Received::Failed(FrameError::HeaderNotText));
}

#[test]
fn recv_frame_last_length_wins_and_other_headers_pass() {
    let stream = b"Content-Length: 1\r\nContent-Type: x\r\ncontent-length: 2\r\n\r\nabc";
    assert_eq!(recv_frame(stream, 0), Received::Frame { body: b"ab".to_vec(), next: stream.len() - 1 });
}

#[test]
fn feed_follows_the_lines_of_a_header_block() {
    let state = start();
    assert_eq!(state.length, None);
    assert!(state.fresh);
    let HeaderStep::More(state) = feed(state, b"Content-Length: 4\r\n") else {
        panic!("the header block goes on");
    };
    assert_eq!(state.length, Some(4));
    assert!(!state.fresh);
    assert_eq!(feed(state, b"\r\n"), HeaderStep::Body(4));
    assert_eq!(feed(state, b""), HeaderStep::Failed(FrameError::TruncatedHeader));
    assert_eq!(feed(start(), b""), HeaderStep::EndOfStream);
    assert_eq!(feed(start(), b"\r\n"), HeaderStep::Failed(FrameError::MissingLength));
}
