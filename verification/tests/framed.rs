use http_framed::codec::HttpCodec;
use http_framed::error::{Error, ParseError};
use http_framed::framed::{CloseStep, FlushStep, HttpFramed, Next, Readiness, INITIAL_CAPACITY};
use http_framed::message::{Request, Response};

const TWO: &[u8] = b"GET /a HTTP/1.1\r\nHost: x\r\n\r\nGET /b HTTP/1.1\r\nHost: y\r\nA: b\r\n\r\n";

fn feed(framed: &mut HttpFramed<HttpCodec>, bytes: &[u8]) {
    assert!(bytes.len() <= INITIAL_CAPACITY);
    framed.scratch()[..bytes.len()].copy_from_slice(bytes);
    framed.filled(bytes.len());
}

fn drain(framed: &mut HttpFramed<HttpCodec>, chunks: &[&[u8]]) -> (Vec<Request>, Option<Error>) {
    let mut frames = Vec::new();
    let mut next_chunk = 0;
    loop {
        match framed.poll_next() {
            Next::Frame(request) => frames.push(request),
            Next::End => return (frames, None),
            Next::Failed(e) => return (frames, Some(e)),
            Next::Read => {
                if next_chunk < chunks.len() {
                    feed(framed, chunks[next_chunk]);
                    next_chunk += 1;
                } else {
                    feed(framed, &[]);
                }
            }
        }
    }
}

#[test]
fn new_connection_asks_for_a_read() {
    let mut framed = HttpFramed::new(HttpCodec);
    assert_eq!(framed.poll_next(), Next::Read);
    assert_eq!(framed.poll_ready(), Readiness::Ready);
    assert_eq!(framed.poll_flush(), FlushStep::FlushStream);
    assert_eq!(framed.poll_close(), CloseStep::Close);
    assert!(framed.pending().is_empty());
    assert_eq!(INITIAL_CAPACITY, 8192);
}

#[test]
fn pipelined_frames_come_without_a_read() {
    let mut framed = HttpFramed::new(HttpCodec);
    assert_eq!(framed.poll_next(), Next::Read);
    feed(&mut framed, TWO);
    match framed.poll_next() {
        Next::Frame(request) => assert_eq!(request.target, b"/a".to_vec()),
        other => panic!("{:?}", other),
    }
    match framed.poll_next() {
        Next::Frame(request) => {
            assert_eq!(request.target, b"/b".to_vec());
            assert_eq!(request.headers.len(), 2);
        }
        other => panic!("{:?}", other),
    }
    assert_eq!(framed.poll_next(), Next::Read);
}

#[test]
fn split_stream_gives_same_frames_as_whole() {
    let mut whole = HttpFramed::new(HttpCodec);
    let (want, end) = drain(&mut whole, &[TWO]);
    assert_eq!(end, None);
    assert_eq!(want.len(), 2);

    let singles: Vec<&[u8]> = TWO.chunks(1).collect();
    let mut bytewise = HttpFramed::new(HttpCodec);
    assert_eq!(drain(&mut bytewise, &singles), (want.clone(), None));

    for cut in 1..TWO.len() {
        let mut framed = HttpFramed::new(HttpCodec);
        assert_eq!(drain(&mut framed, &[&TWO[..cut], &TWO[cut..]]), (want.clone(), None));
    }
}

#[test]
fn end_of_stream_with_empty_buffer_is_clean() {
    let mut framed = HttpFramed::new(HttpCodec);
    assert_eq!(framed.poll_next(), Next::Read);
    feed(&mut framed, &[]);
    assert_eq!(framed.poll_next(), Next::End);
    assert_eq!(framed.poll_next(), Next::End);
}

#[test]
fn end_of_stream_in_mid_frame_is_trailing_bytes() {
    let mut framed = HttpFramed::new(HttpCodec);
    let (frames, end) = drain(&mut framed, &[&TWO[..40]]);
    assert_eq!(frames.len(), 1);
    assert_eq!(end, Some(Error::TrailingBytes));
}

#[test]
fn end_of_stream_drains_buffered_frames_first() {
    let mut framed = HttpFramed::new(HttpCodec);
    feed(&mut framed, TWO);
    feed(&mut framed, &[]);
    assert!(matches!(framed.poll_next(), Next::Frame(_)));
    assert!(matches!(framed.poll_next(), Next::Frame(_)));
    assert_eq!(framed.poll_next(), Next::End);
}

#[test]
fn parse_failure_is_handed_on() {
    let mut framed = HttpFramed::new(HttpCodec);
    feed(&mut framed, b"GET / HTTP/1.0\r\n\r\n");
    assert_eq!(framed.poll_next(), Next::Failed(Error::Parse(ParseError::UnsupportedVersion)));
}

#[test]
fn start_send_buffers_without_writing() {
    let mut framed = HttpFramed::new(HttpCodec);
    assert_eq!(framed.start_send(Response::new(200, b"hi".to_vec())), Ok(()));
    assert!(framed.pending().starts_with(b"HTTP/1.1 200 OK\r\n"));
    assert!(framed.pending().ends_with(b"\r\n\r\nhi"));
    assert_eq!(framed.poll_flush(), FlushStep::Write);
    assert_eq!(framed.poll_close(), CloseStep::Write);
    assert_eq!(framed.poll_ready(), Readiness::Ready);
}

#[test]
fn start_send_refuses_unknown_status() {
    let mut framed = HttpFramed::new(HttpCodec);
    assert_eq!(framed.start_send(Response::new(799, vec![])), Err(Error::UnknownStatus));
    assert!(framed.pending().is_empty());
}

#[test]
fn backpressure_after_boundary_is_passed() {
    let mut framed = HttpFramed::new(HttpCodec);
    let mut sent = 0;
    while framed.pending().len() <= 8192 {
        assert_eq!(framed.poll_ready(), Readiness::Ready);
        assert_eq!(framed.start_send(Response::new(200, vec![b'x'; 3000])), Ok(()));
        sent += 1;
    }
    assert_eq!(sent, 3);
    assert_eq!(framed.poll_ready(), Readiness::MustFlush);
    assert_eq!(framed.start_send(Response::new(200, vec![])), Ok(()));
    assert_eq!(framed.poll_ready(), Readiness::MustFlush);
    let waiting = framed.pending().len();
    assert_eq!(framed.wrote(waiting - 8192), Ok(()));
    assert_eq!(framed.pending().len(), 8192);
    assert_eq!(framed.poll_ready(), Readiness::Ready);
}

#[test]
fn partial_writes_advance_by_what_was_written() {
    let mut framed = HttpFramed::new(HttpCodec);
    assert_eq!(framed.start_send(Response::new(200, b"0123456789".to_vec())), Ok(()));
    let all = framed.pending().to_vec();
    assert_eq!(framed.wrote(7), Ok(()));
    assert_eq!(framed.pending(), &all[7..]);
    assert_eq!(framed.poll_flush(), FlushStep::Write);
    assert_eq!(framed.wrote(all.len() - 7), Ok(()));
    assert!(framed.pending().is_empty());
    assert_eq!(framed.poll_flush(), FlushStep::FlushStream);
    assert_eq!(framed.poll_close(), CloseStep::Close);
}

#[test]
fn zero_byte_write_with_pending_bytes_is_broken_connection() {
    let mut framed = HttpFramed::new(HttpCodec);
    assert_eq!(framed.start_send(Response::new(200, b"x".to_vec())), Ok(()));
    let waiting = framed.pending().len();
    assert_eq!(framed.wrote(0), Err(Error::BrokenConnection));
    assert_eq!(framed.pending().len(), waiting);
}

#[test]
fn zero_byte_write_with_nothing_pending_is_no_error() {
    let mut framed = HttpFramed::new(HttpCodec);
    assert_eq!(framed.wrote(0), Ok(()));
}

#[test]
fn scratch_chunk_has_fixed_size_and_is_reused() {
    let mut framed = HttpFramed::new(HttpCodec);
    assert_eq!(framed.scratch().len(), 8192);
    feed(&mut framed, b"GET /a HTTP/1.1\r\n\r\nGET /b");
    feed(&mut framed, b" HTTP/1.1\r\n\r\n");
    match framed.poll_next() {
        Next::Frame(request) => assert_eq!(request.target, b"/a".to_vec()),
        other => panic!("{:?}", other),
    }
    match framed.poll_next() {
        Next::Frame(request) => assert_eq!(request.target, b"/b".to_vec()),
        other => panic!("{:?}", other),
    }
    assert_eq!(framed.poll_next(), Next::Read);
}

#[test]
fn full_chunk_of_header_bytes_is_taken_in() {
    let mut text = b"GET / HTTP/1.1\r\nX-Long: ".to_vec();
    text.resize(8190, b'a');
    text.extend_from_slice(b"\r\n");
    assert_eq!(text.len(), 8192);
    let mut framed = HttpFramed::new(HttpCodec);
    feed(&mut framed, &text);
    assert_eq!(framed.poll_next(), Next::Read);
    feed(&mut framed, b"\r\n");
    match framed.poll_next() {
        Next::Frame(request) => {
            assert_eq!(request.headers.len(), 1);
            assert_eq!(request.headers[0].value.len(), 8190 - 24);
        }
        other => panic!("{:?}", other),
    }
}
