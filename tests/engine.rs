use muzzman_http::{
    accept_url, check_written, content_length, creating_connection, decimal_bytes, downloading,
    error, get_buffer_size, get_headers, get_method, get_port, host_name, initialize, parse_decimal,
    parse_response_head, plan_target, remaining_length, request_head, server_name, step_action,
    upload_content_length, uploading, HeadParser, HttpError, Method, ReadOutcome, ResponseMeta,
    StepAction, Task, TaskStatus,
};

fn contains(hay: &[u8], needle: &[u8]) -> bool {
    hay.windows(needle.len()).any(|w| w == needle)
}

/// Feeds `stream` to a head parser until the head ends; returns the parsed
/// head and the bytes after it.
fn read_head(stream: &[u8]) -> (Result<ResponseMeta, HttpError>, Vec<u8>) {
    let mut p = HeadParser::new();
    let mut i = 0;
    while i < stream.len() {
        let done = p.feed(stream[i]);
        i += 1;
        if done {
            break;
        }
    }
    (p.finish(), stream[i..].to_vec())
}

fn negotiated(method: Method, upload: u64, has_body: bool, buffer: usize, head: &[u8]) -> (Task, Vec<u8>) {
    let mut task = Task::new(method, buffer, upload, has_body);
    initialize(&mut task, Ok(()));
    assert_eq!(task.status, TaskStatus::Negotiating);
    let (meta, body) = read_head(head);
    creating_connection(&mut task, meta);
    (task, body)
}

#[test]
fn get_with_content_length_downloads_exactly_the_body() {
    let (mut task, body) = negotiated(
        Method::Get,
        0,
        false,
        8192,
        b"HTTP/1.1 200 OK\r\nContent-Length: 5\r\n\r\nhello",
    );
    let meta = task.response.clone().unwrap();
    assert_eq!(meta.status, 200);
    assert_eq!(meta.reason, b"OK".to_vec());
    assert_eq!(task.status, TaskStatus::Downloading);
    assert_eq!(task.expected, Some(5));
    assert_eq!(body, b"hello".to_vec());
    let budget = task.download_budget();
    assert_eq!(budget, 5);
    let mut sink = Vec::new();
    sink.extend_from_slice(&body[..budget]);
    downloading(&mut task, ReadOutcome::Data(budget));
    assert_eq!(sink, b"hello".to_vec());
    assert_eq!(task.received, 5);
    assert_eq!(task.status, TaskStatus::Completed);
    assert_eq!(task.progress(), 1_000_000);
    assert_eq!(step_action(task.status), StepAction::Stop);
}

#[test]
fn not_found_fails_with_code_and_reason() {
    let (task, _) = negotiated(Method::Get, 0, false, 8192, b"HTTP/1.1 404 Not Found\r\n\r\n");
    assert_eq!(task.status, TaskStatus::Errored);
    assert!(contains(&task.error, b"404"));
    assert!(contains(&task.error, b"Not Found"));
    assert_eq!(task.error, b"Http Error: status: 404 Not Found".to_vec());
    assert!(task.response.is_none());
    assert_eq!(task.received, 0);
    assert_eq!(step_action(task.status), StepAction::Stop);
}

#[test]
fn post_of_ten_bytes_with_buffer_four_takes_three_steps() {
    let (mut task, _) = negotiated(
        Method::Post,
        10,
        true,
        4,
        b"HTTP/1.1 200 OK\r\nContent-Length: 2\r\n\r\n",
    );
    assert_eq!(task.status, TaskStatus::Uploading);
    let source: Vec<u8> = (0u8..10).collect();
    let mut pos = 0usize;
    let mut chunks = Vec::new();
    while task.status == TaskStatus::Uploading {
        let n = task.upload_budget().min(source.len() - pos);
        pos += n;
        chunks.push(n);
        uploading(&mut task, n, true);
        assert!(task.sent <= 10);
    }
    assert_eq!(chunks, vec![4, 4, 2]);
    assert_eq!(task.sent, 10);
    assert_eq!(task.status, TaskStatus::Downloading);
}

#[test]
fn missing_content_length_downloads_until_close() {
    let (mut task, _) = negotiated(Method::Get, 0, false, 4, b"HTTP/1.1 200 OK\r\nServer: x\r\n\r\n");
    assert_eq!(task.status, TaskStatus::Downloading);
    assert_eq!(task.expected, None);
    assert_eq!(task.download_budget(), 4);
    downloading(&mut task, ReadOutcome::Data(4));
    assert_eq!(task.status, TaskStatus::Downloading);
    downloading(&mut task, ReadOutcome::Data(3));
    assert_eq!(task.status, TaskStatus::Downloading);
    assert_eq!(task.progress(), 0);
    downloading(&mut task, ReadOutcome::Data(0));
    assert_eq!(task.status, TaskStatus::Completed);
    assert_eq!(task.received, 7);
}

#[test]
fn dns_failure_errors_the_task() {
    let mut task = Task::new(Method::Get, 8192, 0, false);
    initialize(&mut task, Ok(()));
    assert!(plan_target("http://no-such-host.invalid/", 80).is_ok());
    error(&mut task, HttpError::DnsOrConnectFailure);
    assert_eq!(task.status, TaskStatus::Errored);
    assert_eq!(task.error, HttpError::DnsOrConnectFailure.message());
    assert_eq!(task.error, b"Error: cannot resolve host or connect to it".to_vec());
}

#[test]
fn head_parse_ignores_what_follows_the_head() {
    let head = b"HTTP/1.1 200 OK\r\nA: 1\r\nB:2\r\n\r\n".to_vec();
    let mut with_body = head.clone();
    with_body.extend_from_slice(b"X: 3\r\n\r\nbody");
    let a = parse_response_head(&head).unwrap();
    let b = parse_response_head(&with_body).unwrap();
    let c = parse_response_head(&with_body).unwrap();
    assert_eq!(a, b);
    assert_eq!(b, c);
    assert_eq!(
        a.headers,
        vec![(b"A".to_vec(), b" 1".to_vec()), (b"B".to_vec(), b"2".to_vec())]
    );
}

#[test]
fn head_keeps_every_header_and_splits_on_first_colon() {
    let m = parse_response_head(b"HTTP/1.0 201 Created Now\r\nHost: a:8080\r\nX-Y:\r\n\r\n").unwrap();
    assert_eq!(m.status, 201);
    assert_eq!(m.reason, b"Created Now".to_vec());
    assert_eq!(
        m.headers,
        vec![(b"Host".to_vec(), b" a:8080".to_vec()), (b"X-Y".to_vec(), b"".to_vec())]
    );
}

#[test]
fn head_errors() {
    assert_eq!(
        parse_response_head(b"HTTP/1.1 200 OK\r\nbroken\r\n\r\n"),
        Err(HttpError::MalformedResponseHead)
    );
    assert_eq!(parse_response_head(b"HTTP/1.1\r\n\r\n"), Err(HttpError::MalformedResponseHead));
    assert_eq!(
        parse_response_head(b"HTTP/1.1 abc OK\r\n\r\n"),
        Err(HttpError::MalformedResponseHead)
    );
    assert_eq!(
        parse_response_head(b"HTTP/1.1 70000 OK\r\n\r\n"),
        Err(HttpError::MalformedResponseHead)
    );
    assert_eq!(
        parse_response_head(b"HTTP/1.1 200 OK\r\nA: 1\r\n"),
        Err(HttpError::ConnectionClosedUnexpectedly)
    );
    assert_eq!(parse_response_head(b""), Err(HttpError::ConnectionClosedUnexpectedly));
}

#[test]
fn status_without_reason() {
    let m = parse_response_head(b"HTTP/1.1 204\r\n\r\n").unwrap();
    assert_eq!(m.status, 204);
    assert_eq!(m.reason, Vec::<u8>::new());
}

#[test]
fn unparsable_content_length_errors_the_task() {
    let (task, _) = negotiated(
        Method::Get,
        0,
        false,
        8192,
        b"HTTP/1.1 200 OK\r\nContent-Length: lots\r\n\r\n",
    );
    assert_eq!(task.status, TaskStatus::Errored);
    assert_eq!(task.error, HttpError::ContentLengthUnparsable.message());
}

#[test]
fn content_length_takes_last_and_trims() {
    let h = vec![
        (b"Content-Length".to_vec(), b" 3".to_vec()),
        (b"content-length".to_vec(), b"9".to_vec()),
        (b"Content-Length".to_vec(), b" 12 \t".to_vec()),
    ];
    assert_eq!(content_length(&h), Ok(Some(12)));
    assert_eq!(content_length(&vec![]), Ok(None));
    assert_eq!(
        content_length(&vec![(b"Content-Length".to_vec(), b"".to_vec())]),
        Err(HttpError::ContentLengthUnparsable)
    );
}

#[test]
fn head_request_completes_without_download() {
    let (task, _) = negotiated(Method::Head, 0, false, 8192, b"HTTP/1.1 200 OK\r\nContent-Length: 50\r\n\r\n");
    assert_eq!(task.status, TaskStatus::Completed);
    assert_eq!(task.expected, Some(50));
}

#[test]
fn download_never_passes_expected_length() {
    let (mut task, _) = negotiated(Method::Get, 0, false, 4, b"HTTP/1.1 200 OK\r\nContent-Length: 10\r\n\r\n");
    let mut last = task.progress();
    let mut steps = Vec::new();
    while task.status == TaskStatus::Downloading {
        let n = task.download_budget();
        steps.push(n);
        downloading(&mut task, ReadOutcome::Data(n));
        assert!(task.received <= 10);
        assert!(task.progress() >= last);
        last = task.progress();
    }
    assert_eq!(steps, vec![4, 4, 2]);
    assert_eq!(task.status, TaskStatus::Completed);
    assert_eq!(last, 1_000_000);
}

#[test]
fn download_progress_in_millionths() {
    let (mut task, _) = negotiated(Method::Get, 0, false, 1, b"HTTP/1.1 200 OK\r\nContent-Length: 3\r\n\r\n");
    downloading(&mut task, ReadOutcome::Data(1));
    assert_eq!(task.progress(), 333_333);
    downloading(&mut task, ReadOutcome::Data(1));
    assert_eq!(task.progress(), 666_666);
}

#[test]
fn download_would_block_and_failure() {
    let (mut task, _) = negotiated(Method::Get, 0, false, 4, b"HTTP/1.1 200 OK\r\nContent-Length: 10\r\n\r\n");
    downloading(&mut task, ReadOutcome::WouldBlock);
    assert_eq!(task.status, TaskStatus::Downloading);
    assert_eq!(task.received, 0);
    downloading(&mut task, ReadOutcome::Failed);
    assert_eq!(task.status, TaskStatus::Errored);
    assert_eq!(task.error, b"Error: connection closed unexpectedly".to_vec());
}

#[test]
fn early_close_completes_download() {
    let (mut task, _) = negotiated(Method::Get, 0, false, 4, b"HTTP/1.1 200 OK\r\nContent-Length: 10\r\n\r\n");
    downloading(&mut task, ReadOutcome::Data(2));
    downloading(&mut task, ReadOutcome::Data(0));
    assert_eq!(task.status, TaskStatus::Completed);
    assert_eq!(task.received, 2);
}

#[test]
fn zero_length_download_completes_at_once() {
    let (task, _) = negotiated(Method::Get, 0, false, 4, b"HTTP/1.1 200 OK\r\nContent-Length: 0\r\n\r\n");
    assert_eq!(task.status, TaskStatus::Completed);
    assert_eq!(task.expected, Some(0));
    assert_eq!(task.download_budget(), 0);
}

#[test]
fn upload_then_zero_length_download_completes() {
    let (mut task, _) = negotiated(Method::Post, 3, true, 4, b"HTTP/1.1 200 OK\r\nContent-Length: 0\r\n\r\n");
    assert_eq!(task.status, TaskStatus::Uploading);
    uploading(&mut task, 3, true);
    assert_eq!(task.sent, 3);
    assert_eq!(task.status, TaskStatus::Completed);
}

#[test]
fn unicode_white_space_around_scheme() {
    assert_eq!(get_port(None, "\u{3000}https://x"), 443);
    assert_eq!(get_port(None, "\u{a0}https\u{2003}://x"), 443);
    assert_eq!(get_port(None, "\u{3000}http://x"), 80);
    assert!(accept_url("\u{3000}http://x"));
    assert!(accept_url("https:\u{205f}//x"));
    assert!(!accept_url("\u{3000}htt p://x"));
}

#[test]
fn host_setting_reports_are_recorded() {
    let mut task = Task::new(Method::Get, 1, 0, false);
    initialize(&mut task, Err(HttpError::InvalidElementData(b"url missing".to_vec())));
    assert_eq!(task.status, TaskStatus::Errored);
    assert_eq!(task.error, b"Error: element data: url missing".to_vec());
    assert_eq!(
        HttpError::InvalidModuleData(b"buffer_size".to_vec()).message(),
        b"Error: module data: buffer_size".to_vec()
    );
}

#[test]
fn failed_negotiation_keeps_length_and_head() {
    let (task, _) = negotiated(Method::Get, 0, false, 4, b"HTTP/1.1 500 Oops\r\nContent-Length: 9\r\n\r\n");
    assert_eq!(task.status, TaskStatus::Errored);
    assert_eq!(task.expected, None);
    assert!(task.response.is_none());
    assert_eq!(task.error, b"Http Error: status: 500 Oops".to_vec());
}

#[test]
fn upload_exhausted_source_and_lost_transport() {
    let (mut task, _) = negotiated(Method::Put, 100, true, 8, b"HTTP/1.1 200 OK\r\n\r\n");
    assert_eq!(task.upload_budget(), 8);
    uploading(&mut task, 8, false);
    assert_eq!(task.status, TaskStatus::Negotiating);
    assert_eq!(task.sent, 0);
    let (mut task, _) = negotiated(Method::Put, 100, true, 8, b"HTTP/1.1 200 OK\r\n\r\n");
    uploading(&mut task, 5, true);
    assert_eq!(task.status, TaskStatus::Uploading);
    uploading(&mut task, 0, true);
    assert_eq!(task.status, TaskStatus::Downloading);
    assert_eq!(task.sent, 5);
}

#[test]
fn request_head_bytes() {
    let headers = vec![(b"User-Agent".to_vec(), b"t".to_vec()), (b"A".to_vec(), b"b".to_vec())];
    let r = request_head(Method::Get, b"/x", b"example.com", &headers, None);
    assert_eq!(
        r,
        b"GET /x HTTP/1.1\r\nHost: example.com\r\nUser-Agent: t\r\nA: b\r\n\r\n\r\n".to_vec()
    );
    let r = request_head(Method::Post, b"/", b"h", &vec![], Some(10));
    assert_eq!(r, b"POST / HTTP/1.1\r\nHost: h\r\nContent-Length: 10\r\n\r\n".to_vec());
    assert_eq!(remaining_length(3, 10), 7);
    assert_eq!(remaining_length(12, 10), 0);
}

#[test]
fn method_tokens_and_selection() {
    assert_eq!(get_method(Some(0)), Ok(Method::Get));
    assert_eq!(get_method(Some(8)), Ok(Method::Patch));
    assert_eq!(get_method(Some(9)), Err(HttpError::MissingRequiredSetting));
    assert_eq!(get_method(None), Err(HttpError::MissingRequiredSetting));
    assert_eq!(Method::Delete.token(), b"DELETE".to_vec());
    assert_eq!(Method::Options.token(), b"OPTIONS".to_vec());
}

#[test]
fn ports_and_schemes() {
    assert_eq!(get_port(None, "https://example.com/"), 443);
    assert_eq!(get_port(None, " https ://example.com/"), 443);
    assert_eq!(get_port(None, "http://example.com/"), 80);
    assert_eq!(get_port(None, "example"), 80);
    assert_eq!(get_port(Some(8080), "https://example.com/"), 8080);
    assert!(accept_url("http://a/b"));
    assert!(accept_url("https://a/b"));
    assert!(!accept_url("ftp://a/b"));
}

#[test]
fn url_targets() {
    let t = plan_target("https://example.com/a/b?q=1", 443).unwrap();
    assert!(t.tls);
    assert_eq!(t.path, "/a/b");
    assert_eq!(t.domain, Some("example.com".to_string()));
    let t = plan_target("http://127.0.0.1:8080/", 8080).unwrap();
    assert!(!t.tls);
    assert_eq!(t.domain, None);
    assert_eq!(host_name(&t.domain, "127.0.0.1"), "127.0.0.1");
    assert!(matches!(plan_target("not a url", 80), Err(HttpError::UrlInvalid)));
}

#[test]
fn tls_server_names() {
    assert_eq!(server_name(&Some("example.com".to_string()), "1.2.3.4"), Ok("example.com".to_string()));
    assert_eq!(server_name(&None, "1.2.3.4"), Ok("1.2.3.4".to_string()));
    assert_eq!(
        server_name(&Some("bad name".to_string()), "1.2.3.4"),
        Err(HttpError::TlsSetupFailure)
    );
}

#[test]
fn settings_and_numbers() {
    assert_eq!(get_buffer_size(Some(8192)), Ok(8192));
    assert_eq!(get_buffer_size(None), Err(HttpError::MissingRequiredSetting));
    assert_eq!(upload_content_length(Some(3), Some(9)), 3);
    assert_eq!(upload_content_length(None, Some(9)), 9);
    assert_eq!(upload_content_length(None, None), 0);
    assert_eq!(check_written(5, 5), Ok(()));
    assert_eq!(check_written(4, 5), Err(HttpError::ShortWrite));
    assert_eq!(parse_decimal(b"+42", 100), Some(42));
    assert_eq!(parse_decimal(b"101", 100), None);
    assert_eq!(parse_decimal(b"+", 100), None);
    assert_eq!(parse_decimal(b"18446744073709551615", u64::MAX), Some(u64::MAX));
    assert_eq!(parse_decimal(b"18446744073709551616", u64::MAX), None);
    assert_eq!(decimal_bytes(0), b"0".to_vec());
    assert_eq!(decimal_bytes(1234), b"1234".to_vec());
}

#[test]
fn init_failure_and_status_actions() {
    let mut task = Task::new(Method::Get, 1, 0, false);
    assert_eq!(step_action(task.status), StepAction::Initialize);
    initialize(&mut task, Err(HttpError::MissingRequiredSetting));
    assert_eq!(task.status, TaskStatus::Errored);
    assert_eq!(step_action(TaskStatus::Paused), StepAction::Wait);
    assert_eq!(step_action(TaskStatus::Syncing), StepAction::Wait);
    assert_eq!(step_action(TaskStatus::Negotiating), StepAction::Negotiate);
    assert_eq!(step_action(TaskStatus::Uploading), StepAction::Upload);
    assert_eq!(step_action(TaskStatus::Downloading), StepAction::Download);
}

#[test]
fn headers_setting_defaults_to_none() {
    assert_eq!(get_headers(None), Vec::<(Vec<u8>, Vec<u8>)>::new());
    let h = vec![(b"A".to_vec(), b"b".to_vec())];
    assert_eq!(get_headers(Some(h.clone())), h);
}

#[test]
fn head_reads_from_transport_outcomes() {
    let mut p = HeadParser::new();
    let mut out = None;
    for b in b"HTTP/1.1 200 OK\r\n\r\nrest".iter() {
        assert!(p.on_read(ReadOutcome::WouldBlock, 0).is_none());
        out = p.on_read(ReadOutcome::Data(1), *b);
        if out.is_some() {
            break;
        }
    }
    let meta = out.unwrap().unwrap();
    assert_eq!(meta.status, 200);
    assert!(p.is_done());

    let mut q = HeadParser::new();
    assert!(q.on_read(ReadOutcome::Data(1), b'H').is_none());
    assert_eq!(q.on_read(ReadOutcome::Data(0), 0), Some(Err(HttpError::ConnectionClosedUnexpectedly)));
    let mut r = HeadParser::new();
    assert_eq!(r.on_read(ReadOutcome::Failed, 0), Some(Err(HttpError::ConnectionClosedUnexpectedly)));
}
