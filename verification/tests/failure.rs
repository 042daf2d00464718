use bifrost::failure::{
    classify_errno, classify_error_detail, classify_io_error, failure_file_path, jitter_slot_of,
    record_failure, xml_escape, FailureItemType, FailureLogConfig, FailureLogFormat,
    FailureRecord, FailureRecorder, IoFailure, RetryPolicy, RetryQueue,
};

/// Runs an operation on an item until it succeeds or the policy gives it up. The delays
/// between the attempts are left out.
fn run_item<I, T, E>(
    policy: RetryPolicy,
    item: I,
    mut op: impl FnMut(I) -> Result<T, (I, E)>,
) -> Result<T, (I, E, u32)> {
    let mut queue = RetryQueue::new(item);
    while let Some((item, attempt)) = queue.pop() {
        match op(item) {
            Ok(value) => return Ok(value),
            Err((item, err)) => {
                if let Err((item, attempts)) = queue.retry_or_fail(policy, item, attempt) {
                    return Err((item, err, attempts));
                }
            }
        }
    }
    unreachable!()
}

#[test]
fn retry_sync_item_preserves_item_and_attempt_count() {
    let policy = RetryPolicy::new(2, 0);
    let mut attempts = 0u32;

    let err = run_item(policy, String::from("block-1"), |item| {
        attempts += 1;
        Err::<(), _>((item, "failed"))
    })
    .unwrap_err();

    assert_eq!(err.0, "block-1");
    assert_eq!(err.1, "failed");
    assert_eq!(err.2, 3);
    assert_eq!(attempts, 3);
}

#[test]
fn retry_sync_succeeds_after_delayed_retry() {
    let policy = RetryPolicy::new(2, 0);
    let mut attempts = 0u32;

    let value = run_item(policy, (), |()| {
        attempts += 1;
        if attempts < 2 {
            Err(((), "not yet"))
        } else {
            Ok("done")
        }
    })
    .unwrap();

    assert_eq!(value, "done");
    assert_eq!(attempts, 2);
}

#[test]
fn an_operation_that_always_fails_is_tried_as_often_as_the_policy_says() {
    for retries in 0..6u32 {
        let policy = RetryPolicy::new(retries, 10);
        let mut attempts = 0u32;
        let given_up = run_item(policy, 7u8, |item| {
            attempts += 1;
            Err::<(), _>((item, ()))
        });
        assert_eq!(given_up, Err((7u8, (), retries + 1)));
        assert_eq!(attempts, policy.max_attempts());
    }
}

#[test]
fn retry_policy_defaults_and_limits() {
    let default = RetryPolicy::default();
    assert_eq!(default.max_retries, 3);
    assert_eq!(default.retry_delay_ms, 1000);
    assert_eq!(default.max_retry_delay_ms, 1000);
    assert_eq!(default.max_attempts(), 4);
    assert!(default.should_retry(3));
    assert!(!default.should_retry(4));

    assert_eq!(RetryPolicy::new(u32::MAX, 0).max_attempts(), u32::MAX);
    assert_eq!(RetryPolicy::new(1, 100).with_max_delay(250).max_retry_delay_ms, 250);
    assert_eq!(RetryPolicy::new(1, 100).with_max_delay(50).max_retry_delay_ms, 100);
}

#[test]
fn jitter_slots_follow_the_generator() {
    assert_eq!(jitter_slot_of(0), 2345);
    assert_eq!(jitter_slot_of(1), 7590);
    for attempt in 0..1000u32 {
        let seed = attempt.wrapping_mul(1_103_515_245).wrapping_add(12_345);
        assert_eq!(jitter_slot_of(attempt), seed % 10_000);
    }
}

#[test]
fn error_numbers_are_those_of_the_operating_system() {
    let names = [
        (libc::EPERM, "EPERM"),
        (libc::EACCES, "EACCES"),
        (libc::ENOENT, "ENOENT"),
        (libc::ENOSPC, "ENOSPC"),
        (libc::EEXIST, "EEXIST"),
        (libc::EIO, "EIO"),
        (libc::ENOTDIR, "ENOTDIR"),
        (libc::EISDIR, "EISDIR"),
        (libc::EBUSY, "EBUSY"),
        (libc::EROFS, "EROFS"),
        (libc::ETIMEDOUT, "ETIMEDOUT"),
        (libc::ECONNRESET, "ECONNRESET"),
        (libc::ECONNREFUSED, "ECONNREFUSED"),
    ];
    for code in -3..200 {
        let want = match names.iter().find(|n| n.0 == code) {
            Some(n) => n.1.to_string(),
            None => format!("ERRNO_{}", code),
        };
        assert_eq!(classify_errno(code), want);
    }
}

#[test]
fn error_texts_are_classified() {
    assert_eq!(classify_error_detail("open: eacces (13)"), "EACCES");
    assert_eq!(classify_error_detail("ENOENT, then EPERM"), "EPERM");
    assert_eq!(classify_error_detail("nfs3err_jukebox"), "NFS3ERR_JUKEBOX");
    assert_eq!(classify_error_detail("Object Path Not Found"), "OBJECT_PATH_NOT_FOUND");
    assert_eq!(classify_error_detail("No space left on device"), "NO_SPACE_LEFT");
    assert_eq!(classify_error_detail("something else"), "UNKNOWN");
    assert_eq!(classify_error_detail(""), "UNKNOWN");

    assert_eq!(classify_io_error(Some(2), "Permission denied"), "ENOENT");
    assert_eq!(classify_io_error(None, "Permission denied"), "PERMISSION_DENIED");
}

#[test]
fn failure_logs_are_named_by_their_format() {
    assert_eq!(FailureLogFormat::Csv.extension(), "csv");
    assert_eq!(FailureLogFormat::Json.extension(), "json");
    assert_eq!(FailureLogFormat::Xml.extension(), "xml");
    assert_eq!(failure_file_path("/var/log", "backup", FailureLogFormat::Xml), "/var/log/backup.xml");
}

#[test]
fn xml_text_is_escaped() {
    assert_eq!(xml_escape("a<b>&\"c'"), "a&lt;b&gt;&amp;&quot;c&apos;");
    assert_eq!(xml_escape("&lt;"), "&amp;lt;");
    let odd = xml_escape("<<>>''\"\"&&");
    assert!(!odd.contains('<') && !odd.contains('>') && !odd.contains('"') && !odd.contains('\''));
}

fn sample() -> FailureRecord {
    FailureRecord {
        time: "2026-01-02T03:04:05Z".to_string(),
        phase: "backup".to_string(),
        operation: "read".to_string(),
        item_type: FailureItemType::File,
        path: "/a, \"b\"/c".to_string(),
        code: "EIO".to_string(),
        detail: "input/output <error>".to_string(),
        attempts: 4,
    }
}

#[test]
fn records_are_stamped_with_the_time_in_utc() {
    let before = chrono::Utc::now().timestamp();
    let r = FailureRecord::new("backup", "read", FailureItemType::Block, "/p", "EIO", "d", 2);
    let after = chrono::Utc::now().timestamp();
    let stamp = chrono::DateTime::parse_from_rfc3339(&r.time).unwrap().timestamp();
    assert!(before <= stamp && stamp <= after);
    assert!(r.time.ends_with('Z'));
    assert_eq!(r.time.len(), 20);
    assert_eq!(
        (r.phase.as_str(), r.operation.as_str(), r.path.as_str(), r.code.as_str()),
        ("backup", "read", "/p", "EIO")
    );
    assert_eq!((r.detail.as_str(), r.attempts), ("d", 2));
    assert_eq!(r.item_type, FailureItemType::Block);
}

#[test]
fn records_carry_the_class_of_their_error() {
    let r = FailureRecord::from_io_error(
        "scan", "stat", FailureItemType::Symlink, "/p", Some(13), "Permission denied", 1,
    );
    assert_eq!((r.phase.as_str(), r.code.as_str()), ("scan", "EACCES"));
    let r = FailureRecord::from_detail(
        "backup", "write", FailureItemType::Special, "/p", "NFS3ERR_IO", 3,
    );
    assert_eq!((r.code.as_str(), r.detail.as_str(), r.attempts), ("NFS3ERR_IO", "NFS3ERR_IO", 3));
    let failure =
        IoFailure { raw_os_error: None, message: "no such file".to_string(), attempts: 2 };
    let r = record_failure("delete", FailureItemType::Directory, "/d", &failure);
    assert_eq!(
        (r.phase.as_str(), r.operation.as_str(), r.code.as_str(), r.attempts),
        ("backup", "delete", "NO_SUCH_FILE", 2)
    );
}

#[test]
fn csv_logs_quote_their_fields() {
    let config = FailureLogConfig::new("/tmp/f.csv".to_string(), FailureLogFormat::Csv);
    let (mut recorder, head) = FailureRecorder::create(&config);
    assert_eq!(head, b"time,phase,operation,item_type,path,code,detail,attempts\n");
    let line = recorder.record(&sample(), "").unwrap();
    assert_eq!(
        String::from_utf8(line).unwrap(),
        "2026-01-02T03:04:05Z,backup,read,file,\"/a, \"\"b\"\"/c\",EIO,input/output <error>,4\n"
    );
    assert!(recorder.footer().is_empty());
}

#[test]
fn json_logs_are_one_array() {
    let config = FailureLogConfig::new("/tmp/f.json".to_string(), FailureLogFormat::Json);
    let (mut recorder, head) = FailureRecorder::create(&config);
    let mut all = head;
    all.extend(recorder.record(&sample(), "{\"n\": 1}").unwrap());
    all.extend(recorder.record(&sample(), "{\"n\": 2}").unwrap());
    all.extend(recorder.footer());
    assert_eq!(all, b"[\n{\"n\": 1},\n{\"n\": 2}\n]\n");
    let parsed: serde_json::Value = serde_json::from_slice(&all).unwrap();
    assert_eq!(parsed.as_array().unwrap().len(), 2);
}

#[test]
fn xml_logs_escape_their_fields() {
    let config = FailureLogConfig::new("/tmp/f.xml".to_string(), FailureLogFormat::Xml);
    let (mut recorder, head) = FailureRecorder::create(&config);
    assert_eq!(head, b"<failures>\n");
    let line = String::from_utf8(recorder.record(&sample(), "").unwrap()).unwrap();
    assert_eq!(
        line,
        "  <failure><time>2026-01-02T03:04:05Z</time><phase>backup</phase>\
         <operation>read</operation><item_type>file</item_type>\
         <path>/a, &quot;b&quot;/c</path><code>EIO</code>\
         <detail>input/output &lt;error&gt;</detail><attempts>4</attempts></failure>\n"
    );
    assert_eq!(recorder.footer(), b"</failures>\n");
}
