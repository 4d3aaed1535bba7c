use ipregistry::request::{chunk_ranges, json_body, merge_batch_results, select_misses};
use ipregistry::{ApiError, ApiErrorPayload, BatchEntry, BatchEnvelope, ErrorCode, IpInfo};

fn info(ip: &str) -> IpInfo {
    IpInfo {
        ip: Some(ip.to_owned()),
        ..Default::default()
    }
}

#[test]
fn batch_envelope_maps_entries_to_results() {
    // {"results": [{"ip": "8.8.8.8", "type": "IPv4"},
    //   {"code": "RESERVED_IP_ADDRESS", "message": "reserved", "resolution": "use a public IP"},
    //   {"ip": "2001:4860:4860::8888", "type": "IPv6"}]}
    let envelope = BatchEnvelope {
        results: vec![
            BatchEntry::Resolved(IpInfo {
                ip_type: Some(ipregistry::model::IpType::V4),
                ..info("8.8.8.8")
            }),
            BatchEntry::Failed(ApiErrorPayload {
                code: "RESERVED_IP_ADDRESS".to_owned(),
                message: "reserved".to_owned(),
                resolution: "use a public IP".to_owned(),
            }),
            BatchEntry::Resolved(IpInfo {
                ip_type: Some(ipregistry::model::IpType::V6),
                ..info("2001:4860:4860::8888")
            }),
        ],
    };
    let results = envelope.into_results();
    assert_eq!(results.len(), 3);

    let first = results[0].as_ref().unwrap();
    assert_eq!(first.ip, Some("8.8.8.8".to_owned()));

    let err = results[1].as_ref().unwrap_err();
    assert_eq!(err.code, Some(ErrorCode::ReservedIpAddress));
    assert_eq!(err.message, "reserved");
    assert_eq!(err.status, None);

    let third = results[2].as_ref().unwrap();
    assert_eq!(third.ip, Some("2001:4860:4860::8888".to_owned()));
}

#[test]
fn batch_envelope_tolerates_missing_results() {
    // `{}` decodes to an envelope without results.
    let envelope: BatchEnvelope<IpInfo> = BatchEnvelope { results: Vec::new() };
    assert!(envelope.into_results().is_empty());
}

#[test]
fn misses_keep_input_order() {
    let ips = vec![1u32, 2, 3, 4, 5];
    let hit = vec![false, true, false, true, false];
    assert_eq!(select_misses(&ips, &hit), vec![1, 3, 5]);
    assert_eq!(select_misses(&ips, &vec![true; 5]), Vec::<u32>::new());
}

#[test]
fn large_batches_are_chunked_in_order() {
    assert_eq!(chunk_ranges(5, 2), vec![(0, 2), (2, 4), (4, 5)]);
    assert_eq!(chunk_ranges(4, 2), vec![(0, 2), (2, 4)]);
    assert_eq!(chunk_ranges(3, 1024), vec![(0, 3)]);
    assert_eq!(chunk_ranges(0, 1024), Vec::<(usize, usize)>::new());
}

#[test]
fn merge_serves_hits_and_fills_misses_in_order() {
    let cached = vec![None, Some(info("8.8.8.8")), None, None];
    let reserved = ApiError {
        code: Some(ErrorCode::ReservedIpAddress),
        message: "reserved".to_owned(),
        resolution: String::new(),
        status: None,
    };
    let fresh = vec![Ok(info("1.1.1.1")), Err(reserved.clone())];
    let (results, fetched) = merge_batch_results(cached, fresh);
    assert_eq!(results.len(), 4);
    assert_eq!(results[0], Ok(info("1.1.1.1")));
    assert_eq!(results[1], Ok(info("8.8.8.8")));
    assert_eq!(results[2], Err(reserved));
    let missing = results[3].as_ref().unwrap_err();
    assert_eq!(missing.message, "missing result for requested IP address");
    assert_eq!(missing.code, None);
    assert_eq!(missing.status, None);
    assert_eq!(fetched, vec![true, false, false, false]);
}

#[test]
fn json_body_lists_strings() {
    let items = vec!["8.8.8.8".to_owned(), "a \"q\" \\ \n\u{1}é".to_owned()];
    let body = json_body(&items).unwrap();
    assert_eq!(
        String::from_utf8(body).unwrap(),
        "[\"8.8.8.8\",\"a \\\"q\\\" \\\\ \\n\\u0001é\"]"
    );
    assert_eq!(json_body(&Vec::new()).unwrap(), b"[]".to_vec());
}
