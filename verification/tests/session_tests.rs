use chain_indexer::session::ClientBuilder;
use chain_indexer::session::Configuration;
use chain_indexer::session::Cursor;
use chain_indexer::session::DataBatch;
use chain_indexer::session::DataFinality;
use chain_indexer::session::DataMessage;
use chain_indexer::session::DataStream;
use chain_indexer::session::Invalidation;
use chain_indexer::session::PollOutcome;
use chain_indexer::session::ResponseMessage;
use chain_indexer::session::StreamDataResponse;
use chain_indexer::session::keep_decoded;

fn data_response(stream_id: u64, marker: u8) -> StreamDataResponse {
    StreamDataResponse {
        stream_id,
        message: Some(ResponseMessage::Data(DataBatch {
            cursor: None,
            end_cursor: Some(Cursor { order_key: marker as u64, unique_key: vec![marker] }),
            finality: 2,
            data: vec![vec![marker]],
        })),
    }
}

#[test]
fn configuration_bumps_session_id_and_builds_request() {
    let mut stream = DataStream::new();
    assert_eq!(stream.stream_id, 0);

    let config = Configuration::default()
        .with_batch_size(10)
        .with_starting_block(21600)
        .with_finality(DataFinality::AcceptedOnL2)
        .with_filter(vec![1, 2, 3]);
    let request = stream.on_configuration(config);

    assert_eq!(stream.stream_id, 1);
    assert_eq!(request.stream_id, Some(1));
    assert_eq!(request.batch_size, Some(10));
    assert_eq!(request.starting_cursor.as_ref().map(|c| c.order_key), Some(21600));
    assert_eq!(request.finality, Some(2));
    assert_eq!(request.filter, vec![1, 2, 3]);
}

#[test]
fn reconfiguration_mid_stream_surfaces_exactly_current_window() {
    let mut stream = DataStream::new();
    stream.on_configuration(Configuration::default());
    assert_eq!(stream.stream_id, 1);

    let mut surfaced: Vec<u8> = Vec::new();
    for response in [data_response(1, 10), data_response(1, 11)] {
        if let PollOutcome::Emit(DataMessage::Data { batch, .. }) = stream.on_response(response) {
            surfaced.push(batch[0][0]);
        }
    }

    stream.on_configuration(Configuration::default());
    assert_eq!(stream.stream_id, 2);

    // A residual response from the previous window is dropped...
    assert_eq!(stream.on_response(data_response(1, 12)), PollOutcome::Skip);
    // ...and one for the current window is surfaced.
    if let PollOutcome::Emit(DataMessage::Data { batch, .. }) =
        stream.on_response(data_response(2, 13))
    {
        surfaced.push(batch[0][0]);
    }

    assert_eq!(surfaced, vec![10, 11, 13]);
}

#[test]
fn heartbeats_are_never_surfaced() {
    let mut stream = DataStream::new();
    stream.on_configuration(Configuration::default());
    let heartbeat = StreamDataResponse { stream_id: 1, message: Some(ResponseMessage::Heartbeat) };
    assert_eq!(stream.on_response(heartbeat), PollOutcome::Skip);
}

#[test]
fn empty_messages_are_dropped() {
    let stream = DataStream::new();
    let empty = StreamDataResponse { stream_id: 0, message: None };
    assert_eq!(stream.on_response(empty), PollOutcome::Skip);
}

#[test]
fn invalidate_is_surfaced_verbatim() {
    let mut stream = DataStream::new();
    stream.on_configuration(Configuration::default());
    let cursor = Some(Cursor { order_key: 55, unique_key: vec![9, 9] });
    let invalidate = StreamDataResponse {
        stream_id: 1,
        message: Some(ResponseMessage::Invalidate(Invalidation { cursor: cursor.clone() })),
    };
    assert_eq!(
        stream.on_response(invalidate),
        PollOutcome::Emit(DataMessage::Invalidate { cursor })
    );
}

#[test]
fn data_fields_are_carried_over() {
    let stream = DataStream { stream_id: 3 };
    let response = StreamDataResponse {
        stream_id: 3,
        message: Some(ResponseMessage::Data(DataBatch {
            cursor: Some(Cursor { order_key: 1, unique_key: vec![1] }),
            end_cursor: Some(Cursor { order_key: 2, unique_key: vec![2] }),
            finality: 3,
            data: vec![vec![1], vec![2, 3]],
        })),
    };
    match stream.on_response(response) {
        PollOutcome::Emit(DataMessage::Data { cursor, end_cursor, finality, batch }) => {
            assert_eq!(cursor, Some(Cursor { order_key: 1, unique_key: vec![1] }));
            assert_eq!(end_cursor, Cursor { order_key: 2, unique_key: vec![2] });
            assert_eq!(finality, DataFinality::AcceptedOnL1);
            assert_eq!(batch, vec![vec![1], vec![2, 3]]);
        }
        other => panic!("expected a data message, got {:?}", other),
    }
}

#[test]
fn missing_end_cursor_reads_as_default() {
    let stream = DataStream { stream_id: 1 };
    let response = StreamDataResponse {
        stream_id: 1,
        message: Some(ResponseMessage::Data(DataBatch {
            cursor: None,
            end_cursor: None,
            finality: 99,
            data: vec![],
        })),
    };
    match stream.on_response(response) {
        PollOutcome::Emit(DataMessage::Data { end_cursor, finality, .. }) => {
            assert_eq!(end_cursor, Cursor { order_key: 0, unique_key: vec![] });
            assert_eq!(finality, DataFinality::Unspecified);
        }
        other => panic!("expected a data message, got {:?}", other),
    }
}

#[test]
fn finality_codes_round_trip() {
    for f in [
        DataFinality::Unspecified,
        DataFinality::Pending,
        DataFinality::AcceptedOnL2,
        DataFinality::AcceptedOnL1,
    ] {
        assert_eq!(DataFinality::from_code(f.code()), f);
    }
    assert_eq!(DataFinality::from_code(7), DataFinality::Unspecified);
}

#[test]
fn keep_decoded_drops_failures_in_order() {
    let items: Vec<Option<u32>> = vec![Some(1), None, Some(2), None, None, Some(3)];
    assert_eq!(keep_decoded(items), vec![1, 2, 3]);
    let none_at_all: Vec<Option<u32>> = vec![None, None];
    assert_eq!(keep_decoded(none_at_all), Vec::<u32>::new());
    let empty: Vec<Option<u32>> = Vec::new();
    assert_eq!(keep_decoded(empty), Vec::<u32>::new());
}

#[test]
fn client_builder_collects_token_and_configuration() {
    let builder = ClientBuilder::default();
    assert!(builder.token.is_none());
    assert!(builder.configuration.is_none());

    let config = Configuration::default().with_starting_block(21600);
    let builder = ClientBuilder::default()
        .with_bearer_token("my_auth_token".to_string())
        .with_configuration(config.clone());
    assert_eq!(builder.token.as_deref(), Some("my_auth_token"));
    assert_eq!(builder.configuration, Some(config));
}

#[test]
fn default_configuration_values() {
    let config = Configuration::default();
    assert_eq!(config.batch_size, 20);
    assert!(config.starting_cursor.is_none());
    assert!(config.finality.is_none());
    assert!(config.filter.is_empty());
}

#[test]
fn session_ids_keep_increasing_across_windows() {
    let mut stream = DataStream::new();
    for expected in 1..=3u64 {
        let request = stream.on_configuration(Configuration::default());
        assert_eq!(request.stream_id, Some(expected));
        assert_eq!(stream.stream_id, expected);
    }
    // Every earlier window is now stale.
    assert_eq!(stream.on_response(data_response(1, 1)), PollOutcome::Skip);
    assert_eq!(stream.on_response(data_response(2, 2)), PollOutcome::Skip);
    assert!(matches!(
        stream.on_response(data_response(3, 3)),
        PollOutcome::Emit(DataMessage::Data { .. })
    ));
}

#[test]
fn keep_decoded_preserves_all_successes() {
    let items: Vec<Option<u8>> = vec![Some(9), Some(8), Some(7)];
    assert_eq!(keep_decoded(items), vec![9, 8, 7]);
}
