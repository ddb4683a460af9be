use media_splitter::client::{FFmpegClient, RegionEnd, region_outcome};
use media_splitter::cmd::CommandResult;
use media_splitter::error::PipelineError;
use media_splitter::manifest::{concat_command, merge_manifest, merge_outcome};
use media_splitter::timeline::{region_spans, segment_spans};

fn s(t: &str) -> String {
    t.to_string()
}

fn ok_result() -> CommandResult {
    CommandResult { exit_code: 0, stdout: s(""), stderr: s("") }
}

fn failed_result(stderr: &str) -> CommandResult {
    CommandResult { exit_code: 1, stdout: s(""), stderr: s(stderr) }
}

fn configured_client() -> FFmpegClient {
    FFmpegClient::new()
        .with_input(s("src/audio.mp3"))
        .with_output_dir(s("src/chunks"))
        .with_chunk_duration(2)
}

#[test]
fn builder_defaults() {
    let c = FFmpegClient::new();
    assert_eq!(c.binary_path, s("ffmpeg"));
    assert!(c.input_file.is_none());
    assert!(c.output_dir.is_none());
    assert!(c.chunk_duration_s.is_none());
}

#[test]
fn builder_sets_fields() {
    let c = configured_client();
    assert_eq!(c.input_file, Some(s("src/audio.mp3")));
    assert_eq!(c.output_dir, Some(s("src/chunks")));
    assert_eq!(c.chunk_duration_s, Some(2));
    assert_eq!(c.binary_path, s("ffmpeg"));
}

#[test]
fn segment_command_args() {
    let c = configured_client();
    let cmd = c.segment_command().expect("configured client must plan");
    assert_eq!(cmd.program, s("ffmpeg"));
    let expected = vec![
        "-i",
        "src/audio.mp3",
        "-f",
        "segment",
        "-segment_time",
        "2",
        "-c",
        "copy",
        "-reset_timestamps",
        "1",
        "src/chunks/chunk_%03d.mp3",
    ];
    let got: Vec<&str> = cmd.args.iter().map(|a| a.as_str()).collect();
    assert_eq!(got, expected);
}

#[test]
fn segment_command_requires_input() {
    let c = FFmpegClient::new().with_output_dir(s("d")).with_chunk_duration(2);
    let r = c.segment_command();
    assert!(matches!(r, Err(PipelineError::Configuration { .. })));
}

#[test]
fn segment_command_requires_output_dir() {
    let c = FFmpegClient::new().with_input(s("a.mp3")).with_chunk_duration(2);
    assert!(matches!(c.segment_command(), Err(PipelineError::Configuration { .. })));
}

#[test]
fn segment_command_requires_duration() {
    let c = FFmpegClient::new().with_input(s("a.mp3")).with_output_dir(s("d"));
    assert!(matches!(c.segment_command(), Err(PipelineError::Configuration { .. })));
}

#[test]
fn segment_command_rejects_zero_duration() {
    let c = FFmpegClient::new()
        .with_input(s("a.mp3"))
        .with_output_dir(s("d"))
        .with_chunk_duration(0);
    assert!(matches!(c.segment_command(), Err(PipelineError::Configuration { .. })));
}

#[test]
fn probe_command_args() {
    let c = FFmpegClient::new().with_input(s("src/audio.mp3"));
    let cmd = c.probe_command().expect("input set");
    let got: Vec<&str> = cmd.args.iter().map(|a| a.as_str()).collect();
    assert_eq!(got, vec!["-i", "src/audio.mp3"]);
}

#[test]
fn split_outcome_surfaces_stderr_exactly() {
    let c = configured_client();
    let r = c.split_outcome(&failed_result("segment muxer: bad input\n"), vec![]);
    match r {
        Err(PipelineError::ExternalProcess { detail }) => {
            assert_eq!(detail, s("segment muxer: bad input\n"));
        },
        _ => panic!("expected the external process error"),
    }
}

#[test]
fn split_outcome_empty_is_distinct_error() {
    let c = configured_client();
    let r = c.split_outcome(&ok_result(), vec![s("notes.txt"), s("chunk_%03d.mp3")]);
    assert!(matches!(r, Err(PipelineError::EmptyResult)));
}

#[test]
fn split_outcome_sorts_and_joins() {
    let c = configured_client();
    let listing = vec![
        s("chunk_001.mp3"),
        s("notes.txt"),
        s("chunk_000.mp3"),
        s("chunk_%03d.mp3"),
        s("chunk_002.mp3"),
    ];
    let chunks = c.split_outcome(&ok_result(), listing).expect("chunks present");
    assert_eq!(
        chunks,
        vec![
            s("src/chunks/chunk_000.mp3"),
            s("src/chunks/chunk_001.mp3"),
            s("src/chunks/chunk_002.mp3"),
        ]
    );
}

#[test]
fn extract_command_bounded_args() {
    let c = FFmpegClient::new().with_input(s("in.mp3"));
    let cmd = c.extract_command(1000, RegionEnd::At(1500), "out/chunk_selected.mp3").unwrap();
    let got: Vec<&str> = cmd.args.iter().map(|a| a.as_str()).collect();
    assert_eq!(
        got,
        vec!["-i", "in.mp3", "-ss", "1.000", "-t", "0.500", "-c", "copy", "out/chunk_selected.mp3"]
    );
}

#[test]
fn extract_command_to_end_args() {
    let c = FFmpegClient::new().with_input(s("in.mp3"));
    let cmd = c.extract_command(1500, RegionEnd::ToEnd, "out/chunk_after.mp3").unwrap();
    let got: Vec<&str> = cmd.args.iter().map(|a| a.as_str()).collect();
    assert_eq!(got, vec!["-i", "in.mp3", "-ss", "1.500", "-c", "copy", "out/chunk_after.mp3"]);
}

#[test]
fn region_commands_role_order() {
    let c = FFmpegClient::new().with_input(s("in.mp3")).with_output_dir(s("out"));
    let (c1, c2, c3) = c.split_region_commands(1000, 1500).unwrap();
    let a1: Vec<&str> = c1.args.iter().map(|a| a.as_str()).collect();
    let a2: Vec<&str> = c2.args.iter().map(|a| a.as_str()).collect();
    let a3: Vec<&str> = c3.args.iter().map(|a| a.as_str()).collect();
    assert_eq!(
        a1,
        vec!["-i", "in.mp3", "-ss", "0.000", "-t", "1.000", "-c", "copy", "out/chunk_before.mp3"]
    );
    assert_eq!(
        a2,
        vec!["-i", "in.mp3", "-ss", "1.000", "-t", "0.500", "-c", "copy", "out/chunk_selected.mp3"]
    );
    assert_eq!(a3, vec!["-i", "in.mp3", "-ss", "1.500", "-c", "copy", "out/chunk_after.mp3"]);
}

#[test]
fn region_outcome_always_three_chunks() {
    let r = region_outcome(
        &ok_result(),
        &ok_result(),
        &ok_result(),
        s("out/chunk_before.mp3"),
        s("out/chunk_selected.mp3"),
        s("out/chunk_after.mp3"),
    )
    .unwrap();
    assert_eq!(r.len(), 3);
    assert_eq!(
        r,
        vec![s("out/chunk_before.mp3"), s("out/chunk_selected.mp3"), s("out/chunk_after.mp3")]
    );
}

#[test]
fn region_outcome_degenerate_edges_still_three() {
    let c = FFmpegClient::new().with_input(s("in.mp3")).with_output_dir(s("out"));
    // Degenerate region: selection starts at zero and spans nothing.
    assert!(c.split_region_commands(0, 0).is_ok());
    let r = region_outcome(
        &ok_result(),
        &ok_result(),
        &ok_result(),
        s("b"),
        s("s"),
        s("a"),
    )
    .unwrap();
    assert_eq!(r.len(), 3);
}

#[test]
fn region_outcome_surfaces_first_failure() {
    let r = region_outcome(
        &ok_result(),
        &failed_result("trim failed"),
        &failed_result("other failure"),
        s("b"),
        s("s"),
        s("a"),
    );
    match r {
        Err(PipelineError::ExternalProcess { detail }) => assert_eq!(detail, s("trim failed")),
        _ => panic!("expected the external process error"),
    }
}

#[test]
fn manifest_lines_in_caller_order() {
    let chunks = vec![s("out/chunk_000.mp3"), s("out/chunk_001.mp3")];
    let m = merge_manifest(&chunks).unwrap();
    assert_eq!(m, s("file 'out/chunk_000.mp3'\nfile 'out/chunk_001.mp3'\n"));
}

#[test]
fn manifest_escapes_single_quotes() {
    let chunks = vec![s("it's.mp3")];
    let m = merge_manifest(&chunks).unwrap();
    assert_eq!(m, s("file 'it'\\''s.mp3'\n"));
}

#[test]
fn manifest_rejects_empty_chunk_list() {
    let chunks: Vec<String> = vec![];
    assert!(matches!(merge_manifest(&chunks), Err(PipelineError::Configuration { .. })));
}

#[test]
fn concat_command_args() {
    let cmd = concat_command(&s("ffmpeg"), "/tmp/concat.txt", "src/merged.mp3");
    let got: Vec<&str> = cmd.args.iter().map(|a| a.as_str()).collect();
    assert_eq!(
        got,
        vec!["-f", "concat", "-safe", "0", "-i", "/tmp/concat.txt", "-c", "copy", "src/merged.mp3"]
    );
}

#[test]
fn merge_outcome_returns_path_unchanged() {
    let r = merge_outcome(&ok_result(), s("src/merged.mp3"));
    assert_eq!(r.unwrap(), s("src/merged.mp3"));
}

#[test]
fn merge_outcome_surfaces_stderr_exactly() {
    let r = merge_outcome(&failed_result("concat: unsafe file name"), s("src/merged.mp3"));
    match r {
        Err(PipelineError::ExternalProcess { detail }) => {
            assert_eq!(detail, s("concat: unsafe file name"));
        },
        _ => panic!("expected the external process error"),
    }
}

#[test]
fn segmentation_scenario_five_seconds_by_two() {
    // A five-second source split into two-second chunks: lengths 2.0, 2.0, 1.0.
    let spans = segment_spans(5000, 2000);
    assert_eq!(spans, vec![(0, 2000), (2000, 4000), (4000, 5000)]);
    let lens: Vec<u64> = spans.iter().map(|(a, b)| b - a).collect();
    assert_eq!(lens, vec![2000, 2000, 1000]);
}

#[test]
fn segmentation_exact_multiple() {
    let spans = segment_spans(4000, 2000);
    assert_eq!(spans, vec![(0, 2000), (2000, 4000)]);
}

#[test]
fn segmentation_chunk_count_is_ceiling() {
    assert_eq!(segment_spans(5000, 2000).len(), 3);
    assert_eq!(segment_spans(4000, 2000).len(), 2);
    assert_eq!(segment_spans(1, 2000).len(), 1);
    assert_eq!(segment_spans(0, 2000).len(), 0);
}

#[test]
fn region_scenario_lengths() {
    // Region 1.0 s to 1.5 s of a five-second source: 1.0, 0.5, 3.5 seconds.
    let spans = region_spans(5000, 1000, 1500);
    let lens: Vec<u64> = spans.iter().map(|(a, b)| b - a).collect();
    assert_eq!(lens, vec![1000, 500, 3500]);
}

#[test]
fn region_spans_cover_whole_source() {
    let spans = region_spans(5000, 0, 5000);
    assert_eq!(spans.len(), 3);
    let total: u64 = spans.iter().map(|(a, b)| b - a).sum();
    assert_eq!(total, 5000);
}
