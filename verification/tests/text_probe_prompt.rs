use media_splitter::cmd::CommandResult;
use media_splitter::digits::{format_ms, pad3, u64_to_dec};
use media_splitter::error::PipelineError;
use media_splitter::naming::{chunk_file_name, select_chunk_names, sort_names};
use media_splitter::probe::parse_media_info;
use media_splitter::prompt::{completion_outcome, fill_template, PromptTemplate};
use media_splitter::text::str_lex_lt;
use media_splitter::whisper::{transcribe_outcome, WhisperClient};

fn s(t: &str) -> String {
    t.to_string()
}

#[test]
fn decimal_formatting() {
    assert_eq!(u64_to_dec(0), s("0"));
    assert_eq!(u64_to_dec(7), s("7"));
    assert_eq!(u64_to_dec(1000), s("1000"));
    assert_eq!(u64_to_dec(18446744073709551615), s("18446744073709551615"));
}

#[test]
fn zero_padding() {
    assert_eq!(pad3(0), s("000"));
    assert_eq!(pad3(7), s("007"));
    assert_eq!(pad3(42), s("042"));
    assert_eq!(pad3(999), s("999"));
    assert_eq!(pad3(1000), s("1000"));
}

#[test]
fn millisecond_formatting() {
    assert_eq!(format_ms(0), s("0.000"));
    assert_eq!(format_ms(500), s("0.500"));
    assert_eq!(format_ms(1500), s("1.500"));
    assert_eq!(format_ms(61000), s("61.000"));
    assert_eq!(format_ms(1234567), s("1234.567"));
}

#[test]
fn chunk_names_follow_template() {
    assert_eq!(chunk_file_name(0), s("chunk_000.mp3"));
    assert_eq!(chunk_file_name(7), s("chunk_007.mp3"));
    assert_eq!(chunk_file_name(999), s("chunk_999.mp3"));
    assert_eq!(chunk_file_name(1000), s("chunk_1000.mp3"));
}

#[test]
fn lexical_order_matches_temporal_order_within_padding() {
    for (i, j) in [(0u64, 1u64), (1, 2), (9, 10), (99, 100), (123, 321), (998, 999)] {
        let a = chunk_file_name(i);
        let b = chunk_file_name(j);
        assert!(str_lex_lt(a.as_str(), b.as_str()));
        assert!(!str_lex_lt(b.as_str(), a.as_str()));
    }
}

#[test]
fn lexical_order_breaks_past_padding_width() {
    // The documented limitation at the padding boundary: chunk 1000 sorts
    // before chunk 999 lexically although it is temporally later.
    let a = chunk_file_name(999);
    let b = chunk_file_name(1000);
    assert!(str_lex_lt(b.as_str(), a.as_str()));
    assert!(!str_lex_lt(a.as_str(), b.as_str()));
}

#[test]
fn listing_selection_keeps_only_chunks() {
    let listing = vec![
        s("chunk_001.mp3"),
        s("chunk_%03d.mp3"),
        s("notes.txt"),
        s(".mp3"),
        s("chunk_000.mp3"),
    ];
    let picked = select_chunk_names(listing);
    assert_eq!(picked, vec![s("chunk_001.mp3"), s("chunk_000.mp3")]);
}

#[test]
fn sorting_is_ascending() {
    let names = vec![s("chunk_002.mp3"), s("chunk_000.mp3"), s("chunk_001.mp3")];
    let sorted = sort_names(names);
    assert_eq!(sorted, vec![s("chunk_000.mp3"), s("chunk_001.mp3"), s("chunk_002.mp3")]);
}

#[test]
fn probe_reads_known_diagnostic_lines() {
    let stderr = "Input #0, mp3, from 'src/audio.mp3':\n  Metadata:\n    encoder         : Lavf58.29.100\n  Duration: 00:00:05.04, start: 0.023021, bitrate: 128 kb/s\n";
    let info = parse_media_info(stderr);
    assert_eq!(info.format, s("mp3"));
    assert_eq!(info.duration, s("00:00:05.04"));
    assert_eq!(info.bitrate, s("128 kb/s"));
}

#[test]
fn probe_falls_back_when_markers_missing() {
    let info = parse_media_info("no diagnostics here\n");
    assert_eq!(info.duration, s("unknown"));
    assert_eq!(info.bitrate, s("unknown"));
    assert_eq!(info.format, s("unknown"));
}

#[test]
fn probe_handles_carriage_returns() {
    let stderr = "Input #0, wav, from 'a.wav':\r\n  Duration: 00:00:02.00, bitrate: 1411 kb/s\r\n";
    let info = parse_media_info(stderr);
    assert_eq!(info.format, s("wav"));
    assert_eq!(info.duration, s("00:00:02.00"));
}

#[test]
fn whisper_command_args() {
    let w = WhisperClient::new();
    assert_eq!(w.binary_path, s("whisper"));
    assert_eq!(w.model, s("base"));
    let cmd = w.transcribe_command("src/video.mov", "src/videos");
    assert_eq!(cmd.program, s("whisper"));
    let got: Vec<&str> = cmd.args.iter().map(|a| a.as_str()).collect();
    assert_eq!(got, vec!["src/video.mov", "--model", "base", "--output_dir", "src/videos"]);
}

#[test]
fn whisper_outcome_passes_stdout_through() {
    let ok = CommandResult {
        exit_code: 0,
        stdout: s("[00:00.000 --> 00:02.000]  Hello there\n"),
        stderr: s(""),
    };
    assert_eq!(transcribe_outcome(&ok).unwrap(), s("[00:00.000 --> 00:02.000]  Hello there\n"));
}

#[test]
fn whisper_outcome_surfaces_stderr_exactly() {
    let bad = CommandResult { exit_code: 2, stdout: s(""), stderr: s("model not found") };
    match transcribe_outcome(&bad) {
        Err(PipelineError::ExternalProcess { detail }) => assert_eq!(detail, s("model not found")),
        _ => panic!("expected the external process error"),
    }
}

#[test]
fn template_paths() {
    assert_eq!(PromptTemplate::MedManSports.template_path(), "prompt_dev/medmansports.md");
    assert_eq!(PromptTemplate::MamaMeditations.template_path(), "prompt_dev/mamameditation.md");
}

#[test]
fn template_fill_replaces_every_placeholder() {
    let template = "Intro: {{TRANSCRIPT_TEXT}}\nAgain: {{TRANSCRIPT_TEXT}}!";
    let filled = fill_template(template, "hello");
    assert_eq!(filled, s("Intro: hello\nAgain: hello!"));
}

#[test]
fn template_fill_without_placeholder_is_identity() {
    assert_eq!(fill_template("plain prompt", "hello"), s("plain prompt"));
}

#[test]
fn completion_takes_first_choice() {
    let r = completion_outcome(true, s(""), vec![s("first"), s("second")]);
    assert_eq!(r.unwrap(), s("first"));
}

#[test]
fn completion_surfaces_error_body() {
    match completion_outcome(false, s("{\"error\":\"rate limited\"}"), vec![s("x")]) {
        Err(PipelineError::RemoteApi { detail }) => {
            assert_eq!(detail, s("{\"error\":\"rate limited\"}"));
        },
        _ => panic!("expected the remote error"),
    }
}

#[test]
fn completion_empty_choices_is_distinct_error() {
    match completion_outcome(true, s(""), vec![]) {
        Err(PipelineError::RemoteApi { detail }) => {
            assert_eq!(detail, s("No response choices returned"));
        },
        _ => panic!("expected the remote error"),
    }
}

#[test]
fn error_detail_text() {
    let e = PipelineError::ExternalProcess { detail: s("boom") };
    assert_eq!(e.detail_text(), "boom");
    assert_eq!(PipelineError::EmptyResult.detail_text(), "No chunks were created");
}
