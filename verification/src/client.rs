use vstd::prelude::*;
use vstd::string::*;
use crate::cmd::{CommandSpec, CommandResult};
use crate::digits::{dec_digits, u64_to_dec, ms_text, format_ms};
use crate::error::PipelineError;
use crate::naming::{is_chunk_listing_name, lex_sorted, select_chunk_names, sort_names};
use crate::text::push_char;

verus! {

/// A directory path and a file name joined with the platform separator.
pub open spec fn path_join(dir: Seq<char>, name: Seq<char>) -> Seq<char> {
    dir + seq!['/'] + name
}

pub fn join_path(dir: &str, name: &str) -> (r: String)
    ensures
        r@ == path_join(dir@, name@),
{
    let mut s = String::from_str(dir);
    push_char(&mut s, '/');
    s.append(name);
    proof {
        assert(s@ =~= path_join(dir@, name@));
    }
    s
}

/// Drives the external media tool: holds the tool name and the configuration
/// of one operation, plans each invocation as a [`CommandSpec`], and
/// interprets each [`CommandResult`].
pub struct FFmpegClient {
    pub binary_path: String,
    pub input_file: Option<String>,
    pub output_dir: Option<String>,
    pub chunk_duration_s: Option<u64>,
}

/// The arguments of a fixed-duration segmentation run: stream-copy, one
/// output file per chunk of the given duration, timestamps reset so every
/// chunk plays from zero, written to the numbered naming template.
pub open spec fn segment_args(input: Seq<char>, secs: nat, outdir: Seq<char>) -> Seq<Seq<char>> {
    seq![
        "-i"@,
        input,
        "-f"@,
        "segment"@,
        "-segment_time"@,
        dec_digits(secs),
        "-c"@,
        "copy"@,
        "-reset_timestamps"@,
        "1"@,
        path_join(outdir, "chunk_%03d.mp3"@),
    ]
}

/// The arguments of a media probe: the tool prints stream diagnostics for
/// the given input on its error stream.
pub open spec fn probe_args(input: Seq<char>) -> Seq<Seq<char>> {
    seq!["-i"@, input]
}

/// Where an extraction stops: at a bounded source time, or at the end of
/// the file.
#[derive(Clone, Copy, PartialEq, Eq, Structural)]
pub enum RegionEnd {
    At(u64),
    ToEnd,
}

/// The arguments of one extraction: stream-copy from the start offset, with
/// an explicit duration when the end is bounded, and to the end of the
/// stream otherwise.
pub open spec fn extract_args(
    input: Seq<char>,
    start_ms: nat,
    end: RegionEnd,
    output: Seq<char>,
) -> Seq<Seq<char>> {
    match end {
        RegionEnd::At(e) => seq![
            "-i"@,
            input,
            "-ss"@,
            ms_text(start_ms),
            "-t"@,
            ms_text((e - start_ms) as nat),
            "-c"@,
            "copy"@,
            output,
        ],
        RegionEnd::ToEnd => seq![
            "-i"@,
            input,
            "-ss"@,
            ms_text(start_ms),
            "-c"@,
            "copy"@,
            output,
        ],
    }
}

impl FFmpegClient {
    /// A client for the external tool under its conventional name, with no
    /// operation configured yet.
    pub fn new() -> (r: Self)
        ensures
            r.binary_path@ == "ffmpeg"@,
            r.input_file is None,
            r.output_dir is None,
            r.chunk_duration_s is None,
    {
        FFmpegClient {
            binary_path: String::from_str("ffmpeg"),
            input_file: None,
            output_dir: None,
            chunk_duration_s: None,
        }
    }

    /// Sets the input file.
    pub fn with_input(self, path: String) -> (r: Self)
        ensures
            r.input_file == Some(path),
            r.binary_path == self.binary_path,
            r.output_dir == self.output_dir,
            r.chunk_duration_s == self.chunk_duration_s,
    {
        FFmpegClient { input_file: Some(path), ..self }
    }

    /// Sets the output directory.
    pub fn with_output_dir(self, path: String) -> (r: Self)
        ensures
            r.output_dir == Some(path),
            r.binary_path == self.binary_path,
            r.input_file == self.input_file,
            r.chunk_duration_s == self.chunk_duration_s,
    {
        FFmpegClient { output_dir: Some(path), ..self }
    }

    /// Sets the chunk duration, in whole seconds.
    pub fn with_chunk_duration(self, seconds: u64) -> (r: Self)
        ensures
            r.chunk_duration_s == Some(seconds),
            r.binary_path == self.binary_path,
            r.input_file == self.input_file,
            r.output_dir == self.output_dir,
    {
        FFmpegClient { chunk_duration_s: Some(seconds), ..self }
    }

    /// Input file, output directory and a positive chunk duration are all
    /// set, as segmentation requires.
    pub open spec fn segmentation_configured(&self) -> bool {
        &&& self.input_file is Some
        &&& self.output_dir is Some
        &&& self.chunk_duration_s matches Some(d) && d > 0
    }

    /// Plans the segmentation invocation, or reports the missing or
    /// non-positive configuration as the fatal configuration error.
    pub fn segment_command(&self) -> (r: Result<CommandSpec, PipelineError>)
        ensures
            match r {
                Ok(c) => self.segmentation_configured() && c.program@ == self.binary_path@
                    && c.args.deep_view() == segment_args(
                    self.input_file->0@,
                    self.chunk_duration_s->0 as nat,
                    self.output_dir->0@,
                ),
                Err(e) => !self.segmentation_configured() && e is Configuration,
            },
    {
        let input = match &self.input_file {
            Some(p) => p,
            None => {
                return Err(
                    PipelineError::Configuration {
                        detail: String::from_str("Input file not set"),
                    },
                );
            },
        };
        let outdir = match &self.output_dir {
            Some(p) => p,
            None => {
                return Err(
                    PipelineError::Configuration {
                        detail: String::from_str("Output directory not set"),
                    },
                );
            },
        };
        let secs = match &self.chunk_duration_s {
            Some(d) => *d,
            None => {
                return Err(
                    PipelineError::Configuration {
                        detail: String::from_str("Chunk duration not set"),
                    },
                );
            },
        };
        if secs == 0 {
            return Err(
                PipelineError::Configuration {
                    detail: String::from_str("Chunk duration must be positive"),
                },
            );
        }
        let mut args: Vec<String> = Vec::new();
        args.push(String::from_str("-i"));
        args.push(input.clone());
        args.push(String::from_str("-f"));
        args.push(String::from_str("segment"));
        args.push(String::from_str("-segment_time"));
        args.push(u64_to_dec(secs));
        args.push(String::from_str("-c"));
        args.push(String::from_str("copy"));
        args.push(String::from_str("-reset_timestamps"));
        args.push(String::from_str("1"));
        args.push(join_path(outdir.as_str(), "chunk_%03d.mp3"));
        let c = CommandSpec { program: self.binary_path.clone(), args };
        proof {
            assert(c.args.deep_view() =~= segment_args(
                self.input_file->0@,
                self.chunk_duration_s->0 as nat,
                self.output_dir->0@,
            ));
        }
        Ok(c)
    }

    /// Interprets one segmentation run. A failed exit surfaces the captured
    /// error text verbatim. After a successful exit the produced chunks are
    /// recovered from the output directory listing: the matching names in
    /// ascending name order, each joined to the output directory. A
    /// successful run that left no matching names is the distinct empty
    /// outcome, never an empty success.
    pub fn split_outcome(&self, result: &CommandResult, listing: Vec<String>) -> (r: Result<
        Vec<String>,
        PipelineError,
    >)
        requires
            self.output_dir is Some,
        ensures
            match r {
                Ok(chunks) => result.succeeded() && chunks@.len() > 0 && chunks@.len()
                    == listing@.filter(|s: String| is_chunk_listing_name(s@)).len() && (exists|
                    names: Seq<String>,
                |
                    #[trigger] names.to_multiset() == listing@.filter(
                        |s: String| is_chunk_listing_name(s@),
                    ).to_multiset() && lex_sorted(names) && chunks@.len() == names.len() && (forall|
                        i: int,
                    |
                        0 <= i < names.len() ==> chunks@[i]@ == path_join(
                            self.output_dir->0@,
                            names[i]@,
                        ))),
                Err(e) => {
                    ||| (!result.succeeded() && (e matches PipelineError::ExternalProcess {
                        detail,
                    } && detail@ == result.stderr@))
                    ||| (result.succeeded() && e is EmptyResult && listing@.filter(
                        |s: String| is_chunk_listing_name(s@),
                    ).len() == 0)
                },
            },
    {
        if result.exit_code != 0 {
            return Err(PipelineError::ExternalProcess { detail: result.stderr.clone() });
        }
        let selected = select_chunk_names(listing);
        let names = sort_names(selected);
        proof {
            names@.to_multiset_ensures();
            listing@.filter(|s: String| is_chunk_listing_name(s@)).to_multiset_ensures();
        }
        if names.len() == 0 {
            return Err(PipelineError::EmptyResult);
        }
        let dir = match &self.output_dir {
            Some(d) => d,
            None => {
                proof {
                    assert(false);
                }
                unreached()
            },
        };
        let ghost names_view = names@;
        let ghost dir_view = dir@;
        let mut chunks: Vec<String> = Vec::new();
        let mut rest = names;
        let ghost mut k: int = 0;
        proof {
            assert(rest@ =~= names_view.skip(0));
        }
        while rest.len() > 0
            invariant
                0 <= k <= names_view.len(),
                rest@ == names_view.skip(k),
                chunks@.len() == k,
                forall|i: int|
                    0 <= i < k ==> #[trigger] chunks@[i]@ == path_join(dir_view, names_view[i]@),
                dir_view == dir@,
            decreases rest@.len(),
        {
            let name = rest.remove(0);
            proof {
                assert(names_view.skip(k)[0] == names_view[k]);
                assert(names_view.skip(k).remove(0) =~= names_view.skip(k + 1));
            }
            let p = join_path(dir.as_str(), name.as_str());
            chunks.push(p);
            proof {
                k = k + 1;
            }
        }
        proof {
            assert(names_view.skip(k).len() == 0);
            assert(k == names_view.len());
            assert(names_view.to_multiset() == listing@.filter(
                |s: String| is_chunk_listing_name(s@),
            ).to_multiset());
            assert(lex_sorted(names_view));
        }
        Ok(chunks)
    }

    /// Plans one extraction of a source window into the given output path,
    /// or reports the unset input as the fatal configuration error.
    pub fn extract_command(&self, start_ms: u64, end: RegionEnd, output_path: &str) -> (r: Result<
        CommandSpec,
        PipelineError,
    >)
        requires
            end matches RegionEnd::At(e) ==> start_ms <= e,
        ensures
            match r {
                Ok(c) => self.input_file is Some && c.program@ == self.binary_path@
                    && c.args.deep_view() == extract_args(
                    self.input_file->0@,
                    start_ms as nat,
                    end,
                    output_path@,
                ),
                Err(e) => self.input_file is None && e is Configuration,
            },
    {
        let input = match &self.input_file {
            Some(p) => p,
            None => {
                return Err(
                    PipelineError::Configuration {
                        detail: String::from_str("Input file not set"),
                    },
                );
            },
        };
        let mut args: Vec<String> = Vec::new();
        args.push(String::from_str("-i"));
        args.push(input.clone());
        args.push(String::from_str("-ss"));
        args.push(format_ms(start_ms));
        match end {
            RegionEnd::At(e) => {
                args.push(String::from_str("-t"));
                args.push(format_ms(e - start_ms));
            },
            RegionEnd::ToEnd => {},
        }
        args.push(String::from_str("-c"));
        args.push(String::from_str("copy"));
        args.push(String::from_str(output_path));
        let c = CommandSpec { program: self.binary_path.clone(), args };
        proof {
            match end {
                RegionEnd::At(e) => {
                    assert(c.args.deep_view() =~= extract_args(
                        self.input_file->0@,
                        start_ms as nat,
                        end,
                        output_path@,
                    ));
                },
                RegionEnd::ToEnd => {
                    assert(c.args.deep_view() =~= extract_args(
                        self.input_file->0@,
                        start_ms as nat,
                        end,
                        output_path@,
                    ));
                },
            }
        }
        Ok(c)
    }

    /// Plans the three extractions of a region split, in role order: before
    /// the selection, the selection itself, and after it to the end of the
    /// file. Missing input or output directory is the fatal configuration
    /// error.
    pub fn split_region_commands(&self, start_ms: u64, end_ms: u64) -> (r: Result<
        (CommandSpec, CommandSpec, CommandSpec),
        PipelineError,
    >)
        requires
            start_ms <= end_ms,
        ensures
            match r {
                Ok(cs) => self.input_file is Some && self.output_dir is Some && cs.0.program@
                    == self.binary_path@ && cs.1.program@ == self.binary_path@ && cs.2.program@
                    == self.binary_path@ && cs.0.args.deep_view() == extract_args(
                    self.input_file->0@,
                    0,
                    RegionEnd::At(start_ms),
                    path_join(self.output_dir->0@, "chunk_before.mp3"@),
                ) && cs.1.args.deep_view() == extract_args(
                    self.input_file->0@,
                    start_ms as nat,
                    RegionEnd::At(end_ms),
                    path_join(self.output_dir->0@, "chunk_selected.mp3"@),
                ) && cs.2.args.deep_view() == extract_args(
                    self.input_file->0@,
                    end_ms as nat,
                    RegionEnd::ToEnd,
                    path_join(self.output_dir->0@, "chunk_after.mp3"@),
                ),
                Err(e) => (self.input_file is None || self.output_dir is None)
                    && e is Configuration,
            },
    {
        let outdir = match &self.output_dir {
            Some(p) => p,
            None => {
                return Err(
                    PipelineError::Configuration {
                        detail: String::from_str("Output directory not set"),
                    },
                );
            },
        };
        let before = join_path(outdir.as_str(), "chunk_before.mp3");
        let selected = join_path(outdir.as_str(), "chunk_selected.mp3");
        let after = join_path(outdir.as_str(), "chunk_after.mp3");
        let c1 = match self.extract_command(0, RegionEnd::At(start_ms), before.as_str()) {
            Ok(c) => c,
            Err(e) => {
                return Err(e);
            },
        };
        let c2 = match self.extract_command(start_ms, RegionEnd::At(end_ms), selected.as_str()) {
            Ok(c) => c,
            Err(e) => {
                return Err(e);
            },
        };
        let c3 = match self.extract_command(end_ms, RegionEnd::ToEnd, after.as_str()) {
            Ok(c) => c,
            Err(e) => {
                return Err(e);
            },
        };
        Ok((c1, c2, c3))
    }

    /// Plans the probe invocation, or reports the unset input as the fatal
    /// configuration error.
    pub fn probe_command(&self) -> (r: Result<CommandSpec, PipelineError>)
        ensures
            match r {
                Ok(c) => self.input_file is Some && c.program@ == self.binary_path@
                    && c.args.deep_view() == probe_args(self.input_file->0@),
                Err(e) => self.input_file is None && e is Configuration,
            },
    {
        let input = match &self.input_file {
            Some(p) => p,
            None => {
                return Err(
                    PipelineError::Configuration {
                        detail: String::from_str("Input file not set"),
                    },
                );
            },
        };
        let mut args: Vec<String> = Vec::new();
        args.push(String::from_str("-i"));
        args.push(input.clone());
        let c = CommandSpec { program: self.binary_path.clone(), args };
        proof {
            assert(c.args.deep_view() =~= probe_args(self.input_file->0@));
        }
        Ok(c)
    }
}

/// Combines the three extraction outcomes of a region split: all three must
/// succeed, and the earliest failure's captured error text is the failure
/// detail. Success always holds exactly three chunks, in fixed role order:
/// before, selected, after.
pub fn region_outcome(
    r1: &CommandResult,
    r2: &CommandResult,
    r3: &CommandResult,
    before: String,
    selected: String,
    after: String,
) -> (r: Result<Vec<String>, PipelineError>)
    ensures
        match r {
            Ok(chunks) => r1.succeeded() && r2.succeeded() && r3.succeeded() && chunks@.len() == 3
                && chunks@[0] == before && chunks@[1] == selected && chunks@[2] == after,
            Err(e) => !(r1.succeeded() && r2.succeeded() && r3.succeeded()) && (e matches
            PipelineError::ExternalProcess { detail } && detail@ == if !r1.succeeded() {
                r1.stderr@
            } else if !r2.succeeded() {
                r2.stderr@
            } else {
                r3.stderr@
            }),
        },
{
    if r1.exit_code != 0 {
        return Err(PipelineError::ExternalProcess { detail: r1.stderr.clone() });
    }
    if r2.exit_code != 0 {
        return Err(PipelineError::ExternalProcess { detail: r2.stderr.clone() });
    }
    if r3.exit_code != 0 {
        return Err(PipelineError::ExternalProcess { detail: r3.stderr.clone() });
    }
    let mut chunks: Vec<String> = Vec::new();
    chunks.push(before);
    chunks.push(selected);
    chunks.push(after);
    Ok(chunks)
}

} // verus!
