use vstd::prelude::*;
use vstd::string::*;
use crate::cmd::{CommandSpec, CommandResult};
use crate::error::PipelineError;

verus! {

/// Drives the external speech-to-text tool: holds the tool name and the
/// model size, and plans its invocation.
pub struct WhisperClient {
    pub binary_path: String,
    pub model: String,
}

/// The arguments of one transcription run: the input path, the model size,
/// and the directory for the tool's own output files.
pub open spec fn transcribe_args(
    input: Seq<char>,
    model: Seq<char>,
    outdir: Seq<char>,
) -> Seq<Seq<char>> {
    seq![input, "--model"@, model, "--output_dir"@, outdir]
}

impl WhisperClient {
    /// A client for the external tool under its conventional name, with the
    /// base model size.
    pub fn new() -> (r: Self)
        ensures
            r.binary_path@ == "whisper"@,
            r.model@ == "base"@,
    {
        WhisperClient {
            binary_path: String::from_str("whisper"),
            model: String::from_str("base"),
        }
    }

    /// Plans one transcription of the given input, with the tool's own
    /// output files going into the given directory.
    pub fn transcribe_command(&self, input_path: &str, output_dir: &str) -> (c: CommandSpec)
        ensures
            c.program@ == self.binary_path@,
            c.args.deep_view() == transcribe_args(input_path@, self.model@, output_dir@),
    {
        let mut args: Vec<String> = Vec::new();
        args.push(String::from_str(input_path));
        args.push(String::from_str("--model"));
        args.push(self.model.clone());
        args.push(String::from_str("--output_dir"));
        args.push(String::from_str(output_dir));
        let c = CommandSpec { program: self.binary_path.clone(), args };
        proof {
            assert(c.args.deep_view() =~= transcribe_args(input_path@, self.model@, output_dir@));
        }
        c
    }
}

/// Interprets one transcription run: a failed exit surfaces the captured
/// error text verbatim; after a successful exit the tool's standard output
/// holds the transcript text to be read.
pub fn transcribe_outcome(result: &CommandResult) -> (r: Result<String, PipelineError>)
    ensures
        match r {
            Ok(out) => result.succeeded() && out@ == result.stdout@,
            Err(e) => !result.succeeded() && (e matches PipelineError::ExternalProcess { detail }
                && detail@ == result.stderr@),
        },
{
    if result.exit_code != 0 {
        return Err(PipelineError::ExternalProcess { detail: result.stderr.clone() });
    }
    Ok(result.stdout.clone())
}

} // verus!
