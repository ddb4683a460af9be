use vstd::prelude::*;
use vstd::string::*;
use crate::cmd::{CommandSpec, CommandResult};
use crate::error::PipelineError;
use crate::text::push_char;

verus! {

/// One path character as the concatenation manifest carries it: an embedded
/// single quote is closed, escaped and reopened; any other character stands
/// as it is.
pub open spec fn escaped_char(c: char) -> Seq<char> {
    if c == '\'' {
        seq!['\'', '\\', '\'', '\'']
    } else {
        seq![c]
    }
}

/// A path with every embedded single quote escaped.
pub open spec fn escape_quotes(p: Seq<char>) -> Seq<char>
    decreases p.len(),
{
    if p.len() == 0 {
        Seq::empty()
    } else {
        escape_quotes(p.drop_last()) + escaped_char(p.last())
    }
}

/// One manifest line: the word `file`, the quoted escaped path, a newline.
pub open spec fn manifest_line(p: Seq<char>) -> Seq<char> {
    "file '"@ + escape_quotes(p) + "'\n"@
}

/// The whole manifest: one line per chunk path, in the caller's order.
pub open spec fn manifest_text(paths: Seq<Seq<char>>) -> Seq<char>
    decreases paths.len(),
{
    if paths.len() == 0 {
        Seq::empty()
    } else {
        manifest_text(paths.drop_last()) + manifest_line(paths.last())
    }
}

/// Appends the escaped form of `p` to `out`.
fn append_escaped(out: &mut String, p: &str)
    ensures
        final(out)@ == old(out)@ + escape_quotes(p@),
{
    let n = p.unicode_len();
    let mut i: usize = 0;
    proof {
        assert(old(out)@ + escape_quotes(p@.take(0)) =~= old(out)@);
    }
    while i < n
        invariant
            i <= n,
            n == p@.len(),
            out@ == old(out)@ + escape_quotes(p@.take(i as int)),
        decreases n - i,
    {
        let c = p.get_char(i);
        proof {
            assert(p@.take(i + 1).drop_last() =~= p@.take(i as int));
            assert(p@.take(i + 1).last() == p@[i as int]);
        }
        if c == '\'' {
            out.append("'\\''");
            proof {
                reveal_strlit("'\\''");
                assert("'\\''"@ =~= escaped_char('\''));
                assert(out@ =~= old(out)@ + escape_quotes(p@.take(i + 1)));
            }
        } else {
            push_char(out, c);
            proof {
                assert(out@ =~= old(out)@ + escape_quotes(p@.take(i + 1)));
            }
        }
        i = i + 1;
    }
    proof {
        assert(p@.take(n as int) =~= p@);
    }
}

/// Builds the ordered manifest for a merge. The chunk list must not be
/// empty: an empty list is rejected up front as a configuration error,
/// since the downstream tool cannot concatenate nothing.
pub fn merge_manifest(chunks: &Vec<String>) -> (r: Result<String, PipelineError>)
    ensures
        match r {
            Ok(m) => chunks@.len() > 0 && m@ == manifest_text(chunks.deep_view()),
            Err(e) => chunks@.len() == 0 && e is Configuration,
        },
{
    if chunks.len() == 0 {
        return Err(
            PipelineError::Configuration { detail: String::from_str("No chunks to merge") },
        );
    }
    let mut out = String::new();
    let n = chunks.len();
    let mut i: usize = 0;
    proof {
        assert(chunks.deep_view().take(0) =~= Seq::<Seq<char>>::empty());
        assert(out@ =~= manifest_text(chunks.deep_view().take(0)));
    }
    while i < n
        invariant
            i <= n,
            n == chunks@.len(),
            out@ == manifest_text(chunks.deep_view().take(i as int)),
        decreases n - i,
    {
        let ghost pre = out@;
        out.append("file '");
        let chunk: &String = &chunks[i];
        append_escaped(&mut out, chunk.as_str());
        out.append("'\n");
        proof {
            assert(chunks.deep_view().take(i + 1).drop_last() =~= chunks.deep_view().take(i as int));
            assert(chunks.deep_view().take(i + 1).last() == chunks.deep_view()[i as int]);
            assert(chunks.deep_view()[i as int] == chunks@[i as int]@);
            assert(out@ =~= pre + manifest_line(chunks@[i as int]@));
            assert(out@ =~= manifest_text(chunks.deep_view().take(i + 1)));
        }
        i = i + 1;
    }
    proof {
        assert(chunks.deep_view().take(n as int) =~= chunks.deep_view());
    }
    Ok(out)
}

/// The arguments of a concatenation run: the concat reader on the manifest,
/// absolute paths permitted, stream-copy, written to the output path.
pub open spec fn concat_args(manifest: Seq<char>, output: Seq<char>) -> Seq<Seq<char>> {
    seq!["-f"@, "concat"@, "-safe"@, "0"@, "-i"@, manifest, "-c"@, "copy"@, output]
}

/// Plans the concatenation invocation for a merge.
pub fn concat_command(binary_path: &String, manifest_path: &str, output_path: &str) -> (c:
    CommandSpec)
    ensures
        c.program@ == binary_path@,
        c.args.deep_view() == concat_args(manifest_path@, output_path@),
{
    let mut args: Vec<String> = Vec::new();
    args.push(String::from_str("-f"));
    args.push(String::from_str("concat"));
    args.push(String::from_str("-safe"));
    args.push(String::from_str("0"));
    args.push(String::from_str("-i"));
    args.push(String::from_str(manifest_path));
    args.push(String::from_str("-c"));
    args.push(String::from_str("copy"));
    args.push(String::from_str(output_path));
    let c = CommandSpec { program: binary_path.clone(), args };
    proof {
        assert(c.args.deep_view() =~= concat_args(manifest_path@, output_path@));
    }
    c
}

/// Interprets one concatenation run: on success the output path is returned
/// unchanged; a failed exit surfaces the captured error text verbatim.
pub fn merge_outcome(result: &CommandResult, output_path: String) -> (r: Result<
    String,
    PipelineError,
>)
    ensures
        match r {
            Ok(p) => result.succeeded() && p == output_path,
            Err(e) => !result.succeeded() && (e matches PipelineError::ExternalProcess { detail }
                && detail@ == result.stderr@),
        },
{
    if result.exit_code != 0 {
        return Err(PipelineError::ExternalProcess { detail: result.stderr.clone() });
    }
    Ok(output_path)
}

} // verus!
