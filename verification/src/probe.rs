use vstd::prelude::*;
use vstd::string::*;
use crate::text::{
    find_sub,
    contains_sub,
    find_sub_str,
    contains_str,
    substr_copy,
    lemma_find_sub_characterization,
};

verus! {

/// What the probe reads from the tool's diagnostic text, as printed: the
/// duration stamp, the bitrate text, and the container format name.
pub struct MediaInfo {
    pub duration: String,
    pub bitrate: String,
    pub format: String,
}

/// A line with a trailing carriage return removed.
pub open spec fn strip_cr(l: Seq<char>) -> Seq<char> {
    if l.len() > 0 && l.last() == '\r' {
        l.drop_last()
    } else {
        l
    }
}

/// The text split at newline characters into lines.
pub open spec fn lines_of(s: Seq<char>) -> Seq<Seq<char>>
    decreases s.len(),
    via lines_of_decreases
{
    match find_sub(s, seq!['\n']) {
        Some(i) => seq![strip_cr(s.take(i))] + lines_of(s.skip(i + 1)),
        None => seq![strip_cr(s)],
    }
}

#[via_fn]
proof fn lines_of_decreases(s: Seq<char>) {
    lemma_find_sub_characterization(s, seq!['\n']);
}

/// The first line in which `pat` occurs, if any.
pub open spec fn first_line_containing(lines: Seq<Seq<char>>, pat: Seq<char>) -> Option<Seq<char>>
    decreases lines.len(),
{
    if lines.len() == 0 {
        None
    } else if contains_sub(lines[0], pat) {
        Some(lines[0])
    } else {
        first_line_containing(lines.drop_first(), pat)
    }
}

/// What follows the first occurrence of `pat` in `s`, if `pat` occurs.
pub open spec fn after_first(s: Seq<char>, pat: Seq<char>) -> Option<Seq<char>> {
    match find_sub(s, pat) {
        Some(i) => Some(s.skip(i + pat.len())),
        None => None,
    }
}

/// The prefix of `s` up to the first occurrence of `pat`; all of `s` when
/// `pat` does not occur.
pub open spec fn before_first(s: Seq<char>, pat: Seq<char>) -> Seq<char> {
    match find_sub(s, pat) {
        Some(i) => s.take(i),
        None => s,
    }
}

/// One probed field: in the first diagnostic line holding `line_pat`, the
/// text after the first `split_pat`, cut before `cut` when one is given;
/// the fallback text when nothing matched.
pub open spec fn probed_field_of(
    lines: Seq<Seq<char>>,
    line_pat: Seq<char>,
    split_pat: Seq<char>,
    cut: Option<Seq<char>>,
) -> Seq<char> {
    match first_line_containing(lines, line_pat) {
        None => "unknown"@,
        Some(l) => match after_first(l, split_pat) {
            None => "unknown"@,
            Some(rest) => match cut {
                Some(c) => before_first(rest, c),
                None => rest,
            },
        },
    }
}

/// The duration stamp of a probe: in the first diagnostic line holding the
/// duration marker, the text after it up to the following comma.
pub open spec fn duration_of(stderr: Seq<char>) -> Seq<char> {
    probed_field_of(lines_of(stderr), "Duration:"@, "Duration: "@, Some(","@))
}

/// The bitrate text of a probe: in the first diagnostic line holding the
/// bitrate marker, everything after it.
pub open spec fn bitrate_of(stderr: Seq<char>) -> Seq<char> {
    probed_field_of(lines_of(stderr), "bitrate:"@, "bitrate: "@, None)
}

/// The container format of a probe: in the first diagnostic line naming the
/// input, the text after the marker up to the following comma.
pub open spec fn format_of(stderr: Seq<char>) -> Seq<char> {
    probed_field_of(lines_of(stderr), "Input #0,"@, "Input #0, "@, Some(","@))
}

/// Splits the captured diagnostic text into lines.
pub fn split_lines(s: &str) -> (r: Vec<String>)
    ensures
        r.deep_view() == lines_of(s@),
{
    proof {
        reveal_strlit("\n");
        assert("\n"@ =~= seq!['\n']);
    }
    let mut out: Vec<String> = Vec::new();
    let mut rem: &str = s;
    proof {
        assert(lines_of(s@) =~= out.deep_view() + lines_of(rem@));
    }
    loop
        invariant_except_break
            lines_of(s@) == out.deep_view() + lines_of(rem@),
        ensures
            lines_of(s@) == out.deep_view(),
        decreases rem@.len(),
    {
        let ghost out_pre = out.deep_view();
        let rem_len = rem.unicode_len();
        match find_sub_str(rem, "\n") {
            Some(i) => {
                proof {
                    reveal_strlit("\n");
                    assert("\n"@ =~= seq!['\n']);
                    lemma_find_sub_characterization(rem@, "\n"@);
                }
                let line = if i > 0 && rem.get_char(i - 1) == '\r' {
                    substr_copy(rem, 0, i - 1)
                } else {
                    substr_copy(rem, 0, i)
                };
                proof {
                    if i > 0 && rem@[i - 1] == '\r' {
                        assert(rem@.take(i as int).last() == rem@[i - 1]);
                        assert(rem@.subrange(0, i - 1) =~= rem@.take(i as int).drop_last());
                    } else {
                        assert(rem@.subrange(0, i as int) =~= rem@.take(i as int));
                    }
                    assert(line@ == strip_cr(rem@.take(i as int)));
                }
                out.push(line);
                let new_rem = rem.substring_char(i + 1, rem_len);
                proof {
                    assert(new_rem@ =~= rem@.skip(i + 1));
                    assert(out.deep_view() =~= out_pre + seq![strip_cr(rem@.take(i as int))]);
                    assert(out.deep_view() + lines_of(new_rem@) =~= out_pre + lines_of(rem@));
                }
                rem = new_rem;
            },
            None => {
                proof {
                    reveal_strlit("\n");
                    assert("\n"@ =~= seq!['\n']);
                }
                let line = if rem_len > 0 && rem.get_char(rem_len - 1) == '\r' {
                    substr_copy(rem, 0, rem_len - 1)
                } else {
                    substr_copy(rem, 0, rem_len)
                };
                proof {
                    if rem_len > 0 && rem@[rem_len - 1] == '\r' {
                        assert(rem@.subrange(0, rem_len - 1) =~= rem@.drop_last());
                    } else {
                        assert(rem@.subrange(0, rem_len as int) =~= rem@);
                    }
                    assert(line@ == strip_cr(rem@));
                }
                out.push(line);
                proof {
                    assert(lines_of(rem@) =~= seq![strip_cr(rem@)]);
                    assert(out.deep_view() =~= out_pre + lines_of(rem@));
                }
                break;
            },
        }
    }
    out
}

/// The position of the first line in which `pat` occurs, if any.
fn find_line_index(lines: &Vec<String>, pat: &str) -> (r: Option<usize>)
    ensures
        match r {
            Some(i) => i < lines@.len() && first_line_containing(lines.deep_view(), pat@) == Some(
                lines.deep_view()[i as int],
            ),
            None => first_line_containing(lines.deep_view(), pat@) is None,
        },
{
    let n = lines.len();
    let mut k: usize = 0;
    proof {
        assert(lines.deep_view().skip(0) =~= lines.deep_view());
    }
    while k < n
        invariant
            k <= n,
            n == lines@.len(),
            first_line_containing(lines.deep_view(), pat@) == first_line_containing(
                lines.deep_view().skip(k as int),
                pat@,
            ),
        decreases n - k,
    {
        let line: &String = &lines[k];
        proof {
            assert(lines.deep_view().skip(k as int)[0] == lines.deep_view()[k as int]);
            assert(lines.deep_view()[k as int] == line@);
        }
        if contains_str(line.as_str(), pat) {
            return Some(k);
        }
        proof {
            assert(lines.deep_view().skip(k as int).drop_first() =~= lines.deep_view().skip(
                k + 1,
            ));
        }
        k = k + 1;
    }
    proof {
        assert(lines.deep_view().skip(n as int).len() == 0);
    }
    None
}

/// Scans the split diagnostic lines for one field, as the matching spec
/// function describes.
fn probed_field(lines: &Vec<String>, line_pat: &str, split_pat: &str, cut: Option<&str>) -> (r:
    String)
    ensures
        r@ == probed_field_of(
            lines.deep_view(),
            line_pat@,
            split_pat@,
            match cut {
                Some(c) => Some(c@),
                None => None,
            },
        ),
{
    let idx = match find_line_index(lines, line_pat) {
        Some(i) => i,
        None => {
            return String::from_str("unknown");
        },
    };
    let line: &String = &lines[idx];
    let llen = line.as_str().unicode_len();
    let i = match find_sub_str(line.as_str(), split_pat) {
        Some(i) => i,
        None => {
            return String::from_str("unknown");
        },
    };
    proof {
        lemma_find_sub_characterization(line@, split_pat@);
    }
    let plen = split_pat.unicode_len();
    let rest = substr_copy(line.as_str(), i + plen, llen);
    proof {
        assert(rest@ =~= line@.skip(i + split_pat@.len()));
    }
    match cut {
        Some(c) => {
            match find_sub_str(rest.as_str(), c) {
                Some(j) => {
                    proof {
                        lemma_find_sub_characterization(rest@, c@);
                    }
                    let cut_text = substr_copy(rest.as_str(), 0, j);
                    proof {
                        assert(cut_text@ =~= rest@.take(j as int));
                    }
                    cut_text
                },
                None => rest,
            }
        },
        None => rest,
    }
}

/// Reads the probed fields out of the tool's captured diagnostic text, by
/// the known line markers; a field whose marker is absent reads as the
/// fallback text.
pub fn parse_media_info(stderr: &str) -> (r: MediaInfo)
    ensures
        r.duration@ == duration_of(stderr@),
        r.bitrate@ == bitrate_of(stderr@),
        r.format@ == format_of(stderr@),
{
    let lines = split_lines(stderr);
    let duration = probed_field(&lines, "Duration:", "Duration: ", Some(","));
    let bitrate = probed_field(&lines, "bitrate:", "bitrate: ", None);
    let format = probed_field(&lines, "Input #0,", "Input #0, ", Some(","));
    MediaInfo { duration, bitrate, format }
}

} // verus!
