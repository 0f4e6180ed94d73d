//! Joining files without encoding.

use vstd::prelude::*;
use vstd::string::*;

use super::command;
use crate::ident;
use crate::services::merge_planner;
use crate::services::merge_planner::{MergeInput, MergeInputView};
use crate::text;

verus! {

/// A path as it stands between single quotes in the list: a quote ends the
/// quoted text, comes escaped, and begins the next one.
pub open spec fn quoted(path: Seq<char>) -> Seq<char>
    decreases path.len(),
{
    if path.len() == 0 {
        Seq::empty()
    } else if path.last() == '\'' {
        quoted(path.drop_last()) + seq!['\'', '\\', '\'', '\'']
    } else {
        quoted(path.drop_last()).push(path.last())
    }
}

/// The list of files to join, one to a line.
pub open spec fn file_list(inputs: Seq<MergeInputView>) -> Seq<char>
    decreases inputs.len(),
{
    if inputs.len() == 0 {
        Seq::empty()
    } else {
        file_list(inputs.drop_last()) + "file '"@ + quoted(inputs.last().path) + "'\n"@
    }
}

/// Append a path, with its quotes escaped.
fn push_quoted(out: &mut String, path: &str)
    ensures
        final(out)@ == old(out)@ + quoted(path@),
{
    let chars: Vec<char> = text::chars_of(path);
    let ghost before = out@;
    let mut i: usize = 0;
    assert(path@.take(0) =~= Seq::empty());
    assert(before + quoted(path@.take(0)) =~= before);
    while i < chars.len()
        invariant
            i <= chars.len(),
            chars@ == path@,
            out@ == before + quoted(path@.take(i as int)),
        decreases chars.len() - i,
    {
        let c: char = chars[i];
        let ghost so_far = quoted(path@.take(i as int));
        assert(path@.take(i + 1).drop_last() =~= path@.take(i as int));
        if c == '\'' {
            out.push('\'');
            out.push('\\');
            out.push('\'');
            out.push('\'');
            assert(out@ =~= before + (so_far + seq!['\'', '\\', '\'', '\'']));
        } else {
            out.push(c);
            assert(out@ =~= before + so_far.push(c));
        }
        i = i + 1;
    }
    assert(path@.take(i as int) =~= path@);
}

/// The list of files to join.
pub fn concat_list(inputs: &Vec<MergeInput>) -> (s: String)
    ensures
        s@ == file_list(merge_planner::input_views(inputs@)),
{
    let ghost all = merge_planner::input_views(inputs@);
    let mut s: String = String::new();
    let mut i: usize = 0;
    assert(all.take(0) =~= Seq::empty());
    assert(s@ =~= Seq::empty());
    while i < inputs.len()
        invariant
            i <= inputs.len(),
            all == merge_planner::input_views(inputs@),
            s@ == file_list(all.take(i as int)),
        decreases inputs.len() - i,
    {
        assert(all.take(i + 1).drop_last() =~= all.take(i as int));
        assert(all[i as int] == inputs@[i as int]@);
        s.append("file '");
        push_quoted(&mut s, inputs[i].path.as_str());
        s.append("'\n");
        i = i + 1;
    }
    assert(all.take(i as int) =~= all);
    s
}

/// The name of the list with the identifier `id`.
pub open spec fn list_name(id: u128) -> Seq<char> {
    "video-merger-concat-"@ + ident::hyphenated(id) + ".txt"@
}

/// A name for a list that no other list has.
pub fn concat_list_name() -> (s: String)
    ensures
        exists|id: u128| ident::is_random_id(id) && s@ == #[trigger] list_name(id),
{
    let id: u128 = ident::fresh_id();
    let mut s: String = "video-merger-concat-".to_owned();
    s.append(ident::id_text(id).as_str());
    s.append(".txt");
    assert(s@ == list_name(id));
    s
}

/// The arguments that join the files of a list.
pub open spec fn copy_args(list: Seq<char>, output: Seq<char>) -> Seq<Seq<char>> {
    command::quiet().push("-f"@).push("concat"@).push("-safe"@).push("0"@).push("-i"@).push(
        list,
    ).push("-c"@).push("copy"@).push("-progress"@).push("pipe:1"@).push("-nostats"@).push(output)
}

/// The arguments that join the files of the list at `list_path`.
pub fn stream_copy_args(list_path: &str, output_path: &str) -> (args: Vec<String>)
    ensures
        text::views(args@) == copy_args(list_path@, output_path@),
{
    let mut args: Vec<String> = command::quiet_args();
    command::arg(&mut args, "-f");
    command::arg(&mut args, "concat");
    command::arg(&mut args, "-safe");
    command::arg(&mut args, "0");
    command::arg(&mut args, "-i");
    command::arg(&mut args, list_path);
    command::arg(&mut args, "-c");
    command::arg(&mut args, "copy");
    command::arg(&mut args, "-progress");
    command::arg(&mut args, "pipe:1");
    command::arg(&mut args, "-nostats");
    command::arg(&mut args, output_path);
    args
}

/// A path without quotes stands in the list as it is.
pub proof fn lemma_plain_path_is_kept(path: Seq<char>)
    requires
        forall|i: int| 0 <= i < path.len() ==> path[i] != '\'',
    ensures
        quoted(path) == path,
    decreases path.len(),
{
    if path.len() > 0 {
        lemma_plain_path_is_kept(path.drop_last());
        assert(path =~= path.drop_last().push(path.last()));
    } else {
        assert(quoted(path) =~= path);
    }
}

} // verus!
