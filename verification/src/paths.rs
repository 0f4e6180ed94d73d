//! Paths as text, with `/` between their components.
//!
//! A path is taken apart as on Unix: repeated slashes and components `.` do not
//! count, except for a `.` that a relative path begins with.

use vstd::prelude::*;
use vstd::string::*;

use crate::text;

verus! {

/// How much of the path is the root: one slash, or nothing.
pub open spec fn root_len(p: Seq<char>) -> int {
    if p.len() > 0 && p[0] == '/' {
        1
    } else {
        0
    }
}

/// The path without the slashes and components `.` at its end. The root stays.
pub open spec fn trim_tail(p: Seq<char>) -> Seq<char>
    decreases p.len(),
{
    if p.len() <= root_len(p) {
        p
    } else if p.last() == '/' {
        trim_tail(p.drop_last())
    } else if p.last() == '.' && p.len() >= 2 && p[p.len() - 2] == '/' {
        trim_tail(p.drop_last())
    } else {
        p
    }
}

/// Where the last component begins: behind the last slash.
pub open spec fn last_start(p: Seq<char>) -> int
    decreases p.len(),
{
    if p.len() == 0 || p.last() == '/' {
        p.len() as int
    } else {
        last_start(p.drop_last())
    }
}

/// The last component of the path; it is empty where there is none.
pub open spec fn last_component(p: Seq<char>) -> Seq<char> {
    trim_tail(p).skip(last_start(trim_tail(p)))
}

/// The name of the file that the path leads to, if it ends in a name.
pub open spec fn name_of(p: Seq<char>) -> Option<Seq<char>> {
    let c = last_component(p);
    if c.len() == 0 || c == "."@ || c == ".."@ {
        None
    } else {
        Some(c)
    }
}

/// The path without its last component, if it has one.
pub open spec fn parent_of(p: Seq<char>) -> Option<Seq<char>> {
    let t = trim_tail(p);
    if last_component(p).len() == 0 {
        None
    } else {
        Some(trim_tail(t.take(last_start(t))))
    }
}

/// Trimming the end makes no path longer.
pub proof fn lemma_trim_tail_shortens(p: Seq<char>)
    ensures
        trim_tail(p).len() <= p.len(),
    decreases p.len(),
{
    if p.len() > root_len(p) {
        lemma_trim_tail_shortens(p.drop_last());
    }
}

/// The last component begins inside the path and holds no slash.
pub proof fn lemma_last_start_is_inside(p: Seq<char>)
    ensures
        0 <= last_start(p) <= p.len(),
        forall|i: int| last_start(p) <= i < p.len() ==> #[trigger] p[i] != '/',
    decreases p.len(),
{
    if p.len() > 0 && p.last() != '/' {
        lemma_last_start_is_inside(p.drop_last());
        assert forall|i: int| last_start(p) <= i < p.len() implies #[trigger] p[i] != '/' by {
            if i < p.len() - 1 {
                assert(p.drop_last()[i] == p[i]);
            }
        }
    }
}

/// The components of a path. The root counts as one, which is a slash.
pub open spec fn components(p: Seq<char>) -> Seq<Seq<char>>
    decreases p.len(),
{
    let t = trim_tail(p);
    if last_component(p).len() == 0 {
        if t.len() == 0 {
            Seq::empty()
        } else {
            seq![seq!['/']]
        }
    } else {
        proof {
            lemma_trim_tail_shortens(p);
            lemma_last_start_is_inside(t);
        }
        components(t.take(last_start(t))).push(last_component(p))
    }
}

/// Where the last dot of a name is, or -1.
pub open spec fn last_dot(name: Seq<char>) -> int
    decreases name.len(),
{
    if name.len() == 0 {
        -1
    } else if name.last() == '.' {
        name.len() - 1
    } else {
        last_dot(name.drop_last())
    }
}

/// What stands behind the last dot of the file's name. A dot at the very start
/// does not count.
pub open spec fn extension_of(p: Seq<char>) -> Option<Seq<char>> {
    match name_of(p) {
        Some(name) => if last_dot(name) > 0 {
            Some(name.skip(last_dot(name) + 1))
        } else {
            None
        },
        None => None,
    }
}

/// The path that `name` leads to from `dir`. An absolute `name` leads there
/// from anywhere.
pub open spec fn joined(dir: Seq<char>, name: Seq<char>) -> Seq<char> {
    if name.len() > 0 && name[0] == '/' {
        name
    } else if dir.len() == 0 || dir.last() == '/' {
        dir + name
    } else {
        dir + seq!['/'] + name
    }
}

/// The end of `chars[..to]` without slashes and components `.`.
fn tail_end(chars: &Vec<char>, to: usize) -> (end: usize)
    requires
        to <= chars.len(),
    ensures
        end <= to,
        chars@.take(end as int) == trim_tail(chars@.take(to as int)),
{
    let root: usize = if to > 0 && chars[0] == '/' {
        1
    } else {
        0
    };
    let mut end: usize = to;
    while end > root && (chars[end - 1] == '/' || (chars[end - 1] == '.' && end >= 2 && chars[end
        - 2] == '/'))
        invariant
            root <= end <= to <= chars.len(),
            root == root_len(chars@.take(to as int)),
            trim_tail(chars@.take(end as int)) == trim_tail(chars@.take(to as int)),
        decreases end,
    {
        proof {
            let p = chars@.take(end as int);
            assert(p.drop_last() =~= chars@.take(end - 1));
            assert(p[0] == chars@[0]);
            assert(p.last() == chars@[end - 1]);
            if end >= 2 {
                assert(p[p.len() - 2] == chars@[end - 2]);
            }
            assert(root_len(p) == root);
        }
        end = end - 1;
    }
    proof {
        let p = chars@.take(end as int);
        if end > 0 {
            assert(p[0] == chars@[0]);
            assert(p.last() == chars@[end - 1]);
            if end >= 2 {
                assert(p[p.len() - 2] == chars@[end - 2]);
            }
        }
        assert(end > 0 ==> root_len(p) == root);
        assert(trim_tail(p) == p);
    }
    end
}

/// Where the last component of `chars[..end]` begins.
fn component_start(chars: &Vec<char>, end: usize) -> (start: usize)
    requires
        end <= chars.len(),
    ensures
        start <= end,
        start == last_start(chars@.take(end as int)),
{
    let mut start: usize = end;
    while start > 0 && chars[start - 1] != '/'
        invariant
            start <= end <= chars.len(),
            last_start(chars@.take(start as int)) == last_start(chars@.take(end as int)),
        decreases start,
    {
        assert(chars@.take(start as int).drop_last() =~= chars@.take(start - 1));
        start = start - 1;
    }
    start
}

/// The name of the file that the path leads to.
pub fn file_name(path: &str) -> (r: Option<String>)
    ensures
        text::opt_view(r) == name_of(path@),
{
    let chars: Vec<char> = text::chars_of(path);
    assert(path@.take(path@.len() as int) =~= path@);
    let end: usize = tail_end(&chars, chars.len());
    let start: usize = component_start(&chars, end);
    let name: String = text::text_of(&chars, start, end);
    assert(name@ =~= last_component(path@));
    if start == end || text::same_text(name.as_str(), ".") || text::same_text(
        name.as_str(),
        "..",
    ) {
        None
    } else {
        Some(name)
    }
}

/// The name of the file, or an empty text where the path does not end in a
/// name.
pub open spec fn display_name_of(p: Seq<char>) -> Seq<char> {
    match name_of(p) {
        Some(name) => name,
        None => Seq::empty(),
    }
}

/// The name of the file, or an empty text.
pub fn display_name(path: &str) -> (s: String)
    ensures
        s@ == display_name_of(path@),
{
    match file_name(path) {
        Some(name) => name,
        None => String::new(),
    }
}

/// The path without its last component.
pub fn parent(path: &str) -> (r: Option<String>)
    ensures
        text::opt_view(r) == parent_of(path@),
{
    let chars: Vec<char> = text::chars_of(path);
    assert(path@.take(path@.len() as int) =~= path@);
    let end: usize = tail_end(&chars, chars.len());
    let start: usize = component_start(&chars, end);
    if start == end {
        return None;
    }
    let stop: usize = tail_end(&chars, start);
    let dir: String = text::text_of(&chars, 0, stop);
    assert(dir@ =~= chars@.take(stop as int));
    assert(chars@.take(end as int).take(start as int) =~= chars@.take(start as int));
    Some(dir)
}

/// Whether two paths have the same components.
pub fn same_path(a: &str, b: &str) -> (same: bool)
    ensures
        same == (components(a@) == components(b@)),
{
    let left: Vec<char> = text::chars_of(a);
    let right: Vec<char> = text::chars_of(b);
    let mut i: usize = left.len();
    let mut j: usize = right.len();
    assert(a@.take(i as int) =~= a@);
    assert(b@.take(j as int) =~= b@);
    loop
        invariant
            left@ == a@,
            right@ == b@,
            i <= left.len(),
            j <= right.len(),
            (components(a@) == components(b@)) == (components(a@.take(i as int)) == components(
                b@.take(j as int),
            )),
        decreases i,
    {
        let ghost p = a@.take(i as int);
        let ghost q = b@.take(j as int);
        let end: usize = tail_end(&left, i);
        let start: usize = component_start(&left, end);
        let stop: usize = tail_end(&right, j);
        let begin: usize = component_start(&right, stop);
        let name: String = text::text_of(&left, start, end);
        let other: String = text::text_of(&right, begin, stop);
        proof {
            lemma_last_start_is_inside(trim_tail(p));
            lemma_last_start_is_inside(trim_tail(q));
            assert(name@ =~= last_component(p));
            assert(other@ =~= last_component(q));
            assert(trim_tail(p).take(start as int) =~= a@.take(start as int));
            assert(trim_tail(q).take(begin as int) =~= b@.take(begin as int));
        }
        if start == end || begin == stop {
            let same: bool = start == end && begin == stop && (end == 0) == (stop == 0);
            proof {
                if start < end {
                    assert(components(p).last() == name@);
                    assert(name@[0] != '/');
                    assert(components(q) != components(p));
                }
                if begin < stop {
                    assert(components(q).last() == other@);
                    assert(other@[0] != '/');
                    assert(components(q) != components(p));
                }
            }
            return same;
        }
        let alike: bool = text::same_text(name.as_str(), other.as_str());
        proof {
            let x = components(a@.take(start as int));
            let y = components(b@.take(begin as int));
            assert(components(p) == x.push(name@));
            assert(components(q) == y.push(other@));
            assert(x.push(name@).drop_last() =~= x);
            assert(y.push(other@).drop_last() =~= y);
            assert(x.push(name@).last() == name@);
            assert(y.push(other@).last() == other@);
        }
        if !alike {
            return false;
        }
        i = start;
        j = begin;
    }
}

/// What stands behind the last dot of the file's name.
pub fn extension(path: &str) -> (r: Option<String>)
    ensures
        text::opt_view(r) == extension_of(path@),
{
    let name: String = match file_name(path) {
        Some(name) => name,
        None => return None,
    };
    let chars: Vec<char> = text::chars_of(name.as_str());
    let n: usize = chars.len();
    let mut i: usize = n;
    assert(name@.take(n as int) =~= name@);
    while i > 0 && chars[i - 1] != '.'
        invariant
            i <= n == chars.len(),
            chars@ == name@,
            last_dot(name@.take(i as int)) == last_dot(name@),
        decreases i,
    {
        assert(name@.take(i as int).drop_last() =~= name@.take(i - 1));
        i = i - 1;
    }
    assert(last_dot(name@) == i - 1);
    if i > 1 {
        let ext: String = text::text_of(&chars, i, n);
        assert(ext@ =~= name@.skip(i as int));
        Some(ext)
    } else {
        None
    }
}

/// The path that `name` leads to from `dir`.
pub fn join(dir: &str, name: &str) -> (s: String)
    ensures
        s@ == joined(dir@, name@),
{
    let first: Vec<char> = text::chars_of(name);
    if first.len() > 0 && first[0] == '/' {
        return name.to_owned();
    }
    let chars: Vec<char> = text::chars_of(dir);
    let mut s: String = text::text_of(&chars, 0, chars.len());
    assert(s@ =~= dir@);
    if chars.len() > 0 && chars[chars.len() - 1] != '/' {
        s.push('/');
        assert(s@ =~= dir@ + seq!['/']);
    }
    s.append(name);
    s
}

/// A letter as its small counterpart, if it is one of the English alphabet.
pub open spec fn lower(c: char) -> char {
    if 'A' <= c <= 'Z' {
        ((c as u32 + 32) as u8) as char
    } else {
        c
    }
}

pub open spec fn lowered(s: Seq<char>) -> Seq<char> {
    s.map_values(|c: char| lower(c))
}

fn lower_char(c: char) -> (r: char)
    ensures
        r == lower(c),
{
    if c >= 'A' && c <= 'Z' {
        (c as u32 + 32) as u8 as char
    } else {
        c
    }
}

/// The text with the capital letters of the English alphabet made small.
pub fn to_lower(s: &str) -> (r: String)
    ensures
        r@ == lowered(s@),
{
    let chars: Vec<char> = text::chars_of(s);
    let mut r: String = String::new();
    let mut i: usize = 0;
    assert(r@ =~= lowered(s@).take(0));
    while i < chars.len()
        invariant
            i <= chars.len(),
            chars@ == s@,
            r@ == lowered(s@).take(i as int),
        decreases chars.len() - i,
    {
        r.push(lower_char(chars[i]));
        i = i + 1;
        assert(lowered(s@).take(i as int) =~= lowered(s@).take(i - 1).push(
            lower(s@[i - 1]),
        ));
    }
    assert(lowered(s@).take(i as int) =~= lowered(s@));
    r
}

/// The extension of a video file, in small letters.
pub open spec fn is_video_extension(ext: Seq<char>) -> bool {
    ||| ext == "mp4"@
    ||| ext == "mov"@
    ||| ext == "mkv"@
    ||| ext == "avi"@
    ||| ext == "webm"@
    ||| ext == "m4v"@
}

/// Whether a path looks like that of a video.
pub open spec fn is_video(path: Seq<char>) -> bool {
    match extension_of(path) {
        Some(ext) => is_video_extension(lowered(ext)),
        None => false,
    }
}

/// Whether the path looks like that of a video file, by its extension in any
/// case.
pub fn is_video_file(path: &str) -> (r: bool)
    ensures
        r == is_video(path@),
{
    match extension(path) {
        Some(ext) => {
            let low: String = to_lower(ext.as_str());
            let e: &str = low.as_str();
            text::same_text(e, "mp4") || text::same_text(e, "mov") || text::same_text(e, "mkv")
                || text::same_text(e, "avi") || text::same_text(e, "webm") || text::same_text(
                e,
                "m4v",
            )
        },
        None => false,
    }
}

/// Whether the path looks like that of a JPEG picture.
pub fn is_jpeg_file(path: &str) -> (r: bool)
    ensures
        r == match extension_of(path@) {
            Some(ext) => lowered(ext) == "jpg"@ || lowered(ext) == "jpeg"@,
            None => false,
        },
{
    match extension(path) {
        Some(ext) => {
            let low: String = to_lower(ext.as_str());
            text::same_text(low.as_str(), "jpg") || text::same_text(low.as_str(), "jpeg")
        },
        None => false,
    }
}

/// The folder and the file of a path made of them come back from it.
pub proof fn lemma_join_taken_apart(dir: Seq<char>, name: Seq<char>)
    requires
        name.len() > 0,
        forall|i: int| 0 <= i < name.len() ==> name[i] != '/',
        name != "."@,
        name != ".."@,
        trim_tail(dir) == dir,
    ensures
        name_of(joined(dir, name)) == Some(name),
        parent_of(joined(dir, name)) == Some(dir),
{
    let p = joined(dir, name);
    let head = if dir.len() == 0 || dir.last() == '/' {
        dir
    } else {
        dir.push('/')
    };
    reveal_strlit(".");
    assert(dir + seq!['/'] =~= dir.push('/'));
    assert(p =~= head + name);
    assert(p.last() == name.last());
    if name.last() == '.' && p.len() >= 2 && p[p.len() - 2] == '/' {
        if name.len() == 1 {
            assert(name =~= "."@);
        } else {
            assert(p[p.len() - 2] == name[name.len() - 2]);
        }
    }
    assert(trim_tail(p) == p);
    lemma_last_start(head, name);
    assert(p.skip(head.len() as int) =~= name);
    assert(p.take(head.len() as int) =~= head);
    if head.len() != dir.len() {
        assert(head.drop_last() =~= dir);
        assert(head.len() > root_len(head));
    }
}

proof fn lemma_last_start(head: Seq<char>, name: Seq<char>)
    requires
        head.len() == 0 || head.last() == '/',
        forall|i: int| 0 <= i < name.len() ==> name[i] != '/',
    ensures
        last_start(head + name) == head.len(),
    decreases name.len(),
{
    if name.len() == 0 {
        assert(head + name =~= head);
    } else {
        lemma_last_start(head, name.drop_last());
        assert((head + name).drop_last() =~= head + name.drop_last());
    }
}

} // verus!
