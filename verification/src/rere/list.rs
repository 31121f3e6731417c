//! The list of commands: one command a line, blank lines and lines that
//! start with `//` left out.

use vstd::prelude::*;
use vstd::slice::{slice_subrange, slice_to_vec};
use vstd::utf8::*;
use crate::bi_core::text::text_of;
use crate::bi_core::NEWLINE;
use crate::parser::reader::{find_from, scan};

verus! {

/// The byte `/`.
pub const SLASH: u8 = 0x2f;

/// Whether `b` is an ASCII white-space character: tab, line feed, vertical
/// tab, form feed, carriage return or space.
pub open spec fn narrow_space(b: u8) -> bool {
    0x09 <= b <= 0x0d || b == 0x20
}

/// Whether `a`, `b` encode one of the white-space characters U+0085 and
/// U+00A0.
pub open spec fn middle_space(a: u8, b: u8) -> bool {
    a == 0xc2 && (b == 0x85 || b == 0xa0)
}

/// Whether `a`, `b`, `c` encode one of the white-space characters U+1680,
/// U+2000 to U+200A, U+2028, U+2029, U+202F, U+205F and U+3000.
pub open spec fn wide_space(a: u8, b: u8, c: u8) -> bool {
    ||| a == 0xe1 && b == 0x9a && c == 0x80
    ||| a == 0xe2 && b == 0x80 && (0x80 <= c <= 0x8a || c == 0xa8 || c == 0xa9 || c == 0xaf)
    ||| a == 0xe2 && b == 0x81 && c == 0x9f
    ||| a == 0xe3 && b == 0x80 && c == 0x80
}

/// The length of the encoding of the white-space character that starts at
/// `at` and ends within `to`, or 0 if there is none.
pub open spec fn space_at(s: Seq<u8>, at: int, to: int) -> int {
    if 0 <= at && at + 1 <= to <= s.len() && narrow_space(s[at]) {
        1
    } else if 0 <= at && at + 2 <= to <= s.len() && middle_space(s[at], s[at + 1]) {
        2
    } else if 0 <= at && at + 3 <= to <= s.len() && wide_space(s[at], s[at + 1], s[at + 2]) {
        3
    } else {
        0
    }
}

/// The length of the encoding of the white-space character that ends at
/// `to` and starts at or after `from`, or 0 if there is none.
pub open spec fn space_before(s: Seq<u8>, from: int, to: int) -> int {
    if space_at(s, to - 1, to) == 1 && from <= to - 1 {
        1
    } else if space_at(s, to - 2, to) == 2 && from <= to - 2 {
        2
    } else if space_at(s, to - 3, to) == 3 && from <= to - 3 {
        3
    } else {
        0
    }
}

/// Where `s` starts once the white space in front of it, from `from` on, is
/// passed.
pub open spec fn trim_start(s: Seq<u8>, from: int) -> int
    decreases s.len() - from,
{
    if space_at(s, from, s.len() as int) > 0 {
        trim_start(s, from + space_at(s, from, s.len() as int))
    } else {
        from
    }
}

/// Where `s` ends once the white space at its end, back from `to` and down
/// to `from`, is passed.
pub open spec fn trim_end(s: Seq<u8>, from: int, to: int) -> int
    decreases to,
{
    if space_before(s, from, to) > 0 {
        trim_end(s, from, to - space_before(s, from, to))
    } else {
        to
    }
}

/// `line` without the white space around it.
pub open spec fn trimmed(line: Seq<u8>) -> Seq<u8> {
    let start = trim_start(line, 0);
    line.subrange(start, trim_end(line, start, line.len() as int))
}

/// Whether a trimmed line is a command: it is not empty and does not start
/// with `//`.
pub open spec fn is_command(text: Seq<u8>) -> bool {
    text.len() > 0 && !(text.len() >= 2 && text[0] == SLASH && text[1] == SLASH)
}

/// The commands of a list, in order: its lines, split at line feeds, each
/// trimmed, those that are commands.
pub open spec fn spec_commands(content: Seq<u8>) -> Seq<Seq<u8>>
    decreases content.len(),
{
    if content.len() == 0 {
        Seq::empty()
    } else {
        let end = find_from(content, NEWLINE, 0);
        let line = trimmed(content.take(end));
        let rest = if 0 <= end < content.len() {
            content.skip(end + 1)
        } else {
            Seq::empty()
        };
        if is_command(line) {
            seq![line] + spec_commands(rest)
        } else {
            spec_commands(rest)
        }
    }
}

/// The length of the encoding of the white-space character at `at`, if
/// one stands there and ends within `to`.
fn space_width(line: &[u8], at: usize, to: usize) -> (width: usize)
    requires
        at <= to <= line@.len(),
    ensures
        width == space_at(line@, at as int, to as int),
{
    let room = to - at;
    if room >= 1 && (line[at] >= 0x09 && line[at] <= 0x0d || line[at] == 0x20) {
        1
    } else if room >= 2 && line[at] == 0xc2 && (line[at + 1] == 0x85 || line[at + 1] == 0xa0) {
        2
    } else if room >= 3 {
        let a = line[at];
        let b = line[at + 1];
        let c = line[at + 2];
        if a == 0xe1 && b == 0x9a && c == 0x80 || a == 0xe2 && b == 0x80 && (c >= 0x80 && c
            <= 0x8a || c == 0xa8 || c == 0xa9 || c == 0xaf) || a == 0xe2 && b == 0x81 && c == 0x9f
            || a == 0xe3 && b == 0x80 && c == 0x80 {
            3
        } else {
            0
        }
    } else {
        0
    }
}

/// The length of the encoding of the white-space character that ends at
/// `to`, if one does and starts at or after `from`.
fn space_width_before(line: &[u8], from: usize, to: usize) -> (width: usize)
    requires
        from <= to <= line@.len(),
    ensures
        width == space_before(line@, from as int, to as int),
{
    let room = to - from;
    if room >= 1 && space_width(line, to - 1, to) == 1 {
        1
    } else if room >= 2 && space_width(line, to - 2, to) == 2 {
        2
    } else if room >= 3 && space_width(line, to - 3, to) == 3 {
        3
    } else {
        0
    }
}

/// Cuts the white space off both ends of `line`.
pub fn trim(line: &[u8]) -> (text: &[u8])
    ensures
        text@ == trimmed(line@),
{
    let mut start: usize = 0;
    let mut width = space_width(line, start, line.len());
    while width > 0
        invariant
            start <= line@.len() <= usize::MAX,
            width == space_at(line@, start as int, line@.len() as int),
            trim_start(line@, 0) == trim_start(line@, start as int),
        decreases line@.len() - start,
    {
        start = start + width;
        width = space_width(line, start, line.len());
    }
    let mut end: usize = line.len();
    width = space_width_before(line, start, end);
    while width > 0
        invariant
            start <= end <= line@.len(),
            width == space_before(line@, start as int, end as int),
            trim_end(line@, start as int, line@.len() as int) == trim_end(
                line@,
                start as int,
                end as int,
            ),
        decreases end,
    {
        end = end - width;
        width = space_width_before(line, start, end);
    }
    slice_subrange(line, start, end)
}

/// The byte strings that some vectors hold.
pub open spec fn contents(list: Seq<Vec<u8>>) -> Seq<Seq<u8>> {
    list.map_values(|v: Vec<u8>| v@)
}

/// Splits a list into its commands.
pub fn split_commands(content: &[u8]) -> (commands: Vec<Vec<u8>>)
    ensures
        contents(commands@) == spec_commands(content@),
{
    let mut commands: Vec<Vec<u8>> = Vec::new();
    let mut at: usize = 0;
    assert(content@.skip(0) =~= content@);
    assert(contents(commands@) =~= Seq::<Seq<u8>>::empty());
    while at < content.len()
        invariant
            at <= content@.len(),
            contents(commands@) + spec_commands(content@.skip(at as int)) == spec_commands(
                content@,
            ),
        decreases content@.len() - at,
    {
        let rest = slice_subrange(content, at, content.len());
        let end = scan(rest, NEWLINE, 0);
        let line = trim(slice_subrange(rest, 0, end));
        let next = if end < rest.len() {
            at + end + 1
        } else {
            content.len()
        };
        let ghost before = contents(commands@);
        let ghost tail = spec_commands(content@.skip(next as int));
        proof {
            assert(rest@ =~= content@.skip(at as int));
            assert(rest@.take(end as int) =~= rest@.subrange(0, end as int));
            if end < rest.len() {
                assert(rest@.skip(end + 1) =~= content@.skip(next as int));
            } else {
                assert(content@.skip(next as int) =~= Seq::<u8>::empty());
            }
        }
        if line.len() > 0 && !(line.len() >= 2 && line[0] == SLASH && line[1] == SLASH) {
            commands.push(slice_to_vec(line));
            proof {
                assert(contents(commands@) =~= before.push(line@));
                assert(before.push(line@) + tail =~= before + (seq![line@] + tail));
            }
        }
        at = next;
    }
    proof {
        assert(content@.skip(at as int) =~= Seq::<u8>::empty());
        assert(contents(commands@) + Seq::<Seq<u8>>::empty() =~= contents(commands@));
    }
    commands
}

/// Why a list of commands is refused.
#[derive(Debug)]
pub enum TestListError {
    /// The list holds no command: it is empty or all comments.
    Empty,
    /// A command is not well-formed UTF-8.
    NotUtf8(core::str::Utf8Error),
}

/// The mathematical content of a [`TestListError`].
pub ghost enum TestListFault {
    Empty,
    NotUtf8,
}

impl View for TestListError {
    type V = TestListFault;

    open spec fn view(&self) -> TestListFault {
        match *self {
            TestListError::Empty => TestListFault::Empty,
            TestListError::NotUtf8(_) => TestListFault::NotUtf8,
        }
    }
}

/// Whether every one of `commands` is well-formed UTF-8.
pub open spec fn all_text(commands: Seq<Seq<u8>>) -> bool {
    forall|i: int| 0 <= i < commands.len() ==> valid_utf8(#[trigger] commands[i])
}

/// What [`load_test_commands`] gives: the commands of the list as text, or
/// why the list is refused.
pub open spec fn spec_load_test_commands(content: Seq<u8>) -> Result<
    Seq<Seq<char>>,
    TestListFault,
> {
    let commands = spec_commands(content);
    if !all_text(commands) {
        Err(TestListFault::NotUtf8)
    } else if commands.len() == 0 {
        Err(TestListFault::Empty)
    } else {
        Ok(commands.map_values(|c: Seq<u8>| decode_utf8(c)))
    }
}

/// The texts that some strings hold.
pub open spec fn texts(list: Seq<String>) -> Seq<Seq<char>> {
    list.map_values(|s: String| s@)
}

/// Reads the commands out of the content of a list: one a line, in order,
/// without the white space around them; blank lines and lines that start
/// with `//` are left out. A list without a command is refused.
pub fn load_test_commands(content: &[u8]) -> (res: Result<Vec<String>, TestListError>)
    ensures
        match spec_load_test_commands(content@) {
            Ok(expected) => res matches Ok(shells) && texts(shells@) == expected,
            Err(fault) => res matches Err(e) && e@ == fault,
        },
{
    let commands = split_commands(content);
    let ghost wanted = spec_commands(content@);
    let mut shells: Vec<String> = Vec::new();
    let mut i: usize = 0;
    while i < commands.len()
        invariant
            i <= commands@.len(),
            contents(commands@) == wanted,
            wanted == spec_commands(content@),
            all_text(wanted.take(i as int)),
            texts(shells@) == wanted.take(i as int).map_values(|c: Seq<u8>| decode_utf8(c)),
        decreases commands@.len() - i,
    {
        assert(wanted[i as int] == commands@[i as int]@);
        match text_of(commands[i].as_slice()) {
            Ok(shell) => {
                let ghost before = shells@;
                shells.push(shell);
                proof {
                    let done = wanted.take(i + 1);
                    assert(done =~= wanted.take(i as int).push(wanted[i as int]));
                    assert(texts(shells@) =~= texts(before).push(shell@));
                    assert(texts(shells@) =~= done.map_values(|c: Seq<u8>| decode_utf8(c)));
                    assert forall|j: int| 0 <= j < done.len() implies valid_utf8(
                        #[trigger] done[j],
                    ) by {
                        if j < i {
                            assert(done[j] == wanted.take(i as int)[j]);
                        }
                    }
                }
            },
            Err(e) => {
                assert(!valid_utf8(wanted[i as int]));
                return Err(TestListError::NotUtf8(e));
            },
        }
        i = i + 1;
    }
    proof {
        assert(wanted.take(i as int) =~= wanted);
    }
    if shells.len() == 0 {
        return Err(TestListError::Empty);
    }
    Ok(shells)
}

} // verus!
