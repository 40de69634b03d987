//! The file name at the end of a path, as the platform on which the program runs tells it.
use vstd::prelude::*;
use vstd::slice::slice_subrange;
use vstd::utf8::valid_utf8;

verus! {

/// The byte `/`.
pub const SLASH: u8 = 0x2f;

/// The byte `\`.
pub const BACKSLASH: u8 = 0x5c;

/// The byte `.`.
pub const DOT: u8 = 0x2e;

/// The byte `:`.
pub const COLON: u8 = 0x3a;

/// The byte `?`.
pub const QUESTION: u8 = 0x3f;

/// The platforms whose paths differ.
#[derive(Clone, Copy, Debug, PartialEq, Eq, Structural)]
pub enum Platform {
    /// Paths are bytes, parted by `/`.
    Unix,
    /// Paths are Unicode, parted by `/` and `\`, and may begin with a drive, a share or a device.
    Windows,
}

/// How the parts of a path are told apart.
#[derive(Clone, Copy, Debug, PartialEq, Eq, Structural)]
pub enum Rules {
    /// At `/`.
    Unix,
    /// At `/` and `\`.
    Windows,
    /// At `\` only, and a part that is a dot counts: for paths that begin with `\\?\`.
    Verbatim,
}

/// Whether a byte parts a path.
pub open spec fn parts_at(b: u8, rules: Rules) -> bool {
    match rules {
        Rules::Unix => b == SLASH,
        Rules::Windows => b == SLASH || b == BACKSLASH,
        Rules::Verbatim => b == BACKSLASH,
    }
}

/// Where the last part of a path begins.
pub open spec fn last_part_start(path: Seq<u8>, rules: Rules) -> nat
    decreases path.len(),
{
    if path.len() == 0 || parts_at(path.last(), rules) {
        path.len()
    } else {
        last_part_start(path.drop_last(), rules)
    }
}

/// The name at the end of a path: its last part. Empty parts do not count, nor do parts that are a
/// dot where the rules skip them; a path that ends in two dots, or in a dot that counts, has none.
pub open spec fn last_name(path: Seq<u8>, rules: Rules) -> Option<Seq<u8>>
    decreases path.len(),
    via last_name_decreases
{
    let start = last_part_start(path, rules) as int;
    let part = path.skip(start);
    if part.len() == 0 || (part == seq![DOT] && rules != Rules::Verbatim) {
        if start == 0 {
            None
        } else {
            last_name(path.take(start - 1), rules)
        }
    } else if part == seq![DOT] || part == seq![DOT, DOT] {
        None
    } else {
        Some(part)
    }
}

#[via_fn]
proof fn last_name_decreases(path: Seq<u8>, rules: Rules) {
    lemma_last_part_start(path, rules);
}

/// Whether a byte is a letter that can name a drive.
pub open spec fn is_drive_letter(b: u8) -> bool {
    0x41 <= b <= 0x5a || 0x61 <= b <= 0x7a
}

/// Where the part that begins at `from` ends.
pub open spec fn part_end(path: Seq<u8>, from: nat, rules: Rules) -> nat
    decreases path.len() - from,
{
    if from >= path.len() || parts_at(path[from as int], rules) {
        from
    } else {
        part_end(path, from + 1, rules)
    }
}

/// Where the part after the one that begins at `from` ends; where that one ends, if there is none
/// or if it is empty.
pub open spec fn second_part_end(path: Seq<u8>, from: nat, rules: Rules) -> nat {
    let first = part_end(path, from, rules);
    let second = part_end(path, first + 1, rules);
    if first < path.len() && second > first + 1 {
        second
    } else {
        first
    }
}

/// Whether a path begins with `\\?\`.
pub open spec fn is_verbatim(path: Seq<u8>) -> bool {
    path.len() >= 4 && path.take(4) == seq![BACKSLASH, BACKSLASH, QUESTION, BACKSLASH]
}

/// Whether a path begins with `\\?\UNC\`.
pub open spec fn is_verbatim_share(path: Seq<u8>) -> bool {
    &&& is_verbatim(path)
    &&& path.len() >= 8
    &&& path.subrange(4, 7) == seq![0x55u8, 0x4eu8, 0x43u8]
    &&& parts_at(path[7], Rules::Windows)
}

/// Whether a drive and nothing else stands after `\\?\`, up to a separator of either kind.
pub open spec fn is_verbatim_drive(path: Seq<u8>) -> bool {
    &&& path.len() >= 6
    &&& is_drive_letter(path[4])
    &&& path[5] == COLON
    &&& path.len() > 6 ==> parts_at(path[6], Rules::Windows)
}

/// The length of the drive, share or device with which a path on Windows begins: `C:`,
/// `\\server\share`, `\\.\device`, `\\?\C:`, `\\?\UNC\server\share` or `\\?\name`. The separator
/// after `\\?\C:` counts to it: it may be `/`, which does not part the rest of such a path.
pub open spec fn windows_prefix_len(path: Seq<u8>) -> nat {
    if path.len() >= 2 && parts_at(path[0], Rules::Windows) && parts_at(path[1], Rules::Windows) {
        if is_verbatim_share(path) {
            second_part_end(path, 8, Rules::Verbatim)
        } else if is_verbatim(path) {
            if is_verbatim_drive(path) {
                if path.len() > 6 {
                    7
                } else {
                    6
                }
            } else {
                part_end(path, 4, Rules::Verbatim)
            }
        } else if path.len() >= 4 && path[2] == DOT && parts_at(path[3], Rules::Windows) {
            part_end(path, 4, Rules::Windows)
        } else {
            let server = part_end(path, 2, Rules::Windows);
            let share = second_part_end(path, 2, Rules::Windows);
            if server > 2 && share > server {
                share
            } else {
                0
            }
        }
    } else if path.len() >= 2 && is_drive_letter(path[0]) && path[1] == COLON {
        2
    } else {
        0
    }
}

/// The length of what a path begins with before its parts.
pub open spec fn prefix_len(path: Seq<u8>, platform: Platform) -> nat {
    match platform {
        Platform::Unix => 0,
        Platform::Windows => windows_prefix_len(path),
    }
}

/// The rules by which the parts of a path are told apart.
pub open spec fn rules_for(path: Seq<u8>, platform: Platform) -> Rules {
    match platform {
        Platform::Unix => Rules::Unix,
        Platform::Windows => if is_verbatim(path) {
            Rules::Verbatim
        } else {
            Rules::Windows
        },
    }
}

/// The file name in a path.
pub open spec fn file_name(path: Seq<u8>, platform: Platform) -> Option<Seq<u8>> {
    last_name(path.skip(prefix_len(path, platform) as int), rules_for(path, platform))
}

/// Whether bytes are a path on a platform: on Windows they have to be UTF-8.
pub open spec fn is_path(path: Seq<u8>, platform: Platform) -> bool {
    platform == Platform::Windows ==> valid_utf8(path)
}

/// Calls `std::str::from_utf8`, which accepts exactly the bytes that are UTF-8.
#[verifier::external_body]
fn is_utf8(bytes: &[u8]) -> (r: bool)
    ensures
        r == valid_utf8(bytes@),
{
    std::str::from_utf8(bytes).is_ok()
}

/// Tells whether bytes are a path on a platform.
pub fn check_path(path: &[u8], platform: Platform) -> (r: bool)
    ensures
        r == is_path(path@, platform),
{
    match platform {
        Platform::Unix => true,
        Platform::Windows => is_utf8(path),
    }
}

fn is_separator(b: u8, rules: Rules) -> (r: bool)
    ensures
        r == parts_at(b, rules),
{
    match rules {
        Rules::Unix => b == SLASH,
        Rules::Windows => b == SLASH || b == BACKSLASH,
        Rules::Verbatim => b == BACKSLASH,
    }
}

fn is_letter(b: u8) -> (r: bool)
    ensures
        r == is_drive_letter(b),
{
    (0x41 <= b && b <= 0x5a) || (0x61 <= b && b <= 0x7a)
}

/// Finds where the part that begins at `from` ends.
fn find_part_end(path: &[u8], from: usize, rules: Rules) -> (r: usize)
    requires
        from <= path@.len(),
    ensures
        r == part_end(path@, from as nat, rules),
        from <= r <= path@.len(),
{
    let mut i: usize = from;
    while i < path.len() && !is_separator(path[i], rules)
        invariant
            from <= i <= path@.len(),
            part_end(path@, from as nat, rules) == part_end(path@, i as nat, rules),
        decreases path@.len() - i,
    {
        i += 1;
    }
    i
}

fn find_second_part_end(path: &[u8], from: usize, rules: Rules) -> (r: usize)
    requires
        from <= path@.len(),
    ensures
        r == second_part_end(path@, from as nat, rules),
        from <= r <= path@.len(),
{
    let first = find_part_end(path, from, rules);
    if first == path.len() {
        return first;
    }
    let second = find_part_end(path, first + 1, rules);
    if second > first + 1 {
        second
    } else {
        first
    }
}

fn begins_verbatim(path: &[u8]) -> (r: bool)
    ensures
        r == is_verbatim(path@),
{
    if path.len() < 4 {
        return false;
    }
    let ghost head = path@.take(4);
    let found = path[0] == BACKSLASH && path[1] == BACKSLASH && path[2] == QUESTION && path[3]
        == BACKSLASH;
    proof {
        let wanted = seq![BACKSLASH, BACKSLASH, QUESTION, BACKSLASH];
        assert(head[0] == path@[0] && head[1] == path@[1] && head[2] == path@[2] && head[3]
            == path@[3]);
        if found {
            assert(head =~= wanted);
        }
    }
    found
}

fn begins_verbatim_share(path: &[u8]) -> (r: bool)
    ensures
        r == is_verbatim_share(path@),
{
    if path.len() < 8 || !begins_verbatim(path) {
        return false;
    }
    let ghost middle = path@.subrange(4, 7);
    let found = path[4] == 0x55 && path[5] == 0x4e && path[6] == 0x43;
    proof {
        let wanted = seq![0x55u8, 0x4eu8, 0x43u8];
        assert(middle[0] == path@[4] && middle[1] == path@[5] && middle[2] == path@[6]);
        if found {
            assert(middle =~= wanted);
        }
    }
    found && is_separator(path[7], Rules::Windows)
}

fn find_windows_prefix(path: &[u8]) -> (r: usize)
    ensures
        r == windows_prefix_len(path@),
        r <= path@.len(),
{
    if path.len() < 2 {
        return 0;
    }
    if is_separator(path[0], Rules::Windows) && is_separator(path[1], Rules::Windows) {
        if begins_verbatim_share(path) {
            return find_second_part_end(path, 8, Rules::Verbatim);
        }
        if begins_verbatim(path) {
            if path.len() == 6 && is_letter(path[4]) && path[5] == COLON {
                return 6;
            }
            if path.len() > 6 && is_letter(path[4]) && path[5] == COLON && is_separator(
                path[6],
                Rules::Windows,
            ) {
                return 7;
            }
            return find_part_end(path, 4, Rules::Verbatim);
        }
        if path.len() >= 4 && path[2] == DOT && is_separator(path[3], Rules::Windows) {
            return find_part_end(path, 4, Rules::Windows);
        }
        let server = find_part_end(path, 2, Rules::Windows);
        let share = find_second_part_end(path, 2, Rules::Windows);
        if server > 2 && share > server {
            share
        } else {
            0
        }
    } else if is_letter(path[0]) && path[1] == COLON {
        2
    } else {
        0
    }
}

/// Finds the name at the end of a path.
fn find_last_name(path: &[u8], rules: Rules) -> (r: Option<&[u8]>)
    ensures
        match r {
            Some(name) => last_name(path@, rules) == Some(name@),
            None => last_name(path@, rules) is None,
        },
{
    let mut end: usize = path.len();
    assert(path@.take(end as int) =~= path@);
    loop
        invariant
            end <= path@.len(),
            last_name(path@, rules) == last_name(path@.take(end as int), rules),
        decreases end,
    {
        let ghost head = path@.take(end as int);
        let mut start: usize = end;
        while start > 0 && !is_separator(path[start - 1], rules)
            invariant
                start <= end <= path@.len(),
                head == path@.take(end as int),
                forall|j: int| start <= j < end ==> !parts_at(head[j], rules),
            decreases start,
        {
            start -= 1;
        }
        proof {
            lemma_last_part_start_is(head, rules, start as int);
            assert(head.skip(start as int) =~= path@.subrange(start as int, end as int));
        }
        let ghost part = path@.subrange(start as int, end as int);
        let size: usize = end - start;
        let dot = size == 1 && path[start] == DOT;
        let dots = size == 2 && path[start] == DOT && path[start + 1] == DOT;
        proof {
            if size > 0 {
                assert(part[0] == path@[start as int]);
            }
            if size > 1 {
                assert(part[1] == path@[start + 1]);
            }
            if dot {
                assert(part =~= seq![DOT]);
            }
            if dots {
                assert(part =~= seq![DOT, DOT]);
            }
        }
        if size == 0 || (dot && rules != Rules::Verbatim) {
            if start == 0 {
                return None;
            }
            assert(head.take(start - 1) =~= path@.take(start - 1));
            end = start - 1;
        } else if dot || dots {
            return None;
        } else {
            return Some(slice_subrange(path, start, end));
        }
    }
}

/// Finds the file name in a path.
pub fn find_file_name(path: &[u8], platform: Platform) -> (r: Option<&[u8]>)
    ensures
        match r {
            Some(name) => file_name(path@, platform) == Some(name@),
            None => file_name(path@, platform) is None,
        },
{
    match platform {
        Platform::Unix => {
            assert(path@.skip(0) =~= path@);
            find_last_name(path, Rules::Unix)
        },
        Platform::Windows => {
            let rules = if begins_verbatim(path) {
                Rules::Verbatim
            } else {
                Rules::Windows
            };
            let prefix = find_windows_prefix(path);
            let rest = slice_subrange(path, prefix, path.len());
            assert(rest@ =~= path@.skip(prefix as int));
            find_last_name(rest, rules)
        },
    }
}

/// A part of a path that names a file.
pub open spec fn is_plain_name(name: Seq<u8>, rules: Rules) -> bool {
    &&& name.len() > 0
    &&& forall|j: int| 0 <= j < name.len() ==> !parts_at(name[j], rules)
    &&& name != seq![DOT]
    &&& name != seq![DOT, DOT]
}

/// The file name in a path is always a plain name.
pub proof fn law_file_name_is_plain(path: Seq<u8>, platform: Platform)
    ensures
        file_name(path, platform) matches Some(name) ==> is_plain_name(
            name,
            rules_for(path, platform),
        ),
{
    lemma_last_name_is_plain(
        path.skip(prefix_len(path, platform) as int),
        rules_for(path, platform),
    );
}

/// A plain name is the file name in any directory, where it lies beyond the drive, share or device.
pub proof fn law_file_name_in_directory(directory: Seq<u8>, name: Seq<u8>, platform: Platform)
    requires
        is_plain_name(name, rules_for(directory + seq![SLASH] + name, platform)),
        prefix_len(directory + seq![SLASH] + name, platform) <= directory.len(),
        rules_for(directory + seq![SLASH] + name, platform) != Rules::Verbatim,
    ensures
        file_name(directory + seq![SLASH] + name, platform) == Some(name),
{
    let path = directory + seq![SLASH] + name;
    let rules = rules_for(path, platform);
    let rest = path.skip(prefix_len(path, platform) as int);
    let start = rest.len() - name.len();
    assert(rest[start - 1] == SLASH);
    assert forall|j: int| start <= j < rest.len() implies !parts_at(rest[j], rules) by {
        assert(rest[j] == name[j - start]);
    }
    lemma_last_part_start_is(rest, rules, start);
    assert(rest.skip(start) =~= name);
}

/// A plain name is its own file name, where it is no drive.
pub proof fn law_file_name_of_plain_name(name: Seq<u8>, platform: Platform)
    requires
        is_plain_name(name, rules_for(name, platform)),
        prefix_len(name, platform) == 0,
    ensures
        file_name(name, platform) == Some(name),
{
    lemma_last_part_start_is(name, rules_for(name, platform), 0);
    assert(name.skip(0) =~= name);
}

/// On Unix, slashes and dots after a path do not change its file name.
pub proof fn law_file_name_ignores_trailing_dots(path: Seq<u8>)
    ensures
        file_name(path + seq![SLASH], Platform::Unix) == file_name(path, Platform::Unix),
        file_name(path + seq![SLASH, DOT], Platform::Unix) == file_name(path, Platform::Unix),
{
    let rules = Rules::Unix;
    let slashed = path + seq![SLASH];
    lemma_last_part_start_is(slashed, rules, slashed.len() as int);
    assert(slashed.take(slashed.len() - 1) =~= path);
    let dotted = path + seq![SLASH, DOT];
    lemma_last_part_start_is(dotted, rules, dotted.len() - 1);
    assert(dotted.skip(dotted.len() - 1) =~= seq![DOT]);
    assert(dotted.take(dotted.len() - 2) =~= path);
    assert(path.skip(0) =~= path);
    assert(slashed.skip(0) =~= slashed);
    assert(dotted.skip(0) =~= dotted);
}

/// Which bytes part a path: `/` on Unix; `/` and `\` on Windows, but `\` alone in a path that
/// begins with `\\?\`.
pub proof fn law_separators(path: Seq<u8>, b: u8)
    ensures
        parts_at(b, rules_for(path, Platform::Unix)) <==> b == 0x2f,
        rules_for(path, Platform::Unix) != Rules::Verbatim,
        rules_for(path, Platform::Windows) == Rules::Verbatim <==> path.len() >= 4 && path[0]
            == 0x5c && path[1] == 0x5c && path[2] == 0x3f && path[3] == 0x5c,
        parts_at(b, rules_for(path, Platform::Windows)) <==> b == 0x5c || b == 0x2f
            && rules_for(path, Platform::Windows) != Rules::Verbatim,
        parts_at(b, Rules::Unix) <==> b == 0x2f,
        parts_at(b, Rules::Windows) <==> b == 0x2f || b == 0x5c,
        parts_at(b, Rules::Verbatim) <==> b == 0x5c,
{
    lemma_verbatim(path);
}

/// On Unix any bytes are a path; on Windows, those that are UTF-8.
pub proof fn law_paths(path: Seq<u8>)
    ensures
        is_path(path, Platform::Unix),
        is_path(path, Platform::Windows) <==> valid_utf8(path),
{
}

/// The file name of a path is the part of it beyond its prefix that has only separators after it,
/// and single dots between them where those are skipped; it is not itself one or two dots. Where
/// there is no such part there is no file name.
pub proof fn law_file_name_is_the_last_part(path: Seq<u8>, platform: Platform, name: Seq<u8>)
    ensures
        ({
            let rest = path.skip(prefix_len(path, platform) as int);
            let rules = rules_for(path, platform);
            file_name(path, platform) == Some(name) <==> exists|start: int, end: int|
                #![trigger rest.subrange(start, end)]
                {
                    &&& 0 <= start < end <= rest.len()
                    &&& rest.subrange(start, end) == name
                    &&& start > 0 ==> parts_at(rest[start - 1], rules)
                    &&& forall|j: int| start <= j < end ==> !parts_at(rest[j], rules)
                    &&& name != seq![0x2eu8]
                    &&& name != seq![0x2eu8, 0x2eu8]
                    &&& forall|j: int|
                        end <= j < rest.len() ==> parts_at(#[trigger] rest[j], rules) || {
                            &&& rules != Rules::Verbatim
                            &&& rest[j] == 0x2e
                            &&& j > end
                            &&& parts_at(rest[j - 1], rules)
                        }
                }
        }),
{
    let rest = path.skip(prefix_len(path, platform) as int);
    let rules = rules_for(path, platform);
    if file_name(path, platform) == Some(name) {
        let ends = lemma_last_name_stands(rest, rules);
        assert(rest.subrange(ends.0, ends.1) == name);
    }
    if exists|start: int, end: int|
        #![trigger rest.subrange(start, end)]
        is_last_name(rest, rules, start, end) && rest.subrange(start, end) == name {
        let (start, end) = choose|start: int, end: int|
            #![trigger rest.subrange(start, end)]
            is_last_name(rest, rules, start, end) && rest.subrange(start, end) == name;
        lemma_last_name_is(rest, rules, start, end);
    }
}

/// What stands before the parts of a path that does not begin with two separators: nothing on
/// Unix, and on Windows a drive, if it begins with one.
pub proof fn law_prefix_is_a_drive(path: Seq<u8>)
    requires
        path.len() >= 2 ==> !((path[0] == 0x2f || path[0] == 0x5c) && (path[1] == 0x2f || path[1]
            == 0x5c)),
    ensures
        prefix_len(path, Platform::Windows) == if path.len() >= 2 && path[1] == 0x3a && (0x41
            <= path[0] <= 0x5a || 0x61 <= path[0] <= 0x7a) {
            2nat
        } else {
            0nat
        },
{
}

/// On Unix nothing stands before the parts of a path.
pub proof fn law_no_prefix_on_unix(path: Seq<u8>)
    ensures
        prefix_len(path, Platform::Unix) == 0,
{
}

/// A path on Windows that begins with two separators, and not with a device or with `\\?\`, begins
/// with a share if a server and a share are named: `server_end` and `share_end` are where they end.
pub proof fn law_prefix_is_a_share(path: Seq<u8>, server_end: int, share_end: int)
    requires
        path.len() >= 2,
        path[0] == 0x2f || path[0] == 0x5c,
        path[1] == 0x2f || path[1] == 0x5c,
        !(path.len() >= 4 && path[0] == 0x5c && path[1] == 0x5c && path[2] == 0x3f && path[3]
            == 0x5c),
        !(path.len() >= 4 && path[2] == 0x2e && (path[3] == 0x2f || path[3] == 0x5c)),
        2 <= server_end <= path.len(),
        forall|j: int| 2 <= j < server_end ==> path[j] != 0x2f && path[j] != 0x5c,
        server_end < path.len() ==> path[server_end] == 0x2f || path[server_end] == 0x5c,
        server_end < path.len() ==> server_end < share_end <= path.len(),
        forall|j: int| server_end < j < share_end ==> path[j] != 0x2f && path[j] != 0x5c,
        share_end < path.len() ==> path[share_end] == 0x2f || path[share_end] == 0x5c,
    ensures
        prefix_len(path, Platform::Windows) == if 2 < server_end < path.len() && server_end + 1
            < share_end {
            share_end
        } else {
            0
        },
{
    lemma_verbatim(path);
    lemma_part_end_is(path, 2, Rules::Windows, server_end);
    if server_end < path.len() {
        lemma_part_end_is(path, server_end + 1, Rules::Windows, share_end);
    }
}

/// A path on Windows that begins with `\\.\`, with separators of either kind, begins with a device,
/// which ends at the next separator.
pub proof fn law_prefix_is_a_device(path: Seq<u8>, end: int)
    requires
        path.len() >= 4,
        path[0] == 0x2f || path[0] == 0x5c,
        path[1] == 0x2f || path[1] == 0x5c,
        path[2] == 0x2e,
        path[3] == 0x2f || path[3] == 0x5c,
        4 <= end <= path.len(),
        forall|j: int| 4 <= j < end ==> path[j] != 0x2f && path[j] != 0x5c,
        end < path.len() ==> path[end] == 0x2f || path[end] == 0x5c,
    ensures
        prefix_len(path, Platform::Windows) == end,
{
    lemma_verbatim(path);
    lemma_part_end_is(path, 4, Rules::Windows, end);
}

/// A path on Windows that begins with `\\?\` begins with what stands up to the next `\`, unless
/// that is a drive or the word for shares: with a drive, it begins with that and the separator after
/// it; with the word for shares, with a server and, if one is named, a share.
pub proof fn law_prefix_is_verbatim(path: Seq<u8>, end: int, share_end: int)
    requires
        path.len() >= 4,
        path[0] == 0x5c,
        path[1] == 0x5c,
        path[2] == 0x3f,
        path[3] == 0x5c,
    ensures
        ({
            let drive = path.len() >= 6 && path[5] == 0x3a && (0x41 <= path[4] <= 0x5a || 0x61
                <= path[4] <= 0x7a) && (path.len() > 6 ==> path[6] == 0x2f || path[6] == 0x5c);
            let shares = path.len() >= 8 && path[4] == 0x55 && path[5] == 0x4e && path[6] == 0x43
                && (path[7] == 0x2f || path[7] == 0x5c);
            &&& drive ==> prefix_len(path, Platform::Windows) == if path.len() > 6 {
                7nat
            } else {
                6nat
            }
            &&& !drive && !shares && 4 <= end <= path.len() && (forall|j: int|
                4 <= j < end ==> path[j] != 0x5c) && (end < path.len() ==> path[end] == 0x5c)
                ==> prefix_len(path, Platform::Windows) == end
            &&& shares && 8 <= end <= path.len() && (forall|j: int|
                8 <= j < end ==> path[j] != 0x5c) && (end < path.len() ==> {
                &&& path[end] == 0x5c
                &&& end < share_end <= path.len()
                &&& forall|j: int| end < j < share_end ==> path[j] != 0x5c
                &&& share_end < path.len() ==> path[share_end] == 0x5c
            }) ==> prefix_len(path, Platform::Windows) == if end < path.len() && end + 1
                < share_end {
                share_end
            } else {
                end
            }
        }),
{
    lemma_verbatim(path);
    if 4 <= end <= path.len() && (forall|j: int| 4 <= j < end ==> path[j] != 0x5c) && (end
        < path.len() ==> path[end] == 0x5c) {
        lemma_part_end_is(path, 4, Rules::Verbatim, end);
    }
    if 8 <= end <= path.len() && (forall|j: int| 8 <= j < end ==> path[j] != 0x5c) && (end
        < path.len() ==> path[end] == 0x5c) {
        lemma_part_end_is(path, 8, Rules::Verbatim, end);
        if end < share_end <= path.len() && (forall|j: int|
            end < j < share_end ==> path[j] != 0x5c) && (share_end < path.len()
            ==> path[share_end] == 0x5c) {
            lemma_part_end_is(path, end + 1, Rules::Verbatim, share_end);
        }
    }
}

/// Whether the bytes from `start` to `end` of a path are the name at its end.
spec fn is_last_name(path: Seq<u8>, rules: Rules, start: int, end: int) -> bool {
    &&& 0 <= start < end <= path.len()
    &&& start > 0 ==> parts_at(path[start - 1], rules)
    &&& forall|j: int| start <= j < end ==> !parts_at(path[j], rules)
    &&& path.subrange(start, end) != seq![DOT]
    &&& path.subrange(start, end) != seq![DOT, DOT]
    &&& forall|j: int|
        end <= j < path.len() ==> parts_at(#[trigger] path[j], rules) || (rules != Rules::Verbatim
            && path[j] == DOT && j > end && parts_at(path[j - 1], rules))
}

proof fn lemma_last_name_stands(path: Seq<u8>, rules: Rules) -> (ends: (int, int))
    ensures
        last_name(path, rules) matches Some(name) ==> is_last_name(path, rules, ends.0, ends.1)
            && path.subrange(ends.0, ends.1) == name,
    decreases path.len(),
{
    lemma_last_part_start(path, rules);
    let start = last_part_start(path, rules) as int;
    let part = path.skip(start);
    if part.len() == 0 || (part == seq![DOT] && rules != Rules::Verbatim) {
        if start > 0 {
            let head = path.take(start - 1);
            let ends = lemma_last_name_stands(head, rules);
            if last_name(head, rules) is Some {
                let (from, to) = ends;
                assert(path.subrange(from, to) =~= head.subrange(from, to));
                assert forall|j: int| from <= j < to implies !parts_at(path[j], rules) by {
                    assert(!parts_at(head[j], rules));
                }
                if from > 0 {
                    assert(path[from - 1] == head[from - 1]);
                }
                assert forall|j: int| to <= j < path.len() implies parts_at(
                    #[trigger] path[j],
                    rules,
                ) || (rules != Rules::Verbatim && path[j] == DOT && j > to && parts_at(
                    path[j - 1],
                    rules,
                )) by {
                    if j < start - 1 {
                        assert(head[j] == path[j]);
                        if j > to {
                            assert(head[j - 1] == path[j - 1]);
                        }
                    } else if j >= start {
                        assert(part[0] == path[start]);
                        assert(j == start);
                    }
                }
            }
            ends
        } else {
            (0, 0)
        }
    } else {
        assert(path.subrange(start, path.len() as int) =~= part);
        (start, path.len() as int)
    }
}

proof fn lemma_last_name_is(path: Seq<u8>, rules: Rules, start: int, end: int)
    requires
        is_last_name(path, rules, start, end),
    ensures
        last_name(path, rules) == Some(path.subrange(start, end)),
    decreases path.len(),
{
    if end == path.len() {
        lemma_last_part_start_is(path, rules, start);
        assert(path.skip(start) =~= path.subrange(start, end));
    } else {
        let last = path.len() - 1;
        assert(parts_at(path[last], rules) || path[last] == DOT);
        let begin: int = if parts_at(path[last], rules) {
            path.len() as int
        } else {
            last
        };
        if !parts_at(path[last], rules) {
            assert(path.skip(last) =~= seq![DOT]);
        }
        lemma_last_part_start_is(path, rules, begin);
        let head = path.take(begin - 1);
        assert(head.subrange(start, end) =~= path.subrange(start, end));
        assert forall|j: int| end <= j < head.len() implies parts_at(#[trigger] head[j], rules) || (
        rules != Rules::Verbatim && head[j] == DOT && j > end && parts_at(head[j - 1], rules)) by {
            assert(path[j] == head[j]);
        }
        lemma_last_name_is(head, rules, start, end);
    }
}

proof fn lemma_verbatim(path: Seq<u8>)
    ensures
        is_verbatim(path) <==> path.len() >= 4 && path[0] == 0x5c && path[1] == 0x5c && path[2]
            == 0x3f && path[3] == 0x5c,
        is_verbatim_share(path) <==> is_verbatim(path) && path.len() >= 8 && path[4] == 0x55
            && path[5] == 0x4e && path[6] == 0x43 && parts_at(path[7], Rules::Windows),
{
    if path.len() >= 4 {
        let head = path.take(4);
        let wanted = seq![BACKSLASH, BACKSLASH, QUESTION, BACKSLASH];
        assert(head[0] == path[0] && head[1] == path[1] && head[2] == path[2] && head[3]
            == path[3]);
        if path[0] == 0x5c && path[1] == 0x5c && path[2] == 0x3f && path[3] == 0x5c {
            assert(head =~= wanted);
        }
    }
    if path.len() >= 8 {
        let middle = path.subrange(4, 7);
        assert(middle[0] == path[4] && middle[1] == path[5] && middle[2] == path[6]);
        if path[4] == 0x55 && path[5] == 0x4e && path[6] == 0x43 {
            assert(middle =~= seq![0x55u8, 0x4eu8, 0x43u8]);
        }
    }
}

proof fn lemma_part_end_is(path: Seq<u8>, from: int, rules: Rules, end: int)
    requires
        0 <= from <= end <= path.len(),
        forall|j: int| from <= j < end ==> !parts_at(path[j], rules),
        end < path.len() ==> parts_at(path[end], rules),
    ensures
        part_end(path, from as nat, rules) == end,
    decreases end - from,
{
    if from < end {
        lemma_part_end_is(path, from + 1, rules, end);
    }
}

proof fn lemma_last_name_is_plain(path: Seq<u8>, rules: Rules)
    ensures
        last_name(path, rules) matches Some(name) ==> is_plain_name(name, rules),
    decreases path.len(),
{
    lemma_last_part_start(path, rules);
    let start = last_part_start(path, rules) as int;
    let part = path.skip(start);
    if part.len() == 0 || (part == seq![DOT] && rules != Rules::Verbatim) {
        if start > 0 {
            lemma_last_name_is_plain(path.take(start - 1), rules);
        }
    }
}

proof fn lemma_last_part_start(path: Seq<u8>, rules: Rules)
    ensures
        last_part_start(path, rules) <= path.len(),
        last_part_start(path, rules) > 0 ==> parts_at(
            path[last_part_start(path, rules) - 1],
            rules,
        ),
        forall|j: int|
            last_part_start(path, rules) <= j < path.len() ==> !parts_at(path[j], rules),
    decreases path.len(),
{
    if path.len() > 0 && !parts_at(path.last(), rules) {
        lemma_last_part_start(path.drop_last(), rules);
        assert forall|j: int| last_part_start(path, rules) <= j < path.len() implies !parts_at(
            path[j],
            rules,
        ) by {
            if j < path.len() - 1 {
                assert(!parts_at(path.drop_last()[j], rules));
            }
        }
    }
}

proof fn lemma_last_part_start_is(path: Seq<u8>, rules: Rules, start: int)
    requires
        0 <= start <= path.len(),
        start > 0 ==> parts_at(path[start - 1], rules),
        forall|j: int| start <= j < path.len() ==> !parts_at(path[j], rules),
    ensures
        last_part_start(path, rules) == start,
{
    lemma_last_part_start(path, rules);
    let p = last_part_start(path, rules) as int;
    if start < p {
        assert(!parts_at(path[p - 1], rules));
    }
    if p < start {
        assert(!parts_at(path[start - 1], rules));
    }
}

} // verus!
