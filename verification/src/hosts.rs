//! The hosts-file overlay and its backup: which file is the target, what a
//! session writes into it, and how the content from before the session comes
//! back.

use crate::config::{entries, Config};
use crate::text::{
    contains, free_of, is_substring, join_lines, join_with, lemma_piece_is_in_join,
    lemma_pieces_are_free, lemma_split_of_join, lemma_substring_lies_in_a_piece,
    lemma_substring_of_substring, lemma_substring_survives_append, lemma_suffix_is_substring,
    same_text, split, split_on,
};
use vstd::prelude::*;
use vstd::string::StringExecFns;

verus! {

/// Which hosts file a session works on.
#[derive(Debug, Clone, Copy, PartialEq, Eq, Structural)]
pub enum TargetKind {
    /// The privileged hosts file of the platform.
    System,
    /// A file of the user's own, made for the session.
    UserFallback,
}

/// The resolved hosts file: its path and its kind. The kind is decided once,
/// here, and carried along. `P` is what a path is given as.
#[derive(Debug, Clone, PartialEq, Eq)]
pub struct HostsTarget<P> {
    pub path: P,
    pub kind: TargetKind,
}

/// Resolves the hosts file of a session. An override path wins and counts as
/// a file of the user's own; else the system file where it can be written;
/// else the fallback file.
pub fn get_hosts_path<P>(
    override_path: Option<P>,
    system_path: P,
    system_writable: bool,
    fallback_path: P,
) -> (target: HostsTarget<P>)
    ensures
        match override_path {
            Some(path) => target.path == path && target.kind == TargetKind::UserFallback,
            None => if system_writable {
                target.path == system_path && target.kind == TargetKind::System
            } else {
                target.path == fallback_path && target.kind == TargetKind::UserFallback
            },
        },
{
    match override_path {
        Some(path) => HostsTarget { path, kind: TargetKind::UserFallback },
        None => if system_writable {
            HostsTarget { path: system_path, kind: TargetKind::System }
        } else {
            HostsTarget { path: fallback_path, kind: TargetKind::UserFallback }
        },
    }
}

/// The name of the backup file that belongs to a kind of target.
pub fn backup_file_name(kind: TargetKind) -> (name: &'static str)
    ensures
        name@ == match kind {
            TargetKind::System => "hosts.backup"@,
            TargetKind::UserFallback => "user_hosts.backup"@,
        },
{
    match kind {
        TargetKind::System => "hosts.backup",
        TargetKind::UserFallback => "user_hosts.backup",
    }
}

/// The comment block that opens a fallback file which was empty.
pub open spec fn fallback_header() -> Seq<char> {
    "# FlowMode user-level hosts file\n# This file blocks websites without requiring admin privileges\n# Note: This only works if you configure your system to use this as an additional hosts source\n\n"@
}

/// The lines that whitelist mode blocks before it exempts anything.
pub open spec fn broad_block_list() -> Seq<Seq<char>> {
    seq![
        "127.0.0.1 facebook.com"@,
        "127.0.0.1 www.facebook.com"@,
        "127.0.0.1 twitter.com"@,
        "127.0.0.1 www.twitter.com"@,
        "127.0.0.1 instagram.com"@,
        "127.0.0.1 www.instagram.com"@,
        "127.0.0.1 youtube.com"@,
        "127.0.0.1 www.youtube.com"@,
        "127.0.0.1 reddit.com"@,
        "127.0.0.1 www.reddit.com"@,
        "127.0.0.1 tiktok.com"@,
        "127.0.0.1 www.tiktok.com"@,
    ]
}

/// `content`, followed by a line break and `entry` unless `entry` already
/// occurs in it.
pub open spec fn with_entry(content: Seq<char>, entry: Seq<char>) -> Seq<char> {
    if is_substring(entry, content) {
        content
    } else {
        content + seq!['\n'] + entry
    }
}

/// `content` after each of `list` was added in turn, where missing.
pub open spec fn with_entries(content: Seq<char>, list: Seq<Seq<char>>) -> Seq<char>
    decreases list.len(),
{
    if list.len() == 0 {
        content
    } else {
        with_entry(with_entries(content, list.drop_last()), list.last())
    }
}

/// The line that blocks a domain itself.
pub open spec fn bare_line(domain: Seq<char>) -> Seq<char> {
    "127.0.0.1 "@ + domain
}

/// The line that blocks the `www.` host of a domain.
pub open spec fn www_line(domain: Seq<char>) -> Seq<char> {
    "127.0.0.1 www."@ + domain
}

/// The lines of a hosts file: what stands between its line breaks.
pub open spec fn lines_of(content: Seq<char>) -> Seq<Seq<char>> {
    split_on(content, '\n')
}

/// Those of `lines` that are neither `first` nor `second`, in order.
pub open spec fn other_lines(
    lines: Seq<Seq<char>>,
    first: Seq<char>,
    second: Seq<char>,
) -> Seq<Seq<char>>
    decreases lines.len(),
{
    if lines.len() == 0 {
        Seq::empty()
    } else {
        let before = other_lines(lines.drop_last(), first, second);
        if lines.last() == first || lines.last() == second {
            before
        } else {
            before.push(lines.last())
        }
    }
}

/// `content` without the blocking lines of `domain`: every line that is
/// exactly the bare line or the `www.` line is taken out, line break and
/// all; every other line stays as it is.
pub open spec fn without_domain(content: Seq<char>, domain: Seq<char>) -> Seq<char> {
    join_with(other_lines(lines_of(content), bare_line(domain), www_line(domain)), '\n')
}

/// `content` after the lines of each of `domains` were taken out in turn.
pub open spec fn without_domains(content: Seq<char>, domains: Seq<Seq<char>>) -> Seq<char>
    decreases domains.len(),
{
    if domains.len() == 0 {
        content
    } else {
        without_domain(without_domains(content, domains.drop_last()), domains.last())
    }
}

/// What a session starts from: the file's content, with the header in front
/// where the file is a fallback file and empty.
pub open spec fn overlay_base(initial: Seq<char>, kind: TargetKind) -> Seq<char> {
    if kind == TargetKind::UserFallback && initial.len() == 0 {
        initial + fallback_header()
    } else {
        initial
    }
}

/// The content a session gives the hosts file. Block mode adds the missing
/// lines of `block_list`. Whitelist mode adds the missing lines of the broad
/// list and then takes out, whole, the lines that block a whitelisted
/// domain.
pub open spec fn overlay_text(
    initial: Seq<char>,
    kind: TargetKind,
    whitelist_mode: bool,
    block_list: Seq<Seq<char>>,
    whitelist: Seq<Seq<char>>,
) -> Seq<char> {
    let base = overlay_base(initial, kind);
    if whitelist_mode {
        without_domains(with_entries(base, broad_block_list()), whitelist)
    } else {
        with_entries(base, block_list)
    }
}

/// Adding entries only ever appends.
pub proof fn lemma_entries_append(content: Seq<char>, list: Seq<Seq<char>>)
    ensures
        exists|tail: Seq<char>| with_entries(content, list) == content + tail,
    decreases list.len(),
{
    if list.len() == 0 {
        assert(with_entries(content, list) == content + Seq::<char>::empty());
    } else {
        lemma_entries_append(content, list.drop_last());
        let before = with_entries(content, list.drop_last());
        let tail = choose|tail: Seq<char>| before == content + tail;
        if is_substring(list.last(), before) {
        } else {
            assert(with_entries(content, list) =~= content + (tail + seq!['\n'] + list.last()));
        }
    }
}

/// What occurs in the content still occurs once entries were added.
pub proof fn lemma_entries_keep_substrings(
    content: Seq<char>,
    list: Seq<Seq<char>>,
    needle: Seq<char>,
)
    requires
        is_substring(needle, content),
    ensures
        is_substring(needle, with_entries(content, list)),
{
    lemma_entries_append(content, list);
    let tail = choose|tail: Seq<char>| with_entries(content, list) == content + tail;
    lemma_substring_survives_append(content, tail, needle);
}

/// Every entry of the list occurs in the content once the list was added.
pub proof fn lemma_entries_all_present(content: Seq<char>, list: Seq<Seq<char>>)
    ensures
        forall|i: int| 0 <= i < list.len() ==> is_substring(#[trigger] list[i], with_entries(content, list)),
    decreases list.len(),
{
    if list.len() > 0 {
        let front = list.drop_last();
        let before = with_entries(content, front);
        lemma_entries_all_present(content, front);
        assert forall|i: int| 0 <= i < list.len() implies is_substring(
            #[trigger] list[i],
            with_entries(content, list),
        ) by {
            if i < list.len() - 1 {
                assert(list[i] == front[i]);
                assert(with_entries(content, list) == with_entries(before, seq![list.last()])) by {
                    assert(seq![list.last()].drop_last() =~= Seq::<Seq<char>>::empty());
                    assert(seq![list.last()].last() == list.last());
                    assert(with_entries(before, Seq::<Seq<char>>::empty()) == before);
                }
                lemma_entries_keep_substrings(before, seq![list.last()], list[i]);
            } else {
                if !is_substring(list.last(), before) {
                    lemma_suffix_is_substring(before + seq!['\n'], list.last());
                }
            }
        }
    }
}

/// Where every entry already occurs, adding the list changes nothing.
pub proof fn lemma_entries_present_unchanged(content: Seq<char>, list: Seq<Seq<char>>)
    requires
        forall|i: int| 0 <= i < list.len() ==> is_substring(#[trigger] list[i], content),
    ensures
        with_entries(content, list) == content,
    decreases list.len(),
{
    if list.len() > 0 {
        let front = list.drop_last();
        assert forall|i: int| 0 <= i < front.len() implies is_substring(
            #[trigger] front[i],
            content,
        ) by {
            assert(front[i] == list[i]);
        }
        lemma_entries_present_unchanged(content, front);
        assert(is_substring(list[list.len() - 1], content));
    }
}

/// Adding a list a second time adds nothing: no entry is ever duplicated.
pub proof fn lemma_entries_idempotent(content: Seq<char>, list: Seq<Seq<char>>)
    ensures
        with_entries(with_entries(content, list), list) == with_entries(content, list),
{
    lemma_entries_all_present(content, list);
    lemma_entries_present_unchanged(with_entries(content, list), list);
}

/// In block mode a session only ever appends: what the file held stays in
/// front, untouched.
pub proof fn lemma_block_mode_only_appends(
    initial: Seq<char>,
    kind: TargetKind,
    block_list: Seq<Seq<char>>,
    whitelist: Seq<Seq<char>>,
)
    ensures
        exists|tail: Seq<char>|
            overlay_text(initial, kind, false, block_list, whitelist) == initial + tail,
{
    let base = overlay_base(initial, kind);
    lemma_entries_append(base, block_list);
    let tail = choose|tail: Seq<char>| with_entries(base, block_list) == base + tail;
    if base == initial {
        assert(overlay_text(initial, kind, false, block_list, whitelist) == initial + tail);
    } else {
        assert(overlay_text(initial, kind, false, block_list, whitelist) =~= initial + (
        fallback_header() + tail));
    }
}

/// In block mode every line of the block list occurs in what the session
/// writes.
pub proof fn lemma_block_mode_covers_list(
    initial: Seq<char>,
    kind: TargetKind,
    block_list: Seq<Seq<char>>,
    whitelist: Seq<Seq<char>>,
)
    ensures
        forall|i: int|
            0 <= i < block_list.len() ==> is_substring(
                #[trigger] block_list[i],
                overlay_text(initial, kind, false, block_list, whitelist),
            ),
{
    lemma_entries_all_present(overlay_base(initial, kind), block_list);
}

/// In whitelist mode with nothing whitelisted every line of the broad list
/// occurs in what the session writes.
pub proof fn lemma_whitelist_mode_blocks_broadly(initial: Seq<char>, kind: TargetKind)
    ensures
        forall|i: int|
            0 <= i < broad_block_list().len() ==> is_substring(
                #[trigger] broad_block_list()[i],
                overlay_text(initial, kind, true, Seq::empty(), Seq::empty()),
            ),
{
    lemma_entries_all_present(overlay_base(initial, kind), broad_block_list());
}

/// What is kept of some lines is none of the two lines taken out, and
/// each kept line is one of the lines.
pub proof fn lemma_other_lines_are_others(
    lines: Seq<Seq<char>>,
    first: Seq<char>,
    second: Seq<char>,
)
    ensures
        forall|k: int|
            0 <= k < other_lines(lines, first, second).len() ==> {
                let line = #[trigger] other_lines(lines, first, second)[k];
                &&& line != first
                &&& line != second
                &&& lines.contains(line)
            },
    decreases lines.len(),
{
    if lines.len() > 0 {
        let front = lines.drop_last();
        lemma_other_lines_are_others(front, first, second);
        assert forall|k: int| 0 <= k < other_lines(lines, first, second).len() implies {
            let line = #[trigger] other_lines(lines, first, second)[k];
            &&& line != first
            &&& line != second
            &&& lines.contains(line)
        } by {
            let line = other_lines(lines, first, second)[k];
            if k < other_lines(front, first, second).len() {
                assert(line == other_lines(front, first, second)[k]);
                let j = choose|j: int| 0 <= j < front.len() && front[j] == line;
                assert(lines[j] == line);
            } else {
                assert(lines[lines.len() - 1] == line);
            }
        }
    }
}

/// A line that is neither of the two taken out is kept.
pub proof fn lemma_other_lines_keep_the_rest(
    lines: Seq<Seq<char>>,
    first: Seq<char>,
    second: Seq<char>,
    line: Seq<char>,
)
    requires
        lines.contains(line),
        line != first,
        line != second,
    ensures
        other_lines(lines, first, second).contains(line),
    decreases lines.len(),
{
    let j = choose|j: int| 0 <= j < lines.len() && lines[j] == line;
    let front = lines.drop_last();
    let kept = other_lines(lines, first, second);
    if j == lines.len() - 1 {
        assert(kept.last() == line);
    } else {
        assert(front[j] == line);
        lemma_other_lines_keep_the_rest(front, first, second, line);
        let k = choose|k: int|
            0 <= k < other_lines(front, first, second).len() && other_lines(
                front,
                first,
                second,
            )[k] == line;
        assert(kept[k] == line);
    }
}

/// A blocking line is never empty.
pub proof fn lemma_blocking_lines_are_not_empty(domain: Seq<char>)
    ensures
        bare_line(domain).len() > 0,
        www_line(domain).len() > 0,
{
    reveal_strlit("127.0.0.1 ");
    reveal_strlit("127.0.0.1 www.");
}

/// Once the lines of a domain were taken out, no line of the content is
/// the bare line or the `www.` line of that domain, and every line is one
/// that the content had before, or empty.
pub proof fn lemma_domain_lines_are_gone(content: Seq<char>, domain: Seq<char>, k: int)
    requires
        0 <= k < lines_of(without_domain(content, domain)).len(),
    ensures
        lines_of(without_domain(content, domain))[k] != bare_line(domain),
        lines_of(without_domain(content, domain))[k] != www_line(domain),
        lines_of(without_domain(content, domain))[k].len() == 0 || lines_of(content).contains(
            lines_of(without_domain(content, domain))[k],
        ),
{
    let kept = other_lines(lines_of(content), bare_line(domain), www_line(domain));
    lemma_blocking_lines_are_not_empty(domain);
    lemma_other_lines_are_others(lines_of(content), bare_line(domain), www_line(domain));
    if kept.len() > 0 {
        lemma_pieces_are_free(content, '\n');
        assert forall|j: int| 0 <= j < kept.len() implies free_of(#[trigger] kept[j], '\n') by {
            let i = choose|i: int| 0 <= i < lines_of(content).len() && lines_of(content)[i]
                == kept[j];
            assert(free_of(split_on(content, '\n')[i], '\n'));
        }
        lemma_split_of_join(kept, '\n');
        assert(lines_of(without_domain(content, domain))[k] == kept[k]);
    } else {
        assert(without_domain(content, domain) =~= Seq::<char>::empty());
    }
}

/// In whitelist mode no line of what is written is the bare line or the
/// `www.` line of a whitelisted domain: whatever the content was, those
/// lines are gone.
pub proof fn lemma_whitelisted_lines_are_gone(
    content: Seq<char>,
    domains: Seq<Seq<char>>,
    i: int,
    k: int,
)
    requires
        0 <= i < domains.len(),
        0 <= k < lines_of(without_domains(content, domains)).len(),
    ensures
        lines_of(without_domains(content, domains))[k] != bare_line(domains[i]),
        lines_of(without_domains(content, domains))[k] != www_line(domains[i]),
    decreases domains.len(),
{
    let before = without_domains(content, domains.drop_last());
    let line = lines_of(without_domains(content, domains))[k];
    lemma_domain_lines_are_gone(before, domains.last(), k);
    if i < domains.len() - 1 {
        lemma_blocking_lines_are_not_empty(domains[i]);
        if line.len() > 0 {
            let j = choose|j: int| 0 <= j < lines_of(before).len() && lines_of(before)[j] == line;
            assert(domains.drop_last()[i] == domains[i]);
            lemma_whitelisted_lines_are_gone(content, domains.drop_last(), i, j);
        }
    }
}

/// Taking the lines of a domain out leaves every other line in its place:
/// where any line is left, the lines are exactly the others, in order.
pub proof fn lemma_unrelated_lines_stay(content: Seq<char>, domain: Seq<char>)
    requires
        other_lines(lines_of(content), bare_line(domain), www_line(domain)).len() > 0,
    ensures
        lines_of(without_domain(content, domain)) == other_lines(
            lines_of(content),
            bare_line(domain),
            www_line(domain),
        ),
{
    let kept = other_lines(lines_of(content), bare_line(domain), www_line(domain));
    lemma_other_lines_are_others(lines_of(content), bare_line(domain), www_line(domain));
    lemma_pieces_are_free(content, '\n');
    assert forall|j: int| 0 <= j < kept.len() implies free_of(#[trigger] kept[j], '\n') by {
        let i = choose|i: int| 0 <= i < lines_of(content).len() && lines_of(content)[i] == kept[j];
        assert(free_of(split_on(content, '\n')[i], '\n'));
    }
    lemma_split_of_join(kept, '\n');
}

/// A line that blocks no whitelisted domain stays a line, whatever is
/// whitelisted: whitelist mode rewrites no line of another host.
pub proof fn lemma_whitelisting_keeps_other_lines(
    content: Seq<char>,
    domains: Seq<Seq<char>>,
    line: Seq<char>,
)
    requires
        lines_of(content).contains(line),
        forall|i: int|
            0 <= i < domains.len() ==> line != bare_line(#[trigger] domains[i]) && line
                != www_line(domains[i]),
    ensures
        lines_of(without_domains(content, domains)).contains(line),
    decreases domains.len(),
{
    if domains.len() > 0 {
        let front = domains.drop_last();
        assert forall|i: int| 0 <= i < front.len() implies line != bare_line(
            #[trigger] front[i],
        ) && line != www_line(front[i]) by {
            assert(front[i] == domains[i]);
        }
        lemma_whitelisting_keeps_other_lines(content, front, line);
        let before = without_domains(content, front);
        let last = domains[domains.len() - 1];
        lemma_other_lines_keep_the_rest(lines_of(before), bare_line(last), www_line(last), line);
        lemma_unrelated_lines_stay(before, last);
    }
}

/// Text that occurs in the content and in neither blocking line of a
/// domain still occurs once the lines of the domain were taken out.
pub proof fn lemma_domain_leaves_other_text(content: Seq<char>, domain: Seq<char>, text: Seq<char>)
    requires
        free_of(text, '\n'),
        is_substring(text, content),
        !is_substring(text, bare_line(domain)),
        !is_substring(text, www_line(domain)),
    ensures
        is_substring(text, without_domain(content, domain)),
{
    let lines = lines_of(content);
    lemma_substring_lies_in_a_piece(content, text, '\n');
    let k = choose|k: int| 0 <= k < lines.len() && is_substring(text, #[trigger] lines[k]);
    let line = lines[k];
    let kept = other_lines(lines, bare_line(domain), www_line(domain));
    lemma_other_lines_keep_the_rest(lines, bare_line(domain), www_line(domain), line);
    let j = choose|j: int| 0 <= j < kept.len() && kept[j] == line;
    lemma_piece_is_in_join(kept, j, '\n');
    lemma_substring_of_substring(text, line, without_domain(content, domain));
}

/// Text that occurs in the content and in no blocking line of a
/// whitelisted domain still occurs after whitelisting.
pub proof fn lemma_whitelisting_leaves_other_text(
    content: Seq<char>,
    domains: Seq<Seq<char>>,
    text: Seq<char>,
)
    requires
        free_of(text, '\n'),
        is_substring(text, content),
        forall|i: int|
            0 <= i < domains.len() ==> !is_substring(text, bare_line(#[trigger] domains[i]))
                && !is_substring(text, www_line(domains[i])),
    ensures
        is_substring(text, without_domains(content, domains)),
    decreases domains.len(),
{
    if domains.len() > 0 {
        let front = domains.drop_last();
        assert forall|i: int| 0 <= i < front.len() implies !is_substring(
            text,
            bare_line(#[trigger] front[i]),
        ) && !is_substring(text, www_line(front[i])) by {
            assert(front[i] == domains[i]);
        }
        lemma_whitelisting_leaves_other_text(content, front, text);
        let last = domains[domains.len() - 1];
        lemma_domain_leaves_other_text(without_domains(content, front), last, text);
    }
}

/// No line of the broad list holds a line break.
pub proof fn lemma_broad_lines_have_no_break()
    ensures
        forall|i: int|
            0 <= i < broad_block_list().len() ==> free_of(#[trigger] broad_block_list()[i], '\n'),
{
    reveal_strlit("127.0.0.1 facebook.com");
    reveal_strlit("127.0.0.1 www.facebook.com");
    reveal_strlit("127.0.0.1 twitter.com");
    reveal_strlit("127.0.0.1 www.twitter.com");
    reveal_strlit("127.0.0.1 instagram.com");
    reveal_strlit("127.0.0.1 www.instagram.com");
    reveal_strlit("127.0.0.1 youtube.com");
    reveal_strlit("127.0.0.1 www.youtube.com");
    reveal_strlit("127.0.0.1 reddit.com");
    reveal_strlit("127.0.0.1 www.reddit.com");
    reveal_strlit("127.0.0.1 tiktok.com");
    reveal_strlit("127.0.0.1 www.tiktok.com");
    assert(free_of(broad_block_list()[0], '\n'));
    assert(free_of(broad_block_list()[1], '\n'));
    assert(free_of(broad_block_list()[2], '\n'));
    assert(free_of(broad_block_list()[3], '\n'));
    assert(free_of(broad_block_list()[4], '\n'));
    assert(free_of(broad_block_list()[5], '\n'));
    assert(free_of(broad_block_list()[6], '\n'));
    assert(free_of(broad_block_list()[7], '\n'));
    assert(free_of(broad_block_list()[8], '\n'));
    assert(free_of(broad_block_list()[9], '\n'));
    assert(free_of(broad_block_list()[10], '\n'));
    assert(free_of(broad_block_list()[11], '\n'));
}

/// Whitelist mode keeps what it blocks broadly, but for the whitelisted:
/// every line of the broad list that occurs in no blocking line of a
/// whitelisted domain occurs in what is written, and no line of what is
/// written blocks a whitelisted domain.
pub proof fn lemma_whitelist_mode_is_exclusive(
    initial: Seq<char>,
    kind: TargetKind,
    block_list: Seq<Seq<char>>,
    whitelist: Seq<Seq<char>>,
    entry: int,
    domain: int,
    line: int,
)
    requires
        0 <= entry < broad_block_list().len(),
        forall|i: int|
            0 <= i < whitelist.len() ==> !is_substring(
                broad_block_list()[entry],
                bare_line(#[trigger] whitelist[i]),
            ) && !is_substring(broad_block_list()[entry], www_line(whitelist[i])),
        0 <= domain < whitelist.len(),
        0 <= line < lines_of(overlay_text(initial, kind, true, block_list, whitelist)).len(),
    ensures
        is_substring(
            broad_block_list()[entry],
            overlay_text(initial, kind, true, block_list, whitelist),
        ),
        lines_of(overlay_text(initial, kind, true, block_list, whitelist))[line] != bare_line(
            whitelist[domain],
        ),
        lines_of(overlay_text(initial, kind, true, block_list, whitelist))[line] != www_line(
            whitelist[domain],
        ),
{
    let blocked = with_entries(overlay_base(initial, kind), broad_block_list());
    lemma_broad_lines_have_no_break();
    lemma_entries_all_present(overlay_base(initial, kind), broad_block_list());
    lemma_whitelisting_leaves_other_text(blocked, whitelist, broad_block_list()[entry]);
    lemma_whitelisted_lines_are_gone(blocked, whitelist, domain, line);
}

/// Appends `entry` on a line of its own unless it already occurs.
pub fn add_entry(content: &mut String, entry: &str)
    ensures
        final(content)@ == with_entry(old(content)@, entry@),
{
    if !contains(content.as_str(), entry) {
        proof {
            reveal_strlit("\n");
            assert("\n"@ =~= seq!['\n']);
        }
        content.append("\n");
        content.append(entry);
    }
}

/// Appends each entry of `list` that does not occur yet, in order.
pub fn add_entries(content: &mut String, list: &Vec<String>)
    ensures
        final(content)@ == with_entries(old(content)@, list.deep_view()),
{
    let ghost start = content@;
    let ghost all = list.deep_view();
    let mut i: usize = 0;
    assert(all.take(0) =~= Seq::<Seq<char>>::empty());
    while i < list.len()
        invariant
            i <= list.len(),
            all == list.deep_view(),
            content@ == with_entries(start, all.take(i as int)),
        decreases list.len() - i,
    {
        add_entry(content, list[i].as_str());
        proof {
            let next = all.take(i + 1);
            assert(next.drop_last() =~= all.take(i as int));
            assert(next.last() == list@[i as int]@);
        }
        i += 1;
    }
    assert(all.take(list.len() as int) =~= all);
}

/// Takes the blocking lines of `domain` out of `content`.
pub fn remove_domain(content: &str, domain: &str) -> (out: String)
    ensures
        out@ == without_domain(content@, domain@),
{
    let mut bare = "127.0.0.1 ".to_owned();
    bare.append(domain);
    let mut www = "127.0.0.1 www.".to_owned();
    www.append(domain);
    let lines = split(content, '\n');
    let ghost all = lines.deep_view();
    let mut kept: Vec<String> = Vec::new();
    let mut i: usize = 0;
    proof {
        assert(all.take(0) =~= Seq::<Seq<char>>::empty());
        assert(kept.deep_view() =~= Seq::<Seq<char>>::empty());
    }
    while i < lines.len()
        invariant
            i <= lines.len(),
            all == lines.deep_view(),
            bare@ == bare_line(domain@),
            www@ == www_line(domain@),
            kept.deep_view() == other_lines(all.take(i as int), bare@, www@),
        decreases lines.len() - i,
    {
        let ghost before = kept.deep_view();
        proof {
            let next = all.take(i + 1);
            assert(next.drop_last() =~= all.take(i as int));
            assert(next.last() == lines@[i as int]@);
        }
        let line = lines[i].as_str();
        if !same_text(line, bare.as_str()) && !same_text(line, www.as_str()) {
            kept.push(line.to_owned());
            proof {
                assert(kept.deep_view() =~= before.push(lines@[i as int]@));
            }
        }
        i += 1;
    }
    assert(all.take(lines.len() as int) =~= all);
    join_lines(&kept)
}

/// Takes the blocking lines of each of `domains` out of `content`, in order.
pub fn remove_domains(content: String, domains: &Vec<String>) -> (out: String)
    ensures
        out@ == without_domains(content@, domains.deep_view()),
{
    let ghost start = content@;
    let ghost all = domains.deep_view();
    let mut out = content;
    let mut i: usize = 0;
    assert(all.take(0) =~= Seq::<Seq<char>>::empty());
    while i < domains.len()
        invariant
            i <= domains.len(),
            all == domains.deep_view(),
            out@ == without_domains(start, all.take(i as int)),
        decreases domains.len() - i,
    {
        out = remove_domain(out.as_str(), domains[i].as_str());
        proof {
            let next = all.take(i + 1);
            assert(next.drop_last() =~= all.take(i as int));
            assert(next.last() == domains@[i as int]@);
        }
        i += 1;
    }
    assert(all.take(domains.len() as int) =~= all);
    out
}

/// The broad list of whitelist mode.
pub fn broad_blocks() -> (list: Vec<String>)
    ensures
        list.deep_view() == broad_block_list(),
{
    let mut list: Vec<String> = Vec::new();
    list.push("127.0.0.1 facebook.com".to_owned());
    list.push("127.0.0.1 www.facebook.com".to_owned());
    list.push("127.0.0.1 twitter.com".to_owned());
    list.push("127.0.0.1 www.twitter.com".to_owned());
    list.push("127.0.0.1 instagram.com".to_owned());
    list.push("127.0.0.1 www.instagram.com".to_owned());
    list.push("127.0.0.1 youtube.com".to_owned());
    list.push("127.0.0.1 www.youtube.com".to_owned());
    list.push("127.0.0.1 reddit.com".to_owned());
    list.push("127.0.0.1 www.reddit.com".to_owned());
    list.push("127.0.0.1 tiktok.com".to_owned());
    list.push("127.0.0.1 www.tiktok.com".to_owned());
    assert(list.deep_view() =~= broad_block_list());
    list
}

/// Computes the content a session gives the hosts file.
pub fn overlay(initial: &str, kind: TargetKind, whitelist_mode: bool, config: &Config) -> (out:
    String)
    ensures
        out@ == overlay_text(
            initial@,
            kind,
            whitelist_mode,
            entries(config.block_list),
            entries(config.whitelist),
        ),
{
    let mut content = String::new();
    content.append(initial);
    assert(content@ =~= initial@);
    if kind == TargetKind::UserFallback && initial.is_empty() {
        content.append(
            "# FlowMode user-level hosts file\n# This file blocks websites without requiring admin privileges\n# Note: This only works if you configure your system to use this as an additional hosts source\n\n",
        );
    }
    if whitelist_mode {
        let broad = broad_blocks();
        add_entries(&mut content, &broad);
        match &config.whitelist {
            Some(domains) => remove_domains(content, domains),
            None => content,
        }
    } else {
        match &config.block_list {
            Some(list) => {
                add_entries(&mut content, list);
                content
            },
            None => content,
        }
    }
}

} // verus!
