//! Device locator: scans the textual input-device registry (the kernel's
//! line-oriented enumeration of input devices) and extracts the `event<N>`
//! handler token of the first device block whose name line contains a filter
//! substring.
//!
//! A block's name line is prefixed `N: Name=`; a later line of the same block,
//! prefixed `H: Handlers=`, lists whitespace-separated handler tokens, one of
//! which may start with `event`. Blocks are separated by blank lines. The scan
//! enters a capturing state on a matching name line, leaves it on a blank
//! line, and returns the first `event` token of a handlers line seen while
//! capturing. When no block matches, a sentinel (`?`) is returned: an
//! expected outcome while the device is unplugged, not an error.

use vstd::prelude::*;

verus! {

/// Prefix of a block's name line: `N: Name=`.
pub open spec fn spec_name_prefix() -> Seq<u8> {
    seq![78u8, 58u8, 32u8, 78u8, 97u8, 109u8, 101u8, 61u8]
}

/// Prefix of a block's handlers line: `H: Handlers=`.
pub open spec fn spec_handlers_prefix() -> Seq<u8> {
    seq![72u8, 58u8, 32u8, 72u8, 97u8, 110u8, 100u8, 108u8, 101u8, 114u8, 115u8, 61u8]
}

/// Prefix of an event-node handler token: `event`.
pub open spec fn spec_event_prefix() -> Seq<u8> {
    seq![101u8, 118u8, 101u8, 110u8, 116u8]
}

/// The sentinel returned when no block matches: `?`.
pub open spec fn spec_sentinel() -> Seq<u8> {
    seq![63u8]
}

pub open spec fn spec_starts_with(line: Seq<u8>, prefix: Seq<u8>) -> bool {
    line.len() >= prefix.len() && line.subrange(0, prefix.len() as int) == prefix
}

/// The needle occurs in the line at position `i`.
pub open spec fn spec_contains_at(line: Seq<u8>, needle: Seq<u8>, i: int) -> bool {
    0 <= i && i + needle.len() <= line.len() && line.subrange(i, i + needle.len()) == needle
}

/// The needle occurs somewhere in the line.
pub open spec fn spec_contains(line: Seq<u8>, needle: Seq<u8>) -> bool {
    exists|i: int| spec_contains_at(line, needle, i)
}

/// ASCII whitespace, as recognised when trimming and when splitting tokens.
pub open spec fn spec_is_space(b: u8) -> bool {
    b == 32u8 || b == 9u8 || b == 10u8 || b == 11u8 || b == 12u8 || b == 13u8
}

/// A line that trims to nothing: a block boundary.
pub open spec fn spec_is_blank(line: Seq<u8>) -> bool {
    forall|i: int| 0 <= i < line.len() ==> spec_is_space(#[trigger] line[i])
}

pub open spec fn spec_is_name_line(line: Seq<u8>) -> bool {
    spec_starts_with(line, spec_name_prefix())
}

/// A name line that contains the device filter substring: the line that
/// switches the scan into its capturing state.
pub open spec fn spec_is_matching_name_line(line: Seq<u8>, filter: Seq<u8>) -> bool {
    spec_is_name_line(line) && spec_contains(line, filter)
}

pub open spec fn spec_is_handlers_line(line: Seq<u8>) -> bool {
    spec_starts_with(line, spec_handlers_prefix())
}

fn starts_with(line: &[u8], prefix: &[u8]) -> (r: bool)
    ensures
        r == spec_starts_with(line@, prefix@),
{
    if line.len() < prefix.len() {
        return false;
    }
    let mut j: usize = 0;
    while j < prefix.len()
        invariant
            0 <= j <= prefix.len() <= line.len(),
            forall|k: int| 0 <= k < j ==> line@[k] == prefix@[k],
        decreases prefix.len() - j,
    {
        if line[j] != prefix[j] {
            assert(!spec_starts_with(line@, prefix@)) by {
                assert(line@.subrange(0, prefix@.len() as int)[j as int] != prefix@[j as int]);
            }
            return false;
        }
        j += 1;
    }
    assert(line@.subrange(0, prefix@.len() as int) =~= prefix@);
    true
}

fn contains_subseq(line: &[u8], needle: &[u8]) -> (r: bool)
    ensures
        r == spec_contains(line@, needle@),
{
    if needle.len() > line.len() {
        assert(forall|i: int| !spec_contains_at(line@, needle@, i));
        return false;
    }
    if needle.len() == 0 {
        assert(line@.subrange(0, 0) =~= needle@);
        assert(spec_contains_at(line@, needle@, 0));
        return true;
    }
    let mut i: usize = 0;
    while i <= line.len() - needle.len()
        invariant
            0 < needle.len() <= line.len(),
            0 <= i <= line.len() - needle.len() + 1,
            forall|k: int| 0 <= k < i ==> !spec_contains_at(line@, needle@, k),
        decreases line.len() - i,
    {
        let mut j: usize = 0;
        let mut hit = true;
        while j < needle.len()
            invariant
                0 <= j <= needle.len(),
                i + needle.len() <= line.len(),
                hit ==> forall|k: int| 0 <= k < j ==> line@[i + k] == needle@[k],
                !hit ==> !spec_contains_at(line@, needle@, i as int),
            decreases needle.len() - j,
        {
            if line[i + j] != needle[j] {
                proof {
                    if spec_contains_at(line@, needle@, i as int) {
                        assert(line@.subrange(i as int, i + needle@.len())[j as int]
                            == needle@[j as int]);
                    }
                }
                hit = false;
            }
            j += 1;
        }
        if hit {
            assert(line@.subrange(i as int, i + needle@.len()) =~= needle@);
            assert(spec_contains_at(line@, needle@, i as int));
            return true;
        }
        i += 1;
    }
    assert(forall|k: int| !spec_contains_at(line@, needle@, k));
    false
}

/// First position at or after `i` that ends a token: the index of the next
/// whitespace byte, or the end of the line.
pub open spec fn spec_token_end(line: Seq<u8>, i: int) -> int
    recommends
        0 <= i <= line.len(),
    decreases line.len() - i,
{
    if i < 0 || i >= line.len() {
        line.len() as int
    } else if spec_is_space(line[i]) {
        i
    } else {
        spec_token_end(line, i + 1)
    }
}

/// A whitespace-delimited token begins at `i`.
pub open spec fn spec_is_token_start(line: Seq<u8>, i: int) -> bool {
    0 <= i < line.len() && !spec_is_space(line[i]) && (i == 0 || spec_is_space(line[i - 1]))
}

/// The token beginning at `i`.
pub open spec fn spec_token_at(line: Seq<u8>, i: int) -> Seq<u8> {
    line.subrange(i, spec_token_end(line, i))
}

/// The first token at or after position `i` that starts with `event`.
pub open spec fn spec_first_event_token_from(line: Seq<u8>, i: int) -> Option<Seq<u8>>
    decreases line.len() - i,
{
    if i < 0 || i >= line.len() {
        None
    } else if spec_is_token_start(line, i)
        && spec_starts_with(spec_token_at(line, i), spec_event_prefix()) {
        Some(spec_token_at(line, i))
    } else {
        spec_first_event_token_from(line, i + 1)
    }
}

/// The first whitespace-delimited token of the line that starts with `event`.
pub open spec fn spec_first_event_token(line: Seq<u8>) -> Option<Seq<u8>> {
    spec_first_event_token_from(line, 0)
}

/// What `spec_token_end` returns: the end of the maximal whitespace-free run
/// beginning at `i`.
proof fn lemma_token_end_facts(line: Seq<u8>, i: int)
    requires
        0 <= i <= line.len(),
    ensures
        i <= spec_token_end(line, i) <= line.len(),
        spec_token_end(line, i) == line.len() || spec_is_space(line[spec_token_end(line, i)]),
        forall|k: int| i <= k < spec_token_end(line, i) ==> !spec_is_space(#[trigger] line[k]),
    decreases line.len() - i,
{
    if i < line.len() && !spec_is_space(line[i]) {
        lemma_token_end_facts(line, i + 1);
    }
}

fn is_space(b: u8) -> (r: bool)
    ensures
        r == spec_is_space(b),
{
    b == 32u8 || b == 9u8 || b == 10u8 || b == 11u8 || b == 12u8 || b == 13u8
}

/// The five bytes of `event` stand at offset `i`.
fn event_prefix_at(line: &[u8], i: usize) -> (r: bool)
    requires
        i <= line@.len(),
    ensures
        r == (i + 5 <= line@.len()
            && line@.subrange(i as int, i as int + 5) == spec_event_prefix()),
{
    if line.len() - i < 5 {
        return false;
    }
    let r = line[i] == 101u8 && line[i + 1] == 118u8 && line[i + 2] == 101u8
        && line[i + 3] == 110u8 && line[i + 4] == 116u8;
    proof {
        if r {
            assert(line@.subrange(i as int, i as int + 5) =~= spec_event_prefix());
        } else {
            if line@.subrange(i as int, i as int + 5) == spec_event_prefix() {
                assert(forall|k: int| 0 <= k < 5
                    ==> line@.subrange(i as int, i as int + 5)[k] == spec_event_prefix()[k]);
            }
        }
    }
    r
}

/// Position `i` starts a token whose first bytes are `event`.
proof fn lemma_event_token_at(line: Seq<u8>, i: int)
    requires
        spec_is_token_start(line, i),
        i + 5 <= line.len(),
        line.subrange(i, i + 5) == spec_event_prefix(),
    ensures
        spec_starts_with(spec_token_at(line, i), spec_event_prefix()),
{
    lemma_token_end_facts(line, i);
    let e = spec_token_end(line, i);
    assert(forall|k: int| 0 <= k < 5 ==> line[i + k] == spec_event_prefix()[k]) by {
        assert(forall|k: int| 0 <= k < 5
            ==> #[trigger] spec_event_prefix()[k] == line.subrange(i, i + 5)[k]);
    }
    if e < i + 5 {
        assert(spec_is_space(line[e]));
        assert(line[e] == spec_event_prefix()[e - i]);
        assert(false);
    }
    assert(spec_token_at(line, i).subrange(0, 5) =~= spec_event_prefix());
}

/// And conversely: a token that starts with `event` shows those five bytes.
proof fn lemma_event_token_at_converse(line: Seq<u8>, i: int)
    requires
        spec_is_token_start(line, i),
        spec_starts_with(spec_token_at(line, i), spec_event_prefix()),
    ensures
        i + 5 <= line.len(),
        line.subrange(i, i + 5) == spec_event_prefix(),
{
    lemma_token_end_facts(line, i);
    let e = spec_token_end(line, i);
    assert(e - i >= 5);
    assert(line.subrange(i, i + 5) =~= spec_token_at(line, i).subrange(0, 5));
}

/// Returns the first whitespace-delimited token of the line that starts with
/// `event`, the `event<N>` handler token of a handlers line.
pub fn first_event_token(line: &[u8]) -> (r: Option<Vec<u8>>)
    ensures
        match r {
            Some(t) => spec_first_event_token(line@) == Some(t@),
            None => spec_first_event_token(line@) is None,
        },
{
    let mut i: usize = 0;
    while i < line.len()
        invariant
            0 <= i <= line@.len(),
            spec_first_event_token(line@) == spec_first_event_token_from(line@, i as int),
        decreases line@.len() - i,
    {
        let token_start = !is_space(line[i]) && (i == 0 || is_space(line[i - 1]));
        if token_start && event_prefix_at(line, i) {
            proof {
                lemma_event_token_at(line@, i as int);
                lemma_token_end_facts(line@, i as int);
            }
            let mut j: usize = i;
            while j < line.len() && !(line[j] == 32u8 || line[j] == 9u8 || line[j] == 10u8
                || line[j] == 11u8 || line[j] == 12u8 || line[j] == 13u8)
                invariant
                    i <= j <= line@.len(),
                    spec_token_end(line@, i as int) == spec_token_end(line@, j as int),
                decreases line@.len() - j,
            {
                j += 1;
            }
            assert(spec_token_end(line@, i as int) == j);
            let t = vstd::slice::slice_to_vec(vstd::slice::slice_subrange(line, i, j));
            assert(t@ == spec_token_at(line@, i as int));
            return Some(t);
        }
        proof {
            if spec_is_token_start(line@, i as int)
                && spec_starts_with(spec_token_at(line@, i as int), spec_event_prefix()) {
                lemma_event_token_at_converse(line@, i as int);
            }
        }
        i += 1;
    }
    None
}

fn is_blank(line: &[u8]) -> (r: bool)
    ensures
        r == spec_is_blank(line@),
{
    let mut i: usize = 0;
    while i < line.len()
        invariant
            0 <= i <= line.len(),
            forall|k: int| 0 <= k < i ==> spec_is_space(#[trigger] line@[k]),
        decreases line.len() - i,
    {
        if !is_space(line[i]) {
            return false;
        }
        i += 1;
    }
    true
}

/// A line as emitted by the splitter: a terminating newline is consumed, and
/// a carriage return directly before it is stripped.
pub open spec fn spec_strip_cr(cur: Seq<u8>) -> Seq<u8> {
    if cur.len() > 0 && cur[cur.len() - 1] == 13u8 {
        cur.drop_last()
    } else {
        cur
    }
}

/// The lines of `text` from position `i` on, `cur` being the part of the
/// current line already consumed. A final line without a newline is emitted
/// as it stands, and only when it is nonempty.
pub open spec fn spec_split_lines_from(text: Seq<u8>, i: int, cur: Seq<u8>) -> Seq<Seq<u8>>
    decreases text.len() - i,
{
    if i < 0 || i >= text.len() {
        if cur.len() == 0 {
            Seq::empty()
        } else {
            seq![cur]
        }
    } else if text[i] == 10u8 {
        seq![spec_strip_cr(cur)] + spec_split_lines_from(text, i + 1, Seq::empty())
    } else {
        spec_split_lines_from(text, i + 1, cur.push(text[i]))
    }
}

/// The lines of the registry text.
pub open spec fn spec_split_lines(text: Seq<u8>) -> Seq<Seq<u8>> {
    spec_split_lines_from(text, 0, Seq::empty())
}

/// Splits the registry text into lines, consuming `\n` terminators and
/// stripping a `\r` directly before each.
pub fn split_lines(text: &[u8]) -> (r: Vec<Vec<u8>>)
    ensures
        r.deep_view() == spec_split_lines(text@),
{
    let mut out: Vec<Vec<u8>> = Vec::new();
    let mut cur: Vec<u8> = Vec::new();
    let mut i: usize = 0;
    assert(out.deep_view() =~~= Seq::<Seq<u8>>::empty());
    while i < text.len()
        invariant
            0 <= i <= text@.len(),
            spec_split_lines(text@)
                == out.deep_view() + spec_split_lines_from(text@, i as int, cur@),
        decreases text@.len() - i,
    {
        if text[i] == 10u8 {
            let ghost prev_dv = out.deep_view();
            let mut line = cur;
            cur = Vec::new();
            let ghost line0 = line@;
            if line.len() > 0 && line[line.len() - 1] == 13u8 {
                line.pop();
            }
            assert(line@ =~= spec_strip_cr(line0));
            out.push(line);
            assert(out.deep_view() =~~= prev_dv + seq![spec_strip_cr(line0)]);
        } else {
            cur.push(text[i]);
        }
        i += 1;
    }
    if cur.len() > 0 {
        let ghost prev_dv = out.deep_view();
        let line = cur;
        out.push(line);
        assert(out.deep_view() =~~= prev_dv + seq![line@]);
    }
    assert(spec_split_lines(text@) =~~= out.deep_view());
    out
}

/// The scan over the registry's lines. `capturing` records whether a matching
/// name line has been seen in the current block: a matching name line turns it
/// on, a blank line (block boundary) turns it off, and while it is on, the
/// first handlers line with an `event` token ends the scan with that token.
pub open spec fn spec_locate(lines: Seq<Seq<u8>>, filter: Seq<u8>, capturing: bool) -> Option<
    Seq<u8>,
>
    decreases lines.len(),
{
    if lines.len() == 0 {
        None
    } else {
        let line = lines[0];
        let cap = capturing || spec_is_matching_name_line(line, filter);
        if cap && spec_is_handlers_line(line) && spec_first_event_token(line) is Some {
            spec_first_event_token(line)
        } else {
            spec_locate(lines.skip(1), filter, cap && !spec_is_blank(line))
        }
    }
}

/// What the device locator yields on the given registry text: the `event`
/// token of the first matching block, or the sentinel.
pub open spec fn spec_find_event_id(text: Seq<u8>, filter: Seq<u8>) -> Seq<u8> {
    match spec_locate(spec_split_lines(text), filter, false) {
        Some(t) => t,
        None => spec_sentinel(),
    }
}

/// Scans the registry text for the block whose name line contains the filter
/// substring and returns the `event<N>` token of that block's handlers line,
/// or the sentinel `?` when no block matches.
pub fn get_device_event_id(registry: &[u8], device_filter_string: &[u8]) -> (r: Vec<u8>)
    ensures
        r@ == spec_find_event_id(registry@, device_filter_string@),
{
    let name_prefix: Vec<u8> = vec![78u8, 58u8, 32u8, 78u8, 97u8, 109u8, 101u8, 61u8];
    let handlers_prefix: Vec<u8> = vec![
        72u8, 58u8, 32u8, 72u8, 97u8, 110u8, 100u8, 108u8, 101u8, 114u8, 115u8, 61u8,
    ];
    assert(name_prefix@ =~= spec_name_prefix());
    assert(handlers_prefix@ =~= spec_handlers_prefix());
    let lines = split_lines(registry);
    let ghost all = lines.deep_view();
    let mut capture = false;
    let mut idx: usize = 0;
    assert(all.skip(0) =~~= all);
    while idx < lines.len()
        invariant
            0 <= idx <= lines@.len(),
            all == lines.deep_view(),
            all == spec_split_lines(registry@),
            name_prefix@ == spec_name_prefix(),
            handlers_prefix@ == spec_handlers_prefix(),
            spec_locate(all, device_filter_string@, false) == spec_locate(
                all.skip(idx as int),
                device_filter_string@,
                capture,
            ),
        decreases lines@.len() - idx,
    {
        let line = lines[idx].as_slice();
        assert(line@ =~= all.skip(idx as int)[0]);
        if starts_with(line, name_prefix.as_slice())
            && contains_subseq(line, device_filter_string) {
            capture = true;
        }
        let ghost cap = capture;
        if capture {
            if starts_with(line, handlers_prefix.as_slice()) {
                let token = first_event_token(line);
                if let Some(t) = token {
                    assert(spec_locate(all, device_filter_string@, false) == Some(t@));
                    return t;
                }
            }
            if is_blank(line) {
                capture = false;
            }
        }
        assert(capture == (cap && !spec_is_blank(line@)));
        proof {
            assert(all.skip(idx as int).skip(1) =~~= all.skip(idx as int + 1));
        }
        idx += 1;
    }
    assert(all.skip(idx as int) =~~= Seq::<Seq<u8>>::empty());
    let sentinel: Vec<u8> = vec![63u8];
    assert(sentinel@ =~= spec_sentinel());
    sentinel
}

/// A registry without any name line containing the filter substring yields
/// nothing: the scan never enters its capturing state, so it returns the
/// sentinel however many blocks, handlers lines and blanks the text holds.
pub proof fn lemma_locate_no_matching_name(lines: Seq<Seq<u8>>, filter: Seq<u8>)
    requires
        forall|i: int|
            0 <= i < lines.len() ==> !spec_is_matching_name_line(#[trigger] lines[i], filter),
    ensures
        spec_locate(lines, filter, false) is None,
    decreases lines.len(),
{
    if lines.len() > 0 {
        assert(forall|i: int|
            0 <= i < lines.skip(1).len()
                ==> !spec_is_matching_name_line(#[trigger] lines.skip(1)[i], filter)) by {
            assert(forall|i: int|
                0 <= i < lines.skip(1).len() ==> #[trigger] lines.skip(1)[i] == lines[i + 1]);
        }
        lemma_locate_no_matching_name(lines.skip(1), filter);
    }
}

/// Once capturing, the scan returns the `event` token of the first handlers
/// line that has one, provided no blank line ends the block before it.
proof fn lemma_locate_capturing(
    mid: Seq<Seq<u8>>,
    handlers_line: Seq<u8>,
    rest: Seq<Seq<u8>>,
    filter: Seq<u8>,
)
    requires
        spec_is_handlers_line(handlers_line),
        spec_first_event_token(handlers_line) is Some,
        forall|i: int| 0 <= i < mid.len() ==> !spec_is_blank(#[trigger] mid[i]),
        forall|i: int|
            0 <= i < mid.len()
                ==> !(spec_is_handlers_line(#[trigger] mid[i])
                && spec_first_event_token(mid[i]) is Some),
    ensures
        spec_locate(mid + seq![handlers_line] + rest, filter, true) == spec_first_event_token(
            handlers_line,
        ),
    decreases mid.len(),
{
    let lines = mid + seq![handlers_line] + rest;
    if mid.len() == 0 {
        assert(lines[0] == handlers_line);
    } else {
        assert(lines[0] == mid[0]);
        assert(lines.skip(1) =~~= mid.skip(1) + seq![handlers_line] + rest);
        assert(forall|i: int|
            0 <= i < mid.skip(1).len() ==> #[trigger] mid.skip(1)[i] == mid[i + 1]);
        lemma_locate_capturing(mid.skip(1), handlers_line, rest, filter);
    }
}

/// Leading lines without a matching name line do not affect the scan: it
/// passes over any number of unrelated blocks before the matching one.
proof fn lemma_locate_skip_nonmatching(pre: Seq<Seq<u8>>, tail: Seq<Seq<u8>>, filter: Seq<u8>)
    requires
        forall|i: int|
            0 <= i < pre.len() ==> !spec_is_matching_name_line(#[trigger] pre[i], filter),
    ensures
        spec_locate(pre + tail, filter, false) == spec_locate(tail, filter, false),
    decreases pre.len(),
{
    let lines = pre + tail;
    if pre.len() == 0 {
        assert(lines =~~= tail);
    } else {
        assert(lines[0] == pre[0]);
        assert(lines.skip(1) =~~= pre.skip(1) + tail);
        assert(forall|i: int|
            0 <= i < pre.skip(1).len() ==> #[trigger] pre.skip(1)[i] == pre[i + 1]);
        lemma_locate_skip_nonmatching(pre.skip(1), tail, filter);
    }
}

/// Whatever the scan returns is the `event` token of one of the registry's
/// handlers lines; so a registry without such a line yields the sentinel.
pub proof fn lemma_locate_token_from_handlers(lines: Seq<Seq<u8>>, filter: Seq<u8>, capturing: bool)
    requires
        spec_locate(lines, filter, capturing) is Some,
    ensures
        exists|i: int|
            0 <= i < lines.len() && spec_is_handlers_line(#[trigger] lines[i])
                && spec_first_event_token(lines[i]) == spec_locate(lines, filter, capturing),
    decreases lines.len(),
{
    let line = lines[0];
    let cap = capturing || spec_is_matching_name_line(line, filter);
    if cap && spec_is_handlers_line(line) && spec_first_event_token(line) is Some {
        assert(spec_is_handlers_line(lines[0]));
    } else {
        lemma_locate_token_from_handlers(lines.skip(1), filter, cap && !spec_is_blank(line));
        let j = choose|j: int|
            0 <= j < lines.skip(1).len() && spec_is_handlers_line(#[trigger] lines.skip(1)[j])
                && spec_first_event_token(lines.skip(1)[j]) == spec_locate(
                lines.skip(1),
                filter,
                cap && !spec_is_blank(line),
            );
        assert(lines[j + 1] == lines.skip(1)[j]);
    }
}

/// The locator's central law: in a registry holding any lines without a
/// matching name line, then a block whose name line contains the filter and
/// whose handlers line carries an `event` token, the scan returns exactly
/// that token — insensitive to unrelated blocks before and after, and to the
/// lines between name and handlers as long as no blank line parts them and no
/// earlier handlers line of the block carries an `event` token.
pub proof fn lemma_locate_finds_block(
    pre: Seq<Seq<u8>>,
    name_line: Seq<u8>,
    mid: Seq<Seq<u8>>,
    handlers_line: Seq<u8>,
    rest: Seq<Seq<u8>>,
    filter: Seq<u8>,
)
    requires
        spec_is_matching_name_line(name_line, filter),
        spec_is_handlers_line(handlers_line),
        spec_first_event_token(handlers_line) is Some,
        forall|i: int|
            0 <= i < pre.len() ==> !spec_is_matching_name_line(#[trigger] pre[i], filter),
        forall|i: int| 0 <= i < mid.len() ==> !spec_is_blank(#[trigger] mid[i]),
        forall|i: int|
            0 <= i < mid.len()
                ==> !(spec_is_handlers_line(#[trigger] mid[i])
                && spec_first_event_token(mid[i]) is Some),
    ensures
        spec_locate(
            pre + seq![name_line] + mid + seq![handlers_line] + rest,
            filter,
            false,
        ) == spec_first_event_token(handlers_line),
{
    let tail = seq![name_line] + mid + seq![handlers_line] + rest;
    assert(pre + seq![name_line] + mid + seq![handlers_line] + rest =~~= pre + tail);
    lemma_locate_skip_nonmatching(pre, tail, filter);
    assert(tail[0] == name_line);
    assert(name_line[0] == 78u8) by {
        assert(name_line.subrange(0, 8)[0] == spec_name_prefix()[0]);
    }
    assert(!spec_is_handlers_line(name_line)) by {
        if spec_is_handlers_line(name_line) {
            assert(name_line.subrange(0, 12)[0] == spec_handlers_prefix()[0]);
        }
    }
    assert(!spec_is_blank(name_line));
    assert(tail.skip(1) =~~= mid + seq![handlers_line] + rest);
    lemma_locate_capturing(mid, handlers_line, rest, filter);
}

/// The central law at the level of the registry text, as
/// [`get_device_event_id`] consumes it: when the text's lines hold a matching
/// block, the locator returns exactly that block's `event` token.
pub proof fn lemma_find_event_id_finds_block(
    text: Seq<u8>,
    pre: Seq<Seq<u8>>,
    name_line: Seq<u8>,
    mid: Seq<Seq<u8>>,
    handlers_line: Seq<u8>,
    rest: Seq<Seq<u8>>,
    filter: Seq<u8>,
)
    requires
        spec_split_lines(text) == pre + seq![name_line] + mid + seq![handlers_line] + rest,
        spec_is_matching_name_line(name_line, filter),
        spec_is_handlers_line(handlers_line),
        spec_first_event_token(handlers_line) is Some,
        forall|i: int|
            0 <= i < pre.len() ==> !spec_is_matching_name_line(#[trigger] pre[i], filter),
        forall|i: int| 0 <= i < mid.len() ==> !spec_is_blank(#[trigger] mid[i]),
        forall|i: int|
            0 <= i < mid.len()
                ==> !(spec_is_handlers_line(#[trigger] mid[i])
                && spec_first_event_token(mid[i]) is Some),
    ensures
        Some(spec_find_event_id(text, filter)) == spec_first_event_token(handlers_line),
{
    lemma_locate_finds_block(pre, name_line, mid, handlers_line, rest, filter);
}

/// And the sentinel law at the level of the registry text: when no line of
/// the text is a matching name line, the locator returns the sentinel.
pub proof fn lemma_find_event_id_sentinel(text: Seq<u8>, filter: Seq<u8>)
    requires
        forall|i: int|
            0 <= i < spec_split_lines(text).len() ==> !spec_is_matching_name_line(
                #[trigger] spec_split_lines(text)[i],
                filter,
            ),
    ensures
        spec_find_event_id(text, filter) == spec_sentinel(),
{
    lemma_locate_no_matching_name(spec_split_lines(text), filter);
}

/// The path of the device node for an event identifier: `/dev/input/`
/// followed by the identifier.
pub open spec fn spec_device_path_prefix() -> Seq<u8> {
    seq![47u8, 100u8, 101u8, 118u8, 47u8, 105u8, 110u8, 112u8, 117u8, 116u8, 47u8]
}

/// Builds the device node path for an event identifier.
pub fn device_path(event_id: &[u8]) -> (r: Vec<u8>)
    ensures
        r@ == spec_device_path_prefix() + event_id@,
{
    let mut r: Vec<u8> = vec![47u8, 100u8, 101u8, 118u8, 47u8, 105u8, 110u8, 112u8, 117u8, 116u8, 47u8];
    assert(r@ =~= spec_device_path_prefix());
    let mut i: usize = 0;
    assert(r@ =~= spec_device_path_prefix() + event_id@.subrange(0, 0));
    while i < event_id.len()
        invariant
            0 <= i <= event_id@.len(),
            r@ == spec_device_path_prefix() + event_id@.subrange(0, i as int),
        decreases event_id@.len() - i,
    {
        r.push(event_id[i]);
        assert(r@ =~= spec_device_path_prefix() + event_id@.subrange(0, i as int + 1));
        i += 1;
    }
    assert(event_id@.subrange(0, event_id@.len() as int) =~= event_id@);
    r
}

} // verus!
