//! Tag-based response extraction from the output of an interactive AI CLI.
//!
//! A prompt asks the AI to wrap its answer in an opening and a closing tag; the
//! answer is then read back from the terminal output between those tags.

use vstd::prelude::*;
use vstd::string::*;
use vstd::utf8::*;
use crate::text::{lemma_matches_in_prefix, lemma_last_match_unique, contains_spec, text_contains, is_white_space_spec, lemma_trim_ends, append_decimal, decimal_spec, matches_at, lemma_rfind_unique, lemma_matches_in_suffix, append_file_refs, file_refs_spec, strs_view, chars_of, rfind_before, rfind_spec, lemma_rfind, trim_bounds, trim_spec};

verus! {

/// Opening tag used when none is configured.
pub const DEFAULT_TAG_OPEN: &'static str = "<RESULT>";

/// Closing tag used when none is configured.
pub const DEFAULT_TAG_CLOSE: &'static str = "</RESULT>";

/// Seconds a query waits for the closing tag before it gives up.
pub const DEFAULT_TIMEOUT_SECS: u64 = 180;

/// Milliseconds between two looks at the output buffer.
pub const POLL_INTERVAL_MS: u64 = 500;

/// The content between the last `close` in `t` and the last `open` before it,
/// trimmed; `None` when either tag is missing or the content is blank.
pub open spec fn extract_tagged_spec(t: Seq<char>, open: Seq<char>, close: Seq<char>) -> Option<Seq<char>> {
    match rfind_spec(t, close) {
        None => None,
        Some(c) => match rfind_spec(t.subrange(0, c), open) {
            None => None,
            Some(o) => {
                let content = trim_spec(t.subrange(o + open.len(), c));
                if content.len() == 0 {
                    None
                } else {
                    Some(content)
                }
            },
        },
    }
}

/// Extract content between the last occurrence of `tag_open` and `tag_close`.
///
/// The closing tag is the last one in `text`; the opening tag is the last one
/// before it. The content is trimmed of white space; blank content gives `None`.
pub fn extract_tagged(text: &str, tag_open: &str, tag_close: &str) -> (r: Option<String>)
    ensures
        match r {
            Some(s) => extract_tagged_spec(text@, tag_open@, tag_close@) == Some(s@),
            None => extract_tagged_spec(text@, tag_open@, tag_close@) is None,
        },
{
    let t = chars_of(text);
    let o = chars_of(tag_open);
    let c = chars_of(tag_close);
    assert(t@.subrange(0, t.len() as int) =~= t@);
    let close_pos = match rfind_before(&t, &c, t.len()) {
        Some(p) => p,
        None => return None,
    };
    proof {
        lemma_rfind(t@.subrange(0, t.len() as int), c@);
    }
    let open_pos = match rfind_before(&t, &o, close_pos) {
        Some(p) => p,
        None => return None,
    };
    proof {
        lemma_rfind(t@.subrange(0, close_pos as int), o@);
    }
    let start = open_pos + o.len();
    let (a, b) = trim_bounds(&t, start, close_pos);
    if a == b {
        None
    } else {
        let content = text.substring_char(a, b).to_owned();
        Some(content)
    }
}


/// Content wrapped in the two tags comes back trimmed, whatever text precedes
/// the opening tag, provided no closing tag begins after the final one and no
/// opening tag begins inside the content (blank content gives `None`).
pub proof fn law_extract_wrapped(
    noise: Seq<char>,
    open: Seq<char>,
    content: Seq<char>,
    close: Seq<char>,
    rest: Seq<char>,
)
    requires
        forall|j: int| 0 < j ==> !#[trigger] matches_at(close + rest, close, j),
        forall|j: int| 0 < j ==> !#[trigger] matches_at(open + content, open, j),
    ensures
        extract_tagged_spec(noise + open + content + close + rest, open, close) == (if trim_spec(
            content,
        ).len() == 0 {
            None
        } else {
            Some(trim_spec(content))
        }),
{
    let t = noise + open + content + close + rest;
    let op = noise.len() as int;
    let cp = op + open.len() + content.len();
    assert(t.subrange(cp, t.len() as int) =~= close + rest);
    assert(t.subrange(cp, cp + close.len()) =~= close);
    assert forall|j: int| cp < j implies !#[trigger] matches_at(t, close, j) by {
        lemma_matches_in_suffix(t, close, cp, j);
    }
    lemma_rfind_unique(t, close, cp);
    let region = t.subrange(0, cp);
    assert(region =~= noise + (open + content));
    assert(region.subrange(op, region.len() as int) =~= open + content);
    assert(region.subrange(op, op + open.len()) =~= open);
    assert forall|j: int| op < j implies !#[trigger] matches_at(region, open, j) by {
        lemma_matches_in_suffix(region, open, op, j);
    }
    lemma_rfind_unique(region, open, op);
    assert(t.subrange(op + open.len(), cp) =~= content);
}

/// The closing tag at `c` is the last one in `t`, and the opening tag at `o` is
/// the last one that ends before it.
pub open spec fn is_last_tag_pair(t: Seq<char>, open: Seq<char>, close: Seq<char>, o: int, c: int) -> bool {
    &&& matches_at(t, close, c)
    &&& forall|j: int| c < j ==> !#[trigger] matches_at(t, close, j)
    &&& matches_at(t, open, o)
    &&& o + open.len() <= c
    &&& forall|j: int| o < j && j + open.len() <= c ==> !#[trigger] matches_at(t, open, j)
}

/// What extraction answers, in terms of where the tags occur: an answer is the
/// trimmed, non-blank text between the last closing tag and the last opening tag
/// that ends before it; there is no answer exactly when there is no such pair of
/// tags or the text between them is blank. In particular a closing tag with no
/// opening tag before it gives no answer.
pub proof fn law_extract_tag_pair(t: Seq<char>, open: Seq<char>, close: Seq<char>)
    ensures
        extract_tagged_spec(t, open, close) matches Some(s) ==> exists|o: int, c: int|
            #[trigger] is_last_tag_pair(t, open, close, o, c) && s == trim_spec(t.subrange(o + open.len(), c))
                && s.len() > 0,
        extract_tagged_spec(t, open, close) is None ==> forall|o: int, c: int|
            #[trigger] is_last_tag_pair(t, open, close, o, c) ==> trim_spec(t.subrange(o + open.len(), c)).len()
                == 0,
{
    lemma_rfind(t, close);
    match rfind_spec(t, close) {
        None => {},
        Some(c) => {
            let region = t.subrange(0, c);
            lemma_rfind(region, open);
            match rfind_spec(region, open) {
                None => {
                    assert forall|o2: int, c2: int| #[trigger] is_last_tag_pair(t, open, close, o2, c2) implies trim_spec(
                        t.subrange(o2 + open.len(), c2),
                    ).len() == 0 by {
                        lemma_last_match_unique(t, close, c, c2);
                        lemma_matches_in_prefix(t, open, c, o2);
                    }
                },
                Some(o) => {
                    lemma_matches_in_prefix(t, open, c, o);
                    assert forall|j: int| o < j && j + open.len() <= c implies !#[trigger] matches_at(t, open, j) by {
                        lemma_matches_in_prefix(t, open, c, j);
                    }
                    assert(is_last_tag_pair(t, open, close, o, c));
                    assert forall|o2: int, c2: int| #[trigger] is_last_tag_pair(t, open, close, o2, c2) implies o2 == o
                        && c2 == c by {
                        lemma_last_match_unique(t, close, c, c2);
                        lemma_matches_in_prefix(t, open, c, o2);
                        assert forall|j: int| o2 < j implies !#[trigger] matches_at(region, open, j) by {
                            if j + open.len() <= c {
                                lemma_matches_in_prefix(t, open, c, j);
                            }
                        }
                        lemma_last_match_unique(region, open, o, o2);
                    }
                },
            }
        },
    }
}

/// A closing tag without an opening tag anywhere before it gives no answer.
pub proof fn law_extract_needs_open_tag(t: Seq<char>, open: Seq<char>, close: Seq<char>, c: int)
    requires
        matches_at(t, close, c),
        forall|j: int| j + open.len() <= c ==> !#[trigger] matches_at(t, open, j),
        forall|j: int| c < j ==> !#[trigger] matches_at(t, close, j),
    ensures
        extract_tagged_spec(t, open, close) is None,
{
    law_extract_tag_pair(t, open, close);
    if let Some(s) = extract_tagged_spec(t, open, close) {
        let (o, c2) = choose|o: int, c2: int| #[trigger] is_last_tag_pair(t, open, close, o, c2) && s == trim_spec(
            t.subrange(o + open.len(), c2),
        ) && s.len() > 0;
        lemma_last_match_unique(t, close, c, c2);
        assert(matches_at(t, open, o));
    }
}

/// An extracted answer is never empty and neither begins nor ends with white space.
pub proof fn law_extracted_is_trimmed(t: Seq<char>, open: Seq<char>, close: Seq<char>)
    ensures
        extract_tagged_spec(t, open, close) matches Some(s) ==> s.len() > 0 && !is_white_space_spec(s[0])
            && !is_white_space_spec(s.last()),
{
    if let Some(c) = rfind_spec(t, close) {
        if let Some(o) = rfind_spec(t.subrange(0, c), open) {
            lemma_trim_ends(t.subrange(o + open.len(), c));
        }
    }
}

/// The file references for an optional list of files (none when there is no list).
pub open spec fn optional_refs_spec(files: Option<&[&str]>) -> Seq<char> {
    match files {
        Some(f) => file_refs_spec(strs_view(f@)),
        None => Seq::empty(),
    }
}

/// The instruction appended to a prompt: "wrap the result in `open` and `close`".
pub open spec fn tag_instruction_spec(open: Seq<char>, close: Seq<char>) -> Seq<char> {
    seq![' ', '結', '果', 'を'] + open + seq!['と'] + close + seq!['で', '囲', 'ん', 'で', '返', 'せ']
}

/// The message sent to the AI CLI for `prompt`.
pub open spec fn build_message_spec(
    prompt: Seq<char>,
    files: Option<&[&str]>,
    open: Seq<char>,
    close: Seq<char>,
) -> Seq<char> {
    optional_refs_spec(files) + prompt + tag_instruction_spec(open, close) + seq!['\r']
}

/// Build the message sent to the AI CLI, with @file refs and tag instruction.
///
/// The message is `@f ` for each file in order, the prompt, the instruction to
/// wrap the result in the two tags, and a carriage return that submits it.
pub fn build_message(prompt: &str, files: Option<&[&str]>, tag_open: &str, tag_close: &str) -> (r: String)
    ensures
        r@ == build_message_spec(prompt@, files, tag_open@, tag_close@),
{
    let mut message = String::new();
    match files {
        Some(f) => append_file_refs(&mut message, f),
        None => {},
    }
    message.append(prompt);
    proof {
        reveal_strlit(" 結果を");
        reveal_strlit("と");
        reveal_strlit("で囲んで返せ");
        reveal_strlit("\r");
    }
    message.append(" 結果を");
    message.append(tag_open);
    message.append("と");
    message.append(tag_close);
    message.append("で囲んで返せ");
    message.append("\r");
    assert(message@ =~= build_message_spec(prompt@, files, tag_open@, tag_close@));
    message
}


/// The error text of a query that saw no closing tag in time.
pub open spec fn timeout_message_spec(close: Seq<char>, secs: u64) -> Seq<char> {
    "timeout waiting for "@ + close + " after "@ + decimal_spec(secs as nat) + "s"@
}

/// The error text of a query that saw no closing tag within `timeout_secs` seconds.
pub fn timeout_message(tag_close: &str, timeout_secs: u64) -> (r: String)
    ensures
        r@ == timeout_message_spec(tag_close@, timeout_secs),
{
    let mut m = String::new();
    m.append("timeout waiting for ");
    m.append(tag_close);
    m.append(" after ");
    append_decimal(&mut m, timeout_secs);
    m.append("s");
    assert(m@ =~= timeout_message_spec(tag_close@, timeout_secs));
    m
}

/// What one look at the output buffer during a query decides.
#[derive(Debug)]
pub enum PollStep {
    /// The deadline has passed: the query fails with this message.
    TimedOut(String),
    /// Nothing new yet: sleep and look again.
    Wait,
    /// The tagged answer is in the new output.
    Found(String),
}

/// The tail of the instruction as a terminal echoes it: the tags around `と`,
/// then `で囲んで返せ`.
pub open spec fn echo_marker_spec(open: Seq<char>, close: Seq<char>) -> Seq<char> {
    open + seq!['と'] + close + seq!['で', '囲', 'ん', 'で', '返', 'せ']
}

/// Where the answer is looked for: after the last echoed instruction, if the
/// output shows one, else the whole output.
pub open spec fn answer_region_spec(t: Seq<char>, open: Seq<char>, close: Seq<char>) -> Seq<char> {
    let m = echo_marker_spec(open, close);
    match rfind_spec(t, m) {
        Some(i) => t.subrange(i + m.len(), t.len() as int),
        None => t,
    }
}

/// The agent's tagged answer in terminal output: the tagged content after the
/// last echo of the instruction (the instruction's own tags are not an answer).
pub open spec fn tagged_answer_spec(t: Seq<char>, open: Seq<char>, close: Seq<char>) -> Option<Seq<char>> {
    extract_tagged_spec(answer_region_spec(t, open, close), open, close)
}

/// The agent's tagged answer in `text`, skipping an echo of the instruction.
pub fn tagged_answer(text: &str, tag_open: &str, tag_close: &str) -> (r: Option<String>)
    ensures
        match r {
            Some(s) => tagged_answer_spec(text@, tag_open@, tag_close@) == Some(s@),
            None => tagged_answer_spec(text@, tag_open@, tag_close@) is None,
        },
{
    let mut marker = tag_open.to_owned();
    proof {
        reveal_strlit("と");
        reveal_strlit("で囲んで返せ");
    }
    marker.append("と");
    marker.append(tag_close);
    marker.append("で囲んで返せ");
    assert(marker@ =~= echo_marker_spec(tag_open@, tag_close@));
    let t = chars_of(text);
    let m = chars_of(marker.as_str());
    assert(t@.subrange(0, t.len() as int) =~= t@);
    match rfind_before(&t, &m, t.len()) {
        Some(i) => {
            proof {
                lemma_rfind(t@, m@);
            }
            let region = text.substring_char(i + m.len(), t.len());
            extract_tagged(region, tag_open, tag_close)
        },
        None => extract_tagged(text, tag_open, tag_close),
    }
}

/// An echoed prompt message followed by the agent's tagged answer gives that
/// answer, trimmed: the instruction's own tags are skipped. It needs only that
/// the echo's instruction is the last one in the output, that no closing tag
/// begins after the answer's, and that no opening tag begins inside the answer.
pub proof fn law_answer_after_echo(
    before: Seq<char>,
    prompt: Seq<char>,
    files: Option<&[&str]>,
    open: Seq<char>,
    close: Seq<char>,
    between: Seq<char>,
    answer: Seq<char>,
    rest: Seq<char>,
)
    requires
        forall|j: int|
            0 < j ==> !#[trigger] matches_at(
                echo_marker_spec(open, close) + seq!['\r'] + between + open + answer + close + rest,
                echo_marker_spec(open, close),
                j,
            ),
        forall|j: int| 0 < j ==> !#[trigger] matches_at(close + rest, close, j),
        forall|j: int| 0 < j ==> !#[trigger] matches_at(open + answer, open, j),
    ensures
        tagged_answer_spec(
            before + build_message_spec(prompt, files, open, close) + between + open + answer + close + rest,
            open,
            close,
        ) == (if trim_spec(answer).len() == 0 {
            None
        } else {
            Some(trim_spec(answer))
        }),
{
    let m = echo_marker_spec(open, close);
    let head = before + optional_refs_spec(files) + prompt + seq![' ', '結', '果', 'を'];
    let tail = m + seq!['\r'] + between + open + answer + close + rest;
    let t = before + build_message_spec(prompt, files, open, close) + between + open + answer + close + rest;
    assert(t =~= head + tail);
    let mp = head.len() as int;
    assert(t.subrange(mp, t.len() as int) =~= tail);
    assert(t.subrange(mp, mp + m.len()) =~= m);
    assert forall|j: int| mp < j implies !#[trigger] matches_at(t, m, j) by {
        lemma_matches_in_suffix(t, m, mp, j);
    }
    lemma_rfind_unique(t, m, mp);
    let noise = seq!['\r'] + between;
    assert(t.subrange(mp + m.len(), t.len() as int) =~= noise + open + answer + close + rest);
    law_extract_wrapped(noise, open, answer, close, rest);
}

/// The text written to the buffer since the byte offset `baseline`.
pub open spec fn new_output_spec(buffer: &str, baseline: usize) -> Seq<char> {
    decode_utf8(buffer.spec_bytes().subrange(baseline as int, buffer.spec_bytes().len() as int))
}

/// Decides one polling step of a query: fail once `timed_out`, wait while nothing
/// past `baseline` (a byte offset into `buffer`) holds the tagged answer, else return it.
pub fn poll_step(
    timed_out: bool,
    buffer: &str,
    baseline: usize,
    tag_open: &str,
    tag_close: &str,
    timeout_secs: u64,
) -> (r: PollStep)
    requires
        !timed_out && buffer.spec_bytes().len() > baseline ==> is_char_boundary(buffer.spec_bytes(), baseline as int),
    ensures
        timed_out ==> (r matches PollStep::TimedOut(m) && m@ == timeout_message_spec(tag_close@, timeout_secs)),
        !timed_out && buffer.spec_bytes().len() <= baseline ==> r is Wait,
        !timed_out && buffer.spec_bytes().len() > baseline ==> match tagged_answer_spec(
            new_output_spec(buffer, baseline),
            tag_open@,
            tag_close@,
        ) {
            Some(a) => r matches PollStep::Found(s) && s@ == a,
            None => r is Wait,
        },
{
    if timed_out {
        return PollStep::TimedOut(timeout_message(tag_close, timeout_secs));
    }
    if buffer.as_bytes().len() <= baseline {
        return PollStep::Wait;
    }
    let (_, new_content) = buffer.split_at(baseline);
    proof {
        broadcast use vstd::utf8::group_utf8_lib;
        assert(new_content@ == decode_utf8(new_content.spec_bytes()));
    }
    match tagged_answer(new_content, tag_open, tag_close) {
        Some(s) => PollStep::Found(s),
        None => PollStep::Wait,
    }
}


/// What one look at a terminal's output decides while waiting for a text to appear.
#[derive(Debug, PartialEq, Eq, Structural)]
pub enum WaitAction {
    /// The text has appeared.
    Done,
    /// Not yet: look again.
    Wait,
    /// The text has not appeared in time.
    TimedOut,
}

/// One step of waiting for `needle` in `output`: done once it appears, else
/// timed out once `elapsed_secs` reaches `timeout_secs`, else wait. The output is
/// checked before the clock.
pub fn wait_step(output: &str, needle: &str, elapsed_secs: u64, timeout_secs: u64) -> (r: WaitAction)
    ensures
        (r == WaitAction::Done) == contains_spec(output@, needle@),
        !contains_spec(output@, needle@) ==> ((r == WaitAction::TimedOut) == (elapsed_secs >= timeout_secs)),
{
    if text_contains(output, needle) {
        WaitAction::Done
    } else if elapsed_secs >= timeout_secs {
        WaitAction::TimedOut
    } else {
        WaitAction::Wait
    }
}

} // verus!
