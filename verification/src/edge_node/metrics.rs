//! The node's admin endpoints: memory use and cache warming.

use vstd::prelude::*;
use vstd::string::StringExecFns;

use crate::codec::{base64_decode, base64_decoded};
use crate::common::NodeInfo;
use crate::control_plane::api::handlers::{warms, WarmRequest};
use crate::control_plane::registry::{key_of, module_key};
use crate::edge_node::state::NodeState;
use crate::text::{chars_of, law_digits_denote_a_number, number_of, parse_chars};
use crate::wasm_runtime::cache::CacheStats;
use crate::wasm_runtime::sandbox::{WasmError, MEBIBYTE};

verus! {

// ── GET /debug/memory ──────────────────────────────────────────────────────

/// The memory that a running task is taken to use, in mebibytes.
pub const TASK_MEMORY_MB: u64 = 64;

/// What `GET /debug/memory` answers.
#[derive(Debug)]
pub struct MemoryReport {
    /// Resident memory of the process, where the system tells it.
    pub heap_allocated_bytes: u64,
    /// 64 MiB for each running task.
    pub wasm_memory_bytes: u64,
    /// The WASM bytes in the cache.
    pub cache_memory_estimate_bytes: u64,
    /// The running tasks, each of which holds one store.
    pub active_stores: usize,
}

/// The memory use of the node.
pub fn memory_report(st: &NodeState, stats: &CacheStats, heap_allocated_bytes: u64) -> (report: MemoryReport)
    requires
        st.active_tasks * (TASK_MEMORY_MB * MEBIBYTE) <= u64::MAX,
    ensures
        report.heap_allocated_bytes == heap_allocated_bytes,
        report.wasm_memory_bytes == st.active_tasks * (TASK_MEMORY_MB * MEBIBYTE),
        report.wasm_memory_bytes == st.active_tasks * 67_108_864,
        report.cache_memory_estimate_bytes == stats.total_wasm_bytes,
        report.active_stores == st.active_tasks,
{
    MemoryReport {
        heap_allocated_bytes,
        wasm_memory_bytes: st.active_tasks as u64 * (TASK_MEMORY_MB * MEBIBYTE),
        cache_memory_estimate_bytes: stats.total_wasm_bytes,
        active_stores: st.active_tasks,
    }
}

/// Whether a character is white space, as Unicode has it.
pub open spec fn is_space(c: char) -> bool {
    ||| ('\u{9}' <= c && c <= '\u{d}')
    ||| c == ' '
    ||| c == '\u{85}'
    ||| c == '\u{a0}'
    ||| c == '\u{1680}'
    ||| ('\u{2000}' <= c && c <= '\u{200a}')
    ||| c == '\u{2028}'
    ||| c == '\u{2029}'
    ||| c == '\u{202f}'
    ||| c == '\u{205f}'
    ||| c == '\u{3000}'
}

fn space(c: char) -> (r: bool)
    ensures
        r == is_space(c),
{
    ('\u{9}' <= c && c <= '\u{d}') || c == ' ' || c == '\u{85}' || c == '\u{a0}' || c == '\u{1680}' || ('\u{2000}' <= c
        && c <= '\u{200a}') || c == '\u{2028}' || c == '\u{2029}' || c == '\u{202f}' || c == '\u{205f}' || c
        == '\u{3000}'
}

/// Where a run of white space, or of anything else, that includes position `i`
/// ends.
pub open spec fn run_end(s: Seq<char>, i: int, of_space: bool) -> int
    decreases s.len() - i,
{
    if 0 <= i < s.len() && is_space(s[i]) == of_space {
        run_end(s, i + 1, of_space)
    } else {
        i
    }
}

/// The second of the words of a line, which white space separates.
pub open spec fn second_word(line: Seq<char>) -> Option<Seq<char>> {
    let first = run_end(line, 0, true);
    let first_end = run_end(line, first, false);
    let second = run_end(line, first_end, true);
    let second_end = run_end(line, second, false);
    if second < line.len() {
        Some(line.subrange(second, second_end))
    } else {
        None
    }
}

/// The label of the line that tells the resident memory.
pub open spec fn rss_label() -> Seq<char> {
    "VmRSS:"@
}

/// The kilobytes that a line tells, if it is the one for resident memory.
pub open spec fn line_kilobytes(line: Seq<char>) -> Option<u64> {
    if line.len() >= rss_label().len() && line.take(rss_label().len() as int) == rss_label() {
        match second_word(line) {
            Some(word) => match number_of(word) {
                Some(n) => if n <= u64::MAX { Some(n as u64) } else { None },
                None => None,
            },
            None => None,
        }
    } else {
        None
    }
}

/// Where the line that starts at `i` ends.
pub open spec fn line_end(s: Seq<char>, i: int) -> int
    decreases s.len() - i,
{
    if 0 <= i < s.len() && s[i] != '\n' {
        line_end(s, i + 1)
    } else {
        i
    }
}

/// The kilobytes that the first line for resident memory with a number tells,
/// from position `i` on.
pub open spec fn kilobytes_from(s: Seq<char>, i: int) -> Option<u64>
    decreases s.len() - i,
{
    if 0 <= i < s.len() {
        let end = line_end(s, i);
        match line_kilobytes(s.subrange(i, end)) {
            Some(n) => Some(n),
            None => if i <= end < s.len() {
                kilobytes_from(s, end + 1)
            } else {
                None
            },
        }
    } else {
        None
    }
}

proof fn lemma_run_end(s: Seq<char>, i: int, of_space: bool)
    requires
        0 <= i <= s.len(),
    ensures
        i <= run_end(s, i, of_space) <= s.len(),
    decreases s.len() - i,
{
    if i < s.len() && is_space(s[i]) == of_space {
        lemma_run_end(s, i + 1, of_space);
    }
}

/// A run within a part of a text ends where it ends in the part.
proof fn lemma_run_end_part(s: Seq<char>, from: int, to: int, i: int, of_space: bool)
    requires
        0 <= from <= i <= to <= s.len(),
    ensures
        run_end(s.subrange(from, to), i - from, of_space) + from == run_end(s.take(to), i, of_space),
    decreases to - i,
{
    if i < to {
        assert(s.subrange(from, to)[i - from] == s[i]);
        assert(s.take(to)[i] == s[i]);
        lemma_run_end_part(s, from, to, i + 1, of_space);
    }
}

fn end_of_run(chars: &Vec<char>, from: usize, to: usize, of_space: bool) -> (end: usize)
    requires
        from <= to <= chars@.len(),
    ensures
        end == run_end(chars@.take(to as int), from as int, of_space),
        from <= end <= to,
{
    let ghost s = chars@.take(to as int);
    let mut i: usize = from;
    while i < to && space(chars[i]) == of_space
        invariant
            from <= i <= to <= chars@.len(),
            s == chars@.take(to as int),
            run_end(s, from as int, of_space) == run_end(s, i as int, of_space),
        decreases to - i,
    {
        assert(s[i as int] == chars@[i as int]);
        i = i + 1;
    }
    proof {
        if i < to {
            assert(s[i as int] == chars@[i as int]);
        }
    }
    i
}

fn kilobytes_in_line(chars: &Vec<char>, from: usize, to: usize) -> (r: Option<u64>)
    requires
        from <= to <= chars@.len(),
    ensures
        r == line_kilobytes(chars@.subrange(from as int, to as int)),
{
    let label = chars_of("VmRSS:");
    let ghost line = chars@.subrange(from as int, to as int);
    if to - from < label.len() {
        return None;
    }
    let mut i: usize = 0;
    while i < label.len()
        invariant
            i <= label@.len(),
            label@ == rss_label(),
            from + label@.len() <= to <= chars@.len(),
            line == chars@.subrange(from as int, to as int),
            forall|j: int| 0 <= j < i ==> line[j] == #[trigger] label@[j],
        decreases label@.len() - i,
    {
        if chars[from + i] != label[i] {
            assert(line.take(rss_label().len() as int)[i as int] != rss_label()[i as int]);
            return None;
        }
        i = i + 1;
    }
    assert(line.take(rss_label().len() as int) =~= rss_label());
    proof {
        let s = chars@;
        lemma_run_end(line, 0, true);
        lemma_run_end_part(s, from as int, to as int, from as int, true);
        let a = run_end(line, 0, true);
        lemma_run_end(line, a, false);
        lemma_run_end_part(s, from as int, to as int, from + a, false);
        let b = run_end(line, a, false);
        lemma_run_end(line, b, true);
        lemma_run_end_part(s, from as int, to as int, from + b, true);
        let c = run_end(line, b, true);
        lemma_run_end(line, c, false);
        lemma_run_end_part(s, from as int, to as int, from + c, false);
    }
    let first: usize = end_of_run(chars, from, to, true);
    let first_end: usize = end_of_run(chars, first, to, false);
    let second: usize = end_of_run(chars, first_end, to, true);
    let second_end: usize = end_of_run(chars, second, to, false);
    if second == to {
        return None;
    }
    assert(line.subrange(second - from, second_end - from) =~= chars@.subrange(second as int, second_end as int));
    parse_chars(chars, second, second_end, u64::MAX)
}

/// The kilobytes of resident memory that the text of `/proc/self/status` tells.
pub fn rss_kilobytes(status: &str) -> (r: Option<u64>)
    ensures
        r == kilobytes_from(status@, 0),
{
    let chars = chars_of(status);
    let mut i: usize = 0;
    while i < chars.len()
        invariant
            i <= chars@.len(),
            chars@ == status@,
            kilobytes_from(status@, 0) == kilobytes_from(status@, i as int),
        decreases chars@.len() - i,
    {
        let mut end: usize = i;
        while end < chars.len() && chars[end] != '\n'
            invariant
                i <= end <= chars@.len(),
                chars@ == status@,
                line_end(status@, i as int) == line_end(status@, end as int),
            decreases chars@.len() - end,
        {
            end = end + 1;
        }
        if let Some(n) = kilobytes_in_line(&chars, i, end) {
            return Some(n);
        }
        if end == chars.len() {
            return None;
        }
        i = end + 1;
    }
    None
}

/// Resident memory in bytes; zero where it is not known.
pub fn rss_bytes(kilobytes: Option<u64>) -> (bytes: u64)
    requires
        kilobytes is Some ==> kilobytes->0 * 1024 <= u64::MAX,
    ensures
        bytes == (match kilobytes {
            Some(kb) => kb * 1024,
            None => 0,
        }),
{
    match kilobytes {
        Some(kb) => kb * 1024,
        None => 0,
    }
}

// ── POST /cache/warm ───────────────────────────────────────────────────────

/// A module to put into the cache.
#[derive(Debug)]
pub struct WarmCacheRequest {
    pub name: String,
    pub version: String,
    pub wasm_bytes_base64: String,
}

/// What `POST /cache/warm` answers: the HTTP status with the key of the module
/// that is now in the cache, or with an error.
#[derive(Debug)]
pub struct WarmAnswer {
    pub status: u16,
    pub outcome: Result<String, String>,
}

/// The answer for bytes that could not be decoded.
pub open spec fn is_bad_request(answer: WarmAnswer, message: Seq<char>) -> bool {
    answer.status == 400 && answer.outcome is Err && answer.outcome->Err_0@ == "invalid base64: "@ + message
}

/// The key under which to cache the module, and its bytes; or the answer that
/// refuses it.
pub fn decode_warm_request(body: &WarmCacheRequest) -> (r: Result<(String, Vec<u8>), WarmAnswer>)
    ensures
        match base64_decoded(body.wasm_bytes_base64@) {
            Ok(bytes) => {
                &&& r is Ok
                &&& r->Ok_0.0@ == key_of(body.name@, body.version@)
                &&& r->Ok_0.1@ == bytes
            },
            Err(message) => r is Err && is_bad_request(r->Err_0, message),
        },
{
    let decoded = base64_decode(body.wasm_bytes_base64.as_str());
    settle_warm_request(body.name.as_str(), body.version.as_str(), decoded)
}

/// [`decode_warm_request`], given what decoding the bytes gave.
pub fn settle_warm_request(name: &str, version: &str, decoded: Result<Vec<u8>, String>) -> (r: Result<
    (String, Vec<u8>),
    WarmAnswer,
>)
    ensures
        match decoded {
            Ok(bytes) => {
                &&& r is Ok
                &&& r->Ok_0.0@ == key_of(name@, version@)
                &&& r->Ok_0.1 == bytes
            },
            Err(message) => r is Err && is_bad_request(r->Err_0, message@),
        },
{
    match decoded {
        Ok(bytes) => Ok((module_key(name, version), bytes)),
        Err(message) => Err(
            WarmAnswer {
                status: 400,
                outcome: Err("invalid base64: ".to_string().concat(message.as_str())),
            },
        ),
    }
}

/// The answer once the module has been compiled into the cache, or could not
/// be.
pub fn warm_answer(key: String, compiled: Result<(), WasmError>) -> (answer: WarmAnswer)
    ensures
        match compiled {
            Ok(()) => answer.status == 200 && answer.outcome == Ok::<String, String>(key),
            Err(e) => answer.status == 500 && answer.outcome is Err && answer.outcome->Err_0@ == e@.text(),
        },
{
    match compiled {
        Ok(()) => WarmAnswer { status: 200, outcome: Ok(key) },
        Err(e) => WarmAnswer { status: 500, outcome: Err(e.message()) },
    }
}

/// A module that the control plane pushes arrives as it was registered: the
/// node decodes the very bytes, under the key that tasks use for the module.
pub proof fn law_pushed_module_arrives(
    nodes: Seq<(Seq<char>, NodeInfo)>,
    name: Seq<char>,
    version: Seq<char>,
    bytes: Seq<u8>,
    warm: WarmRequest,
)
    requires
        warms(nodes, name, version, bytes, Some(warm)),
    ensures
        base64_decoded(warm.wasm_bytes_base64@) == Ok::<Seq<u8>, Seq<char>>(bytes),
        key_of(warm.name@, warm.version@) == key_of(name, version),
{
}

/// Bytes that cannot be decoded are the mistake of the caller, who is told why.
pub proof fn law_bad_bytes_are_the_callers_mistake(answer: WarmAnswer, message: Seq<char>)
    requires
        is_bad_request(answer, message),
    ensures
        answer.status == 400,
        answer.outcome is Err,
        answer.outcome->Err_0@ == "invalid base64: "@ + message,
{
}

proof fn lemma_run_ends(s: Seq<char>, i: int, end: int, of_space: bool)
    requires
        0 <= i <= end <= s.len(),
        forall|j: int| i <= j < end ==> is_space(#[trigger] s[j]) == of_space,
        end < s.len() ==> is_space(s[end]) != of_space,
    ensures
        run_end(s, i, of_space) == end,
    decreases end - i,
{
    if i < end {
        assert(is_space(s[i]) == of_space);
        lemma_run_ends(s, i + 1, end, of_space);
    }
}

/// The line for resident memory, `VmRSS:` and then, between white space, a number and
/// whatever follows, tells that number. A line that begins otherwise tells nothing.
pub proof fn law_line_tells_its_number(blank: Seq<char>, word: Seq<char>, tail: Seq<char>, line: Seq<char>)
    requires
        blank.len() > 0,
        forall|j: int| 0 <= j < blank.len() ==> is_space(#[trigger] blank[j]),
        number_of(word) is Some,
        number_of(word)->0 <= u64::MAX,
        tail.len() > 0 ==> is_space(tail[0]),
    ensures
        line_kilobytes("VmRSS:"@ + blank + word + tail) == Some(number_of(word)->0 as u64),
        line.len() < 6 || line.take(6) != "VmRSS:"@ ==> line_kilobytes(line) is None,
{
    reveal_strlit("VmRSS:");
    let s = "VmRSS:"@ + blank + word + tail;
    let a = 6 + blank.len() as int;
    let b = a + word.len() as int;
    law_digits_denote_a_number(word, '0');
    assert(s.take(6) =~= "VmRSS:"@);
    assert forall|j: int| 0 <= j < 6 implies !is_space(#[trigger] s[j]) by {
        assert(s[j] == "VmRSS:"@[j]);
    }
    lemma_run_ends(s, 0, 0, true);
    assert(s[6] == blank[0]);
    lemma_run_ends(s, 0, 6, false);
    assert forall|j: int| 6 <= j < a implies is_space(#[trigger] s[j]) by {
        assert(s[j] == blank[j - 6]);
    }
    assert(word.len() > 0);
    assert forall|j: int| a <= j < b implies !is_space(#[trigger] s[j]) by {
        assert(s[j] == word[j - a]);
    }
    lemma_run_ends(s, 6, a, true);
    if b < s.len() {
        assert(s[b] == tail[0]);
    }
    lemma_run_ends(s, a, b, false);
    assert(s.subrange(a, b) =~= word);
}

proof fn lemma_line_ends(s: Seq<char>, i: int, end: int)
    requires
        0 <= i <= end <= s.len(),
        forall|j: int| i <= j < end ==> #[trigger] s[j] != '\n',
        end < s.len() ==> s[end] == '\n',
    ensures
        line_end(s, i) == end,
    decreases end - i,
{
    if i < end {
        lemma_line_ends(s, i + 1, end);
    }
}

/// The first line that tells a number decides: what a text says of resident memory is what
/// its first line tells, or else what it says after that line.
pub proof fn law_first_line_that_tells_decides(line: Seq<char>, rest: Seq<char>)
    requires
        line.len() > 0,
        forall|j: int| 0 <= j < line.len() ==> #[trigger] line[j] != '\n',
    ensures
        kilobytes_from(line, 0) == line_kilobytes(line),
        kilobytes_from(line + seq!['\n'] + rest, 0) == (if line_kilobytes(line) is Some {
            line_kilobytes(line)
        } else {
            kilobytes_from(line + seq!['\n'] + rest, line.len() as int + 1)
        }),
{
    let s = line + seq!['\n'] + rest;
    let end = line.len() as int;
    lemma_line_ends(line, 0, end);
    assert(line.subrange(0, end) =~= line);
    assert forall|j: int| 0 <= j < end implies #[trigger] s[j] != '\n' by {
        assert(s[j] == line[j]);
    }
    lemma_line_ends(s, 0, end);
    assert(s.subrange(0, end) =~= line);
}

} // verus!
