//! Post-execution analysis: the prompt that asks for an analysis of an
//! execution result, extraction of the JSON document from the reply, and
//! the memory entries built from the analysed fields.
//!
//! Running the analysis command and parsing the reply's JSON into plain
//! fields is the embedding layer's work; the decisions — what is clipped,
//! what counts as a document, which entries are written under which keys
//! and categories — are made and verified here.

use vstd::prelude::*;

use crate::memory::{MemoryEntry, MemoryValue};
use crate::strutil::{find_sub, first_match_from, fmt_i64, last_match_from, rfind_sub,
    spec_digits_i64, to_chars};
use crate::types::MemoryCategory;

verus! {

/// Outputs longer than this many characters are clipped in the analysis
/// prompt.
pub const MAX_OUTPUT_CHARS: usize = 10000;

/// A long output, clipped and marked.
pub open spec fn spec_clip(s: Seq<char>) -> Seq<char> {
    if s.len() <= MAX_OUTPUT_CHARS {
        s
    } else {
        s.take(MAX_OUTPUT_CHARS as int) + "...[已截断]"@
    }
}

/// Clip an output to the prompt bound.
fn clip_output(s: &str) -> (r: String)
    ensures
        r@ == spec_clip(s@),
{
    let len = s.unicode_len();
    if len <= MAX_OUTPUT_CHARS {
        String::from_str(s)
    } else {
        let r = String::from_str(s.substring_char(0, MAX_OUTPUT_CHARS)).concat("...[已截断]");
        r
    }
}

/// The rendering of an optional exit code.
pub open spec fn spec_code_text(exit_code: Option<i32>) -> Seq<char> {
    match exit_code {
        Some(c) => "Some("@ + spec_digits_i64(c as int) + ")"@,
        None => "None"@,
    }
}

/// The analysis prompt for one execution result.
pub open spec fn spec_memory_prompt(
    task: Seq<char>,
    stdout: Seq<char>,
    stderr: Seq<char>,
    exit_code: Option<i32>,
) -> Seq<char> {
    "你是记忆整理专家。请分析以下任务执行结果，提取关键信息。\n\n## 任务描述\n"@
        + task + "\n\n## 执行结果\n- 退出码: "@ + spec_code_text(exit_code) + "\n- 成功: "@
        + (if exit_code == Some(0i32) {
        "true"@
    } else {
        "false"@
    })
        + "\n\n## 标准输出\n"@ + spec_clip(stdout) + "\n\n## 错误输出\n"@ + spec_clip(stderr)
        + "\n\n请以 JSON 返回 summary、key_learnings、errors、solutions、tags、category，不要包含其他内容。"@
}

/// Build the analysis prompt: the task, the exit code and success flag,
/// and both outputs clipped to the bound.
pub fn build_memory_prompt(
    task: &str,
    stdout: &str,
    stderr: &str,
    exit_code: Option<i32>,
) -> (r: String)
    ensures
        r@ == spec_memory_prompt(task@, stdout@, stderr@, exit_code),
{
    let code_text: String = match exit_code {
        Some(c) => {
            let t = String::from_str("Some(").concat(fmt_i64(c as i64).as_str()).concat(")");
            proof {
                assert(t@ =~= spec_code_text(exit_code));
            }
            t
        },
        None => String::from_str("None"),
    };
    let success: &'static str = match exit_code {
        Some(c) => if c == 0 {
            "true"
        } else {
            "false"
        },
        None => "false",
    };
    let out = String::from_str(
        "你是记忆整理专家。请分析以下任务执行结果，提取关键信息。\n\n## 任务描述\n",
    ).concat(task).concat("\n\n## 执行结果\n- 退出码: ").concat(code_text.as_str()).concat(
        "\n- 成功: ",
    ).concat(success).concat("\n\n## 标准输出\n").concat(clip_output(stdout).as_str()).concat(
        "\n\n## 错误输出\n",
    ).concat(clip_output(stderr).as_str()).concat(
        "\n\n请以 JSON 返回 summary、key_learnings、errors、solutions、tags、category，不要包含其他内容。",
    );
    proof {
        assert(out@ =~= spec_memory_prompt(task@, stdout@, stderr@, exit_code));
    }
    out
}

/// The JSON document inside a reply: from the first `{` to the last `}`,
/// provided they stand in that order.
pub open spec fn spec_extract_json(s: Seq<char>) -> Option<Seq<char>> {
    let f = first_match_from(s, seq!['{'], 0);
    let l = last_match_from(s, seq!['}'], s.len() - 1);
    match (f, l) {
        (Some(a), Some(b)) => if a < b {
            Some(s.subrange(a, b + 1))
        } else {
            None
        },
        _ => None,
    }
}

/// Extract the JSON document from a reply that may carry text around it.
pub fn extract_json<'a>(text: &'a str) -> (r: Result<&'a str, String>)
    ensures
        r matches Ok(j) ==> spec_extract_json(text@) == Some(j@),
        r is Err <==> spec_extract_json(text@) is None,
{
    let chars = to_chars(text);
    let mut open_pat: Vec<char> = Vec::new();
    open_pat.push('{');
    let mut close_pat: Vec<char> = Vec::new();
    close_pat.push('}');
    proof {
        assert(open_pat@ =~= seq!['{']);
        assert(close_pat@ =~= seq!['}']);
    }
    let total = chars.len();
    proof {
        assert(total == text@.len());
    }
    let f = find_sub(&chars, &open_pat);
    let l = rfind_sub(&chars, &close_pat);
    match (f, l) {
        (Some(a), Some(b)) => {
            if a < b {
                let j = text.substring_char(a, b + 1);
                Ok(j)
            } else {
                Err(String::from_str("the closing brace stands before the opening one"))
            }
        },
        (None, _) => Err(String::from_str("no opening brace in the reply")),
        (_, None) => Err(String::from_str("no closing brace in the reply")),
    }
}

/// Relies on uuid::Uuid::new_v4 and its `Display` rendering: a fresh
/// random identifier in the hyphenated form, 36 characters long.
#[verifier::external_body]
fn new_uuid() -> (r: String)
    ensures
        r@.len() == 36,
{
    uuid::Uuid::new_v4().to_string()
}

/// Lines joined by newlines.
pub open spec fn spec_join_lines(ss: Seq<Seq<char>>) -> Seq<char>
    decreases ss.len(),
{
    if ss.len() == 0 {
        Seq::empty()
    } else if ss.len() == 1 {
        ss[0]
    } else {
        spec_join_lines(ss.drop_last()) + "\n"@ + ss.last()
    }
}

/// Join lines by newlines.
fn join_lines(ss: &Vec<String>) -> (r: String)
    ensures
        r@ == spec_join_lines(ss@.map_values(|s: String| s@)),
{
    let ghost views = ss@.map_values(|s: String| s@);
    let mut out = String::new();
    let mut i: usize = 0;
    while i < ss.len()
        invariant
            0 <= i <= ss@.len(),
            views == ss@.map_values(|s: String| s@),
            out@ == spec_join_lines(views.take(i as int)),
        decreases ss@.len() - i,
    {
        proof {
            assert(views.take(i + 1).drop_last() =~= views.take(i as int));
            assert(views.take(i + 1).last() == views[i as int]);
            if i == 0 {
                assert(views.take(1)[0] == views[0]);
            }
        }
        if i == 0 {
            out = String::from_str(ss[0].as_str());
        } else {
            out = out.concat("\n").concat(ss[i].as_str());
        }
        i += 1;
    }
    proof {
        assert(views.take(views.len() as int) =~= views);
    }
    out
}

/// The key prefix of an analysis entry of a category.
pub open spec fn spec_key_prefix(c: MemoryCategory) -> Seq<char> {
    match c {
        MemoryCategory::Execution => "execution:"@,
        MemoryCategory::Error => "error:"@,
        _ => "learning:"@,
    }
}

/// An analysis entry's key: prefix, task, and a fresh 36-character
/// identifier.
pub open spec fn is_analysis_key(key: Seq<char>, c: MemoryCategory, task: Seq<char>) -> bool {
    exists|u: Seq<char>|
        #[trigger] u.len() == 36 && key == spec_key_prefix(c) + task + ":"@ + u
}

fn analysis_key(c: MemoryCategory, prefix: &'static str, task: &str) -> (r: String)
    requires
        prefix@ == spec_key_prefix(c),
    ensures
        is_analysis_key(r@, c, task@),
{
    let u = new_uuid();
    let r = String::from_str(prefix).concat(task).concat(":").concat(u.as_str());
    proof {
        assert(r@ =~= spec_key_prefix(c) + task@ + ":"@ + u@);
    }
    r
}

/// The memory entries an analysed execution writes: an execution record
/// when a summary came back, an error record when errors came back, and
/// a learning record when key learnings came back — each under a fresh
/// key carrying its kind and the task, stamped with `timestamp`, never
/// expiring and bound to no task row.
pub fn analysis_entries(
    task: &str,
    summary: Option<String>,
    errors: Vec<String>,
    solutions: Vec<String>,
    learnings: Vec<String>,
    timestamp: i64,
) -> (r: Vec<MemoryEntry>)
    ensures
        r@.len() == (if summary is Some {
            1int
        } else {
            0int
        }) + (if errors@.len() > 0 {
            1int
        } else {
            0int
        }) + (if learnings@.len() > 0 {
            1int
        } else {
            0int
        }),
        forall|k: int| 0 <= k < r@.len() ==> {
            &&& (#[trigger] r@[k])@.timestamp == timestamp
            &&& r@[k]@.expires_at is None
            &&& r@[k]@.task_id is None
            &&& is_analysis_key(r@[k]@.key, r@[k]@.category, task@)
        },
        (summary is Some) <==> (exists|k: int| 0 <= k < r@.len() && (#[trigger] r@[k])@.category
            == MemoryCategory::Execution),
        (errors@.len() > 0) <==> (exists|k: int| 0 <= k < r@.len() && (#[trigger] r@[k])@.category
            == MemoryCategory::Error),
        (learnings@.len() > 0) <==> (exists|k: int| 0 <= k < r@.len() && (
        #[trigger] r@[k])@.category == MemoryCategory::Result),
        forall|k: int| 0 <= k < r@.len() ==> ((#[trigger] r@[k])@.category
            == MemoryCategory::Execution || r@[k]@.category == MemoryCategory::Error || r@[k]@.category
            == MemoryCategory::Result),
{
    proof {
        reveal_strlit("execution:");
        reveal_strlit("error:");
        reveal_strlit("learning:");
    }
    let mut out: Vec<MemoryEntry> = Vec::new();
    let has_summary = match summary {
        Some(s) => {
            let entry = MemoryEntry {
                key: analysis_key(MemoryCategory::Execution, "execution:", task),
                value: MemoryValue::Text(s),
                expires_at: None,
                category: MemoryCategory::Execution,
                task_id: None,
                timestamp,
            };
            out.push(entry);
            true
        },
        None => false,
    };
    let ghost n1 = out@.len() as int;
    proof {
        assert(forall|k: int| 0 <= k < n1 ==> (#[trigger] out@[k])@.category
            == MemoryCategory::Execution);
    }
    if errors.len() > 0 {
        let mut text = join_lines(&errors);
        if solutions.len() > 0 {
            text = text.concat("\n").concat(join_lines(&solutions).as_str());
        }
        let entry = MemoryEntry {
            key: analysis_key(MemoryCategory::Error, "error:", task),
            value: MemoryValue::Text(text),
            expires_at: None,
            category: MemoryCategory::Error,
            task_id: None,
            timestamp,
        };
        out.push(entry);
    }
    let ghost n2 = out@.len() as int;
    proof {
        assert(forall|k: int| 0 <= k < n1 ==> (#[trigger] out@[k])@.category
            == MemoryCategory::Execution);
        assert(forall|k: int| n1 <= k < n2 ==> (#[trigger] out@[k])@.category
            == MemoryCategory::Error);
    }
    if learnings.len() > 0 {
        let entry = MemoryEntry {
            key: analysis_key(MemoryCategory::Result, "learning:", task),
            value: MemoryValue::Text(join_lines(&learnings)),
            expires_at: None,
            category: MemoryCategory::Result,
            task_id: None,
            timestamp,
        };
        out.push(entry);
    }
    let ghost n3 = out@.len() as int;
    proof {
        assert(forall|k: int| 0 <= k < n1 ==> (#[trigger] out@[k])@.category
            == MemoryCategory::Execution);
        assert(forall|k: int| n1 <= k < n2 ==> (#[trigger] out@[k])@.category
            == MemoryCategory::Error);
        assert(forall|k: int| n2 <= k < n3 ==> (#[trigger] out@[k])@.category
            == MemoryCategory::Result);
        assert((summary is Some) <==> n1 == 1);
        assert((errors@.len() > 0) <==> n2 == n1 + 1);
        assert((learnings@.len() > 0) <==> n3 == n2 + 1);
        if exists|k: int| 0 <= k < out@.len() && (#[trigger] out@[k])@.category
            == MemoryCategory::Execution {
            let k = choose|k: int| 0 <= k < out@.len() && (#[trigger] out@[k])@.category
                == MemoryCategory::Execution;
            assert(k < n1);
        }
        if exists|k: int| 0 <= k < out@.len() && (#[trigger] out@[k])@.category
            == MemoryCategory::Error {
            let k = choose|k: int| 0 <= k < out@.len() && (#[trigger] out@[k])@.category
                == MemoryCategory::Error;
            assert(n1 <= k < n2);
        }
        if exists|k: int| 0 <= k < out@.len() && (#[trigger] out@[k])@.category
            == MemoryCategory::Result {
            let k = choose|k: int| 0 <= k < out@.len() && (#[trigger] out@[k])@.category
                == MemoryCategory::Result;
            assert(n2 <= k < n3);
        }
        if summary is Some {
            assert(out@[0]@.category == MemoryCategory::Execution);
        }
        if errors@.len() > 0 {
            assert(out@[n1]@.category == MemoryCategory::Error);
        }
        if learnings@.len() > 0 {
            assert(out@[n2]@.category == MemoryCategory::Result);
        }
    }
    out
}

} // verus!
