//! Prompt builder: composes the system instruction, an optional project
//! configuration, retrieved memory context and the task description into
//! one prompt, bounded by a token budget.
//!
//! Token counts are estimated from character counts.  The project
//! configuration is plain text handed in by the embedding layer (which
//! reads it from the workspace); the builder itself touches no file.

use vstd::prelude::*;

use crate::memory::{views_of, value_text, EntryView, MemoryEntry, MemoryStore, MemoryValue};
use crate::strutil::{
    find_sub, first_match_from, fmt_u64, last_match_from, rfind_sub, spec_digits, to_chars,
};
use crate::types::MemoryCategory;

verus! {

/// Settings of the prompt builder.
#[derive(Debug, Clone)]
pub struct PromptBuilderConfig {
    /// The system instruction opening every prompt.
    pub system_instruction: String,
    /// Token budget of the whole prompt.
    pub max_tokens: usize,
    /// Whether memory context is included.
    pub include_memory: bool,
    /// At most this many memory entries are rendered.
    pub max_memory_entries: usize,
    /// Whether task metadata is included.
    pub include_metadata: bool,
}

impl PromptBuilderConfig {
    /// The stock system instruction.
    pub fn default_system_instruction() -> (s: String)
        ensures
            s@ == spec_default_instruction(),
    {
        String::from_str(
            "## Role\n你是任务执行引擎，而非聊天助手。\n\n## Core Directives\n1. Action First: 直接执行，不做建议\n2. Tool Usage: 优先用命令完成工作\n3. Git Mandatory: 实质性修改后必须提交\n4. Self-Healing: 命令报错时分析并修复\n5. No Questions: 直接执行最合理的操作",
        )
    }

    /// A configuration with its own instruction and token budget; the
    /// other settings keep their defaults.
    pub fn new(system_instruction: String, max_tokens: usize) -> (c: Self)
        ensures
            c.system_instruction == system_instruction,
            c.max_tokens == max_tokens,
            c.include_memory,
            c.max_memory_entries == 10,
            c.include_metadata,
    {
        PromptBuilderConfig {
            system_instruction,
            max_tokens,
            include_memory: true,
            max_memory_entries: 10,
            include_metadata: true,
        }
    }
}

/// The stock system instruction's text.
pub open spec fn spec_default_instruction() -> Seq<char> {
    "## Role\n你是任务执行引擎，而非聊天助手。\n\n## Core Directives\n1. Action First: 直接执行，不做建议\n2. Tool Usage: 优先用命令完成工作\n3. Git Mandatory: 实质性修改后必须提交\n4. Self-Healing: 命令报错时分析并修复\n5. No Questions: 直接执行最合理的操作"@
}

impl Default for PromptBuilderConfig {
    fn default() -> (c: Self)
        ensures
            c.system_instruction@ == spec_default_instruction(),
            c.max_tokens == 200000,
            c.include_memory,
            c.max_memory_entries == 10,
            c.include_metadata,
    {
        PromptBuilderConfig {
            system_instruction: PromptBuilderConfig::default_system_instruction(),
            max_tokens: 200000,
            include_memory: true,
            max_memory_entries: 10,
            include_metadata: true,
        }
    }
}

/// The system instruction section.
pub open spec fn spec_system_section(instr: Seq<char>) -> Seq<char> {
    "## 系统指令"@ + "\n"@ + instr
}

/// The project configuration section.
pub open spec fn spec_project_section(pc: Seq<char>) -> Seq<char> {
    "## 项目专属配置\n\n"@ + pc
}

/// The task section.
pub open spec fn spec_task_section(task: Seq<char>) -> Seq<char> {
    "## 当前任务\n\n"@ + task
}

/// The metadata section.
pub open spec fn spec_metadata_section(meta: Seq<char>) -> Seq<char> {
    "## 任务元数据\n\n```json\n"@ + meta + "\n```"@
}

/// The display label of a memory category.
pub open spec fn spec_category_label(c: MemoryCategory) -> Seq<char> {
    match c {
        MemoryCategory::Execution => "执行记录"@,
        MemoryCategory::Context => "上下文"@,
        MemoryCategory::Result => "结果"@,
        MemoryCategory::Error => "错误"@,
        MemoryCategory::Checkpoint => "检查点"@,
    }
}

/// One rendered memory entry, numbered from 1.
pub open spec fn spec_memory_item(e: EntryView, idx1: nat) -> Seq<char> {
    "### "@ + spec_category_label(e.category) + " ["@ + spec_digits(idx1) + "]\n"@ + (match e
        .task_id {
        Some(t) => "- **任务ID**: "@ + t + "\n"@,
        None => Seq::<char>::empty(),
    }) + "- **内容**: "@ + value_text(e.value) + "\n\n"@
}

/// The first `n` memory entries, rendered in order.
pub open spec fn spec_memory_items(ms: Seq<EntryView>, n: int) -> Seq<char>
    decreases n,
{
    if n <= 0 {
        Seq::empty()
    } else {
        spec_memory_items(ms, n - 1) + spec_memory_item(ms[n - 1], n as nat)
    }
}

/// The memory context section: at most `max_entries` entries; empty when
/// nothing is rendered.
pub open spec fn spec_memory_section(ms: Seq<EntryView>, max_entries: int) -> Seq<char> {
    let n = if ms.len() <= max_entries {
        ms.len() as int
    } else {
        max_entries
    };
    if n <= 0 {
        Seq::empty()
    } else {
        "## 相关上下文\n\n"@ + spec_memory_items(ms, n)
    }
}

/// The prompt before truncation: the sections joined by blank lines, in
/// order system instruction, project configuration, optional metadata,
/// memory context, task.
pub open spec fn spec_compose(
    instr: Seq<char>,
    project: Option<Seq<char>>,
    meta: Option<Seq<char>>,
    include_memory: bool,
    max_entries: int,
    ms: Seq<EntryView>,
    task: Seq<char>,
) -> Seq<char> {
    let p0 = spec_system_section(instr);
    let p1 = match project {
        Some(pc) => p0 + "\n\n"@ + spec_project_section(pc),
        None => p0,
    };
    let p2 = match meta {
        Some(m) => p1 + "\n\n"@ + spec_metadata_section(m),
        None => p1,
    };
    let p3 = if include_memory && ms.len() > 0 {
        p2 + "\n\n"@ + spec_memory_section(ms, max_entries)
    } else {
        p2
    };
    p3 + "\n\n"@ + spec_task_section(task)
}

/// At most the first `n` characters.
pub open spec fn spec_char_take(s: Seq<char>, n: int) -> Seq<char> {
    if s.len() <= n {
        s
    } else {
        s.take(n)
    }
}

/// Truncation to the token budget: a prompt within budget stays whole;
/// over budget, a prompt of at least three sections keeps its first
/// section and its last, and anything still over four characters per
/// token is cut at that many characters.
pub open spec fn spec_truncate(s: Seq<char>, max_tokens: int) -> Seq<char> {
    if s.len() / 4 <= max_tokens {
        s
    } else {
        let sep = "\n\n## "@;
        let f = first_match_from(s, sep, 0);
        let l = last_match_from(s, sep, s.len() - sep.len());
        match (f, l) {
            (Some(fi), Some(li)) => if fi == li {
                spec_char_take(s, max_tokens * 4)
            } else {
                spec_char_take(s.take(fi) + sep + s.skip(li + sep.len()), max_tokens * 4)
            },
            _ => spec_char_take(s, max_tokens * 4),
        }
    }
}

/// The prompt builder.
#[derive(Debug, Clone)]
pub struct PromptBuilder {
    /// Builder settings.
    pub config: PromptBuilderConfig,
    /// The workspace the prompt is built for.
    pub workspace_path: String,
    /// The workspace's project configuration text, if the embedding
    /// layer found one.
    pub project_config: Option<String>,
}

impl PromptBuilder {
    /// A fresh builder with stock settings.
    pub fn new() -> (b: Self)
        ensures
            b.config.system_instruction@ == spec_default_instruction(),
            b.config.max_tokens == 200000,
            b.config.include_memory,
            b.config.max_memory_entries == 10,
            b.config.include_metadata,
            b.project_config is None,
            b.workspace_path@ == "."@,
    {
        PromptBuilder {
            config: PromptBuilderConfig::default(),
            workspace_path: String::from_str("."),
            project_config: None,
        }
    }

    /// A fresh builder for a workspace.
    pub fn with_workspace(path: String) -> (b: Self)
        ensures
            b.config.system_instruction@ == spec_default_instruction(),
            b.config.max_tokens == 200000,
            b.config.include_memory,
            b.config.max_memory_entries == 10,
            b.config.include_metadata,
            b.project_config is None,
            b.workspace_path == path,
    {
        PromptBuilder {
            config: PromptBuilderConfig::default(),
            workspace_path: path,
            project_config: None,
        }
    }

    /// A fresh builder with its own settings.
    pub fn with_config(config: PromptBuilderConfig) -> (b: Self)
        ensures
            b.config == config,
            b.project_config is None,
            b.workspace_path@ == "."@,
    {
        PromptBuilder { config, workspace_path: String::from_str("."), project_config: None }
    }

    /// Hand in the workspace's project configuration text.
    pub fn set_project_config(&mut self, project_config: Option<String>)
        ensures
            final(self).project_config == project_config,
            final(self).config == old(self).config,
            final(self).workspace_path == old(self).workspace_path,
    {
        self.project_config = project_config;
    }

    /// The settings.
    pub fn config(&self) -> (c: &PromptBuilderConfig)
        ensures
            c == &self.config,
    {
        &self.config
    }

    /// Replace the settings.
    pub fn set_config(&mut self, config: PromptBuilderConfig)
        ensures
            final(self).config == config,
            final(self).project_config == old(self).project_config,
            final(self).workspace_path == old(self).workspace_path,
    {
        self.config = config;
    }

    fn build_system_section(&self) -> (r: String)
        ensures
            r@ == spec_system_section(self.config.system_instruction@),
    {
        let r = String::from_str("## 系统指令").concat("\n").concat(
            self.config.system_instruction.as_str(),
        );
        r
    }

    fn build_project_config_section(&self, project_config: &str) -> (r: String)
        ensures
            r@ == spec_project_section(project_config@),
    {
        String::from_str("## 项目专属配置\n\n").concat(project_config)
    }

    fn build_task_section(&self, task: &str) -> (r: String)
        ensures
            r@ == spec_task_section(task@),
    {
        String::from_str("## 当前任务\n\n").concat(task)
    }

    fn build_metadata_section(&self, metadata: &MemoryValue) -> (r: String)
        ensures
            r@ == spec_metadata_section(value_text(metadata@)),
    {
        let text = self.format_memory_value(metadata);
        String::from_str("## 任务元数据\n\n```json\n").concat(text.as_str()).concat("\n```")
    }

    /// The display text of a memory value.
    pub fn format_memory_value(&self, value: &MemoryValue) -> (r: String)
        ensures
            r@ == value_text(value@),
    {
        match value {
            MemoryValue::Text(s) => s.clone(),
            MemoryValue::Json(s) => s.clone(),
        }
    }

    fn category_label(&self, c: MemoryCategory) -> (r: &'static str)
        ensures
            r@ == spec_category_label(c),
    {
        match c {
            MemoryCategory::Execution => "执行记录",
            MemoryCategory::Context => "上下文",
            MemoryCategory::Result => "结果",
            MemoryCategory::Error => "错误",
            MemoryCategory::Checkpoint => "检查点",
        }
    }

    fn build_memory_section(&self, memories: &Vec<MemoryEntry>) -> (r: String)
        ensures
            r@ == spec_memory_section(
                views_of(memories@),
                self.config.max_memory_entries as int,
            ),
    {
        let ghost ms = views_of(memories@);
        let n = if memories.len() <= self.config.max_memory_entries {
            memories.len()
        } else {
            self.config.max_memory_entries
        };
        if n == 0 {
            return String::new();
        }
        let mut out = String::from_str("## 相关上下文\n\n");
        let mut i: usize = 0;
        while i < n
            invariant
                0 <= i <= n,
                n <= memories@.len(),
                ms == views_of(memories@),
                n as int == (if ms.len() <= self.config.max_memory_entries as int {
                    ms.len() as int
                } else {
                    self.config.max_memory_entries as int
                }),
                out@ == "## 相关上下文\n\n"@ + spec_memory_items(ms, i as int),
            decreases n - i,
        {
            let e = &memories[i];
            proof {
                assert(ms[i as int] == memories@[i as int]@);
            }
            let idx = fmt_u64(i as u64 + 1);
            let label = self.category_label(e.category);
            let mut item = String::from_str("### ").concat(label).concat(" [").concat(
                idx.as_str(),
            ).concat("]\n");
            match &e.task_id {
                Some(t) => {
                    item = item.concat("- **任务ID**: ").concat(t.as_str()).concat("\n");
                },
                None => {},
            }
            let text = self.format_memory_value(&e.value);
            item = item.concat("- **内容**: ").concat(text.as_str()).concat("\n\n");
            proof {
                assert(item@ =~= spec_memory_item(ms[i as int], (i + 1) as nat));
            }
            out = out.concat(item.as_str());
            proof {
                assert(out@ =~= "## 相关上下文\n\n"@ + spec_memory_items(ms, i + 1));
            }
            i += 1;
        }
        out
    }

    /// Cut a prompt to the token budget, keeping the first and the last
    /// section when the structure allows it.
    fn truncate_if_needed(&self, prompt: &str) -> (r: String)
        ensures
            r@ == spec_truncate(prompt@, self.config.max_tokens as int),
    {
        let len = prompt.unicode_len();
        if len / 4 <= self.config.max_tokens {
            return String::from_str(prompt);
        }
        let max_chars = match self.config.max_tokens.checked_mul(4) {
            Some(m) => m,
            None => usize::MAX,
        };
        let chars = to_chars(prompt);
        let sep = "\n\n## ";
        proof {
            reveal_strlit("\n\n## ");
        }
        let sep_chars = to_chars(sep);
        let f = find_sub(&chars, &sep_chars);
        let l = rfind_sub(&chars, &sep_chars);
        match (f, l) {
            (Some(fi), Some(li)) => {
                if fi != li {
                    let head = prompt.substring_char(0, fi);
                    let tail = prompt.substring_char(li + 5, len);
                    let out = String::from_str(head).concat(sep).concat(tail);
                    let ghost joined = prompt@.take(fi as int) + "\n\n## "@ + prompt@.skip(
                        li + 5,
                    );
                    proof {
                        assert(out@ =~= joined);
                    }
                    let out_len = out.as_str().unicode_len();
                    if out_len > max_chars {
                        let cut = String::from_str(out.as_str().substring_char(0, max_chars));
                        proof {
                            assert(cut@ =~= spec_char_take(joined, self.config.max_tokens * 4));
                        }
                        cut
                    } else {
                        proof {
                            assert(out@ =~= spec_char_take(joined, self.config.max_tokens * 4));
                        }
                        out
                    }
                } else {
                    self.char_cut(prompt, max_chars)
                }
            },
            _ => self.char_cut(prompt, max_chars),
        }
    }

    /// At most the first `max_chars` characters of the prompt.
    fn char_cut(&self, prompt: &str, max_chars: usize) -> (r: String)
        requires
            max_chars == (if self.config.max_tokens * 4 <= usize::MAX {
                self.config.max_tokens * 4
            } else {
                usize::MAX as int
            }),
        ensures
            r@ == spec_char_take(prompt@, self.config.max_tokens * 4),
    {
        let len = prompt.unicode_len();
        if len <= max_chars {
            String::from_str(prompt)
        } else {
            let cut = String::from_str(prompt.substring_char(0, max_chars));
            cut
        }
    }

    /// Estimated token count of a prompt: one token per three
    /// characters.
    pub fn estimate_tokens(&self, prompt: &str) -> (n: usize)
        ensures
            n == prompt@.len() / 3,
    {
        prompt.unicode_len() / 3
    }

    /// Whether a prompt fits the token budget.
    pub fn validate_length(&self, prompt: &str) -> (r: Result<(), String>)
        ensures
            r is Ok <==> prompt@.len() / 3 <= self.config.max_tokens as int,
    {
        let estimated = self.estimate_tokens(prompt);
        if estimated > self.config.max_tokens {
            Err(String::from_str("prompt exceeds the token budget"))
        } else {
            Ok(())
        }
    }

    /// Build the full prompt: system instruction, project configuration
    /// when present, memory context when enabled and given, and the task,
    /// cut to the token budget.
    pub fn build(&self, task: &str, memories: &Vec<MemoryEntry>) -> (r: String)
        ensures
            r@ == spec_truncate(
                spec_compose(
                    self.config.system_instruction@,
                    match self.project_config {
                        Some(pc) => Some(pc@),
                        None => None,
                    },
                    None,
                    self.config.include_memory,
                    self.config.max_memory_entries as int,
                    views_of(memories@),
                    task@,
                ),
                self.config.max_tokens as int,
            ),
    {
        let mut out = self.build_system_section();
        match &self.project_config {
            Some(pc) => {
                let section = self.build_project_config_section(pc.as_str());
                out = out.concat("\n\n").concat(section.as_str());
            },
            None => {},
        }
        if self.config.include_memory && memories.len() > 0 {
            let section = self.build_memory_section(memories);
            out = out.concat("\n\n").concat(section.as_str());
        }
        let task_section = self.build_task_section(task);
        out = out.concat("\n\n").concat(task_section.as_str());
        proof {
            assert(out@ =~= spec_compose(
                self.config.system_instruction@,
                match self.project_config {
                    Some(pc) => Some(pc@),
                    None => None,
                },
                None,
                self.config.include_memory,
                self.config.max_memory_entries as int,
                views_of(memories@),
                task@,
            ));
        }
        self.truncate_if_needed(out.as_str())
    }

    /// Build the full prompt with a metadata section after the project
    /// configuration.
    pub fn build_with_metadata(
        &self,
        task: &str,
        memories: &Vec<MemoryEntry>,
        metadata: &MemoryValue,
    ) -> (r: String)
        ensures
            r@ == spec_truncate(
                spec_compose(
                    self.config.system_instruction@,
                    match self.project_config {
                        Some(pc) => Some(pc@),
                        None => None,
                    },
                    if self.config.include_metadata {
                        Some(value_text(metadata@))
                    } else {
                        None
                    },
                    self.config.include_memory,
                    self.config.max_memory_entries as int,
                    views_of(memories@),
                    task@,
                ),
                self.config.max_tokens as int,
            ),
    {
        let mut out = self.build_system_section();
        match &self.project_config {
            Some(pc) => {
                let section = self.build_project_config_section(pc.as_str());
                out = out.concat("\n\n").concat(section.as_str());
            },
            None => {},
        }
        if self.config.include_metadata {
            let section = self.build_metadata_section(metadata);
            out = out.concat("\n\n").concat(section.as_str());
        }
        if self.config.include_memory && memories.len() > 0 {
            let section = self.build_memory_section(memories);
            out = out.concat("\n\n").concat(section.as_str());
        }
        let task_section = self.build_task_section(task);
        out = out.concat("\n\n").concat(task_section.as_str());
        proof {
            assert(out@ =~= spec_compose(
                self.config.system_instruction@,
                match self.project_config {
                    Some(pc) => Some(pc@),
                    None => None,
                },
                if self.config.include_metadata {
                    Some(value_text(metadata@))
                } else {
                    None
                },
                self.config.include_memory,
                self.config.max_memory_entries as int,
                views_of(memories@),
                task@,
            ));
        }
        self.truncate_if_needed(out.as_str())
    }

    /// Build the prompt with memory context retrieved from the store:
    /// the three best keyword matches for the task at some instant.
    pub fn build_with_memory_search(&self, task: &str, store: &MemoryStore) -> (r: String)
        requires
            store.wf(),
        ensures
            exists|ms: Seq<EntryView>|
                #[trigger] store.search_front_post(task@, None, None, 3, ms) && r@
                    == spec_truncate(
                    spec_compose(
                        self.config.system_instruction@,
                        match self.project_config {
                            Some(pc) => Some(pc@),
                            None => None,
                        },
                        None,
                        self.config.include_memory,
                        self.config.max_memory_entries as int,
                        ms,
                        task@,
                    ),
                    self.config.max_tokens as int,
                ),
    {
        let memories = store.search(task, None, None, Some(3));
        let r = self.build(task, &memories);
        proof {
            assert(store.search_front_post(task@, None, None, 3, views_of(memories@)) && r@
                == spec_truncate(
                spec_compose(
                    self.config.system_instruction@,
                    match self.project_config {
                        Some(pc) => Some(pc@),
                        None => None,
                    },
                    None,
                    self.config.include_memory,
                    self.config.max_memory_entries as int,
                    views_of(memories@),
                    task@,
                ),
                self.config.max_tokens as int,
            ));
        }
        r
    }
}

impl Default for PromptBuilder {
    fn default() -> (b: Self)
        ensures
            b.project_config is None,
            b.config.max_tokens == 200000,
    {
        Self::new()
    }
}

/// Build a prompt with stock settings.
pub fn build_prompt(task: &str, memories: &Vec<MemoryEntry>) -> (r: String)
    ensures
        r@ == spec_truncate(
            spec_compose(
                spec_default_instruction(),
                None,
                None,
                true,
                10,
                views_of(memories@),
                task@,
            ),
            200000,
        ),
{
    let builder = PromptBuilder::new();
    builder.build(task, memories)
}

} // verus!
