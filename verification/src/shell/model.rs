//! What the workload assessment works with: the workloads found on the
//! machine, the adviser's verdicts, the user's standing preferences and the
//! state kept on disk.
//!
//! Resource figures measured with fractions (CPU, GPU, memory and I/O rates)
//! travel with the workloads outside; the checks here never read them.

use vstd::prelude::*;
use crate::text::{to_lowercase, unicode_lower};

verus! {

#[derive(Debug, Clone)]
pub struct Target {
    pub pid: u32,
    pub started: String,
    pub exe: String,
    pub hash: String,
}

#[derive(Debug, Clone)]
pub struct LoadedModel {
    pub name: String,
    pub context_length: u64,
    pub keep_alive_seconds: i64,
}

#[derive(Debug, Clone)]
pub struct Workload {
    pub id: String,
    pub name: String,
    pub exe: String,
    pub hash: String,
    pub pid: u32,
    pub started: String,
    pub kind: String,
    pub product: String,
    pub publisher: String,
    pub has_window: bool,
    pub blocked: String,
    pub targets: Vec<Target>,
    pub models: Vec<LoadedModel>,
}

/// The key a preference is remembered under.
pub open spec fn workload_key(w: Workload) -> Seq<char> {
    w.kind@ + "|"@ + unicode_lower(w.exe@) + "|"@ + w.hash@
}

/// Whether the app may act on a workload itself: nothing blocks it, its
/// executable was hashed, and it is an Ollama model or a program to close.
pub open spec fn is_actionable(w: Workload) -> bool {
    w.blocked@.len() == 0 && w.hash@.len() > 0 && (w.kind@ == "ollama"@ || w.kind@ == "close"@)
}

impl Default for Workload {
    fn default() -> (w: Workload)
        ensures
            w.id@.len() == 0 && w.name@.len() == 0 && w.exe@.len() == 0 && w.hash@.len() == 0,
            w.pid == 0,
            w.started@.len() == 0 && w.kind@.len() == 0 && w.product@.len() == 0 && w.publisher@.len() == 0,
            !w.has_window,
            w.blocked@.len() == 0,
            w.targets@.len() == 0 && w.models@.len() == 0,
    {
        Workload {
            id: String::new(),
            name: String::new(),
            exe: String::new(),
            hash: String::new(),
            pid: 0,
            started: String::new(),
            kind: String::new(),
            product: String::new(),
            publisher: String::new(),
            has_window: false,
            blocked: String::new(),
            targets: Vec::new(),
            models: Vec::new(),
        }
    }
}

impl Workload {
    /// `kind|exe in lower case|hash`.
    pub fn key(&self) -> (r: String)
        ensures
            r@ == workload_key(*self),
    {
        let mut r = self.kind.clone();
        r.append("|");
        r.append(to_lowercase(self.exe.as_str()).as_str());
        r.append("|");
        r.append(self.hash.as_str());
        proof {
            reveal_strlit("|");
        }
        r
    }

    pub fn actionable(&self) -> (r: bool)
        ensures
            r == is_actionable(*self),
    {
        let none = String::new();
        let ollama = String::from_str("ollama");
        let close = String::from_str("close");
        proof {
            reveal_strlit("ollama");
            reveal_strlit("close");
            assert(self.blocked@.len() == 0 <==> self.blocked@ =~= none@);
            assert(self.hash@.len() == 0 <==> self.hash@ =~= none@);
        }
        self.blocked == none && self.hash != none && (self.kind == ollama || self.kind == close)
    }
}

/// What one look at the machine found.
#[derive(Debug, Clone)]
pub struct Snapshot {
    pub workloads: Vec<Workload>,
    pub warnings: Vec<String>,
    pub gpu_summary: String,
}

impl Default for Snapshot {
    fn default() -> (s: Snapshot)
        ensures
            s.workloads@.len() == 0,
            s.warnings@.len() == 0,
            s.gpu_summary@.len() == 0,
    {
        Snapshot { workloads: Vec::new(), warnings: Vec::new(), gpu_summary: String::new() }
    }
}

#[derive(Debug, Clone, Copy, PartialEq, Eq, Structural)]
pub enum Recommendation {
    Close,
    Keep,
    Ask,
}

/// The adviser's verdict on one workload.
#[derive(Debug, Clone)]
pub struct Advice {
    pub id: String,
    pub recommendation: Recommendation,
    pub confidence: u8,
    pub reason: String,
}

#[derive(Debug, Clone)]
pub struct Assessment {
    pub summary: String,
    pub workloads: Vec<Advice>,
}

#[derive(Debug, Clone, Copy, PartialEq, Eq, Structural)]
pub enum Preference {
    Allow,
    Ask,
    Keep,
}

impl Default for Preference {
    fn default() -> (p: Preference)
        ensures
            p == Preference::Ask,
    {
        Preference::Ask
    }
}

/// A standing preference for the workloads with this key.
#[derive(Debug, Clone)]
pub struct Rule {
    pub key: String,
    pub preference: Preference,
}

/// A verdict remembered for a workload key, with when it was given.
#[derive(Debug, Clone)]
pub struct SavedAdvice {
    pub key: String,
    pub at: u64,
    pub advice: Advice,
}

#[derive(Debug, Clone, Copy, PartialEq, Eq, Structural)]
pub enum Provider {
    Codex,
    Claude,
}

impl Default for Provider {
    fn default() -> (p: Provider)
        ensures
            p == Provider::Codex,
    {
        Provider::Codex
    }
}

#[derive(Debug, Clone)]
pub struct Settings {
    pub provider: Provider,
    pub model: String,
    pub cli_path: String,
    pub automatic: bool,
    pub interrupt_ollama: bool,
}

impl Default for Settings {
    fn default() -> (s: Settings)
        ensures
            s.provider == Provider::Codex,
            s.model@.len() == 0,
            s.cli_path@.len() == 0,
            !s.automatic,
            !s.interrupt_ollama,
    {
        Settings {
            provider: Provider::Codex,
            model: String::new(),
            cli_path: String::new(),
            automatic: false,
            interrupt_ollama: false,
        }
    }
}

/// A workload that was acted on and how putting it back went.
#[derive(Debug, Clone)]
pub struct Recovery {
    pub workload: Workload,
    pub status: String,
    pub error: String,
}

#[derive(Debug, Clone)]
pub struct DiskState {
    pub version: u8,
    pub settings: Settings,
    pub rules: Vec<Rule>,
    pub cache: Vec<SavedAdvice>,
    pub active: bool,
    pub recovery: Vec<Recovery>,
    pub history: Vec<String>,
}

impl Default for DiskState {
    fn default() -> (d: DiskState)
        ensures
            d.version == 1,
            d.settings.provider == Provider::Codex,
            d.settings.model@.len() == 0,
            d.settings.cli_path@.len() == 0,
            !d.settings.automatic,
            !d.settings.interrupt_ollama,
            d.rules@.len() == 0,
            d.cache@.len() == 0,
            !d.active,
            d.recovery@.len() == 0,
            d.history@.len() == 0,
    {
        DiskState {
            version: 1,
            settings: Settings::default(),
            rules: Vec::new(),
            cache: Vec::new(),
            active: false,
            recovery: Vec::new(),
            history: Vec::new(),
        }
    }
}

/// Everything the window shows.
#[derive(Debug, Clone)]
pub struct AppView {
    pub process_id: u32,
    pub state: DiskState,
    pub snapshot: Snapshot,
    pub advice: Vec<Advice>,
    pub summary: String,
    pub busy: bool,
    pub status: String,
}

} // verus!
