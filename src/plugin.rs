//! The plugin host's decisions: which directories hold plugins and in what
//! order they load, the bounds of every transfer into and out of a module's
//! memory, and how one record passes through the loaded modules in turn.
use crate::model::MediaInfo;
use crate::paths::{components, path_components};
use crate::text::{is_prefix, join_text, sort_texts, starts_with_text, text_le, views};
use vstd::prelude::*;

verus! {

/// A plugin directory's name starts with this.
pub open spec fn plugin_prefix() -> Seq<char> {
    "diosic-plugin-"@
}

/// A directory at `dir` holds a plugin: its name carries the plugin prefix.
pub open spec fn is_plugin_dir(dir: Seq<char>) -> bool {
    components(dir).len() > 0 && is_prefix(plugin_prefix(), components(dir).last())
}

/// A plugin found on disk: its name (its directory's name) and the module
/// file inside that directory.
#[derive(Debug, Clone)]
pub struct PluginEntry {
    pub name: String,
    pub wasm_path: String,
}

/// The entry for the plugin directory `dir`.
pub open spec fn entry_of(dir: Seq<char>) -> (Seq<char>, Seq<char>) {
    (components(dir).last(), dir + "/main.wasm"@)
}

/// A plugin of this name is among `entries` already.
pub open spec fn name_taken(entries: Seq<(Seq<char>, Seq<char>)>, name: Seq<char>) -> bool {
    exists|k: int| 0 <= k < entries.len() && (#[trigger] entries[k]).0 == name
}

/// The plugins among directories `dirs`, in the order given; of two plugin
/// directories with the same name, the first is kept.
pub open spec fn plugin_entries(dirs: Seq<Seq<char>>) -> Seq<(Seq<char>, Seq<char>)>
    decreases dirs.len(),
{
    if dirs.len() == 0 {
        Seq::empty()
    } else {
        let prev = plugin_entries(dirs.drop_last());
        if is_plugin_dir(dirs.last()) && !name_taken(prev, entry_of(dirs.last()).0) {
            prev.push(entry_of(dirs.last()))
        } else {
            prev
        }
    }
}

pub open spec fn entry_views(v: Seq<PluginEntry>) -> Seq<(Seq<char>, Seq<char>)> {
    v.map_values(|e: PluginEntry| (e.name@, e.wasm_path@))
}

/// Whether the directory at `dir` is named as a plugin directory.
pub fn is_plugin_directory(dir: &str) -> (r: bool)
    ensures
        r == is_plugin_dir(dir@),
{
    let comps = path_components(dir);
    if comps.len() == 0 {
        return false;
    }
    let name = comps[comps.len() - 1].as_str();
    proof {
        assert(views(comps@)[comps@.len() - 1] == comps@[comps@.len() - 1]@);
    }
    starts_with_text(name, "diosic-plugin-")
}

fn name_in(entries: &Vec<PluginEntry>, name: &String) -> (r: bool)
    ensures
        r == name_taken(entry_views(entries@), name@),
{
    let mut k: usize = 0;
    while k < entries.len()
        invariant
            k <= entries@.len(),
            forall|t: int| 0 <= t < k ==> entries@[t].name@ != name@,
        decreases entries@.len() - k,
    {
        if entries[k].name == *name {
            proof {
                assert(entry_views(entries@)[k as int].0 == name@);
            }
            return true;
        }
        k = k + 1;
    }
    proof {
        if name_taken(entry_views(entries@), name@) {
            let t = choose|t: int|
                0 <= t < entry_views(entries@).len() && (#[trigger] entry_views(entries@)[t]).0
                    == name@;
            assert(entries@[t].name@ == name@);
        }
    }
    false
}

/// The plugins among `dirs`, keeping their order and the first of each name.
pub fn entries_in_order(dirs: &Vec<String>) -> (r: Vec<PluginEntry>)
    ensures
        entry_views(r@) == plugin_entries(views(dirs@)),
{
    let mut r: Vec<PluginEntry> = Vec::new();
    let mut i: usize = 0;
    while i < dirs.len()
        invariant
            i <= dirs@.len(),
            entry_views(r@) == plugin_entries(views(dirs@).subrange(0, i as int)),
        decreases dirs@.len() - i,
    {
        let dir = dirs[i].as_str();
        proof {
            let p = views(dirs@).subrange(0, i as int + 1);
            assert(p.drop_last() =~= views(dirs@).subrange(0, i as int));
            assert(p.last() == dir@);
        }
        if is_plugin_directory(dir) {
            let comps = path_components(dir);
            let name = comps[comps.len() - 1].clone();
            let wasm_path = join_text(dir, "/main.wasm");
            proof {
                assert(views(comps@)[comps@.len() - 1] == comps@[comps@.len() - 1]@);
            }
            if !name_in(&r, &name) {
                proof {
                    assert(entry_views(r@.push(PluginEntry { name, wasm_path })) =~= entry_views(
                        r@,
                    ).push(entry_of(dir@)));
                }
                r.push(PluginEntry { name, wasm_path });
            }
        }
        i = i + 1;
    }
    proof {
        assert(views(dirs@).subrange(0, dirs@.len() as int) =~= views(dirs@));
    }
    r
}

/// The plugins among the directories found, in a fixed order: sorted by
/// directory path, whatever order the directories were listed in.
pub fn load_order(dirs: Vec<String>) -> (r: Vec<PluginEntry>)
    ensures
        exists|sorted: Seq<String>|
            {
                &&& sorted.to_multiset() == dirs@.to_multiset()
                &&& forall|i: int, j: int|
                    0 <= i < j < sorted.len() ==> text_le(#[trigger] sorted[i]@, #[trigger] sorted[j]@)
                &&& entry_views(r@) == plugin_entries(views(sorted))
            },
{
    let mut sorted = dirs;
    sort_texts(&mut sorted);
    entries_in_order(&sorted)
}

/// Where a serialized record of `payload_len` bytes goes in a module memory
/// of `memory_size` bytes: at offset 0, when it fits and its length can be
/// passed as a 32-bit argument; nowhere otherwise.
pub fn write_plan(memory_size: usize, payload_len: usize) -> (r: Option<(u32, u32)>)
    ensures
        r == (if payload_len <= memory_size && payload_len <= u32::MAX {
            Some((0u32, payload_len as u32))
        } else {
            None::<(u32, u32)>
        }),
{
    if payload_len <= memory_size && payload_len <= 0xffff_ffffusize {
        Some((0, payload_len as u32))
    } else {
        None
    }
}

/// The bytes a module hands back through its callback: `len` bytes from
/// `ptr` in its memory, when they lie inside it.
pub fn read_callback(memory: &[u8], ptr: u32, len: u32) -> (r: Option<Vec<u8>>)
    ensures
        ptr as int + len as int <= memory@.len() ==> r is Some && r->0@ == memory@.subrange(
            ptr as int,
            ptr as int + len as int,
        ),
        ptr as int + len as int > memory@.len() ==> r is None,
{
    let start = ptr as usize;
    let n = len as usize;
    let size = memory.len();
    if start > size || n > size - start {
        return None;
    }
    let mut out: Vec<u8> = Vec::new();
    let mut i: usize = 0;
    while i < n
        invariant
            i <= n,
            size == memory@.len(),
            start + n <= size,
            out@ == memory@.subrange(start as int, start + i),
        decreases n - i,
    {
        out.push(memory[start + i]);
        proof {
            assert(memory@.subrange(start as int, start + i + 1) =~= memory@.subrange(
                start as int,
                start + i,
            ).push(memory@[start + i]));
        }
        i = i + 1;
    }
    Some(out)
}

/// What came of handing a record to one module.
#[derive(Debug)]
pub enum ModuleOutcome {
    /// The module lacks the transform entry or its memory, or the record did
    /// not fit in its memory; it was not called.
    Skipped,
    /// The call trapped or failed.
    Failed,
    /// The call returned without calling back.
    NoCallback,
    /// The module called back with bytes that are not a record.
    Malformed,
    /// The module called back with this record.
    Returned(MediaInfo),
}

/// The record after one module: what it returned, if it returned a record,
/// else the record it was given.
pub open spec fn after_module(record: MediaInfo, outcome: ModuleOutcome) -> MediaInfo {
    match outcome {
        ModuleOutcome::Returned(m) => m,
        _ => record,
    }
}

/// The record after modules with outcomes `outcomes`, in load order.
pub open spec fn after_modules(record: MediaInfo, outcomes: Seq<ModuleOutcome>) -> MediaInfo
    decreases outcomes.len(),
{
    if outcomes.len() == 0 {
        record
    } else {
        after_module(after_modules(record, outcomes.drop_last()), outcomes.last())
    }
}

/// One record on its way through the loaded modules.
#[derive(Debug)]
pub struct PluginRun {
    pub record: MediaInfo,
    pub next: usize,
    pub total: usize,
}

impl PluginRun {
    /// A record about to pass through `total` modules.
    pub fn new(record: MediaInfo, total: usize) -> (r: PluginRun)
        ensures
            r.record == record,
            r.next == 0,
            r.total == total,
    {
        PluginRun { record, next: 0, total }
    }

    /// Every module has had the record.
    pub fn is_done(&self) -> (r: bool)
        ensures
            r == (self.next >= self.total),
    {
        self.next >= self.total
    }

    /// Takes in what the next module made of the record: a returned record
    /// replaces it, anything else leaves it as it was.
    pub fn step(&mut self, outcome: ModuleOutcome)
        requires
            old(self).next < old(self).total,
        ensures
            final(self).next == old(self).next + 1,
            final(self).total == old(self).total,
            final(self).record == after_module(old(self).record, outcome),
    {
        match outcome {
            ModuleOutcome::Returned(m) => {
                self.record = m;
            },
            _ => {},
        }
        self.next = self.next + 1;
    }

    /// The record once it has passed through every module.
    pub fn finish(self) -> (r: MediaInfo)
        ensures
            r == self.record,
    {
        self.record
    }
}

/// The last record a module returned, if any did.
pub open spec fn last_returned(outcomes: Seq<ModuleOutcome>) -> Option<MediaInfo>
    decreases outcomes.len(),
{
    if outcomes.len() == 0 {
        None
    } else {
        match outcomes.last() {
            ModuleOutcome::Returned(m) => Some(m),
            _ => last_returned(outcomes.drop_last()),
        }
    }
}

/// Modules form a pipeline that keeps the last good value: after all of
/// them the record is the last one a module returned, or the one given where
/// none returned one. Failed, silent or malformed passes change nothing.
pub proof fn lemma_pipeline_keeps_last_good(record: MediaInfo, outcomes: Seq<ModuleOutcome>)
    ensures
        after_modules(record, outcomes) == match last_returned(outcomes) {
            Some(m) => m,
            None => record,
        },
    decreases outcomes.len(),
{
    if outcomes.len() > 0 {
        lemma_pipeline_keeps_last_good(record, outcomes.drop_last());
    }
}

} // verus!
