//! Loading a policy together with the policies it extends: which file to read
//! next, and how the tables merge. Reading and parsing the files is left to
//! the caller, who reports each table back.
use vstd::prelude::*;
use super::value::{TableData, TomlTable};
use super::merge::{merge_data, merge_tables};
use super::read::views;

verus! {

/// A policy file whose parents are being merged: its path, its own table, the
/// paths of the policies it extends, how many of them have been taken, and
/// the merge of those taken so far.
#[derive(Debug)]
pub struct LoadFrame {
    pub path: String,
    pub table: TomlTable,
    pub parents: Vec<String>,
    pub next: usize,
    pub merged: TomlTable,
}

/// The mathematical content of a [`LoadFrame`].
pub struct FrameData {
    pub path: Seq<char>,
    pub table: TableData,
    pub parents: Seq<Seq<char>>,
    pub next: int,
    pub merged: TableData,
}

impl LoadFrame {
    pub open spec fn data(&self) -> FrameData {
        FrameData {
            path: self.path@,
            table: self.table@,
            parents: views(self.parents@),
            next: self.next as int,
            merged: self.merged@,
        }
    }
}

/// The files being loaded, from the one first asked for to the one most
/// recently read.
#[derive(Debug)]
pub struct ExtendsLoad {
    pub frames: Vec<LoadFrame>,
}

pub open spec fn frames_data(fs: Seq<LoadFrame>) -> Seq<FrameData> {
    fs.map_values(|f: LoadFrame| f.data())
}

impl ExtendsLoad {
    pub open spec fn data(&self) -> Seq<FrameData> {
        frames_data(self.frames@)
    }
}

/// What the caller is to do next.
#[derive(Debug)]
pub enum LoadStep {
    /// Read and parse the policy file at this path and report it with `loaded`.
    Read(String),
    /// Nothing to read: take the next step.
    Continue,
    /// All files are merged: the resulting table.
    Done(TomlTable),
}

pub enum StepData {
    Read(Seq<char>),
    Continue,
    Done(TableData),
}

impl LoadStep {
    pub open spec fn data(&self) -> StepData {
        match self {
            LoadStep::Read(p) => StepData::Read(p@),
            LoadStep::Continue => StepData::Continue,
            LoadStep::Done(t) => StepData::Done(t@),
        }
    }
}

/// Some file along the chain is at `p`.
pub open spec fn is_open(fs: Seq<FrameData>, p: Seq<char>) -> bool {
    exists|i: int| 0 <= i < fs.len() && (#[trigger] fs[i]).path == p
}

/// One step on the chain `fs`: the newest file takes its next parent, which
/// is to be read unless it is open along the chain already (a file that
/// extends itself, directly or not, adds nothing). When it has taken all of
/// them, its own table is merged over its parents and the file is closed; the
/// result merges into the file below it, or is the final result.
pub open spec fn step_spec(fs: Seq<FrameData>) -> (Seq<FrameData>, StepData) {
    let top = fs.last();
    if top.next < top.parents.len() {
        let p = top.parents[top.next];
        let moved = fs.update(fs.len() - 1, FrameData { next: top.next + 1, ..top });
        if is_open(fs, p) {
            (moved, StepData::Continue)
        } else {
            (moved, StepData::Read(p))
        }
    } else {
        let result = merge_data(top.merged, top.table);
        let rest = fs.drop_last();
        if rest.len() == 0 {
            (rest, StepData::Done(result))
        } else {
            let below = rest.last();
            (rest.update(rest.len() - 1, FrameData { merged: merge_data(below.merged, result), ..below }), StepData::Continue)
        }
    }
}

impl ExtendsLoad {
    /// Loading the policy at `path`: the first thing to do is to read it.
    pub fn start(path: &str) -> (r: (ExtendsLoad, LoadStep))
        ensures
            r.0.data() == Seq::<FrameData>::empty(),
            r.1.data() == StepData::Read(path@),
    {
        let load = ExtendsLoad { frames: Vec::new() };
        assert(load.data() =~= Seq::<FrameData>::empty());
        (load, LoadStep::Read(String::from_str(path)))
    }

    /// The file at `path` was read: its table, and the paths of the policies
    /// it extends, in order. It becomes the newest file of the chain, with
    /// nothing merged yet.
    pub fn loaded(&mut self, path: String, table: TomlTable, parents: Vec<String>)
        ensures
            final(self).data() == old(self).data().push(
                FrameData {
                    path: path@,
                    table: table@,
                    parents: views(parents@),
                    next: 0,
                    merged: Seq::empty(),
                },
            ),
    {
        let ghost before = self.data();
        let f = LoadFrame { path, table, parents, next: 0, merged: TomlTable::new() };
        self.frames.push(f);
        assert(self.data() =~= before.push(f.data()));
    }

    /// The next step; see [`step_spec`].
    pub fn step(&mut self) -> (r: LoadStep)
        requires
            old(self).data().len() > 0,
        ensures
            (final(self).data(), r.data()) == step_spec(old(self).data()),
    {
        let ghost fs = self.data();
        let last = self.frames.len() - 1;
        assert(fs[last as int] == self.frames@[last as int].data());
        if self.frames[last].next < self.frames[last].parents.len() {
            let p = self.frames[last].parents[self.frames[last].next].clone();
            let open = self.is_open_exec(p.as_str());
            let mut top = self.frames.pop().unwrap();
            top.next = top.next + 1;
            self.frames.push(top);
            assert(self.data() =~= fs.update(last as int, FrameData { next: fs.last().next + 1, ..fs.last() }));
            if open {
                LoadStep::Continue
            } else {
                LoadStep::Read(p)
            }
        } else {
            let top = self.frames.pop().unwrap();
            let mut result = top.merged;
            merge_tables(&mut result, &top.table);
            assert(self.data() =~= fs.drop_last());
            if self.frames.len() == 0 {
                LoadStep::Done(result)
            } else {
                let ghost rest = self.data();
                let mut below = self.frames.pop().unwrap();
                merge_tables(&mut below.merged, &result);
                self.frames.push(below);
                assert(self.data() =~= rest.update(
                    rest.len() - 1,
                    FrameData { merged: merge_data(rest.last().merged, result@), ..rest.last() },
                ));
                LoadStep::Continue
            }
        }
    }

    fn is_open_exec(&self, p: &str) -> (r: bool)
        ensures
            r == is_open(self.data(), p@),
    {
        let ghost fs = self.data();
        let mut i: usize = 0;
        while i < self.frames.len()
            invariant
                i <= self.frames@.len(),
                fs == self.data(),
                forall|j: int| 0 <= j < i ==> (#[trigger] fs[j]).path != p@,
            decreases self.frames.len() - i,
        {
            assert(fs[i as int] == self.frames@[i as int].data());
            if super::value::str_eq(self.frames[i].path.as_str(), p) {
                return true;
            }
            i = i + 1;
        }
        false
    }
}

} // verus!
