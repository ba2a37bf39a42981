use vstd::prelude::*;
use crate::cache::{file_name, file_name_of, starts_with};
use crate::document::str_eq;
use crate::error::{opt_view, ErrorFromRust};
use crate::schema::{has_unique_names, unique_names, Schema, SchemaView, SCHEMA_VERSION};

verus! {

/// Whether `s` starts with `p`.
pub fn str_starts_with(s: &str, p: &str) -> (r: bool)
    ensures
        r == starts_with(s@, p@),
{
    let n = s.unicode_len();
    let m = p.unicode_len();
    if m > n {
        return false;
    }
    let mut i: usize = 0;
    while i < m
        invariant
            n == s@.len(),
            m == p@.len(),
            m <= n,
            i <= m,
            s@.subrange(0, i as int) == p@.subrange(0, i as int),
        decreases m - i,
    {
        if s.get_char(i) != p.get_char(i) {
            proof {
                assert(s@.subrange(0, m as int)[i as int] != p@[i as int]);
            }
            return false;
        }
        proof {
            assert(s@.subrange(0, i as int + 1) =~= s@.subrange(0, i as int).push(s@[i as int]));
            assert(p@.subrange(0, i as int + 1) =~= p@.subrange(0, i as int).push(p@[i as int]));
        }
        i += 1;
    }
    proof {
        assert(p@.subrange(0, m as int) =~= p@);
    }
    true
}

/// The schemas found under the root folder, and the errors of those that
/// could not be loaded.
#[derive(Debug)]
pub struct SchemaLoadList {
    pub schemas: Vec<(String, Schema)>,
    pub error: Option<ErrorFromRust>,
}

/// The loaded schemas, each under the absolute path of the folder it governs.
pub struct SchemaRegistry {
    entries: Vec<(String, Schema)>,
}

impl SchemaRegistry {
    pub closed spec fn view(&self) -> Seq<(Seq<char>, SchemaView)> {
        Seq::new(self.entries@.len(), |i: int| (self.entries@[i].0@, self.entries@[i].1@))
    }

    /// The loaded schemas with their folder paths, in load order.
    pub fn loaded(&self) -> (r: &Vec<(String, Schema)>)
        ensures
            Seq::new(r@.len(), |i: int| (r@[i].0@, r@[i].1@)) == self.view(),
    {
        &self.entries
    }

    /// No two entries share a folder path.
    pub open spec fn wf(&self) -> bool {
        forall|i: int, j: int|
            0 <= i < self.view().len() && 0 <= j < self.view().len() && i != j ==> self.view()[i].0
                != self.view()[j].0
    }

    pub fn new() -> (r: Self)
        ensures
            r.wf(),
            r.view().len() == 0,
    {
        SchemaRegistry { entries: Vec::new() }
    }

    /// Stores `schema` under `path`, replacing the entry of that path if
    /// there is one.
    pub fn insert(&mut self, path: String, schema: Schema)
        requires
            old(self).wf(),
        ensures
            final(self).wf(),
            (exists|i: int| 0 <= i < old(self).view().len() && old(self).view()[i].0 == path@)
                ==> (exists|i: int|
                0 <= i < old(self).view().len() && old(self).view()[i].0 == path@
                    && final(self).view() == old(self).view().update(i, (path@, schema@))),
            !(exists|i: int| 0 <= i < old(self).view().len() && old(self).view()[i].0 == path@)
                ==> final(self).view() == old(self).view().push((path@, schema@)),
    {
        let n = self.entries.len();
        let mut i: usize = 0;
        while i < n
            invariant
                n == self.entries@.len(),
                i <= n,
                self == old(self),
                old(self).wf(),
                forall|j: int| 0 <= j < i ==> self.view()[j].0 != path@,
            decreases n - i,
        {
            if str_eq(self.entries[i].0.as_str(), path.as_str()) {
                let ghost before = self.view();
                self.entries.set(i, (path, schema));
                proof {
                    assert(self.view() =~= before.update(i as int, (path@, schema@)));
                    assert(before[i as int].0 == path@);
                    assert(before == old(self).view());
                    assert forall|a: int, b: int|
                        0 <= a < self.view().len() && 0 <= b < self.view().len() && a != b implies self.view()[a].0
                        != self.view()[b].0 by {
                        assert(self.view()[a].0 == before[a].0);
                        assert(self.view()[b].0 == before[b].0);
                        assert(old(self).wf());
                        assert(old(self).view()[a].0 != old(self).view()[b].0);
                    }
                }
                return;
            }
            i += 1;
        }
        let ghost before = self.view();
        self.entries.push((path, schema));
        proof {
            assert(self.view() =~= before.push((path@, schema@)));
            assert forall|a: int, b: int|
                0 <= a < self.view().len() && 0 <= b < self.view().len() && a != b implies self.view()[a].0
                != self.view()[b].0 by {
                if a < n && b < n {
                    assert(old(self).wf());
                }
            }
        }
    }

    /// The schema of the longest folder path that `path` starts with.
    pub fn get_schema_cached(&self, path: &str) -> (r: Option<&Schema>)
        ensures
            match r {
                None => forall|i: int|
                    0 <= i < self.view().len() ==> !starts_with(path@, #[trigger] self.view()[i].0),
                Some(s) => self.get_schema_cached_spec(path@, s@),
            },
    {
        let mut best: Option<usize> = None;
        let n = self.entries.len();
        let mut i: usize = 0;
        while i < n
            invariant
                n == self.entries@.len(),
                i <= n,
                match best {
                    None => forall|j: int|
                        0 <= j < i ==> !starts_with(path@, #[trigger] self.view()[j].0),
                    Some(b) => b < i && starts_with(path@, self.view()[b as int].0) && forall|j: int|
                        0 <= j < i && starts_with(path@, #[trigger] self.view()[j].0)
                            ==> self.view()[j].0.len() <= self.view()[b as int].0.len(),
                },
            decreases n - i,
        {
            if str_starts_with(path, self.entries[i].0.as_str()) {
                let better = match best {
                    None => true,
                    Some(b) => self.entries[i].0.unicode_len() > self.entries[b].0.unicode_len(),
                };
                if better {
                    best = Some(i);
                }
            }
            i += 1;
        }
        match best {
            None => None,
            Some(b) => {
                proof {
                    assert(self.view()[b as int].1 == self.entries@[b as int].1@);
                }
                Some(&self.entries[b].1)
            },
        }
    }

    /// The schema that governs `path`, or an error where none does.
    pub fn get_schema_cached_safe(&self, path: &str) -> (r: Result<&Schema, ErrorFromRust>)
        ensures
            match r {
                Ok(s) => self.get_schema_cached_spec(path@, s@),
                Err(e) => e.title@ == "Unable to retrieve schema"@ && opt_view(e.raw_error) == Some(
                    path@,
                ) && forall|i: int|
                    0 <= i < self.view().len() ==> !starts_with(path@, #[trigger] self.view()[i].0),
            },
    {
        match self.get_schema_cached(path) {
            Some(s) => Ok(s),
            None => Err(
                ErrorFromRust::new("Unable to retrieve schema").info(
                    "Unless you changed files manually this should not happen. Try restarting the app",
                ).raw(path),
            ),
        }
    }

    /// `s` is the schema of the longest folder path that `path` starts with.
    pub open spec fn get_schema_cached_spec(&self, path: Seq<char>, s: SchemaView) -> bool {
        exists|i: int|
            0 <= i < self.view().len() && starts_with(path, self.view()[i].0) && s
                == self.view()[i].1 && forall|j: int|
                0 <= j < self.view().len() && starts_with(path, #[trigger] self.view()[j].0)
                    ==> self.view()[j].0.len() <= self.view()[i].0.len()
    }

    /// The folder of the schema that governs `path`.
    pub fn get_schema_path(&self, path: &str) -> (r: Option<String>)
        ensures
            match r {
                Some(p) => exists|s: SchemaView| self.get_schema_cached_spec(path@, s) && p@ == s.internal_path,
                None => forall|i: int|
                    0 <= i < self.view().len() ==> !starts_with(path@, #[trigger] self.view()[i].0),
            },
    {
        match self.get_schema_cached(path) {
            Some(s) => Some(s.internal_path.clone()),
            None => None,
        }
    }

    /// The loaded schemas that declare at least one item, in load order.
    pub fn get_all_schemas_cached(&self) -> (r: Vec<&Schema>)
        ensures
            Seq::new(r@.len(), |i: int| r@[i]@) == self.view().map_values(
                |e: (Seq<char>, SchemaView)| e.1,
            ).filter(|s: SchemaView| s.items.len() > 0),
    {
        let mut out: Vec<&Schema> = Vec::new();
        let n = self.entries.len();
        let mut i: usize = 0;
        let ghost all = self.view().map_values(|e: (Seq<char>, SchemaView)| e.1);
        let ghost keep = |s: SchemaView| s.items.len() > 0;
        while i < n
            invariant
                n == self.entries@.len(),
                i <= n,
                all == self.view().map_values(|e: (Seq<char>, SchemaView)| e.1),
                keep == |s: SchemaView| s.items.len() > 0,
                Seq::new(out@.len(), |k: int| out@[k]@) == all.take(i as int).filter(keep),
            decreases n - i,
        {
            let ghost before = Seq::new(out@.len(), |k: int| out@[k]@);
            proof {
                assert(all.take(i as int + 1) =~= all.take(i as int).push(all[i as int]));
                all.take(i as int).lemma_filter_push(all[i as int], keep);
            }
            if self.entries[i].1.items.len() > 0 {
                out.push(&self.entries[i].1);
                proof {
                    assert(Seq::new(out@.len(), |k: int| out@[k]@) =~= before.push(all[i as int]));
                }
            } else {
                proof {
                    assert(Seq::new(out@.len(), |k: int| out@[k]@) =~= before);
                }
            }
            i += 1;
        }
        proof {
            assert(all.take(n as int) =~= all);
        }
        out
    }

    /// Registers a schema read from the folder at `folder_path`: its table
    /// prefix is the folder's name and its path the folder's path; an
    /// earlier schema of that folder is replaced.
    pub fn load_schema(&mut self, folder_path: &str, parsed: Schema) -> (r: Result<(), ErrorFromRust>)
        requires
            old(self).wf(),
        ensures
            final(self).wf(),
            file_name_of(folder_path@) is None ==> r is Err && final(self).view() == old(self).view(),
            file_name_of(folder_path@) matches Some(base) ==> r is Ok && exists|i: int|
                0 <= i < final(self).view().len() && final(self).view()[i].0 == folder_path@
                    && final(self).view()[i].1 == (SchemaView {
                    internal_name: base,
                    internal_path: folder_path@,
                    ..parsed@
                }),
    {
        let base = match file_name(folder_path) {
            Some(b) => b,
            None => {
                return Err(
                    ErrorFromRust::new("Unable to get basename from schema path").info(
                        "This is super unexpected, maybe you are using symlinks? Please report bug.",
                    ),
                );
            },
        };
        let mut sch = parsed;
        sch.internal_name = base;
        sch.internal_path = String::from_str(folder_path);
        let ghost sv = sch@;
        self.insert(String::from_str(folder_path), sch);
        proof {
            if exists|i: int| 0 <= i < old(self).view().len() && old(self).view()[i].0 == folder_path@ {
                let i = choose|i: int|
                    0 <= i < old(self).view().len() && old(self).view()[i].0 == folder_path@ && self.view()
                        == old(self).view().update(i, (folder_path@, sv));
                assert(self.view()[i].1 == sv);
            } else {
                assert(self.view()[old(self).view().len() as int] == (folder_path@, sv));
            }
        }
        Ok(())
    }

    /// Stores a schema that was just written to the folder at `folder_path`.
    pub fn save_schema(&mut self, folder_path: &str, schema: Schema)
        requires
            old(self).wf(),
        ensures
            final(self).wf(),
            exists|i: int|
                0 <= i < final(self).view().len() && final(self).view()[i] == (folder_path@, schema@),
    {
        let ghost sv = schema@;
        self.insert(String::from_str(folder_path), schema);
        proof {
            if exists|i: int| 0 <= i < old(self).view().len() && old(self).view()[i].0 == folder_path@ {
                let i = choose|i: int|
                    0 <= i < old(self).view().len() && old(self).view()[i].0 == folder_path@ && self.view()
                        == old(self).view().update(i, (folder_path@, sv));
                assert(self.view()[i] == (folder_path@, sv));
            } else {
                assert(self.view()[old(self).view().len() as int] == (folder_path@, sv));
            }
        }
    }
}

/// A schema as it is written to disk: stamped with the current version.
/// A schema that declares two items of one name is refused.
pub fn prepare_schema_for_save(schema: Schema) -> (r: Result<Schema, ErrorFromRust>)
    ensures
        match r {
            Ok(s) => unique_names(schema@.items) && s@ == (SchemaView { version: SCHEMA_VERSION@, ..schema@ }),
            Err(e) => !unique_names(schema@.items),
        },
{
    if !has_unique_names(&schema.items) {
        return Err(
            ErrorFromRust::new("Error serializing schema").info(
                "Two attributes of the schema have the same name",
            ),
        );
    }
    let mut s = schema;
    s.version = String::from_str(SCHEMA_VERSION);
    Ok(s)
}

} // verus!
