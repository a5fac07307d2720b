//! The files of a compilation and the report of its errors and warnings.
use vstd::prelude::*;
use crate::errors::{
    CompilerError, CompilerErrorView, CompilerWarning, Span, error_message, error_span,
    error_suggestions, strings_view,
};

verus! {

/// A source file of the compilation.
#[derive(Debug, Clone)]
pub struct File {
    pub id: usize,
    /// The file's path, e.g. `src/main.quik`.
    pub name: String,
    /// The source code.
    pub source: String,
}

/// What a project's `Package.toml` holds, as read from disk.
#[derive(Debug, Clone)]
pub struct PackageMetadata {
    pub manifest: String,
}

/// All files of a compilation. A file's id is its position: the n-th file added has id n.
#[derive(Debug, Clone)]
pub struct FileStore {
    pub root_dir: String,
    pub files: Vec<File>,
    pub next_id: usize,
    pub project_metadata: Option<PackageMetadata>,
}

impl FileStore {
    /// The files in the order they were added.
    pub open spec fn files_view(&self) -> Seq<File> {
        self.files@
    }

    /// Ids are positions, and the next id is the number of files.
    pub open spec fn wf(&self) -> bool {
        &&& self.next_id == self.files@.len()
        &&& forall|i: int| 0 <= i < self.files@.len() ==> #[trigger] self.files@[i].id == i
    }

    /// Whether a file with this id is in the store.
    pub open spec fn has_file(&self, id: int) -> bool {
        0 <= id < self.files_view().len()
    }

    /// Creates an empty file store.
    pub fn new() -> (r: Self)
        ensures
            r.wf(),
            r.files_view() == Seq::<File>::empty(),
            r.root_dir@ == Seq::<char>::empty(),
            r.project_metadata is None,
    {
        FileStore { root_dir: String::new(), files: Vec::new(), next_id: 0, project_metadata: None }
    }

    /// Adds a file and returns its id, which is the number of files already there.
    pub fn add_file(&mut self, name: String, source: String) -> (id: usize)
        requires
            old(self).wf(),
            old(self).files_view().len() < usize::MAX,
        ensures
            final(self).wf(),
            id == old(self).files_view().len(),
            final(self).files_view() == old(self).files_view().push(File { id, name, source }),
            final(self).root_dir == old(self).root_dir,
            final(self).project_metadata == old(self).project_metadata,
    {
        let id = self.next_id;
        self.next_id = self.next_id + 1;
        self.files.push(File { id, name, source });
        id
    }

    /// The file with this id, if there is one.
    pub fn get_file(&self, id: usize) -> (r: Option<&File>)
        requires
            self.wf(),
        ensures
            r matches Some(f) ==> self.has_file(id as int) && *f == self.files_view()[id as int],
            r is None <==> !self.has_file(id as int),
    {
        if id < self.files.len() {
            Some(&self.files[id])
        } else {
            None
        }
    }

    /// The first file (lowest id) with this name, if there is one.
    pub fn get_file_by_name(&self, name: &str) -> (r: Option<&File>)
        requires
            self.wf(),
        ensures
            r matches Some(f) ==> exists|i: int|
                0 <= i < self.files_view().len() && *f == self.files_view()[i] && f.name@ == name@
                    && forall|j: int| 0 <= j < i ==> (#[trigger] self.files_view()[j]).name@ != name@,
            r is None <==> forall|j: int|
                0 <= j < self.files_view().len() ==> (#[trigger] self.files_view()[j]).name@ != name@,
    {
        let wanted = name.to_owned();
        let mut i: usize = 0;
        while i < self.files.len()
            invariant
                i <= self.files@.len(),
                wanted@ == name@,
                forall|j: int| 0 <= j < i ==> (#[trigger] self.files@[j]).name@ != name@,
            decreases self.files.len() - i,
        {
            if self.files[i].name == wanted {
                assert(self.files_view()[i as int].name@ == name@);
                assert(forall|j: int| 0 <= j < i ==> (#[trigger] self.files_view()[j]).name@ != name@);
                return Some(&self.files[i]);
            }
            i = i + 1;
        }
        None
    }

    /// All files, in the order they were added.
    pub fn files(&self) -> (r: &[File])
        ensures
            r@ == self.files_view(),
    {
        self.files.as_slice()
    }

    /// Records a project: its metadata, its source files in the given order, and its directory.
    pub fn add_project_files(
        &mut self,
        project_dir: String,
        project_metadata: PackageMetadata,
        sources: Vec<(String, String)>,
    )
        requires
            old(self).wf(),
            old(self).files_view().len() + sources@.len() < usize::MAX,
        ensures
            final(self).wf(),
            final(self).files_view().len() == old(self).files_view().len() + sources@.len(),
            forall|i: int| 0 <= i < old(self).files_view().len() ==> #[trigger] final(self).files_view()[i] == old(self).files_view()[i],
            forall|k: int| 0 <= k < sources@.len() ==> {
                let f = #[trigger] final(self).files_view()[old(self).files_view().len() + k];
                &&& f.id == old(self).files_view().len() + k
                &&& f.name == sources@[k].0
                &&& f.source == sources@[k].1
            },
            final(self).root_dir == project_dir,
            final(self).project_metadata == Some(project_metadata),
    {
        self.project_metadata = Some(project_metadata);
        let ghost start = self.files@;
        let n = sources.len();
        let mut rest = sources;
        let mut k: usize = 0;
        while k < n
            invariant
                self.wf(),
                k <= n,
                n == sources@.len(),
                rest@ == sources@.skip(k as int),
                self.files@.len() == start.len() + k,
                start.len() + n < usize::MAX,
                forall|i: int| 0 <= i < start.len() ==> #[trigger] self.files@[i] == start[i],
                forall|j: int| 0 <= j < k ==> {
                    let f = #[trigger] self.files@[start.len() + j];
                    &&& f.id == start.len() + j
                    &&& f.name == sources@[j].0
                    &&& f.source == sources@[j].1
                },
                self.project_metadata == Some(project_metadata),
            decreases n - k,
        {
            let (name, source) = rest.remove(0);
            assert(sources@[k as int] == (name, source));
            self.add_file(name, source);
            k = k + 1;
            assert(rest@ =~= sources@.skip(k as int));
        }
        self.root_dir = project_dir;
    }
}

/// A file added to a store is found by the id it was given, with its name
/// and source, and every file already there keeps its id.
pub proof fn law_added_file_is_found(before: FileStore, after: FileStore, id: usize, name: String, source: String)
    requires
        before.wf(),
        after.wf(),
        id == before.files_view().len(),
        after.files_view() == before.files_view().push(File { id, name, source }),
    ensures
        after.has_file(id as int),
        after.files_view()[id as int].name == name,
        after.files_view()[id as int].source == source,
        after.files_view()[id as int].id == id,
        forall|i: int| 0 <= i < before.files_view().len() ==> #[trigger] after.files_view()[i] == before.files_view()[i],
{
}

/// The files of a store built by `FileStore::new` followed by adding each
/// `(name, source)` of `adds` in turn: the i-th addition is file `i`.
pub open spec fn files_from(adds: Seq<(String, String)>) -> Seq<File> {
    Seq::new(adds.len(), |i: int| File { id: i as usize, name: adds[i].0, source: adds[i].1 })
}

/// A new store holds the files of no additions.
pub proof fn law_new_store_has_no_history()
    ensures
        files_from(Seq::empty()) == Seq::<File>::empty(),
{
    assert(files_from(Seq::empty()) =~= Seq::<File>::empty());
}

/// Adding a file to a store that holds the files of `adds` (which is what
/// `add_file` does) leaves a store that holds the files of `adds` followed
/// by the new one.
pub proof fn law_add_file_extends_history(
    before: FileStore,
    after: FileStore,
    adds: Seq<(String, String)>,
    id: usize,
    name: String,
    source: String,
)
    requires
        before.files_view() == files_from(adds),
        id == before.files_view().len(),
        after.files_view() == before.files_view().push(File { id, name, source }),
    ensures
        after.files_view() == files_from(adds.push((name, source))),
{
    assert(after.files_view() =~= files_from(adds.push((name, source))));
}

/// In a store that holds the files of `adds`, the id `i` handed out by the
/// i-th addition names the file of that addition, unchanged by the additions
/// after it, and an id no addition handed out names no file; `get_file`
/// returns exactly this.
pub proof fn law_get_file_over_history(store: FileStore, adds: Seq<(String, String)>, id: int)
    requires
        store.files_view() == files_from(adds),
    ensures
        0 <= id < adds.len() ==> store.has_file(id)
            && store.files_view()[id] == (File { id: id as usize, name: adds[id].0, source: adds[id].1 }),
        !(0 <= id < adds.len()) ==> !store.has_file(id),
{
}

/// Ids are stable: a file keeps its id, name and source however many files
/// are added after it; the ids in use are exactly those handed out so far,
/// `0` up to the next id; and an id that was never handed out names no file.
pub proof fn law_file_ids_are_stable(before: FileStore, after: FileStore, added: Seq<File>, id: int)
    requires
        before.wf(),
        after.wf(),
        after.files_view() == before.files_view() + added,
    ensures
        before.has_file(id) ==> after.has_file(id) && after.files_view()[id] == before.files_view()[id],
        after.has_file(id) <==> 0 <= id < after.next_id,
        after.has_file(id) ==> after.files_view()[id].id == id,
        !(0 <= id < after.next_id) ==> !after.has_file(id),
{
}

/// A file added under a name that no file had before is the first file
/// with that name: looking the name up finds it.
pub proof fn law_added_name_is_found_first(before: FileStore, after: FileStore, id: usize, name: String, source: String)
    requires
        before.wf(),
        id == before.files_view().len(),
        after.files_view() == before.files_view().push(File { id, name, source }),
        forall|j: int| 0 <= j < before.files_view().len() ==> (#[trigger] before.files_view()[j]).name@ != name@,
    ensures
        after.files_view()[id as int].name@ == name@,
        forall|j: int| 0 <= j < id ==> (#[trigger] after.files_view()[j]).name@ != name@,
{
    assert forall|j: int| 0 <= j < id implies (#[trigger] after.files_view()[j]).name@ != name@ by {
        assert(after.files_view()[j] == before.files_view()[j]);
    }
}

impl Default for FileStore {
    fn default() -> (r: Self)
        ensures
            r.wf(),
            r.files_view() == Seq::<File>::empty(),
    {
        FileStore::new()
    }
}

/// A diagnostic ready to be shown: its message, the source range it points
/// at (shown with the label "here"), and its notes in order.
#[derive(Debug, Clone)]
pub struct DiagnosticPlan {
    pub message: String,
    pub label: Option<Span>,
    pub notes: Vec<String>,
}

/// The errors and warnings of a compilation, with its files.
#[derive(Debug)]
pub struct CompilationReport {
    pub errors: Vec<CompilerError>,
    pub warnings: Vec<CompilerWarning>,
    pub file_store: FileStore,
}

/// How an error is shown: its label when its span points into a known file,
/// a note that says why there is none otherwise, then its suggestions.
pub open spec fn plan_label(e: CompilerErrorView, store: FileStore) -> Option<Span> {
    if store.has_file(error_span(e).file_id as int) {
        Some(error_span(e))
    } else {
        None
    }
}

pub open spec fn plan_notes(e: CompilerErrorView, store: FileStore) -> Seq<Seq<char>> {
    if store.has_file(error_span(e).file_id as int) {
        error_suggestions(e)
    } else {
        seq!["File ID not recognized."@] + error_suggestions(e)
    }
}

impl CompilationReport {
    /// An empty report over the given files.
    pub fn new(file_store: FileStore) -> (r: Self)
        ensures
            r.errors@ == Seq::<CompilerError>::empty(),
            r.warnings@ == Seq::<CompilerWarning>::empty(),
            r.file_store == file_store,
    {
        CompilationReport { errors: Vec::new(), warnings: Vec::new(), file_store }
    }

    /// Records an error after those already recorded.
    pub fn add_error(&mut self, error: CompilerError)
        ensures
            final(self).errors@ == old(self).errors@.push(error),
            final(self).warnings == old(self).warnings,
            final(self).file_store == old(self).file_store,
    {
        self.errors.push(error);
    }

    /// Records a warning after those already recorded.
    pub fn add_warning(&mut self, warning: CompilerWarning)
        ensures
            final(self).warnings@ == old(self).warnings@.push(warning),
            final(self).errors == old(self).errors,
            final(self).file_store == old(self).file_store,
    {
        self.warnings.push(warning);
    }

    /// Whether any error has been recorded.
    pub fn has_errors(&self) -> (r: bool)
        ensures
            r == (self.errors@.len() > 0),
    {
        !self.errors.is_empty()
    }

    /// The diagnostics to show for the recorded errors, one per error, in order.
    pub fn diagnostics(&self) -> (r: Vec<DiagnosticPlan>)
        requires
            self.file_store.wf(),
        ensures
            r@.len() == self.errors@.len(),
            forall|i: int| 0 <= i < r@.len() ==> {
                let e = #[trigger] self.errors@[i]@;
                &&& r@[i].message@ == error_message(e)
                &&& r@[i].label == plan_label(e, self.file_store)
                &&& strings_view(r@[i].notes@) == plan_notes(e, self.file_store)
            },
    {
        let mut out: Vec<DiagnosticPlan> = Vec::new();
        let mut i: usize = 0;
        while i < self.errors.len()
            invariant
                i <= self.errors@.len(),
                self.file_store.wf(),
                out@.len() == i,
                forall|j: int| 0 <= j < i ==> {
                    let e = #[trigger] self.errors@[j]@;
                    &&& out@[j].message@ == error_message(e)
                    &&& out@[j].label == plan_label(e, self.file_store)
                    &&& strings_view(out@[j].notes@) == plan_notes(e, self.file_store)
                },
            decreases self.errors.len() - i,
        {
            let d = plan_diagnostic(&self.errors[i], &self.file_store);
            out.push(d);
            i = i + 1;
        }
        out
    }
}

fn plan_diagnostic(error: &CompilerError, store: &FileStore) -> (d: DiagnosticPlan)
    requires
        store.wf(),
    ensures
        d.message@ == error_message(error@),
        d.label == plan_label(error@, *store),
        strings_view(d.notes@) == plan_notes(error@, *store),
{
    let message = error.message();
    let mut notes: Vec<String> = Vec::new();
    let mut label: Option<Span> = None;
    match error.span() {
        Some(span) => {
            if store.get_file(span.file_id).is_some() {
                label = Some(span);
            } else {
                notes.push("File ID not recognized.".to_owned());
            }
        },
        None => {
            notes.push("No location information available.".to_owned());
        },
    }
    let ghost before = notes@;
    let mut suggestions = error.suggestions();
    if suggestions.len() > 0 {
        notes.append(&mut suggestions);
    }
    assert(strings_view(notes@) =~= plan_notes(error@, *store));
    DiagnosticPlan { message, label, notes }
}

/// A report holds an error once one has been added, and the errors already
/// there stay, in order, before it.
pub proof fn law_added_error_is_reported(before: CompilationReport, after: CompilationReport, error: CompilerError)
    requires
        after.errors@ == before.errors@.push(error),
    ensures
        after.errors@.len() > 0,
        after.errors@.last() == error,
        after.errors@.subrange(0, before.errors@.len() as int) == before.errors@,
{
    assert(after.errors@.subrange(0, before.errors@.len() as int) =~= before.errors@);
}

impl Default for CompilationReport {
    fn default() -> (r: Self)
        ensures
            r.errors@ == Seq::<CompilerError>::empty(),
            r.warnings@ == Seq::<CompilerWarning>::empty(),
            r.file_store.wf(),
            r.file_store.files_view() == Seq::<File>::empty(),
    {
        CompilationReport::new(FileStore::new())
    }
}

} // verus!
