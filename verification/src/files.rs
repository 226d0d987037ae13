//! The registry of files that the editor has opened, the choice of the
//! files that a save writes, and the decisions of the open-file dialog.

use vstd::prelude::*;

verus! {

/// One file that was opened, and whether a save writes to it.
#[derive(Debug, Clone)]
pub struct OpenFile {
    pub file_path: String,
    pub current_file: bool,
}

/// The files opened so far, in the order in which they were opened.
#[derive(Debug, Clone)]
pub struct FileState {
    pub open_files: Vec<OpenFile>,
}

/// One write of a save: the whole text goes to the file at `path` and
/// replaces what the file held.
#[derive(Debug, Clone)]
pub struct FileWrite {
    pub path: String,
    pub contents: String,
}

/// What happened in the open-file dialog during one frame.
#[derive(Debug, Clone)]
pub enum DialogEvent {
    /// No button was pressed.
    Idle,
    /// The cancel button was pressed.
    Cancelled,
    /// The browse button was pressed and the file picker closed without a
    /// choice.
    Dismissed,
    /// A file was chosen and could not be read.
    ReadFailed,
    /// A file was chosen and read.
    Opened { path: String, content: String },
}

/// An entry of the registry as a value: its path, and whether it is
/// active.
pub type Entry = (Seq<char>, bool);

impl View for OpenFile {
    type V = Entry;

    open spec fn view(&self) -> Entry {
        (self.file_path@, self.current_file)
    }
}

impl View for FileState {
    type V = Seq<Entry>;

    open spec fn view(&self) -> Seq<Entry> {
        self.open_files@.map_values(|file: OpenFile| file@)
    }
}

impl View for FileWrite {
    type V = (Seq<char>, Seq<char>);

    open spec fn view(&self) -> (Seq<char>, Seq<char>) {
        (self.path@, self.contents@)
    }
}

/// The paths of the active entries, in registry order.
pub open spec fn active_paths(entries: Seq<Entry>) -> Seq<Seq<char>> {
    entries.filter(|entry: Entry| entry.1).map_values(|entry: Entry| entry.0)
}

/// The same entries, none of them active.
pub open spec fn deactivated(entries: Seq<Entry>) -> Seq<Entry> {
    entries.map_values(|entry: Entry| (entry.0, false))
}

/// The registry after `path` was recorded: the entries recorded before are
/// kept, inactive, and `path` is added as the active one.
pub open spec fn opened(entries: Seq<Entry>, path: Seq<char>) -> Seq<Entry> {
    deactivated(entries).push((path, true))
}

/// The writes of a save of `text`: one for each active path, in registry
/// order, each with the whole text.
pub open spec fn save_plan(entries: Seq<Entry>, text: Seq<char>) -> Seq<(Seq<char>, Seq<char>)> {
    active_paths(entries).map_values(|path: Seq<char>| (path, text))
}

/// Each write as a pair of path and contents.
pub open spec fn write_texts(writes: Seq<FileWrite>) -> Seq<(Seq<char>, Seq<char>)> {
    writes.map_values(|write: FileWrite| write@)
}

/// The text of each path.
pub open spec fn path_texts(paths: Seq<String>) -> Seq<Seq<char>> {
    paths.map_values(|path: String| path@)
}

/// Adding one entry adds its path to the active paths when it is active,
/// and leaves them as they were when it is not.
pub proof fn lemma_active_paths_push(entries: Seq<Entry>, entry: Entry)
    ensures
        active_paths(entries.push(entry)) == if entry.1 {
            active_paths(entries).push(entry.0)
        } else {
            active_paths(entries)
        },
{
    reveal(Seq::filter);
    let is_active = |entry: Entry| entry.1;
    let longer = entries.push(entry);
    assert(longer.drop_last() =~= entries);
    assert(longer.filter(is_active) == if entry.1 {
        entries.filter(is_active).push(entry)
    } else {
        entries.filter(is_active)
    });
    if entry.1 {
        assert(active_paths(longer) =~= active_paths(entries).push(entry.0));
    }
}

/// No entry of a deactivated registry is active.
pub proof fn lemma_deactivated_has_no_active(entries: Seq<Entry>)
    ensures
        active_paths(deactivated(entries)) == Seq::<Seq<char>>::empty(),
    decreases entries.len(),
{
    reveal(Seq::filter);
    if entries.len() == 0 {
        assert(deactivated(entries) =~= Seq::<Entry>::empty());
        assert(active_paths(deactivated(entries)) =~= Seq::<Seq<char>>::empty());
    } else {
        let rest = entries.drop_last();
        let last = (entries.last().0, false);
        lemma_deactivated_has_no_active(rest);
        assert(deactivated(entries) =~= deactivated(rest).push(last));
        lemma_active_paths_push(deactivated(rest), last);
    }
}

/// A file that was just recorded is the only active one, whatever the
/// registry held before, and a save writes to it alone.
pub proof fn lemma_opened_is_only_active(entries: Seq<Entry>, path: Seq<char>, text: Seq<char>)
    ensures
        active_paths(opened(entries, path)) == seq![path],
        save_plan(opened(entries, path), text) == seq![(path, text)],
{
    lemma_deactivated_has_no_active(entries);
    lemma_active_paths_push(deactivated(entries), (path, true));
    assert(Seq::<Seq<char>>::empty().push(path) =~= seq![path]);
    assert(seq![path].map_values(|path: Seq<char>| (path, text)) =~= seq![(path, text)]);
}

impl FileState {
    /// A registry that tracks no file.
    pub fn new() -> (state: Self)
        ensures
            state@ == Seq::<Entry>::empty(),
    {
        let state = Self { open_files: Vec::new() };
        assert(state@ =~= Seq::<Entry>::empty());
        state
    }

    /// Records `path` as the file that was opened last, which makes it
    /// the only active file: the entries recorded before keep their paths
    /// and their order and become inactive. A path recorded before is
    /// recorded again.
    pub fn insert_file(&mut self, path: String)
        ensures
            final(self)@ == opened(old(self)@, path@),
            active_paths(final(self)@) == seq![path@],
    {
        self.deactivate_all();
        let ghost earlier = self@;
        self.open_files.push(OpenFile { file_path: path, current_file: true });
        proof {
            assert(self@ =~= earlier.push((path@, true)));
            lemma_opened_is_only_active(old(self)@, path@, Seq::<char>::empty());
        }
    }

    /// Marks every entry inactive. The paths and their order stay.
    pub fn deactivate_all(&mut self)
        ensures
            final(self)@ == deactivated(old(self)@),
    {
        let mut i: usize = 0;
        while i < self.open_files.len()
            invariant
                i <= self.open_files@.len(),
                self.open_files@.len() == old(self).open_files@.len(),
                forall|j: int|
                    0 <= j < i ==> (#[trigger] self.open_files@[j])@ == (
                        old(self).open_files@[j].file_path@,
                        false,
                    ),
                forall|j: int|
                    i <= j < self.open_files@.len() ==> #[trigger] self.open_files@[j] == old(
                        self,
                    ).open_files@[j],
            decreases self.open_files@.len() - i,
        {
            self.open_files[i].current_file = false;
            i += 1;
        }
        assert(self@ =~= deactivated(old(self)@));
    }

    /// The paths of the active files, in the order in which they were
    /// opened.
    pub fn active_files(&self) -> (paths: Vec<String>)
        ensures
            path_texts(paths@) == active_paths(self@),
    {
        let mut paths: Vec<String> = Vec::new();
        let mut i: usize = 0;
        assert(self@.take(0) =~= Seq::<Entry>::empty());
        assert(path_texts(paths@) =~= active_paths(self@.take(0))) by {
            reveal(Seq::filter);
        }
        while i < self.open_files.len()
            invariant
                i <= self.open_files@.len(),
                self@.len() == self.open_files@.len(),
                path_texts(paths@) == active_paths(self@.take(i as int)),
            decreases self.open_files@.len() - i,
        {
            let ghost before = paths@;
            let file = &self.open_files[i];
            if file.current_file {
                paths.push(file.file_path.clone());
            }
            proof {
                lemma_active_paths_push(self@.take(i as int), file@);
                assert(self@.take(i + 1) =~= self@.take(i as int).push(file@));
                if file.current_file {
                    assert(path_texts(paths@) =~= path_texts(before).push(file.file_path@));
                }
            }
            i += 1;
        }
        assert(self@.take(i as int) =~= self@);
        paths
    }
}

/// Plans a save of `text_body`: one write for each active file of the
/// registry, in registry order, each carrying the whole text. The writes
/// are independent of each other; a registry without an active file gives
/// no write.
pub fn save_current_file(file_state: &FileState, text_body: &String) -> (writes: Vec<FileWrite>)
    ensures
        write_texts(writes@) == save_plan(file_state@, text_body@),
{
    let paths = file_state.active_files();
    let mut writes: Vec<FileWrite> = Vec::new();
    let mut i: usize = 0;
    while i < paths.len()
        invariant
            i <= paths@.len(),
            writes@.len() == i,
            forall|j: int|
                0 <= j < i ==> (#[trigger] writes@[j])@ == (paths@[j]@, text_body@),
        decreases paths@.len() - i,
    {
        writes.push(FileWrite { path: paths[i].clone(), contents: text_body.clone() });
        i += 1;
    }
    assert(write_texts(writes@) =~= path_texts(paths@).map_values(
        |path: Seq<char>| (path, text_body@),
    ));
    writes
}

/// Applies one frame of the open-file dialog to the editor's state and
/// returns the new text of the document, if a file was opened.
///
/// Any button closes the dialog; without one it stays as it was. A file
/// that was chosen and read becomes the only active file of the registry,
/// and its content is returned. In every other case the registry is left
/// as it was and no text is returned.
pub fn open_file_modal(event: DialogEvent, show_modal: &mut bool, file_state: &mut FileState) -> (text_body:
    Option<String>)
    ensures
        *final(show_modal) == (event is Idle && *old(show_modal)),
        match event {
            DialogEvent::Opened { path, content } => final(file_state)@ == opened(
                old(file_state)@,
                path@,
            ) && text_body == Some(content),
            _ => *final(file_state) == *old(file_state) && text_body is None,
        },
{
    match event {
        DialogEvent::Idle => None,
        DialogEvent::Cancelled | DialogEvent::Dismissed | DialogEvent::ReadFailed => {
            *show_modal = false;
            None
        },
        DialogEvent::Opened { path, content } => {
            file_state.insert_file(path);
            *show_modal = false;
            Some(content)
        },
    }
}

} // verus!
