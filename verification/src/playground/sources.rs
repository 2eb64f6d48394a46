//! The set of sources that are open in the playground, one of which is active.
use super::examples::{ExampleModel, PlaygroundExample};
use crate::arc_text::{arc_chars, arc_from, arc_str};
use crate::location::FileName;
use crate::text::{is_ascii, lowercase, text_lowercase, text_push};
use arcstr::ArcStr;
use vstd::prelude::*;

verus! {

/// Where the sources come from.
#[derive(Debug, Clone, Copy, PartialEq, Eq, Structural)]
pub enum SourceSetKind {
    BundledExamples,
    DiskPackage,
}

/// A source that is open: its text, and its text as it was last saved. If it is to be loaded
/// again when it changes on disk, `reload_mtime` is the time of the change that was loaded
/// last, in nanoseconds.
#[derive(Debug)]
pub struct SourceBuffer {
    pub file_name: FileName,
    pub relative_path_from_src: String,
    pub disk_path: Option<String>,
    pub source: String,
    pub saved_source: String,
    pub reload_mtime: Option<i128>,
}

/// What a [`SourceBuffer`] says.
pub struct BufferModel {
    pub file_name: Seq<char>,
    pub relative_path_from_src: Seq<char>,
    pub disk_path: Option<Seq<char>>,
    pub source: Seq<char>,
    pub saved_source: Seq<char>,
    pub reload_mtime: Option<i128>,
}

impl DeepView for SourceBuffer {
    type V = BufferModel;

    open spec fn deep_view(&self) -> BufferModel {
        BufferModel {
            file_name: arc_chars(self.file_name.0),
            relative_path_from_src: self.relative_path_from_src@,
            disk_path: self.disk_path.deep_view(),
            source: self.source@,
            saved_source: self.saved_source@,
            reload_mtime: self.reload_mtime,
        }
    }
}

/// A source file of a package: its name, its path and its text.
#[derive(Debug)]
pub struct LoadedPackageFile {
    pub name: FileName,
    pub relative_path_from_src: String,
    pub source: String,
}

/// What a [`LoadedPackageFile`] says.
pub struct FileModel {
    pub name: Seq<char>,
    pub relative_path_from_src: Seq<char>,
    pub source: Seq<char>,
}

impl DeepView for LoadedPackageFile {
    type V = FileModel;

    open spec fn deep_view(&self) -> FileModel {
        FileModel {
            name: arc_chars(self.name.0),
            relative_path_from_src: self.relative_path_from_src@,
            source: self.source@,
        }
    }
}

/// A text with its backslashes turned into slashes.
pub open spec fn with_slashes(s: Seq<char>) -> Seq<char> {
    s.map_values(
        |c: char|
            if c == '\\' {
                '/'
            } else {
                c
            },
    )
}

/// A text with its backslashes turned into slashes.
fn replace_backslashes(text: &str) -> (r: String)
    ensures
        r@ == with_slashes(text@),
{
    let mut r = String::new();
    for c in it: text.chars()
        invariant
            it.seq() == text@,
            r@ == with_slashes(text@.take(it.index() as int)),
    {
        assert(with_slashes(text@.take(it.index() + 1)) =~= r@.push(
            if c == '\\' {
                '/'
            } else {
                c
            },
        ));
        if c == '\\' {
            text_push(&mut r, '/');
        } else {
            text_push(&mut r, c);
        }
    }
    assert(text@.take(text@.len() as int) =~= text@);
    r
}

/// What paths that are to count as the same have in common.
pub open spec fn normalized(path: Seq<char>) -> Seq<char> {
    lowercase(with_slashes(path))
}

/// What paths that are to count as the same have in common.
pub fn normalized_path(path: &str) -> (r: String)
    ensures
        r@ == normalized(path@),
{
    text_lowercase(replace_backslashes(path).as_str())
}

/// Whether two paths count as the same: they differ at most in case and in the direction of
/// their slashes.
pub fn same_path(left: &str, right: &str) -> (r: bool)
    ensures
        r == (normalized(left@) == normalized(right@)),
{
    normalized_path(left) == normalized_path(right)
}

impl BufferModel {
    /// Whether the text differs from what was last saved.
    pub open spec fn is_dirty(self) -> bool {
        self.source != self.saved_source
    }

    /// The path, with a mark if the text differs from what was last saved.
    pub open spec fn marked_label(self) -> Seq<char> {
        if self.is_dirty() {
            with_slashes(self.relative_path_from_src) + " *"@
        } else {
            with_slashes(self.relative_path_from_src)
        }
    }

    /// A source that is not on disk, as it was last saved.
    pub open spec fn memory(
        file_name: Seq<char>,
        relative_path_from_src: Seq<char>,
        source: Seq<char>,
    ) -> BufferModel {
        BufferModel {
            file_name,
            relative_path_from_src,
            disk_path: None,
            source,
            saved_source: source,
            reload_mtime: None,
        }
    }

    /// A source that is on disk under the name of the file, as it was last saved.
    pub open spec fn disk(file: FileModel) -> BufferModel {
        BufferModel {
            file_name: file.name,
            relative_path_from_src: file.relative_path_from_src,
            disk_path: Some(file.name),
            source: file.source,
            saved_source: file.source,
            reload_mtime: None,
        }
    }
}

impl SourceBuffer {
    /// A source that is not on disk, as it was last saved.
    pub fn memory(file_name: FileName, relative_path_from_src: String, source: &str) -> (r:
        SourceBuffer)
        ensures
            r.deep_view() == BufferModel::memory(
                arc_chars(file_name.0),
                relative_path_from_src@,
                source@,
            ),
    {
        SourceBuffer {
            file_name,
            relative_path_from_src,
            disk_path: None,
            source: source.to_owned(),
            saved_source: source.to_owned(),
            reload_mtime: None,
        }
    }

    /// A source that is on disk, as it was last saved.
    pub fn disk(
        file_name: FileName,
        relative_path_from_src: String,
        disk_path: String,
        source: String,
    ) -> (r: SourceBuffer)
        ensures
            r.deep_view() == (BufferModel {
                disk_path: Some(disk_path@),
                ..BufferModel::memory(arc_chars(file_name.0), relative_path_from_src@, source@)
            }),
    {
        SourceBuffer {
            file_name,
            relative_path_from_src,
            reload_mtime: None,
            saved_source: source.clone(),
            source,
            disk_path: Some(disk_path),
        }
    }

    /// A source file of a package, which is on disk under its name.
    pub fn from_loaded_disk_file(file: LoadedPackageFile) -> (r: SourceBuffer)
        ensures
            r.deep_view() == BufferModel::disk(file.deep_view()),
    {
        let disk_path = arc_str(&file.name.0).to_owned();
        SourceBuffer::disk(file.name, file.relative_path_from_src, disk_path, file.source)
    }

    /// The path, with slashes.
    pub fn label(&self) -> (r: String)
        ensures
            r@ == with_slashes(self.relative_path_from_src@),
    {
        replace_backslashes(self.relative_path_from_src.as_str())
    }

    /// Whether the text differs from what was last saved.
    pub fn is_dirty(&self) -> (r: bool)
        ensures
            r == self.deep_view().is_dirty(),
    {
        !(self.source == self.saved_source)
    }

    /// The path, with a mark if the text differs from what was last saved.
    fn marked_label(&self) -> (r: String)
        ensures
            r@ == self.deep_view().marked_label(),
    {
        let mut label = self.label();
        if self.is_dirty() {
            label.append(" *");
        }
        label
    }
}

/// The set of sources that are open, one of which is active.
#[derive(Debug)]
pub struct SourceSet {
    pub kind: SourceSetKind,
    pub buffers: Vec<SourceBuffer>,
    pub active: usize,
}

/// What a [`SourceSet`] says.
#[verifier::ext_equal]
pub struct SetModel {
    pub kind: SourceSetKind,
    pub buffers: Seq<BufferModel>,
    pub active: int,
}

impl DeepView for SourceSet {
    type V = SetModel;

    open spec fn deep_view(&self) -> SetModel {
        SetModel {
            kind: self.kind,
            buffers: self.buffers.deep_view(),
            active: self.active as int,
        }
    }
}

impl SetModel {
    /// The source that is active.
    pub open spec fn active_buffer(self) -> BufferModel {
        self.buffers[self.active]
    }

    /// The set with another source in place of the active one.
    pub open spec fn with_active(self, buffer: BufferModel) -> SetModel {
        SetModel { buffers: self.buffers.update(self.active, buffer), ..self }
    }
}

/// The sources of the examples.
pub open spec fn bundled(examples: Seq<ExampleModel>) -> Seq<BufferModel> {
    examples.map_values(
        |e: ExampleModel|
            BufferModel::memory(
                "playground-examples/src/"@ + e.relative_path_from_src,
                e.relative_path_from_src,
                e.source,
            ),
    )
}

/// Whether the source is on disk at a path that counts as the same as `path`.
pub open spec fn is_at(buffer: BufferModel, path: Seq<char>) -> bool {
    buffer.disk_path matches Some(disk_path) && normalized(disk_path) == normalized(path)
}

/// Whether the source `i` is the first one at `path`.
pub open spec fn is_first_at(buffers: Seq<BufferModel>, path: Seq<char>, i: int) -> bool {
    &&& 0 <= i < buffers.len()
    &&& is_at(buffers[i], path)
    &&& forall|j: int| 0 <= j < i ==> !is_at(#[trigger] buffers[j], path)
}

/// The sources of the files of a package.
pub open spec fn on_disk(files: Seq<FileModel>) -> Seq<BufferModel> {
    files.map_values(|file: FileModel| BufferModel::disk(file))
}

/// What is wrong with a package without source files.
pub open spec fn no_files_message(src_dir: Seq<char>) -> Seq<char> {
    "Package source directory contains no Par files: "@ + src_dir
}

/// What is wrong with a file that is none of the source files of its package.
pub open spec fn no_source_message(active_file: Seq<char>) -> Seq<char> {
    "File is not a Par source file in its package: "@ + active_file
}

/// The texts of the sources that are on disk, each with its path.
pub open spec fn overrides(buffers: Seq<BufferModel>) -> Seq<(Seq<char>, Seq<char>)>
    decreases buffers.len(),
{
    if buffers.len() == 0 {
        Seq::empty()
    } else {
        match buffers.last().disk_path {
            Some(path) => overrides(buffers.drop_last()).push((path, buffers.last().source)),
            None => overrides(buffers.drop_last()),
        }
    }
}

/// What is said of a file whose package cannot be found: that it has none, or else why.
pub fn discovery_error(no_package: bool, message: String) -> (r: String)
    ensures
        r@ == if no_package {
            "This file is not a part of a Par package. Create a package using `par new`."@
        } else {
            message@
        },
{
    if no_package {
        "This file is not a part of a Par package. Create a package using `par new`.".to_owned()
    } else {
        message
    }
}

impl SourceSet {
    /// Whether one of the sources is active.
    pub open spec fn wf(self) -> bool {
        self.active < self.buffers@.len()
    }

    /// The examples, the first of which is active.
    pub fn bundled_examples(examples: &Vec<PlaygroundExample>) -> (r: SourceSet)
        requires
            examples@.len() > 0,
        ensures
            r.wf(),
            r.deep_view() == (SetModel {
                kind: SourceSetKind::BundledExamples,
                buffers: bundled(examples.deep_view()),
                active: 0,
            }),
    {
        let mut buffers: Vec<SourceBuffer> = Vec::new();
        let ghost all = bundled(examples.deep_view());
        let mut i: usize = 0;
        while i < examples.len()
            invariant
                i <= examples@.len(),
                all == bundled(examples.deep_view()),
                buffers.deep_view() =~= all.take(i as int),
            decreases examples@.len() - i,
        {
            let example = &examples[i];
            let mut name = "playground-examples/src/".to_owned();
            name.append(example.relative_path_from_src.as_str());
            let ghost before = buffers.deep_view();
            let buffer = SourceBuffer::memory(
                FileName(arc_from(name.as_str())),
                example.relative_path_from_src.clone(),
                example.source.as_str(),
            );
            let ghost entry = buffer.deep_view();
            assert(entry == all[i as int]);
            buffers.push(buffer);
            assert(buffers.deep_view() =~= before.push(entry));
            i = i + 1;
        }
        assert(buffers.deep_view() =~= all);
        assert(buffers.deep_view().len() == buffers@.len());
        SourceSet { kind: SourceSetKind::BundledExamples, buffers, active: 0 }
    }

    /// The source files of a package, where the first one at the path `active_file` is active.
    pub fn from_package_layout(
        files: Result<Vec<LoadedPackageFile>, String>,
        src_dir: &str,
        active_file: &str,
    ) -> (r: Result<SourceSet, String>)
        ensures
            match (files, r) {
                (Err(message), Err(e)) => e@ == message@,
                (Ok(files), Err(e)) => if files@.len() == 0 {
                    e@ == no_files_message(src_dir@)
                } else {
                    &&& e@ == no_source_message(active_file@)
                    &&& forall|i: int|
                        0 <= i < files@.len() ==> !is_at(
                            #[trigger] on_disk(files.deep_view())[i],
                            active_file@,
                        )
                },
                (Ok(files), Ok(set)) => {
                    &&& files@.len() > 0
                    &&& set.wf()
                    &&& set.kind == SourceSetKind::DiskPackage
                    &&& set.buffers.deep_view() == on_disk(files.deep_view())
                    &&& is_first_at(on_disk(files.deep_view()), active_file@, set.active as int)
                },
                (Err(_), Ok(_)) => false,
            },
    {
        let files = match files {
            Ok(files) => files,
            Err(message) => return Err(message),
        };
        if files.len() == 0 {
            let mut message = "Package source directory contains no Par files: ".to_owned();
            message.append(src_dir);
            return Err(message);
        }
        let buffers = load_files(files);
        assert(buffers.deep_view().len() == buffers@.len());
        match find_at(&buffers, active_file) {
            Some(active) => Ok(SourceSet { kind: SourceSetKind::DiskPackage, buffers, active }),
            None => {
                let mut message = "File is not a Par source file in its package: ".to_owned();
                message.append(active_file);
                Err(message)
            },
        }
    }

    /// Where the sources come from.
    pub fn kind(&self) -> (r: SourceSetKind)
        ensures
            r == self.kind,
    {
        self.kind
    }

    /// The name of the file that is active.
    pub fn active_file_name(&self) -> (r: FileName)
        requires
            self.wf(),
        ensures
            arc_chars(r.0) == self.deep_view().active_buffer().file_name,
    {
        self.active_buffer().file_name.clone()
    }

    /// The path of the source that is active, with a mark if it differs from what was last
    /// saved.
    pub fn active_label(&self) -> (r: String)
        requires
            self.wf(),
        ensures
            r@ == self.deep_view().active_buffer().marked_label(),
    {
        self.active_buffer().marked_label()
    }

    /// How many sources there are.
    pub fn buffer_count(&self) -> (r: usize)
        ensures
            r == self.deep_view().buffers.len(),
    {
        self.buffers.len()
    }

    /// The path of a source, with a mark if it differs from what was last saved.
    pub fn buffer_label(&self, index: usize) -> (r: String)
        requires
            index < self.buffers@.len(),
        ensures
            r@ == self.deep_view().buffers[index as int].marked_label(),
    {
        self.buffers[index].marked_label()
    }

    /// Whether a source is the one that is active.
    pub fn is_active(&self, index: usize) -> (r: bool)
        ensures
            r == (self.active == index),
    {
        self.active == index
    }

    /// Makes a source the active one. Says whether that changed anything: it does not if there
    /// is no such source, or if it is active already.
    pub fn set_active(&mut self, index: usize) -> (r: bool)
        requires
            old(self).wf(),
        ensures
            final(self).wf(),
            r == (index < old(self).buffers@.len() && index != old(self).active),
            final(self).deep_view() == if r {
                SetModel { active: index as int, ..old(self).deep_view() }
            } else {
                old(self).deep_view()
            },
    {
        if index >= self.buffers.len() || index == self.active {
            return false;
        }
        self.active = index;
        true
    }

    /// The text of the source that is active.
    pub fn active_source(&self) -> (r: &str)
        requires
            self.wf(),
        ensures
            r@ == self.deep_view().active_buffer().source,
    {
        self.active_buffer().source.as_str()
    }

    /// Whether the source that is active is on disk, so that it can be saved.
    pub fn can_save_active(&self) -> (r: bool)
        requires
            self.wf(),
        ensures
            r == (self.deep_view().active_buffer().disk_path is Some),
    {
        self.active_buffer().disk_path.is_some()
    }

    /// Whether the source that is active is to be loaded again when it changes on disk.
    pub fn active_reload_enabled(&self) -> (r: bool)
        requires
            self.wf(),
        ensures
            r == (self.deep_view().active_buffer().reload_mtime is Some),
    {
        self.active_buffer().reload_mtime.is_some()
    }

    /// Where the source that is active is on disk.
    pub fn active_disk_path(&self) -> (r: Option<&str>)
        requires
            self.wf(),
        ensures
            match r {
                Some(path) => self.deep_view().active_buffer().disk_path == Some(path@),
                None => self.deep_view().active_buffer().disk_path is None,
            },
    {
        match &self.active_buffer().disk_path {
            Some(path) => Some(path.as_str()),
            None => None,
        }
    }

    /// The source that is active.
    fn active_buffer(&self) -> (r: &SourceBuffer)
        requires
            self.wf(),
        ensures
            r == self.buffers@[self.active as int],
            r.deep_view() == self.deep_view().active_buffer(),
    {
        &self.buffers[self.active]
    }
}

impl BufferModel {
    /// The source once it was saved on disk, where it was changed at `mtime`.
    pub open spec fn saved(self, mtime: Option<i128>) -> BufferModel {
        BufferModel { saved_source: self.source, reload_mtime: mtime, ..self }
    }

    /// Whether the source is to be loaded again if it was changed on disk at `mtime`: it is on
    /// disk, and was changed there after the change that was loaded last.
    pub open spec fn needs_reload(self, mtime: Option<i128>) -> bool {
        match (self.reload_mtime, mtime) {
            (Some(old), Some(new)) => self.disk_path is Some && new > old,
            _ => false,
        }
    }

    /// The source once its text was loaded again, as it was changed on disk at `mtime`.
    pub open spec fn reloaded(self, mtime: Option<i128>, source: Seq<char>) -> BufferModel {
        BufferModel { source, saved_source: source, reload_mtime: mtime, ..self }
    }
}

impl SourceSet {
    /// The text of the source that is active, to be changed.
    pub fn active_source_mut(&mut self) -> (r: &mut String)
        requires
            old(self).wf(),
        ensures
            r@ == old(self).deep_view().active_buffer().source,
            final(self).wf(),
            final(self).deep_view() == old(self).deep_view().with_active(
                BufferModel {
                    source: final(r)@,
                    ..old(self).deep_view().active_buffer()
                },
            ),
    {
        &mut self.buffers[self.active].source
    }

    /// What is to be written to save the source that is active, and where: nothing if it is not
    /// on disk.
    pub fn active_save(&self) -> (r: Option<(&str, &str)>)
        requires
            self.wf(),
        ensures
            match r {
                Some((path, source)) => {
                    &&& self.deep_view().active_buffer().disk_path == Some(path@)
                    &&& self.deep_view().active_buffer().source == source@
                },
                None => self.deep_view().active_buffer().disk_path is None,
            },
    {
        let buffer = self.active_buffer();
        match &buffer.disk_path {
            Some(path) => Some((path.as_str(), buffer.source.as_str())),
            None => None,
        }
    }

    /// Takes note of how it went to write the source that is active: with an error, or else
    /// with the time of the change on disk. There is nothing to take note of if the source is
    /// not on disk.
    pub fn save_active<E>(&mut self, written: Result<Option<i128>, E>) -> (r: Result<(), E>)
        requires
            old(self).wf(),
        ensures
            final(self).wf(),
            if old(self).deep_view().active_buffer().disk_path is None {
                r is Ok && final(self).deep_view() == old(self).deep_view()
            } else {
                match written {
                    Ok(mtime) => {
                        &&& r is Ok
                        &&& final(self).deep_view() == old(self).deep_view().with_active(
                            old(self).deep_view().active_buffer().saved(mtime),
                        )
                    },
                    Err(e) => r == Err::<(), E>(e) && final(self).deep_view() == old(
                        self,
                    ).deep_view(),
                }
            },
    {
        let ghost before = self.deep_view();
        if self.active_buffer().disk_path.is_none() {
            return Ok(());
        }
        match written {
            Ok(mtime) => {
                let source = self.active_buffer().source.clone();
                let active = self.active;
                self.buffers[active].saved_source = source;
                self.buffers[active].reload_mtime = mtime;
                assert(self.deep_view() =~= before.with_active(
                    before.active_buffer().saved(mtime),
                ));
                Ok(())
            },
            Err(e) => Err(e),
        }
    }

    /// Lets the source that is active be loaded again when it changes on disk from now on, or
    /// not. `mtime` is the time of the last change on disk, if it is known.
    pub fn set_active_reload_enabled(&mut self, enabled: bool, mtime: Option<i128>)
        requires
            old(self).wf(),
        ensures
            final(self).wf(),
            final(self).deep_view() == old(self).deep_view().with_active(
                BufferModel {
                    reload_mtime: if enabled && old(self).deep_view().active_buffer().disk_path
                        is Some {
                        mtime
                    } else {
                        None
                    },
                    ..old(self).deep_view().active_buffer()
                },
            ),
    {
        let ghost before = self.deep_view();
        let reload_mtime = if enabled && self.active_buffer().disk_path.is_some() {
            mtime
        } else {
            None
        };
        let active = self.active;
        self.buffers[active].reload_mtime = reload_mtime;
        assert(self.deep_view() =~= before.with_active(
            BufferModel { reload_mtime, ..before.active_buffer() },
        ));
    }

    /// Where to look whether the source that is active has changed on disk: nowhere if it is
    /// not to be loaded again, or not on disk.
    pub fn reload_path(&self) -> (r: Option<&str>)
        requires
            self.wf(),
        ensures
            match r {
                Some(path) => {
                    &&& self.deep_view().active_buffer().reload_mtime is Some
                    &&& self.deep_view().active_buffer().disk_path == Some(path@)
                },
                None => self.deep_view().active_buffer().reload_mtime is None
                    || self.deep_view().active_buffer().disk_path is None,
            },
    {
        if self.active_reload_enabled() {
            self.active_disk_path()
        } else {
            None
        }
    }

    /// Whether the source that is active is to be loaded again if it was changed on disk at
    /// `mtime`.
    pub fn needs_reload(&self, mtime: Option<i128>) -> (r: bool)
        requires
            self.wf(),
        ensures
            r == self.deep_view().active_buffer().needs_reload(mtime),
    {
        let buffer = self.active_buffer();
        match (buffer.reload_mtime, mtime) {
            (Some(old_mtime), Some(mtime)) => buffer.disk_path.is_some() && mtime > old_mtime,
            _ => false,
        }
    }

    /// Loads the source that is active again if it was changed on disk: `mtime` is the time of
    /// the change, if it is known, and `source` the text on disk, if it can be read.
    pub fn reload_active_if_changed(&mut self, mtime: Option<i128>, source: Option<String>)
        requires
            old(self).wf(),
        ensures
            final(self).wf(),
            final(self).deep_view() == match source {
                Some(source) => if old(self).deep_view().active_buffer().needs_reload(mtime) {
                    old(self).deep_view().with_active(
                        old(self).deep_view().active_buffer().reloaded(mtime, source@),
                    )
                } else {
                    old(self).deep_view()
                },
                None => old(self).deep_view(),
            },
    {
        let ghost before = self.deep_view();
        if !self.needs_reload(mtime) {
            return;
        }
        if let Some(source) = source {
            let ghost text = source@;
            let active = self.active;
            self.buffers[active].source = source.clone();
            self.buffers[active].saved_source = source;
            self.buffers[active].reload_mtime = mtime;
            assert(self.deep_view() =~= before.with_active(
                before.active_buffer().reloaded(mtime, text),
            ));
        }
    }

    /// The texts of the sources that are on disk, each with its path.
    pub fn source_overrides(&self) -> (r: Vec<(String, String)>)
        ensures
            r.deep_view() == overrides(self.deep_view().buffers),
    {
        let mut r: Vec<(String, String)> = Vec::new();
        let ghost all = self.deep_view().buffers;
        let mut i: usize = 0;
        assert(r.deep_view() =~= overrides(all.take(0)));
        while i < self.buffers.len()
            invariant
                i <= self.buffers@.len(),
                all == self.buffers.deep_view(),
                r.deep_view() == overrides(all.take(i as int)),
            decreases self.buffers@.len() - i,
        {
            let buffer = &self.buffers[i];
            let ghost before = r.deep_view();
            proof {
                assert(all.take(i + 1).drop_last() =~= all.take(i as int));
                assert(all.take(i + 1).last() == buffer.deep_view());
            }
            if let Some(path) = &buffer.disk_path {
                r.push((path.clone(), buffer.source.clone()));
                assert(r.deep_view() =~= before.push((path@, buffer.source@)));
            }
            i = i + 1;
        }
        assert(all.take(all.len() as int) =~= all);
        r
    }

    /// The sources as files of a package.
    pub fn loaded_files(&self) -> (r: Vec<LoadedPackageFile>)
        ensures
            r.deep_view() == self.deep_view().buffers.map_values(
                |buffer: BufferModel|
                    FileModel {
                        name: buffer.file_name,
                        relative_path_from_src: buffer.relative_path_from_src,
                        source: buffer.source,
                    },
            ),
    {
        let mut r: Vec<LoadedPackageFile> = Vec::new();
        let ghost all = self.deep_view().buffers.map_values(
            |buffer: BufferModel|
                FileModel {
                    name: buffer.file_name,
                    relative_path_from_src: buffer.relative_path_from_src,
                    source: buffer.source,
                },
        );
        let mut i: usize = 0;
        while i < self.buffers.len()
            invariant
                i <= self.buffers@.len(),
                all.len() == self.buffers@.len(),
                forall|j: int|
                    0 <= j < all.len() ==> #[trigger] all[j] == (FileModel {
                        name: self.buffers@[j].deep_view().file_name,
                        relative_path_from_src: self.buffers@[j].deep_view().relative_path_from_src,
                        source: self.buffers@[j].deep_view().source,
                    }),
                r.deep_view() =~= all.take(i as int),
            decreases self.buffers@.len() - i,
        {
            let buffer = &self.buffers[i];
            let ghost before = r.deep_view();
            let file = LoadedPackageFile {
                name: buffer.file_name.clone(),
                relative_path_from_src: buffer.relative_path_from_src.clone(),
                source: buffer.source.clone(),
            };
            let ghost entry = file.deep_view();
            r.push(file);
            assert(r.deep_view() =~= before.push(entry));
            i = i + 1;
        }
        r
    }

    /// The name of the package of the examples.
    pub fn bundled_package_id() -> (r: ArcStr)
        ensures
            arc_chars(r) == "playground_examples"@,
    {
        arc_from("playground_examples")
    }
}

/// A source that was saved is as it was last saved, with the same text.
pub proof fn saved_is_clean(buffer: BufferModel, mtime: Option<i128>)
    ensures
        !buffer.saved(mtime).is_dirty(),
        buffer.saved(mtime).source == buffer.source,
{
}

/// A source that was loaded again is as it was last saved, with the text that was loaded, and
/// is not loaded again for the same change.
pub proof fn reloaded_is_clean(buffer: BufferModel, mtime: Option<i128>, source: Seq<char>)
    ensures
        !buffer.reloaded(mtime, source).is_dirty(),
        buffer.reloaded(mtime, source).source == source,
        !buffer.reloaded(mtime, source).needs_reload(mtime),
{
}

/// A source that was saved is not loaded again for the change that saving it made.
pub proof fn saved_is_not_reloaded(buffer: BufferModel, mtime: Option<i128>)
    ensures
        !buffer.saved(mtime).needs_reload(mtime),
{
}

/// A change of the source that is active leaves the others as they are, and it stays active.
pub proof fn change_of_active_is_local(set: SetModel, buffer: BufferModel, i: int)
    requires
        0 <= set.active < set.buffers.len(),
    ensures
        set.with_active(buffer).active_buffer() == buffer,
        set.with_active(buffer).active == set.active,
        set.with_active(buffer).kind == set.kind,
        0 <= i < set.buffers.len() && i != set.active ==> set.with_active(buffer).buffers[i]
            == set.buffers[i],
{
}

/// The path of a source has a mark exactly if the source differs from what was last saved.
pub proof fn mark_means_dirty(buffer: BufferModel)
    ensures
        buffer.is_dirty() <==> buffer.marked_label() == with_slashes(buffer.relative_path_from_src)
            + " *"@,
        buffer.is_dirty() <==> buffer.marked_label() != with_slashes(buffer.relative_path_from_src),
{
    reveal_strlit(" *");
    let label = with_slashes(buffer.relative_path_from_src);
    assert((label + " *"@).len() == label.len() + 2);
}

/// Paths that differ in the direction of their slashes alone count as the same.
pub proof fn slashes_do_not_matter(path: Seq<char>)
    ensures
        normalized(with_slashes(path)) == normalized(path),
{
    assert(with_slashes(with_slashes(path)) =~= with_slashes(path));
}

/// Paths in ASCII that differ in case alone count as the same.
pub proof fn case_does_not_matter(path: Seq<char>)
    requires
        is_ascii(path),
    ensures
        normalized(lowercase(path)) == normalized(path),
{
    let lower = lowercase(path);
    assert(is_ascii(lower));
    assert(is_ascii(with_slashes(path)));
    assert(is_ascii(with_slashes(lower)));
    assert(normalized(lower) =~= normalized(path));
}

/// The first source at the path `path`.
fn find_at(buffers: &Vec<SourceBuffer>, path: &str) -> (r: Option<usize>)
    ensures
        match r {
            Some(i) => is_first_at(buffers.deep_view(), path@, i as int),
            None => forall|i: int|
                0 <= i < buffers@.len() ==> !is_at(#[trigger] buffers.deep_view()[i], path@),
        },
{
    let mut i: usize = 0;
    while i < buffers.len()
        invariant
            i <= buffers@.len(),
            forall|j: int| 0 <= j < i ==> !is_at(#[trigger] buffers.deep_view()[j], path@),
        decreases buffers@.len() - i,
    {
        let found = match &buffers[i].disk_path {
            Some(disk_path) => same_path(disk_path.as_str(), path),
            None => false,
        };
        assert(found == is_at(buffers.deep_view()[i as int], path@));
        if found {
            return Some(i);
        }
        i = i + 1;
    }
    None
}

/// The sources of the files of a package.
fn load_files(files: Vec<LoadedPackageFile>) -> (r: Vec<SourceBuffer>)
    ensures
        r.deep_view() == on_disk(files.deep_view()),
{
    let ghost all = on_disk(files.deep_view());
    let mut files = files;
    let mut buffers: Vec<SourceBuffer> = Vec::new();
    let ghost mut n: int = files@.len() as int;
    loop
        invariant
            n == files@.len(),
            n <= all.len(),
            on_disk(files.deep_view()) =~= all.take(n),
            buffers.deep_view() =~= all.skip(n),
        ensures
            n == 0,
        decreases files@.len(),
    {
        let ghost before = files.deep_view();
        let ghost after = buffers.deep_view();
        match files.pop() {
            None => {
                break;
            },
            Some(file) => {
                proof {
                    assert(files.deep_view() =~= before.drop_last());
                    assert(before.last() == file.deep_view());
                    assert(on_disk(before).last() == all[n - 1]);
                }
                let buffer = SourceBuffer::from_loaded_disk_file(file);
                let ghost entry = buffer.deep_view();
                buffers.insert(0, buffer);
                proof {
                    assert(buffers.deep_view() =~= seq![entry] + after);
                    n = n - 1;
                }
            },
        }
    }
    assert(all.skip(0) =~= all);
    buffers
}

} // verus!
