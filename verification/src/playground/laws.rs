//! What holds of the sources that are open.
use super::examples::ExampleModel;
use super::sources::{
    bundled, is_at, is_first_at, no_files_message, no_source_message, normalized, on_disk,
    overrides, with_slashes, BufferModel, FileModel, SetModel, SourceBuffer, SourceSet,
};
use crate::arc_text::arc_chars;
use crate::text::is_ascii;
use vstd::prelude::*;

verus! {

/// How many of the first `n` sources are on disk.
pub open spec fn on_disk_before(buffers: Seq<BufferModel>, n: int) -> int
    decreases n,
{
    if n <= 0 {
        0
    } else {
        on_disk_before(buffers, n - 1) + if buffers[n - 1].disk_path is Some {
            1int
        } else {
            0
        }
    }
}

/// There is one text with its path for each source that is on disk, in the order of the sources:
/// the text that the source has now.
pub proof fn overrides_in_order(buffers: Seq<BufferModel>, i: int)
    requires
        0 <= i <= buffers.len(),
    ensures
        overrides(buffers).len() == on_disk_before(buffers, buffers.len() as int),
        on_disk_before(buffers, i) <= overrides(buffers).len(),
        i < buffers.len() ==> (buffers[i].disk_path matches Some(path) ==> {
            &&& 0 <= on_disk_before(buffers, i) < overrides(buffers).len()
            &&& overrides(buffers)[on_disk_before(buffers, i)] == (path, buffers[i].source)
        }),
    decreases buffers.len(),
{
    on_disk_before_range(buffers, i);
    if buffers.len() > 0 {
        let rest = buffers.drop_last();
        let n = rest.len() as int;
        same_before(rest, buffers, n);
        overrides_in_order(rest, n);
        if i < n {
            overrides_in_order(rest, i);
            same_before(rest, buffers, i);
        }
    }
}

/// Every text with its path is that of a source that is on disk.
pub proof fn overrides_are_sources(buffers: Seq<BufferModel>, k: int)
    requires
        0 <= k < overrides(buffers).len(),
    ensures
        exists|i: int|
            #![trigger buffers[i]]
            0 <= i < buffers.len() && on_disk_before(buffers, i) == k && overrides(buffers)[k] == (
                buffers[i].disk_path->0,
                buffers[i].source,
            ) && buffers[i].disk_path is Some,
    decreases buffers.len(),
{
    let rest = buffers.drop_last();
    let n = rest.len() as int;
    overrides_in_order(rest, n);
    same_before(rest, buffers, n);
    if k < overrides(rest).len() {
        overrides_are_sources(rest, k);
        let i = choose|i: int|
            #![trigger rest[i]]
            0 <= i < rest.len() && on_disk_before(rest, i) == k && overrides(rest)[k] == (
                rest[i].disk_path->0,
                rest[i].source,
            ) && rest[i].disk_path is Some;
        same_before(rest, buffers, i);
        assert(buffers[i] == rest[i]);
    } else {
        assert(buffers[n] == buffers.last());
    }
}

/// How many sources are on disk among the first ones depends on these alone.
proof fn same_before(a: Seq<BufferModel>, b: Seq<BufferModel>, n: int)
    requires
        0 <= n <= a.len() <= b.len(),
        forall|i: int| 0 <= i < n ==> a[i] == b[i],
    ensures
        on_disk_before(a, n) == on_disk_before(b, n),
    decreases n,
{
    if n > 0 {
        same_before(a, b, n - 1);
    }
}

/// The sources on disk among the first ones are not more than those among all of them.
proof fn on_disk_before_range(buffers: Seq<BufferModel>, i: int)
    requires
        0 <= i <= buffers.len(),
    ensures
        0 <= on_disk_before(buffers, i) <= on_disk_before(buffers, buffers.len() as int),
        on_disk_before(buffers, i) <= i,
    decreases buffers.len() - i,
{
    on_disk_before_small(buffers, i);
    if i < buffers.len() {
        on_disk_before_range(buffers, i + 1);
    }
}

/// There are not more sources on disk among the first ones than there are first ones.
proof fn on_disk_before_small(buffers: Seq<BufferModel>, i: int)
    requires
        0 <= i,
    ensures
        0 <= on_disk_before(buffers, i) <= i,
    decreases i,
{
    if i > 0 {
        on_disk_before_small(buffers, i - 1);
    }
}

/// Once the text of the active source, which is on disk at `path`, is set to `s`, the texts with
/// their paths are as before, but for that of this source: there it is `s`.
pub proof fn overrides_follow_edits(set: SetModel, path: Seq<char>, s: Seq<char>)
    requires
        0 <= set.active < set.buffers.len(),
        set.active_buffer().disk_path == Some(path),
    ensures
        ({
            let after = set.with_active(BufferModel { source: s, ..set.active_buffer() });
            &&& overrides(after.buffers).contains((path, s))
            &&& overrides(after.buffers) == overrides(set.buffers).update(
                on_disk_before(set.buffers, set.active),
                (path, s),
            )
        }),
{
    let after = set.with_active(BufferModel { source: s, ..set.active_buffer() });
    let place = on_disk_before(set.buffers, set.active);
    overrides_in_order(set.buffers, set.active);
    overrides_in_order(after.buffers, set.active);
    same_paths(set.buffers, after.buffers, set.active);
    same_paths(set.buffers, after.buffers, set.buffers.len() as int);
    let a = overrides(after.buffers);
    let b = overrides(set.buffers).update(place, (path, s));
    assert(a[place] == (path, s));
    assert forall|k: int| 0 <= k < a.len() implies a[k] == b[k] by {
        if k != place {
            overrides_are_sources(after.buffers, k);
            let i = choose|i: int|
                #![trigger after.buffers[i]]
                0 <= i < after.buffers.len() && on_disk_before(after.buffers, i) == k && a[k] == (
                    after.buffers[i].disk_path->0,
                    after.buffers[i].source,
                ) && after.buffers[i].disk_path is Some;
            same_paths(set.buffers, after.buffers, i);
            overrides_in_order(set.buffers, i);
        }
    }
    assert(a =~= b);
}

/// How many sources are on disk does not depend on their texts.
proof fn same_paths(a: Seq<BufferModel>, b: Seq<BufferModel>, n: int)
    requires
        0 <= n <= a.len(),
        a.len() == b.len(),
        forall|i: int| 0 <= i < a.len() ==> (#[trigger] a[i]).disk_path == b[i].disk_path,
    ensures
        on_disk_before(a, n) == on_disk_before(b, n),
    decreases n,
{
    if n > 0 {
        same_paths(a, b, n - 1);
        assert(a[n - 1].disk_path == b[n - 1].disk_path);
    }
}

/// What a source says is what its fields say.
pub proof fn buffer_says(buffer: SourceBuffer)
    ensures
        buffer.deep_view().file_name == arc_chars(buffer.file_name.0),
        buffer.deep_view().relative_path_from_src == buffer.relative_path_from_src@,
        match buffer.disk_path {
            Some(path) => buffer.deep_view().disk_path == Some(path@),
            None => buffer.deep_view().disk_path is None,
        },
        buffer.deep_view().source == buffer.source@,
        buffer.deep_view().saved_source == buffer.saved_source@,
        buffer.deep_view().reload_mtime == buffer.reload_mtime,
{
}

/// What a set of sources says is what each of them says, in order, and which one is active.
pub proof fn set_says(set: SourceSet, i: int)
    requires
        0 <= i < set.buffers@.len(),
    ensures
        set.deep_view().buffers.len() == set.buffers@.len(),
        set.deep_view().buffers[i] == set.buffers@[i].deep_view(),
        set.deep_view().active == set.active,
        set.deep_view().kind == set.kind,
        set.active == i ==> set.deep_view().active_buffer() == set.buffers@[i].deep_view(),
{
}

/// A source that was saved differs from what it was in what was last saved, which is its text,
/// and in the time of the change on disk alone.
pub proof fn saved_says(buffer: BufferModel, mtime: Option<i128>)
    ensures
        buffer.saved(mtime).saved_source == buffer.source,
        buffer.saved(mtime).reload_mtime == mtime,
        buffer.saved(mtime).source == buffer.source,
        buffer.saved(mtime).file_name == buffer.file_name,
        buffer.saved(mtime).relative_path_from_src == buffer.relative_path_from_src,
        buffer.saved(mtime).disk_path == buffer.disk_path,
{
}

/// A source that was loaded again differs from what it was in its text, which is what was last
/// saved too, and in the time of the change on disk alone.
pub proof fn reloaded_says(buffer: BufferModel, mtime: Option<i128>, source: Seq<char>)
    ensures
        buffer.reloaded(mtime, source).source == source,
        buffer.reloaded(mtime, source).saved_source == source,
        buffer.reloaded(mtime, source).reload_mtime == mtime,
        buffer.reloaded(mtime, source).file_name == buffer.file_name,
        buffer.reloaded(mtime, source).relative_path_from_src == buffer.relative_path_from_src,
        buffer.reloaded(mtime, source).disk_path == buffer.disk_path,
{
}

/// A source is loaded again exactly if it is on disk, a change of it was loaded before, and the
/// change on disk came later.
pub proof fn reload_means_newer(buffer: BufferModel, mtime: Option<i128>)
    ensures
        buffer.needs_reload(mtime) <==> {
            &&& buffer.disk_path is Some
            &&& buffer.reload_mtime is Some
            &&& mtime is Some
            &&& buffer.reload_mtime->0 < mtime->0
        },
{
}

/// A source differs from what was last saved exactly if some character does, or their number.
pub proof fn dirty_means_changed(buffer: BufferModel)
    ensures
        !buffer.is_dirty() <==> {
            &&& buffer.source.len() == buffer.saved_source.len()
            &&& forall|i: int|
                0 <= i < buffer.source.len() ==> #[trigger] buffer.source[i]
                    == buffer.saved_source[i]
        },
{
    if buffer.source.len() == buffer.saved_source.len() && (forall|i: int|
        0 <= i < buffer.source.len() ==> #[trigger] buffer.source[i] == buffer.saved_source[i]) {
        assert(buffer.source =~= buffer.saved_source);
    }
}

/// A text with its backslashes turned into slashes has a slash where there was one or a
/// backslash, and is otherwise the same, character by character.
pub proof fn slashes_are_turned(s: Seq<char>, i: int)
    requires
        0 <= i < s.len(),
    ensures
        with_slashes(s).len() == s.len(),
        with_slashes(s)[i] == '/' <==> s[i] == '/' || s[i] == '\\',
        s[i] != '\\' ==> with_slashes(s)[i] == s[i],
{
}

/// Two paths in ASCII count as the same exactly if they are equally long and each two characters
/// are the same, the same letter but for its case, or both slashes, in whichever direction.
pub proof fn same_paths_in_ascii(a: Seq<char>, b: Seq<char>)
    requires
        is_ascii(a),
        is_ascii(b),
    ensures
        normalized(a) == normalized(b) <==> a.len() == b.len() && (forall|i: int|
            0 <= i < a.len() ==> same_in_paths(#[trigger] a[i], b[i])),
{
    assert(is_ascii(with_slashes(a)));
    assert(is_ascii(with_slashes(b)));
    if normalized(a) == normalized(b) {
        assert(normalized(a).len() == a.len());
        assert(normalized(b).len() == b.len());
        assert forall|i: int| 0 <= i < a.len() implies same_in_paths(#[trigger] a[i], b[i]) by {
            assert(normalized(a)[i] == normalized(b)[i]);
            assert(a[i] as u32 <= 127 && b[i] as u32 <= 127);
        }
    }
    if a.len() == b.len() && (forall|i: int|
        0 <= i < a.len() ==> same_in_paths(#[trigger] a[i], b[i])) {
        assert forall|i: int| 0 <= i < a.len() implies normalized(a)[i] == normalized(b)[i] by {
            assert(same_in_paths(a[i], b[i]));
            assert(a[i] as u32 <= 127 && b[i] as u32 <= 127);
        }
        assert(normalized(a) =~= normalized(b));
    }
}

/// Whether two characters are the same, the same letter of ASCII but for its case, or both
/// slashes.
pub open spec fn same_in_paths(a: char, b: char) -> bool {
    ||| a == b
    ||| 'A' <= a && a <= 'Z' && b as int == a as int + 32
    ||| 'A' <= b && b <= 'Z' && a as int == b as int + 32
    ||| (a == '/' || a == '\\') && (b == '/' || b == '\\')
}

/// A source that is not on disk has the name, the path and the text that it is made of, which is
/// what was last saved too; it is not loaded again.
pub proof fn memory_says(file_name: Seq<char>, path: Seq<char>, source: Seq<char>)
    ensures
        ({
            let buffer = BufferModel::memory(file_name, path, source);
            &&& buffer.file_name == file_name
            &&& buffer.relative_path_from_src == path
            &&& buffer.disk_path is None
            &&& buffer.source == source
            &&& buffer.saved_source == source
            &&& buffer.reload_mtime is None
        }),
{
}

/// The sources of the examples are not on disk; each has the path and the text of its example,
/// which is what was last saved too, and its name is the path in the package of the examples.
pub proof fn bundled_says(examples: Seq<ExampleModel>, i: int)
    requires
        0 <= i < examples.len(),
    ensures
        bundled(examples).len() == examples.len(),
        bundled(examples)[i].file_name == "playground-examples/src/"@
            + examples[i].relative_path_from_src,
        bundled(examples)[i].relative_path_from_src == examples[i].relative_path_from_src,
        bundled(examples)[i].disk_path is None,
        bundled(examples)[i].source == examples[i].source,
        bundled(examples)[i].saved_source == examples[i].source,
        bundled(examples)[i].reload_mtime is None,
{
}

/// The sources of the files of a package are on disk; each has the name, the path and the text of
/// its file, which is what was last saved too, and is on disk under the name of the file.
pub proof fn on_disk_says(files: Seq<FileModel>, i: int)
    requires
        0 <= i < files.len(),
    ensures
        on_disk(files).len() == files.len(),
        on_disk(files)[i].file_name == files[i].name,
        on_disk(files)[i].relative_path_from_src == files[i].relative_path_from_src,
        on_disk(files)[i].disk_path == Some(files[i].name),
        on_disk(files)[i].source == files[i].source,
        on_disk(files)[i].saved_source == files[i].source,
        on_disk(files)[i].reload_mtime is None,
        forall|path: Seq<char>|
            is_at(on_disk(files)[i], path) <==> normalized(files[i].name) == #[trigger] normalized(
                path,
            ),
{
}

/// The first source at a path is there, and no source before it is: a source there comes no
/// earlier.
pub proof fn first_is_least(buffers: Seq<BufferModel>, path: Seq<char>, i: int, k: int)
    requires
        is_first_at(buffers, path, i),
    ensures
        0 <= i < buffers.len(),
        buffers[i].disk_path is Some,
        normalized(buffers[i].disk_path->0) == normalized(path),
        0 <= k < buffers.len() && buffers[k].disk_path is Some && normalized(
            buffers[k].disk_path->0,
        ) == normalized(path) ==> i <= k,
{
    if 0 <= k < i {
        assert(!is_at(buffers[k], path));
    }
}

/// What is wrong with a package or with a file ends with the path of that, and which of the two is
/// wrong can be told from it.
pub proof fn messages_name_the_path(path: Seq<char>, other: Seq<char>)
    ensures
        path.is_suffix_of(no_files_message(path)),
        path.is_suffix_of(no_source_message(path)),
        no_files_message(path) != no_source_message(other),
        no_files_message(path) == no_files_message(other) ==> path == other,
        no_source_message(path) == no_source_message(other) ==> path == other,
{
    reveal_strlit("Package source directory contains no Par files: ");
    reveal_strlit("File is not a Par source file in its package: ");
    let files = "Package source directory contains no Par files: "@;
    let source = "File is not a Par source file in its package: "@;
    assert(no_files_message(path).skip(files.len() as int) =~= path);
    assert(no_source_message(path).skip(source.len() as int) =~= path);
    assert(no_files_message(other).skip(files.len() as int) =~= other);
    assert(no_source_message(other).skip(source.len() as int) =~= other);
    assert(no_files_message(path)[0] == 'P');
    assert(no_source_message(other)[0] == 'F');
}

} // verus!
