//! The store of files: how originals and thumbnails are named and laid out,
//! which files of a folder count as images, and what a deletion removes.
//!
//! A directory is held as the list of the names of the files in it. The
//! functions here decide; reading and writing the disk is left to the caller.

use crate::config::Settings;
use crate::dtos::image_dto::{image_views, ImageDTO, ImageView};
use crate::dtos::tag_dto::duplicate_tags;
use crate::models::enums::image_format::ImageFormat;
use crate::models::enums::image_type::ImageType;
use crate::services::natural_order::{
    in_natural_order, is_arrangement, natural_arrangement, texts,
};
use crate::services::codecs::encoded_file;
use crate::services::image_processor::{open_image, spec_first_decoded, spec_shape, ATTEMPTS};
use crate::services::thumbnail_service::{
    fits_within, generate_thumbnail_from_image, save_image_as, spec_png_of,
    spec_thumbnail_outcome, CodecError, Raster, RasterView,
};
use crate::text::{
    chars_of, decimal_chars, decimal_nat_chars, first_index, last_index, lowercase, push_all,
    push_str, same_text, spec_decimal, spec_decimal_nat, spec_first_index, spec_last_index,
    spec_lowercase, spec_starts_with, string_of, text_starts_with,
};
use vstd::prelude::*;

verus! {

/// The media type that `infer::get` finds in the first bytes of a file, if
/// it knows them.
pub uninterp spec fn sniffed_mime(bytes: Seq<u8>) -> Option<Seq<char>>;

/// `infer::get` and `Type::mime_type`: the media type of a file, told from
/// its first bytes against a fixed table of signatures; none where no
/// signature of the table matches. The contract only gives the result its name.
#[verifier::external_body]
pub(crate) fn sniff_mime(bytes: &[u8]) -> (mime: Option<String>)
    ensures
        sniffed_mime(bytes@) == match mime {
            Some(m) => Some(m@),
            None => None,
        },
{
    match infer::get(bytes) {
        Some(kind) => Some(kind.mime_type().to_string()),
        None => None,
    }
}

/// The format that a media type names; PNG for any other and where there is none.
pub fn format_from_mime(mime: &Option<String>) -> (format: ImageFormat)
    ensures
        format == ImageFormat::spec_from_mime(
            match mime {
                Some(m) => Some(m@),
                None => None,
            },
        ),
{
    match mime {
        None => ImageFormat::Png,
        Some(m) => {
            let m = m.as_str();
            if same_text(m, "image/jpeg") {
                ImageFormat::Jpeg
            } else if same_text(m, "image/gif") {
                ImageFormat::Gif
            } else if same_text(m, "image/webp") {
                ImageFormat::WebP
            } else if same_text(m, "image/bmp") {
                ImageFormat::Bmp
            } else if same_text(m, "image/tiff") {
                ImageFormat::Tiff
            } else {
                ImageFormat::Png
            }
        },
    }
}

/// The format of a file, told from its content and not from its name. A file
/// whose content is not known counts as PNG.
pub fn detect_image_format(bytes: &[u8]) -> (format: ImageFormat)
    ensures
        format == ImageFormat::spec_from_mime(sniffed_mime(bytes@)),
{
    let mime = sniff_mime(bytes);
    format_from_mime(&mime)
}

/// The extension that files of a format are stored under.
pub fn format_to_extension(format: ImageFormat) -> (extension: &'static str)
    ensures
        extension@ == format.spec_extension(),
{
    match format {
        ImageFormat::Jpeg => "jpg",
        ImageFormat::Png => "png",
        ImageFormat::Gif => "gif",
        ImageFormat::WebP => "webp",
        ImageFormat::Bmp => "bmp",
        ImageFormat::Tiff => "tiff",
    }
}

/// The extension of a file name: what follows its last dot. A name without a
/// dot has none, and neither has one whose only dot is its first character.
pub open spec fn spec_extension(name: Seq<char>) -> Option<Seq<char>> {
    let dot = spec_last_index(name, '.');
    if dot <= 0 {
        None
    } else {
        Some(name.skip(dot + 1))
    }
}

/// Whether `extension`, already in lower case, is one that image files have.
pub open spec fn spec_is_image_extension(extension: Seq<char>) -> bool {
    ||| extension == "png"@
    ||| extension == "jpg"@
    ||| extension == "jpeg"@
    ||| extension == "gif"@
    ||| extension == "bmp"@
    ||| extension == "tiff"@
    ||| extension == "webp"@
}

/// Whether a file name has the extension of an image file, in any letter case.
pub open spec fn spec_is_image_file(name: Seq<char>) -> bool {
    match spec_extension(name) {
        None => false,
        Some(extension) => spec_is_image_extension(spec_lowercase(extension)),
    }
}

/// The extension of a file name, if it has one.
pub fn extension_of(name: &str) -> (extension: Option<String>)
    ensures
        spec_extension(name@) == match extension {
            Some(e) => Some(e@),
            None => None,
        },
{
    let chars = chars_of(name);
    let length: usize = chars.len();
    proof {
        crate::text::lemma_last_index(chars@, '.');
    }
    match last_index(&chars, '.') {
        None => None,
        Some(dot) => {
            if dot == 0 {
                None
            } else {
                let mut rest: Vec<char> = Vec::new();
                let mut i: usize = dot + 1;
                while i < chars.len()
                    invariant
                        dot + 1 <= i <= chars.len(),
                        rest@ == chars@.subrange(dot + 1, i as int),
                    decreases chars.len() - i,
                {
                    rest.push(chars[i]);
                    assert(chars@.subrange(dot + 1, i + 1) =~= chars@.subrange(
                        dot + 1,
                        i as int,
                    ).push(chars@[i as int]));
                    i += 1;
                }
                assert(chars@.subrange(dot + 1, chars@.len() as int) =~= chars@.skip(dot + 1));
                Some(string_of(&rest))
            }
        },
    }
}

/// Whether a file name has the extension of an image file: png, jpg, jpeg,
/// gif, bmp, tiff or webp, in any letter case.
pub fn is_image_file(name: &str) -> (r: bool)
    ensures
        r == spec_is_image_file(name@),
{
    match extension_of(name) {
        None => false,
        Some(extension) => {
            let lower = lowercase(extension.as_str());
            let e = lower.as_str();
            same_text(e, "png") || same_text(e, "jpg") || same_text(e, "jpeg") || same_text(
                e,
                "gif",
            ) || same_text(e, "bmp") || same_text(e, "tiff") || same_text(e, "webp")
        },
    }
}

/// A file name up to its first dot.
pub open spec fn spec_base_name(name: Seq<char>) -> Seq<char> {
    name.take(spec_first_index(name, '.'))
}

/// The name of the thumbnail that belongs to a stored file: for a file named
/// `image_…`, `thumb_` before its base name and `.png` after; for any other,
/// `thumb_` before its whole name.
pub open spec fn spec_thumbnail_name(name: Seq<char>) -> Seq<char> {
    if spec_starts_with(name, "image_"@) {
        "thumb_"@ + spec_base_name(name) + ".png"@
    } else {
        "thumb_"@ + name
    }
}

/// A file name up to its first dot.
pub fn base_name(name: &str) -> (base: Vec<char>)
    ensures
        base@ == spec_base_name(name@),
{
    let chars = chars_of(name);
    let end = first_index(&chars, '.');
    let mut base: Vec<char> = Vec::new();
    let mut i: usize = 0;
    proof {
        crate::text::lemma_first_index(chars@, '.');
    }
    while i < end
        invariant
            i <= end <= chars.len(),
            base@ == chars@.take(i as int),
        decreases end - i,
    {
        base.push(chars[i]);
        assert(chars@.take(i + 1) =~= chars@.take(i as int).push(chars@[i as int]));
        i += 1;
    }
    base
}

/// The name of the thumbnail that belongs to a stored file.
pub fn thumbnail_name(name: &str) -> (thumb: String)
    ensures
        thumb@ == spec_thumbnail_name(name@),
{
    let mut out: Vec<char> = Vec::new();
    push_str(&mut out, "thumb_");
    if text_starts_with(name, "image_") {
        let base = base_name(name);
        push_all(&mut out, &base);
        push_str(&mut out, ".png");
    } else {
        push_str(&mut out, name);
    }
    assert(out@ =~= spec_thumbnail_name(name@));
    string_of(&out)
}

/// Whether a file counts as an original of its folder: an image file that is
/// neither a thumbnail nor the metadata file.
pub open spec fn spec_is_original(name: Seq<char>) -> bool {
    &&& spec_is_image_file(name)
    &&& !spec_starts_with(name, "thumb_"@)
    &&& name != "meta.json"@
}

/// Whether a file counts as an original of its folder.
pub fn is_original(name: &str) -> (r: bool)
    ensures
        r == spec_is_original(name@),
{
    is_image_file(name) && !text_starts_with(name, "thumb_") && !same_text(name, "meta.json")
}

/// The number of originals among the files of a folder.
pub open spec fn spec_count_originals(files: Seq<Seq<char>>) -> nat
    decreases files.len(),
{
    if files.len() == 0 {
        0
    } else {
        spec_count_originals(files.drop_last()) + if spec_is_original(files.last()) {
            1nat
        } else {
            0nat
        }
    }
}

/// A folder that counts no originals holds none.
pub proof fn lemma_no_originals(files: Seq<Seq<char>>)
    ensures
        spec_count_originals(files) == 0 <==> forall|i: int|
            0 <= i < files.len() ==> !spec_is_original(#[trigger] files[i]),
    decreases files.len(),
{
    if files.len() != 0 {
        let rest = files.drop_last();
        lemma_no_originals(rest);
        if spec_count_originals(files) == 0 {
            assert forall|i: int| 0 <= i < files.len() implies !spec_is_original(
                #[trigger] files[i],
            ) by {
                if i < rest.len() {
                    assert(files[i] == rest[i]);
                }
            }
        } else if forall|i: int| 0 <= i < files.len() ==> !spec_is_original(#[trigger] files[i]) {
            assert(!spec_is_original(files.last()));
            assert forall|i: int| 0 <= i < rest.len() implies !spec_is_original(
                #[trigger] rest[i],
            ) by {
                assert(rest[i] == files[i]);
            }
        }
    }
}

/// The number of originals among the files of a folder: the image files that
/// are neither thumbnails nor the metadata file.
pub fn count_image_files_in_folder(files: &Vec<String>) -> (count: usize)
    ensures
        count == spec_count_originals(texts(files@)),
{
    let mut count: usize = 0;
    let mut i: usize = 0;
    let ghost names = texts(files@);
    while i < files.len()
        invariant
            i <= files.len(),
            names == texts(files@),
            count == spec_count_originals(names.take(i as int)),
            count <= i,
        decreases files.len() - i,
    {
        assert(names.take(i + 1).drop_last() =~= names.take(i as int));
        assert(names.take(i + 1).last() == files@[i as int]@);
        if is_original(files[i].as_str()) {
            count += 1;
        }
        i += 1;
    }
    assert(names.take(files.len() as int) =~= names);
    count
}

} // verus!

verus! {

/// A directory of the store, as far as a deletion looks at it: its own name,
/// the names of the files directly in it, and whether it is there at all.
pub struct ArtifactFolder {
    pub name: String,
    pub files: Vec<String>,
    pub present: bool,
}

/// What a directory of the store holds.
pub struct FolderView {
    pub name: Seq<char>,
    pub files: Seq<Seq<char>>,
    pub present: bool,
}

impl View for ArtifactFolder {
    type V = FolderView;

    open spec fn view(&self) -> FolderView {
        FolderView { name: self.name@, files: texts(self.files@), present: self.present }
    }
}

/// One step of a deletion, for the caller to carry out on disk.
pub enum FileAction {
    /// Remove the file of this name from the directory.
    RemoveFile(String),
    /// Remove the directory with all that is left in it.
    RemoveFolder,
}

/// What a step of a deletion says.
pub enum ActionView {
    RemoveFile(Seq<char>),
    RemoveFolder,
}

impl View for FileAction {
    type V = ActionView;

    open spec fn view(&self) -> ActionView {
        match self {
            FileAction::RemoveFile(name) => ActionView::RemoveFile(name@),
            FileAction::RemoveFolder => ActionView::RemoveFolder,
        }
    }
}

/// What a list of steps says.
pub open spec fn action_views(actions: Seq<FileAction>) -> Seq<ActionView> {
    Seq::new(actions.len(), |i: int| actions[i]@)
}

/// Why a deletion was refused.
#[derive(Clone, Copy, Debug, PartialEq, Eq, Structural)]
pub enum DeleteError {
    /// The directory is the root of the store, which is never removed.
    RootFolder,
}

impl DeleteError {
    /// A sentence for the user.
    pub fn message(&self) -> (text: &'static str)
        ensures
            text@ == "Cannot delete root images folder"@,
    {
        "Cannot delete root images folder"
    }
}

/// The steps of a deletion, in order, and how it ended. Steps listed before a
/// refusal are still to be carried out.
pub struct Removal {
    pub actions: Vec<FileAction>,
    pub outcome: Result<(), DeleteError>,
}

/// A deletion: the directory after it, its steps, and how it ended.
pub struct Deletion {
    pub folder: FolderView,
    pub actions: Seq<ActionView>,
    pub outcome: Result<(), DeleteError>,
}

/// The name of the root directory of the store.
pub open spec fn spec_root_name() -> Seq<char> {
    "images"@
}

/// `files` without every file named `name`.
pub open spec fn spec_without(files: Seq<Seq<char>>, name: Seq<char>) -> Seq<Seq<char>>
    decreases files.len(),
{
    if files.len() == 0 {
        files
    } else if files.last() == name {
        spec_without(files.drop_last(), name)
    } else {
        spec_without(files.drop_last(), name).push(files.last())
    }
}

/// A file is left by `spec_without` exactly if it was there and does not have
/// the name that was removed.
pub proof fn lemma_without_contains(files: Seq<Seq<char>>, name: Seq<char>, other: Seq<char>)
    ensures
        spec_without(files, name).contains(other) <==> (files.contains(other) && other != name),
    decreases files.len(),
{
    let out = spec_without(files, name);
    if files.len() != 0 {
        let rest = files.drop_last();
        let sub = spec_without(rest, name);
        lemma_without_contains(rest, name, other);
        if out.contains(other) {
            let i = choose|i: int| 0 <= i < out.len() && out[i] == other;
            if files.last() != name && i == out.len() - 1 {
                assert(files[files.len() - 1] == other);
            } else {
                assert(sub[i] == other);
                assert(sub.contains(other));
                let j = choose|j: int| 0 <= j < rest.len() && rest[j] == other;
                assert(files[j] == other);
            }
        }
        if files.contains(other) && other != name {
            let j = choose|j: int| 0 <= j < files.len() && files[j] == other;
            if j == files.len() - 1 {
                assert(out[out.len() - 1] == other);
            } else {
                assert(rest[j] == other);
                assert(rest.contains(other));
                let i = choose|i: int| 0 <= i < sub.len() && sub[i] == other;
                assert(out[i] == other);
            }
        }
    }
}

/// Removing a file and its thumbnail: where the directory is there and holds a
/// file named `name`, that file goes, and with it the file that bears its
/// thumbnail's name, if there is one. Nothing else is touched.
pub open spec fn spec_delete_single(folder: FolderView, name: Seq<char>) -> Deletion {
    if !folder.present || !folder.files.contains(name) {
        Deletion { folder, actions: Seq::empty(), outcome: Ok(()) }
    } else {
        let thumb = spec_thumbnail_name(name);
        let rest = spec_without(folder.files, name);
        if rest.contains(thumb) {
            Deletion {
                folder: FolderView { files: spec_without(rest, thumb), ..folder },
                actions: seq![ActionView::RemoveFile(name), ActionView::RemoveFile(thumb)],
                outcome: Ok(()),
            }
        } else {
            Deletion {
                folder: FolderView { files: rest, ..folder },
                actions: seq![ActionView::RemoveFile(name)],
                outcome: Ok(()),
            }
        }
    }
}

/// Removing a directory with all that is in it. A directory that is not there
/// is left alone; the root of the store is refused.
pub open spec fn spec_delete_folder(folder: FolderView) -> Deletion {
    if !folder.present {
        Deletion { folder, actions: Seq::empty(), outcome: Ok(()) }
    } else if folder.name == spec_root_name() {
        Deletion { folder, actions: Seq::empty(), outcome: Err(DeleteError::RootFolder) }
    } else {
        Deletion {
            folder: FolderView { files: Seq::empty(), present: false, ..folder },
            actions: seq![ActionView::RemoveFolder],
            outcome: Ok(()),
        }
    }
}

/// One deletion followed by another.
pub open spec fn spec_then(first: Deletion, second: Deletion) -> Deletion {
    Deletion {
        folder: second.folder,
        actions: first.actions + second.actions,
        outcome: second.outcome,
    }
}

/// What deleting does, by what the request refers to.
///
/// - A folder entry: its directory goes, with all that is in it.
/// - A single image: the file and its thumbnail go, and then the directory
///   that was made for them.
/// - A file shown from inside a folder entry: only that file and its thumbnail
///   go; the directory goes too once no original is left in it.
///
/// A file or directory that is not there counts as deleted already.
pub open spec fn spec_delete_image(folder: FolderView, name: Seq<char>, kind: ImageType) -> Deletion {
    match kind {
        ImageType::Folder => spec_delete_folder(folder),
        ImageType::Image => {
            if !folder.present || !folder.files.contains(name) {
                Deletion { folder, actions: Seq::empty(), outcome: Ok(()) }
            } else {
                let single = spec_delete_single(folder, name);
                spec_then(single, spec_delete_folder(single.folder))
            }
        },
        ImageType::FromFolder => {
            let single = spec_delete_single(folder, name);
            if !folder.present || !folder.files.contains(name) {
                single
            } else if spec_count_originals(single.folder.files) == 0 {
                spec_then(single, spec_delete_folder(single.folder))
            } else {
                single
            }
        },
    }
}

/// The texts of a list of names with one more name at its end.
pub proof fn lemma_texts_push(names: Seq<String>, name: String)
    ensures
        texts(names.push(name)) == texts(names).push(name@),
{
    assert(texts(names.push(name)) =~= texts(names).push(name@));
}

/// Whether a file named `name` is among `files`.
pub fn has_name(files: &Vec<String>, name: &str) -> (found: bool)
    ensures
        found == texts(files@).contains(name@),
{
    let ghost names = texts(files@);
    let mut i: usize = 0;
    while i < files.len()
        invariant
            i <= files.len(),
            names == texts(files@),
            forall|k: int| 0 <= k < i ==> names[k] != name@,
        decreases files.len() - i,
    {
        if same_text(files[i].as_str(), name) {
            assert(names[i as int] == name@);
            return true;
        }
        i += 1;
    }
    false
}

/// `files` without every file named `name`.
pub fn without_name(files: &Vec<String>, name: &str) -> (out: Vec<String>)
    ensures
        texts(out@) == spec_without(texts(files@), name@),
{
    let ghost names = texts(files@);
    let mut out: Vec<String> = Vec::new();
    let mut i: usize = 0;
    assert(texts(out@) =~= spec_without(names.take(0), name@));
    while i < files.len()
        invariant
            i <= files.len(),
            names == texts(files@),
            texts(out@) == spec_without(names.take(i as int), name@),
        decreases files.len() - i,
    {
        assert(names.take(i + 1).drop_last() =~= names.take(i as int));
        assert(names.take(i + 1).last() == files@[i as int]@);
        if !same_text(files[i].as_str(), name) {
            proof {
                lemma_texts_push(out@, files@[i as int]);
            }
            out.push(files[i].clone());
        }
        i += 1;
    }
    assert(names.take(files.len() as int) =~= names);
    out
}

/// Removes a file and its thumbnail from a directory, and nothing else.
pub fn delete_single_file_with_thumbnail(folder: &mut ArtifactFolder, name: &str) -> (actions: Vec<
    FileAction,
>)
    ensures
        final(folder)@ == spec_delete_single(old(folder)@, name@).folder,
        action_views(actions@) == spec_delete_single(old(folder)@, name@).actions,
{
    let mut actions: Vec<FileAction> = Vec::new();
    if !folder.present || !has_name(&folder.files, name) {
        assert(action_views(actions@) =~= Seq::<ActionView>::empty());
        return actions;
    }
    let thumb = thumbnail_name(name);
    let rest = without_name(&folder.files, name);
    actions.push(FileAction::RemoveFile(name.to_owned()));
    if has_name(&rest, thumb.as_str()) {
        let left = without_name(&rest, thumb.as_str());
        folder.files = left;
        actions.push(FileAction::RemoveFile(thumb));
        assert(action_views(actions@) =~= seq![
            ActionView::RemoveFile(name@),
            ActionView::RemoveFile(spec_thumbnail_name(name@)),
        ]);
    } else {
        folder.files = rest;
        assert(action_views(actions@) =~= seq![ActionView::RemoveFile(name@)]);
    }
    actions
}

/// Removes a directory with all that is in it, unless it is the root of the store.
pub fn delete_entire_folder(folder: &mut ArtifactFolder) -> (removal: Removal)
    ensures
        final(folder)@ == spec_delete_folder(old(folder)@).folder,
        action_views(removal.actions@) == spec_delete_folder(old(folder)@).actions,
        removal.outcome == spec_delete_folder(old(folder)@).outcome,
{
    let mut actions: Vec<FileAction> = Vec::new();
    if !folder.present {
        assert(action_views(actions@) =~= Seq::<ActionView>::empty());
        return Removal { actions, outcome: Ok(()) };
    }
    if same_text(folder.name.as_str(), "images") {
        assert(action_views(actions@) =~= Seq::<ActionView>::empty());
        return Removal { actions, outcome: Err(DeleteError::RootFolder) };
    }
    folder.files = Vec::new();
    folder.present = false;
    actions.push(FileAction::RemoveFolder);
    assert(action_views(actions@) =~= seq![ActionView::RemoveFolder]);
    assert(texts(folder.files@) =~= Seq::<Seq<char>>::empty());
    Removal { actions, outcome: Ok(()) }
}

/// Appends the steps of `second` to `first`.
fn append_actions(first: &mut Vec<FileAction>, second: Vec<FileAction>)
    ensures
        action_views(final(first)@) == action_views(old(first)@) + action_views(second@),
{
    let mut second = second;
    let ghost a = first@;
    let ghost b = second@;
    first.append(&mut second);
    assert(action_views(first@) =~= action_views(a) + action_views(b));
}

/// Deletes what a request refers to from the directory `folder`.
///
/// `name` is the name of the file within the directory; it is not looked at
/// for a folder entry. The result lists what is to be removed on disk, in
/// order, and `folder` is left as the directory will be once that is done.
pub fn delete_image(folder: &mut ArtifactFolder, name: &str, image_type: ImageType) -> (removal:
    Removal)
    ensures
        final(folder)@ == spec_delete_image(old(folder)@, name@, image_type).folder,
        action_views(removal.actions@) == spec_delete_image(
            old(folder)@,
            name@,
            image_type,
        ).actions,
        removal.outcome == spec_delete_image(old(folder)@, name@, image_type).outcome,
{
    match image_type {
        ImageType::Folder => delete_entire_folder(folder),
        ImageType::Image => {
            if !folder.present || !has_name(&folder.files, name) {
                let actions: Vec<FileAction> = Vec::new();
                assert(action_views(actions@) =~= Seq::<ActionView>::empty());
                return Removal { actions, outcome: Ok(()) };
            }
            let mut actions = delete_single_file_with_thumbnail(folder, name);
            let rest = delete_entire_folder(folder);
            append_actions(&mut actions, rest.actions);
            Removal { actions, outcome: rest.outcome }
        },
        ImageType::FromFolder => {
            let was_there = folder.present && has_name(&folder.files, name);
            let mut actions = delete_single_file_with_thumbnail(folder, name);
            if was_there && count_image_files_in_folder(&folder.files) == 0 {
                let rest = delete_entire_folder(folder);
                append_actions(&mut actions, rest.actions);
                Removal { actions, outcome: rest.outcome }
            } else {
                Removal { actions, outcome: Ok(()) }
            }
        },
    }
}

/// The root of the store is never removed, whatever is asked for.
pub proof fn lemma_root_is_kept(folder: FolderView, name: Seq<char>, kind: ImageType)
    requires
        folder.name == spec_root_name(),
    ensures
        spec_delete_image(folder, name, kind).folder.present == folder.present,
        !spec_delete_image(folder, name, kind).actions.contains(ActionView::RemoveFolder),
{
    let d = spec_delete_image(folder, name, kind);
    assert forall|i: int| 0 <= i < d.actions.len() implies d.actions[i]
        != ActionView::RemoveFolder by {
        let single = spec_delete_single(folder, name);
        assert(forall|k: int|
            0 <= k < single.actions.len() ==> single.actions[k] != ActionView::RemoveFolder);
    }
}

/// Deleting a second time what was deleted with success changes nothing and
/// succeeds again.
pub proof fn lemma_delete_is_idempotent(folder: FolderView, name: Seq<char>, kind: ImageType)
    requires
        spec_delete_image(folder, name, kind).outcome is Ok,
    ensures
        spec_delete_image(spec_delete_image(folder, name, kind).folder, name, kind).folder
            == spec_delete_image(folder, name, kind).folder,
        spec_delete_image(spec_delete_image(folder, name, kind).folder, name, kind).actions
            == Seq::<ActionView>::empty(),
        spec_delete_image(spec_delete_image(folder, name, kind).folder, name, kind).outcome is Ok,
{
    let first = spec_delete_image(folder, name, kind);
    let thumb = spec_thumbnail_name(name);
    let rest = spec_without(folder.files, name);
    lemma_without_contains(folder.files, name, name);
    lemma_without_contains(rest, thumb, name);
    let single = spec_delete_single(folder, name);
    if folder.present {
        assert(!single.folder.files.contains(name));
        assert(!first.folder.files.contains(name)) by {
            if first.folder.files != single.folder.files && first.folder.files != folder.files {
                assert(first.folder.files =~= Seq::<Seq<char>>::empty());
            }
        }
    }
    let second = spec_delete_image(first.folder, name, kind);
    assert(second.actions =~= Seq::<ActionView>::empty());
}

/// Deleting a file shown from inside a folder entry leaves every other file
/// of the directory in place, as long as an original is left.
pub proof fn lemma_siblings_are_kept(folder: FolderView, name: Seq<char>, other: Seq<char>)
    requires
        folder.present,
        folder.files.contains(name),
        folder.files.contains(other),
        other != name,
        other != spec_thumbnail_name(name),
        spec_is_original(other),
    ensures
        spec_delete_image(folder, name, ImageType::FromFolder).folder.present,
        spec_delete_image(folder, name, ImageType::FromFolder).folder.files.contains(other),
        !spec_delete_image(folder, name, ImageType::FromFolder).actions.contains(
            ActionView::RemoveFolder,
        ),
{
    let thumb = spec_thumbnail_name(name);
    let rest = spec_without(folder.files, name);
    lemma_without_contains(folder.files, name, other);
    lemma_without_contains(rest, thumb, other);
    let single = spec_delete_single(folder, name);
    assert(single.folder.files.contains(other));
    lemma_no_originals(single.folder.files);
    let d = spec_delete_image(folder, name, ImageType::FromFolder);
    assert(d == single);
    assert forall|i: int| 0 <= i < d.actions.len() implies d.actions[i]
        != ActionView::RemoveFolder by {}
}

} // verus!

verus! {

/// The longest side a thumbnail may have, in pixels.
pub const THUMBNAIL_SIDE: u32 = 500;

/// The path of the file or directory `name` inside `directory`.
pub open spec fn spec_join(directory: Seq<char>, name: Seq<char>) -> Seq<char> {
    directory + seq!['/'] + name
}

/// The path of the file or directory `name` inside `directory`.
pub fn join_path(directory: &str, name: &str) -> (path: String)
    ensures
        path@ == spec_join(directory@, name@),
{
    let mut out = chars_of(directory);
    out.push('/');
    push_str(&mut out, name);
    assert(out@ =~= spec_join(directory@, name@));
    string_of(&out)
}

/// What the position of a file within its folder adds to its stored name.
pub open spec fn spec_index_suffix(index: Option<int>) -> Seq<char> {
    match index {
        Some(n) => "_"@ + spec_decimal_nat(n as nat),
        None => Seq::empty(),
    }
}

/// The name an original is stored under: `image_<id>.<ext>` for a single
/// image, `image_<id>_<n>.<ext>` for the file at position `n` of its folder.
pub open spec fn spec_image_name(id: int, index: Option<int>, format: ImageFormat) -> Seq<char> {
    "image_"@ + spec_decimal(id) + spec_index_suffix(index) + "."@ + format.spec_extension()
}

/// The name a thumbnail is stored under: `thumb_image_<id>.png` or
/// `thumb_image_<id>_<n>.png`. Thumbnails are always PNG files.
pub open spec fn spec_thumb_name(id: int, index: Option<int>) -> Seq<char> {
    "thumb_image_"@ + spec_decimal(id) + spec_index_suffix(index) + ".png"@
}

/// The directory of the catalog entry `id` under the root of the store.
pub open spec fn spec_entry_directory(root: Seq<char>, id: int) -> Seq<char> {
    spec_join(root, spec_decimal(id))
}

/// Appends to `out` what the position of a file adds to its stored name.
fn push_index_suffix(out: &mut Vec<char>, index: Option<u64>)
    ensures
        final(out)@ == old(out)@ + spec_index_suffix(
            match index {
                Some(n) => Some(n as int),
                None => None,
            },
        ),
{
    match index {
        None => {
            assert(out@ =~= out@ + Seq::<char>::empty());
        },
        Some(n) => {
            let ghost before = out@;
            push_str(out, "_");
            let digits = decimal_nat_chars(n);
            push_all(out, &digits);
            assert(out@ =~= before + ("_"@ + spec_decimal_nat(n as nat)));
        },
    }
}

/// The name an original is stored under.
pub fn image_file_name(id: i64, index: Option<u64>, format: ImageFormat) -> (name: String)
    ensures
        name@ == spec_image_name(
            id as int,
            match index {
                Some(n) => Some(n as int),
                None => None,
            },
            format,
        ),
{
    let mut out: Vec<char> = Vec::new();
    push_str(&mut out, "image_");
    let digits = decimal_chars(id);
    push_all(&mut out, &digits);
    push_index_suffix(&mut out, index);
    push_str(&mut out, ".");
    push_str(&mut out, format_to_extension(format));
    assert(out@ =~= spec_image_name(
        id as int,
        match index {
            Some(n) => Some(n as int),
            None => None,
        },
        format,
    ));
    string_of(&out)
}

/// The name a thumbnail is stored under.
pub fn thumb_file_name(id: i64, index: Option<u64>) -> (name: String)
    ensures
        name@ == spec_thumb_name(
            id as int,
            match index {
                Some(n) => Some(n as int),
                None => None,
            },
        ),
{
    let mut out: Vec<char> = Vec::new();
    push_str(&mut out, "thumb_image_");
    let digits = decimal_chars(id);
    push_all(&mut out, &digits);
    push_index_suffix(&mut out, index);
    push_str(&mut out, ".png");
    assert(out@ =~= spec_thumb_name(
        id as int,
        match index {
            Some(n) => Some(n as int),
            None => None,
        },
    ));
    string_of(&out)
}

/// The directory of the catalog entry `id` under the root of the store.
pub fn entry_directory(images_root: &str, id: i64) -> (directory: String)
    ensures
        directory@ == spec_entry_directory(images_root@, id as int),
{
    let digits = decimal_chars(id);
    let name = string_of(&digits);
    join_path(images_root, name.as_str())
}

/// Whether a file is taken: as an original where `strict` is set, and else as
/// any image file.
pub open spec fn spec_takes(name: Seq<char>, strict: bool) -> bool {
    if strict {
        spec_is_original(name)
    } else {
        spec_is_image_file(name)
    }
}

/// The positions of the files that are taken, in the order of the listing.
pub open spec fn spec_positions(names: Seq<Seq<char>>, strict: bool) -> Seq<usize>
    decreases names.len(),
{
    if names.len() == 0 {
        Seq::empty()
    } else {
        let rest = spec_positions(names.drop_last(), strict);
        if spec_takes(names.last(), strict) {
            rest.push((names.len() - 1) as usize)
        } else {
            rest
        }
    }
}

/// The names of the files that are taken, in the order of the listing.
pub open spec fn spec_picked(names: Seq<Seq<char>>, strict: bool) -> Seq<Seq<char>> {
    let positions = spec_positions(names, strict);
    Seq::new(positions.len(), |i: int| names[positions[i] as int])
}

/// The positions of the files that are taken lie within the listing and are
/// no more than the files.
pub proof fn lemma_positions(names: Seq<Seq<char>>, strict: bool)
    requires
        names.len() <= usize::MAX,
    ensures
        spec_positions(names, strict).len() <= names.len(),
        forall|i: int|
            0 <= i < spec_positions(names, strict).len() ==> {
                &&& (#[trigger] spec_positions(names, strict)[i]) < names.len()
                &&& spec_takes(names[spec_positions(names, strict)[i] as int], strict)
            },
    decreases names.len(),
{
    if names.len() != 0 {
        let rest = names.drop_last();
        lemma_positions(rest, strict);
        let p = spec_positions(names, strict);
        let q = spec_positions(rest, strict);
        assert forall|i: int| 0 <= i < p.len() implies {
            &&& (#[trigger] p[i]) < names.len()
            &&& spec_takes(names[p[i] as int], strict)
        } by {
            if i < q.len() {
                assert(p[i] == q[i]);
                assert(names[q[i] as int] == rest[q[i] as int]);
            }
        }
    }
}

/// Whether a file is taken.
pub fn takes(name: &str, strict: bool) -> (r: bool)
    ensures
        r == spec_takes(name@, strict),
{
    if strict {
        is_original(name)
    } else {
        is_image_file(name)
    }
}

/// The positions of the files that are taken, in the order of the listing.
pub fn select_positions(names: &Vec<String>, strict: bool) -> (positions: Vec<usize>)
    ensures
        positions@ == spec_positions(texts(names@), strict),
{
    let ghost all = texts(names@);
    let mut positions: Vec<usize> = Vec::new();
    let mut i: usize = 0;
    while i < names.len()
        invariant
            i <= names.len(),
            all == texts(names@),
            positions@ == spec_positions(all.take(i as int), strict),
        decreases names.len() - i,
    {
        assert(all.take(i + 1).drop_last() =~= all.take(i as int));
        assert(all.take(i + 1).last() == names@[i as int]@);
        if takes(names[i].as_str(), strict) {
            positions.push(i);
        }
        i += 1;
    }
    assert(all.take(names.len() as int) =~= all);
    positions
}

/// The names at `positions` of `names`.
pub fn pick_names(names: &Vec<String>, positions: &Vec<usize>) -> (picked: Vec<String>)
    requires
        forall|i: int| 0 <= i < positions.len() ==> positions[i] < names.len(),
    ensures
        texts(picked@) == Seq::new(
            positions@.len(),
            |i: int| texts(names@)[positions@[i] as int],
        ),
{
    let mut picked: Vec<String> = Vec::new();
    let mut i: usize = 0;
    while i < positions.len()
        invariant
            i <= positions.len(),
            picked.len() == i,
            forall|i: int| 0 <= i < positions.len() ==> positions[i] < names.len(),
            forall|k: int| 0 <= k < i ==> picked@[k]@ == names@[positions@[k] as int]@,
        decreases positions.len() - i,
    {
        picked.push(names[positions[i]].clone());
        i += 1;
    }
    assert(texts(picked@) =~= Seq::new(
        positions@.len(),
        |i: int| texts(names@)[positions@[i] as int],
    ));
    picked
}

/// The record that stands for one file of an expanded folder entry: it has the
/// file's own path and thumbnail path, its position as its identifier, and
/// everything else from the entry.
pub open spec fn spec_child(parent: ImageView, name: Seq<char>, index: int) -> ImageView {
    ImageView {
        id: index,
        path: spec_join(parent.path, name),
        thumbnail_path: spec_join(parent.path, "thumb_"@ + spec_base_name(name) + ".png"@),
        description: parent.description,
        tags: parent.tags,
        created_at: parent.created_at,
        is_folder: false,
        is_prepared: parent.is_prepared,
    }
}

/// `children` are the records of the originals among `files`, one each, in
/// the natural order `order` of their names.
pub open spec fn spec_expansion(
    parent: ImageView,
    files: Seq<Seq<char>>,
    order: Seq<usize>,
    children: Seq<ImageView>,
) -> bool {
    let picked = spec_picked(files, true);
    &&& is_arrangement(order, picked.len() as int)
    &&& in_natural_order(picked, order)
    &&& children.len() == picked.len()
    &&& forall|i: int|
        0 <= i < children.len() ==> #[trigger] children[i] == spec_child(
            parent,
            picked[order[i] as int],
            i,
        )
}

/// The record of one file of an expanded folder entry.
fn child_dto(parent: &ImageDTO, name: &str, index: i64) -> (child: ImageDTO)
    ensures
        child@ == spec_child(parent@, name@, index as int),
{
    let mut thumb: Vec<char> = Vec::new();
    push_str(&mut thumb, "thumb_");
    let base = base_name(name);
    push_all(&mut thumb, &base);
    push_str(&mut thumb, ".png");
    assert(thumb@ =~= "thumb_"@ + spec_base_name(name@) + ".png"@);
    let thumb_name = string_of(&thumb);
    ImageDTO {
        id: index,
        path: join_path(parent.path.as_str(), name),
        thumbnail_path: join_path(parent.path.as_str(), thumb_name.as_str()),
        description: parent.description.clone(),
        tags: duplicate_tags(&parent.tags),
        created_at: parent.created_at.clone(),
        is_folder: false,
        is_prepared: parent.is_prepared,
    }
}

/// Expands a folder entry into one record for each original in its directory.
///
/// `files` are the names of the files directly in the directory. Thumbnails
/// and the metadata file are left out; the rest comes in natural order of the
/// names, so that `img2` stands before `img10`. The records are views: they
/// are no rows of the catalog.
pub fn expand_folder_dto(image_dto: &ImageDTO, files: &Vec<String>) -> (children: Vec<ImageDTO>)
    requires
        files.len() <= i64::MAX,
    ensures
        exists|order: Seq<usize>|
            spec_expansion(image_dto@, texts(files@), order, image_views(children@)),
{
    let positions = select_positions(files, true);
    proof {
        lemma_positions(texts(files@), true);
    }
    let picked = pick_names(files, &positions);
    let order = natural_arrangement(&picked);
    let ghost names = spec_picked(texts(files@), true);
    assert(texts(picked@) =~= names);
    let mut children: Vec<ImageDTO> = Vec::new();
    let mut i: usize = 0;
    while i < order.len()
        invariant
            i <= order.len(),
            order.len() == picked.len(),
            picked.len() <= files.len() <= i64::MAX,
            is_arrangement(order@, picked.len() as int),
            texts(picked@) == names,
            children.len() == i,
            forall|k: int|
                0 <= k < i ==> (#[trigger] children@[k])@ == spec_child(
                    image_dto@,
                    names[order@[k] as int],
                    k,
                ),
        decreases order.len() - i,
    {
        let name = &picked[order[i]];
        assert(name@ == names[order@[i as int] as int]);
        children.push(child_dto(image_dto, name.as_str(), i as i64));
        i += 1;
    }
    proof {
        let views = image_views(children@);
        assert forall|k: int| 0 <= k < views.len() implies #[trigger] views[k] == spec_child(
            image_dto@,
            names[order@[k] as int],
            k,
        ) by {
            assert(views[k] == children@[k]@);
        }
        assert(spec_expansion(image_dto@, texts(files@), order@, views));
    }
    children
}

} // verus!

verus! {

/// A file to be written into the directory of a catalog entry.
pub struct StoredFile {
    pub name: String,
    pub bytes: Vec<u8>,
}

/// A file of a folder that is being imported: its name and its content.
pub struct SourceFile {
    pub name: String,
    pub bytes: Vec<u8>,
}

/// Why nothing was saved.
#[derive(Clone, Copy, Debug, PartialEq, Eq)]
pub enum SaveError {
    /// The folder holds no image file.
    EmptyFolder,
    /// An image could not be read, resized or written.
    Codec(CodecError),
    /// The metadata of the folder could not be written down.
    Metadata,
}

impl SaveError {
    /// A sentence for the user.
    pub fn message(&self) -> (text: &'static str)
        ensures
            text@ == match self {
                SaveError::EmptyFolder => "No valid image found in the folder"@,
                SaveError::Codec(e) => match e {
                    CodecError::Malformed => "Image data does not match its dimensions"@,
                    CodecError::Decode => "Failed to decode image"@,
                    CodecError::Resize => "Failed to resize image"@,
                    CodecError::Encode => "Failed to encode image"@,
                },
                SaveError::Metadata => "Failed to write folder metadata"@,
            },
    {
        match self {
            SaveError::EmptyFolder => "No valid image found in the folder",
            SaveError::Codec(e) => e.message(),
            SaveError::Metadata => "Failed to write folder metadata",
        }
    }
}

/// What saving a single image produces: the directory of the entry, the two
/// files to write into it, and their paths.
pub struct SavedImage {
    pub directory: String,
    pub image: StoredFile,
    pub thumbnail: StoredFile,
    pub image_path: String,
    pub thumbnail_path: String,
}

/// `saved` is what saving a single image gives: the two files under their
/// names in the directory of the entry, the original encoded in its own
/// format at full size, and the thumbnail as a PNG file within
/// `THUMBNAIL_SIDE` in both directions.
pub open spec fn spec_saved(
    id: int,
    images_root: Seq<char>,
    image: RasterView,
    format: ImageFormat,
    level: int,
    saved: SavedImage,
) -> bool {
    &&& saved.directory@ == spec_entry_directory(images_root, id)
    &&& saved.image.name@ == spec_image_name(id, None, format)
    &&& saved.thumbnail.name@ == spec_thumb_name(id, None)
    &&& saved.image_path@ == spec_join(saved.directory@, saved.image.name@)
    &&& saved.thumbnail_path@ == spec_join(saved.directory@, saved.thumbnail.name@)
    &&& !image.layout.spec_is_wide() ==> Some(saved.image.bytes@) == encoded_file(
        image.data,
        image.width,
        image.height,
        image.layout,
        format,
    )
    &&& spec_thumbnail_outcome(
        image,
        THUMBNAIL_SIDE as int,
        THUMBNAIL_SIDE as int,
        level,
        Some(saved.thumbnail.bytes@),
    )
}

/// Prepares the files of a single image: the original, encoded in its own
/// format at full size, and its thumbnail.
///
/// The files are named `image_<id>.<ext>` and `thumb_image_<id>.png` and
/// belong into the directory `<images_root>/<id>`. Nothing is written here;
/// where either file cannot be made, nothing is handed back at all, so that
/// the catalog entry stays unprepared. For an image with samples of 8 bits
/// that needs no resizing, the files are made exactly where both encoders
/// accept the image.
pub fn save_image_file_with_thumbnail(
    id: i64,
    images_root: &str,
    image: &Raster,
    original_format: ImageFormat,
    settings: &Settings,
) -> (result: Result<SavedImage, SaveError>)
    ensures
        !image@.wf() <==> result == Err::<SavedImage, SaveError>(
            SaveError::Codec(CodecError::Malformed),
        ),
        match result {
            Ok(saved) => spec_saved(
                id as int,
                images_root@,
                image@,
                original_format,
                settings.spec_thumb_compression() as int,
                saved,
            ),
            Err(e) => e is Codec,
        },
        result == Err::<SavedImage, SaveError>(SaveError::Codec(CodecError::Resize))
            ==> !fits_within(
            image.width as int,
            image.height as int,
            THUMBNAIL_SIDE as int,
            THUMBNAIL_SIDE as int,
        ),
        image@.wf() && !image.layout.spec_is_wide() && encoded_file(
            image.data@,
            image.width as int,
            image.height as int,
            image.layout,
            original_format,
        ) is None ==> result == Err::<SavedImage, SaveError>(
            SaveError::Codec(CodecError::Encode),
        ),
        image@.wf() && !image.layout.spec_is_wide() && encoded_file(
            image.data@,
            image.width as int,
            image.height as int,
            image.layout,
            original_format,
        ) is Some && fits_within(
            image.width as int,
            image.height as int,
            THUMBNAIL_SIDE as int,
            THUMBNAIL_SIDE as int,
        ) ==> (result is Ok <==> spec_png_of(
            image@,
            settings.spec_thumb_compression() as int,
            image.data@,
        ) is Some),
{
    let directory = entry_directory(images_root, id);
    let image_name = image_file_name(id, None, original_format);
    let thumb_name = thumb_file_name(id, None);
    let image_bytes = match save_image_as(image, original_format) {
        Ok(bytes) => bytes,
        Err(e) => {
            return Err(SaveError::Codec(e));
        },
    };
    let thumb_bytes = match generate_thumbnail_from_image(
        image,
        THUMBNAIL_SIDE,
        THUMBNAIL_SIDE,
        settings.thumb_compression(),
    ) {
        Ok(bytes) => bytes,
        Err(e) => {
            return Err(SaveError::Codec(e));
        },
    };
    let image_path = join_path(directory.as_str(), image_name.as_str());
    let thumbnail_path = join_path(directory.as_str(), thumb_name.as_str());
    Ok(
        SavedImage {
            directory,
            image: StoredFile { name: image_name, bytes: image_bytes },
            thumbnail: StoredFile { name: thumb_name, bytes: thumb_bytes },
            image_path,
            thumbnail_path,
        },
    )
}

/// The indented JSON text of an object with the given members, as
/// `serde_json` writes it: `numbers` are the members that hold a number,
/// `texts` those that hold a text. None where `serde_json` refuses.
pub uninterp spec fn json_object(
    numbers: Seq<(Seq<char>, int)>,
    texts: Seq<(Seq<char>, Seq<char>)>,
) -> Option<Seq<char>>;

/// What a list of members that hold a number says.
pub open spec fn number_members(members: Seq<(String, u64)>) -> Seq<(Seq<char>, int)> {
    Seq::new(members.len(), |i: int| (members[i].0@, members[i].1 as int))
}

/// What a list of members that hold a text says.
pub open spec fn text_members(members: Seq<(String, String)>) -> Seq<(Seq<char>, Seq<char>)> {
    Seq::new(members.len(), |i: int| (members[i].0@, members[i].1@))
}

/// `serde_json::to_string_pretty`, on an object with the members given: the
/// indented JSON text of the object. The members are put into a
/// `serde_json::Map` as they come. The contract only gives the text its name.
#[verifier::external_body]
pub(crate) fn render_object(numbers: &Vec<(String, u64)>, texts: &Vec<(String, String)>) -> (text:
    Option<String>)
    ensures
        json_object(number_members(numbers@), text_members(texts@)) == match text {
            Some(t) => Some(t@),
            None => None,
        },
{
    let mut members = serde_json::Map::new();
    for (name, value) in numbers {
        members.insert(name.clone(), serde_json::Value::from(*value));
    }
    for (name, value) in texts {
        members.insert(name.clone(), serde_json::Value::from(value.as_str()));
    }
    serde_json::to_string_pretty(&serde_json::Value::Object(members)).ok()
}

/// The text of the metadata file of a folder entry: a JSON object with the
/// members `image_count`, `next_index` and `folder_thumb`.
pub open spec fn meta_document(image_count: int, next_index: int, folder_thumb: Seq<char>) -> Option<
    Seq<char>,
> {
    json_object(
        seq![("image_count"@, image_count), ("next_index"@, next_index)],
        seq![("folder_thumb"@, folder_thumb)],
    )
}

/// The text of the metadata file of a folder entry.
pub fn render_folder_meta(image_count: u64, next_index: u64, folder_thumb: &str) -> (text: Option<
    String,
>)
    ensures
        meta_document(image_count as int, next_index as int, folder_thumb@) == match text {
            Some(t) => Some(t@),
            None => None,
        },
{
    let mut numbers: Vec<(String, u64)> = Vec::new();
    numbers.push(("image_count".to_owned(), image_count));
    numbers.push(("next_index".to_owned(), next_index));
    let mut texts: Vec<(String, String)> = Vec::new();
    texts.push(("folder_thumb".to_owned(), folder_thumb.to_owned()));
    assert(number_members(numbers@) =~= seq![
        ("image_count"@, image_count as int),
        ("next_index"@, next_index as int),
    ]);
    assert(text_members(texts@) =~= seq![("folder_thumb"@, folder_thumb@)]);
    render_object(&numbers, &texts)
}

/// The name of the thumbnail that stands for a whole folder entry.
pub open spec fn spec_folder_thumb_name() -> Seq<char> {
    "thumb_folder.png"@
}

/// The name of the metadata file of a folder entry.
pub open spec fn spec_meta_name() -> Seq<char> {
    "meta.json"@
}

/// What importing a folder produces: the directory of the entry and all that
/// is to be written into it.
///
/// `originals` and `thumbnails` go by position: the file at position `n` is
/// `image_<id>_<n>.<ext>`, its thumbnail `thumb_image_<id>_<n>.png`.
/// `saved_paths` holds, for each position, the directory and the path of the
/// thumbnail. `metadata` is the text of the metadata file. `order` tells
/// where each file came from: the file at position `n` is the image file
/// number `order[n]` of the folder, counted in the order of its listing.
pub struct FolderImport {
    pub directory: String,
    pub order: Vec<usize>,
    pub originals: Vec<StoredFile>,
    pub thumbnails: Vec<StoredFile>,
    pub folder_thumbnail: StoredFile,
    pub metadata_name: String,
    pub metadata: String,
    pub saved_paths: Vec<(String, String)>,
}

/// The names of the files of a folder.
pub open spec fn source_names(sources: Seq<SourceFile>) -> Seq<Seq<char>> {
    Seq::new(sources.len(), |i: int| sources[i].name@)
}

/// `file` is the thumbnail of the image that `bytes` decode to: the bytes
/// can be decoded, and the file is the PNG file, within `THUMBNAIL_SIDE` in
/// both directions, of a raster of the size and layout that they decode to.
pub open spec fn spec_is_thumbnail_of(bytes: Seq<u8>, level: int, file: Seq<u8>) -> bool {
    exists|raster: RasterView|
        {
            &&& #[trigger] raster.wf()
            &&& spec_first_decoded(bytes, ATTEMPTS as int) == Some(spec_shape(raster))
            &&& spec_thumbnail_outcome(
                raster,
                THUMBNAIL_SIDE as int,
                THUMBNAIL_SIDE as int,
                level,
                Some(file),
            )
        }
}

/// `import` is what the image files among `sources` give, taken in natural
/// order of their names: the original at each position is a copy of its
/// source under its stored name, with the extension of the format found in
/// its content.
pub open spec fn spec_import(
    id: int,
    images_root: Seq<char>,
    sources: Seq<SourceFile>,
    level: int,
    import: FolderImport,
) -> bool {
    let order = import.order@;
    let names = source_names(sources);
    let positions = spec_positions(names, false);
    let picked = spec_picked(names, false);
    let count = positions.len() as int;
    let directory = spec_entry_directory(images_root, id);
    &&& is_arrangement(order, count)
    &&& in_natural_order(picked, order)
    &&& import.directory@ == directory
    &&& import.originals.len() == count
    &&& import.thumbnails.len() == count
    &&& import.saved_paths.len() == count
    &&& count > 0
    &&& forall|i: int|
        0 <= i < count ==> {
            let source = sources[positions[order[i] as int] as int];
            &&& (#[trigger] import.originals[i]).name@ == spec_image_name(
                id,
                Some(i),
                ImageFormat::spec_from_mime(sniffed_mime(source.bytes@)),
            )
            &&& import.originals[i].bytes@ == source.bytes@
        }
    &&& forall|i: int|
        0 <= i < count ==> {
            &&& (#[trigger] import.thumbnails[i]).name@ == spec_thumb_name(id, Some(i))
            &&& spec_is_thumbnail_of(
                sources[positions[order[i] as int] as int].bytes@,
                level,
                import.thumbnails[i].bytes@,
            )
        }
    &&& forall|i: int|
        0 <= i < count ==> {
            &&& (#[trigger] import.saved_paths[i]).0@ == directory
            &&& import.saved_paths[i].1@ == spec_join(directory, spec_thumb_name(id, Some(i)))
        }
    &&& import.folder_thumbnail.name@ == spec_folder_thumb_name()
    &&& import.folder_thumbnail.bytes@ == import.thumbnails[0].bytes@
    &&& import.metadata_name@ == spec_meta_name()
    &&& Some(import.metadata@) == meta_document(
        count,
        count,
        spec_join(directory, spec_folder_thumb_name()),
    )
}

/// The names of the files of a folder.
fn names_of(sources: &Vec<SourceFile>) -> (names: Vec<String>)
    ensures
        texts(names@) == source_names(sources@),
{
    let mut names: Vec<String> = Vec::new();
    let mut i: usize = 0;
    while i < sources.len()
        invariant
            i <= sources.len(),
            names.len() == i,
            forall|k: int| 0 <= k < i ==> names@[k]@ == sources@[k].name@,
        decreases sources.len() - i,
    {
        names.push(sources[i].name.clone());
        i += 1;
    }
    assert(texts(names@) =~= source_names(sources@));
    names
}

/// Prepares the import of a folder of images.
///
/// `sources` are the files directly inside the folder. Those with the
/// extension of an image are taken, in natural order of their names, and
/// numbered from 0. Each is copied under its stored name, with the extension
/// of the format that its content shows, and gets a thumbnail. The thumbnail
/// of the first also stands for the whole folder, and a metadata file records
/// how many files there are. A folder without any image file is refused.
pub fn save_images_from_folder_with_thumbnails(
    id: i64,
    images_root: &str,
    sources: &Vec<SourceFile>,
    settings: &Settings,
) -> (result: Result<FolderImport, SaveError>)
    ensures
        spec_positions(source_names(sources@), false).len() == 0 <==> result == Err::<
            FolderImport,
            SaveError,
        >(SaveError::EmptyFolder),
        match result {
            Ok(import) => spec_import(
                id as int,
                images_root@,
                sources@,
                settings.spec_thumb_compression() as int,
                import,
            ),
            Err(e) => e is EmptyFolder || e is Codec || e is Metadata,
        },
        result == Err::<FolderImport, SaveError>(SaveError::Codec(CodecError::Decode))
            ==> exists|i: int|
            0 <= i < spec_positions(source_names(sources@), false).len()
                && spec_first_decoded(
                (#[trigger] sources@[spec_positions(source_names(sources@), false)[i] as int]).bytes@,
                ATTEMPTS as int,
            ) is None,
{
    let names = names_of(sources);
    let positions = select_positions(&names, false);
    proof {
        lemma_positions(texts(names@), false);
    }
    if positions.len() == 0 {
        return Err(SaveError::EmptyFolder);
    }
    let picked = pick_names(&names, &positions);
    let order = natural_arrangement(&picked);
    let ghost picked_names = spec_picked(source_names(sources@), false);
    assert(texts(picked@) =~= picked_names);
    let directory = entry_directory(images_root, id);
    let level = settings.thumb_compression();
    let mut originals: Vec<StoredFile> = Vec::new();
    let mut thumbnails: Vec<StoredFile> = Vec::new();
    let mut saved_paths: Vec<(String, String)> = Vec::new();
    let mut i: usize = 0;
    while i < order.len()
        invariant
            i <= order.len(),
            order.len() == positions.len(),
            positions@ == spec_positions(source_names(sources@), false),
            forall|k: int| 0 <= k < positions.len() ==> (#[trigger] positions@[k]) < sources.len(),
            is_arrangement(order@, positions.len() as int),
            directory@ == spec_entry_directory(images_root@, id as int),
            originals.len() == i,
            thumbnails.len() == i,
            saved_paths.len() == i,
            forall|k: int|
                0 <= k < i ==> {
                    let source = sources@[positions@[order@[k] as int] as int];
                    &&& (#[trigger] originals@[k]).name@ == spec_image_name(
                        id as int,
                        Some(k),
                        ImageFormat::spec_from_mime(sniffed_mime(source.bytes@)),
                    )
                    &&& originals@[k].bytes@ == source.bytes@
                },
            level == settings.spec_thumb_compression(),
            forall|k: int|
                0 <= k < i ==> {
                    &&& (#[trigger] thumbnails@[k]).name@ == spec_thumb_name(id as int, Some(k))
                    &&& spec_is_thumbnail_of(
                        sources@[positions@[order@[k] as int] as int].bytes@,
                        level as int,
                        thumbnails@[k].bytes@,
                    )
                },
            forall|k: int|
                0 <= k < i ==> {
                    &&& (#[trigger] saved_paths@[k]).0@ == directory@
                    &&& saved_paths@[k].1@ == spec_join(
                        directory@,
                        spec_thumb_name(id as int, Some(k)),
                    )
                },
        decreases order.len() - i,
    {
        let source = &sources[positions[order[i]]];
        let image = match open_image(source.bytes.as_slice()) {
            Ok(image) => image,
            Err(e) => {
                proof {
                    let at = order@[i as int] as int;
                    assert(0 <= at < positions.len());
                    assert(sources@[positions@[at] as int] == *source);
                }
                return Err(SaveError::Codec(e));
            },
        };
        let thumb_bytes = match generate_thumbnail_from_image(
            &image,
            THUMBNAIL_SIDE,
            THUMBNAIL_SIDE,
            level,
        ) {
            Ok(bytes) => bytes,
            Err(e) => {
                return Err(SaveError::Codec(e));
            },
        };
        proof {
            assert(spec_thumbnail_outcome(
                image@,
                THUMBNAIL_SIDE as int,
                THUMBNAIL_SIDE as int,
                level as int,
                Some(thumb_bytes@),
            ));
            assert(image@.wf());
            assert(spec_is_thumbnail_of(source.bytes@, level as int, thumb_bytes@));
        }
        let format = detect_image_format(source.bytes.as_slice());
        let image_name = image_file_name(id, Some(i as u64), format);
        let thumb_name = thumb_file_name(id, Some(i as u64));
        let thumb_path = join_path(directory.as_str(), thumb_name.as_str());
        originals.push(StoredFile { name: image_name, bytes: source.bytes.clone() });
        thumbnails.push(StoredFile { name: thumb_name, bytes: thumb_bytes });
        saved_paths.push((directory.clone(), thumb_path));
        i += 1;
    }
    let folder_thumb_path = join_path(directory.as_str(), "thumb_folder.png");
    let count: u64 = order.len() as u64;
    let metadata = match render_folder_meta(count, count, folder_thumb_path.as_str()) {
        Some(text) => text,
        None => {
            return Err(SaveError::Metadata);
        },
    };
    let folder_thumbnail = StoredFile {
        name: "thumb_folder.png".to_owned(),
        bytes: thumbnails[0].bytes.clone(),
    };
    let import = FolderImport {
        directory,
        order,
        originals,
        thumbnails,
        folder_thumbnail,
        metadata_name: "meta.json".to_owned(),
        metadata,
        saved_paths,
    };
    assert(spec_import(
        id as int,
        images_root@,
        sources@,
        settings.spec_thumb_compression() as int,
        import,
    ));
    Ok(import)
}

} // verus!
