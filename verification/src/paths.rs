//! The file paths that the daemon derives: where an image is stored, the
//! metadata file beside an image, and the link to the shown image.
use vstd::prelude::*;

verus! {

/// What `Path::with_extension` makes of `path` and `extension`.
pub uninterp spec fn path_with_extension(path: Seq<char>, extension: Seq<char>) -> Seq<char>;

/// What `Path::join` makes of `base` and `name`.
pub uninterp spec fn path_joined(base: Seq<char>, name: Seq<char>) -> Seq<char>;

/// `s` holds no path separator (on Unix, no `/`).
pub open spec fn has_no_separator(s: Seq<char>) -> bool {
    forall|i: int| 0 <= i < s.len() ==> s[i] != '/'
}

/// Gives `std::path::Path::new(path).with_extension(extension)` as a string: the
/// path with the extension of its last component replaced (or added). The
/// result is a function of the two strings alone and is named
/// [`path_with_extension`]; built from UTF-8 parts, it converts back to a
/// string without loss. `PathBuf::set_extension`, which it rests on, panics
/// when the extension holds a path separator: such extensions are excluded.
#[verifier::external_body]
fn with_extension(path: &str, extension: &str) -> (p: String)
    requires
        has_no_separator(extension@),
    ensures
        p@ == path_with_extension(path@, extension@),
{
    std::path::Path::new(path).with_extension(extension).to_string_lossy().into_owned()
}

/// Gives `std::path::Path::new(base).join(name)` as a string. The result is a
/// function of the two strings alone and is named [`path_joined`]. As the
/// documentation of `PathBuf::push` says (on Unix, where a path is absolute
/// when it starts with `/`): an absolute `name` replaces `base`; a relative
/// `name` is added after `base` with a separator between them. What happens
/// when `base` is empty or already ends in `/` is left unsaid here.
#[verifier::external_body]
fn join(base: &str, name: &str) -> (p: String)
    ensures
        p@ == path_joined(base@, name@),
        name@.len() > 0 && name@[0] == '/' ==> p@ == name@,
        !(name@.len() > 0 && name@[0] == '/') && base@.len() > 0 && base@.last() != '/' ==> p@
            == base@ + seq!['/'] + name@,
{
    std::path::Path::new(base).join(name).to_string_lossy().into_owned()
}

/// The path of the metadata file that belongs to the image at `image_path`:
/// the same path with extension `json`.
pub fn metadata_path(image_path: &str) -> (p: String)
    ensures
        p@ == path_with_extension(image_path@, seq!['j', 's', 'o', 'n']),
{
    let extension = "json";
    proof {
        reveal_strlit("json");
        assert(extension@ =~= seq!['j', 's', 'o', 'n']);
    }
    with_extension(image_path, extension)
}

/// The path of the link to the shown image, beside the link to its metadata
/// at `info_path`: the same path with extension `jpg`.
pub fn wallpaper_link_path(info_path: &str) -> (p: String)
    ensures
        p@ == path_with_extension(info_path@, seq!['j', 'p', 'g']),
{
    let extension = "jpg";
    proof {
        reveal_strlit("jpg");
        assert(extension@ =~= seq!['j', 'p', 'g']);
    }
    with_extension(info_path, extension)
}

/// The path of the file `file_name` in the directory `dir`: `file_name` itself
/// when it is absolute, and `dir/file_name` when `dir` is not empty and does not
/// end in `/`.
pub fn file_in_dir(dir: &str, file_name: &str) -> (p: String)
    ensures
        p@ == path_joined(dir@, file_name@),
        file_name@.len() > 0 && file_name@[0] == '/' ==> p@ == file_name@,
        !(file_name@.len() > 0 && file_name@[0] == '/') && dir@.len() > 0 && dir@.last() != '/'
            ==> p@ == dir@ + seq!['/'] + file_name@,
{
    join(dir, file_name)
}

} // verus!
