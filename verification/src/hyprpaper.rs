//! The command that makes hyprpaper show a wallpaper, and how its outcome is read.
use vstd::prelude::*;
use vstd::string::*;

verus! {

/// Gives `std::string::String::from_utf8_lossy(bytes)` as an owned string: the
/// text of `bytes`, every invalid UTF-8 sequence replaced by U+FFFD. The text is
/// a function of the bytes alone and is named [`utf8_lossy_text`]; where the
/// bytes are valid UTF-8 it is their decoding (as the documentation says).
#[verifier::external_body]
fn utf8_lossy(bytes: &[u8]) -> (s: String)
    ensures
        s@ == utf8_lossy_text(bytes@),
        vstd::utf8::valid_utf8(bytes@) ==> s@ == vstd::utf8::decode_utf8(bytes@),
{
    String::from_utf8_lossy(bytes).into_owned()
}

/// What `String::from_utf8_lossy` makes of a byte sequence.
pub uninterp spec fn utf8_lossy_text(bytes: Seq<u8>) -> Seq<char>;

/// The hyprpaper front end, driven through `hyprctl`.
pub struct Hyprpaper;

impl Hyprpaper {
    /// The `hyprctl` executable.
    pub const PROGRAM_NAME: &'static str = "/etc/profiles/per-user/wsq/bin/hyprctl";

    /// The `hyprctl` dispatcher that talks to hyprpaper.
    pub const DISPATCHER: &'static str = "hyprpaper";

    /// The hyprpaper command that sets a wallpaper.
    pub const SET_CMD: &'static str = "wallpaper";

    /// The arguments after [`Hyprpaper::PROGRAM_NAME`] that show the image at
    /// `path` on every monitor: the dispatcher, the command, and `,<path>`.
    pub fn wallpaper_args(path: &str) -> (args: Vec<String>)
        ensures
            args@.len() == 3,
            args@[0]@ == Self::DISPATCHER@,
            args@[1]@ == Self::SET_CMD@,
            args@[2]@ == seq![','] + path@,
    {
        let mut target = String::from_str(",");
        target.append(path);
        proof {
            reveal_strlit(",");
        }
        let mut args = Vec::new();
        args.push(String::from_str(Self::DISPATCHER));
        args.push(String::from_str(Self::SET_CMD));
        args.push(target);
        args
    }

    /// Reads the outcome of `hyprctl`: success when it exited successfully,
    /// else the message of the failure, which is its standard error output,
    /// decoded leniently (the caller raises it as an I/O error of kind `Other`).
    pub fn outcome(success: bool, stderr: &[u8]) -> (r: Result<(), String>)
        ensures
            r is Ok <==> success,
            r matches Err(m) ==> m@ == utf8_lossy_text(stderr@),
    {
        if success {
            Ok(())
        } else {
            Err(utf8_lossy(stderr))
        }
    }
}

} // verus!
