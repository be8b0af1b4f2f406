//! Recognizing audio container formats from file names.

use vstd::prelude::*;
use vstd::string::*;
use crate::text::{lower_of, lowercase};

verus! {

/// What `Path::extension` finds in a path: the text after the last dot of its
/// file name, if there is one.
pub uninterp spec fn extension_of(path: Seq<char>) -> Option<Seq<char>>;

/// Relies on `Path::extension` (and `OsStr::to_str`, which cannot fail on a
/// path made from a `&str`): the extension of the path's file name, with the
/// path read by the separator rules of the target the crate is built for.
#[verifier::external_body]
pub(crate) fn path_extension(path: &str) -> (r: Option<String>)
    ensures
        r matches Some(e) ==> extension_of(path@) == Some(e@),
        r is None ==> extension_of(path@) is None,
{
    std::path::Path::new(path).extension().and_then(|e| e.to_str()).map(|e| e.to_string())
}

/// The supported audio container formats.
#[derive(Clone, Copy, PartialEq, Eq, Structural, Debug)]
pub enum AudioFormat {
    Mp3,
    Wav,
    Flac,
    M4a,
    Ogg,
    Wma,
}

/// The format a lowercase extension names.
pub open spec fn format_of_extension(ext: Seq<char>) -> Option<AudioFormat> {
    if ext == "mp3"@ {
        Some(AudioFormat::Mp3)
    } else if ext == "wav"@ {
        Some(AudioFormat::Wav)
    } else if ext == "flac"@ {
        Some(AudioFormat::Flac)
    } else if ext == "m4a"@ || ext == "mp4"@ {
        Some(AudioFormat::M4a)
    } else if ext == "ogg"@ || ext == "oga"@ {
        Some(AudioFormat::Ogg)
    } else if ext == "wma"@ {
        Some(AudioFormat::Wma)
    } else {
        None
    }
}

/// The format of a path: that of its extension, ignoring case.
pub open spec fn format_of_path(path: Seq<char>) -> Option<AudioFormat> {
    match extension_of(path) {
        Some(e) => format_of_extension(lower_of(e)),
        None => None,
    }
}

pub(crate) fn is_text(t: &String, lit: &str) -> (r: bool)
    ensures
        r == (t@ == lit@),
{
    *t == String::from_str(lit)
}

impl AudioFormat {
    /// Detects the format from the path's extension, ignoring case. A path
    /// without an extension, or with one of no supported format, is an error.
    pub fn from_path(path: &str) -> (r: Result<AudioFormat, String>)
        ensures
            r matches Ok(f) ==> format_of_path(path@) == Some(f),
            r is Err <==> format_of_path(path@) is None,
    {
        let ext = match path_extension(path) {
            Some(e) => e,
            None => {
                return Err(String::from_str("File has no extension"));
            },
        };
        let e = lowercase(ext.as_str());
        if is_text(&e, "mp3") {
            Ok(AudioFormat::Mp3)
        } else if is_text(&e, "wav") {
            Ok(AudioFormat::Wav)
        } else if is_text(&e, "flac") {
            Ok(AudioFormat::Flac)
        } else if is_text(&e, "m4a") || is_text(&e, "mp4") {
            Ok(AudioFormat::M4a)
        } else if is_text(&e, "ogg") || is_text(&e, "oga") {
            Ok(AudioFormat::Ogg)
        } else if is_text(&e, "wma") {
            Ok(AudioFormat::Wma)
        } else {
            let mut msg = String::from_str("Unsupported format: ");
            msg.append(e.as_str());
            Err(msg)
        }
    }

    pub open spec fn name_spec(self) -> Seq<char> {
        match self {
            AudioFormat::Mp3 => "MP3"@,
            AudioFormat::Wav => "WAV"@,
            AudioFormat::Flac => "FLAC"@,
            AudioFormat::M4a => "M4A"@,
            AudioFormat::Ogg => "OGG Vorbis"@,
            AudioFormat::Wma => "WMA"@,
        }
    }

    /// The format's display name.
    pub fn as_str(&self) -> (r: &'static str)
        ensures
            r@ == self.name_spec(),
    {
        match self {
            AudioFormat::Mp3 => "MP3",
            AudioFormat::Wav => "WAV",
            AudioFormat::Flac => "FLAC",
            AudioFormat::M4a => "M4A",
            AudioFormat::Ogg => "OGG Vorbis",
            AudioFormat::Wma => "WMA",
        }
    }
}

/// An audio file that exists and whose format is known.
pub struct AudioDecoder {
    path: String,
    format: AudioFormat,
}

impl AudioDecoder {
    pub closed spec fn path_spec(self) -> Seq<char> {
        self.path@
    }

    pub closed spec fn format_spec(self) -> AudioFormat {
        self.format
    }

    /// A decoder for the file at `path`, given whether the path exists and
    /// whether it is a regular file. A missing path, a path that is not a
    /// file, and a file of no supported format are errors, in that order.
    pub fn new(path: &str, exists: bool, is_file: bool) -> (r: Result<AudioDecoder, String>)
        ensures
            r is Ok <==> exists && is_file && format_of_path(path@) is Some,
            r matches Ok(d) ==> d.path_spec() == path@ && Some(d.format_spec()) == format_of_path(path@),
    {
        if !exists {
            let mut msg = String::from_str("Audio file not found: ");
            msg.append(path);
            return Err(msg);
        }
        if !is_file {
            let mut msg = String::from_str("Path is not a file: ");
            msg.append(path);
            return Err(msg);
        }
        match AudioFormat::from_path(path) {
            Ok(format) => Ok(AudioDecoder { path: String::from_str(path), format }),
            Err(e) => Err(e),
        }
    }

    pub fn format(&self) -> (r: AudioFormat)
        ensures
            r == self.format_spec(),
    {
        self.format
    }

    pub fn path(&self) -> (r: &str)
        ensures
            r@ == self.path_spec(),
    {
        self.path.as_str()
    }
}

} // verus!
