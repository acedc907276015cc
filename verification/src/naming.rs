//! The name of the file that a converted photograph is written to.
//!
//! The name comes from the best time that is known of the photograph: the
//! time it was taken, else the time its file was last modified. Where no
//! time is known the name of the source file stands in, and where that is
//! unknown too, a fixed word.
//!
//! Two photographs with the same time, to the second, get the same name. The
//! library gives the name and nothing more: a caller that writes both files
//! to one directory keeps the one written last.

use crate::timestamp::{
    capture_time, find_capture_time, find_modification_time, modification_time, stem_text,
    text_of, Timestamp,
};
use vstd::prelude::*;
use vstd::string::StringExecFns;

verus! {

/// What a converted photograph is named after.
#[derive(Debug)]
pub enum Naming {
    /// A date-time: that of the capture or that of the last modification.
    At(Timestamp),
    /// A word with no meaning in time.
    Token(String),
}

/// What a `Naming` holds.
pub enum NamingView {
    At(Timestamp),
    Token(Seq<char>),
}

impl View for Naming {
    type V = NamingView;

    open spec fn view(&self) -> NamingView {
        match *self {
            Naming::At(at) => NamingView::At(at),
            Naming::Token(word) => NamingView::Token(word@),
        }
    }
}

/// The word that names a photograph of which nothing is known.
pub open spec fn unknown_token() -> Seq<char> {
    "unknown"@
}

/// What follows the stem in the name of a converted file.
pub open spec fn name_suffix() -> Seq<char> {
    "_uhd.jpg"@
}

/// The directory that converted files are written to, with the separator
/// that follows it in a path.
pub open spec fn directory_prefix() -> Seq<char> {
    "converted/"@
}

impl NamingView {
    /// Whether a date-time held has its fields in range.
    pub open spec fn wf(self) -> bool {
        match self {
            NamingView::At(at) => at.valid(),
            NamingView::Token(_) => true,
        }
    }

    /// The stem of the file name.
    pub open spec fn stem(self) -> Seq<char> {
        match self {
            NamingView::At(at) => stem_text(at),
            NamingView::Token(word) => word,
        }
    }

    /// The file name.
    pub open spec fn file_name(self) -> Seq<char> {
        self.stem() + name_suffix()
    }

    /// The path of the file, relative to the directory the conversion runs in.
    pub open spec fn relative_path(self) -> Seq<char> {
        directory_prefix() + self.file_name()
    }
}

/// What a photograph is named after, given the text of its three date-time
/// fields, the seconds since 1970 at which its file was last modified, and
/// the name of its file without the extension, each as far as it is known.
/// The first of these decides: a date-time in the metadata, the time of
/// modification, the name of the file, the word for an unknown photograph.
pub open spec fn named(
    original: Option<Seq<char>>,
    digitized: Option<Seq<char>>,
    changed: Option<Seq<char>>,
    modified: Option<u64>,
    base_name: Option<Seq<char>>,
) -> NamingView {
    if capture_time(original, digitized, changed) is Some {
        NamingView::At(capture_time(original, digitized, changed)->0)
    } else if modification_time(modified) is Some {
        NamingView::At(modification_time(modified)->0)
    } else if base_name is Some {
        NamingView::Token(base_name->0)
    } else {
        NamingView::Token(unknown_token())
    }
}

/// What a photograph is named after, given the time it was taken, the time
/// its file was last modified and the name of its file, each as far as it is
/// known: the first of them that is known, else the word for an unknown
/// photograph.
pub open spec fn chosen(
    captured: Option<Timestamp>,
    modified: Option<Timestamp>,
    base_name: Option<Seq<char>>,
) -> NamingView {
    if captured is Some {
        NamingView::At(captured->0)
    } else if modified is Some {
        NamingView::At(modified->0)
    } else if base_name is Some {
        NamingView::Token(base_name->0)
    } else {
        NamingView::Token(unknown_token())
    }
}

/// Decides what a photograph is named after from the times that were found
/// and the name of its file. There is always an answer.
pub fn choose_naming(
    captured: Option<Timestamp>,
    modified: Option<Timestamp>,
    base_name: Option<&str>,
) -> (naming: Naming)
    ensures
        naming@ == chosen(captured, modified, text_of(base_name)),
{
    match captured {
        Some(at) => { return Naming::At(at); },
        None => {},
    }
    match modified {
        Some(at) => { return Naming::At(at); },
        None => {},
    }
    match base_name {
        Some(word) => Naming::Token(String::from_str(word)),
        None => Naming::Token(String::from_str("unknown")),
    }
}

/// Decides what a photograph is named after. There is always an answer.
pub fn resolve_naming(
    original: Option<&str>,
    digitized: Option<&str>,
    changed: Option<&str>,
    modified: Option<u64>,
    base_name: Option<&str>,
) -> (naming: Naming)
    ensures
        naming@ == named(
            text_of(original),
            text_of(digitized),
            text_of(changed),
            modified,
            text_of(base_name),
        ),
        naming@.wf(),
{
    choose_naming(
        find_capture_time(original, digitized, changed),
        find_modification_time(modified),
        base_name,
    )
}

impl Naming {
    /// The stem of the file name: the date-time as digits, or the word.
    pub fn stem(&self) -> (text: String)
        ensures
            text@ == self@.stem(),
    {
        match self {
            Naming::At(at) => at.stem(),
            Naming::Token(word) => word.clone(),
        }
    }

    /// The name of the converted file.
    pub fn file_name(&self) -> (text: String)
        ensures
            text@ == self@.file_name(),
    {
        let mut out = self.stem();
        out.append("_uhd.jpg");
        out
    }

    /// The path of the converted file, relative to the directory the
    /// conversion runs in.
    pub fn relative_path(&self) -> (text: String)
        ensures
            text@ == self@.relative_path(),
    {
        let mut out = String::from_str("converted/");
        let name = self.file_name();
        out.append(name.as_str());
        out
    }
}

} // verus!
