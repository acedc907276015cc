//! What a slide show is assembled from: which files of a directory are
//! photographs, which are converted slides, and the list that hands the
//! slides, in their order and with their durations, to a video encoder.

use crate::sorting::{ascending, sort_names, texts};
use vstd::prelude::*;
use vstd::string::StringExecFns;

verus! {

/// Why no slide show can be planned.
#[derive(Clone, Copy, Debug, PartialEq, Eq, Structural)]
pub enum AssemblyError {
    /// There is no slide to show.
    NoSlides,
}

/// The lower-case form that `str::to_lowercase` gives for a text.
pub uninterp spec fn lowercase_of(text: Seq<char>) -> Seq<char>;

/// Whether `part` occurs somewhere in `text`.
pub open spec fn has_part(text: Seq<char>, part: Seq<char>) -> bool {
    exists|i: int|
        0 <= i && i + part.len() <= text.len() && #[trigger] text.subrange(i, i + part.len())
            == part
}

/// What the name of a converted file holds to tell it from other files.
pub open spec fn slide_mark() -> Seq<char> {
    "_uhd"@
}

/// Whether an extension, whatever the case of its letters, is one of the two
/// that JPEG files have.
pub open spec fn jpeg_extension(extension: Seq<char>) -> bool {
    lowercase_of(extension) == "jpg"@ || lowercase_of(extension) == "jpeg"@
}

/// Whether a file with this name and extension is a converted slide.
pub open spec fn slide(file_name: Seq<char>, extension: Option<Seq<char>>) -> bool {
    extension is Some && jpeg_extension(extension->0) && has_part(file_name, slide_mark())
}

/// The lines that list one slide and how long it is shown.
pub open spec fn slide_entry(path: Seq<char>, duration: Seq<char>) -> Seq<char> {
    "file '"@ + path + "'\n"@ + "duration "@ + duration + "\n"@
}

/// The lines that list each slide in turn and how long it is shown.
pub open spec fn slide_entries(paths: Seq<Seq<char>>, duration: Seq<char>) -> Seq<char>
    decreases paths.len(),
{
    if paths.len() == 0 {
        Seq::empty()
    } else {
        slide_entries(paths.drop_last(), duration) + slide_entry(paths.last(), duration)
    }
}

/// The list of slides for the encoder: every slide with its duration, and
/// the last slide once more without one, so that it is shown to its end.
pub open spec fn slide_listing(paths: Seq<Seq<char>>, duration: Seq<char>) -> Seq<char> {
    if paths.len() == 0 {
        Seq::empty()
    } else {
        slide_entries(paths, duration) + "file '"@ + paths.last() + "'\n"@
    }
}

/// Calls `str::to_lowercase`. Claims that the outcome is a function of the
/// text.
#[verifier::external_body]
pub(crate) fn to_lowercase(text: &str) -> (r: String)
    ensures
        r@ == lowercase_of(text@),
{
    text.to_lowercase()
}

/// Calls `str::contains` with a string, which tells whether the string
/// occurs in the text.
#[verifier::external_body]
pub(crate) fn contains(text: &str, part: &str) -> (r: bool)
    ensures
        r == has_part(text@, part@),
{
    text.contains(part)
}

/// Tells whether a text in lower case is one of the two extensions that
/// JPEG files have.
pub fn names_jpeg(lower: &str) -> (r: bool)
    ensures
        r == (lower@ == "jpg"@ || lower@ == "jpeg"@),
{
    let text = String::from_str(lower);
    let short = String::from_str("jpg");
    let long = String::from_str("jpeg");
    text == short || text == long
}

/// Tells whether an extension is one of a JPEG file.
pub fn is_jpeg_extension(extension: &str) -> (r: bool)
    ensures
        r == jpeg_extension(extension@),
{
    let lower = to_lowercase(extension);
    names_jpeg(lower.as_str())
}

/// Tells whether a file is a converted slide: its extension is one of a JPEG
/// file and its name holds the mark of a converted file.
pub fn is_slide(file_name: &str, extension: Option<&str>) -> (r: bool)
    ensures
        r == slide(
            file_name@,
            match extension {
                Some(e) => Some(e@),
                None => None,
            },
        ),
{
    match extension {
        Some(e) => is_jpeg_extension(e) && contains(file_name, "_uhd"),
        None => false,
    }
}

/// Writes the list of slides for the encoder.
pub fn list_slides(paths: &Vec<String>, duration: &str) -> (listing: String)
    ensures
        listing@ == slide_listing(texts(paths@), duration@),
{
    let mut listing = String::new();
    let mut done: usize = 0;
    assert(texts(paths@).take(0) =~= Seq::<Seq<char>>::empty());
    while done < paths.len()
        invariant
            done <= paths.len(),
            listing@ == slide_entries(texts(paths@).take(done as int), duration@),
        decreases paths.len() - done,
    {
        let ghost before = listing@;
        listing.append("file '");
        listing.append(paths[done].as_str());
        listing.append("'\n");
        listing.append("duration ");
        listing.append(duration);
        listing.append("\n");
        proof {
            let shorter = texts(paths@).take(done as int);
            let longer = texts(paths@).take(done as int + 1);
            assert(longer.drop_last() =~= shorter);
            assert(longer.last() == paths@[done as int]@);
            assert(listing@ =~= before + slide_entry(paths@[done as int]@, duration@));
        }
        done += 1;
    }
    assert(texts(paths@).take(done as int) =~= texts(paths@));
    if paths.len() > 0 {
        listing.append("file '");
        listing.append(paths[paths.len() - 1].as_str());
        listing.append("'\n");
        assert(texts(paths@).last() == paths@[paths@.len() - 1]@);
    }
    listing
}

/// Plans a slide show from the paths of the converted slides: puts them in
/// the order of their names and writes the list for the encoder. Without a
/// slide there is nothing to plan.
pub fn plan_slideshow(paths: &Vec<String>, duration: &str) -> (r: Result<String, AssemblyError>)
    ensures
        paths@.len() == 0 <==> r == Err::<String, AssemblyError>(AssemblyError::NoSlides),
        r matches Ok(listing) ==> exists|sorted: Seq<Seq<char>>|
            ascending(sorted) && sorted.to_multiset() == texts(paths@).to_multiset()
                && listing@ == #[trigger] slide_listing(sorted, duration@),
{
    if paths.len() == 0 {
        return Err(AssemblyError::NoSlides);
    }
    let sorted = sort_names(paths);
    let listing = list_slides(&sorted, duration);
    assert(listing@ == slide_listing(texts(sorted@), duration@));
    Ok(listing)
}

} // verus!
