//! The astronomy picture of the day: what the service answers, and the note made of it.
use vstd::prelude::*;

use crate::calendar::{iso_date, iso_date_of};
use crate::error::Error;
use crate::rename::new_name_for;
use crate::text::{push_all, push_str, string_of};

verus! {

/// The kind of media of the day.
#[derive(Debug, Clone, Copy, PartialEq, Eq, Structural)]
pub enum MediaType {
    /// A picture.
    Image,
    /// A video.
    Video,
    /// Anything else.
    Unknown,
}

/// What the service answers for one day.
#[derive(Debug)]
pub struct Info {
    /// The copyright holder; none for public-domain pictures.
    pub copyright: Option<String>,
    /// The year of the day.
    pub year: u32,
    /// The month of the day.
    pub month: u32,
    /// The day of the month.
    pub day: u32,
    /// The description of the picture.
    pub explanation: String,
    /// The kind of media.
    pub media_type: MediaType,
    /// The title.
    pub title: String,
    /// The address of the media.
    pub url: String,
}

/// The last segment of the path of a URL: `None` where the text is no URL (the
/// reader's error), `Some(None)` where the URL has no path segments.
pub uninterp spec fn url_last_segment(url: Seq<char>) -> Option<Option<Seq<char>>>;

/// Relies on `Url::parse` and `Url::path_segments`: the last segment of the path.
#[verifier::external_body]
fn last_path_segment(url: &str) -> (r: Result<Option<String>, url::ParseError>)
    ensures
        match url_last_segment(url@) {
            None => r is Err,
            Some(None) => r is Ok && r->Ok_0 is None,
            Some(Some(s)) => r is Ok && r->Ok_0 is Some && r->Ok_0->Some_0@ == s,
        },
{
    url::Url::parse(url).map(|u| u.path_segments().and_then(|s| s.last()).map(|s| s.to_string()))
}

/// The file name that a downloaded picture gets: the identifier, with the extension
/// of the last segment of the picture's URL.
pub fn image_file_name(url: &str, id: &str) -> (r: Result<String, Error>)
    ensures
        match url_last_segment(url@) {
            None => r is Err && r->Err_0 is URLParseError,
            Some(None) => r is Err && r->Err_0 is IllegalURL && r->Err_0->IllegalURL_0@ == url@,
            Some(Some(seg)) => r is Ok && r->Ok_0@ == new_name_for(seg, id@),
        },
{
    match last_path_segment(url) {
        Err(e) => Err(Error::URLParseError(e)),
        Ok(None) => Err(Error::IllegalURL(String::from_str(url))),
        Ok(Some(seg)) => Ok(crate::rename::file_name_for(seg.as_str(), id)),
    }
}

/// The embedded link to a picture file.
pub open spec fn image_ref(file_name: Seq<char>) -> Seq<char> {
    "![["@ + file_name + "]]"@
}

/// The player of a video.
pub open spec fn video_ref(url: Seq<char>) -> Seq<char> {
    "<iframe width=\"100%\" height=\"450\" src=\""@ + url
        + "\" title=\"YouTube video player\" frameborder=\"0\" allow=\"accelerometer; autoplay; clipboard-write; encrypted-media; gyroscope; picture-in-picture\" allowfullscreen></iframe>"@
}

/// The media of the day in the note: the picture file, or the video player;
/// none for another kind of media.
pub open spec fn media_ref(info: Info, file_name: Seq<char>) -> Option<Seq<char>> {
    match info.media_type {
        MediaType::Image => Some(image_ref(file_name)),
        MediaType::Video => Some(video_ref(info.url@)),
        MediaType::Unknown => None,
    }
}

/// The text of the note of the day, with the media `media`.
pub open spec fn day_note(info: Info, media: Seq<char>, daily: bool) -> Seq<char> {
    let date = iso_date(info.year as nat, info.month as nat, info.day as nat);
    "---\ntype: news\nname: \""@ + info.title@ + "\"\nissue: APoD\ndate: "@ + date
        + "\ntags:\n- news/apod\n- science/astronomy\n---\n\n"@ + (if daily {
        "[["@ + date + "]]\n"@
    } else {
        date + "\n"@
    }) + "\n# "@ + info.title@ + "\n\n"@ + media + "\n\n**Explanation:** "@ + info.explanation@
        + "\n"@ + match info.copyright {
        Some(c) => "\n*Image copyright:* "@ + c@ + "©\n"@,
        None => Seq::empty(),
    }
}

/// The text of the note of the day; `file_name` is the name of the downloaded
/// picture, and the date links the daily note where `daily` holds. Fails with
/// `UnknownMediaType` where the media is neither a picture nor a video.
#[verifier::spinoff_prover]
#[verifier::rlimit(40)]
pub fn day_note_of(info: &Info, file_name: &str, daily: bool) -> (r: Result<String, Error>)
    ensures
        match media_ref(*info, file_name@) {
            Some(m) => r is Ok && r->Ok_0@ == day_note(*info, m, daily),
            None => r is Err && r->Err_0 is UnknownMediaType,
        },
{
    let mut media: Vec<char> = Vec::new();
    match info.media_type {
        MediaType::Image => {
            push_str(&mut media, "![[");
            push_str(&mut media, file_name);
            push_str(&mut media, "]]");
        },
        MediaType::Video => {
            push_str(&mut media, "<iframe width=\"100%\" height=\"450\" src=\"");
            push_str(&mut media, info.url.as_str());
            push_str(
                &mut media,
                "\" title=\"YouTube video player\" frameborder=\"0\" allow=\"accelerometer; autoplay; clipboard-write; encrypted-media; gyroscope; picture-in-picture\" allowfullscreen></iframe>",
            );
        },
        MediaType::Unknown => {
            return Err(Error::UnknownMediaType);
        },
    }
    let date = iso_date_of(info.year, info.month, info.day);
    let mut out: Vec<char> = Vec::new();
    push_str(&mut out, "---\ntype: news\nname: \"");
    push_str(&mut out, info.title.as_str());
    push_str(&mut out, "\"\nissue: APoD\ndate: ");
    push_all(&mut out, &date);
    push_str(&mut out, "\ntags:\n- news/apod\n- science/astronomy\n---\n\n");
    if daily {
        push_str(&mut out, "[[");
        push_all(&mut out, &date);
        push_str(&mut out, "]]\n");
    } else {
        push_all(&mut out, &date);
        push_str(&mut out, "\n");
    }
    push_str(&mut out, "\n# ");
    push_str(&mut out, info.title.as_str());
    push_str(&mut out, "\n\n");
    push_all(&mut out, &media);
    push_str(&mut out, "\n\n**Explanation:** ");
    push_str(&mut out, info.explanation.as_str());
    push_str(&mut out, "\n");
    let ghost body = out@;
    match &info.copyright {
        Some(c) => {
            push_str(&mut out, "\n*Image copyright:* ");
            push_str(&mut out, c.as_str());
            push_str(&mut out, "©\n");
        },
        None => {},
    }
    assert(out@ =~= day_note(*info, media@, daily));
    Ok(string_of(out.as_slice()))
}

/// The line that links the daily note to the note of the day `date`.
pub open spec fn day_daily_line(date: Seq<char>) -> Seq<char> {
    "\n\n`rir:Star` [[APoD "@ + date + "|Astronomy Picture of the Day]]\n"@
}

/// The line that links the daily note to the note of the day.
pub fn day_daily_line_of(info: &Info) -> (r: String)
    ensures
        r@ == day_daily_line(iso_date(info.year as nat, info.month as nat, info.day as nat)),
{
    let date = iso_date_of(info.year, info.month, info.day);
    let mut out: Vec<char> = Vec::new();
    push_str(&mut out, "\n\n`rir:Star` [[APoD ");
    push_all(&mut out, &date);
    push_str(&mut out, "|Astronomy Picture of the Day]]\n");
    string_of(out.as_slice())
}

} // verus!
