//! Media: which type a file has, where it is saved, under which name, and
//! whether it is fetched at all.

use vstd::prelude::*;
use crate::model::{copy_text, Attachment, Embed, EmbedMedia};
use crate::text::{
    chars_of, decimal, find_last, find_stop, first_stop, last_place, lemma_last_place,
    push_chars, push_decimal, push_str_chars, slice_of, string_of, text_is, trim, trimmed,
};

verus! {

/// Whether `c` is alphabetic or numeric as Unicode has it; the result of
/// `char::is_alphanumeric`.
pub uninterp spec fn alphanumeric(c: char) -> bool;

/// `text` in lower case as Unicode has it; the result of
/// `str::to_lowercase`.
pub uninterp spec fn lowercased(text: Seq<char>) -> Seq<char>;

/// Calls `char::is_alphanumeric` of the standard library and names what it
/// returns.
#[verifier::external_body]
fn is_alphanumeric(c: char) -> (yes: bool)
    ensures
        yes == alphanumeric(c),
{
    c.is_alphanumeric()
}

/// Calls `str::to_lowercase` of the standard library and names what it
/// returns.
#[verifier::external_body]
fn to_lowercase(text: &str) -> (lower: String)
    ensures
        lower@ == lowercased(text@),
{
    text.to_lowercase()
}

/// How many bytes `c` takes in UTF-8.
pub open spec fn spec_utf8_len(c: char) -> nat {
    if (c as u32) < 0x80 {
        1
    } else if (c as u32) < 0x800 {
        2
    } else if (c as u32) < 0x1_0000 {
        3
    } else {
        4
    }
}

/// How many bytes `text` takes in UTF-8.
pub open spec fn encoded_len(text: Seq<char>) -> nat
    decreases text.len(),
{
    if text.len() == 0 {
        0
    } else {
        encoded_len(text.drop_last()) + spec_utf8_len(text.last())
    }
}

/// Whether every character of `text` is alphabetic or numeric.
pub open spec fn all_alphanumeric(text: Seq<char>) -> bool {
    forall|i: int| 0 <= i < text.len() ==> alphanumeric(#[trigger] text[i])
}

/// Whether `text` begins with `jpg`.
pub open spec fn begins_with_jpg(text: Seq<char>) -> bool {
    text.len() >= 3 && text[0] == 'j' && text[1] == 'p' && text[2] == 'g'
}

/// `text` with every `jpg` in it replaced by `jpeg`, read left to right.
pub open spec fn jpg_to_jpeg(text: Seq<char>) -> Seq<char>
    decreases text.len(),
{
    if text.len() == 0 {
        text
    } else if begins_with_jpg(text) {
        seq!['j', 'p', 'e', 'g'] + jpg_to_jpeg(text.skip(3))
    } else {
        seq![text[0]] + jpg_to_jpeg(text.skip(1))
    }
}

/// Whether a file of the category `media_type` may have the extension
/// `extension`. Pictures and films have a list each; any other category
/// takes every extension.
pub open spec fn valid_extension(extension: Seq<char>, media_type: Seq<char>) -> bool {
    if media_type == "image"@ {
        extension == "jpeg"@ || extension == "jpg"@ || extension == "png"@ || extension == "gif"@
            || extension == "webp"@ || extension == "bmp"@ || extension == "svg"@
    } else if media_type == "video"@ {
        extension == "mp4"@ || extension == "webm"@ || extension == "avi"@ || extension == "mov"@
            || extension == "mkv"@ || extension == "flv"@ || extension == "wmv"@
    } else {
        true
    }
}

/// The extension of a file of the category `media_type` whose address
/// shows none that the category takes.
pub open spec fn default_extension(media_type: Seq<char>) -> Seq<char> {
    if media_type == "image"@ {
        "jpeg"@
    } else if media_type == "video"@ {
        "mp4"@
    } else {
        "bin"@
    }
}

/// The characters that end the path of an address.
pub open spec fn path_stops() -> Seq<char> {
    seq!['?', '#']
}

/// What follows the last full stop in the path of `url`, if the path holds
/// a full stop.
pub open spec fn raw_extension(url: Seq<char>) -> Option<Seq<char>> {
    let path = url.take(first_stop(url, path_stops()));
    match last_place(path, '.') {
        Some(dot) => Some(path.skip(dot + 1)),
        None => None,
    }
}

/// Whether `raw` may be an extension at all: at most five bytes, all of
/// them letters or digits.
pub open spec fn plausible_extension(raw: Seq<char>) -> bool {
    encoded_len(raw) <= 5 && all_alphanumeric(raw)
}

/// The extension that `lowered`, an extension in lower case, stands for in
/// the category `media_type`: itself with `jpg` written as `jpeg`, if the
/// category takes that.
pub open spec fn accepted_extension(lowered: Seq<char>, media_type: Seq<char>) -> Option<
    Seq<char>,
> {
    let extension = jpg_to_jpeg(lowered);
    if valid_extension(extension, media_type) {
        Some(extension)
    } else {
        None
    }
}

/// The extension under which media of the category `media_type` fetched
/// from `url` is filed: what follows the last full stop of the path, in
/// lower case and with `jpg` written as `jpeg`, where that is plausible and
/// the category takes it; the category's default otherwise.
pub open spec fn spec_extract_extension(url: Seq<char>, media_type: Seq<char>) -> Seq<char> {
    match raw_extension(url) {
        Some(raw) => if plausible_extension(raw) {
            match accepted_extension(lowercased(raw), media_type) {
                Some(extension) => extension,
                None => default_extension(media_type),
            }
        } else {
            default_extension(media_type)
        },
        None => default_extension(media_type),
    }
}

/// How many bytes `c` takes in UTF-8.
pub fn utf8_len(c: char) -> (len: usize)
    ensures
        len == spec_utf8_len(c),
{
    let code = c as u32;
    if code < 0x80 {
        1
    } else if code < 0x800 {
        2
    } else if code < 0x1_0000 {
        3
    } else {
        4
    }
}

/// Whether `raw` may be an extension at all.
pub fn is_plausible_extension(raw: &Vec<char>) -> (plausible: bool)
    ensures
        plausible == plausible_extension(raw@),
{
    let mut bytes: usize = 0;
    let mut i: usize = 0;
    while i < raw.len()
        invariant
            i <= raw.len(),
            bytes == encoded_len(raw@.take(i as int)),
            bytes <= 5,
            forall|j: int| 0 <= j < i ==> alphanumeric(#[trigger] raw@[j]),
        decreases raw.len() - i,
    {
        assert(raw@.take(i + 1).drop_last() == raw@.take(i as int));
        let width = utf8_len(raw[i]);
        if bytes + width > 5 {
            proof {
                lemma_encoded_len_grows(raw@, i + 1);
            }
            return false;
        }
        if !is_alphanumeric(raw[i]) {
            return false;
        }
        bytes += width;
        i += 1;
    }
    assert(raw@.take(raw.len() as int) == raw@);
    true
}

/// A text takes at least as many bytes as any of its beginnings.
pub proof fn lemma_encoded_len_grows(text: Seq<char>, upto: int)
    requires
        0 <= upto <= text.len(),
    ensures
        encoded_len(text.take(upto)) <= encoded_len(text),
    decreases text.len() - upto,
{
    if upto < text.len() {
        lemma_encoded_len_grows(text, upto + 1);
        assert(text.take(upto + 1).drop_last() == text.take(upto));
    } else {
        assert(text.take(upto) == text);
    }
}

/// `text` with every `jpg` in it replaced by `jpeg`.
pub fn replace_jpg(text: &Vec<char>) -> (replaced: Vec<char>)
    ensures
        replaced@ == jpg_to_jpeg(text@),
{
    let mut replaced: Vec<char> = Vec::new();
    let mut i: usize = 0;
    assert(text@.skip(0) == text@);
    while i < text.len()
        invariant
            i <= text.len(),
            replaced@ + jpg_to_jpeg(text@.skip(i as int)) == jpg_to_jpeg(text@),
        decreases text.len() - i,
    {
        let ghost rest = text@.skip(i as int);
        let ghost before = replaced@;
        assert(rest[0] == text@[i as int]);
        if text.len() - i >= 3 && text[i] == 'j' && text[i + 1] == 'p' && text[i + 2] == 'g' {
            assert(rest[1] == text@[i + 1] && rest[2] == text@[i + 2]);
            assert(rest.skip(3) == text@.skip(i + 3));
            replaced.push('j');
            replaced.push('p');
            replaced.push('e');
            replaced.push('g');
            assert(replaced@ == before + seq!['j', 'p', 'e', 'g']);
            i += 3;
        } else {
            assert(!begins_with_jpg(rest)) by {
                if rest.len() >= 3 {
                    assert(rest[1] == text@[i + 1] && rest[2] == text@[i + 2]);
                }
            }
            assert(rest.skip(1) == text@.skip(i + 1));
            replaced.push(text[i]);
            assert(replaced@ == before + seq![rest[0]]);
            i += 1;
        }
    }
    assert(jpg_to_jpeg(text@.skip(i as int)) == Seq::<char>::empty());
    assert(replaced@ + Seq::<char>::empty() == replaced@);
    replaced
}

fn valid_extension_chars(extension: &Vec<char>, media_type: &Vec<char>) -> (valid: bool)
    ensures
        valid == valid_extension(extension@, media_type@),
{
    if text_is(media_type, "image") {
        text_is(extension, "jpeg") || text_is(extension, "jpg") || text_is(extension, "png")
            || text_is(extension, "gif") || text_is(extension, "webp") || text_is(
            extension,
            "bmp",
        ) || text_is(extension, "svg")
    } else if text_is(media_type, "video") {
        text_is(extension, "mp4") || text_is(extension, "webm") || text_is(extension, "avi")
            || text_is(extension, "mov") || text_is(extension, "mkv") || text_is(
            extension,
            "flv",
        ) || text_is(extension, "wmv")
    } else {
        true
    }
}

/// Whether a file of the category `media_type` may have the extension
/// `extension`.
pub fn is_valid_extension_for_media_type(extension: &str, media_type: &str) -> (valid: bool)
    ensures
        valid == valid_extension(extension@, media_type@),
{
    let ext = chars_of(extension);
    let kind = chars_of(media_type);
    valid_extension_chars(&ext, &kind)
}

fn default_extension_chars(media_type: &Vec<char>) -> (extension: Vec<char>)
    ensures
        extension@ == default_extension(media_type@),
{
    if text_is(media_type, "image") {
        chars_of("jpeg")
    } else if text_is(media_type, "video") {
        chars_of("mp4")
    } else {
        chars_of("bin")
    }
}

/// The extension that `lowered`, an extension in lower case, stands for in
/// the category `media_type`, if the category takes it.
pub fn accept_extension(lowered: &str, media_type: &str) -> (accepted: Option<String>)
    ensures
        match accepted {
            Some(extension) => accepted_extension(lowered@, media_type@) == Some(extension@),
            None => accepted_extension(lowered@, media_type@) is None,
        },
{
    let extension = replace_jpg(&chars_of(lowered));
    let kind = chars_of(media_type);
    if valid_extension_chars(&extension, &kind) {
        Some(string_of(&extension))
    } else {
        None
    }
}

/// What follows the last full stop in the path of `url`, if the path holds
/// a full stop.
pub fn find_raw_extension(url: &Vec<char>) -> (raw: Option<Vec<char>>)
    ensures
        match raw {
            Some(found) => raw_extension(url@) == Some(found@),
            None => raw_extension(url@) is None,
        },
{
    let mut stops: Vec<char> = Vec::new();
    stops.push('?');
    stops.push('#');
    assert(stops@ == path_stops());
    let end = find_stop(url, &stops);
    let path = slice_of(url, 0, end);
    assert(path@ == url@.take(end as int));
    match find_last(&path, '.') {
        Some(dot) => {
            let raw = slice_of(&path, dot + 1, path.len());
            assert(raw@ == path@.skip(dot + 1));
            Some(raw)
        },
        None => None,
    }
}

/// The extension under which media of the category `media_type` fetched
/// from `url` is filed.
pub fn extract_extension_from_url(url: &str, media_type: &str) -> (extension: String)
    ensures
        extension@ == spec_extract_extension(url@, media_type@),
{
    let kind = chars_of(media_type);
    let address = chars_of(url);
    match find_raw_extension(&address) {
        Some(raw) => {
            if is_plausible_extension(&raw) {
                let lowered = to_lowercase(string_of(&raw).as_str());
                match accept_extension(lowered.as_str(), media_type) {
                    Some(extension) => {
                        return extension;
                    },
                    None => {},
                }
            }
        },
        None => {},
    }
    string_of(&default_extension_chars(&kind))
}

/// `text` with every percent escape in it decoded, where what comes out is
/// valid UTF-8; the result of `urlencoding::decode`.
pub uninterp spec fn percent_decoded(text: Seq<char>) -> Option<Seq<char>>;

/// `name` made safe as a file name; the result of
/// `sanitise_file_name::sanitise`.
pub uninterp spec fn sanitised(name: Seq<char>) -> Seq<char>;

/// The media type that goes with the extension of `file_name`, the generic
/// binary type where none is known; the result of `mime_guess::from_path`
/// and `first_or_octet_stream`.
pub uninterp spec fn guessed_mime(file_name: Seq<char>) -> Seq<char>;

/// Calls `urlencoding::decode` and names what it returns; an escape
/// sequence that decodes to invalid UTF-8 gives nothing.
#[verifier::external_body]
fn percent_decode(text: &str) -> (decoded: Option<String>)
    ensures
        match decoded {
            Some(plain) => percent_decoded(text@) == Some(plain@),
            None => percent_decoded(text@) is None,
        },
{
    urlencoding::decode(text).ok().map(|plain| plain.into_owned())
}

/// Calls `sanitise_file_name::sanitise` and names what it returns.
#[verifier::external_body]
fn sanitise_name(name: &str) -> (safe: String)
    ensures
        safe@ == sanitised(name@),
{
    sanitise_file_name::sanitise(name)
}

/// Calls `mime_guess::from_path` and `first_or_octet_stream` on its result,
/// and names the media type that comes out, written as text.
#[verifier::external_body]
fn guess_mime(file_name: &str) -> (mime: String)
    ensures
        mime@ == guessed_mime(file_name@),
{
    mime_guess::from_path(file_name).first_or_octet_stream().to_string()
}

/// The generic binary type as the `mime` crate writes it:
/// `mime::APPLICATION_OCTET_STREAM`, which reads `application/octet-stream`.
#[verifier::external_body]
fn octet_stream() -> (mime: String)
    ensures
        mime@ == "application/octet-stream"@,
{
    mime::APPLICATION_OCTET_STREAM.to_string()
}

/// How many characters a file name may have.
pub const MAX_NAME_CHARS: usize = 200;

/// `name` cut to 200 characters. A name that is longer keeps its extension,
/// the last full stop and what follows it, and loses the end of what stands
/// before; where the extension alone takes 200 characters or there is none,
/// the name loses its end.
pub open spec fn spec_truncate_name(name: Seq<char>) -> Seq<char> {
    if name.len() <= MAX_NAME_CHARS {
        name
    } else {
        match last_place(name, '.') {
            Some(dot) => {
                let extension = name.skip(dot);
                if extension.len() >= MAX_NAME_CHARS {
                    name.take(MAX_NAME_CHARS as int)
                } else {
                    name.take(MAX_NAME_CHARS - extension.len()) + extension
                }
            },
            None => name.take(MAX_NAME_CHARS as int),
        }
    }
}

/// What of an address names the file: what stands before the first
/// question mark.
pub open spec fn without_query(name: Seq<char>) -> Seq<char> {
    name.take(first_stop(name, seq!['?']))
}

/// The file name that `filename` is saved under: its query taken off, its
/// percent escapes decoded where they decode, made safe, and cut to 200
/// characters.
pub open spec fn spec_sanitize_filename(filename: Seq<char>) -> Seq<char> {
    let bare = without_query(filename);
    let plain = match percent_decoded(bare) {
        Some(decoded) => decoded,
        None => bare,
    };
    spec_truncate_name(sanitised(plain))
}

/// `name` cut to 200 characters, its extension kept where possible.
pub fn truncate_name(name: &str) -> (cut: String)
    ensures
        cut@ == spec_truncate_name(name@),
{
    let chars = chars_of(name);
    if chars.len() <= MAX_NAME_CHARS {
        return string_of(&chars);
    }
    match find_last(&chars, '.') {
        Some(dot) => {
            let extension_len = chars.len() - dot;
            if extension_len >= MAX_NAME_CHARS {
                let head = slice_of(&chars, 0, MAX_NAME_CHARS);
                assert(head@ == chars@.take(MAX_NAME_CHARS as int));
                string_of(&head)
            } else {
                let mut cut = slice_of(&chars, 0, MAX_NAME_CHARS - extension_len);
                let extension = slice_of(&chars, dot, chars.len());
                assert(extension@ == chars@.skip(dot as int));
                push_chars(&mut cut, &extension);
                assert(cut@ == chars@.take(MAX_NAME_CHARS - extension_len) + chars@.skip(dot as int));
                string_of(&cut)
            }
        },
        None => {
            let head = slice_of(&chars, 0, MAX_NAME_CHARS);
            assert(head@ == chars@.take(MAX_NAME_CHARS as int));
            string_of(&head)
        },
    }
}

/// A cut name has at most 200 characters; a name that had no more is not
/// changed; and a longer name whose extension is shorter than that comes
/// out 200 characters long and ends in its extension.
pub proof fn lemma_truncate_name(name: Seq<char>)
    ensures
        spec_truncate_name(name).len() <= MAX_NAME_CHARS,
        name.len() <= MAX_NAME_CHARS ==> spec_truncate_name(name) == name,
        name.len() > MAX_NAME_CHARS ==> spec_truncate_name(name).len() == MAX_NAME_CHARS,
        name.len() > MAX_NAME_CHARS ==> (last_place(name, '.') matches Some(dot) ==> name.len() - dot
            < MAX_NAME_CHARS ==> spec_truncate_name(name).skip(MAX_NAME_CHARS - (name.len() - dot))
            == name.skip(dot)),
{
    lemma_last_place(name, '.');
    if name.len() > MAX_NAME_CHARS {
        match last_place(name, '.') {
            Some(dot) => {
                let extension = name.skip(dot);
                if extension.len() < MAX_NAME_CHARS {
                    let cut = name.take(MAX_NAME_CHARS - extension.len()) + extension;
                    assert(cut.skip(MAX_NAME_CHARS - extension.len()) =~= extension);
                }
            },
            None => {},
        }
    }
}

/// The file name that `filename` is saved under.
pub fn sanitize_filename(filename: &str) -> (safe: String)
    ensures
        safe@ == spec_sanitize_filename(filename@),
{
    let chars = chars_of(filename);
    let mut stops: Vec<char> = Vec::new();
    stops.push('?');
    assert(stops@ == seq!['?']);
    let end = find_stop(&chars, &stops);
    let bare_chars = slice_of(&chars, 0, end);
    assert(bare_chars@ == without_query(filename@));
    let bare = string_of(&bare_chars);
    let plain = match percent_decode(bare.as_str()) {
        Some(decoded) => decoded,
        None => bare,
    };
    let sanitized = sanitise_name(plain.as_str());
    truncate_name(sanitized.as_str())
}

/// The characters that end the type in a declaration of a media type.
pub open spec fn parameter_stops() -> Seq<char> {
    seq![';']
}

/// The media type in a declaration: what stands before the first
/// semicolon, without the white space at its ends.
pub open spec fn declared_essence(content_type: Seq<char>) -> Seq<char> {
    trimmed(content_type.take(first_stop(content_type, parameter_stops())))
}

/// Whether a media type says something: it is not empty and not the
/// generic binary type.
pub open spec fn informative(mime: Seq<char>) -> bool {
    mime.len() > 0 && mime != "application/octet-stream"@
}

/// The media type that an attachment declares, where it declares one that
/// says something.
pub open spec fn declared_mime(content_type: Option<String>) -> Option<Seq<char>> {
    match content_type {
        Some(declared) => if informative(declared_essence(declared@)) {
            Some(declared_essence(declared@))
        } else {
            None
        },
        None => None,
    }
}

/// The media type of a file, from what is known of it; the first of these
/// that says something: the type its attachment declares, the type its
/// content shows, the type that goes with its name. The generic binary
/// type where none does.
pub open spec fn resolved_mime(
    declared: Option<Seq<char>>,
    sniffed: Option<Seq<char>>,
    guessed: Seq<char>,
) -> Seq<char> {
    match declared {
        Some(mime) => mime,
        None => match sniffed {
            Some(mime) => if mime != "application/octet-stream"@ {
                mime
            } else if guessed != "application/octet-stream"@ {
                guessed
            } else {
                "application/octet-stream"@
            },
            None => if guessed != "application/octet-stream"@ {
                guessed
            } else {
                "application/octet-stream"@
            },
        },
    }
}

/// The characters of an optional text.
pub open spec fn text_view(text: Option<String>) -> Option<Seq<char>> {
    match text {
        Some(s) => Some(s@),
        None => None,
    }
}

/// Whether a media type says something.
pub fn is_informative(mime: &str) -> (yes: bool)
    ensures
        yes == informative(mime@),
{
    let chars = chars_of(mime);
    chars.len() > 0 && !text_is(&chars, "application/octet-stream")
}

/// The media type that an attachment declares, where it declares one that
/// says something.
pub fn declared_mime_type(content_type: &Option<String>) -> (declared: Option<String>)
    ensures
        text_view(declared) == declared_mime(*content_type),
{
    match content_type {
        Some(text) => {
            let chars = chars_of(text.as_str());
            let mut stops: Vec<char> = Vec::new();
            stops.push(';');
            assert(stops@ == parameter_stops());
            let end = find_stop(&chars, &stops);
            let first = slice_of(&chars, 0, end);
            assert(first@ == text@.take(end as int));
            let essence = trim(string_of(&first).as_str());
            if is_informative(essence.as_str()) {
                Some(essence)
            } else {
                None
            }
        },
        None => None,
    }
}

/// The media type of a file, from the type its attachment declares, the
/// type its content shows and the type that goes with its name.
pub fn resolve_mime_type(declared: Option<String>, sniffed: Option<String>, guessed: String) -> (mime:
    String)
    ensures
        mime@ == resolved_mime(text_view(declared), text_view(sniffed), guessed@),
{
    match declared {
        Some(mime) => {
            return mime;
        },
        None => {},
    }
    let generic = octet_stream();
    match sniffed {
        Some(mime) => {
            if !(mime == generic) {
                return mime;
            }
        },
        None => {},
    }
    if !(guessed == generic) {
        guessed
    } else {
        generic
    }
}

/// The media type of `attachment`, given what its content showed: `sniffed`
/// is the type read off the downloaded content, or nothing where the
/// content was not looked at or showed nothing.
pub fn detect_mime_type(attachment: &Attachment, sniffed: Option<String>) -> (mime: String)
    ensures
        mime@ == resolved_mime(
            declared_mime(attachment.content_type),
            text_view(sniffed),
            guessed_mime(attachment.filename@),
        ),
{
    let declared = declared_mime_type(&attachment.content_type);
    let guessed = guess_mime(attachment.filename.as_str());
    resolve_mime_type(declared, sniffed, guessed)
}

/// Whether the content of `attachment` has to be looked at to know its
/// media type: it declares no type that says something.
pub fn needs_sniffing(attachment: &Attachment) -> (needed: bool)
    ensures
        needed == declared_mime(attachment.content_type) is None,
{
    declared_mime_type(&attachment.content_type).is_none()
}

/// One file to fetch: from where, and where to.
#[derive(Debug)]
pub struct DownloadJob {
    pub url: String,
    /// The directory of the file, made if it is not there.
    pub directory: String,
    /// The file. If it is there already, nothing is fetched.
    pub path: String,
}

/// What a job says.
pub struct Job {
    pub url: Seq<char>,
    pub directory: Seq<char>,
    pub path: Seq<char>,
}

impl View for DownloadJob {
    type V = Job;

    open spec fn view(&self) -> Job {
        Job { url: self.url@, directory: self.directory@, path: self.path@ }
    }
}

/// What a list of jobs says, in order.
pub open spec fn jobs_view(jobs: Seq<DownloadJob>) -> Seq<Job> {
    jobs.map_values(|job: DownloadJob| job@)
}

/// The job for an attachment whose content showed the type `sniffed`: the
/// file goes under its media type, named by the attachment's id and its
/// file name made safe.
pub open spec fn attachment_job(attachment: Attachment, sniffed: Option<Seq<char>>) -> Job {
    let mime = resolved_mime(
        declared_mime(attachment.content_type),
        sniffed,
        guessed_mime(attachment.filename@),
    );
    Job {
        url: attachment.url@,
        directory: "downloads/"@ + mime,
        path: "downloads/"@ + mime + "/"@ + decimal(attachment.id as nat) + "_"@
            + spec_sanitize_filename(attachment.filename@),
    }
}

/// What the content of the attachment at place `at` showed, where `sniffed`
/// lists that for the attachments in order; nothing past its end.
pub open spec fn sniffed_at(sniffed: Seq<Option<String>>, at: int) -> Option<Seq<char>> {
    if 0 <= at < sniffed.len() {
        text_view(sniffed[at])
    } else {
        None
    }
}

/// The jobs for `attachments`, in order.
pub open spec fn attachment_jobs(attachments: Seq<Attachment>, sniffed: Seq<Option<String>>) -> Seq<
    Job,
>
    decreases attachments.len(),
{
    if attachments.len() == 0 {
        Seq::empty()
    } else {
        attachment_jobs(attachments.drop_last(), sniffed).push(
            attachment_job(attachments.last(), sniffed_at(sniffed, attachments.len() - 1)),
        )
    }
}

/// The job for one attachment.
pub fn attachment_download(attachment: &Attachment, sniffed: Option<String>) -> (job: DownloadJob)
    ensures
        job@ == attachment_job(*attachment, text_view(sniffed)),
{
    let mime = detect_mime_type(attachment, sniffed);
    let mime_chars = chars_of(mime.as_str());
    let mut directory: Vec<char> = Vec::new();
    push_str_chars(&mut directory, "downloads/");
    push_chars(&mut directory, &mime_chars);
    let mut path: Vec<char> = Vec::new();
    push_chars(&mut path, &directory);
    push_str_chars(&mut path, "/");
    push_decimal(&mut path, attachment.id);
    push_str_chars(&mut path, "_");
    let safe = sanitize_filename(attachment.filename.as_str());
    push_str_chars(&mut path, safe.as_str());
    assert(path@ == "downloads/"@ + mime@ + "/"@ + decimal(attachment.id as nat) + "_"@
        + spec_sanitize_filename(attachment.filename@));
    DownloadJob {
        url: attachment.url.clone(),
        directory: string_of(&directory),
        path: string_of(&path),
    }
}

/// The jobs for the attachments of a message, in order. `sniffed` lists
/// what the content of each attachment showed, in the same order.
pub fn download_attachment(attachments: &Vec<Attachment>, sniffed: &Vec<Option<String>>) -> (jobs:
    Vec<DownloadJob>)
    ensures
        jobs_view(jobs@) == attachment_jobs(attachments@, sniffed@),
{
    let mut jobs: Vec<DownloadJob> = Vec::new();
    let mut i: usize = 0;
    assert(jobs_view(jobs@) == attachment_jobs(attachments@.take(0), sniffed@));
    while i < attachments.len()
        invariant
            i <= attachments.len(),
            jobs_view(jobs@) == attachment_jobs(attachments@.take(i as int), sniffed@),
        decreases attachments.len() - i,
    {
        let shown = if i < sniffed.len() {
            copy_text(&sniffed[i])
        } else {
            None
        };
        let ghost before = jobs@;
        jobs.push(attachment_download(&attachments[i], shown));
        assert(attachments@.take(i + 1).drop_last() == attachments@.take(i as int));
        assert(jobs_view(jobs@) == jobs_view(before).push(
            attachment_job(attachments@[i as int], sniffed_at(sniffed@, i as int)),
        ));
        i += 1;
    }
    assert(attachments@.take(attachments.len() as int) == attachments@);
    jobs
}

/// The address that a piece of embedded media is fetched from: the
/// platform's cached copy where there is one.
pub open spec fn media_url(media: EmbedMedia) -> Seq<char> {
    match media.proxy_url {
        Some(proxy) => proxy@,
        None => media.url@,
    }
}

/// What follows the last slash of `url`; all of it where it holds none.
pub open spec fn last_segment(url: Seq<char>) -> Seq<char> {
    match last_place(url, '/') {
        Some(at) => url.skip(at + 1),
        None => url,
    }
}

/// The job for media of the category `media_type` at `url`, embedded in
/// the message `message_id`: the file goes under its category and
/// extension, named by the message's id and the last part of the address
/// made safe.
pub open spec fn embed_job(url: Seq<char>, media_type: Seq<char>, message_id: u64) -> Job {
    let directory = "downloads/"@ + media_type + "/"@ + spec_extract_extension(url, media_type);
    Job {
        url,
        directory,
        path: directory + "/"@ + decimal(message_id as nat) + "_"@ + spec_sanitize_filename(
            last_segment(url),
        ),
    }
}

/// The job for an optional piece of media, if it is there.
pub open spec fn media_jobs(media: Option<EmbedMedia>, media_type: Seq<char>, message_id: u64) -> Seq<
    Job,
> {
    match media {
        Some(m) => seq![embed_job(media_url(m), media_type, message_id)],
        None => Seq::empty(),
    }
}

/// The jobs for one embed: its picture, its thumbnail, its film, as far as
/// it has them.
pub open spec fn one_embed_jobs(embed: Embed, message_id: u64) -> Seq<Job> {
    media_jobs(embed.image, "image"@, message_id) + media_jobs(
        embed.thumbnail,
        "image"@,
        message_id,
    ) + media_jobs(embed.video, "video"@, message_id)
}

/// The jobs for the embeds of a message, embed after embed.
pub open spec fn embed_jobs(embeds: Seq<Embed>, message_id: u64) -> Seq<Job>
    decreases embeds.len(),
{
    if embeds.len() == 0 {
        Seq::empty()
    } else {
        embed_jobs(embeds.drop_last(), message_id) + one_embed_jobs(embeds.last(), message_id)
    }
}

/// The job for media of the category `media_type` at `url`.
pub fn embed_download(url: &str, media_type: &str, message_id: u64) -> (job: DownloadJob)
    ensures
        job@ == embed_job(url@, media_type@, message_id),
{
    let extension = extract_extension_from_url(url, media_type);
    let mut directory: Vec<char> = Vec::new();
    push_str_chars(&mut directory, "downloads/");
    push_str_chars(&mut directory, media_type);
    push_str_chars(&mut directory, "/");
    push_str_chars(&mut directory, extension.as_str());
    let address = chars_of(url);
    let name = match find_last(&address, '/') {
        Some(at) => {
            let tail = slice_of(&address, at + 1, address.len());
            assert(tail@ == url@.skip(at + 1));
            tail
        },
        None => chars_of(url),
    };
    let safe = sanitize_filename(string_of(&name).as_str());
    let mut path: Vec<char> = Vec::new();
    push_chars(&mut path, &directory);
    push_str_chars(&mut path, "/");
    push_decimal(&mut path, message_id);
    push_str_chars(&mut path, "_");
    push_str_chars(&mut path, safe.as_str());
    DownloadJob { url: url.to_owned(), directory: string_of(&directory), path: string_of(&path) }
}

fn push_media_job(
    jobs: &mut Vec<DownloadJob>,
    media: &Option<EmbedMedia>,
    media_type: &str,
    message_id: u64,
)
    ensures
        jobs_view(final(jobs)@) == jobs_view(old(jobs)@) + media_jobs(
            *media,
            media_type@,
            message_id,
        ),
{
    match media {
        Some(m) => {
            let job = match &m.proxy_url {
                Some(proxy) => embed_download(proxy.as_str(), media_type, message_id),
                None => embed_download(m.url.as_str(), media_type, message_id),
            };
            let ghost before = jobs@;
            jobs.push(job);
            assert(jobs_view(jobs@) == jobs_view(before).push(
                embed_job(media_url(*m), media_type@, message_id),
            ));
        },
        None => {},
    }
    assert(jobs_view(jobs@) == jobs_view(old(jobs)@) + media_jobs(
        *media,
        media_type@,
        message_id,
    ));
}

/// The jobs for the embeds of the message `message_id`.
pub fn download_embeds(embeds: &Vec<Embed>, message_id: u64) -> (jobs: Vec<DownloadJob>)
    ensures
        jobs_view(jobs@) == embed_jobs(embeds@, message_id),
{
    let mut jobs: Vec<DownloadJob> = Vec::new();
    let mut i: usize = 0;
    assert(jobs_view(jobs@) == embed_jobs(embeds@.take(0), message_id));
    while i < embeds.len()
        invariant
            i <= embeds.len(),
            jobs_view(jobs@) == embed_jobs(embeds@.take(i as int), message_id),
        decreases embeds.len() - i,
    {
        assert(embeds@.take(i + 1).drop_last() == embeds@.take(i as int));
        push_media_job(&mut jobs, &embeds[i].image, "image", message_id);
        push_media_job(&mut jobs, &embeds[i].thumbnail, "image", message_id);
        push_media_job(&mut jobs, &embeds[i].video, "video", message_id);
        i += 1;
    }
    assert(embeds@.take(embeds.len() as int) == embeds@);
    jobs
}

/// How many addresses the cache of recent downloads holds at most.
pub const CACHE_CAPACITY: usize = 5;

/// The addresses fetched last, oldest first. It keeps a burst of requests
/// for one address from fetching it again and again, and nothing more: an
/// address that fell out of it is fetched again.
#[derive(Debug)]
pub struct DownloadCache {
    urls: Vec<String>,
}

/// The cache after `url` was asked for: as it was where it holds `url`;
/// else with `url` at its end, and without its oldest address where it was
/// full.
pub open spec fn admitted(cache: Seq<Seq<char>>, url: Seq<char>) -> Seq<Seq<char>> {
    if cache.contains(url) {
        cache
    } else if cache.len() >= CACHE_CAPACITY {
        cache.skip(1).push(url)
    } else {
        cache.push(url)
    }
}

/// A request to fetch `url` into the file `file_name`.
#[derive(Debug)]
pub struct FetchRequest {
    pub url: String,
    pub file_name: String,
}

impl DownloadCache {
    /// The addresses in the cache, oldest first.
    pub closed spec fn view(&self) -> Seq<Seq<char>> {
        self.urls@.map_values(|url: String| url@)
    }

    /// An empty cache.
    pub fn new() -> (cache: DownloadCache)
        ensures
            cache@ == Seq::<Seq<char>>::empty(),
    {
        let cache = DownloadCache { urls: Vec::new() };
        assert(cache@ =~= Seq::<Seq<char>>::empty());
        cache
    }

    /// How many addresses the cache holds.
    pub fn len(&self) -> (count: usize)
        ensures
            count == self@.len(),
    {
        self.urls.len()
    }

    /// Whether the cache holds `url`.
    pub fn contains(&self, url: &str) -> (held: bool)
        ensures
            held == self@.contains(url@),
    {
        let wanted = url.to_owned();
        let mut i: usize = 0;
        while i < self.urls.len()
            invariant
                i <= self.urls.len(),
                wanted@ == url@,
                forall|j: int| 0 <= j < i ==> self@[j] != url@,
            decreases self.urls.len() - i,
        {
            if self.urls[i] == wanted {
                assert(self@[i as int] == url@);
                return true;
            }
            assert(self@[i as int] == self.urls@[i as int]@);
            i += 1;
        }
        false
    }

    /// Takes note that `url` is asked for, and says whether it is to be
    /// fetched: it is unless the cache holds it.
    pub fn note(&mut self, url: &str) -> (fetch: bool)
        ensures
            fetch == !old(self)@.contains(url@),
            final(self)@ == admitted(old(self)@, url@),
    {
        if self.contains(url) {
            return false;
        }
        let ghost before = self.urls@;
        if self.urls.len() >= CACHE_CAPACITY {
            self.urls.remove(0);
            assert(self.urls@ == before.skip(1));
        }
        self.urls.push(url.to_owned());
        assert(self@ =~= admitted(old(self)@, url@));
        true
    }
}

/// Decides whether `url` is fetched into `file_name`: it is unless it was
/// asked for among the last few addresses. Either way the cache takes note
/// of the address.
pub fn download_url(url: &str, file_name: &str, cache: &mut DownloadCache) -> (request: Option<
    FetchRequest,
>)
    ensures
        final(cache)@ == admitted(old(cache)@, url@),
        match request {
            Some(asked) => !old(cache)@.contains(url@) && asked.url@ == url@ && asked.file_name@
                == file_name@,
            None => old(cache)@.contains(url@),
        },
{
    if cache.note(url) {
        Some(FetchRequest { url: url.to_owned(), file_name: file_name.to_owned() })
    } else {
        None
    }
}

/// Decides whether the file of `job` is fetched, given whether a file
/// stands at its path already. A file that is there is not fetched again,
/// and the cache takes no note of the address; any other is fetched unless
/// its address was asked for among the last few.
pub fn fetch_for_job(job: &DownloadJob, already_there: bool, cache: &mut DownloadCache) -> (request:
    Option<FetchRequest>)
    ensures
        final(cache)@ == if already_there {
            old(cache)@
        } else {
            admitted(old(cache)@, job.url@)
        },
        match request {
            Some(asked) => !already_there && !old(cache)@.contains(job.url@) && asked.url@
                == job.url@ && asked.file_name@ == job.path@,
            None => already_there || old(cache)@.contains(job.url@),
        },
{
    if already_there {
        None
    } else {
        download_url(job.url.as_str(), job.path.as_str(), cache)
    }
}

/// Whether a response with this status carries the file: the status is one
/// of success, 200 to 299.
pub fn is_success_status(status: u16) -> (success: bool)
    ensures
        success == (200 <= status <= 299),
{
    200 <= status && status <= 299
}

/// An address that was just asked for is in the cache, and asking for it
/// again changes nothing: only the first request of a burst fetches.
pub proof fn lemma_repeat_is_a_hit(cache: Seq<Seq<char>>, url: Seq<char>)
    ensures
        admitted(cache, url).contains(url),
        admitted(admitted(cache, url), url) == admitted(cache, url),
{
    if !cache.contains(url) {
        let after = admitted(cache, url);
        assert(after[after.len() - 1] == url);
    }
}

/// The cache never outgrows its capacity.
pub proof fn lemma_cache_is_bounded(cache: Seq<Seq<char>>, url: Seq<char>)
    requires
        cache.len() <= CACHE_CAPACITY,
    ensures
        admitted(cache, url).len() <= CACHE_CAPACITY,
{
}

/// The cache holds no address twice.
pub proof fn lemma_cache_has_no_repeats(cache: Seq<Seq<char>>, url: Seq<char>)
    requires
        cache.no_duplicates(),
    ensures
        admitted(cache, url).no_duplicates(),
{
    if !cache.contains(url) {
        let kept = if cache.len() >= CACHE_CAPACITY {
            cache.skip(1)
        } else {
            cache
        };
        assert forall|i: int, j: int| 0 <= i < kept.len() && 0 <= j < kept.len() && i != j implies kept[i]
            != kept[j] by {
            if cache.len() >= CACHE_CAPACITY {
                assert(kept[i] == cache[i + 1] && kept[j] == cache[j + 1]);
            }
        }
        assert forall|i: int| 0 <= i < kept.len() implies kept[i] != url by {
            if cache.len() >= CACHE_CAPACITY {
                assert(kept[i] == cache[i + 1]);
            }
        }
        let after = kept.push(url);
        assert forall|i: int, j: int|
            0 <= i < after.len() && 0 <= j < after.len() && i != j implies after[i] != after[j] by {
            if i < kept.len() && j < kept.len() {
                assert(after[i] == kept[i] && after[j] == kept[j]);
            } else if i < kept.len() {
                assert(after[i] == kept[i]);
            } else {
                assert(after[j] == kept[j]);
            }
        }
    }
}

/// The cache forgets oldest first: an address that it held stays in it
/// when another comes in, unless the cache was full and the address was
/// its oldest.
pub proof fn lemma_cache_is_fifo(cache: Seq<Seq<char>>, url: Seq<char>, held: int)
    requires
        0 <= held < cache.len(),
        !(cache.len() >= CACHE_CAPACITY && held == 0),
    ensures
        admitted(cache, url).contains(cache[held]),
{
    if cache.contains(url) {
    } else if cache.len() >= CACHE_CAPACITY {
        let after = cache.skip(1).push(url);
        assert(after[held - 1] == cache[held]);
    } else {
        let after = cache.push(url);
        assert(after[held] == cache[held]);
    }
}

} // verus!
