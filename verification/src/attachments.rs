//! Deciding which Discord attachments to pass to the model, and how.

use vstd::prelude::*;
use vstd::utf8::{decode_utf8, valid_utf8};
use base64::Engine as _;

use crate::config::Config;
use crate::text::{
    append_str, chars_of, contains, eq_chars, extend, is_one_of, is_one_of_exec, lower,
    lower_chars, map_char, map_char_exec, matches_at, replace_all, replace_all_exec, rfind,
    split, split_exec, squash_ws, squash_ws_exec, starts_with, starts_with_exec, string_of,
    take_chars, take_chars_exec, trim, trim_seq, slice_vec, lacks, lemma_lower_idempotent,
};

verus! {

/// How an attachment is handed to the model.
#[derive(Clone, Copy, Debug, PartialEq, Eq, Structural)]
pub enum AttachmentType {
    Image,
    Document,
    Unsupported,
}

/// An image passed to the model, encoded in Base64.
#[derive(Clone, Debug)]
pub struct ImageInput {
    pub filename: String,
    pub mime: String,
    pub data_base64: String,
}

/// What was gathered from the attachments of one message.
#[derive(Debug)]
pub struct AttachmentContext {
    pub text_blocks: Vec<String>,
    pub images: Vec<ImageInput>,
    pub skipped: Vec<String>,
}

/// `blocks`, each preceded by a blank line.
pub open spec fn joined_blocks(blocks: Seq<Seq<char>>) -> Seq<char>
    decreases blocks.len(),
{
    if blocks.len() == 0 {
        seq![]
    } else {
        joined_blocks(blocks.drop_last()) + "\n\n"@ + blocks.last()
    }
}

impl AttachmentContext {
    /// An empty context.
    pub fn new() -> (r: AttachmentContext)
        ensures
            r.text_blocks@.len() == 0,
            r.images@.len() == 0,
            r.skipped@.len() == 0,
    {
        AttachmentContext { text_blocks: Vec::new(), images: Vec::new(), skipped: Vec::new() }
    }

    /// Appends each text block to `prompt`, after a blank line.
    pub fn append_text_to(&self, prompt: &mut String)
        ensures
            final(prompt)@ == old(prompt)@ + joined_blocks(self.text_blocks.deep_view()),
    {
        let ghost dv = self.text_blocks.deep_view();
        let mut i: usize = 0;
        while i < self.text_blocks.len()
            invariant
                dv == self.text_blocks.deep_view(),
                dv.len() == self.text_blocks@.len(),
                i <= self.text_blocks@.len(),
                prompt@ == old(prompt)@ + joined_blocks(dv.take(i as int)),
            decreases self.text_blocks@.len() - i,
        {
            assert(dv.take(i + 1).drop_last() =~= dv.take(i as int));
            assert(dv.take(i + 1).last() == self.text_blocks@[i as int]@);
            prompt.append("\n\n");
            prompt.append(self.text_blocks[i].as_str());
            assert(prompt@ =~= old(prompt)@ + joined_blocks(dv.take(i + 1)));
            i = i + 1;
        }
        assert(dv.take(self.text_blocks@.len() as int) =~= dv);
    }

    /// How many attachments were accepted, as text or as images.
    pub fn accepted_count(&self) -> (r: usize)
        requires
            self.text_blocks@.len() + self.images@.len() <= usize::MAX,
        ensures
            r == self.text_blocks@.len() + self.images@.len(),
    {
        self.text_blocks.len() + self.images.len()
    }
}

/// What an attachment is taken for, by its view.
pub enum KindModel {
    Image(Seq<char>),
    Text,
}

/// What an attachment is taken for: an image of the given MIME type, or text.
#[derive(Clone, Debug)]
pub enum AttachmentKind {
    Image(String),
    Text,
}

impl View for AttachmentKind {
    type V = KindModel;

    open spec fn view(&self) -> KindModel {
        match self {
            AttachmentKind::Image(m) => KindModel::Image(m@),
            AttachmentKind::Text => KindModel::Text,
        }
    }
}

/// The MIME types of the images that are accepted.
pub open spec fn image_mime_types() -> Seq<Seq<char>> {
    seq![
        "image/png"@,
        "image/jpeg"@,
        "image/jpg"@,
        "image/webp"@,
    ]
}

/// `image_mime_types` as vectors of characters.
pub fn image_mime_types_exec() -> (r: Vec<Vec<char>>)
    ensures
        r.deep_view() == image_mime_types(),
{
    let mut r: Vec<Vec<char>> = Vec::new();
    let w = chars_of("image/png");
    assert(w.deep_view() =~= w@);
    r.push(w);
    let w = chars_of("image/jpeg");
    assert(w.deep_view() =~= w@);
    r.push(w);
    let w = chars_of("image/jpg");
    assert(w.deep_view() =~= w@);
    r.push(w);
    let w = chars_of("image/webp");
    assert(w.deep_view() =~= w@);
    r.push(w);
    assert(r.deep_view() =~= image_mime_types());
    r
}

/// The file extensions of the text documents that are accepted.
pub open spec fn text_extensions() -> Seq<Seq<char>> {
    seq![
        "txt"@,
        "md"@,
        "rs"@,
        "py"@,
        "js"@,
        "ts"@,
        "json"@,
        "toml"@,
        "yaml"@,
        "yml"@,
        "log"@,
        "csv"@,
    ]
}

/// `text_extensions` as vectors of characters.
pub fn text_extensions_exec() -> (r: Vec<Vec<char>>)
    ensures
        r.deep_view() == text_extensions(),
{
    let mut r: Vec<Vec<char>> = Vec::new();
    let w = chars_of("txt");
    assert(w.deep_view() =~= w@);
    r.push(w);
    let w = chars_of("md");
    assert(w.deep_view() =~= w@);
    r.push(w);
    let w = chars_of("rs");
    assert(w.deep_view() =~= w@);
    r.push(w);
    let w = chars_of("py");
    assert(w.deep_view() =~= w@);
    r.push(w);
    let w = chars_of("js");
    assert(w.deep_view() =~= w@);
    r.push(w);
    let w = chars_of("ts");
    assert(w.deep_view() =~= w@);
    r.push(w);
    let w = chars_of("json");
    assert(w.deep_view() =~= w@);
    r.push(w);
    let w = chars_of("toml");
    assert(w.deep_view() =~= w@);
    r.push(w);
    let w = chars_of("yaml");
    assert(w.deep_view() =~= w@);
    r.push(w);
    let w = chars_of("yml");
    assert(w.deep_view() =~= w@);
    r.push(w);
    let w = chars_of("log");
    assert(w.deep_view() =~= w@);
    r.push(w);
    let w = chars_of("csv");
    assert(w.deep_view() =~= w@);
    r.push(w);
    assert(r.deep_view() =~= text_extensions());
    r
}

/// The MIME type of an image file extension.
pub open spec fn image_mime(ext: Seq<char>) -> Option<Seq<char>> {
    if ext == "png"@ {
        Some("image/png"@)
    } else if ext == "jpg"@ || ext == "jpeg"@ {
        Some("image/jpeg"@)
    } else if ext == "webp"@ {
        Some("image/webp"@)
    } else {
        None
    }
}

/// The MIME type of an image file extension.
pub fn image_mime_for_extension(extension: &str) -> (r: Option<&'static str>)
    ensures
        match r {
            Some(m) => image_mime(extension@) == Some(m@),
            None => image_mime(extension@) is None,
        },
{
    let e = chars_of(extension);
    if eq_chars(&e, &chars_of("png")) {
        Some("image/png")
    } else if eq_chars(&e, &chars_of("jpg")) || eq_chars(&e, &chars_of("jpeg")) {
        Some("image/jpeg")
    } else if eq_chars(&e, &chars_of("webp")) {
        Some("image/webp")
    } else {
        None
    }
}

/// The media type of a `Content-Type` value: before any `;`, trimmed and in
/// ASCII lower case.
pub open spec fn media_type(content_type: Seq<char>) -> Seq<char> {
    lower(trim(split(content_type, ';')[0]))
}

/// The position of the last `.` of a file name.
pub open spec fn last_dot(f: Seq<char>) -> int {
    choose|i: int| 0 <= i < f.len() && f[i] == '.' && forall|j: int| i < j < f.len() ==> f[j] != '.'
}

/// The extension of a file name, in ASCII lower case: what follows its last `.`.
#[verifier::opaque]
pub open spec fn extension_of(f: Seq<char>) -> Option<Seq<char>> {
    if f.contains('.') {
        Some(lower(f.skip(last_dot(f) + 1)))
    } else {
        None
    }
}

/// What an attachment is taken for, by its declared content type, else by the
/// extension of its file name.
pub open spec fn kind_of(content_type: Option<Seq<char>>, filename: Seq<char>) -> Option<KindModel> {
    let by_type: Option<KindModel> = match content_type {
        Some(ct) => {
            let m = media_type(ct);
            if is_one_of(m, image_mime_types()) {
                Some(KindModel::Image(m))
            } else if starts_with(m, "text/"@) {
                Some(KindModel::Text)
            } else {
                None
            }
        },
        None => None,
    };
    match by_type {
        Some(k) => Some(k),
        None => match extension_of(filename) {
            Some(ext) => match image_mime(ext) {
                Some(m) => Some(KindModel::Image(m)),
                None => if is_one_of(ext, text_extensions()) {
                    Some(KindModel::Text)
                } else {
                    None
                },
            },
            None => None,
        },
    }
}

/// The extension of `stem.ext` is `ext` in lower case when `ext` holds no
/// `.`, whatever dots the stem holds.
pub proof fn lemma_extension_follows_last_dot(stem: Seq<char>, ext: Seq<char>)
    requires
        lacks(ext, '.'),
    ensures
        extension_of(stem + seq!['.'] + ext) == Some(lower(ext)),
{
    reveal(extension_of);
    let f = stem + seq!['.'] + ext;
    let n = stem.len() as int;
    assert(f[n] == '.');
    assert(f.contains('.'));
    assert forall|j: int| n < j < f.len() implies f[j] != '.' by {
        assert(f[j] == ext[j - n - 1]);
    }
    let i = last_dot(f);
    assert(0 <= i < f.len() && f[i] == '.' && forall|j: int| i < j < f.len() ==> f[j] != '.');
    if i < n {
        assert(f[n] != '.');
    }
    if i > n {
        assert(f[i] == ext[i - n - 1]);
    }
    assert(f.skip(n + 1) =~= ext);
}

/// A file name's extension never holds a `.`.
pub proof fn lemma_extension_has_no_dot(f: Seq<char>)
    ensures
        match extension_of(f) {
            Some(ext) => lacks(ext, '.'),
            None => lacks(f, '.'),
        },
{
    reveal(extension_of);
    if f.contains('.') {
        let i = last_dot(f);
        let w = choose|w: int| 0 <= w < f.len() && f[w] == '.';
        assert(0 <= i < f.len() && f[i] == '.' && forall|j: int| i < j < f.len() ==> f[j] != '.') by {
            lemma_last_dot_exists(f, w);
        }
        let ext = lower(f.skip(i + 1));
        assert forall|j: int| 0 <= j < ext.len() implies ext[j] != '.' by {
            assert(f.skip(i + 1)[j] == f[i + 1 + j]);
        }
    } else {
        assert forall|j: int| 0 <= j < f.len() implies f[j] != '.' by {
            if f[j] == '.' {
                assert(f.contains('.'));
            }
        }
    }
}

/// Where a file name holds a `.`, it has a last one.
proof fn lemma_last_dot_exists(f: Seq<char>, w: int)
    requires
        0 <= w < f.len(),
        f[w] == '.',
    ensures
        exists|i: int| 0 <= i < f.len() && f[i] == '.' && forall|j: int| i < j < f.len() ==> f[j] != '.',
    decreases f.len() - w,
{
    if exists|j: int| w < j < f.len() && f[j] == '.' {
        let j = choose|j: int| w < j < f.len() && f[j] == '.';
        lemma_last_dot_exists(f, j);
    } else {
        assert(0 <= w < f.len() && f[w] == '.' && forall|j: int| w < j < f.len() ==> f[j] != '.');
    }
}

/// A file's kind, without a declared content type, follows its extension
/// alone: `a.ext` and `b.ext` are taken for the same, whatever dots the stems
/// hold.
pub proof fn lemma_kind_ignores_stem(first: Seq<char>, second: Seq<char>, ext: Seq<char>)
    requires
        lacks(ext, '.'),
    ensures
        kind_of(None, first + seq!['.'] + ext) == kind_of(None, second + seq!['.'] + ext),
{
    lemma_extension_follows_last_dot(first, ext);
    lemma_extension_follows_last_dot(second, ext);
}

/// The ASCII case of an extension does not change what a file is taken for.
pub proof fn lemma_kind_ignores_extension_case(stem: Seq<char>, ext: Seq<char>)
    requires
        lacks(ext, '.'),
    ensures
        kind_of(None, stem + seq!['.'] + ext) == kind_of(None, stem + seq!['.'] + lower(ext)),
{
    assert forall|i: int| 0 <= i < lower(ext).len() implies lower(ext)[i] != '.' by {
        assert(ext[i] != '.');
    }
    lemma_extension_follows_last_dot(stem, ext);
    lemma_extension_follows_last_dot(stem, lower(ext));
    lemma_lower_idempotent(ext);
}

/// Every file name ending in `.jpg`, whatever comes before, is a JPEG image.
pub proof fn lemma_jpg_is_jpeg_image(stem: Seq<char>)
    ensures
        kind_of(None, stem + ".jpg"@) == Some(KindModel::Image("image/jpeg"@)),
{
    reveal_strlit(".jpg");
    reveal_strlit("jpg");
    reveal_strlit("png");
    let ext = "jpg"@;
    assert(stem + ".jpg"@ =~= stem + seq!['.'] + ext);
    assert(lacks(ext, '.'));
    lemma_extension_follows_last_dot(stem, ext);
    assert(lower(ext) =~= ext);
    assert(extension_of(stem + ".jpg"@) == Some(ext));
    assert(ext != "png"@) by {
        assert(ext[0] != "png"@[0]);
    }
    assert(image_mime(ext) == Some("image/jpeg"@));
}

/// The extension of a file name, in ASCII lower case.
fn extension_exec(filename: &[char]) -> (r: Option<Vec<char>>)
    ensures
        match r {
            Some(e) => extension_of(filename@) == Some(e@),
            None => extension_of(filename@) is None,
        },
{
    let dot = vec!['.'];
    assert(dot@ =~= seq!['.']);
    reveal(extension_of);
    match rfind(filename, &dot) {
        Some(i) => {
            assert(filename@.subrange(i as int, i + 1) =~= dot@);
            assert(filename@[i as int] == '.');
            assert forall|j: int| i < j < filename@.len() implies filename@[j] != '.' by {
                if filename@[j] == '.' {
                    assert(filename@.subrange(j, j + 1) =~= dot@);
                    assert(matches_at(filename@, dot@, j));
                }
            }
            let ghost k = last_dot(filename@);
            assert(filename@.contains('.'));
            assert(k == i);
            let n = filename.len();
            assert(i + 1 <= n);
            let rest = slice_vec(filename, i + 1, n);
            assert(rest@ =~= filename@.skip(i + 1));
            Some(lower_chars(&rest))
        },
        None => {
            assert forall|j: int| 0 <= j < filename@.len() implies filename@[j] != '.' by {
                if filename@[j] == '.' {
                    assert(filename@.subrange(j, j + 1) =~= dot@);
                    assert(matches_at(filename@, dot@, j));
                }
            }
            None
        },
    }
}

/// What an attachment is taken for, by its declared content type, else by the
/// extension of its file name; `None` when it is unsupported.
pub fn attachment_kind(content_type: Option<&str>, filename: &str) -> (r: Option<AttachmentKind>)
    ensures
        match r {
            Some(k) => kind_of(opt_view(content_type), filename@) == Some(k@),
            None => kind_of(opt_view(content_type), filename@) is None,
        },
{
    match content_type {
        Some(ct) => {
            let cs = chars_of(ct);
            let pieces = split_exec(&cs, ';');
            assert(pieces.deep_view()[0] == pieces@[0]@);
            let m = lower_chars(&trim_seq(&pieces[0]));
            if is_one_of_exec(&m, &image_mime_types_exec()) {
                return Some(AttachmentKind::Image(string_of(&m)));
            }
            if starts_with_exec(&m, &chars_of("text/")) {
                return Some(AttachmentKind::Text);
            }
        },
        None => {},
    }
    let f = chars_of(filename);
    match extension_exec(&f) {
        Some(ext) => {
            let es = string_of(&ext);
            match image_mime_for_extension(es.as_str()) {
                Some(m) => Some(AttachmentKind::Image(m.to_owned())),
                None => if is_one_of_exec(&ext, &text_extensions_exec()) {
                    Some(AttachmentKind::Text)
                } else {
                    None
                },
            }
        },
        None => None,
    }
}

/// An optional string slice by its view.
pub open spec fn opt_view(o: Option<&str>) -> Option<Seq<char>> {
    match o {
        Some(s) => Some(s@),
        None => None,
    }
}

/// The type that an attachment is handed to the model as.
pub open spec fn type_of(k: Option<KindModel>) -> AttachmentType {
    match k {
        Some(KindModel::Image(_)) => AttachmentType::Image,
        Some(KindModel::Text) => AttachmentType::Document,
        None => AttachmentType::Unsupported,
    }
}

/// The type that an attachment is handed to the model as.
pub fn attachment_type(content_type: Option<&str>, filename: &str) -> (r: AttachmentType)
    ensures
        r == type_of(kind_of(opt_view(content_type), filename@)),
{
    match attachment_kind(content_type, filename) {
        Some(AttachmentKind::Image(_)) => AttachmentType::Image,
        Some(AttachmentKind::Text) => AttachmentType::Document,
        None => AttachmentType::Unsupported,
    }
}

/// A file name made safe to quote: line breaks and tabs become spaces, runs of
/// whitespace become single spaces, and at most 200 characters remain.
pub open spec fn sanitized_filename(f: Seq<char>) -> Seq<char> {
    take_chars(squash_ws(map_char(f, seq!['\n', '\r', '\t'], ' ')), 200)
}

/// Computes `sanitized_filename`.
pub fn sanitize_filename(filename: &str) -> (r: String)
    ensures
        r@ == sanitized_filename(filename@),
{
    let f = chars_of(filename);
    let controls = vec!['\n', '\r', '\t'];
    assert(controls@ =~= seq!['\n', '\r', '\t']);
    let mapped = map_char_exec(&f, &controls, ' ');
    let squashed = squash_ws_exec(&mapped);
    string_of(&take_chars_exec(&squashed, 200))
}


/// The character of the standard Base64 alphabet for `n < 64`: `A`-`Z`,
/// `a`-`z`, `0`-`9`, `+`, `/`.
pub open spec fn base64_char(n: nat) -> char {
    if n < 26 {
        ((n + 65) as u8) as char
    } else if n < 52 {
        ((n + 71) as u8) as char
    } else if n < 62 {
        ((n - 4) as u8) as char
    } else if n == 62 {
        '+'
    } else {
        '/'
    }
}

/// The standard Base64 encoding of `bytes` (RFC 4648, section 4): each group
/// of three bytes becomes four characters of six bits each; a last group of
/// one or two bytes is filled with zero bits and padded with `=`.
pub open spec fn base64_standard(bytes: Seq<u8>) -> Seq<char>
    decreases bytes.len(),
{
    if bytes.len() == 0 {
        seq![]
    } else if bytes.len() == 1 {
        let a = bytes[0] as nat;
        seq![base64_char(a / 4), base64_char((a % 4) * 16), '=', '=']
    } else if bytes.len() == 2 {
        let a = bytes[0] as nat;
        let b = bytes[1] as nat;
        seq![base64_char(a / 4), base64_char((a % 4) * 16 + b / 16), base64_char((b % 16) * 4), '=']
    } else {
        let a = bytes[0] as nat;
        let b = bytes[1] as nat;
        let c = bytes[2] as nat;
        seq![
            base64_char(a / 4),
            base64_char((a % 4) * 16 + b / 16),
            base64_char((b % 16) * 4 + c / 64),
            base64_char(c % 64),
        ] + base64_standard(bytes.skip(3))
    }
}

/// Encodes bytes with `base64::engine::general_purpose::STANDARD.encode`: the
/// contract states the standard padded Base64 encoding of the bytes.
#[verifier::external_body]
fn encode_base64(bytes: &[u8]) -> (r: String)
    ensures
        r@ == base64_standard(bytes@),
{
    base64::engine::general_purpose::STANDARD.encode(bytes)
}

/// What `String::from_utf8_lossy` reads from `bytes` when they are not valid
/// UTF-8.
pub uninterp spec fn lossy_utf8(bytes: Seq<u8>) -> Seq<char>;

/// Decodes bytes with `String::from_utf8_lossy`: the contract states that valid
/// UTF-8 is decoded as it is, and names (`lossy_utf8`) without describing what
/// invalid bytes become.
#[verifier::external_body]
pub(crate) fn decode_lossy(bytes: &[u8]) -> (r: String)
    ensures
        r@ == lossy_utf8(bytes@),
        valid_utf8(bytes@) ==> r@ == decode_utf8(bytes@),
{
    String::from_utf8_lossy(bytes).into_owned()
}

/// Why an attachment was not used.
#[derive(Clone, Copy, Debug, PartialEq, Eq, Structural)]
pub enum SkipReason {
    UnsupportedType,
    TooLarge,
    ImageLimitReached,
    DownloadFailed,
    TextLimitReached,
}

impl SkipReason {
    /// The reason as it is reported.
    pub open spec fn spec_text(self) -> Seq<char> {
        match self {
            SkipReason::UnsupportedType => "unsupported type"@,
            SkipReason::TooLarge => "too large"@,
            SkipReason::ImageLimitReached => "image limit reached"@,
            SkipReason::DownloadFailed => "download failed"@,
            SkipReason::TextLimitReached => "text limit reached"@,
        }
    }

    /// The reason as it is reported.
    pub fn text(&self) -> (r: &'static str)
        ensures
            r@ == self.spec_text(),
    {
        match self {
            SkipReason::UnsupportedType => "unsupported type",
            SkipReason::TooLarge => "too large",
            SkipReason::ImageLimitReached => "image limit reached",
            SkipReason::DownloadFailed => "download failed",
            SkipReason::TextLimitReached => "text limit reached",
        }
    }
}

/// What the logic reads of a Discord attachment.
#[derive(Clone, Debug)]
pub struct AttachmentInfo {
    pub filename: String,
    pub content_type: Option<String>,
    pub size: u64,
}

impl AttachmentInfo {
    /// The declared content type, by its view.
    pub open spec fn content_type_view(&self) -> Option<Seq<char>> {
        match self.content_type {
            Some(c) => Some(c@),
            None => None,
        }
    }
}

/// How a download ended.
pub enum DownloadOutcome {
    /// The body, within the size limit.
    Bytes(Vec<u8>),
    /// The body was larger than the limit.
    TooLarge,
    /// The download failed otherwise.
    Failed,
}

/// Limits on the attachments that are passed to the model.
#[derive(Clone, Copy, Debug)]
pub struct AttachmentDownloader {
    pub enabled: bool,
    pub max_bytes: usize,
    pub max_images: usize,
    pub max_text_chars: usize,
}

/// The attachments gathered so far, and how many characters of text may still
/// be added.
#[derive(Debug)]
pub struct AttachmentCollection {
    pub context: AttachmentContext,
    pub remaining_text_chars: usize,
}

/// The report of a skipped attachment.
pub open spec fn skip_entry(filename: Seq<char>, reason: SkipReason) -> Seq<char> {
    filename + ": "@ + reason.spec_text()
}

/// The part of a text document that fits in `remaining` characters, with code
/// fences defused and a note when it was cut.
pub open spec fn text_excerpt(content: Seq<char>, remaining: nat) -> Seq<char> {
    let accepted = take_chars(content, remaining);
    let body = replace_all(accepted, "```"@, "`` `"@);
    if accepted.len() < content.len() {
        body + "\n[Attachment text truncated]"@
    } else {
        body
    }
}

/// The block that quotes a text document in the prompt.
pub open spec fn text_block(filename: Seq<char>, content: Seq<char>, remaining: nat) -> Seq<char> {
    "[Attached file: "@ + sanitized_filename(filename) + "]\n\n```text\n"@ + text_excerpt(
        content,
        remaining,
    ) + "\n```"@
}

/// Computes `text_block`.
pub fn text_block_exec(filename: &str, content: &[char], remaining: usize) -> (r: String)
    ensures
        r@ == text_block(filename@, content@, remaining as nat),
{
    let accepted = take_chars_exec(content, remaining);
    let fence = chars_of("```");
    let defused = chars_of("`` `");
    proof {
        reveal_strlit("```");
    }
    let mut body = replace_all_exec(&accepted, &fence, &defused);
    if accepted.len() < content.len() {
        append_str(&mut body, "\n[Attachment text truncated]");
    }
    let mut out: Vec<char> = Vec::new();
    append_str(&mut out, "[Attached file: ");
    let name = sanitize_filename(filename);
    extend(&mut out, &chars_of(name.as_str()));
    append_str(&mut out, "]\n\n```text\n");
    extend(&mut out, &body);
    append_str(&mut out, "\n```");
    assert(out@ =~= text_block(filename@, content@, remaining as nat));
    string_of(&out)
}

impl AttachmentDownloader {
    /// The limits that the configuration sets.
    pub fn new(config: &Config) -> (r: AttachmentDownloader)
        ensures
            r.enabled == config.attachments_enabled,
            r.max_bytes == config.attachment_max_bytes,
            r.max_images == config.attachment_max_images,
            r.max_text_chars == config.attachment_max_text_chars,
    {
        AttachmentDownloader {
            enabled: config.attachments_enabled,
            max_bytes: config.attachment_max_bytes,
            max_images: config.attachment_max_images,
            max_text_chars: config.attachment_max_text_chars,
        }
    }

    /// Whether the attachments of a message are looked at at all.
    pub fn should_collect(&self, attachment_count: usize) -> (r: bool)
        ensures
            r == (self.enabled && attachment_count > 0),
    {
        self.enabled && attachment_count > 0
    }

    /// Whether a download whose announced length is `content_length` (if the
    /// server gave one) may be read: not when it is over the size limit.
    pub fn length_allowed(&self, content_length: Option<u64>) -> (r: bool)
        ensures
            r == match content_length {
                Some(n) => n <= self.max_bytes,
                None => true,
            },
    {
        match content_length {
            Some(n) => n <= self.max_bytes as u64,
            None => true,
        }
    }

    /// How a download that read `body` ends: with the body, or as too large
    /// when it is over the size limit.
    pub fn outcome_of(&self, body: Vec<u8>) -> (r: DownloadOutcome)
        ensures
            body@.len() > self.max_bytes ==> r is TooLarge,
            body@.len() <= self.max_bytes ==> (r matches DownloadOutcome::Bytes(b) && b@ == body@),
    {
        if body.len() > self.max_bytes {
            DownloadOutcome::TooLarge
        } else {
            DownloadOutcome::Bytes(body)
        }
    }

    /// An empty collection with the whole text budget.
    pub fn start(&self) -> (r: AttachmentCollection)
        ensures
            r.context.text_blocks@.len() == 0,
            r.context.images@.len() == 0,
            r.context.skipped@.len() == 0,
            r.remaining_text_chars == self.max_text_chars,
    {
        AttachmentCollection { context: AttachmentContext::new(), remaining_text_chars: self.max_text_chars }
    }

    /// Whether to download an attachment, as what, or why not, given how many
    /// images were accepted before it.
    pub fn plan(&self, images_accepted: usize, info: &AttachmentInfo) -> (r: Result<
        AttachmentKind,
        SkipReason,
    >)
        ensures
            match kind_of(info.content_type_view(), info.filename@) {
                None => r == Err::<AttachmentKind, SkipReason>(SkipReason::UnsupportedType),
                Some(k) => if info.size > self.max_bytes {
                    r == Err::<AttachmentKind, SkipReason>(SkipReason::TooLarge)
                } else if k is Image && images_accepted >= self.max_images {
                    r == Err::<AttachmentKind, SkipReason>(SkipReason::ImageLimitReached)
                } else {
                    r matches Ok(kk) && kk@ == k
                },
            },
    {
        let ct: Option<&str> = match &info.content_type {
            Some(c) => Some(c.as_str()),
            None => None,
        };
        assert(opt_view(ct) == info.content_type_view());
        let kind = match attachment_kind(ct, info.filename.as_str()) {
            Some(k) => k,
            None => return Err(SkipReason::UnsupportedType),
        };
        if info.size > self.max_bytes as u64 {
            return Err(SkipReason::TooLarge);
        }
        match kind {
            AttachmentKind::Image(_) => if images_accepted >= self.max_images {
                return Err(SkipReason::ImageLimitReached);
            },
            AttachmentKind::Text => {},
        }
        Ok(kind)
    }
}

impl AttachmentCollection {
    /// Records that an attachment was skipped.
    pub fn skip(&mut self, filename: &str, reason: SkipReason)
        ensures
            final(self).context.skipped.deep_view() == old(self).context.skipped.deep_view().push(
                skip_entry(filename@, reason),
            ),
            final(self).context.text_blocks == old(self).context.text_blocks,
            final(self).context.images == old(self).context.images,
            final(self).remaining_text_chars == old(self).remaining_text_chars,
    {
        let mut out: Vec<char> = chars_of(filename);
        append_str(&mut out, ": ");
        append_str(&mut out, reason.text());
        let entry = string_of(&out);
        let ghost before = self.context.skipped.deep_view();
        self.context.skipped.push(entry);
        assert(self.context.skipped.deep_view() =~= before.push(skip_entry(filename@, reason)));
    }

    /// Records how the download of an attachment of the given kind ended.
    pub fn record(&mut self, info: &AttachmentInfo, kind: &AttachmentKind, outcome: DownloadOutcome)
        ensures
            match outcome {
                DownloadOutcome::TooLarge => final(self).context.skipped.deep_view() == old(
                    self,
                ).context.skipped.deep_view().push(skip_entry(info.filename@, SkipReason::TooLarge))
                    && final(self).context.text_blocks == old(self).context.text_blocks
                    && final(self).context.images == old(self).context.images
                    && final(self).remaining_text_chars == old(self).remaining_text_chars,
                DownloadOutcome::Failed => final(self).context.skipped.deep_view() == old(
                    self,
                ).context.skipped.deep_view().push(
                    skip_entry(info.filename@, SkipReason::DownloadFailed),
                ) && final(self).context.text_blocks == old(self).context.text_blocks
                    && final(self).context.images == old(self).context.images
                    && final(self).remaining_text_chars == old(self).remaining_text_chars,
                DownloadOutcome::Bytes(bytes) => match kind@ {
                    KindModel::Image(mime) => final(self).context.images@.len() == old(
                        self,
                    ).context.images@.len() + 1 && final(self).context.images@.drop_last() == old(
                        self,
                    ).context.images@ && final(self).context.images@.last().filename@
                        == info.filename@ && final(self).context.images@.last().mime@ == mime
                        && final(self).context.images@.last().data_base64@ == base64_standard(
                        bytes@,
                    ) && final(self).context.text_blocks == old(self).context.text_blocks
                        && final(self).context.skipped == old(self).context.skipped
                        && final(self).remaining_text_chars == old(self).remaining_text_chars,
                    KindModel::Text => if old(self).remaining_text_chars == 0 {
                        final(self).context.skipped.deep_view() == old(
                            self,
                        ).context.skipped.deep_view().push(
                            skip_entry(info.filename@, SkipReason::TextLimitReached),
                        ) && final(self).context.text_blocks == old(self).context.text_blocks
                            && final(self).context.images == old(self).context.images
                            && final(self).remaining_text_chars == 0
                    } else {
                        final(self).context.text_blocks.deep_view() == old(
                            self,
                        ).context.text_blocks.deep_view().push(
                            text_block(
                                info.filename@,
                                lossy_utf8(bytes@),
                                old(self).remaining_text_chars as nat,
                            ),
                        ) && final(self).remaining_text_chars as nat == old(
                            self,
                        ).remaining_text_chars - take_chars(
                            lossy_utf8(bytes@),
                            old(self).remaining_text_chars as nat,
                        ).len() && final(self).context.images == old(self).context.images
                            && final(self).context.skipped == old(self).context.skipped
                    },
                },
            },
    {
        match outcome {
            DownloadOutcome::TooLarge => self.skip(info.filename.as_str(), SkipReason::TooLarge),
            DownloadOutcome::Failed => self.skip(
                info.filename.as_str(),
                SkipReason::DownloadFailed,
            ),
            DownloadOutcome::Bytes(bytes) => match kind {
                AttachmentKind::Image(mime) => {
                    let image = ImageInput {
                        filename: info.filename.clone(),
                        mime: mime.clone(),
                        data_base64: encode_base64(&bytes),
                    };
                    self.context.images.push(image);
                },
                AttachmentKind::Text => {
                    if self.remaining_text_chars == 0 {
                        self.skip(info.filename.as_str(), SkipReason::TextLimitReached);
                    } else {
                        let text = decode_lossy(&bytes);
                        let content = chars_of(text.as_str());
                        let block = text_block_exec(
                            info.filename.as_str(),
                            &content,
                            self.remaining_text_chars,
                        );
                        let accepted = if content.len() < self.remaining_text_chars {
                            content.len()
                        } else {
                            self.remaining_text_chars
                        };
                        self.remaining_text_chars = self.remaining_text_chars - accepted;
                        let ghost before = self.context.text_blocks.deep_view();
                        self.context.text_blocks.push(block);
                        assert(self.context.text_blocks.deep_view() =~= before.push(block@));
                    }
                },
            },
        }
    }
}

} // verus!
