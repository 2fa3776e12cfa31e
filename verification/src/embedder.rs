//! The embedder's message parser: turns a cached source message —
//! attachments, embeds, stickers — into a renderable artifact: one primary
//! image, secondary image embeds, a list of attachments to re-upload, and an
//! order-preserving URL list for audit display.
//!
//! The stage is pure: the same cached message always parses to the same
//! artifact.

use vstd::prelude::*;

use twilight_model::channel::message::Embed;
use twilight_model::http::attachment::Attachment;
use twilight_util::builder::embed::{EmbedBuilder, ImageSource};

use crate::util::clone_opt_string;

verus! {

/// An attachment of the source message, as the platform reported it.
pub struct SourceAttachment {
    pub filename: String,
    /// MIME type, when the platform reported one.
    pub content_type: Option<String>,
    pub url: String,
    pub proxy_url: String,
}

/// An embed of the source message, reduced to what the parser reads: the
/// image it shows (if any, with that image's attachment data) and whether
/// the embed carries any other content.
pub struct SourceEmbed {
    /// The embed's image, when it has one.
    pub image: Option<SourceAttachment>,
    /// Whether the embed carries content besides an image: title,
    /// description, fields, author or footer.
    pub has_text: bool,
}

/// How a sticker is encoded.
#[derive(Clone, Copy, PartialEq, Eq, Structural)]
pub enum StickerFormat {
    Png,
    Apng,
    /// Vector animation; rendered as a text line, not an image.
    Lottie,
    Gif,
}

/// A sticker of the source message.
pub struct SourceSticker {
    pub name: String,
    /// The sticker's image URL.
    pub url: String,
    pub format: StickerFormat,
}

/// A source message as the entity cache holds it.
pub struct CachedMessage {
    pub id: u64,
    pub author_id: u64,
    /// The message this one replies to, when any.
    pub referenced_message: Option<u64>,
    pub attachments: Vec<SourceAttachment>,
    pub embeds: Vec<SourceEmbed>,
    pub stickers: Vec<SourceSticker>,
}

/// Spec-level value of a cached message.
#[verifier::ext_equal]
pub struct MessageModel {
    pub id: u64,
    pub author_id: u64,
    pub referenced_message: Option<u64>,
    pub attachments: Seq<HandleModel>,
    pub embeds: Seq<EmbedModel>,
    pub stickers: Seq<StickerModel>,
}

impl View for CachedMessage {
    type V = MessageModel;

    open spec fn view(&self) -> MessageModel {
        MessageModel {
            id: self.id,
            author_id: self.author_id,
            referenced_message: self.referenced_message,
            attachments: attachment_models(self.attachments@),
            embeds: embed_models(self.embeds@),
            stickers: sticker_models(self.stickers@),
        }
    }
}

/// A handle on one attachment: enough to embed it as an image, re-upload
/// it, or list its URL.
pub struct AttachmentHandle {
    pub filename: String,
    pub content_type: Option<String>,
    pub url: String,
    pub proxy_url: String,
}

/// Spec-level value of an attachment or handle.
#[verifier::ext_equal]
pub struct HandleModel {
    pub filename: Seq<char>,
    pub content_type: Option<Seq<char>>,
    pub url: Seq<char>,
    pub proxy_url: Seq<char>,
}

impl View for SourceAttachment {
    type V = HandleModel;

    open spec fn view(&self) -> HandleModel {
        HandleModel {
            filename: self.filename@,
            content_type: match self.content_type {
                Some(ct) => Some(ct@),
                None => None,
            },
            url: self.url@,
            proxy_url: self.proxy_url@,
        }
    }
}

impl View for AttachmentHandle {
    type V = HandleModel;

    open spec fn view(&self) -> HandleModel {
        HandleModel {
            filename: self.filename@,
            content_type: match self.content_type {
                Some(ct) => Some(ct@),
                None => None,
            },
            url: self.url@,
            proxy_url: self.proxy_url@,
        }
    }
}

/// Spec-level value of a source embed.
#[verifier::ext_equal]
pub struct EmbedModel {
    pub image: Option<HandleModel>,
    pub has_text: bool,
}

impl View for SourceEmbed {
    type V = EmbedModel;

    open spec fn view(&self) -> EmbedModel {
        EmbedModel {
            image: match self.image {
                Some(a) => Some(a@),
                None => None,
            },
            has_text: self.has_text,
        }
    }
}

/// Spec-level value of a sticker.
#[verifier::ext_equal]
pub struct StickerModel {
    pub name: Seq<char>,
    pub url: Seq<char>,
    pub format: StickerFormat,
}

impl View for SourceSticker {
    type V = StickerModel;

    open spec fn view(&self) -> StickerModel {
        StickerModel { name: self.name@, url: self.url@, format: self.format }
    }
}

/// MIME types the platform displays inline as images.
pub open spec fn is_image_mime(ct: Option<Seq<char>>) -> bool {
    ct is Some && (ct->0 == "image/png"@ || ct->0 == "image/jpeg"@ || ct->0 == "image/gif"@ || ct->0
        == "image/webp"@)
}

/// URL protocols the platform accepts for embed images.
pub open spec fn scheme_ok(s: Seq<char>) -> bool {
    (s.len() >= 6 && s.subrange(0, 6) == "https:"@) || (s.len() >= 5 && s.subrange(0, 5)
        == "http:"@)
}

/// Whether a handle resolves to a displayable image: an image MIME type
/// behind an accepted URL protocol.
pub open spec fn displayable(h: HandleModel) -> bool {
    is_image_mime(h.content_type) && scheme_ok(h.url)
}

#[verifier::external_type_specification]
#[verifier::external_body]
pub struct ExImageSource(ImageSource);

#[verifier::external_type_specification]
#[verifier::external_body]
pub struct ExEmbed(Embed);

#[verifier::external_type_specification]
pub struct ExAttachment(Attachment);

/// Relies on twilight_util's `ImageSource::url`: it returns `Ok` exactly
/// for URLs that start with `https:` or `http:`, and holds the URL
/// unchanged.
#[verifier::external_body]
fn image_source_from_url(url: &String) -> (r: Option<ImageSource>)
    ensures
        r is Some <==> scheme_ok(url@),
{
    ImageSource::url(url.as_str()).ok()
}

/// Relies on twilight_util's `EmbedBuilder`: builds a "rich" embed holding
/// only the given image. An image-only embed has no text, so embed
/// validation cannot fail and the unwrap cannot fire.
#[verifier::external_body]
fn embed_with_image(image: ImageSource) -> Embed {
    EmbedBuilder::new().image(image).validate().unwrap().build()
}

pub assume_specification[ Attachment::from_bytes ](filename: String, file: Vec<u8>, id: u64) -> (r:
    Attachment)
    ensures
        r.filename == filename,
        r.file == file,
        r.id == id,
        r.description is None,
;

impl AttachmentHandle {
    /// Copy the platform's attachment data into a handle.
    pub fn from_attachment(attachment: &SourceAttachment) -> (r: AttachmentHandle)
        ensures
            r@ == attachment@,
    {
        let r = AttachmentHandle {
            filename: attachment.filename.clone(),
            content_type: clone_opt_string(&attachment.content_type),
            url: attachment.url.clone(),
            proxy_url: attachment.proxy_url.clone(),
        };
        proof {
            assert(r@ =~= attachment@);
        }
        r
    }

    /// The handle's line in the audit URL list: the proxy URL.
    pub fn url_list_item(&self) -> (r: String)
        ensures
            r@ == self@.proxy_url,
    {
        self.proxy_url.clone()
    }

    /// Whether the MIME type is a displayable image type.
    pub fn is_image(&self) -> (r: bool)
        ensures
            r == is_image_mime(self@.content_type),
    {
        match &self.content_type {
            Some(ct) => *ct == String::from_str("image/png") || *ct == String::from_str(
                "image/jpeg",
            ) || *ct == String::from_str("image/gif") || *ct == String::from_str("image/webp"),
            None => false,
        }
    }

    /// The handle as an embeddable image source, when it is a displayable
    /// image.
    pub fn embedable_image(&self) -> (r: Option<ImageSource>)
        ensures
            r is Some <==> displayable(self@),
    {
        if self.is_image() {
            image_source_from_url(&self.url)
        } else {
            None
        }
    }

    /// The handle as a ready-to-send image embed, when it is a displayable
    /// image.
    pub fn as_embed(&self) -> (r: Option<Embed>)
        ensures
            r is Some <==> displayable(self@),
    {
        match self.embedable_image() {
            Some(image) => Some(embed_with_image(image)),
            None => None,
        }
    }

    /// Package the handle's downloaded bytes for re-upload under the given
    /// per-message attachment id.
    pub fn into_attachment(self, id: u64, file: Vec<u8>) -> (r: Attachment)
        ensures
            r.filename@ == self@.filename,
            r.file == file,
            r.id == id,
    {
        Attachment::from_bytes(self.filename, file, id)
    }
}

/// Re-uploadable attachments, paired with their downloaded bytes and given
/// sequential ids.
pub trait VecAttachments {
    /// Package each handle with its bytes; ids count up from zero.
    fn into_attachments(self, files: Vec<Vec<u8>>) -> Vec<Attachment>;
}

impl VecAttachments for Vec<AttachmentHandle> {
    fn into_attachments(self, files: Vec<Vec<u8>>) -> (r: Vec<Attachment>)
        ensures
            files@.len() == self@.len() ==> r@.len() == self@.len() && forall|i: int|
                0 <= i < r@.len() ==> (#[trigger] r@[i]).filename@ == self@[i]@.filename
                    && r@[i].file == files@[i] && r@[i].id == i,
            files@.len() != self@.len() ==> r@.len() == 0,
    {
        if files.len() == self.len() {
            attachments_for_upload(self, files)
        } else {
            Vec::new()
        }
    }
}

/// Package each handle with its downloaded bytes; the attachment ids count
/// up from zero in input order.
pub fn attachments_for_upload(handles: Vec<AttachmentHandle>, files: Vec<Vec<u8>>) -> (r: Vec<
    Attachment,
>)
    requires
        handles@.len() == files@.len(),
    ensures
        r@.len() == handles@.len(),
        forall|i: int|
            0 <= i < r@.len() ==> (#[trigger] r@[i]).filename@ == handles@[i]@.filename
                && r@[i].file == files@[i] && r@[i].id == i,
{
    let mut r: Vec<Attachment> = Vec::new();
    let mut handles = handles;
    let mut files = files;
    let mut i: usize = 0;
    let ghost orig_handles = handles@;
    let ghost orig_files = files@;
    proof {
        assert(orig_handles.len() == handles.len());
    }
    while handles.len() > 0
        invariant
            handles@.len() == files@.len(),
            i + handles@.len() == orig_handles.len(),
            orig_handles.len() <= usize::MAX,
            orig_files.len() == orig_handles.len(),
            handles@ =~= orig_handles.subrange(i as int, orig_handles.len() as int),
            files@ =~= orig_files.subrange(i as int, orig_files.len() as int),
            r@.len() == i,
            forall|k: int|
                0 <= k < i ==> (#[trigger] r@[k]).filename@ == orig_handles[k]@.filename
                    && r@[k].file == orig_files[k] && r@[k].id == k,
        decreases handles@.len(),
    {
        let h = handles.remove(0);
        let f = files.remove(0);
        let a = h.into_attachment(i as u64, f);
        r.push(a);
        i += 1;
    }
    r
}

/// An output embed: either an image rendered from an attachment handle, or
/// a source embed passed through unchanged.
pub enum EmbedArtifact {
    /// An image embed showing this URL.
    Image { url: String },
    /// A source embed carried through as-is.
    Existing { embed: SourceEmbed },
}

/// Spec-level value of an output embed.
pub enum ArtifactModel {
    Image { url: Seq<char> },
    Existing { embed: EmbedModel },
}

impl View for EmbedArtifact {
    type V = ArtifactModel;

    open spec fn view(&self) -> ArtifactModel {
        match self {
            EmbedArtifact::Image { url } => ArtifactModel::Image { url: url@ },
            EmbedArtifact::Existing { embed } => ArtifactModel::Existing { embed: embed@ },
        }
    }
}

/// The parsed, renderable artifact of one source message.
pub struct ParsedMessage {
    /// One text line per vector-format sticker, joined with newlines;
    /// `None` when there are none.
    pub sticker_names_str: Option<String>,
    /// The proxy URL of every original attachment, in order.
    pub url_list: Vec<String>,
    /// The URL of the image shown in the main embed, when any item
    /// resolved to one.
    pub primary_image: Option<String>,
    /// Secondary embeds: one per further image, plus passed-through source
    /// embeds.
    pub embeds: Vec<EmbedArtifact>,
    /// Non-image attachments queued for re-upload.
    pub upload_attachments: Vec<AttachmentHandle>,
}

/// The parser's accumulator.
#[verifier::ext_equal]
pub struct ParseState {
    pub primary: Option<Seq<char>>,
    pub embeds: Seq<ArtifactModel>,
    pub uploads: Seq<HandleModel>,
    pub urls: Seq<Seq<char>>,
}

/// The empty accumulator.
pub open spec fn parse_init() -> ParseState {
    ParseState { primary: None, embeds: Seq::empty(), uploads: Seq::empty(), urls: Seq::empty() }
}

/// One attachment: its proxy URL is always listed; the first displayable
/// image becomes the primary image, later displayable images become
/// secondary embeds, everything else queues for re-upload.
pub open spec fn attachment_step(st: ParseState, a: HandleModel) -> ParseState {
    let listed = ParseState { urls: st.urls.push(a.proxy_url), ..st };
    if st.primary is None && displayable(a) {
        ParseState { primary: Some(a.url), ..listed }
    } else if st.primary is Some && displayable(a) {
        ParseState { embeds: listed.embeds.push(ArtifactModel::Image { url: a.url }), ..listed }
    } else {
        ParseState { uploads: listed.uploads.push(a), ..listed }
    }
}

pub open spec fn run_attachments(st: ParseState, atts: Seq<HandleModel>) -> ParseState
    decreases atts.len(),
{
    if atts.len() == 0 {
        st
    } else {
        run_attachments(attachment_step(st, atts[0]), atts.subrange(1, atts.len() as int))
    }
}

/// One source embed: an image-only embed competes for the primary image
/// slot (only while no secondary embeds exist yet), or becomes a secondary
/// embed, or — when its image is not displayable — queues for re-upload;
/// any other embed passes through unchanged.
pub open spec fn embed_step(st: ParseState, e: EmbedModel) -> ParseState {
    if !e.has_text && e.image is Some {
        let h = e.image->0;
        if displayable(h) {
            if st.primary is None && st.embeds.len() == 0 {
                ParseState { primary: Some(h.url), ..st }
            } else {
                ParseState { embeds: st.embeds.push(ArtifactModel::Image { url: h.url }), ..st }
            }
        } else {
            ParseState { uploads: st.uploads.push(h), ..st }
        }
    } else {
        ParseState { embeds: st.embeds.push(ArtifactModel::Existing { embed: e }), ..st }
    }
}

pub open spec fn run_embeds(st: ParseState, es: Seq<EmbedModel>) -> ParseState
    decreases es.len(),
{
    if es.len() == 0 {
        st
    } else {
        run_embeds(embed_step(st, es[0]), es.subrange(1, es.len() as int))
    }
}

/// The handle a raster sticker renders through: a PNG named after the
/// sticker, at the sticker's image URL.
pub open spec fn sticker_handle(s: StickerModel) -> HandleModel {
    HandleModel {
        filename: s.name + ".png"@,
        content_type: Some("image/png"@),
        url: s.url,
        proxy_url: s.url,
    }
}

/// A vector-format sticker's text line.
pub open spec fn sticker_line(name: Seq<char>) -> Seq<char> {
    "Sticker: **"@ + name + "**"@
}

/// One sticker: a vector-format sticker adds a text line; a raster sticker
/// competes for the image slots exactly like an attachment (without a URL
/// list entry); other formats are skipped.
pub open spec fn sticker_step(st: ParseState, names: Seq<Seq<char>>, s: StickerModel) -> (
    ParseState,
    Seq<Seq<char>>,
) {
    match s.format {
        StickerFormat::Lottie => (st, names.push(sticker_line(s.name))),
        StickerFormat::Png | StickerFormat::Apng => {
            let h = sticker_handle(s);
            if st.primary is None && displayable(h) {
                (ParseState { primary: Some(h.url), ..st }, names)
            } else if displayable(h) {
                (
                    ParseState { embeds: st.embeds.push(ArtifactModel::Image { url: h.url }), ..st },
                    names,
                )
            } else {
                (ParseState { uploads: st.uploads.push(h), ..st }, names)
            }
        },
        StickerFormat::Gif => (st, names),
    }
}

pub open spec fn run_stickers(st: ParseState, names: Seq<Seq<char>>, ss: Seq<StickerModel>) -> (
    ParseState,
    Seq<Seq<char>>,
)
    decreases ss.len(),
{
    if ss.len() == 0 {
        (st, names)
    } else {
        let stepped = sticker_step(st, names, ss[0]);
        run_stickers(stepped.0, stepped.1, ss.subrange(1, ss.len() as int))
    }
}

/// Sticker text lines joined with newlines.
pub open spec fn join_lines(ls: Seq<Seq<char>>) -> Seq<char>
    decreases ls.len(),
{
    if ls.len() == 0 {
        Seq::empty()
    } else if ls.len() == 1 {
        ls[0]
    } else {
        join_lines(ls.drop_last()) + "\n"@ + ls.last()
    }
}

/// The handle models of a message's attachments.
pub open spec fn attachment_models(atts: Seq<SourceAttachment>) -> Seq<HandleModel> {
    atts.map_values(|a: SourceAttachment| a@)
}

/// The embed models of a message's embeds.
pub open spec fn embed_models(es: Seq<SourceEmbed>) -> Seq<EmbedModel> {
    es.map_values(|e: SourceEmbed| e@)
}

/// The sticker models of a message's stickers.
pub open spec fn sticker_models(ss: Seq<SourceSticker>) -> Seq<StickerModel> {
    ss.map_values(|s: SourceSticker| s@)
}

/// The accumulator a message parses to: attachments, then embeds, then
/// stickers.
pub open spec fn parse_result(orig: &CachedMessage) -> (ParseState, Seq<Seq<char>>) {
    run_stickers(
        run_embeds(
            run_attachments(parse_init(), attachment_models(orig.attachments@)),
            embed_models(orig.embeds@),
        ),
        Seq::empty(),
        sticker_models(orig.stickers@),
    )
}

/// The views of a sequence of strings.
pub open spec fn string_views(s: Seq<String>) -> Seq<Seq<char>> {
    s.map_values(|x: String| x@)
}

/// The views of a sequence of output embeds.
pub open spec fn artifact_views(s: Seq<EmbedArtifact>) -> Seq<ArtifactModel> {
    s.map_values(|x: EmbedArtifact| x@)
}

/// The views of a sequence of handles.
pub open spec fn handle_views(s: Seq<AttachmentHandle>) -> Seq<HandleModel> {
    s.map_values(|x: AttachmentHandle| x@)
}

/// The view of an optional string.
pub open spec fn opt_string_view(s: Option<String>) -> Option<Seq<char>> {
    match s {
        Some(x) => Some(x@),
        None => None,
    }
}

/// The accumulator the executable parser's variables stand for.
pub open spec fn cur_state(
    primary: Option<String>,
    embeds: Seq<EmbedArtifact>,
    uploads: Seq<AttachmentHandle>,
    urls: Seq<String>,
) -> ParseState {
    ParseState {
        primary: opt_string_view(primary),
        embeds: artifact_views(embeds),
        uploads: handle_views(uploads),
        urls: string_views(urls),
    }
}

/// Copy a source attachment.
fn clone_source_attachment(a: &SourceAttachment) -> (r: SourceAttachment)
    ensures
        r@ == a@,
{
    let r = SourceAttachment {
        filename: a.filename.clone(),
        content_type: clone_opt_string(&a.content_type),
        url: a.url.clone(),
        proxy_url: a.proxy_url.clone(),
    };
    proof {
        assert(r@ =~= a@);
    }
    r
}

/// Copy a vector of source attachments, preserving the views.
pub fn clone_attachment_vec(v: &Vec<SourceAttachment>) -> (r: Vec<SourceAttachment>)
    ensures
        attachment_models(r@) == attachment_models(v@),
{
    let mut r: Vec<SourceAttachment> = Vec::new();
    let mut i: usize = 0;
    while i < v.len()
        invariant
            i <= v.len(),
            r@.len() == i,
            forall|j: int| 0 <= j < i ==> (#[trigger] r@[j])@ == v@[j]@,
        decreases v.len() - i,
    {
        r.push(clone_source_attachment(&v[i]));
        i += 1;
    }
    proof {
        assert forall|j: int| 0 <= j < v@.len() implies attachment_models(r@)[j] == attachment_models(v@)[j] by {
            assert(r@[j]@ == v@[j]@);
        }
        assert(attachment_models(r@) =~= attachment_models(v@));
    }
    r
}

/// Copy a vector of source embeds, preserving the views.
pub fn clone_embed_vec(v: &Vec<SourceEmbed>) -> (r: Vec<SourceEmbed>)
    ensures
        embed_models(r@) == embed_models(v@),
{
    let mut r: Vec<SourceEmbed> = Vec::new();
    let mut i: usize = 0;
    while i < v.len()
        invariant
            i <= v.len(),
            r@.len() == i,
            forall|j: int| 0 <= j < i ==> (#[trigger] r@[j])@ == v@[j]@,
        decreases v.len() - i,
    {
        r.push(clone_source_embed(&v[i]));
        i += 1;
    }
    proof {
        assert forall|j: int| 0 <= j < v@.len() implies embed_models(r@)[j] == embed_models(v@)[j] by {
            assert(r@[j]@ == v@[j]@);
        }
        assert(embed_models(r@) =~= embed_models(v@));
    }
    r
}

/// Copy a vector of stickers, preserving the views.
pub fn clone_sticker_vec(v: &Vec<SourceSticker>) -> (r: Vec<SourceSticker>)
    ensures
        sticker_models(r@) == sticker_models(v@),
{
    let mut r: Vec<SourceSticker> = Vec::new();
    let mut i: usize = 0;
    while i < v.len()
        invariant
            i <= v.len(),
            r@.len() == i,
            forall|j: int| 0 <= j < i ==> (#[trigger] r@[j])@ == v@[j]@,
        decreases v.len() - i,
    {
        let s = &v[i];
        let c = SourceSticker { name: s.name.clone(), url: s.url.clone(), format: s.format };
        proof {
            assert(c@ =~= s@);
        }
        r.push(c);
        i += 1;
    }
    proof {
        assert forall|j: int| 0 <= j < v@.len() implies sticker_models(r@)[j] == sticker_models(v@)[j] by {
            assert(r@[j]@ == v@[j]@);
        }
        assert(sticker_models(r@) =~= sticker_models(v@));
    }
    r
}

/// Copy a cached message, preserving the view.
pub fn clone_cached_message(m: &CachedMessage) -> (r: CachedMessage)
    ensures
        r@ == m@,
{
    let r = CachedMessage {
        id: m.id,
        author_id: m.author_id,
        referenced_message: m.referenced_message,
        attachments: clone_attachment_vec(&m.attachments),
        embeds: clone_embed_vec(&m.embeds),
        stickers: clone_sticker_vec(&m.stickers),
    };
    proof {
        assert(r@ =~= m@);
    }
    r
}

/// Copy a source embed.
fn clone_source_embed(e: &SourceEmbed) -> (r: SourceEmbed)
    ensures
        r@ == e@,
{
    let image = match &e.image {
        Some(a) => Some(clone_source_attachment(a)),
        None => None,
    };
    let r = SourceEmbed { image, has_text: e.has_text };
    proof {
        assert(r@ =~= e@);
    }
    r
}

impl ParsedMessage {
    /// Parse a cached source message into its renderable artifact. The
    /// result is exactly [`parse_result`] of the message: deterministic
    /// ordering over attachments, then embeds, then stickers.
    pub fn parse(orig: &CachedMessage) -> (r: ParsedMessage)
        ensures
            ({
                let (st, names) = parse_result(orig);
                &&& opt_string_view(r.primary_image) == st.primary
                &&& artifact_views(r.embeds@) == st.embeds
                &&& handle_views(r.upload_attachments@) == st.uploads
                &&& string_views(r.url_list@) == st.urls
                &&& (names.len() == 0 <==> r.sticker_names_str is None)
                &&& (names.len() > 0 ==> (r.sticker_names_str->0)@ == join_lines(names))
            }),
    {
        let (sticker_names_str, primary_image, url_list, embeds, upload_attachments) =
            Self::parse_attachments(orig);
        ParsedMessage { sticker_names_str, url_list, primary_image, embeds, upload_attachments }
    }

    /// The parser proper; returns `(sticker text, primary image URL, URL
    /// list, secondary embeds, attachments to re-upload)`.
    pub fn parse_attachments(orig: &CachedMessage) -> (r: (
        Option<String>,
        Option<String>,
        Vec<String>,
        Vec<EmbedArtifact>,
        Vec<AttachmentHandle>,
    ))
        ensures
            ({
                let (st, names) = parse_result(orig);
                &&& opt_string_view(r.1) == st.primary
                &&& artifact_views(r.3@) == st.embeds
                &&& handle_views(r.4@) == st.uploads
                &&& string_views(r.2@) == st.urls
                &&& (names.len() == 0 <==> r.0 is None)
                &&& (names.len() > 0 ==> (r.0->0)@ == join_lines(names))
            }),
    {
        let mut primary: Option<String> = None;
        let mut embeds: Vec<EmbedArtifact> = Vec::new();
        let mut uploads: Vec<AttachmentHandle> = Vec::new();
        let mut urls: Vec<String> = Vec::new();

        let ghost atts = attachment_models(orig.attachments@);
        proof {
            assert(cur_state(primary, embeds@, uploads@, urls@) =~= parse_init());
            assert(atts.subrange(0, atts.len() as int) =~= atts);
        }
        let mut i: usize = 0;
        while i < orig.attachments.len()
            invariant
                i <= orig.attachments.len(),
                atts == attachment_models(orig.attachments@),
                atts.len() == orig.attachments@.len(),
                run_attachments(parse_init(), atts) == run_attachments(
                    cur_state(primary, embeds@, uploads@, urls@),
                    atts.subrange(i as int, atts.len() as int),
                ),
            decreases orig.attachments.len() - i,
        {
            let ghost pre = cur_state(primary, embeds@, uploads@, urls@);
            let ghost tail = atts.subrange(i as int, atts.len() as int);
            let handle = AttachmentHandle::from_attachment(&orig.attachments[i]);
            let disp = handle.embedable_image().is_some();
            let was_primary_none = primary.is_none();
            urls.push(handle.url_list_item());
            if was_primary_none && disp {
                primary = Some(handle.url.clone());
            } else if !was_primary_none && disp {
                embeds.push(EmbedArtifact::Image { url: handle.url.clone() });
            } else {
                uploads.push(handle);
            }
            proof {
                assert(tail[0] == atts[i as int]);
                assert(atts[i as int] == orig.attachments@[i as int]@);
                assert(cur_state(primary, embeds@, uploads@, urls@) =~= attachment_step(
                    pre,
                    tail[0],
                ));
                assert(tail.subrange(1, tail.len() as int) =~= atts.subrange(
                    i + 1 as int,
                    atts.len() as int,
                ));
                assert(run_attachments(pre, tail) == run_attachments(
                    attachment_step(pre, tail[0]),
                    tail.subrange(1, tail.len() as int),
                ));
            }
            i += 1;
        }
        proof {
            assert(atts.subrange(atts.len() as int, atts.len() as int) =~= Seq::<
                HandleModel,
            >::empty());
        }

        let ghost after_atts = run_attachments(parse_init(), atts);
        let ghost embs = embed_models(orig.embeds@);
        proof {
            assert(embs.subrange(0, embs.len() as int) =~= embs);
        }
        let mut j: usize = 0;
        while j < orig.embeds.len()
            invariant
                j <= orig.embeds.len(),
                after_atts == run_attachments(parse_init(), atts),
                atts == attachment_models(orig.attachments@),
                embs == embed_models(orig.embeds@),
                embs.len() == orig.embeds@.len(),
                run_embeds(after_atts, embs) == run_embeds(
                    cur_state(primary, embeds@, uploads@, urls@),
                    embs.subrange(j as int, embs.len() as int),
                ),
            decreases orig.embeds.len() - j,
        {
            let ghost pre = cur_state(primary, embeds@, uploads@, urls@);
            let ghost tail = embs.subrange(j as int, embs.len() as int);
            let e = &orig.embeds[j];
            let image_only = !e.has_text && e.image.is_some();
            if image_only {
                let handle = match &e.image {
                    Some(a) => AttachmentHandle::from_attachment(a),
                    None => {
                        proof {
                            assert(false);
                        }
                        AttachmentHandle::from_attachment(&SourceAttachment {
                            filename: String::new(),
                            content_type: None,
                            url: String::new(),
                            proxy_url: String::new(),
                        })
                    },
                };
                let disp = handle.embedable_image().is_some();
                if disp {
                    if primary.is_none() && embeds.len() == 0 {
                        primary = Some(handle.url.clone());
                    } else {
                        embeds.push(EmbedArtifact::Image { url: handle.url.clone() });
                    }
                } else {
                    uploads.push(handle);
                }
            } else {
                embeds.push(EmbedArtifact::Existing { embed: clone_source_embed(e) });
            }
            proof {
                assert(tail[0] == embs[j as int]);
                assert(embs[j as int] == orig.embeds@[j as int]@);
                assert(cur_state(primary, embeds@, uploads@, urls@) =~= embed_step(pre, tail[0]));
                assert(tail.subrange(1, tail.len() as int) =~= embs.subrange(
                    j + 1 as int,
                    embs.len() as int,
                ));
                assert(run_embeds(pre, tail) == run_embeds(
                    embed_step(pre, tail[0]),
                    tail.subrange(1, tail.len() as int),
                ));
            }
            j += 1;
        }
        proof {
            assert(embs.subrange(embs.len() as int, embs.len() as int) =~= Seq::<
                EmbedModel,
            >::empty());
        }

        let ghost after_embs = run_embeds(after_atts, embs);
        let ghost stks = sticker_models(orig.stickers@);
        let mut names: Vec<String> = Vec::new();
        proof {
            assert(stks.subrange(0, stks.len() as int) =~= stks);
            assert(string_views(names@) =~= Seq::<Seq<char>>::empty());
        }
        let mut k: usize = 0;
        while k < orig.stickers.len()
            invariant
                k <= orig.stickers.len(),
                after_embs == run_embeds(run_attachments(parse_init(), atts), embs),
                atts == attachment_models(orig.attachments@),
                embs == embed_models(orig.embeds@),
                stks == sticker_models(orig.stickers@),
                stks.len() == orig.stickers@.len(),
                run_stickers(after_embs, Seq::empty(), stks) == run_stickers(
                    cur_state(primary, embeds@, uploads@, urls@),
                    string_views(names@),
                    stks.subrange(k as int, stks.len() as int),
                ),
            decreases orig.stickers.len() - k,
        {
            let ghost pre = cur_state(primary, embeds@, uploads@, urls@);
            let ghost pre_names = string_views(names@);
            let ghost tail = stks.subrange(k as int, stks.len() as int);
            let s = &orig.stickers[k];
            match s.format {
                StickerFormat::Lottie => {
                    let mut line = String::from_str("Sticker: **");
                    line.append(s.name.as_str());
                    line.append("**");
                    proof {
                        assert(line@ == sticker_line(s@.name));
                    }
                    names.push(line);
                    proof {
                        assert(string_views(names@) =~= pre_names.push(sticker_line(s@.name)));
                    }
                },
                StickerFormat::Png | StickerFormat::Apng => {
                    let mut filename = s.name.clone();
                    filename.append(".png");
                    let handle = AttachmentHandle {
                        filename,
                        content_type: Some(String::from_str("image/png")),
                        url: s.url.clone(),
                        proxy_url: s.url.clone(),
                    };
                    proof {
                        assert(handle@ =~= sticker_handle(s@));
                    }
                    let disp = handle.embedable_image().is_some();
                    if primary.is_none() && disp {
                        primary = Some(handle.url.clone());
                    } else if disp {
                        embeds.push(EmbedArtifact::Image { url: handle.url.clone() });
                    } else {
                        uploads.push(handle);
                    }
                },
                StickerFormat::Gif => {},
            }
            proof {
                assert(tail[0] == stks[k as int]);
                assert(stks[k as int] == orig.stickers@[k as int]@);
                let stepped = sticker_step(pre, pre_names, tail[0]);
                assert(cur_state(primary, embeds@, uploads@, urls@) =~= stepped.0);
                assert(string_views(names@) =~= stepped.1);
                assert(tail.subrange(1, tail.len() as int) =~= stks.subrange(
                    k + 1 as int,
                    stks.len() as int,
                ));
                assert(run_stickers(pre, pre_names, tail) == run_stickers(
                    stepped.0,
                    stepped.1,
                    tail.subrange(1, tail.len() as int),
                ));
            }
            k += 1;
        }
        proof {
            assert(stks.subrange(stks.len() as int, stks.len() as int) =~= Seq::<
                StickerModel,
            >::empty());
        }

        let sticker_names_str: Option<String> = if names.len() == 0 {
            None
        } else {
            let ghost lines = string_views(names@);
            let mut joined = names[0].clone();
            proof {
                assert(joined@ == join_lines(lines.subrange(0, 1)));
            }
            let mut t: usize = 1;
            while t < names.len()
                invariant
                    1 <= t <= names.len(),
                    lines == string_views(names@),
                    lines.len() == names@.len(),
                    joined@ == join_lines(lines.subrange(0, t as int)),
                decreases names.len() - t,
            {
                joined.append("\n");
                joined.append(names[t].as_str());
                proof {
                    let upto = lines.subrange(0, t + 1 as int);
                    assert(upto.drop_last() =~= lines.subrange(0, t as int));
                    assert(upto.last() == lines[t as int]);
                    assert(upto.len() >= 2);
                    assert(join_lines(upto) == join_lines(upto.drop_last()) + "\n"@ + upto.last());
                }
                t += 1;
            }
            proof {
                assert(lines.subrange(0, lines.len() as int) =~= lines);
            }
            Some(joined)
        };
        (sticker_names_str, primary, urls, embeds, uploads)
    }
}

} // verus!
