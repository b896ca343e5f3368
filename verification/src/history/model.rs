//! The history item and its payloads.
use vstd::prelude::*;

verus! {

/// Stable identity of one history entry; it never changes when the entry is
/// re-copied, pinned or unpinned.
#[derive(Clone, Copy, Debug, Eq, Hash, PartialEq)]
pub struct HistoryItemId(i64);

impl View for HistoryItemId {
    type V = i64;

    closed spec fn view(&self) -> i64 {
        self.0
    }
}

impl HistoryItemId {
    pub fn new(value: i64) -> (id: Self)
        ensures
            id@ == value,
    {
        Self(value)
    }

    pub fn value(self) -> (value: i64)
        ensures
            value == self@,
    {
        self.0
    }
}

/// The image formats LionClip captures and restores.
#[derive(Clone, Copy, Debug, Eq, PartialEq, Structural)]
pub enum ImageMime {
    Png,
    Jpeg,
}

pub open spec fn mime_name(mime: ImageMime) -> Seq<char> {
    match mime {
        ImageMime::Png => "image/png"@,
        ImageMime::Jpeg => "image/jpeg"@,
    }
}

pub open spec fn mime_extension(mime: ImageMime) -> Seq<char> {
    match mime {
        ImageMime::Png => "png"@,
        ImageMime::Jpeg => "jpg"@,
    }
}

pub open spec fn mime_label(mime: ImageMime) -> Seq<char> {
    match mime {
        ImageMime::Png => "PNG"@,
        ImageMime::Jpeg => "JPEG"@,
    }
}

/// The MIME types the clipboard is asked for, in order of preference.
pub fn supported_mime_types() -> (names: Vec<&'static str>)
    ensures
        names@.len() == 2,
        names@[0]@ == mime_name(ImageMime::Png),
        names@[1]@ == mime_name(ImageMime::Jpeg),
{
    let mut names: Vec<&'static str> = Vec::new();
    names.push("image/png");
    names.push("image/jpeg");
    names
}

impl ImageMime {
    pub fn as_str(self) -> (name: &'static str)
        ensures
            name@ == mime_name(self),
    {
        match self {
            Self::Png => "image/png",
            Self::Jpeg => "image/jpeg",
        }
    }

    pub fn extension(self) -> (extension: &'static str)
        ensures
            extension@ == mime_extension(self),
    {
        match self {
            Self::Png => "png",
            Self::Jpeg => "jpg",
        }
    }

    pub fn label(self) -> (label: &'static str)
        ensures
            label@ == mime_label(self),
    {
        match self {
            Self::Png => "PNG",
            Self::Jpeg => "JPEG",
        }
    }

    /// The format named by a MIME type string, if it is one LionClip supports.
    pub fn parse(value: &str) -> (mime: Option<Self>)
        ensures
            mime == (if value@ == mime_name(ImageMime::Png) {
                Some(ImageMime::Png)
            } else if value@ == mime_name(ImageMime::Jpeg) {
                Some(ImageMime::Jpeg)
            } else {
                None
            }),
    {
        let chars = crate::text::chars_of(value);
        let png = crate::text::chars_of("image/png");
        let jpeg = crate::text::chars_of("image/jpeg");
        if crate::text::same_chars(&chars, &png) {
            Some(Self::Png)
        } else if crate::text::same_chars(&chars, &jpeg) {
            Some(Self::Jpeg)
        } else {
            None
        }
    }
}

/// What the history knows about a stored image: its content hash, format,
/// encoded size and pixel dimensions.
#[derive(Clone, Debug, Eq, PartialEq)]
pub struct ImageData {
    content_hash: String,
    mime_type: ImageMime,
    byte_length: u64,
    width: u32,
    height: u32,
}

/// The mathematical value of an [`ImageData`].
pub struct ImageView {
    pub content_hash: Seq<char>,
    pub mime_type: ImageMime,
    pub byte_length: u64,
    pub width: u32,
    pub height: u32,
}

impl View for ImageData {
    type V = ImageView;

    closed spec fn view(&self) -> ImageView {
        ImageView {
            content_hash: self.content_hash@,
            mime_type: self.mime_type,
            byte_length: self.byte_length,
            width: self.width,
            height: self.height,
        }
    }
}

impl ImageData {
    pub fn new(
        content_hash: String,
        mime_type: ImageMime,
        byte_length: u64,
        width: u32,
        height: u32,
    ) -> (image: Self)
        ensures
            image@ == (ImageView {
                content_hash: content_hash@,
                mime_type,
                byte_length,
                width,
                height,
            }),
    {
        Self { content_hash, mime_type, byte_length, width, height }
    }

    pub fn content_hash(&self) -> (hash: &str)
        ensures
            hash@ == self@.content_hash,
    {
        self.content_hash.as_str()
    }

    /// The content hash as the owned string it is stored in.
    pub(crate) fn content_hash_string(&self) -> (hash: &String)
        ensures
            hash@ == self@.content_hash,
    {
        &self.content_hash
    }

    pub fn mime_type(&self) -> (mime: ImageMime)
        ensures
            mime == self@.mime_type,
    {
        self.mime_type
    }

    pub fn byte_length(&self) -> (length: u64)
        ensures
            length == self@.byte_length,
    {
        self.byte_length
    }

    pub fn width(&self) -> (width: u32)
        ensures
            width == self@.width,
    {
        self.width
    }

    pub fn height(&self) -> (height: u32)
        ensures
            height == self@.height,
    {
        self.height
    }

    /// A copy with the same value.
    pub fn duplicate(&self) -> (copy: Self)
        ensures
            copy@ == self@,
    {
        Self {
            content_hash: self.content_hash.clone(),
            mime_type: self.mime_type,
            byte_length: self.byte_length,
            width: self.width,
            height: self.height,
        }
    }
}

/// The content of a history entry.
#[derive(Clone, Debug, Eq, PartialEq)]
pub enum HistoryPayload {
    Text(String),
    Image(ImageData),
}

/// The mathematical value of a [`HistoryPayload`].
pub enum PayloadView {
    Text(Seq<char>),
    Image(ImageView),
}

impl View for HistoryPayload {
    type V = PayloadView;

    open spec fn view(&self) -> PayloadView {
        match self {
            HistoryPayload::Text(text) => PayloadView::Text(text@),
            HistoryPayload::Image(image) => PayloadView::Image(image@),
        }
    }
}

impl HistoryPayload {
    pub fn duplicate(&self) -> (copy: Self)
        ensures
            copy@ == self@,
    {
        match self {
            HistoryPayload::Text(text) => HistoryPayload::Text(text.clone()),
            HistoryPayload::Image(image) => HistoryPayload::Image(image.duplicate()),
        }
    }
}

/// One entry of the clipboard history.
#[derive(Clone, Debug, Eq, PartialEq)]
pub struct HistoryItem {
    id: HistoryItemId,
    payload: HistoryPayload,
    created_sequence: i64,
    last_used_sequence: i64,
    pinned: bool,
}

/// The name the text-history code has always used for a history entry.
pub type TextHistoryItem = HistoryItem;

/// The mathematical value of a [`HistoryItem`].
pub struct ItemView {
    pub id: i64,
    pub payload: PayloadView,
    pub created_sequence: i64,
    pub last_used_sequence: i64,
    pub pinned: bool,
}

/// Whether the item is a text entry with exactly this text. An image entry
/// holds no text at all, not even the empty one.
pub open spec fn holds_text(item: ItemView, text: Seq<char>) -> bool {
    item.payload matches PayloadView::Text(own) && own == text
}

/// The text an item shows to text-only code: its text, or nothing for an image.
pub open spec fn item_text(item: ItemView) -> Seq<char> {
    match item.payload {
        PayloadView::Text(text) => text,
        PayloadView::Image(_) => Seq::empty(),
    }
}

impl View for HistoryItem {
    type V = ItemView;

    closed spec fn view(&self) -> ItemView {
        ItemView {
            id: self.id@,
            payload: self.payload@,
            created_sequence: self.created_sequence,
            last_used_sequence: self.last_used_sequence,
            pinned: self.pinned,
        }
    }
}

impl HistoryItem {
    /// A text entry.
    pub fn new(
        id: HistoryItemId,
        text: String,
        created_sequence: i64,
        last_used_sequence: i64,
        pinned: bool,
    ) -> (item: Self)
        ensures
            item@ == (ItemView {
                id: id@,
                payload: PayloadView::Text(text@),
                created_sequence,
                last_used_sequence,
                pinned,
            }),
    {
        Self::new_text(id, text, created_sequence, last_used_sequence, pinned)
    }

    pub fn new_text(
        id: HistoryItemId,
        text: String,
        created_sequence: i64,
        last_used_sequence: i64,
        pinned: bool,
    ) -> (item: Self)
        ensures
            item@ == (ItemView {
                id: id@,
                payload: PayloadView::Text(text@),
                created_sequence,
                last_used_sequence,
                pinned,
            }),
    {
        Self {
            id,
            payload: HistoryPayload::Text(text),
            created_sequence,
            last_used_sequence,
            pinned,
        }
    }

    pub fn new_image(
        id: HistoryItemId,
        image: ImageData,
        created_sequence: i64,
        last_used_sequence: i64,
        pinned: bool,
    ) -> (item: Self)
        ensures
            item@ == (ItemView {
                id: id@,
                payload: PayloadView::Image(image@),
                created_sequence,
                last_used_sequence,
                pinned,
            }),
    {
        Self {
            id,
            payload: HistoryPayload::Image(image),
            created_sequence,
            last_used_sequence,
            pinned,
        }
    }

    /// An entry with any payload.
    pub(crate) fn with_payload(
        id: HistoryItemId,
        payload: HistoryPayload,
        created_sequence: i64,
        last_used_sequence: i64,
        pinned: bool,
    ) -> (item: Self)
        ensures
            item@ == (ItemView {
                id: id@,
                payload: payload@,
                created_sequence,
                last_used_sequence,
                pinned,
            }),
    {
        Self { id, payload, created_sequence, last_used_sequence, pinned }
    }

    pub fn id(&self) -> (id: HistoryItemId)
        ensures
            id@ == self@.id,
    {
        self.id
    }

    pub fn payload(&self) -> (payload: &HistoryPayload)
        ensures
            payload@ == self@.payload,
    {
        &self.payload
    }

    pub fn as_text(&self) -> (text: Option<&str>)
        ensures
            match self@.payload {
                PayloadView::Text(t) => text is Some && text->0@ == t,
                PayloadView::Image(_) => text is None,
            },
    {
        match &self.payload {
            HistoryPayload::Text(text) => Some(text.as_str()),
            HistoryPayload::Image(_) => None,
        }
    }

    pub fn image(&self) -> (image: Option<&ImageData>)
        ensures
            match self@.payload {
                PayloadView::Text(_) => image is None,
                PayloadView::Image(i) => image is Some && image->0@ == i,
            },
    {
        match &self.payload {
            HistoryPayload::Text(_) => None,
            HistoryPayload::Image(image) => Some(image),
        }
    }

    /// The text of a text entry, or the empty string for an image.
    pub fn text(&self) -> (text: &str)
        ensures
            text@ == item_text(self@),
    {
        match &self.payload {
            HistoryPayload::Text(text) => text.as_str(),
            HistoryPayload::Image(_) => {
                proof {
                    reveal_strlit("");
                }
                ""
            },
        }
    }

    pub fn is_pinned(&self) -> (pinned: bool)
        ensures
            pinned == self@.pinned,
    {
        self.pinned
    }

    pub fn created_sequence(&self) -> (sequence: i64)
        ensures
            sequence == self@.created_sequence,
    {
        self.created_sequence
    }

    pub fn last_used_sequence(&self) -> (sequence: i64)
        ensures
            sequence == self@.last_used_sequence,
    {
        self.last_used_sequence
    }

    pub(crate) fn set_last_used_sequence(&mut self, sequence: i64)
        ensures
            final(self)@ == (ItemView { last_used_sequence: sequence, ..old(self)@ }),
    {
        self.last_used_sequence = sequence;
    }

    pub(crate) fn set_pinned(&mut self, pinned: bool)
        ensures
            final(self)@ == (ItemView { pinned, ..old(self)@ }),
    {
        self.pinned = pinned;
    }

    /// Whether the item is a text entry with exactly `text`; an image
    /// entry never is.
    pub fn has_text(&self, text: &String) -> (r: bool)
        ensures
            r == holds_text(self@, text@),
    {
        match &self.payload {
            HistoryPayload::Text(own) => *own == *text,
            HistoryPayload::Image(_) => false,
        }
    }

    /// Whether the item is an image with this content hash.
    pub fn has_image_hash(&self, hash: &String) -> (r: bool)
        ensures
            r == (match self@.payload {
                PayloadView::Image(image) => image.content_hash == hash@,
                PayloadView::Text(_) => false,
            }),
    {
        match &self.payload {
            HistoryPayload::Text(_) => false,
            HistoryPayload::Image(image) => image.content_hash == *hash,
        }
    }

    /// A copy with the same value.
    pub fn duplicate(&self) -> (copy: Self)
        ensures
            copy@ == self@,
    {
        Self {
            id: self.id,
            payload: self.payload.duplicate(),
            created_sequence: self.created_sequence,
            last_used_sequence: self.last_used_sequence,
            pinned: self.pinned,
        }
    }
}

} // verus!
