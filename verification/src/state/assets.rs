//! Images and files that turns produce.

use crate::digest::{blake3_hex, blake3_hex_of};
use crate::json::{decode_field, parsed_field};
use crate::state::db::{outcome, ConversationDb, DbModel};
use crate::state::error::{StateError, StateErrorKind, StateErrorModel};
use crate::state::types::{
    ArtifactAsset, ArtifactAssetModel, ImageAsset, ImageAssetData, ImageAssetDataModel,
    ImageAssetModel, TurnJournalEvent, TurnJournalEventModel,
};
use crate::table::{append, Row};
use crate::text::{
    at_most, control, hex, hex_text, is_blank, is_control, keep_chars, same, take_chars,
    trim, trimmed,
};
use crate::words::{is_char, pieces, split_at_char};
use vstd::prelude::*;

verus! {

/// How large a stored image or file may be.
pub const MAX_ASSET_BYTES: usize = 20971520;

/// How wide and how high a stored image may be.
pub const MAX_IMAGE_SIDE: u32 = 40000;

/// How many pixels a stored image may have.
pub const MAX_IMAGE_PIXELS: u64 = 40000000;

/// The media type, width and height that the `image` crate finds in some bytes,
/// if it knows their format and can read the dimensions.
pub uninterp spec fn image_facts(bytes: Seq<u8>) -> Option<(Seq<char>, u32, u32)>;

/// `image::ImageReader` on bytes in memory: the guessed format's media type,
/// and the dimensions. Formats can be added to the crate while a program runs;
/// nothing here adds one, so that the bytes alone decide.
#[verifier::external_body]
pub(crate) fn read_image_facts(bytes: &Vec<u8>) -> (facts: Option<(String, u32, u32)>)
    ensures
        facts.deep_view() == image_facts(bytes@),
{
    let cursor = std::io::Cursor::new(bytes);
    let reader = image::ImageReader::new(cursor).with_guessed_format().ok()?;
    let mime = reader.format()?.to_mime_type().to_owned();
    let (width, height) = reader.into_dimensions().ok()?;
    Some((mime, width, height))
}

pub open spec fn not_control() -> spec_fn(char) -> bool {
    |c: char| !control(c)
}

pub open spec fn fit_for_file_name() -> spec_fn(char) -> bool {
    |c: char| !control(c) && c != '/' && c != '\\'
}

/// `asked`, or `fallback` where that is blank.
pub open spec fn asked_or(asked: Seq<char>, fallback: Seq<char>) -> Seq<char> {
    if trimmed(asked).len() == 0 {
        fallback
    } else {
        trimmed(asked)
    }
}

/// The description that is kept of an image.
pub open spec fn alt_text(alt: Seq<char>, file_name: Seq<char>) -> Seq<char> {
    at_most(asked_or(alt, file_name).filter(not_control()), 500)
}

/// The name that is kept of a produced file.
pub open spec fn artifact_name(title: Seq<char>, file_name: Seq<char>) -> Seq<char> {
    let name = at_most(asked_or(title, file_name).filter(fit_for_file_name()), 180);
    if trimmed(name).len() == 0 {
        "artifact"@
    } else {
        name
    }
}

/// Whether an image of these dimensions may be stored.
pub open spec fn fit_to_store(width: u32, height: u32) -> bool {
    &&& 0 < width <= MAX_IMAGE_SIDE
    &&& 0 < height <= MAX_IMAGE_SIDE
    &&& width * height <= MAX_IMAGE_PIXELS
}

/// The id of an image: when it was stored, and a random number.
pub open spec fn image_asset_id(nanos: u128, salt: u64) -> Seq<char> {
    "img_"@ + hex(nanos as nat, 32) + "_"@ + hex(salt as nat, 16)
}

/// The id of a produced file: the same source in the same scope has the same.
pub open spec fn artifact_asset_id(scope: Seq<char>, source_key: Seq<char>) -> Seq<char> {
    "art_"@ + blake3_hex(vstd::utf8::encode_utf8(scope + "\0"@ + source_key)).take(32)
}

/// What is stored of an image, or why it is not.
pub open spec fn new_image(
    turn_id: Seq<char>,
    tool_id: Option<Seq<char>>,
    file_name: Seq<char>,
    size: nat,
    facts: Option<(Seq<char>, u32, u32)>,
    alt: Seq<char>,
    nanos: u128,
    salt: u64,
    now: Seq<char>,
) -> Result<ImageAssetModel, StateErrorModel> {
    if size > MAX_ASSET_BYTES {
        Err(StateErrorModel::plain(StateErrorKind::ImageTooLarge))
    } else {
        match facts {
            None => Err(StateErrorModel::plain(StateErrorKind::ImageUnreadable)),
            Some((mime, width, height)) => if !fit_to_store(width, height) {
                Err(StateErrorModel::plain(StateErrorKind::ImageDimensions))
            } else {
                Ok(
                    ImageAssetModel {
                        asset_id: image_asset_id(nanos, salt),
                        turn_id,
                        tool_id,
                        mime,
                        width,
                        height,
                        alt: alt_text(alt, file_name),
                        created_at: now,
                    },
                )
            },
        }
    }
}

/// What is stored of a produced file, or why it is not. A file in the
/// session's own directory is known by the session, any other by its turn.
pub open spec fn new_artifact(
    session_id: Seq<char>,
    turn_id: Seq<char>,
    tool_id: Option<Seq<char>>,
    source_key: Seq<char>,
    file_name: Seq<char>,
    managed: bool,
    media: (Seq<char>, Seq<char>),
    size: nat,
    title: Seq<char>,
    now: Seq<char>,
) -> Result<ArtifactAssetModel, StateErrorModel> {
    if size == 0 || size > MAX_ASSET_BYTES {
        Err(StateErrorModel::plain(StateErrorKind::ArtifactSize))
    } else {
        Ok(
            ArtifactAssetModel {
                asset_id: artifact_asset_id(
                    if managed {
                        session_id
                    } else {
                        turn_id
                    },
                    source_key,
                ),
                turn_id,
                tool_id,
                source_key,
                file_name: artifact_name(title, file_name),
                mime: media.0,
                kind: media.1,
                size_bytes: size as u64,
                created_at: now,
                updated_at: now,
            },
        )
    }
}

/// Whether a name is one ordinary component of a path, and nothing more: a
/// name other than `.` and `..`, after which only empty components and `.` may
/// follow.
pub open spec fn one_component(name: Seq<char>) -> bool {
    let parts = pieces(name, is_char('/'));
    &&& parts[0].len() > 0
    &&& parts[0] != "."@
    &&& parts[0] != ".."@
    &&& forall|i: int|
        1 <= i < parts.len() ==> (#[trigger] parts[i]).len() == 0 || parts[i] == "."@
}

/// Whether a name is one ordinary component of a path, and nothing more.
pub fn is_one_component(name: &str) -> (yes: bool)
    ensures
        yes == one_component(name@),
{
    let parts = split_at_char(name, '/');
    assert(parts.deep_view()[0] == parts[0]@);
    if parts[0].as_str().is_empty() || same(parts[0].as_str(), ".") || same(
        parts[0].as_str(),
        "..",
    ) {
        return false;
    }
    let mut i: usize = 1;
    while i < parts.len()
        invariant
            1 <= i <= parts.len(),
            parts.deep_view() == pieces(name@, is_char('/')),
            forall|j: int|
                1 <= j < i ==> (#[trigger] parts.deep_view()[j]).len() == 0
                    || parts.deep_view()[j] == "."@,
        decreases parts.len() - i,
    {
        assert(parts.deep_view()[i as int] == parts[i as int]@);
        if !parts[i].as_str().is_empty() && !same(parts[i].as_str(), ".") {
            return false;
        }
        i += 1;
    }
    true
}

fn pick_name(asked: &str, fallback: &str) -> (name: String)
    ensures
        name@ == asked_or(asked@, fallback@),
{
    let asked = trim(asked);
    if asked.as_str().is_empty() {
        fallback.to_owned()
    } else {
        asked
    }
}

/// The description that is kept of an image.
pub fn image_alt(alt: &str, file_name: &str) -> (out: String)
    ensures
        out@ == alt_text(alt@, file_name@),
{
    let name = pick_name(alt, file_name);
    let keep = |c: char| -> (b: bool)
        ensures
            b == not_control()(c),
        { !is_control(c) };
    let clean = keep_chars(name.as_str(), &keep, Ghost(not_control()));
    take_chars(clean.as_str(), 500)
}

/// The name that is kept of a produced file.
pub fn artifact_file_name(title: &str, file_name: &str) -> (out: String)
    ensures
        out@ == artifact_name(title@, file_name@),
{
    let name = pick_name(title, file_name);
    let keep = |c: char| -> (b: bool)
        ensures
            b == fit_for_file_name()(c),
        { !is_control(c) && c != '/' && c != '\\' };
    let clean = keep_chars(name.as_str(), &keep, Ghost(fit_for_file_name()));
    let out = take_chars(clean.as_str(), 180);
    if is_blank(out.as_str()) {
        "artifact".to_owned()
    } else {
        out
    }
}

fn owned(text: Option<&str>) -> (out: Option<String>)
    ensures
        out.deep_view() == text.deep_view(),
{
    match text {
        Some(text) => Some(text.to_owned()),
        None => None,
    }
}

/// What is stored of an image whose facts are known.
pub fn describe_image(
    turn_id: &str,
    tool_id: Option<&str>,
    file_name: &str,
    size: usize,
    facts: Option<(String, u32, u32)>,
    alt: &str,
    nanos: u128,
    salt: u64,
    now: &str,
) -> (result: Result<ImageAsset, StateError>)
    ensures
        match new_image(
            turn_id@,
            tool_id.deep_view(),
            file_name@,
            size as nat,
            facts.deep_view(),
            alt@,
            nanos,
            salt,
            now@,
        ) {
            Ok(asset) => result matches Ok(got) && got.deep_view() == asset,
            Err(error) => result matches Err(got) && got@ == error,
        },
{
    if size > MAX_ASSET_BYTES {
        return Err(StateError::plain(StateErrorKind::ImageTooLarge));
    }
    let (mime, width, height): (String, u32, u32) = match facts {
        Some(facts) => facts,
        None => return Err(StateError::plain(StateErrorKind::ImageUnreadable)),
    };
    if width == 0 || height == 0 || width > MAX_IMAGE_SIDE || height > MAX_IMAGE_SIDE {
        return Err(StateError::plain(StateErrorKind::ImageDimensions));
    }
    assert(width * height <= 40000 * 40000) by (nonlinear_arith)
        requires
            width <= 40000,
            height <= 40000,
    ;
    if width as u64 * height as u64 > MAX_IMAGE_PIXELS {
        return Err(StateError::plain(StateErrorKind::ImageDimensions));
    }
    Ok(
        ImageAsset {
            asset_id: "img_".to_owned().concat(hex_text(nanos, 32).as_str()).concat(
                "_",
            ).concat(hex_text(salt as u128, 16).as_str()),
            turn_id: turn_id.to_owned(),
            tool_id: owned(tool_id),
            mime,
            width,
            height,
            alt: image_alt(alt, file_name),
            created_at: now.to_owned(),
        },
    )
}

/// What is stored of a produced file.
pub fn describe_artifact(
    session_id: &str,
    turn_id: &str,
    tool_id: Option<&str>,
    source_key: &str,
    file_name: &str,
    managed: bool,
    mime: &str,
    kind: &str,
    size: usize,
    title: &str,
    now: &str,
) -> (result: Result<ArtifactAsset, StateError>)
    ensures
        match new_artifact(
            session_id@,
            turn_id@,
            tool_id.deep_view(),
            source_key@,
            file_name@,
            managed,
            (mime@, kind@),
            size as nat,
            title@,
            now@,
        ) {
            Ok(asset) => result matches Ok(got) && got.deep_view() == asset,
            Err(error) => result matches Err(got) && got@ == error,
        },
{
    if size == 0 || size > MAX_ASSET_BYTES {
        return Err(StateError::plain(StateErrorKind::ArtifactSize));
    }
    let scope = if managed {
        session_id
    } else {
        turn_id
    };
    let identity = scope.to_owned().concat("\0").concat(source_key);
    let digest = blake3_hex_of(identity.as_str().as_bytes());
    let short = digest.as_str().substring_char(0, 32);
    assert(short@ =~= digest@.take(32));
    Ok(
        ArtifactAsset {
            asset_id: "art_".to_owned().concat(short),
            turn_id: turn_id.to_owned(),
            tool_id: owned(tool_id),
            source_key: source_key.to_owned(),
            file_name: artifact_file_name(title, file_name),
            mime: mime.to_owned(),
            kind: kind.to_owned(),
            size_bytes: size as u64,
            created_at: now.to_owned(),
            updated_at: now.to_owned(),
        },
    )
}

impl DbModel {
    pub open spec fn save_image_asset(
        self,
        turn_id: Seq<char>,
        tool_id: Option<Seq<char>>,
        file_name: Seq<char>,
        bytes: Seq<u8>,
        alt: Seq<char>,
        nanos: u128,
        salt: u64,
        now: Seq<char>,
    ) -> Result<(DbModel, ImageAssetModel), StateErrorModel> {
        match new_image(
            turn_id,
            tool_id,
            file_name,
            bytes.len(),
            image_facts(bytes),
            alt,
            nanos,
            salt,
            now,
        ) {
            Err(error) => Err(error),
            Ok(asset) => Ok(
                (
                    DbModel {
                        images: self.images.push(ImageAssetDataModel { asset, bytes }),
                        ..self
                    },
                    asset,
                ),
            ),
        }
    }
}

impl ConversationDb {
    /// Stores an image that a turn produced.
    pub fn save_image_asset(
        &mut self,
        turn_id: &str,
        tool_id: Option<&str>,
        file_name: &str,
        bytes: &Vec<u8>,
        alt: &str,
        nanos: u128,
        salt: u64,
        now: &str,
    ) -> (result: Result<ImageAsset, StateError>)
        ensures
            outcome(
                result,
                old(self)@,
                final(self)@,
                old(self)@.save_image_asset(
                    turn_id@,
                    tool_id.deep_view(),
                    file_name@,
                    bytes@,
                    alt@,
                    nanos,
                    salt,
                    now@,
                ),
            ),
    {
        let facts = read_image_facts(bytes);
        match describe_image(
            turn_id,
            tool_id,
            file_name,
            bytes.len(),
            facts,
            alt,
            nanos,
            salt,
            now,
        ) {
            Ok(asset) => {
                let row = ImageAssetData { asset: asset.dup(), bytes: bytes.dup() };
                assert(bytes.deep_view() =~= bytes@);
                append(&mut self.images, row);
                Ok(asset)
            },
            Err(error) => Err(error),
        }
    }
}

/// A file that an event of the journal speaks of: its path, and its description
/// or title.
pub enum JournalAsset {
    Image { path: String, alt: String },
    Artifact { path: String, title: String },
}

/// The model of [`JournalAsset`].
#[verifier::ext_equal]
pub enum JournalAssetModel {
    Image { path: Seq<char>, alt: Seq<char> },
    Artifact { path: Seq<char>, title: Seq<char> },
}

impl DeepView for JournalAsset {
    type V = JournalAssetModel;

    open spec fn deep_view(&self) -> JournalAssetModel {
        match self {
            JournalAsset::Image { path, alt } => JournalAssetModel::Image {
                path: path@,
                alt: alt@,
            },
            JournalAsset::Artifact { path, title } => JournalAssetModel::Artifact {
                path: path@,
                title: title@,
            },
        }
    }
}

/// The text under a key of a payload, or nothing.
pub open spec fn payload_field(payload: Seq<char>, key: Seq<char>) -> Seq<char> {
    match parsed_field(payload, key) {
        Some(Some(text)) => text,
        _ => Seq::empty(),
    }
}

/// The file that an event speaks of.
pub open spec fn asset_of_event(event: TurnJournalEventModel) -> Option<JournalAssetModel> {
    match event.text_payload {
        None => None,
        Some(payload) => match parsed_field(payload, "path"@) {
            Some(Some(path)) => if event.kind == "image"@ {
                Some(JournalAssetModel::Image { path, alt: payload_field(payload, "alt"@) })
            } else if event.kind == "artifact"@ {
                Some(JournalAssetModel::Artifact { path, title: payload_field(payload, "title"@) })
            } else {
                None
            },
            _ => None,
        },
    }
}

fn read_payload(payload: &str, key: &str) -> (text: String)
    ensures
        text@ == payload_field(payload@, key@),
{
    match decode_field(payload, key) {
        Some(Some(text)) => text,
        _ => String::new(),
    }
}

/// The file that an event of an interrupted generation speaks of.
pub fn journal_asset(event: &TurnJournalEvent) -> (asset: Option<JournalAsset>)
    ensures
        asset.deep_view() == asset_of_event(event.deep_view()),
{
    let payload = match &event.text_payload {
        Some(payload) => payload.as_str(),
        None => return None,
    };
    let path = match decode_field(payload, "path") {
        Some(Some(path)) => path,
        _ => return None,
    };
    if same(event.kind.as_str(), "image") {
        Some(JournalAsset::Image { path, alt: read_payload(payload, "alt") })
    } else if same(event.kind.as_str(), "artifact") {
        Some(JournalAsset::Artifact { path, title: read_payload(payload, "title") })
    } else {
        None
    }
}

/// Whether an image of a tool call with a description is among those stored.
pub fn image_is_stored(images: &Vec<ImageAsset>, call_id: Option<&str>, alt: &str) -> (stored: bool)
    ensures
        stored == exists|i: int|
            0 <= i < images.deep_view().len() && (#[trigger] images.deep_view()[i]).tool_id
                == call_id.deep_view() && images.deep_view()[i].alt == alt@,
{
    let mut i: usize = 0;
    while i < images.len()
        invariant
            i <= images.len(),
            forall|j: int|
                0 <= j < i ==> !((#[trigger] images.deep_view()[j]).tool_id == call_id.deep_view()
                    && images.deep_view()[j].alt == alt@),
        decreases images.len() - i,
    {
        assert(images.deep_view()[i as int] == images[i as int].deep_view());
        let same_tool = match (&images[i].tool_id, call_id) {
            (Some(a), Some(b)) => same(a.as_str(), b),
            (None, None) => true,
            _ => false,
        };
        if same_tool && same(images[i].alt.as_str(), alt) {
            return true;
        }
        i += 1;
    }
    false
}

/// Whether a produced file is among those stored.
pub fn artifact_is_stored(artifacts: &Vec<ArtifactAsset>, source_key: &str) -> (stored: bool)
    ensures
        stored == exists|i: int|
            0 <= i < artifacts.deep_view().len() && (#[trigger] artifacts.deep_view()[i]).source_key
                == source_key@,
{
    let mut i: usize = 0;
    while i < artifacts.len()
        invariant
            i <= artifacts.len(),
            forall|j: int|
                0 <= j < i ==> (#[trigger] artifacts.deep_view()[j]).source_key != source_key@,
        decreases artifacts.len() - i,
    {
        assert(artifacts.deep_view()[i as int] == artifacts[i as int].deep_view());
        if same(artifacts[i].source_key.as_str(), source_key) {
            return true;
        }
        i += 1;
    }
    false
}

} // verus!
