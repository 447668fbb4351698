//! Import and export settings and reports.

use vstd::prelude::*;
use vstd::utf8::encode_utf8;
use crate::crypto::json::{base64url_encode, base64url_text};
use crate::crypto::ucan::decimal_text;
use crate::query::lexer::decimal_chars;
use crate::error::LatticeError;
use crate::model::object::{
    has_tag_pair, same_but_tags, tag_pairs, MetadataPartition, Object, ObjectID, ObjectType, Version, VersionID,
};
use crate::model::state::State;
use crate::model::tag::{lemma_first_index_unique, ActorID, Tag};
use crate::storage::chunks::ChunkManifest;
use crate::text::{
    absent_before, is_first_index, join_strings, joined, starts_with, str_eq, string_of, string_views, to_lowercase,
    unicode_lowercase,
};

verus! {

/// How files are imported.
#[derive(Debug, Clone)]
pub struct ImportOptions {
    pub tags: Vec<String>,
    pub extract_exif: bool,
    pub extract_id3: bool,
    pub extract_text: bool,
    pub actor: ActorID,
    pub base_path: Option<String>,
}

impl Default for ImportOptions {
    fn default() -> (r: ImportOptions)
        ensures
            r.tags@.len() == 0,
            r.extract_exif && r.extract_id3 && r.extract_text,
            forall|i: int| 0 <= i < 32 ==> r.actor@[i] == 0,
            r.base_path is None,
    {
        ImportOptions {
            tags: Vec::new(),
            extract_exif: true,
            extract_id3: true,
            extract_text: true,
            actor: [0u8; 32],
            base_path: None,
        }
    }
}

/// What an import did.
#[derive(Debug, Clone, Default)]
pub struct ImportReport {
    pub files: usize,
    pub objects: usize,
    pub bytes: u64,
    pub errors: Vec<String>,
}

/// How an object is exported.
#[derive(Debug, Clone, Copy, PartialEq, Eq, Structural)]
pub enum ExportMode {
    /// As files in a directory tree.
    Tree,
    /// As an archive.
    Archive,
}

impl ExportMode {
    /// Parse an export mode, ignoring case; the error names the input.
    pub fn from_name(s: &str) -> (r: Result<ExportMode, String>)
        ensures
            unicode_lowercase(s@) == "tree"@ ==> r == Ok::<ExportMode, String>(ExportMode::Tree),
            unicode_lowercase(s@) == "archive"@ ==> r == Ok::<ExportMode, String>(ExportMode::Archive),
            unicode_lowercase(s@) != "tree"@ && unicode_lowercase(s@) != "archive"@ ==> (r matches Err(e)
                && e@ == "Unknown export mode: "@ + s@),
    {
        let lower = to_lowercase(s);
        proof {
            reveal_strlit("tree");
            reveal_strlit("archive");
            assert("tree"@.len() != "archive"@.len());
        }
        if str_eq(lower.as_str(), "tree") {
            Ok(ExportMode::Tree)
        } else if str_eq(lower.as_str(), "archive") {
            Ok(ExportMode::Archive)
        } else {
            let mut m = string_of("Unknown export mode: ");
            m.append(s);
            Err(m)
        }
    }
}

impl std::str::FromStr for ExportMode {
    type Err = String;

    fn from_str(s: &str) -> Result<ExportMode, String> {
        ExportMode::from_name(s)
    }
}

/// What metadata an import extracts.
#[derive(Debug, Clone, Copy, PartialEq, Eq, Structural)]
pub struct MetadataOptions {
    pub extract_exif: bool,
    pub extract_id3: bool,
    pub extract_text: bool,
}

impl MetadataOptions {
    /// The extraction switches of the import options.
    pub fn from_import(options: &ImportOptions) -> (r: MetadataOptions)
        ensures
            r.extract_exif == options.extract_exif,
            r.extract_id3 == options.extract_id3,
            r.extract_text == options.extract_text,
    {
        MetadataOptions {
            extract_exif: options.extract_exif,
            extract_id3: options.extract_id3,
            extract_text: options.extract_text,
        }
    }
}

/// Metadata taken from a file: tags and, perhaps, its text.
#[derive(Debug, Clone)]
pub struct ExtractedMetadata {
    pub tags: Vec<Tag>,
    pub text: Option<String>,
}

/// A file found by a scan, and its size.
#[derive(Debug, Clone)]
pub struct FileEntry {
    pub path: String,
    pub size: u64,
}

/// The key and value a `key:value` text gives, split at its first `:`;
/// `None` for a text without `:`.
pub open spec fn text_tag_pair(s: Seq<char>) -> Option<(Seq<char>, Seq<char>)> {
    if exists|i: int| is_first_index(s, ':', i) {
        let i = choose|i: int| is_first_index(s, ':', i);
        Some((s.take(i), s.skip(i + 1)))
    } else {
        None
    }
}

/// Every text is a `key:value` tag.
pub open spec fn all_tag_texts(texts: Seq<Seq<char>>) -> bool {
    forall|i: int| 0 <= i < texts.len() ==> (#[trigger] text_tag_pair(texts[i])) is Some
}

/// The tag a non-empty value gives under a key, its text base64url
/// encoded (URL-safe alphabet, no padding); none for an empty value.
pub open spec fn encoded_pairs(key: Seq<char>, value: Seq<char>) -> Seq<(Seq<char>, Seq<char>)> {
    if value.len() == 0 {
        seq![]
    } else {
        seq![(key, base64url_text(encode_utf8(value)))]
    }
}

/// Tags added in order, each one skipped when the same key and value is
/// already there.
pub open spec fn deduped(ps: Seq<(Seq<char>, Seq<char>)>) -> Seq<(Seq<char>, Seq<char>)>
    decreases ps.len(),
{
    if ps.len() == 0 {
        seq![]
    } else {
        let d = deduped(ps.drop_last());
        if d.contains(ps.last()) {
            d
        } else {
            d.push(ps.last())
        }
    }
}

/// The tags an imported file gets, in the order they are added: its file
/// name, its path relative to the import root (components joined by `/`),
/// the user's tags, then the extracted ones.
pub open spec fn import_tag_pairs(
    file_name: Option<Seq<char>>,
    rel: Seq<Seq<char>>,
    user: Seq<Seq<char>>,
    extracted: Seq<Tag>,
) -> Seq<(Seq<char>, Seq<char>)> {
    (match file_name {
        Some(n) => encoded_pairs("auto:filename_b64"@, n),
        None => seq![],
    }) + encoded_pairs("auto:relpath_b64"@, joined(rel, "/"@)) + user.map_values(
        |t: Seq<char>| text_tag_pair(t)->Some_0,
    ) + tag_pairs(extracted)
}

/// Adding a tag to tags that hold the deduplicated pairs `added` leaves
/// the deduplicated pairs of `added` and the tag's pair.
proof fn lemma_add_pair(before: Seq<Tag>, after: Seq<Tag>, t: Tag, added: Seq<(Seq<char>, Seq<char>)>)
    requires
        tag_pairs(before) == deduped(added),
        has_tag_pair(before, t.key@, t.value@) ==> after == before,
        !has_tag_pair(before, t.key@, t.value@) ==> after == before.push(t),
    ensures
        tag_pairs(after) == deduped(added.push((t.key@, t.value@))),
{
    let x = (t.key@, t.value@);
    assert(added.push(x).drop_last() =~= added);
    if has_tag_pair(before, t.key@, t.value@) {
        let i = choose|i: int| 0 <= i < before.len() && before[i].key@ == t.key@ && before[i].value@ == t.value@;
        assert(tag_pairs(before)[i] == x);
    } else {
        if tag_pairs(before).contains(x) {
            let i = choose|i: int| 0 <= i < tag_pairs(before).len() && tag_pairs(before)[i] == x;
            assert(before[i].key@ == t.key@ && before[i].value@ == t.value@);
        }
        assert(tag_pairs(before.push(t)) =~= tag_pairs(before).push(x));
    }
}

/// Add a tag, keeping the deduplicated pairs in step.
fn add_tracked(object: &mut Object, t: Tag, Ghost(added): Ghost<Seq<(Seq<char>, Seq<char>)>>)
    requires
        tag_pairs(old(object).tags@) == deduped(added),
    ensures
        tag_pairs(final(object).tags@) == deduped(added.push((t.key@, t.value@))),
        same_but_tags(*old(object), *final(object)),
{
    let ghost before = object.tags@;
    let ghost tv = t;
    object.add_tag(t);
    proof {
        lemma_add_pair(before, object.tags@, tv, added);
    }
}

/// Add the tag a non-empty value gives under a key, base64url encoded.
fn add_encoded(
    object: &mut Object,
    key: &str,
    value: &str,
    actor: ActorID,
    created_at: i64,
    Ghost(added): Ghost<Seq<(Seq<char>, Seq<char>)>>,
)
    requires
        tag_pairs(old(object).tags@) == deduped(added),
    ensures
        tag_pairs(final(object).tags@) == deduped(added + encoded_pairs(key@, value@)),
        same_but_tags(*old(object), *final(object)),
{
    if value.unicode_len() == 0 {
        assert(added + encoded_pairs(key@, value@) =~= added);
        return;
    }
    let encoded = base64url_encode(value.as_bytes());
    let t = Tag { key: string_of(key), value: encoded, created_at, created_by: actor };
    add_tracked(object, t, Ghost(added));
    assert(added.push((key@, base64url_text(encode_utf8(value@)))) =~= added + encoded_pairs(key@, value@));
}

/// The object and first version of an imported file, from its stored
/// manifest: a blob whose only version is a draft with no parent, tagged
/// with its file name, its relative path (components joined by `/`), the
/// user's `key:value` tags in order, then the extracted tags (a tag with
/// the same key and value as an earlier one is skipped). `Serialization`
/// when a user tag has no `:`.
pub fn build_import(
    object_id: ObjectID,
    version_id: VersionID,
    manifest: &ChunkManifest,
    manifest_ref: [u8; 32],
    size: u64,
    file_name: Option<String>,
    rel_components: Vec<String>,
    tag_texts: &Vec<String>,
    extracted: Vec<Tag>,
    actor: ActorID,
    created_at: i64,
) -> (r: Result<(Object, Version), LatticeError>)
    ensures
        r is Ok <==> all_tag_texts(string_views(tag_texts@)),
        r matches Err(e) ==> e is Serialization,
        r matches Ok((o, v)) ==> {
            &&& o.id == object_id
            &&& o.created_at == created_at
            &&& o.created_by == actor
            &&& o.object_type == ObjectType::Blob
            &&& o.current_version == version_id
            &&& o.versions@ == seq![version_id]
            &&& o.links@.len() == 0
            &&& o.policy_refs@.len() == 0
            &&& o.metadata_partition == MetadataPartition::Shared
            &&& tag_pairs(o.tags@) == deduped(import_tag_pairs(
                match file_name {
                    Some(n) => Some(n@),
                    None => None,
                },
                string_views(rel_components@),
                string_views(tag_texts@),
                extracted@,
            ))
            &&& v.id == version_id
            &&& v.object_id == object_id
            &&& v.parent_version is None
            &&& v.chunk_root == manifest.merkle_root
            &&& v.manifest_ref == manifest_ref
            &&& v.created_at == created_at
            &&& v.created_by == actor
            &&& v.state == State::Draft
            &&& !v.encrypted
            &&& v.encryption_key_ref is None
            &&& v.size_bytes == size
            &&& v.chunk_count == manifest.chunks@.len() as u32
            &&& v.commit_message is None
        },
{
    let ghost fname = match &file_name {
        Some(n) => Some(n@),
        None => None,
    };
    let version = Version {
        id: version_id,
        object_id,
        parent_version: None,
        chunk_root: manifest.merkle_root,
        manifest_ref,
        created_at,
        created_by: actor,
        state: State::Draft,
        encrypted: false,
        encryption_key_ref: None,
        size_bytes: size,
        chunk_count: manifest.chunks.len() as u32,
        commit_message: None,
    };
    let mut object = Object {
        id: object_id,
        created_at,
        created_by: actor,
        object_type: ObjectType::Blob,
        current_version: version_id,
        versions: vec![version_id],
        tags: Vec::new(),
        links: Vec::new(),
        policy_refs: Vec::new(),
        metadata_partition: MetadataPartition::Shared,
    };
    let ghost base = object;
    assert(tag_pairs(object.tags@) =~= deduped(seq![]));
    let ghost first: Seq<(Seq<char>, Seq<char>)> = match fname {
        Some(n) => encoded_pairs("auto:filename_b64"@, n),
        None => seq![],
    };
    match &file_name {
        Some(n) => {
            add_encoded(&mut object, "auto:filename_b64", n.as_str(), actor, created_at, Ghost(Seq::empty()));
        },
        None => {},
    }
    assert(seq![] + first =~= first);
    let rel = join_strings(&rel_components, "/");
    add_encoded(&mut object, "auto:relpath_b64", rel.as_str(), actor, created_at, Ghost(first));
    let ghost pre = first + encoded_pairs("auto:relpath_b64"@, joined(string_views(rel_components@), "/"@));
    let ghost texts = string_views(tag_texts@);
    let mut i: usize = 0;
    while i < tag_texts.len()
        invariant
            i <= tag_texts@.len(),
            texts == string_views(tag_texts@),
            same_but_tags(base, object),
            forall|j: int| 0 <= j < i ==> (#[trigger] text_tag_pair(texts[j])) is Some,
            tag_pairs(object.tags@) == deduped(pre + texts.take(i as int).map_values(
                |t: Seq<char>| text_tag_pair(t)->Some_0,
            )),
        decreases tag_texts@.len() - i,
    {
        let ghost s = texts[i as int];
        match Tag::parse(tag_texts[i].as_str(), actor) {
            Err(e) => {
                proof {
                    if exists|k: int| is_first_index(s, ':', k) {
                        let k = choose|k: int| is_first_index(s, ':', k);
                        assert(s[k] == ':');
                    }
                    assert(text_tag_pair(texts[i as int]) is None);
                }
                return Err(e);
            },
            Ok(t0) => {
                let mut t = t0;
                t.created_at = created_at;
                proof {
                    let k = choose|k: int|
                        is_first_index(s, ':', k) && t.key@ == s.take(k) && t.value@ == s.skip(k + 1);
                    let c = choose|c: int| is_first_index(s, ':', c);
                    lemma_first_index_unique(s, ':', k, c);
                    assert(text_tag_pair(s) == Some((t.key@, t.value@)));
                }
                let ghost prior = pre + texts.take(i as int).map_values(|t: Seq<char>| text_tag_pair(t)->Some_0);
                add_tracked(&mut object, t, Ghost(prior));
                assert(prior.push((t.key@, t.value@)) =~= pre + texts.take(i + 1).map_values(
                    |t: Seq<char>| text_tag_pair(t)->Some_0,
                ));
            },
        }
        i = i + 1;
    }
    assert(texts.take(i as int) =~= texts);
    let ghost mid = pre + texts.map_values(|t: Seq<char>| text_tag_pair(t)->Some_0);
    let ghost ex = extracted@;
    let mut k: usize = 0;
    let n = extracted.len();
    let mut rest = extracted;
    while k < n
        invariant
            n == ex.len(),
            k <= ex.len(),
            rest@ == ex.skip(k as int),
            same_but_tags(base, object),
            tag_pairs(object.tags@) == deduped(mid + tag_pairs(ex.take(k as int))),
        decreases ex.len() - k,
    {
        let t = rest.remove(0);
        let ghost prior = mid + tag_pairs(ex.take(k as int));
        assert(t == ex[k as int]);
        add_tracked(&mut object, t, Ghost(prior));
        assert(prior.push((t.key@, t.value@)) =~= mid + tag_pairs(ex.take(k + 1)));
        assert(ex.skip(k as int).remove(0) =~= ex.skip(k + 1));
        k = k + 1;
    }
    assert(ex.take(k as int) =~= ex);
    assert(mid + tag_pairs(ex) =~= import_tag_pairs(fname, string_views(rel_components@), texts, ex));
    Ok((object, version))
}

/// ID3 fields read from an audio file.
#[derive(Debug, Clone)]
pub struct Id3Fields {
    pub title: Option<String>,
    pub artist: Option<String>,
    pub album: Option<String>,
    pub genre: Option<String>,
    pub year: Option<i32>,
    pub track: Option<u32>,
}

/// Where a file's text is taken from.
#[derive(Debug, Clone, Copy, PartialEq, Eq, Structural)]
pub enum TextSource {
    /// Extracted from a PDF.
    Pdf,
    /// Read as plain text.
    Plain,
    /// No text is taken.
    NoText,
}

/// Whether EXIF fields are read: asked for, and the file is an image.
pub fn wants_exif(options: &MetadataOptions, mime: &str) -> (r: bool)
    ensures
        r == (options.extract_exif && "image/"@.is_prefix_of(mime@)),
{
    options.extract_exif && starts_with(mime, "image/")
}

/// Whether ID3 fields are read: asked for, and the file is audio.
pub fn wants_id3(options: &MetadataOptions, mime: &str) -> (r: bool)
    ensures
        r == (options.extract_id3 && "audio/"@.is_prefix_of(mime@)),
{
    options.extract_id3 && starts_with(mime, "audio/")
}

/// Where text is taken from: a PDF's text, a text file's content, or
/// none (also when text is not asked for).
pub fn text_source(options: &MetadataOptions, mime: &str) -> (r: TextSource)
    ensures
        r == (if !options.extract_text {
            TextSource::NoText
        } else if mime@ == "application/pdf"@ {
            TextSource::Pdf
        } else if "text/"@.is_prefix_of(mime@) {
            TextSource::Plain
        } else {
            TextSource::NoText
        }),
{
    if !options.extract_text {
        TextSource::NoText
    } else if str_eq(mime, "application/pdf") {
        TextSource::Pdf
    } else if starts_with(mime, "text/") {
        TextSource::Plain
    } else {
        TextSource::NoText
    }
}

/// The decimal text of an integer, with `-` before a negative one.
pub open spec fn int_text(n: int) -> Seq<char> {
    if n < 0 {
        "-"@ + decimal_chars((-n) as nat)
    } else {
        decimal_chars(n as nat)
    }
}

/// The tag an optional field gives under a key.
pub open spec fn field_pairs(key: Seq<char>, value: Option<Seq<char>>) -> Seq<(Seq<char>, Seq<char>)> {
    match value {
        Some(v) => seq![(key, v)],
        None => seq![],
    }
}

/// The tags of ID3 fields, in order: title, artist, album, genre, year,
/// track, each when present.
pub open spec fn id3_pairs(f: Id3Fields) -> Seq<(Seq<char>, Seq<char>)> {
    field_pairs("auto:id3:title"@, opt_chars(f.title)) + field_pairs("auto:id3:artist"@, opt_chars(f.artist))
        + field_pairs("auto:id3:album"@, opt_chars(f.album)) + field_pairs("auto:id3:genre"@, opt_chars(f.genre))
        + field_pairs(
        "auto:id3:year"@,
        match f.year {
            Some(y) => Some(int_text(y as int)),
            None => None,
        },
    ) + field_pairs(
        "auto:id3:track"@,
        match f.track {
            Some(t) => Some(decimal_chars(t as nat)),
            None => None,
        },
    )
}

/// The characters of an optional string.
pub open spec fn opt_chars(s: Option<String>) -> Option<Seq<char>> {
    match s {
        Some(t) => Some(t@),
        None => None,
    }
}

/// The tags of EXIF fields: each field's name, lowercased, under
/// `auto:exif:`, with its displayed value.
pub open spec fn exif_pairs(fields: Seq<(String, String)>) -> Seq<(Seq<char>, Seq<char>)> {
    fields.map_values(|f: (String, String)| ("auto:exif:"@ + unicode_lowercase(f.0@), f.1@))
}

/// The tags taken from a file, in order: its MIME type, `auto:executable`
/// when it is executable, its EXIF fields, its ID3 fields, and `auto:text`
/// when non-empty text was taken.
pub open spec fn metadata_pairs(
    mime: Seq<char>,
    executable: bool,
    exif: Seq<(String, String)>,
    id3: Option<Id3Fields>,
    text: Option<Seq<char>>,
) -> Seq<(Seq<char>, Seq<char>)> {
    seq![("auto:mimetype"@, mime)] + (if executable {
        seq![("auto:executable"@, "true"@)]
    } else {
        seq![]
    }) + exif_pairs(exif) + (match id3 {
        Some(f) => id3_pairs(f),
        None => seq![],
    }) + (match text {
        Some(t) => if t.len() > 0 {
            seq![("auto:text"@, "true"@)]
        } else {
            seq![]
        },
        None => seq![],
    })
}

fn int_string(n: i32) -> (r: String)
    ensures
        r@ == int_text(n as int),
{
    if n < 0 {
        let m: u64 = (0i64 - (n as i64)) as u64;
        let mut s = string_of("-");
        let d = decimal_text(m);
        s.append(d.as_str());
        s
    } else {
        decimal_text(n as u64)
    }
}

fn push_pair(tags: &mut Vec<Tag>, key: &str, value: String, actor: ActorID, created_at: i64)
    ensures
        tag_pairs(final(tags)@) == tag_pairs(old(tags)@).push((key@, value@)),
{
    let ghost before = tags@;
    tags.push(Tag { key: string_of(key), value, created_at, created_by: actor });
    assert(tag_pairs(tags@) =~= tag_pairs(before).push((key@, value@)));
}

fn push_field(tags: &mut Vec<Tag>, key: &str, value: &Option<String>, actor: ActorID, created_at: i64)
    ensures
        tag_pairs(final(tags)@) == tag_pairs(old(tags)@) + field_pairs(key@, opt_chars(*value)),
{
    match value {
        Some(v) => {
            push_pair(tags, key, string_of(v.as_str()), actor, created_at);
            assert(tag_pairs(old(tags)@).push((key@, v@)) =~= tag_pairs(old(tags)@) + field_pairs(key@, opt_chars(*value)));
        },
        None => {
            assert(tag_pairs(tags@) =~= tag_pairs(old(tags)@) + field_pairs(key@, opt_chars(*value)));
        },
    }
}

fn push_exif(tags: &mut Vec<Tag>, exif: &Vec<(String, String)>, actor: ActorID, created_at: i64)
    ensures
        tag_pairs(final(tags)@) == tag_pairs(old(tags)@) + exif_pairs(exif@),
{
    let ghost head = tag_pairs(tags@);
    let mut i: usize = 0;
    while i < exif.len()
        invariant
            i <= exif@.len(),
            tag_pairs(tags@) == head + exif_pairs(exif@.take(i as int)),
        decreases exif@.len() - i,
    {
        let mut key = string_of("auto:exif:");
        let lower = to_lowercase(exif[i].0.as_str());
        key.append(lower.as_str());
        push_pair(tags, key.as_str(), string_of(exif[i].1.as_str()), actor, created_at);
        assert(exif_pairs(exif@.take(i + 1)) =~= exif_pairs(exif@.take(i as int)).push(
            ("auto:exif:"@ + unicode_lowercase(exif@[i as int].0@), exif@[i as int].1@),
        ));
        assert(tag_pairs(tags@) =~= head + exif_pairs(exif@.take(i + 1)));
        i = i + 1;
    }
    assert(exif@.take(i as int) =~= exif@);
}

fn push_id3(tags: &mut Vec<Tag>, f: &Id3Fields, actor: ActorID, created_at: i64)
    ensures
        tag_pairs(final(tags)@) == tag_pairs(old(tags)@) + id3_pairs(*f),
{
    let ghost head = tag_pairs(tags@);
    push_field(tags, "auto:id3:title", &f.title, actor, created_at);
    push_field(tags, "auto:id3:artist", &f.artist, actor, created_at);
    push_field(tags, "auto:id3:album", &f.album, actor, created_at);
    push_field(tags, "auto:id3:genre", &f.genre, actor, created_at);
    let year = match f.year {
        Some(y) => Some(int_string(y)),
        None => None,
    };
    push_field(tags, "auto:id3:year", &year, actor, created_at);
    let track = match f.track {
        Some(t) => Some(decimal_text(t as u64)),
        None => None,
    };
    push_field(tags, "auto:id3:track", &track, actor, created_at);
    assert(tag_pairs(tags@) =~= head + id3_pairs(*f));
}

/// The metadata of a file from what was read of it (see
/// `metadata_pairs`): its tags, made by `actor` at `created_at`, and its
/// text when non-empty text was taken.
pub fn metadata_from(
    mime: &str,
    executable: bool,
    exif: &Vec<(String, String)>,
    id3: &Option<Id3Fields>,
    text: Option<String>,
    actor: ActorID,
    created_at: i64,
) -> (r: ExtractedMetadata)
    ensures
        tag_pairs(r.tags@) == metadata_pairs(mime@, executable, exif@, *id3, opt_chars(text)),
        match text {
            Some(t) => if t@.len() > 0 {
                r.text matches Some(x) && x@ == t@
            } else {
                r.text is None
            },
            None => r.text is None,
        },
{
    let ghost tv = opt_chars(text);
    let mut tags: Vec<Tag> = Vec::new();
    push_pair(&mut tags, "auto:mimetype", string_of(mime), actor, created_at);
    if executable {
        push_pair(&mut tags, "auto:executable", string_of("true"), actor, created_at);
    }
    let ghost p1 = tag_pairs(tags@);
    assert(p1 =~= seq![("auto:mimetype"@, mime@)] + (if executable {
        seq![("auto:executable"@, "true"@)]
    } else {
        seq![]
    }));
    push_exif(&mut tags, exif, actor, created_at);
    let ghost p2 = tag_pairs(tags@);
    match id3 {
        Some(f) => {
            push_id3(&mut tags, f, actor, created_at);
        },
        None => {
            assert(tag_pairs(tags@) =~= p2 + seq![]);
        },
    }
    let ghost p3 = tag_pairs(tags@);
    let ghost text_part: Seq<(Seq<char>, Seq<char>)> = match tv {
        Some(t) => if t.len() > 0 {
            seq![("auto:text"@, "true"@)]
        } else {
            seq![]
        },
        None => seq![],
    };
    let out_text = match text {
        Some(t) => {
            if t.unicode_len() > 0 {
                push_pair(&mut tags, "auto:text", string_of("true"), actor, created_at);
                Some(t)
            } else {
                None
            }
        },
        None => None,
    };
    assert(tag_pairs(tags@) =~= p3 + text_part);
    assert(tag_pairs(tags@) =~= metadata_pairs(mime@, executable, exif@, *id3, tv));
    ExtractedMetadata { tags, text: out_text }
}

} // verus!
