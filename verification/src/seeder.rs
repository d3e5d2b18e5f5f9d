//! Seeding official packs from configuration: the shapes of seed items, the
//! content hashes that identify items, and the plan that brings a stored pack
//! in line with its configuration.

use vstd::prelude::*;
use vstd::string::StringSliceAdditionalSpecFns;
use vstd::utf8::encode_utf8;

use crate::ids::{hex_digit, uuid_text, uuid_to_string};
use crate::model::ContentSafetyLevel;
use crate::start::{sha256, sha256_digest};
use crate::text::{trim, trimmed};

verus! {

/// The identifier of the default administrator.
pub const DEFAULT_ADMIN_USER_ID: u128 = 1;

/// A situation of a seed configuration: a bare text, or an object with one.
#[derive(Debug)]
pub enum SituationSeedItem {
    Simple(String),
    Detailed { prompt_text: String },
}

impl SituationSeedItem {
    /// The text of the situation.
    pub fn prompt_text(&self) -> (s: &str)
        ensures
            s@ == match self {
                SituationSeedItem::Simple(t) => t@,
                SituationSeedItem::Detailed { prompt_text } => prompt_text@,
            },
    {
        match self {
            SituationSeedItem::Simple(s) => s.as_str(),
            SituationSeedItem::Detailed { prompt_text } => prompt_text.as_str(),
        }
    }
}

/// A meme of a seed configuration: a bare file path, or an object with one.
#[derive(Debug)]
pub enum MemeSeedItem {
    Simple(String),
    Detailed { file: String },
}

impl MemeSeedItem {
    /// The path of the meme's image, relative to the configuration.
    pub fn file_path(&self) -> (s: &str)
        ensures
            s@ == match self {
                MemeSeedItem::Simple(t) => t@,
                MemeSeedItem::Detailed { file } => file@,
            },
    {
        match self {
            MemeSeedItem::Simple(s) => s.as_str(),
            MemeSeedItem::Detailed { file } => file.as_str(),
        }
    }
}

/// A situation pack as configured for seeding.
#[derive(Debug)]
pub struct SituationPackSeedConfig {
    pub pack_id: Option<u128>,
    pub name: String,
    pub description: Option<String>,
    pub language_code: String,
    pub safety_level: ContentSafetyLevel,
    pub is_public: bool,
    pub items: Vec<SituationSeedItem>,
}

/// A meme pack as configured for seeding.
#[derive(Debug)]
pub struct MemePackSeedConfig {
    pub pack_id: Option<u128>,
    pub name: String,
    pub description: Option<String>,
    pub language_code: String,
    pub safety_level: ContentSafetyLevel,
    pub is_public: bool,
    pub items: Vec<MemeSeedItem>,
}

/// The safety level of a configured pack that names none.
pub fn default_safety_level() -> (l: ContentSafetyLevel)
    ensures
        l == ContentSafetyLevel::FamilyFriendly,
{
    ContentSafetyLevel::FamilyFriendly
}

/// Whether a configured pack that says nothing is public: it is.
pub fn default_is_public() -> (b: bool)
    ensures
        b,
{
    true
}

/// What `uuid::Uuid::new_v5` gives in the DNS namespace for a name.
pub uninterp spec fn uuid_v5_dns(name: Seq<u8>) -> u128;

/// The name-based identifier of `name`, through `uuid::Uuid::new_v5` with
/// `Uuid::NAMESPACE_DNS`. The claim: the identifier depends on the name's bytes
/// alone.
#[verifier::external_body]
pub(crate) fn name_based_id(name: &str) -> (id: u128)
    ensures
        id == uuid_v5_dns(name.spec_bytes()),
{
    uuid::Uuid::new_v5(&uuid::Uuid::NAMESPACE_DNS, name.as_bytes()).as_u128()
}

/// The identifier of a seeded pack: the configured one, or else one derived
/// from the pack's name, so that the same name always seeds the same pack.
pub fn seed_pack_id(pack_id: Option<u128>, name: &str) -> (id: u128)
    ensures
        id == match pack_id {
            Some(p) => p,
            None => uuid_v5_dns(name.spec_bytes()),
        },
{
    match pack_id {
        Some(p) => p,
        None => name_based_id(name),
    }
}

/// The username of the default administrator created at startup: `admin` for
/// the well-known identifier, else `admin_` and the first eight characters of
/// the identifier.
pub fn admin_username(admin_id: u128) -> (s: String)
    ensures
        admin_id == DEFAULT_ADMIN_USER_ID ==> s@ == "admin"@,
        admin_id != DEFAULT_ADMIN_USER_ID ==> s@ == "admin_"@ + uuid_text(admin_id).subrange(0, 8),
{
    if admin_id == DEFAULT_ADMIN_USER_ID {
        String::from_str("admin")
    } else {
        let text = uuid_to_string(admin_id);
        let head = text.as_str().substring_char(0, 8);
        String::from_str("admin_").concat(head)
    }
}

/// The file identifier of a seed image stored without the CDN: `seed_` and
/// its content hash.
pub fn placeholder_file_id(hash: &str) -> (s: String)
    ensures
        s@ == "seed_"@ + hash@,
{
    String::from_str("seed_").concat(hash)
}

/// The address of a seed image stored without the CDN:
/// `<base>/local-seeds/<hash>/<file name>`.
pub fn placeholder_url(base_url: &str, hash: &str, filename: &str) -> (s: String)
    ensures
        s@ == base_url@ + "/local-seeds/"@ + hash@ + "/"@ + filename@,
{
    String::from_str(base_url).concat("/local-seeds/").concat(hash).concat("/").concat(filename)
}

/// Lowercase hexadecimal text of bytes, two digits per byte.
pub open spec fn hex_text(bytes: Seq<u8>) -> Seq<char>
    decreases bytes.len(),
{
    if bytes.len() == 0 {
        Seq::empty()
    } else {
        hex_text(bytes.drop_last()) + seq![
            hex_digit(bytes.last() as int / 16),
            hex_digit(bytes.last() as int % 16),
        ]
    }
}

/// Hexadecimal text has two characters per byte.
pub proof fn lemma_hex_text_len(bytes: Seq<u8>)
    ensures
        hex_text(bytes).len() == 2 * bytes.len(),
    decreases bytes.len(),
{
    if bytes.len() > 0 {
        lemma_hex_text_len(bytes.drop_last());
    }
}

/// Hexadecimal text of `bytes`, through `hex::encode`. The claim: two lowercase
/// digits per byte, high half first, as `hex::encode` documents.
#[verifier::external_body]
pub(crate) fn hex_encode(bytes: &[u8]) -> (s: String)
    ensures
        s@ == hex_text(bytes@),
{
    hex::encode(bytes)
}

/// The content hash of a situation: SHA-256 of its trimmed text, in hex.
pub open spec fn text_hash(text: Seq<char>) -> Seq<char> {
    hex_text(sha256_digest(encode_utf8(trimmed(text))))
}

/// The content hash of a meme: SHA-256 of its image's bytes, in hex.
pub open spec fn file_hash(bytes: Seq<u8>) -> Seq<char> {
    hex_text(sha256_digest(bytes))
}

/// Leading and trailing white space does not change a situation's hash.
pub proof fn lemma_text_hash_ignores_surrounding_space(text: Seq<char>)
    ensures
        text_hash(trimmed(text)) == text_hash(text),
{
    lemma_trim_idempotent(text);
}

/// Computes the content hash of a situation's text. Leading and trailing white
/// space does not change the hash; the hash has 64 characters.
pub fn compute_text_hash(text: &str) -> (h: String)
    ensures
        h@ == text_hash(text@),
        h@.len() == 64,
{
    let t = trim(text);
    let digest = sha256(t.as_bytes());
    proof {
        lemma_hex_text_len(digest@);
    }
    hex_encode(digest.as_slice())
}

/// Computes the content hash of a meme's image; the hash has 64 characters.
pub fn compute_file_hash(bytes: &[u8]) -> (h: String)
    ensures
        h@ == file_hash(bytes@),
        h@.len() == 64,
{
    let digest = sha256(bytes);
    proof {
        lemma_hex_text_len(digest@);
    }
    hex_encode(digest.as_slice())
}

/// What `str::to_lowercase` gives for a text.
pub uninterp spec fn lowercase(s: Seq<char>) -> Seq<char>;

/// Whether every character of `s` is ASCII.
pub open spec fn all_ascii(s: Seq<char>) -> bool {
    forall|i: int| 0 <= i < s.len() ==> (#[trigger] s[i] as u32) < 128
}

/// An ASCII letter in lowercase; any other character as it is.
pub open spec fn ascii_lower(c: char) -> char {
    if 65 <= (c as u32) <= 90 {
        ((c as u32) + 32) as char
    } else {
        c
    }
}

/// The lowercase form of `s`, through `str::to_lowercase`. The claims: the
/// result depends on the text alone, and on ASCII text it lowercases the
/// letters A to Z and keeps every other character. What it does with other
/// characters (Unicode case mappings, which may change the length) is left
/// unsaid.
#[verifier::external_body]
pub(crate) fn to_lowercase(s: &str) -> (l: String)
    ensures
        l@ == lowercase(s@),
        all_ascii(s@) ==> l@ == s@.map_values(|c: char| ascii_lower(c)),
{
    s.to_lowercase()
}

/// Whether `s` ends with `suffix`.
pub open spec fn has_suffix(s: Seq<char>, suffix: Seq<char>) -> bool {
    suffix.len() <= s.len() && s.subrange(s.len() - suffix.len(), s.len() as int) == suffix
}

/// Whether `s` ends with `suffix`.
pub fn ends_with(s: &str, suffix: &str) -> (b: bool)
    ensures
        b == has_suffix(s@, suffix@),
{
    let n = s.unicode_len();
    let m = suffix.unicode_len();
    if m > n {
        return false;
    }
    let start = n - m;
    let mut i: usize = 0;
    while i < m
        invariant
            n == s@.len(),
            m == suffix@.len(),
            start == n - m,
            0 <= i <= m,
            forall|k: int| 0 <= k < i ==> #[trigger] suffix@[k] == s@[start + k],
        decreases m - i,
    {
        if s.get_char(start + i) != suffix.get_char(i) {
            proof {
                assert(s@.subrange(start as int, n as int)[i as int] != suffix@[i as int]);
            }
            return false;
        }
        i = i + 1;
    }
    proof {
        assert(s@.subrange(start as int, n as int) =~= suffix@);
    }
    true
}

/// The media type of an image file by its (lowercase) name.
pub open spec fn content_type_for(name: Seq<char>) -> Seq<char> {
    if has_suffix(name, ".png"@) {
        "image/png"@
    } else if has_suffix(name, ".jpg"@) || has_suffix(name, ".jpeg"@) {
        "image/jpeg"@
    } else if has_suffix(name, ".webp"@) {
        "image/webp"@
    } else if has_suffix(name, ".gif"@) {
        "image/gif"@
    } else if has_suffix(name, ".svg"@) {
        "image/svg+xml"@
    } else {
        "application/octet-stream"@
    }
}

/// The media type of an image file by its name, already in lowercase.
pub fn content_type_of_lowercase(name: &str) -> (t: &'static str)
    ensures
        t@ == content_type_for(name@),
{
    if ends_with(name, ".png") {
        "image/png"
    } else if ends_with(name, ".jpg") || ends_with(name, ".jpeg") {
        "image/jpeg"
    } else if ends_with(name, ".webp") {
        "image/webp"
    } else if ends_with(name, ".gif") {
        "image/gif"
    } else if ends_with(name, ".svg") {
        "image/svg+xml"
    } else {
        "application/octet-stream"
    }
}

/// The media type of an image file, by the extension of its name in any case.
pub fn detect_content_type(file_name: &str) -> (t: &'static str)
    ensures
        t@ == content_type_for(lowercase(file_name@)),
        all_ascii(file_name@) ==> t@ == content_type_for(file_name@.map_values(|c: char| ascii_lower(c))),
{
    let lower = to_lowercase(file_name);
    content_type_of_lowercase(lower.as_str())
}

} // verus!

verus! {

/// An item of a pack as stored: its identifier, content hash when it has one,
/// whether it is active, and for a situation its text.
#[derive(Debug)]
pub struct SeedRow {
    pub id: u128,
    pub content_hash: Option<String>,
    pub is_active: bool,
    pub prompt_text: Option<String>,
    pub media_id: Option<i64>,
}

/// The row's content hash as text, when it has one.
pub open spec fn row_hash(row: SeedRow) -> Option<Seq<char>> {
    match row.content_hash {
        Some(h) => Some(h@),
        None => None,
    }
}

/// The row's text, when it has one.
pub open spec fn row_text(row: SeedRow) -> Option<Seq<char>> {
    match row.prompt_text {
        Some(t) => Some(t@),
        None => None,
    }
}

/// The last row with content hash `h` (later rows take precedence, as in a
/// map filled in row order).
pub open spec fn last_with_hash(rows: Seq<SeedRow>, h: Seq<char>) -> Option<int>
    decreases rows.len(),
{
    if rows.len() == 0 {
        None
    } else if row_hash(rows.last()) == Some(h) {
        Some(rows.len() - 1)
    } else {
        last_with_hash(rows.drop_last(), h)
    }
}

/// The last row with text `t`.
pub open spec fn last_with_text(rows: Seq<SeedRow>, t: Seq<char>) -> Option<int>
    decreases rows.len(),
{
    if rows.len() == 0 {
        None
    } else if row_text(rows.last()) == Some(t) {
        Some(rows.len() - 1)
    } else {
        last_with_text(rows.drop_last(), t)
    }
}

proof fn lemma_last_with_hash_bounds(rows: Seq<SeedRow>, h: Seq<char>)
    ensures
        last_with_hash(rows, h) matches Some(i) ==> 0 <= i < rows.len() && row_hash(rows[i]) == Some(h),
    decreases rows.len(),
{
    if rows.len() > 0 {
        lemma_last_with_hash_bounds(rows.drop_last(), h);
    }
}

proof fn lemma_last_with_text_bounds(rows: Seq<SeedRow>, t: Seq<char>)
    ensures
        last_with_text(rows, t) matches Some(i) ==> 0 <= i < rows.len() && row_text(rows[i]) == Some(t),
    decreases rows.len(),
{
    if rows.len() > 0 {
        lemma_last_with_text_bounds(rows.drop_last(), t);
    }
}

/// Finds the last row with content hash `h`.
pub fn find_by_hash(rows: &[SeedRow], h: &String) -> (r: Option<usize>)
    ensures
        r matches Some(i) ==> Some(i as int) == last_with_hash(rows@, h@),
        r is None ==> last_with_hash(rows@, h@) is None,
{
    let mut i: usize = rows.len();
    proof {
        assert(rows@.subrange(0, rows@.len() as int) =~= rows@);
    }
    while i > 0
        invariant
            0 <= i <= rows@.len(),
            last_with_hash(rows@, h@) == last_with_hash(rows@.subrange(0, i as int), h@),
        decreases i,
    {
        let matches = match &rows[i - 1].content_hash {
            Some(x) => *x == *h,
            None => false,
        };
        proof {
            assert(rows@.subrange(0, i as int).drop_last() =~= rows@.subrange(0, i - 1));
            assert(rows@.subrange(0, i as int).last() == rows@[i - 1]);
        }
        if matches {
            return Some(i - 1);
        }
        i = i - 1;
    }
    None
}

/// Finds the last row with text `t`.
pub fn find_by_text(rows: &[SeedRow], t: &str) -> (r: Option<usize>)
    ensures
        r matches Some(i) ==> Some(i as int) == last_with_text(rows@, t@),
        r is None ==> last_with_text(rows@, t@) is None,
{
    let wanted = String::from_str(t);
    let mut i: usize = rows.len();
    proof {
        assert(rows@.subrange(0, rows@.len() as int) =~= rows@);
    }
    while i > 0
        invariant
            0 <= i <= rows@.len(),
            wanted@ == t@,
            last_with_text(rows@, t@) == last_with_text(rows@.subrange(0, i as int), t@),
        decreases i,
    {
        let matches = match &rows[i - 1].prompt_text {
            Some(x) => *x == wanted,
            None => false,
        };
        proof {
            assert(rows@.subrange(0, i as int).drop_last() =~= rows@.subrange(0, i - 1));
            assert(rows@.subrange(0, i as int).last() == rows@[i - 1]);
        }
        if matches {
            return Some(i - 1);
        }
        i = i - 1;
    }
    None
}

/// What to do with a configured situation.
#[derive(Debug)]
pub enum SituationStep {
    /// Blank, or the same text as an earlier item: nothing.
    Skip,
    /// A stored row with this hash is inactive: activate it and store the text.
    Reactivate { id: u128, prompt_text: String },
    /// A stored row with this hash is active: nothing.
    Unchanged,
    /// A stored row has this text but not this hash: store the hash and
    /// activate it.
    Rehash { id: u128, content_hash: String },
    /// No stored row matches: insert it.
    Insert { prompt_text: String, content_hash: String },
}

/// What to do with a configured meme whose image hashes to a given value.
#[derive(Debug, Clone, Copy, PartialEq, Eq, Structural)]
pub enum MemeStep {
    /// The same image as an earlier item: nothing.
    Skip,
    /// A stored row with this hash is inactive: activate it.
    Reactivate { id: u128 },
    /// A stored row with this hash is active: nothing.
    Unchanged,
    /// No stored row has this hash: upload the image and insert it.
    Upload,
}

/// The hashes seen so far while a pack's configuration is brought in,
/// each once, in the order first seen.
#[derive(Debug)]
pub struct SeedSync {
    desired: Vec<String>,
}

impl SeedSync {
    /// The hashes seen so far.
    pub closed spec fn hashes(&self) -> Seq<Seq<char>> {
        self.desired@.map_values(|s: String| s@)
    }

    /// No hash is recorded twice.
    #[verifier::type_invariant]
    closed spec fn seen_once(self) -> bool {
        self.hashes().no_duplicates()
    }


    /// Nothing seen yet.
    pub fn new() -> (s: SeedSync)
        ensures
            s.hashes() == Seq::<Seq<char>>::empty(),
    {
        let desired: Vec<String> = Vec::new();
        proof {
            assert(desired@.map_values(|s: String| s@) =~= Seq::<Seq<char>>::empty());
        }
        SeedSync { desired }
    }

    /// Whether the hash `h` was seen.
    pub fn has_seen(&self, h: &String) -> (b: bool)
        ensures
            b == self.hashes().contains(h@),
    {
        let mut i: usize = 0;
        while i < self.desired.len()
            invariant
                0 <= i <= self.desired@.len(),
                forall|k: int| 0 <= k < i ==> #[trigger] self.desired@[k]@ != h@,
            decreases self.desired@.len() - i,
        {
            if self.desired[i] == *h {
                proof {
                    assert(self.hashes()[i as int] == h@);
                }
                return true;
            }
            i = i + 1;
        }
        proof {
            if self.hashes().contains(h@) {
                let k = choose|k: int| 0 <= k < self.hashes().len() && self.hashes()[k] == h@;
                assert(self.desired@[k]@ == h@);
            }
        }
        false
    }

    /// Records the hash `h`, not seen before.
    fn record(&mut self, h: String)
        requires
            !old(self).hashes().contains(h@),
        ensures
            final(self).hashes() == old(self).hashes().push(h@),
    {
        proof {
            use_type_invariant(&*self);
        }
        let ghost before = self.hashes();
        let mut desired: Vec<String> = Vec::new();
        std::mem::swap(&mut desired, &mut self.desired);
        desired.push(h);
        proof {
            assert(desired@.map_values(|s: String| s@) =~= before.push(h@));
        }
        self.desired = desired;
    }

    /// Decides what to do with a configured situation. Its text is trimmed; a
    /// blank text, or one whose hash was already seen, is skipped. Otherwise
    /// its hash is recorded, and the last stored row with that hash is
    /// reactivated when inactive (or left as it is); failing that, the last
    /// stored row with that text gets the hash; failing that, it is inserted.
    pub fn classify_situation(&mut self, rows: &[SeedRow], item_text: &str) -> (step: SituationStep)
        ensures
            final(self).hashes().no_duplicates(),
            ({
                let t = trimmed(item_text@);
                let h = text_hash(t);
                if t.len() == 0 || old(self).hashes().contains(h) {
                    step is Skip && final(self).hashes() == old(self).hashes()
                } else {
                    &&& final(self).hashes() == old(self).hashes().push(h)
                    &&& match last_with_hash(rows@, h) {
                        Some(i) => if !rows@[i].is_active {
                            step matches SituationStep::Reactivate { id, prompt_text } && id == rows@[i].id
                                && prompt_text@ == t
                        } else {
                            step is Unchanged
                        },
                        None => match last_with_text(rows@, t) {
                            Some(i) => step matches SituationStep::Rehash { id, content_hash } && id
                                == rows@[i].id && content_hash@ == h,
                            None => step matches SituationStep::Insert { prompt_text, content_hash }
                                && prompt_text@ == t && content_hash@ == h,
                        },
                    }
                }
            }),
    {
        proof {
            use_type_invariant(&*self);
        }
        let text = trim(item_text);
        if text.is_empty() {
            return SituationStep::Skip;
        }
        let hash = compute_text_hash(text);
        proof {
            crate::text::lemma_trim_bounds(item_text@);
            lemma_trim_idempotent(item_text@);
        }
        if self.has_seen(&hash) {
            return SituationStep::Skip;
        }
        self.record(hash.clone());
        proof {
            lemma_last_with_hash_bounds(rows@, hash@);
            lemma_last_with_text_bounds(rows@, text@);
        }
        match find_by_hash(rows, &hash) {
            Some(i) => {
                if !rows[i].is_active {
                    SituationStep::Reactivate { id: rows[i].id, prompt_text: String::from_str(text) }
                } else {
                    SituationStep::Unchanged
                }
            },
            None => match find_by_text(rows, text) {
                Some(i) => SituationStep::Rehash { id: rows[i].id, content_hash: hash },
                None => SituationStep::Insert { prompt_text: String::from_str(text), content_hash: hash },
            },
        }
    }

    /// Decides what to do with a configured meme whose image hashes to `hash`:
    /// skipped when the hash was already seen; otherwise the hash is recorded
    /// and the last stored row with it is reactivated when inactive (or left
    /// as it is), and without such a row the image is uploaded.
    pub fn classify_meme(&mut self, rows: &[SeedRow], hash: String) -> (step: MemeStep)
        ensures
            final(self).hashes().no_duplicates(),
            old(self).hashes().contains(hash@) ==> step is Skip && final(self).hashes() == old(
                self,
            ).hashes(),
            !old(self).hashes().contains(hash@) ==> {
                &&& final(self).hashes() == old(self).hashes().push(hash@)
                &&& match last_with_hash(rows@, hash@) {
                    Some(i) => if !rows@[i].is_active {
                        step == MemeStep::Reactivate { id: rows@[i].id }
                    } else {
                        step is Unchanged
                    },
                    None => step is Upload,
                }
            },
    {
        proof {
            use_type_invariant(&*self);
        }
        if self.has_seen(&hash) {
            return MemeStep::Skip;
        }
        proof {
            lemma_last_with_hash_bounds(rows@, hash@);
        }
        let found = find_by_hash(rows, &hash);
        self.record(hash);
        match found {
            Some(i) => {
                if !rows[i].is_active {
                    MemeStep::Reactivate { id: rows[i].id }
                } else {
                    MemeStep::Unchanged
                }
            },
            None => MemeStep::Upload,
        }
    }

    /// The stored rows to deactivate once every configured item was seen: the
    /// active ones whose stored hash is absent or was not seen, in row order.
    pub fn deactivations(&self, rows: &[SeedRow]) -> (ids: Vec<u128>)
        ensures
            ids@ == stale_rows(rows@, self.hashes()),
    {
        let mut ids: Vec<u128> = Vec::new();
        let mut i: usize = 0;
        while i < rows.len()
            invariant
                0 <= i <= rows@.len(),
                ids@ == stale_rows(rows@.subrange(0, i as int), self.hashes()),
            decreases rows@.len() - i,
        {
            let row = &rows[i];
            let still_desired = match &row.content_hash {
                Some(h) => self.has_seen(h),
                None => false,
            };
            proof {
                assert(rows@.subrange(0, i + 1).drop_last() =~= rows@.subrange(0, i as int));
                assert(rows@.subrange(0, i + 1).last() == rows@[i as int]);
            }
            if row.is_active && !still_desired {
                ids.push(row.id);
            }
            i = i + 1;
        }
        proof {
            assert(rows@.subrange(0, rows@.len() as int) =~= rows@);
        }
        ids
    }
}

/// Whether a stored row stays active: it has a hash that was seen.
pub open spec fn still_desired(row: SeedRow, hashes: Seq<Seq<char>>) -> bool {
    match row_hash(row) {
        Some(h) => hashes.contains(h),
        None => false,
    }
}

/// The active rows that are no longer desired, in row order.
pub open spec fn stale_rows(rows: Seq<SeedRow>, hashes: Seq<Seq<char>>) -> Seq<u128>
    decreases rows.len(),
{
    if rows.len() == 0 {
        Seq::empty()
    } else {
        let rest = stale_rows(rows.drop_last(), hashes);
        if rows.last().is_active && !still_desired(rows.last(), hashes) {
            rest.push(rows.last().id)
        } else {
            rest
        }
    }
}

/// Trimming trimmed text changes nothing.
pub proof fn lemma_trim_idempotent(s: Seq<char>)
    ensures
        trimmed(trimmed(s)) == trimmed(s),
{
    let t = trimmed(s);
    crate::text::lemma_trim_bounds(s);
    crate::text::lemma_trim_ends_kept(s);
    if t.len() > 0 {
        assert(t[0] == s[crate::text::trim_start(s)]);
        assert(t[t.len() - 1] == s[crate::text::trim_end(s) - 1]);
        assert(crate::text::first_kept(t, 0) == 0);
        assert(crate::text::last_kept_end(t, t.len() as int, 0) == t.len());
        assert(t.subrange(0, t.len() as int) =~= t);
    } else {
        assert(trimmed(t) =~= t);
    }
}

} // verus!
