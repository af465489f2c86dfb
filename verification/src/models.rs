//! The registry's data model: configuration, name records, metadata, and the
//! ghost views that the contracts are stated over.
use vstd::prelude::*;
use vstd::string::StrSliceExecFns;
use crate::error::ContractError;
use crate::token::TokenAmount;
use crate::token::TokenAmountView;

verus! {

/// Registry configuration, set once at initialization and threaded into every
/// operation; no update operation exists.
pub struct Config {
    /// The fixed registration fee: a denomination and an amount.
    pub price: TokenAmount,
    /// The address the registration fee is forwarded to.
    pub fee_recipient: String,
    /// Upper bound a host may enforce on name length; at least 1.
    pub max_name_len: u8,
}

/// Mathematical value of a `Config`.
#[verifier::ext_equal]
pub ghost struct ConfigView {
    pub price: TokenAmountView,
    pub fee_recipient: Seq<char>,
    pub max_name_len: u8,
}

impl View for Config {
    type V = ConfigView;

    open spec fn view(&self) -> ConfigView {
        ConfigView {
            price: self.price@,
            fee_recipient: self.fee_recipient@,
            max_name_len: self.max_name_len,
        }
    }
}

/// An image attached to a record's metadata: either inline SVG markup or a URL.
#[derive(Debug, Clone, PartialEq, Eq)]
pub enum ImageAsset {
    Svg(String),
    Url(String),
}

/// Mathematical value of an `ImageAsset`.
#[verifier::ext_equal]
pub ghost enum AssetView {
    Svg(Seq<char>),
    Url(Seq<char>),
}

impl View for ImageAsset {
    type V = AssetView;

    open spec fn view(&self) -> AssetView {
        match self {
            ImageAsset::Svg(s) => AssetView::Svg(s@),
            ImageAsset::Url(s) => AssetView::Url(s@),
        }
    }
}

impl DeepView for ImageAsset {
    type V = AssetView;

    open spec fn deep_view(&self) -> AssetView {
        self.view()
    }
}

/// A record registered under a canonical name.  Immutable once created; no
/// delete operation exists.
pub struct NameRecord {
    /// The principal that registered the name; the only one allowed to patch
    /// its metadata.
    pub owner: String,
    /// The target address the name resolves to.
    pub contract: String,
    /// Registration time, in nanoseconds.
    pub created_at: u64,
}

/// Mathematical value of a `NameRecord`.
#[verifier::ext_equal]
pub ghost struct RecordView {
    pub owner: Seq<char>,
    pub contract: Seq<char>,
    pub created_at: u64,
}

impl View for NameRecord {
    type V = RecordView;

    open spec fn view(&self) -> RecordView {
        RecordView {
            owner: self.owner@,
            contract: self.contract@,
            created_at: self.created_at,
        }
    }
}

/// Descriptive metadata attached one-to-one to a record.  As a message it is
/// also the patch shape: an unspecified field means "leave unchanged", and an
/// explicitly empty keyword list means "clear".
#[derive(Debug, Clone, PartialEq, Eq)]
pub struct NameMetadata {
    pub title: Option<String>,
    pub description: Option<String>,
    pub favicon: Option<ImageAsset>,
    pub logo: Option<ImageAsset>,
    pub keywords: Option<Vec<String>>,
}

/// Mathematical value of a `NameMetadata`.
#[verifier::ext_equal]
pub ghost struct MetaView {
    pub title: Option<Seq<char>>,
    pub description: Option<Seq<char>>,
    pub favicon: Option<AssetView>,
    pub logo: Option<AssetView>,
    pub keywords: Option<Seq<Seq<char>>>,
}

impl View for NameMetadata {
    type V = MetaView;

    open spec fn view(&self) -> MetaView {
        MetaView {
            title: self.title.deep_view(),
            description: self.description.deep_view(),
            favicon: self.favicon.deep_view(),
            logo: self.logo.deep_view(),
            keywords: self.keywords.deep_view(),
        }
    }
}

/// The default metadata: every field unset.
pub open spec fn empty_meta() -> MetaView {
    MetaView { title: None, description: None, favicon: None, logo: None, keywords: None }
}

impl Default for NameMetadata {
    fn default() -> (r: Self)
        ensures
            r@ == empty_meta(),
    {
        NameMetadata { title: None, description: None, favicon: None, logo: None, keywords: None }
    }
}

/// Field-by-field merge of a patch into stored metadata: a provided field
/// overrides the stored value, an unspecified field leaves it untouched.
/// Supplying `Some` of an empty keyword list therefore clears the keywords,
/// while omitting the field preserves them.
pub open spec fn merge_meta(stored: MetaView, patch: MetaView) -> MetaView {
    MetaView {
        title: if patch.title is Some {
            patch.title
        } else {
            stored.title
        },
        description: if patch.description is Some {
            patch.description
        } else {
            stored.description
        },
        favicon: if patch.favicon is Some {
            patch.favicon
        } else {
            stored.favicon
        },
        logo: if patch.logo is Some {
            patch.logo
        } else {
            stored.logo
        },
        keywords: if patch.keywords is Some {
            patch.keywords
        } else {
            stored.keywords
        },
    }
}

/// The record shape returned by queries: the record joined with its canonical
/// name and metadata.
#[derive(Debug, Clone, PartialEq, Eq)]
pub struct PublicNameRecord {
    pub owner: String,
    pub cannonical_name: String,
    pub contract: String,
    pub created_at: u64,
    pub meta: NameMetadata,
}

/// Mathematical value of a `PublicNameRecord`.
#[verifier::ext_equal]
pub ghost struct PublicRecordView {
    pub owner: Seq<char>,
    pub cannonical_name: Seq<char>,
    pub contract: Seq<char>,
    pub created_at: u64,
    pub meta: MetaView,
}

impl View for PublicNameRecord {
    type V = PublicRecordView;

    open spec fn view(&self) -> PublicRecordView {
        PublicRecordView {
            owner: self.owner@,
            cannonical_name: self.cannonical_name@,
            contract: self.contract@,
            created_at: self.created_at,
            meta: self.meta@,
        }
    }
}

impl DeepView for PublicNameRecord {
    type V = PublicRecordView;

    open spec fn deep_view(&self) -> PublicRecordView {
        self.view()
    }
}

impl NameRecord {
    /// Joins this record with its canonical name and metadata into the
    /// public record shape that queries return.
    pub fn build_public_name_record(
        &self,
        cannonical_name: &String,
        meta: &NameMetadata,
    ) -> (r: PublicNameRecord)
        ensures
            r@ == (PublicRecordView {
                owner: self@.owner,
                cannonical_name: cannonical_name@,
                contract: self@.contract,
                created_at: self.created_at,
                meta: meta@,
            }),
    {
        PublicNameRecord {
            owner: self.owner.clone(),
            cannonical_name: cannonical_name.clone(),
            contract: self.contract.clone(),
            created_at: self.created_at,
            meta: clone_meta(meta),
        }
    }
}

pub open spec fn title_ok(m: MetaView) -> bool {
    m.title matches Some(t) ==> t.len() <= NameMetadata::MAX_TITLE_LEN
}

pub open spec fn description_ok(m: MetaView) -> bool {
    m.description matches Some(d) ==> d.len() <= NameMetadata::MAX_DESCRIPTION_LEN
}

pub open spec fn keyword_count_ok(m: MetaView) -> bool {
    m.keywords matches Some(ks) ==> ks.len() <= NameMetadata::MAX_KEYWORDS
}

pub open spec fn keyword_lens_ok(m: MetaView) -> bool {
    m.keywords matches Some(ks) ==> forall|i: int|
        0 <= i < ks.len() ==> #[trigger] ks[i].len() <= NameMetadata::MAX_KEYWORD_LEN
}

/// The constraints a metadata patch must meet: title at most 100 characters,
/// description at most 500, at most 10 keywords of at most 50 characters each.
pub open spec fn meta_valid(m: MetaView) -> bool {
    title_ok(m) && description_ok(m) && keyword_count_ok(m) && keyword_lens_ok(m)
}

/// The diagnostic attached to the first violated metadata constraint, checked
/// in order: title, description, keyword count, keyword length.  Meaningful
/// only when `!meta_valid(m)`.
pub open spec fn meta_error_reason(m: MetaView) -> Seq<char> {
    if !title_ok(m) {
        "Title must be less than 100 characters"@
    } else if !description_ok(m) {
        "Description must be less than 500 characters"@
    } else if !keyword_count_ok(m) {
        "Keywords must be less than 10 in length"@
    } else {
        "Keyword must be less than 50 characters"@
    }
}

impl NameMetadata {
    pub const MAX_TITLE_LEN: usize = 100;

    pub const MAX_DESCRIPTION_LEN: usize = 500;

    pub const MAX_KEYWORDS: usize = 10;

    pub const MAX_KEYWORD_LEN: usize = 50;

    /// Checks the patch constraints, in order, and reports the first
    /// violation; valid metadata passes.
    pub fn validate(&self) -> (r: Result<(), ContractError>)
        ensures
            meta_valid(self@) ==> r == Ok::<(), ContractError>(()),
            !meta_valid(self@) ==> (r matches Err(e)
                && e matches ContractError::ValidationError { reason }
                && reason@ == meta_error_reason(self@)),
    {
        if let Some(title) = &self.title {
            if title.as_str().unicode_len() > Self::MAX_TITLE_LEN {
                return Err(ContractError::ValidationError {
                    reason: "Title must be less than 100 characters".to_owned(),
                });
            }
        }
        if let Some(description) = &self.description {
            if description.as_str().unicode_len() > Self::MAX_DESCRIPTION_LEN {
                return Err(ContractError::ValidationError {
                    reason: "Description must be less than 500 characters".to_owned(),
                });
            }
        }
        if let Some(keywords) = &self.keywords {
            if keywords.len() > Self::MAX_KEYWORDS {
                return Err(ContractError::ValidationError {
                    reason: "Keywords must be less than 10 in length".to_owned(),
                });
            }
            let mut i: usize = 0;
            while i < keywords.len()
                invariant
                    i <= keywords@.len(),
                    self.keywords matches Some(ks) && ks@ == keywords@,
                    title_ok(self@),
                    description_ok(self@),
                    keyword_count_ok(self@),
                    forall|j: int|
                        0 <= j < i ==> #[trigger] keywords@[j]@.len()
                            <= NameMetadata::MAX_KEYWORD_LEN,
                decreases keywords@.len() - i,
            {
                if keywords[i].as_str().unicode_len() > Self::MAX_KEYWORD_LEN {
                    proof {
                        assert(self@.keywords matches Some(ks) && ks[i as int].len()
                            > NameMetadata::MAX_KEYWORD_LEN);
                        assert(!keyword_lens_ok(self@));
                    }
                    return Err(ContractError::ValidationError {
                        reason: "Keyword must be less than 50 characters".to_owned(),
                    });
                }
                i = i + 1;
            }
        }
        Ok(())
    }
}

impl DeepView for NameMetadata {
    type V = MetaView;

    open spec fn deep_view(&self) -> MetaView {
        self.view()
    }
}

/// Merges a patch into stored metadata, field by field: a provided field
/// overrides the stored value, an unspecified field leaves it untouched.
pub fn apply_patch(stored: NameMetadata, patch: NameMetadata) -> (r: NameMetadata)
    ensures
        r@ == merge_meta(stored@, patch@),
{
    NameMetadata {
        title: match patch.title {
            Some(t) => Some(t),
            None => stored.title,
        },
        description: match patch.description {
            Some(d) => Some(d),
            None => stored.description,
        },
        favicon: match patch.favicon {
            Some(f) => Some(f),
            None => stored.favicon,
        },
        logo: match patch.logo {
            Some(l) => Some(l),
            None => stored.logo,
        },
        keywords: match patch.keywords {
            Some(k) => Some(k),
            None => stored.keywords,
        },
    }
}

/// Copies an optional string, preserving its value.
pub fn clone_opt_string(o: &Option<String>) -> (r: Option<String>)
    ensures
        r.deep_view() == o.deep_view(),
{
    match o {
        Some(s) => Some(s.clone()),
        None => None,
    }
}

/// Copies an image asset, preserving its value.
pub fn clone_image(a: &ImageAsset) -> (r: ImageAsset)
    ensures
        r@ == a@,
{
    match a {
        ImageAsset::Svg(s) => ImageAsset::Svg(s.clone()),
        ImageAsset::Url(s) => ImageAsset::Url(s.clone()),
    }
}

/// Copies an optional image asset, preserving its value.
pub fn clone_opt_image(o: &Option<ImageAsset>) -> (r: Option<ImageAsset>)
    ensures
        r.deep_view() == o.deep_view(),
{
    match o {
        Some(a) => Some(clone_image(a)),
        None => None,
    }
}

/// Copies a vector of strings, preserving its value.
pub fn clone_string_vec(v: &Vec<String>) -> (r: Vec<String>)
    ensures
        r.deep_view() == v.deep_view(),
{
    let mut out: Vec<String> = Vec::new();
    let mut i: usize = 0;
    while i < v.len()
        invariant
            i <= v@.len(),
            out@.len() == i,
            forall|j: int| 0 <= j < i ==> #[trigger] out@[j]@ == v@[j]@,
        decreases v@.len() - i,
    {
        out.push(v[i].clone());
        i = i + 1;
    }
    proof {
        assert(out.deep_view() =~= v.deep_view());
    }
    out
}

/// Copies an optional vector of strings, preserving its value.
pub fn clone_opt_string_vec(o: &Option<Vec<String>>) -> (r: Option<Vec<String>>)
    ensures
        r.deep_view() == o.deep_view(),
{
    match o {
        Some(v) => Some(clone_string_vec(v)),
        None => None,
    }
}

/// Copies metadata, preserving its value.
pub fn clone_meta(m: &NameMetadata) -> (r: NameMetadata)
    ensures
        r@ == m@,
{
    NameMetadata {
        title: clone_opt_string(&m.title),
        description: clone_opt_string(&m.description),
        favicon: clone_opt_image(&m.favicon),
        logo: clone_opt_image(&m.logo),
        keywords: clone_opt_string_vec(&m.keywords),
    }
}

/// Copies a configuration, preserving its value.
pub fn clone_config(c: &Config) -> (r: Config)
    ensures
        r@ == c@,
{
    Config {
        price: crate::token::clone_token_amount(&c.price),
        fee_recipient: c.fee_recipient.clone(),
        max_name_len: c.max_name_len,
    }
}

} // verus!
