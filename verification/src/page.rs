//! Page identities: the fixed pages of the application and the page of one
//! collection, with their canonical text and their hash.

use crate::decimal::{decimal, decimal_string, lemma_decimal_injective, lemma_decimal_nonempty};
use std::collections::hash_map::DefaultHasher;
use std::hash::{Hash, Hasher};
use vstd::prelude::*;
use vstd::std_specs::cmp::PartialEqSpecImpl;
use vstd::std_specs::hash::DefaultHasherAdditionalSpecFns;

verus! {

/// The opaque identifier that storage gives a collection.
#[derive(Debug, Clone, Hash, Eq)]
pub struct CollectionId(pub String);

impl View for CollectionId {
    type V = Seq<char>;

    open spec fn view(&self) -> Seq<char> {
        self.0@
    }
}

impl PartialEq for CollectionId {
    /// Two identifiers are equal when their texts are.
    fn eq(&self, other: &Self) -> (same: bool) {
        self.0 == other.0
    }
}

impl PartialEqSpecImpl for CollectionId {
    open spec fn obeys_eq_spec() -> bool {
        true
    }

    open spec fn eq_spec(&self, other: &Self) -> bool {
        self@ == other@
    }
}

/// A page of the application.
#[derive(Debug, Clone, Hash, Eq, PartialOrd, Ord)]
pub enum Pages {
    MainPage,
    Explore,
    Collections,
    DownloadProgress,
    /// The page of the collection with this identifier.
    CollectionPage(String),
}

/// What a page is, as a mathematical value.
pub enum PageId {
    MainPage,
    Explore,
    Collections,
    DownloadProgress,
    CollectionPage(Seq<char>),
}

impl View for Pages {
    type V = PageId;

    open spec fn view(&self) -> PageId {
        match self {
            Pages::MainPage => PageId::MainPage,
            Pages::Explore => PageId::Explore,
            Pages::Collections => PageId::Collections,
            Pages::DownloadProgress => PageId::DownloadProgress,
            Pages::CollectionPage(id) => PageId::CollectionPage(id@),
        }
    }
}

impl PartialEq for Pages {
    /// Two pages are equal when they are the same variant and, for the page
    /// of a collection, carry the same identifier.
    fn eq(&self, other: &Self) -> (same: bool) {
        match (self, other) {
            (Pages::MainPage, Pages::MainPage) => true,
            (Pages::Explore, Pages::Explore) => true,
            (Pages::Collections, Pages::Collections) => true,
            (Pages::DownloadProgress, Pages::DownloadProgress) => true,
            (Pages::CollectionPage(a), Pages::CollectionPage(b)) => *a == *b,
            _ => false,
        }
    }
}

impl PartialEqSpecImpl for Pages {
    open spec fn obeys_eq_spec() -> bool {
        true
    }

    open spec fn eq_spec(&self, other: &Self) -> bool {
        self@ == other@
    }
}

/// The writes that hashing a text makes on a hasher: a function of the
/// text's characters alone.
pub uninterp spec fn text_hash_writes(text: Seq<char>) -> Seq<Seq<u8>>;

/// The writes that hashing a pointer-sized signed integer makes on a hasher:
/// a function of the integer alone.
pub uninterp spec fn tag_hash_writes(tag: isize) -> Seq<Seq<u8>>;

/// Calls `<str as std::hash::Hash>::hash` on a `DefaultHasher`. The contract
/// claims that the call only adds writes to those the hasher has already
/// taken, and that the writes it adds depend on nothing but the characters
/// of the text.
#[verifier::external_body]
fn feed_text(hasher: &mut DefaultHasher, text: &str)
    ensures
        final(hasher)@ == old(hasher)@ + text_hash_writes(text@),
{
    text.hash(hasher);
}

/// Calls `<isize as std::hash::Hash>::hash` on a `DefaultHasher`. The
/// contract claims that the call only adds writes to those the hasher has
/// already taken, and that the writes it adds depend on nothing but the
/// integer.
#[verifier::external_body]
fn feed_tag(hasher: &mut DefaultHasher, tag: isize)
    ensures
        final(hasher)@ == old(hasher)@ + tag_hash_writes(tag),
{
    tag.hash(hasher);
}

/// The 64-bit hash of a text: what a fresh default hasher reports once the
/// text has been fed to it.
pub open spec fn text_digest(text: Seq<char>) -> u64 {
    DefaultHasher::spec_finish(text_hash_writes(text))
}

/// The position of a page's variant in the declaration of [`Pages`].
pub open spec fn page_tag(page: PageId) -> isize {
    match page {
        PageId::MainPage => 0,
        PageId::Explore => 1,
        PageId::Collections => 2,
        PageId::DownloadProgress => 3,
        PageId::CollectionPage(_) => 4,
    }
}

/// Everything a page feeds a hasher: its variant's position and, for the
/// page of a collection, the identifier.
pub open spec fn page_hash_writes(page: PageId) -> Seq<Seq<u8>> {
    match page {
        PageId::CollectionPage(id) => tag_hash_writes(page_tag(page)) + text_hash_writes(id),
        _ => tag_hash_writes(page_tag(page)),
    }
}

/// The 64-bit hash of a page.
pub open spec fn page_digest(page: PageId) -> u64 {
    DefaultHasher::spec_finish(page_hash_writes(page))
}

/// The canonical text of the page of a collection whose identifier hashes
/// to `digest`.
pub open spec fn collection_page_text(digest: u64) -> Seq<char> {
    "collection-page-"@ + decimal(digest as nat)
}

/// The canonical text of a page. It is what marks the page in the view and
/// what the identifier of its container ends in.
pub open spec fn canonical_text(page: PageId) -> Seq<char> {
    match page {
        PageId::MainPage => "main-page"@,
        PageId::Explore => "explore"@,
        PageId::Collections => "collections"@,
        PageId::DownloadProgress => "progress"@,
        PageId::CollectionPage(id) => collection_page_text(text_digest(id)),
    }
}

/// The identifier of the element that holds a page and slides with it.
pub open spec fn slide_in_text(page: PageId) -> Seq<char> {
    "flyinout-"@ + canonical_text(page)
}

/// Equal pages have equal hashes, equal canonical texts and equal element
/// identifiers; in particular the pages of two collections with equal
/// identifiers do.
pub proof fn lemma_equal_pages_agree(a: PageId, b: PageId)
    requires
        a == b,
    ensures
        page_digest(a) == page_digest(b),
        canonical_text(a) == canonical_text(b),
        slide_in_text(a) == slide_in_text(b),
{
}

/// The pages of two collections have equal canonical texts exactly when the
/// identifiers of the collections have equal hashes.
pub proof fn lemma_collection_page_text(a: Seq<char>, b: Seq<char>)
    ensures
        a == b ==> canonical_text(PageId::CollectionPage(a)) == canonical_text(
            PageId::CollectionPage(b),
        ),
        canonical_text(PageId::CollectionPage(a)) == canonical_text(PageId::CollectionPage(b))
            <==> text_digest(a) == text_digest(b),
{
    let x = text_digest(a);
    let y = text_digest(b);
    if collection_page_text(x) == collection_page_text(y) {
        let prefix = "collection-page-"@;
        assert(decimal(x as nat) =~= collection_page_text(x).subrange(
            prefix.len() as int,
            collection_page_text(x).len() as int,
        ));
        assert(decimal(y as nat) =~= collection_page_text(y).subrange(
            prefix.len() as int,
            collection_page_text(y).len() as int,
        ));
        lemma_decimal_injective(x as nat, y as nat);
    }
}

/// No page has an empty canonical text.
pub proof fn lemma_canonical_text_nonempty(page: PageId)
    ensures
        canonical_text(page).len() > 0,
{
    reveal_strlit("main-page");
    reveal_strlit("explore");
    reveal_strlit("collections");
    reveal_strlit("progress");
    reveal_strlit("collection-page-");
}

/// Two pages with the same canonical text are the same page, or they are
/// the pages of two collections whose identifiers have the same hash.
pub proof fn lemma_canonical_text_separates(a: PageId, b: PageId)
    requires
        canonical_text(a) == canonical_text(b),
    ensures
        a == b || (a is CollectionPage && b is CollectionPage && text_digest(a->0) == text_digest(
            b->0,
        )),
{
    reveal_strlit("main-page");
    reveal_strlit("explore");
    reveal_strlit("collections");
    reveal_strlit("progress");
    reveal_strlit("collection-page-");
    assert("main-page"@.len() == 9);
    assert("explore"@.len() == 7);
    assert("collections"@.len() == 11);
    assert("progress"@.len() == 8);
    assert("collection-page-"@.len() == 16);
    if a is CollectionPage {
        lemma_decimal_nonempty(text_digest(a->0) as nat);
        assert(canonical_text(a).len() >= 17);
    }
    if b is CollectionPage {
        lemma_decimal_nonempty(text_digest(b->0) as nat);
        assert(canonical_text(b).len() >= 17);
    }
    if a is CollectionPage && b is CollectionPage {
        lemma_collection_page_text(a->0, b->0);
    }
}

/// Two pages whose elements have the same identifier have the same
/// canonical text.
pub proof fn lemma_slide_in_text_separates(a: PageId, b: PageId)
    requires
        slide_in_text(a) == slide_in_text(b),
    ensures
        canonical_text(a) == canonical_text(b),
{
    let prefix = "flyinout-"@;
    assert(canonical_text(a) =~= slide_in_text(a).subrange(
        prefix.len() as int,
        slide_in_text(a).len() as int,
    ));
    assert(canonical_text(b) =~= slide_in_text(b).subrange(
        prefix.len() as int,
        slide_in_text(b).len() as int,
    ));
}

/// Hashes a text with a fresh default hasher.
pub fn hash_text(text: &str) -> (digest: u64)
    ensures
        digest == text_digest(text@),
{
    let mut hasher = DefaultHasher::new();
    feed_text(&mut hasher, text);
    assert(hasher@ =~= text_hash_writes(text@));
    hasher.finish()
}

/// Writes the canonical text of the page of a collection from the hash of
/// the collection's identifier.
pub fn collection_page_string(digest: u64) -> (text: String)
    ensures
        text@ == collection_page_text(digest),
{
    let number = decimal_string(digest);
    String::from_str("collection-page-").concat(number.as_str())
}

impl Pages {
    /// The page of the collection with the given identifier.
    pub fn new_collection_page(id: CollectionId) -> (page: Pages)
        ensures
            page@ == PageId::CollectionPage(id@),
    {
        Pages::CollectionPage(id.0)
    }

    /// The hash of this page; equal pages have equal hashes.
    pub fn hashed_value(&self) -> (digest: u64)
        ensures
            digest == page_digest(self@),
    {
        let mut hasher = DefaultHasher::new();
        match self {
            Pages::MainPage => feed_tag(&mut hasher, 0),
            Pages::Explore => feed_tag(&mut hasher, 1),
            Pages::Collections => feed_tag(&mut hasher, 2),
            Pages::DownloadProgress => feed_tag(&mut hasher, 3),
            Pages::CollectionPage(id) => {
                feed_tag(&mut hasher, 4);
                feed_text(&mut hasher, id.as_str());
            },
        }
        assert(hasher@ =~= page_hash_writes(self@));
        hasher.finish()
    }

    /// The canonical text of this page.
    pub fn to_string(&self) -> (text: String)
        ensures
            text@ == canonical_text(self@),
    {
        match self {
            Pages::MainPage => String::from_str("main-page"),
            Pages::Explore => String::from_str("explore"),
            Pages::Collections => String::from_str("collections"),
            Pages::DownloadProgress => String::from_str("progress"),
            Pages::CollectionPage(id) => collection_page_string(hash_text(id.as_str())),
        }
    }

    /// The identifier of the element that holds this page and slides with it.
    pub fn slide_in_id(&self) -> (id: String)
        ensures
            id@ == slide_in_text(self@),
    {
        let text = self.to_string();
        String::from_str("flyinout-").concat(text.as_str())
    }
}

} // verus!
